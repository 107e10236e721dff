//! What holds of the commands, whatever collection they start from.

use crate::collection::{
    active_tasks, at_most_one_active, checked_off, context_renamed, contexts_deleted, dense,
    ensured, first_active, has_active, has_name, is_first_active, lemma_first_active,
    lemma_has_first_active, listed, names_unique, new_task, on_active, picks, renumbered,
    reworded, survivors, switched_to, task_added, task_edited, tasks_cleared, tasks_deleted,
    tasks_done, well_formed, without_ids,
};
use crate::services::api::{
    create_context, create_tasks, endpoint, migration_start, migration_step, turn_to, BodyView,
    Method, MigrationActionView, MigrationEvent, MigrationStateView, RequestView, ServiceView,
};
use crate::structs::{ContextView, TaskView};
use crate::utils::{
    decimal, digit_char, digit_of, is_numeral, last_of, lemma_last_of, lemma_last_of_is,
    numeral_value, split_commas, token_id, unsigned,
};
use vstd::prelude::*;

verus! {

/// Replacing the task list of the active context moves no context and
/// changes no active flag: the same context stays the first active one, and
/// its list is the one put in.
pub proof fn lemma_on_active(s: Seq<ContextView>, tasks: Seq<TaskView>)
    requires
        has_active(s),
    ensures
        has_active(on_active(s, tasks)),
        first_active(on_active(s, tasks)) == first_active(s),
        active_tasks(on_active(s, tasks)) == tasks,
        on_active(s, tasks).len() == s.len(),
        forall|i: int|
            0 <= i < s.len() ==> {
                let after = #[trigger] on_active(s, tasks)[i];
                after.active == s[i].active && after.name == s[i].name && after.id == s[i].id
            },
        forall|i: int|
            0 <= i < s.len() && i != first_active(s) ==> #[trigger] on_active(s, tasks)[i] == s[i],
{
    lemma_has_first_active(s);
    let a = first_active(s);
    let r = on_active(s, tasks);
    assert(is_first_active(r, a)) by {
        assert forall|j: int| 0 <= j < a implies !(#[trigger] r[j]).active by {
            assert(!s[j].active);
        }
    }
    lemma_first_active(r, a);
}

/// The collection after one `add` for each entry of `entries`, in order.
/// An entry is the content of a task and the moment it was added.
pub open spec fn tasks_added(s: Seq<ContextView>, entries: Seq<(Seq<char>, Seq<char>)>) -> Seq<
    ContextView,
>
    decreases entries.len(),
{
    if entries.len() == 0 {
        s
    } else {
        task_added(tasks_added(s, entries.drop_last()), entries.last().0, entries.last().1)
    }
}

/// However many tasks are added to a context whose ids count up from 1,
/// its ids still count up from 1 without a gap; the tasks that were there
/// stay as they were, and the new ones follow them in the order in which
/// they were added.
pub proof fn law_added_tasks_count_up(s: Seq<ContextView>, entries: Seq<(Seq<char>, Seq<char>)>)
    requires
        has_active(s),
        dense(active_tasks(s)),
    ensures
        has_active(tasks_added(s, entries)),
        first_active(tasks_added(s, entries)) == first_active(s),
        dense(active_tasks(tasks_added(s, entries))),
        active_tasks(tasks_added(s, entries)).len() == active_tasks(s).len() + entries.len(),
        forall|k: int|
            0 <= k < active_tasks(s).len() ==> #[trigger] active_tasks(tasks_added(s, entries))[k]
                == active_tasks(s)[k],
        forall|k: int|
            0 <= k < entries.len() ==> (#[trigger] active_tasks(tasks_added(s, entries))[
                active_tasks(s).len() + k
            ]).content == entries[k].0,
    decreases entries.len(),
{
    if entries.len() > 0 {
        let front = entries.drop_last();
        law_added_tasks_count_up(s, front);
        let mid = tasks_added(s, front);
        let tasks = active_tasks(mid);
        let grown = tasks.push(new_task(tasks.len() + 1, entries.last().0, entries.last().1));
        lemma_on_active(mid, grown);
        let r = tasks_added(s, entries);
        assert(active_tasks(r) == grown);
        assert forall|k: int| 0 <= k < entries.len() implies (#[trigger] active_tasks(r)[
            active_tasks(s).len() + k
        ]).content == entries[k].0 by {
            if k < front.len() {
                assert(grown[active_tasks(s).len() + k] == tasks[active_tasks(s).len() + k]);
                assert(front[k] == entries[k]);
            }
        }
    }
}

/// The places, in `tasks`, of the tasks that `ids` does not list, in order.
pub open spec fn kept_places(tasks: Seq<TaskView>, ids: Seq<usize>) -> Seq<int>
    decreases tasks.len(),
{
    if tasks.len() == 0 {
        Seq::empty()
    } else {
        let rest = kept_places(tasks.drop_last(), ids);
        if listed(ids, tasks.last().id) {
            rest
        } else {
            rest.push(tasks.len() - 1)
        }
    }
}

/// `kept_places` holds exactly the places of the tasks that `ids` does not
/// list, each once and in rising order, and `without_ids` holds the tasks at
/// those places.
pub proof fn lemma_kept_places(tasks: Seq<TaskView>, ids: Seq<usize>)
    ensures
        kept_places(tasks, ids).len() == without_ids(tasks, ids).len(),
        forall|k: int|
            0 <= k < kept_places(tasks, ids).len() ==> 0 <= (#[trigger] kept_places(tasks, ids)[k])
                < tasks.len() && !listed(ids, tasks[kept_places(tasks, ids)[k]].id)
                && without_ids(tasks, ids)[k] == tasks[kept_places(tasks, ids)[k]],
        forall|k: int, l: int|
            0 <= k < l < kept_places(tasks, ids).len() ==> (#[trigger] kept_places(tasks, ids)[k])
                < (#[trigger] kept_places(tasks, ids)[l]),
        forall|j: int|
            0 <= j < tasks.len() && !listed(ids, (#[trigger] tasks[j]).id) ==> kept_places(
                tasks,
                ids,
            ).contains(j),
    decreases tasks.len(),
{
    if tasks.len() > 0 {
        let front = tasks.drop_last();
        lemma_kept_places(front, ids);
        let rest = kept_places(front, ids);
        let all = kept_places(tasks, ids);
        assert forall|j: int|
            0 <= j < tasks.len() && !listed(ids, (#[trigger] tasks[j]).id) implies all.contains(
            j,
        ) by {
            if j < front.len() {
                assert(front[j] == tasks[j]);
                assert(rest.contains(j));
                let k = choose|k: int| 0 <= k < rest.len() && rest[k] == j;
                assert(all[k] == j);
            } else {
                assert(all[all.len() - 1] == j);
            }
        }
        assert forall|k: int| 0 <= k < all.len() implies 0 <= (#[trigger] all[k]) < tasks.len()
            && !listed(ids, tasks[all[k]].id) && without_ids(tasks, ids)[k] == tasks[all[k]] by {
            if k < rest.len() {
                assert(all[k] == rest[k]);
                assert(front[rest[k]] == tasks[rest[k]]);
            }
        }
        assert forall|k: int, l: int| 0 <= k < l < all.len() implies (#[trigger] all[k]) < (
        #[trigger] all[l]) by {
            assert(all[k] == rest[k]);
            if l < rest.len() {
                assert(all[l] == rest[l]);
            }
        }
    }
}

/// After `rm`, whatever ids it was given, the ids of the active context
/// count up from 1 without a gap. The tasks that stay are those whose id
/// was not listed, each unchanged but for its id, and in the order they
/// had: the task now at `k` is the one that stood at `kept_places(..)[k]`,
/// and those places rise with `k` and leave out no task that was to stay.
pub proof fn law_deleting_tasks_renumbers(s: Seq<ContextView>, ids: Seq<usize>)
    requires
        has_active(s),
    ensures
        has_active(tasks_deleted(s, ids)),
        first_active(tasks_deleted(s, ids)) == first_active(s),
        dense(active_tasks(tasks_deleted(s, ids))),
        active_tasks(tasks_deleted(s, ids)).len() == kept_places(active_tasks(s), ids).len(),
        forall|k: int|
            0 <= k < active_tasks(tasks_deleted(s, ids)).len() ==> #[trigger] active_tasks(
                tasks_deleted(s, ids),
            )[k] == (TaskView {
                id: (k + 1) as nat,
                ..active_tasks(s)[kept_places(active_tasks(s), ids)[k]]
            }),
        forall|k: int|
            0 <= k < kept_places(active_tasks(s), ids).len() ==> 0 <= (#[trigger] kept_places(
                active_tasks(s),
                ids,
            )[k]) < active_tasks(s).len() && !listed(
                ids,
                active_tasks(s)[kept_places(active_tasks(s), ids)[k]].id,
            ),
        forall|k: int, l: int|
            0 <= k < l < kept_places(active_tasks(s), ids).len() ==> (#[trigger] kept_places(
                active_tasks(s),
                ids,
            )[k]) < (#[trigger] kept_places(active_tasks(s), ids)[l]),
        forall|j: int|
            0 <= j < active_tasks(s).len() && !listed(ids, (#[trigger] active_tasks(s)[j]).id)
                ==> kept_places(active_tasks(s), ids).contains(j),
{
    let tasks = active_tasks(s);
    lemma_kept_places(tasks, ids);
    lemma_on_active(s, renumbered(without_ids(tasks, ids), 0));
}

/// After `use`, the contexts called `name` are active and no others, and
/// there is such a context.
pub proof fn law_use_activates_the_named(s: Seq<ContextView>, name: Seq<char>)
    ensures
        has_name(switched_to(s, name), name),
        forall|i: int|
            0 <= i < switched_to(s, name).len() ==> ((#[trigger] switched_to(s, name)[i]).active
                <==> switched_to(s, name)[i].name == name),
{
    let t = ensured(s, name);
    let r = switched_to(s, name);
    if has_name(s, name) {
        let i = choose|i: int| 0 <= i < s.len() && (#[trigger] s[i]).name == name;
        assert(r[i].name == name);
    } else {
        assert(r[s.len() as int].name == name);
    }
}

/// After `use` on a collection in which no two contexts share a name,
/// exactly one context is active: the one called `name`. Names are still
/// not shared afterwards.
pub proof fn law_use_leaves_one_active(s: Seq<ContextView>, name: Seq<char>) -> (at: int)
    requires
        names_unique(s),
    ensures
        0 <= at < switched_to(s, name).len(),
        switched_to(s, name)[at].name == name,
        switched_to(s, name)[at].active,
        forall|j: int|
            0 <= j < switched_to(s, name).len() && j != at ==> !(#[trigger] switched_to(
                s,
                name,
            )[j]).active,
        names_unique(switched_to(s, name)),
        at_most_one_active(switched_to(s, name)),
        is_first_active(switched_to(s, name), at),
{
    let t = ensured(s, name);
    let r = switched_to(s, name);
    assert(names_unique(t)) by {
        assert forall|i: int, j: int| 0 <= i < j < t.len() implies (#[trigger] t[i]).name != (
        #[trigger] t[j]).name by {
            if !has_name(s, name) {
                if j == s.len() {
                    assert(s[i].name != name);
                }
            }
        }
    }
    assert(names_unique(r)) by {
        assert forall|i: int, j: int| 0 <= i < j < r.len() implies (#[trigger] r[i]).name != (
        #[trigger] r[j]).name by {
            assert(t[i].name != t[j].name);
        }
    }
    law_use_activates_the_named(s, name);
    let at = choose|i: int| 0 <= i < r.len() && (#[trigger] r[i]).name == name;
    assert forall|j: int| 0 <= j < r.len() && j != at implies !(#[trigger] r[j]).active by {
        if j < at {
            assert(r[j].name != r[at].name);
        } else {
            assert(r[at].name != r[j].name);
        }
    }
    at
}

/// A second `use` of the same name changes nothing.
pub proof fn law_use_twice_is_use_once(s: Seq<ContextView>, name: Seq<char>)
    ensures
        switched_to(switched_to(s, name), name) == switched_to(s, name),
{
    let r = switched_to(s, name);
    law_use_activates_the_named(s, name);
    assert(ensured(r, name) == r);
    assert(switched_to(r, name) =~= r);
}

/// Every context that survives `rmc` was in the collection before, and was
/// not picked at the place it had.
pub proof fn lemma_survivors(s: Seq<ContextView>, tokens: Seq<Seq<char>>)
    ensures
        survivors(s, tokens).len() <= s.len(),
        forall|k: int|
            0 <= k < survivors(s, tokens).len() ==> exists|i: int|
                0 <= i < s.len() && !picks(tokens, s[i].name, (i + 1) as nat) && s[i]
                    == #[trigger] survivors(s, tokens)[k],
    decreases s.len(),
{
    if s.len() > 0 {
        let front = s.drop_last();
        lemma_survivors(front, tokens);
        let rest = survivors(front, tokens);
        let all = survivors(s, tokens);
        assert forall|k: int| 0 <= k < all.len() implies exists|i: int|
            0 <= i < s.len() && !picks(tokens, s[i].name, (i + 1) as nat) && s[i]
                == #[trigger] all[k] by {
            if k < rest.len() {
                assert(all[k] == rest[k]);
                let i = choose|i: int|
                    0 <= i < front.len() && !picks(tokens, front[i].name, (i + 1) as nat)
                        && front[i] == rest[k];
                assert(s[i] == front[i]);
            } else {
                assert(s[s.len() - 1] == all[k]);
            }
        }
    }
}

/// Where the one active context is among those that `rmc` removes and some
/// context is left, exactly one context is active afterwards: the first.
pub proof fn law_deleting_the_active_promotes_the_first(
    s: Seq<ContextView>,
    tokens: Seq<Seq<char>>,
)
    requires
        at_most_one_active(s),
        has_active(s),
        picks(tokens, s[first_active(s)].name, (first_active(s) + 1) as nat),
        survivors(s, tokens).len() > 0,
    ensures
        contexts_deleted(s, tokens).len() == survivors(s, tokens).len(),
        contexts_deleted(s, tokens)[0].active,
        forall|j: int|
            0 < j < contexts_deleted(s, tokens).len() ==> !(#[trigger] contexts_deleted(
                s,
                tokens,
            )[j]).active,
        forall|j: int|
            0 <= j < contexts_deleted(s, tokens).len() ==> #[trigger] contexts_deleted(s, tokens)[j]
                == (ContextView { active: j == 0, ..survivors(s, tokens)[j] }),
{
    lemma_has_first_active(s);
    let a = first_active(s);
    let rest = survivors(s, tokens);
    lemma_survivors(s, tokens);
    assert forall|k: int| 0 <= k < rest.len() implies !(#[trigger] rest[k]).active by {
        let i = choose|i: int|
            0 <= i < s.len() && !picks(tokens, s[i].name, (i + 1) as nat) && s[i] == rest[k];
        if s[i].active {
            assert(s[a].active);
            assert(i == a);
        }
    }
    assert(!has_active(rest));
}

/// Where `rmc` leaves the active context in place, no flag changes: the
/// contexts that stay are exactly as they were.
pub proof fn law_deleting_others_keeps_the_active(s: Seq<ContextView>, tokens: Seq<Seq<char>>)
    requires
        has_active(s),
        !picks(tokens, s[first_active(s)].name, (first_active(s) + 1) as nat),
    ensures
        contexts_deleted(s, tokens) == survivors(s, tokens),
        has_active(contexts_deleted(s, tokens)),
{
    lemma_has_first_active(s);
    lemma_kept_survives(s, tokens, first_active(s));
}

/// A context that is not picked at its place is among the survivors.
pub proof fn lemma_kept_survives(s: Seq<ContextView>, tokens: Seq<Seq<char>>, i: int)
    requires
        0 <= i < s.len(),
        !picks(tokens, s[i].name, (i + 1) as nat),
    ensures
        survivors(s, tokens).contains(s[i]),
    decreases s.len(),
{
    let all = survivors(s, tokens);
    if i == s.len() - 1 {
        assert(all[all.len() - 1] == s[i]);
    } else {
        let front = s.drop_last();
        assert(front[i] == s[i]);
        lemma_kept_survives(front, tokens, i);
        let rest = survivors(front, tokens);
        let k = choose|k: int| 0 <= k < rest.len() && rest[k] == s[i];
        assert(all[k] == s[i]);
    }
}

/// Putting a list with ids that count up from 1 in place of the active
/// one keeps a consistent collection consistent.
pub proof fn lemma_on_active_keeps_well_formed(s: Seq<ContextView>, tasks: Seq<TaskView>)
    requires
        well_formed(s),
        has_active(s),
        dense(tasks),
    ensures
        well_formed(on_active(s, tasks)),
{
    lemma_on_active(s, tasks);
    let r = on_active(s, tasks);
    assert forall|i: int, j: int| 0 <= i < j < r.len() implies (#[trigger] r[i]).name != (
    #[trigger] r[j]).name by {
        assert(s[i].name != s[j].name);
    }
    assert forall|i: int, j: int|
        0 <= i < r.len() && 0 <= j < r.len() && (#[trigger] r[i]).active && (
        #[trigger] r[j]).active implies i == j by {
        assert(s[i].active && s[j].active);
    }
    assert forall|i: int| 0 <= i < r.len() implies dense((#[trigger] r[i]).tasks) by {
        if i != first_active(s) {
            assert(dense(s[i].tasks));
        }
    }
}

/// `use` keeps a consistent collection consistent.
pub proof fn law_use_keeps_well_formed(s: Seq<ContextView>, name: Seq<char>)
    requires
        well_formed(s),
    ensures
        well_formed(switched_to(s, name)),
{
    let at = law_use_leaves_one_active(s, name);
    let t = ensured(s, name);
    let r = switched_to(s, name);
    assert forall|i: int| 0 <= i < r.len() implies dense((#[trigger] r[i]).tasks) by {
        if i < s.len() {
            assert(dense(s[i].tasks));
        }
    }
}

/// `add`, `up`, `done`, `clear` and `rm` keep a consistent collection
/// consistent, whatever they are given.
pub proof fn law_task_commands_keep_well_formed(
    s: Seq<ContextView>,
    id: nat,
    content: Seq<char>,
    now: Seq<char>,
    ids: Seq<usize>,
)
    requires
        well_formed(s),
        has_active(s),
    ensures
        well_formed(task_added(s, content, now)),
        well_formed(task_edited(s, id, content)),
        well_formed(tasks_done(s, ids)),
        well_formed(tasks_cleared(s)),
        well_formed(tasks_deleted(s, ids)),
{
    lemma_has_first_active(s);
    let tasks = active_tasks(s);
    assert(dense(s[first_active(s)].tasks));
    lemma_on_active_keeps_well_formed(
        s,
        tasks.push(new_task(tasks.len() + 1, content, now)),
    );
    lemma_on_active_keeps_well_formed(s, reworded(tasks, id, content));
    lemma_on_active_keeps_well_formed(s, checked_off(tasks, ids));
    lemma_on_active_keeps_well_formed(s, Seq::empty());
    lemma_on_active_keeps_well_formed(s, renumbered(without_ids(tasks, ids), 0));
}

/// `upc` changes names only: whatever it is given, no active flag and no
/// task changes. Names stay unshared where the new name is not in use and
/// one context at most carries the id.
pub proof fn law_renaming_keeps_flags_and_tasks(s: Seq<ContextView>, id: nat, name: Seq<char>)
    requires
        well_formed(s),
    ensures
        at_most_one_active(context_renamed(s, id, name)),
        forall|i: int|
            0 <= i < s.len() ==> (#[trigger] context_renamed(s, id, name)[i]).tasks == s[i].tasks
                && context_renamed(s, id, name)[i].active == s[i].active && context_renamed(
                s,
                id,
                name,
            )[i].id == s[i].id,
        !has_name(s, name) && (forall|i: int, j: int|
            0 <= i < j < s.len() ==> !((#[trigger] s[i]).id == id && (#[trigger] s[j]).id == id))
            ==> well_formed(context_renamed(s, id, name)),
{
    let r = context_renamed(s, id, name);
    assert forall|i: int, j: int|
        0 <= i < r.len() && 0 <= j < r.len() && (#[trigger] r[i]).active && (
        #[trigger] r[j]).active implies i == j by {
        assert(s[i].active && s[j].active);
    }
    if !has_name(s, name) && (forall|i: int, j: int|
        0 <= i < j < s.len() ==> !((#[trigger] s[i]).id == id && (#[trigger] s[j]).id == id)) {
        assert forall|i: int, j: int| 0 <= i < j < r.len() implies (#[trigger] r[i]).name != (
        #[trigger] r[j]).name by {
            assert(s[i].name != s[j].name);
            assert(s[i].name != name);
            assert(s[j].name != name);
            assert(!(s[i].id == id && s[j].id == id));
        }
        assert forall|i: int| 0 <= i < r.len() implies dense((#[trigger] r[i]).tasks) by {
            assert(dense(s[i].tasks));
        }
    }
}

/// The contexts that survive `rmc` keep the order they had: those that
/// survive among the first `k` are the first of all that survive.
pub proof fn lemma_survivors_in_order(s: Seq<ContextView>, tokens: Seq<Seq<char>>) -> (places: Seq<
    int,
>)
    ensures
        places.len() == survivors(s, tokens).len(),
        forall|k: int|
            0 <= k < places.len() ==> 0 <= (#[trigger] places[k]) < s.len() && s[places[k]]
                == survivors(s, tokens)[k],
        forall|k: int, l: int|
            0 <= k < l < places.len() ==> (#[trigger] places[k]) < (#[trigger] places[l]),
    decreases s.len(),
{
    if s.len() == 0 {
        Seq::empty()
    } else {
        let front = s.drop_last();
        let rest = lemma_survivors_in_order(front, tokens);
        let places = if picks(tokens, s.last().name, s.len()) {
            rest
        } else {
            rest.push(s.len() - 1)
        };
        assert forall|k: int| 0 <= k < places.len() implies 0 <= (#[trigger] places[k]) < s.len()
            && s[places[k]] == survivors(s, tokens)[k] by {
            if k < rest.len() {
                assert(places[k] == rest[k]);
                assert(front[rest[k]] == s[rest[k]]);
            }
        }
        assert forall|k: int, l: int| 0 <= k < l < places.len() implies (#[trigger] places[k]) < (
        #[trigger] places[l]) by {
            assert(places[k] == rest[k]);
            if l < rest.len() {
                assert(places[l] == rest[l]);
            }
        }
        places
    }
}

/// `rmc` keeps a consistent collection consistent.
pub proof fn law_deleting_contexts_keeps_well_formed(s: Seq<ContextView>, tokens: Seq<Seq<char>>)
    requires
        well_formed(s),
    ensures
        well_formed(contexts_deleted(s, tokens)),
{
    let rest = survivors(s, tokens);
    let places = lemma_survivors_in_order(s, tokens);
    let r = contexts_deleted(s, tokens);
    assert forall|i: int, j: int| 0 <= i < j < r.len() implies (#[trigger] r[i]).name != (
    #[trigger] r[j]).name by {
        assert(places[i] < places[j]);
        assert(s[places[i]].name != s[places[j]].name);
        assert(rest[i].name == r[i].name && rest[j].name == r[j].name);
    }
    assert forall|i: int, j: int|
        0 <= i < r.len() && 0 <= j < r.len() && (#[trigger] r[i]).active && (
        #[trigger] r[j]).active implies i == j by {
        if has_active(rest) {
            assert(rest[i].active && rest[j].active);
            assert(s[places[i]].active && s[places[j]].active);
            if i < j {
                assert(places[i] < places[j]);
            } else if j < i {
                assert(places[j] < places[i]);
            }
        } else {
            if i != 0 {
                assert(!rest[i].active);
            }
            if j != 0 {
                assert(!rest[j].active);
            }
        }
    }
    assert forall|i: int| 0 <= i < r.len() implies dense((#[trigger] r[i]).tasks) by {
        assert(dense(s[places[i]].tasks));
        assert(rest[i].tasks == r[i].tasks);
    }
}

/// Where a migration stands, and everything it has asked for so far, after
/// it asked for `action` in `state` and then met `events` one after the
/// other.
pub open spec fn migration_after(
    service: ServiceView,
    state: MigrationStateView,
    action: MigrationActionView,
    events: Seq<MigrationEvent>,
) -> (MigrationStateView, Seq<MigrationActionView>)
    decreases events.len(),
{
    if events.len() == 0 {
        (state, seq![action])
    } else {
        let next = migration_step(service, state, events[0]);
        let rest = migration_after(service, next.0, next.1, events.drop_first());
        (rest.0, seq![action] + rest.1)
    }
}

/// What a migration meets while it creates contexts without a hitch: for
/// each context the id that the service gave it, then the word that its
/// tasks were taken.
pub open spec fn creation_events(ids: Seq<usize>) -> Seq<MigrationEvent>
    decreases ids.len(),
{
    if ids.len() == 0 {
        Seq::empty()
    } else {
        seq![MigrationEvent::Created { id: ids[0] }, MigrationEvent::Sent] + creation_events(
            ids.drop_first(),
        )
    }
}

/// What a migration asks for while it creates `contexts` without a hitch:
/// each context in turn, followed by its tasks under the id that the
/// service gave the context; and at the end, the word that it is done.
pub open spec fn creation_actions(
    service: ServiceView,
    contexts: Seq<ContextView>,
    ids: Seq<usize>,
) -> Seq<MigrationActionView>
    decreases contexts.len(),
{
    if contexts.len() == 0 {
        seq![MigrationActionView::Report("Migration completed"@)]
    } else {
        seq![
            MigrationActionView::Send(create_context(service, contexts[0])),
            MigrationActionView::Send(create_tasks(service, contexts[0], ids[0])),
        ] + creation_actions(service, contexts.drop_first(), ids.drop_first())
    }
}

/// Once the service is cleared, a migration that meets no hitch creates
/// every context in order, each followed by its tasks, and ends by saying
/// that it is done.
pub proof fn lemma_creation_runs_through(
    service: ServiceView,
    contexts: Seq<ContextView>,
    ids: Seq<usize>,
)
    requires
        ids.len() == contexts.len(),
    ensures
        migration_after(
            service,
            turn_to(service, contexts).0,
            turn_to(service, contexts).1,
            creation_events(ids),
        ) == (MigrationStateView::Done, creation_actions(service, contexts, ids)),
    decreases contexts.len(),
{
    let start = turn_to(service, contexts);
    let events = creation_events(ids);
    if contexts.len() > 0 {
        let rest = contexts.drop_first();
        let rest_ids = ids.drop_first();
        lemma_creation_runs_through(service, rest, rest_ids);
        let rest_events = creation_events(rest_ids);
        let first = migration_step(service, start.0, events[0]);
        assert(events.drop_first() =~= seq![MigrationEvent::Sent] + rest_events);
        let tail = events.drop_first();
        let second = migration_step(service, first.0, tail[0]);
        assert(second == turn_to(service, rest));
        assert(tail.drop_first() =~= rest_events);
        let after_second = migration_after(service, second.0, second.1, rest_events);
        let after_first = migration_after(service, first.0, first.1, tail);
        assert(after_first.1 =~= seq![first.1] + after_second.1);
        let all = migration_after(service, start.0, start.1, events);
        assert(all.1 =~= seq![start.1] + after_first.1);
        assert(all.1 =~= creation_actions(service, contexts, ids));
    }
}

/// A migration that meets no hitch asks the service to delete its contexts
/// and then its tasks, creates every context of the stored collection in
/// order, each followed by its tasks under the id the service gave the
/// context, says that it is done, and is done. `ids` are the ids that the
/// service gives the contexts, in order.
pub proof fn law_migration_runs_through(
    service: ServiceView,
    source: Seq<ContextView>,
    ids: Seq<usize>,
)
    requires
        ids.len() == source.len(),
    ensures
        migration_after(
            service,
            migration_start(service, Ok(source)).0,
            migration_start(service, Ok(source)).1,
            seq![MigrationEvent::Sent, MigrationEvent::Sent] + creation_events(ids),
        ) == (
            MigrationStateView::Done,
            seq![
                MigrationActionView::Send(
                    RequestView {
                        method: Method::Delete,
                        url: endpoint(service.url, "context"@),
                        authorization: service.key,
                        body: BodyView::Empty,
                    },
                ),
                MigrationActionView::Send(
                    RequestView {
                        method: Method::Delete,
                        url: endpoint(service.url, "task"@),
                        authorization: service.key,
                        body: BodyView::Empty,
                    },
                ),
            ] + creation_actions(service, source, ids),
        ),
{
    let start = migration_start(service, Ok(source));
    let events = seq![MigrationEvent::Sent, MigrationEvent::Sent] + creation_events(ids);
    lemma_creation_runs_through(service, source, ids);
    let first = migration_step(service, start.0, events[0]);
    let tail = events.drop_first();
    assert(tail =~= seq![MigrationEvent::Sent] + creation_events(ids));
    let second = migration_step(service, first.0, tail[0]);
    assert(second == turn_to(service, source));
    assert(tail.drop_first() =~= creation_events(ids));
    let after_second = migration_after(service, second.0, second.1, creation_events(ids));
    let after_first = migration_after(service, first.0, first.1, tail);
    assert(after_first.1 =~= seq![first.1] + after_second.1);
    let all = migration_after(service, start.0, start.1, events);
    assert(all.1 =~= seq![start.1] + after_first.1);
}

/// `pieces` written one after the other with a comma between each two.
pub open spec fn joined(pieces: Seq<Seq<char>>) -> Seq<char>
    decreases pieces.len(),
{
    if pieces.len() == 0 {
        Seq::empty()
    } else if pieces.len() == 1 {
        pieces[0]
    } else {
        joined(pieces.drop_last()) + seq![','] + pieces.last()
    }
}

/// Splitting a text at its commas gives at least one piece, no piece holds
/// a comma, and the pieces joined with commas are the text again.
pub proof fn law_split_then_join(s: Seq<char>)
    ensures
        split_commas(s).len() >= 1,
        forall|i: int| 0 <= i < split_commas(s).len() ==> !(#[trigger] split_commas(s)[i]).contains(
            ',',
        ),
        joined(split_commas(s)) == s,
    decreases s.len(),
{
    lemma_last_of(s, ',');
    let j = last_of(s, ',');
    if 0 <= j < s.len() {
        let head = s.subrange(0, j);
        let tail = s.subrange(j + 1, s.len() as int);
        law_split_then_join(head);
        let pieces = split_commas(s);
        assert(pieces == split_commas(head).push(tail));
        assert(pieces.drop_last() =~= split_commas(head));
        assert(!tail.contains(',')) by {
            if tail.contains(',') {
                let k = choose|k: int| 0 <= k < tail.len() && tail[k] == ',';
                assert(s[j + 1 + k] == ',');
            }
        }
        assert forall|i: int| 0 <= i < pieces.len() implies !(#[trigger] pieces[i]).contains(
            ',',
        ) by {
            if i < pieces.len() - 1 {
                assert(pieces[i] == split_commas(head)[i]);
            }
        }
        assert(joined(pieces) =~= s);
    } else {
        assert(!s.contains(',')) by {
            if s.contains(',') {
                let k = choose|k: int| 0 <= k < s.len() && s[k] == ',';
                assert(s[k] != ',');
            }
        }
        assert(split_commas(s) =~= seq![s]);
    }
}

/// Pieces without commas, joined with commas and split again, are the same
/// pieces: nothing but the commas between them parts a text.
pub proof fn law_join_then_split(pieces: Seq<Seq<char>>)
    requires
        pieces.len() >= 1,
        forall|i: int| 0 <= i < pieces.len() ==> !(#[trigger] pieces[i]).contains(','),
    ensures
        split_commas(joined(pieces)) == pieces,
    decreases pieces.len(),
{
    let s = joined(pieces);
    if pieces.len() == 1 {
        let only = pieces[0];
        assert(!only.contains(','));
        assert forall|k: int| -1 < k < only.len() implies only[k] != ',' by {
            if only[k] == ',' {
                assert(only.contains(','));
            }
        }
        lemma_last_of_is(only, ',', -1);
        assert(split_commas(only) =~= pieces);
    } else {
        let front = pieces.drop_last();
        let last = pieces.last();
        assert forall|i: int| 0 <= i < front.len() implies !(#[trigger] front[i]).contains(
            ',',
        ) by {
            assert(front[i] == pieces[i]);
        }
        law_join_then_split(front);
        let head = joined(front);
        let j = head.len() as int;
        assert(s == head + seq![','] + last);
        assert(s[j] == ',');
        assert forall|k: int| j < k < s.len() implies s[k] != ',' by {
            assert(s[k] == last[k - j - 1]);
            if last[k - j - 1] == ',' {
                assert(last.contains(','));
            }
        }
        lemma_last_of_is(s, ',', j);
        assert(s.subrange(0, j) =~= head);
        assert(s.subrange(j + 1, s.len() as int) =~= last);
        assert(split_commas(s) =~= pieces);
    }
}

/// A number written in decimal is made of digits, and they write that
/// number.
pub proof fn lemma_decimal_is_a_numeral(n: nat)
    ensures
        is_numeral(decimal(n)),
        numeral_value(decimal(n)) == n,
        unsigned(decimal(n)) == decimal(n),
    decreases n,
{
    let d = decimal(n);
    if n < 10 {
        assert(d == seq![digit_char(n as int)]);
        assert(d.drop_last() =~= Seq::<char>::empty());
        assert(digit_of(d[0]) == Some(n as int));
        assert(numeral_value(d.drop_last()) == 0);
        assert(numeral_value(d) == n);
    } else {
        let front = decimal(n / 10);
        lemma_decimal_is_a_numeral(n / 10);
        let c = digit_char((n % 10) as int);
        assert(d == front.push(c));
        assert(d.drop_last() =~= front);
        assert(digit_of(c) == Some((n % 10) as int));
        assert forall|k: int| 0 <= k < d.len() implies digit_of(#[trigger] d[k]) is Some by {
            if k < front.len() {
                assert(d[k] == front[k]);
            }
        }
        assert(d[0] == front[0]);
        assert(front[0] != '+') by {
            assert(digit_of(front[0]) is Some);
        }
        assert(numeral_value(d) == numeral_value(front) * 10 + n % 10);
    }
    assert(d[0] != '+') by {
        assert(digit_of(d[0]) is Some);
    }
}

/// An id written out in decimal and read as a token is the same id.
pub proof fn law_decimal_reads_back(id: usize)
    ensures
        token_id(decimal(id as nat)) == Some(id),
{
    lemma_decimal_is_a_numeral(id as nat);
}

} // verus!
