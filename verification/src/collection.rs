//! The collection of contexts as a mathematical value: what it means for it
//! to be consistent, and what each command makes of it.

use crate::structs::{fresh_context, ContextView, TaskView};
use crate::utils::decimal;
use vstd::prelude::*;

verus! {

/// Task ids count up from 1 in list order, with no gaps.
pub open spec fn dense(tasks: Seq<TaskView>) -> bool {
    forall|k: int| 0 <= k < tasks.len() ==> (#[trigger] tasks[k]).id == k + 1
}

/// No two contexts share a name.
pub open spec fn names_unique(s: Seq<ContextView>) -> bool {
    forall|i: int, j: int|
        0 <= i < j < s.len() ==> (#[trigger] s[i]).name != (#[trigger] s[j]).name
}

/// No two contexts are active at once.
pub open spec fn at_most_one_active(s: Seq<ContextView>) -> bool {
    forall|i: int, j: int|
        0 <= i < s.len() && 0 <= j < s.len() && (#[trigger] s[i]).active && (
        #[trigger] s[j]).active ==> i == j
}

/// What every stored collection is meant to satisfy.
pub open spec fn well_formed(s: Seq<ContextView>) -> bool {
    &&& names_unique(s)
    &&& at_most_one_active(s)
    &&& forall|i: int| 0 <= i < s.len() ==> dense((#[trigger] s[i]).tasks)
}

/// Whether the numbers that a command may have to count up to fit the
/// machine's word: the contexts, and the tasks of each.
pub open spec fn fits(s: Seq<ContextView>) -> bool {
    &&& s.len() < usize::MAX
    &&& forall|i: int| 0 <= i < s.len() ==> (#[trigger] s[i]).tasks.len() < usize::MAX
}

/// Some context of `s` is named `name`.
pub open spec fn has_name(s: Seq<ContextView>, name: Seq<char>) -> bool {
    exists|i: int| 0 <= i < s.len() && (#[trigger] s[i]).name == name
}

/// Some context of `s` is active.
pub open spec fn has_active(s: Seq<ContextView>) -> bool {
    exists|i: int| 0 <= i < s.len() && (#[trigger] s[i]).active
}

/// `i` is the place of the first active context of `s`.
pub open spec fn is_first_active(s: Seq<ContextView>, i: int) -> bool {
    &&& 0 <= i < s.len()
    &&& s[i].active
    &&& forall|j: int| 0 <= j < i ==> !(#[trigger] s[j]).active
}

/// The place of the first active context of `s`; meaningful only where
/// `has_active(s)`.
pub open spec fn first_active(s: Seq<ContextView>) -> int {
    choose|i: int| is_first_active(s, i)
}

/// There is only one first active context.
pub proof fn lemma_first_active(s: Seq<ContextView>, i: int)
    requires
        is_first_active(s, i),
    ensures
        first_active(s) == i,
        has_active(s),
{
    let j = first_active(s);
    assert(is_first_active(s, j));
    if j < i {
        assert(!s[j].active);
    } else if i < j {
        assert(!s[i].active);
    }
}

/// Where a context is active at `w`, a first active context exists, at `w`
/// or before it.
pub proof fn lemma_some_first_active(s: Seq<ContextView>, w: int)
    requires
        0 <= w < s.len(),
        s[w].active,
    ensures
        is_first_active(s, first_active(s)),
        first_active(s) <= w,
    decreases w,
{
    if exists|j: int| 0 <= j < w && (#[trigger] s[j]).active {
        let j = choose|j: int| 0 <= j < w && (#[trigger] s[j]).active;
        lemma_some_first_active(s, j);
    } else {
        assert(is_first_active(s, w));
        lemma_first_active(s, w);
    }
}

/// Where a context is active, there is a first active one.
pub proof fn lemma_has_first_active(s: Seq<ContextView>)
    requires
        has_active(s),
    ensures
        is_first_active(s, first_active(s)),
{
    lemma_some_first_active(s, choose|i: int| 0 <= i < s.len() && (#[trigger] s[i]).active);
}

/// `c` with its active flag saying whether it is the one named `name`.
pub open spec fn activated(c: ContextView, name: Seq<char>) -> ContextView {
    ContextView { active: c.name == name, ..c }
}

/// `s` with a context named `name` appended unless one exists.
pub open spec fn ensured(s: Seq<ContextView>, name: Seq<char>) -> Seq<ContextView> {
    if has_name(s, name) {
        s
    } else {
        s.push(fresh_context(name, s.len()))
    }
}

/// What `use` makes of `s`: a context named `name` is there, it is active,
/// and no other is.
pub open spec fn switched_to(s: Seq<ContextView>, name: Seq<char>) -> Seq<ContextView> {
    let t = ensured(s, name);
    Seq::new(t.len(), |i: int| activated(t[i], name))
}

/// `c` with `tasks` in place of its own.
pub open spec fn with_tasks(c: ContextView, tasks: Seq<TaskView>) -> ContextView {
    ContextView { tasks, ..c }
}

/// `s` with `tasks` as the list of its first active context.
pub open spec fn on_active(s: Seq<ContextView>, tasks: Seq<TaskView>) -> Seq<ContextView> {
    let a = first_active(s);
    s.update(a, with_tasks(s[a], tasks))
}

/// The tasks of the first active context of `s`.
pub open spec fn active_tasks(s: Seq<ContextView>) -> Seq<TaskView> {
    s[first_active(s)].tasks
}

/// A task as `add` makes it: open, and stamped `now` twice.
pub open spec fn new_task(id: nat, content: Seq<char>, now: Seq<char>) -> TaskView {
    TaskView { id, content, done: false, creation_date: now, modification_date: now }
}

/// What `add` makes of `s`: one more task at the end of the active list,
/// numbered one past the tasks that were there.
pub open spec fn task_added(s: Seq<ContextView>, content: Seq<char>, now: Seq<char>) -> Seq<
    ContextView,
> {
    let tasks = active_tasks(s);
    on_active(s, tasks.push(new_task(tasks.len() + 1, content, now)))
}

/// Some task of `tasks` carries the id `id`.
pub open spec fn has_task(tasks: Seq<TaskView>, id: nat) -> bool {
    exists|k: int| 0 <= k < tasks.len() && (#[trigger] tasks[k]).id == id
}

/// `tasks` with `content` as the content of every task numbered `id`.
pub open spec fn reworded(tasks: Seq<TaskView>, id: nat, content: Seq<char>) -> Seq<TaskView> {
    Seq::new(
        tasks.len(),
        |k: int|
            if tasks[k].id == id {
                TaskView { content, ..tasks[k] }
            } else {
                tasks[k]
            },
    )
}

/// What `up` makes of `s` where the active list has a task `id`.
pub open spec fn task_edited(s: Seq<ContextView>, id: nat, content: Seq<char>) -> Seq<
    ContextView,
> {
    on_active(s, reworded(active_tasks(s), id, content))
}

/// Some context of `s` carries the id `id`.
pub open spec fn has_context(s: Seq<ContextView>, id: nat) -> bool {
    exists|i: int| 0 <= i < s.len() && (#[trigger] s[i]).id == id
}

/// What `upc` makes of `s` where a context `id` exists: every context so
/// numbered is now called `name`.
pub open spec fn context_renamed(s: Seq<ContextView>, id: nat, name: Seq<char>) -> Seq<
    ContextView,
> {
    Seq::new(
        s.len(),
        |i: int|
            if s[i].id == id {
                ContextView { name, ..s[i] }
            } else {
                s[i]
            },
    )
}

/// Whether `id` is one of `ids`.
pub open spec fn listed(ids: Seq<usize>, id: nat) -> bool {
    exists|k: int| 0 <= k < ids.len() && #[trigger] ids[k] == id
}

/// The tasks of `tasks` whose id is not among `ids`, in order.
pub open spec fn without_ids(tasks: Seq<TaskView>, ids: Seq<usize>) -> Seq<TaskView>
    decreases tasks.len(),
{
    if tasks.len() == 0 {
        Seq::empty()
    } else {
        let rest = without_ids(tasks.drop_last(), ids);
        if listed(ids, tasks.last().id) {
            rest
        } else {
            rest.push(tasks.last())
        }
    }
}

/// `tasks` numbered anew: the first gets `start + 1`, each next one more.
pub open spec fn renumbered(tasks: Seq<TaskView>, start: nat) -> Seq<TaskView> {
    Seq::new(tasks.len(), |k: int| TaskView { id: (start + k + 1) as nat, ..tasks[k] })
}

/// What `rm` makes of `s`: the tasks named by `ids` leave the active list,
/// and those that stay are numbered from 1 again.
pub open spec fn tasks_deleted(s: Seq<ContextView>, ids: Seq<usize>) -> Seq<ContextView> {
    on_active(s, renumbered(without_ids(active_tasks(s), ids), 0))
}

/// `tasks` with every task whose id is among `ids` marked done.
pub open spec fn checked_off(tasks: Seq<TaskView>, ids: Seq<usize>) -> Seq<TaskView> {
    Seq::new(
        tasks.len(),
        |k: int|
            if listed(ids, tasks[k].id) {
                TaskView { done: true, ..tasks[k] }
            } else {
                tasks[k]
            },
    )
}

/// What `done` makes of `s`.
pub open spec fn tasks_done(s: Seq<ContextView>, ids: Seq<usize>) -> Seq<ContextView> {
    on_active(s, checked_off(active_tasks(s), ids))
}

/// What `clear` makes of `s`.
pub open spec fn tasks_cleared(s: Seq<ContextView>) -> Seq<ContextView> {
    on_active(s, Seq::empty())
}

/// Whether one of `tokens` picks the context called `name` that is shown
/// at `position` (counted from 1): a token picks by name, or by the
/// position written in decimal.
pub open spec fn picks(tokens: Seq<Seq<char>>, name: Seq<char>, position: nat) -> bool {
    tokens.contains(name) || tokens.contains(decimal(position))
}

/// The contexts of `s` that none of `tokens` picks, in order. Positions
/// are those in `s`, before anything is removed.
pub open spec fn survivors(s: Seq<ContextView>, tokens: Seq<Seq<char>>) -> Seq<ContextView>
    decreases s.len(),
{
    if s.len() == 0 {
        Seq::empty()
    } else {
        let rest = survivors(s.drop_last(), tokens);
        if picks(tokens, s.last().name, s.len()) {
            rest
        } else {
            rest.push(s.last())
        }
    }
}

/// `s` with its first context made active where it has contexts but no
/// active one.
pub open spec fn promoted(s: Seq<ContextView>) -> Seq<ContextView> {
    if s.len() > 0 && !has_active(s) {
        s.update(0, ContextView { active: true, ..s[0] })
    } else {
        s
    }
}

/// What `rmc` makes of `s`.
pub open spec fn contexts_deleted(s: Seq<ContextView>, tokens: Seq<Seq<char>>) -> Seq<
    ContextView,
> {
    promoted(survivors(s, tokens))
}

} // verus!
