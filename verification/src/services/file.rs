//! The commands on a collection that is stored as one document.

use crate::collection::{
    activated, active_tasks, checked_off, context_renamed, contexts_deleted, ensured,
    first_active, has_active, has_context, has_name, has_task, is_first_active,
    lemma_first_active, listed, on_active, picks, promoted, renumbered, reworded, survivors,
    switched_to, task_added, task_edited, tasks_cleared, tasks_deleted, tasks_done, without_ids,
};
use crate::error::{EntityKind, StoreError};
use crate::structs::{Config, Context, ContextView, Task, TaskView};
use crate::table::{
    context_list, context_table, plain_table_text, print_table, summary_rows, ContextCountTask,
    ContextCountView,
};
use crate::utils::{
    decimal_string, id_warnings, parse_args, parse_ids, parsed_ids, split_commas, warnings_of,
};
use vstd::prelude::*;

verus! {

/// The commands of the document-backed store. Each takes the collection as
/// it was loaded and leaves it as it is to be written back.
#[derive(Debug)]
pub struct FileService;

/// Finds the first active context. `use` is the one command that does
/// without it; for every other, a collection with no active context is an
/// error.
pub fn get_file_data(data: &Vec<Context>, for_use: bool) -> (r: Result<Option<usize>, StoreError>)
    ensures
        match r {
            Ok(Some(i)) => is_first_active(data.deep_view(), i as int),
            Ok(None) => for_use && !has_active(data.deep_view()),
            Err(e) => e == StoreError::NoActiveContext && !for_use && !has_active(
                data.deep_view(),
            ),
        },
{
    let mut i: usize = 0;
    while i < data.len()
        invariant
            i <= data.len(),
            forall|j: int| 0 <= j < i ==> !(#[trigger] data.deep_view()[j]).active,
        decreases data.len() - i,
    {
        if data[i].active {
            assert(data.deep_view()[i as int].active);
            return Ok(Some(i));
        }
        i += 1;
    }
    if for_use {
        Ok(None)
    } else {
        Err(StoreError::NoActiveContext)
    }
}

fn contains_name(data: &Vec<Context>, name: &String) -> (found: bool)
    ensures
        found == has_name(data.deep_view(), name@),
{
    let mut i: usize = 0;
    while i < data.len()
        invariant
            i <= data.len(),
            forall|j: int| 0 <= j < i ==> (#[trigger] data.deep_view()[j]).name != name@,
        decreases data.len() - i,
    {
        if data[i].name == *name {
            assert(data.deep_view()[i as int].name == name@);
            return true;
        }
        i += 1;
    }
    false
}

/// The tables that `ls` shows: that of the first active context, or those
/// of all contexts in order.
pub open spec fn shown_tables(s: Seq<ContextView>, max: nat, all: bool) -> Seq<Seq<char>> {
    if all {
        Seq::new(s.len(), |i: int| context_table(s[i], max))
    } else {
        seq![context_table(s[first_active(s)], max)]
    }
}

/// What the list of contexts shows of each context of `s`.
pub open spec fn counts_of(s: Seq<ContextView>) -> Seq<ContextCountView> {
    Seq::new(
        s.len(),
        |i: int|
            ContextCountView { name: s[i].name, task_count: s[i].tasks.len(), active: s[i].active },
    )
}

/// The moment of the call in local time, written out by chrono: the text of
/// `chrono::Local::now()`. It differs from call to call, so nothing is
/// claimed of it.
#[verifier::external_body]
pub(crate) fn local_now() -> (now: String) {
    chrono::Local::now().to_string()
}

fn copy_task(task: &Task) -> (copy: Task)
    ensures
        copy@ == task@,
{
    Task {
        id: task.id,
        content: task.content.clone(),
        done: task.done,
        creation_date: task.creation_date.clone(),
        modification_date: task.modification_date.clone(),
    }
}

fn contains_id(ids: &Vec<usize>, id: usize) -> (found: bool)
    ensures
        found == listed(ids@, id as nat),
{
    let mut i: usize = 0;
    while i < ids.len()
        invariant
            i <= ids.len(),
            forall|j: int| 0 <= j < i ==> ids@[j] != id,
        decreases ids.len() - i,
    {
        if ids[i] == id {
            return true;
        }
        i += 1;
    }
    false
}

fn contains_task(tasks: &Vec<Task>, id: usize) -> (found: bool)
    ensures
        found == has_task(tasks.deep_view(), id as nat),
{
    let mut k: usize = 0;
    while k < tasks.len()
        invariant
            k <= tasks.len(),
            forall|j: int| 0 <= j < k ==> (#[trigger] tasks.deep_view()[j]).id != id,
        decreases tasks.len() - k,
    {
        if tasks[k].id == id {
            assert(tasks.deep_view()[k as int].id == id);
            return true;
        }
        k += 1;
    }
    false
}

fn contains_context(data: &Vec<Context>, id: usize) -> (found: bool)
    ensures
        found == has_context(data.deep_view(), id as nat),
{
    let mut i: usize = 0;
    while i < data.len()
        invariant
            i <= data.len(),
            forall|j: int| 0 <= j < i ==> (#[trigger] data.deep_view()[j]).id != id,
        decreases data.len() - i,
    {
        if data[i].id == id {
            assert(data.deep_view()[i as int].id == id);
            return true;
        }
        i += 1;
    }
    false
}

fn contains_token(tokens: &Vec<&str>, text: &String) -> (found: bool)
    ensures
        found == tokens.deep_view().contains(text@),
{
    let mut i: usize = 0;
    while i < tokens.len()
        invariant
            i <= tokens.len(),
            forall|j: int| 0 <= j < i ==> tokens.deep_view()[j] != text@,
        decreases tokens.len() - i,
    {
        let token: String = String::from_str(tokens[i]);
        if token == *text {
            assert(tokens.deep_view()[i as int] == text@);
            return true;
        }
        i += 1;
    }
    false
}

fn reword(tasks: &Vec<Task>, id: usize, content: &String) -> (out: Vec<Task>)
    ensures
        out.deep_view() == reworded(tasks.deep_view(), id as nat, content@),
{
    let mut out: Vec<Task> = Vec::new();
    let mut k: usize = 0;
    while k < tasks.len()
        invariant
            k <= tasks.len(),
            out.len() == k,
            forall|j: int|
                0 <= j < k ==> out.deep_view()[j] == reworded(
                    tasks.deep_view(),
                    id as nat,
                    content@,
                )[j],
        decreases tasks.len() - k,
    {
        let ghost prev = out.deep_view();
        let mut task = copy_task(&tasks[k]);
        if task.id == id {
            task.content = content.clone();
        }
        out.push(task);
        assert(out.deep_view() =~= prev.push(task@));
        k += 1;
    }
    assert(out.deep_view() =~= reworded(tasks.deep_view(), id as nat, content@));
    out
}

fn check_off(tasks: &Vec<Task>, ids: &Vec<usize>) -> (out: Vec<Task>)
    ensures
        out.deep_view() == checked_off(tasks.deep_view(), ids@),
{
    let mut out: Vec<Task> = Vec::new();
    let mut k: usize = 0;
    while k < tasks.len()
        invariant
            k <= tasks.len(),
            out.len() == k,
            forall|j: int|
                0 <= j < k ==> out.deep_view()[j] == checked_off(tasks.deep_view(), ids@)[j],
        decreases tasks.len() - k,
    {
        let ghost prev = out.deep_view();
        let mut task = copy_task(&tasks[k]);
        if contains_id(ids, task.id) {
            task.done = true;
        }
        out.push(task);
        assert(out.deep_view() =~= prev.push(task@));
        k += 1;
    }
    assert(out.deep_view() =~= checked_off(tasks.deep_view(), ids@));
    out
}

fn delete_ids(tasks: &Vec<Task>, ids: &Vec<usize>) -> (out: Vec<Task>)
    ensures
        out.deep_view() == renumbered(without_ids(tasks.deep_view(), ids@), 0),
{
    let mut out: Vec<Task> = Vec::new();
    let mut k: usize = 0;
    while k < tasks.len()
        invariant
            k <= tasks.len(),
            out.len() <= k,
            out.deep_view() == renumbered(
                without_ids(tasks.deep_view().subrange(0, k as int), ids@),
                0,
            ),
        decreases tasks.len() - k,
    {
        let ghost prev = out.deep_view();
        let ghost head = tasks.deep_view().subrange(0, k + 1);
        assert(head.drop_last() =~= tasks.deep_view().subrange(0, k as int));
        assert(head.last() == tasks[k as int]@);
        if !contains_id(ids, tasks[k].id) {
            let mut task = copy_task(&tasks[k]);
            task.id = out.len() + 1;
            out.push(task);
            assert(out.deep_view() =~= prev.push(task@));
            assert(out.deep_view() =~= renumbered(without_ids(head, ids@), 0));
        }
        k += 1;
    }
    assert(tasks.deep_view().subrange(0, tasks.len() as int) =~= tasks.deep_view());
    out
}

fn copy_tasks(tasks: &Vec<Task>) -> (out: Vec<Task>)
    ensures
        out.deep_view() == tasks.deep_view(),
{
    let mut out: Vec<Task> = Vec::new();
    let mut k: usize = 0;
    while k < tasks.len()
        invariant
            k <= tasks.len(),
            out.deep_view() == tasks.deep_view().subrange(0, k as int),
        decreases tasks.len() - k,
    {
        let ghost prev = out.deep_view();
        let task = copy_task(&tasks[k]);
        out.push(task);
        assert(out.deep_view() =~= prev.push(task@));
        assert(out.deep_view() =~= tasks.deep_view().subrange(0, k + 1));
        k += 1;
    }
    assert(tasks.deep_view().subrange(0, tasks.len() as int) =~= tasks.deep_view());
    out
}

fn copy_context(ctx: &Context) -> (copy: Context)
    ensures
        copy@ == ctx@,
{
    Context {
        id: ctx.id,
        name: ctx.name.clone(),
        tasks: copy_tasks(&ctx.tasks),
        active: ctx.active,
    }
}

fn is_picked(tokens: &Vec<&str>, ctx: &Context, position: usize) -> (hit: bool)
    ensures
        hit == picks(tokens.deep_view(), ctx@.name, position as nat),
{
    if contains_token(tokens, &ctx.name) {
        true
    } else {
        let numeral = decimal_string(position);
        contains_token(tokens, &numeral)
    }
}

fn set_tasks(data: &mut Vec<Context>, index: usize, tasks: Vec<Task>)
    requires
        is_first_active(old(data).deep_view(), index as int),
    ensures
        final(data).deep_view() == on_active(old(data).deep_view(), tasks.deep_view()),
{
    proof {
        lemma_first_active(data.deep_view(), index as int);
    }
    let ghost before = data.deep_view();
    data[index].tasks = tasks;
    assert(data.deep_view() =~= on_active(before, tasks.deep_view()));
}

impl FileService {
    /// Switches to the context called `name`, creating it first where it
    /// does not exist. Afterwards that context is active and no other is.
    pub fn use_context(&self, data: &mut Vec<Context>, name: String)
        requires
            old(data).len() < usize::MAX,
        ensures
            final(data).deep_view() == switched_to(old(data).deep_view(), name@),
    {
        let ghost before = data.deep_view();
        if !contains_name(data, &name) {
            let fresh = Context::new(&name, data.len());
            data.push(fresh);
            assert(data.deep_view() =~= ensured(before, name@));
        }
        let ghost mid = data.deep_view();
        let n: usize = data.len();
        let mut i: usize = 0;
        while i < n
            invariant
                i <= n,
                n == data.len(),
                n == mid.len(),
                forall|j: int| 0 <= j < i ==> data.deep_view()[j] == activated(mid[j], name@),
                forall|j: int| i <= j < n ==> data.deep_view()[j] == mid[j],
            decreases n - i,
        {
            let ghost prev = data.deep_view();
            let on: bool = data[i].name == name;
            data[i].active = on;
            assert(data.deep_view() =~= prev.update(i as int, activated(mid[i as int], name@)));
            i += 1;
        }
        assert(data.deep_view() =~= switched_to(before, name@));
    }

    /// Appends a task with the given content to the active context,
    /// stamped with the present moment.
    pub fn add_task(&self, data: &mut Vec<Context>, content: String) -> (r: Result<
        (),
        StoreError,
    >)
        requires
            has_active(old(data).deep_view()) ==> active_tasks(old(data).deep_view()).len()
                < usize::MAX,
        ensures
            match r {
                Ok(()) => has_active(old(data).deep_view()) && exists|now: Seq<char>|
                    final(data).deep_view() == task_added(old(data).deep_view(), content@, now),
                Err(e) => e == StoreError::NoActiveContext && !has_active(old(data).deep_view())
                    && final(data).deep_view() == old(data).deep_view(),
            },
    {
        let now = local_now();
        self.add_task_at(data, content, now)
    }

    /// Appends a task with the given content to the active context,
    /// stamped `now`.
    pub fn add_task_at(&self, data: &mut Vec<Context>, content: String, now: String) -> (r:
        Result<(), StoreError>)
        requires
            has_active(old(data).deep_view()) ==> active_tasks(old(data).deep_view()).len()
                < usize::MAX,
        ensures
            match r {
                Ok(()) => has_active(old(data).deep_view()) && final(data).deep_view()
                    == task_added(old(data).deep_view(), content@, now@),
                Err(e) => e == StoreError::NoActiveContext && !has_active(old(data).deep_view())
                    && final(data).deep_view() == old(data).deep_view(),
            },
    {
        let index: usize = match get_file_data(data, false) {
            Ok(Some(i)) => i,
            Ok(None) => {
                return Err(StoreError::NoActiveContext);
            },
            Err(e) => {
                return Err(e);
            },
        };
        proof {
            lemma_first_active(data.deep_view(), index as int);
        }
        let ghost before = data.deep_view();
        let task = Task {
            id: data[index].tasks.len() + 1,
            content,
            done: false,
            creation_date: now.clone(),
            modification_date: now,
        };
        data[index].tasks.push(task);
        assert(data.deep_view()[index as int].tasks =~= before[index as int].tasks.push(task@));
        assert(data.deep_view() =~= task_added(before, content@, now@));
        Ok(())
    }

    /// Gives the task numbered `id` of the active context a new content.
    pub fn edit_task(&self, data: &mut Vec<Context>, id: usize, content: String) -> (r: Result<
        (),
        StoreError,
    >)
        ensures
            match r {
                Ok(()) => has_active(old(data).deep_view()) && has_task(
                    active_tasks(old(data).deep_view()),
                    id as nat,
                ) && final(data).deep_view() == task_edited(
                    old(data).deep_view(),
                    id as nat,
                    content@,
                ),
                Err(e) => final(data).deep_view() == old(data).deep_view() && if !has_active(
                    old(data).deep_view(),
                ) {
                    e == StoreError::NoActiveContext
                } else {
                    e == (StoreError::NotFoundEntity { kind: EntityKind::Task, id }) && !has_task(
                        active_tasks(old(data).deep_view()),
                        id as nat,
                    )
                },
            },
    {
        let index: usize = match get_file_data(data, false) {
            Ok(Some(i)) => i,
            Ok(None) => {
                return Err(StoreError::NoActiveContext);
            },
            Err(e) => {
                return Err(e);
            },
        };
        proof {
            lemma_first_active(data.deep_view(), index as int);
        }
        if !contains_task(&data[index].tasks, id) {
            return Err(StoreError::NotFoundEntity { kind: EntityKind::Task, id });
        }
        let tasks = reword(&data[index].tasks, id, &content);
        set_tasks(data, index, tasks);
        Ok(())
    }

    /// Removes the tasks whose ids `args` lists, separated by commas, from
    /// the active context, and numbers those that stay from 1 again.
    /// Pieces of `args` that are no number are passed over; the result
    /// holds a warning about each that is not empty.
    pub fn del_task(&self, data: &mut Vec<Context>, args: String) -> (r: Result<
        Vec<String>,
        StoreError,
    >)
        ensures
            match r {
                Ok(warnings) => has_active(old(data).deep_view()) && final(data).deep_view()
                    == tasks_deleted(old(data).deep_view(), parsed_ids(split_commas(args@)))
                    && warnings.deep_view() == warnings_of(args@),
                Err(e) => e == StoreError::NoActiveContext && !has_active(old(data).deep_view())
                    && final(data).deep_view() == old(data).deep_view(),
            },
    {
        let index: usize = match get_file_data(data, false) {
            Ok(Some(i)) => i,
            Ok(None) => {
                return Err(StoreError::NoActiveContext);
            },
            Err(e) => {
                return Err(e);
            },
        };
        proof {
            lemma_first_active(data.deep_view(), index as int);
        }
        let ids = parse_ids(parse_args(&args));
        let tasks = delete_ids(&data[index].tasks, &ids);
        set_tasks(data, index, tasks);
        Ok(id_warnings(&args))
    }

    /// Marks the tasks whose ids `args` lists, separated by commas, as done
    /// in the active context. Ids that no task carries, and pieces of
    /// `args` that are no number, are passed over; the result holds a
    /// warning about each such piece that is not empty.
    pub fn mark_done(&self, data: &mut Vec<Context>, args: String) -> (r: Result<
        Vec<String>,
        StoreError,
    >)
        ensures
            match r {
                Ok(warnings) => has_active(old(data).deep_view()) && final(data).deep_view()
                    == tasks_done(old(data).deep_view(), parsed_ids(split_commas(args@)))
                    && warnings.deep_view() == warnings_of(args@),
                Err(e) => e == StoreError::NoActiveContext && !has_active(old(data).deep_view())
                    && final(data).deep_view() == old(data).deep_view(),
            },
    {
        let index: usize = match get_file_data(data, false) {
            Ok(Some(i)) => i,
            Ok(None) => {
                return Err(StoreError::NoActiveContext);
            },
            Err(e) => {
                return Err(e);
            },
        };
        proof {
            lemma_first_active(data.deep_view(), index as int);
        }
        let ids = parse_ids(parse_args(&args));
        let tasks = check_off(&data[index].tasks, &ids);
        set_tasks(data, index, tasks);
        Ok(id_warnings(&args))
    }

    /// Empties the task list of the active context; the context stays.
    pub fn clear_tasks(&self, data: &mut Vec<Context>) -> (r: Result<(), StoreError>)
        ensures
            match r {
                Ok(()) => has_active(old(data).deep_view()) && final(data).deep_view()
                    == tasks_cleared(old(data).deep_view()),
                Err(e) => e == StoreError::NoActiveContext && !has_active(old(data).deep_view())
                    && final(data).deep_view() == old(data).deep_view(),
            },
    {
        let index: usize = match get_file_data(data, false) {
            Ok(Some(i)) => i,
            Ok(None) => {
                return Err(StoreError::NoActiveContext);
            },
            Err(e) => {
                return Err(e);
            },
        };
        let tasks: Vec<Task> = Vec::new();
        assert(tasks.deep_view() =~= Seq::<TaskView>::empty());
        set_tasks(data, index, tasks);
        Ok(())
    }

    /// Gives every context numbered `id` the name `name`.
    pub fn edit_context(&self, data: &mut Vec<Context>, id: usize, name: String) -> (r: Result<
        (),
        StoreError,
    >)
        ensures
            match r {
                Ok(()) => has_active(old(data).deep_view()) && has_context(
                    old(data).deep_view(),
                    id as nat,
                ) && final(data).deep_view() == context_renamed(
                    old(data).deep_view(),
                    id as nat,
                    name@,
                ),
                Err(e) => final(data).deep_view() == old(data).deep_view() && if !has_active(
                    old(data).deep_view(),
                ) {
                    e == StoreError::NoActiveContext
                } else {
                    e == (StoreError::NotFoundEntity { kind: EntityKind::Context, id })
                        && !has_context(old(data).deep_view(), id as nat)
                },
            },
    {
        match get_file_data(data, false) {
            Ok(_) => {},
            Err(e) => {
                return Err(e);
            },
        }
        if !contains_context(data, id) {
            return Err(StoreError::NotFoundEntity { kind: EntityKind::Context, id });
        }
        let ghost before = data.deep_view();
        let n: usize = data.len();
        let mut i: usize = 0;
        while i < n
            invariant
                i <= n,
                n == data.len(),
                n == before.len(),
                forall|j: int|
                    0 <= j < i ==> data.deep_view()[j] == context_renamed(
                        before,
                        id as nat,
                        name@,
                    )[j],
                forall|j: int| i <= j < n ==> data.deep_view()[j] == before[j],
            decreases n - i,
        {
            let ghost prev = data.deep_view();
            if data[i].id == id {
                data[i].name = name.clone();
            }
            assert(data.deep_view() =~= prev.update(
                i as int,
                context_renamed(before, id as nat, name@)[i as int],
            ));
            i += 1;
        }
        assert(data.deep_view() =~= context_renamed(before, id as nat, name@));
        Ok(())
    }

    /// Removes the contexts that `args` lists, separated by commas, each by
    /// its name or by the position at which it is shown, counted from 1.
    /// Where that leaves contexts but no active one, the first becomes
    /// active.
    pub fn del_context(&self, data: &mut Vec<Context>, args: String) -> (r: Result<
        (),
        StoreError,
    >)
        ensures
            match r {
                Ok(()) => has_active(old(data).deep_view()) && final(data).deep_view()
                    == contexts_deleted(old(data).deep_view(), split_commas(args@)),
                Err(e) => e == StoreError::NoActiveContext && !has_active(old(data).deep_view())
                    && final(data).deep_view() == old(data).deep_view(),
            },
    {
        match get_file_data(data, false) {
            Ok(_) => {},
            Err(e) => {
                return Err(e);
            },
        }
        let tokens = parse_args(&args);
        let ghost before = data.deep_view();
        let mut kept: Vec<Context> = Vec::new();
        let mut i: usize = 0;
        while i < data.len()
            invariant
                i <= data.len(),
                data.deep_view() == before,
                kept.deep_view() == survivors(before.subrange(0, i as int), tokens.deep_view()),
            decreases data.len() - i,
        {
            let ghost prev = kept.deep_view();
            let ghost head = before.subrange(0, i + 1);
            assert(head.drop_last() =~= before.subrange(0, i as int));
            assert(head.last() == data[i as int]@);
            if !is_picked(&tokens, &data[i], i + 1) {
                let ctx = copy_context(&data[i]);
                kept.push(ctx);
                assert(kept.deep_view() =~= prev.push(ctx@));
            }
            i += 1;
        }
        assert(before.subrange(0, data.len() as int) =~= before);
        let ghost rest = kept.deep_view();
        if kept.len() > 0 {
            match get_file_data(&kept, true) {
                Ok(None) => {
                    kept[0].active = true;
                },
                _ => {},
            }
        }
        assert(kept.deep_view() =~= promoted(rest));
        *data = kept;
        Ok(())
    }

    /// The tables to show for `ls`: that of the active context, or, where
    /// `all` is set, one for each context.
    pub fn list_tasks(&self, config: &Config, data: &Vec<Context>, all: bool) -> (r: Result<
        Vec<String>,
        StoreError,
    >)
        requires
            config.max_line_lengh > 0,
        ensures
            match r {
                Ok(tables) => has_active(data.deep_view()) && tables.deep_view() == shown_tables(
                    data.deep_view(),
                    config.max_line_lengh as nat,
                    all,
                ),
                Err(e) => e == StoreError::NoActiveContext && !has_active(data.deep_view()),
            },
    {
        let index: usize = match get_file_data(data, false) {
            Ok(Some(i)) => i,
            Ok(None) => {
                return Err(StoreError::NoActiveContext);
            },
            Err(e) => {
                return Err(e);
            },
        };
        proof {
            lemma_first_active(data.deep_view(), index as int);
        }
        let ghost max = config.max_line_lengh as nat;
        let mut tables: Vec<String> = Vec::new();
        if all {
            let mut i: usize = 0;
            while i < data.len()
                invariant
                    i <= data.len(),
                    config.max_line_lengh > 0,
                    max == config.max_line_lengh,
                    tables.len() == i,
                    forall|j: int|
                        0 <= j < i ==> tables.deep_view()[j] == context_table(
                            data.deep_view()[j],
                            max,
                        ),
                decreases data.len() - i,
            {
                let ghost prev = tables.deep_view();
                let text = print_table(config, &data[i]);
                tables.push(text);
                assert(tables.deep_view() =~= prev.push(text@));
                i += 1;
            }
        } else {
            let text = print_table(config, &data[index]);
            tables.push(text);
        }
        assert(tables.deep_view() =~= shown_tables(data.deep_view(), max, all));
        Ok(tables)
    }

    /// The list of contexts to show for `lsc`.
    pub fn list_contexts(&self, data: &Vec<Context>) -> (r: Result<String, StoreError>)
        ensures
            match r {
                Ok(text) => has_active(data.deep_view()) && text@ == plain_table_text(
                    summary_rows(counts_of(data.deep_view())),
                ),
                Err(e) => e == StoreError::NoActiveContext && !has_active(data.deep_view()),
            },
    {
        match get_file_data(data, false) {
            Ok(_) => {},
            Err(e) => {
                return Err(e);
            },
        }
        let counts = FileService::context_counts(data);
        Ok(context_list(&counts))
    }

    /// What the list of contexts shows of each context of `data`: its name,
    /// the number of its tasks, and whether it is active.
    pub fn context_counts(data: &Vec<Context>) -> (counts: Vec<ContextCountTask>)
        ensures
            counts.deep_view() == counts_of(data.deep_view()),
    {
        let mut counts: Vec<ContextCountTask> = Vec::new();
        let mut i: usize = 0;
        while i < data.len()
            invariant
                i <= data.len(),
                counts.len() == i,
                forall|j: int|
                    0 <= j < i ==> counts.deep_view()[j] == counts_of(data.deep_view())[j],
            decreases data.len() - i,
        {
            let ghost prev = counts.deep_view();
            let count = ContextCountTask {
                name: data[i].name.clone(),
                task_count: data[i].tasks.len(),
                active: data[i].active,
            };
            counts.push(count);
            assert(counts.deep_view() =~= prev.push(count@));
            i += 1;
        }
        assert(counts.deep_view() =~= counts_of(data.deep_view()));
        counts
    }
}

} // verus!
