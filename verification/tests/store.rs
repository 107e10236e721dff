use tasks::error::{EntityKind, StoreError};
use tasks::services::file::{get_file_data, FileService};
use tasks::structs::{Context, Task};

fn task(id: usize, content: &str, done: bool) -> Task {
    Task {
        id,
        content: content.to_string(),
        done,
        creation_date: "2024-01-01 10:00:00 +00:00".to_string(),
        modification_date: "2024-01-01 10:00:00 +00:00".to_string(),
    }
}

fn context(id: usize, name: &str, active: bool, tasks: Vec<Task>) -> Context {
    Context { id, name: name.to_string(), tasks, active }
}

fn ids(ctx: &Context) -> Vec<usize> {
    ctx.tasks.iter().map(|t| t.id).collect()
}

fn contents(ctx: &Context) -> Vec<String> {
    ctx.tasks.iter().map(|t| t.content.clone()).collect()
}

fn names(data: &Vec<Context>) -> Vec<String> {
    data.iter().map(|c| c.name.clone()).collect()
}

fn flags(data: &Vec<Context>) -> Vec<bool> {
    data.iter().map(|c| c.active).collect()
}

#[test]
fn use_on_empty_collection_creates_the_context() {
    let mut data: Vec<Context> = Vec::new();
    FileService.use_context(&mut data, "work".to_string());
    assert_eq!(data.len(), 1);
    assert_eq!(data[0].id, 1);
    assert_eq!(data[0].name, "work");
    assert!(data[0].tasks.is_empty());
    assert!(data[0].active);
}

#[test]
fn use_add_done_delete_in_a_row() {
    let mut data: Vec<Context> = Vec::new();
    FileService.use_context(&mut data, "work".to_string());
    let added = FileService.add_task_at(
        &mut data,
        "buy milk".to_string(),
        "2024-05-01 09:30:00 +02:00".to_string(),
    );
    assert_eq!(added, Ok(()));
    assert_eq!(data[0].tasks.len(), 1);
    assert_eq!(data[0].tasks[0].id, 1);
    assert_eq!(data[0].tasks[0].content, "buy milk");
    assert!(!data[0].tasks[0].done);
    assert_eq!(data[0].tasks[0].creation_date, "2024-05-01 09:30:00 +02:00");
    assert_eq!(data[0].tasks[0].modification_date, "2024-05-01 09:30:00 +02:00");

    assert_eq!(FileService.mark_done(&mut data, "1".to_string()), Ok(vec![]));
    assert!(data[0].tasks[0].done);

    assert_eq!(FileService.del_task(&mut data, "1".to_string()), Ok(vec![]));
    assert!(data[0].tasks.is_empty());

    assert_eq!(
        FileService.add_task_at(&mut data, "again".to_string(), "later".to_string()),
        Ok(())
    );
    assert_eq!(data[0].tasks[0].id, 1);
}

#[test]
fn add_task_stamps_the_present_moment_twice() {
    let mut data = vec![context(1, "work", true, vec![])];
    assert_eq!(FileService.add_task(&mut data, "now".to_string()), Ok(()));
    let made = &data[0].tasks[0];
    assert_eq!(made.id, 1);
    assert_eq!(made.content, "now");
    assert!(!made.done);
    assert!(!made.creation_date.is_empty());
    assert_ne!(made.creation_date, "now");
    assert_eq!(made.creation_date, made.modification_date);
}

#[test]
fn added_tasks_count_up_in_insertion_order() {
    let mut data = vec![context(1, "a", false, vec![]), context(2, "b", true, vec![])];
    for word in ["one", "two", "three", "four"] {
        assert_eq!(
            FileService.add_task_at(&mut data, word.to_string(), "t".to_string()),
            Ok(())
        );
    }
    assert_eq!(ids(&data[1]), vec![1, 2, 3, 4]);
    assert_eq!(contents(&data[1]), vec!["one", "two", "three", "four"]);
    assert!(data[0].tasks.is_empty());
}

#[test]
fn add_task_needs_an_active_context() {
    let mut data = vec![context(1, "a", false, vec![])];
    assert_eq!(
        FileService.add_task_at(&mut data, "x".to_string(), "t".to_string()),
        Err(StoreError::NoActiveContext)
    );
    assert!(data[0].tasks.is_empty());
    let mut none: Vec<Context> = Vec::new();
    assert_eq!(FileService.add_task(&mut none, "x".to_string()), Err(StoreError::NoActiveContext));
    assert!(none.is_empty());
}

#[test]
fn deleting_tasks_renumbers_and_keeps_order() {
    let tasks = vec![
        task(1, "a", false),
        task(2, "b", true),
        task(3, "c", false),
        task(4, "d", false),
        task(5, "e", true),
    ];
    let mut data = vec![context(1, "work", true, tasks)];
    assert_eq!(FileService.del_task(&mut data, "2,4".to_string()), Ok(vec![]));
    assert_eq!(ids(&data[0]), vec![1, 2, 3]);
    assert_eq!(contents(&data[0]), vec!["a", "c", "e"]);
    assert_eq!(data[0].tasks.iter().map(|t| t.done).collect::<Vec<_>>(), vec![false, false, true]);
}

#[test]
fn deleting_tasks_skips_what_is_no_id() {
    let tasks = vec![task(1, "a", false), task(2, "b", false), task(3, "c", false)];
    let mut data = vec![context(1, "work", true, tasks)];
    assert_eq!(
        FileService.del_task(&mut data, "x,,3,+1,9".to_string()),
        Ok(vec!["You can only use Ids, this is not: x".to_string()])
    );
    assert_eq!(ids(&data[0]), vec![1]);
    assert_eq!(contents(&data[0]), vec!["b"]);
}

#[test]
fn deleting_tasks_touches_only_the_active_context() {
    let mut data = vec![
        context(1, "a", false, vec![task(1, "keep", false)]),
        context(2, "b", true, vec![task(1, "go", false), task(2, "stay", false)]),
    ];
    assert_eq!(FileService.del_task(&mut data, "1".to_string()), Ok(vec![]));
    assert_eq!(contents(&data[0]), vec!["keep"]);
    assert_eq!(contents(&data[1]), vec!["stay"]);
    assert_eq!(ids(&data[1]), vec![1]);
}

#[test]
fn deleting_tasks_makes_gapped_ids_dense() {
    let tasks = vec![task(7, "a", false), task(9, "b", false), task(12, "c", false)];
    let mut data = vec![context(1, "work", true, tasks)];
    assert_eq!(FileService.del_task(&mut data, "9".to_string()), Ok(vec![]));
    assert_eq!(ids(&data[0]), vec![1, 2]);
    assert_eq!(contents(&data[0]), vec!["a", "c"]);
}

#[test]
fn mark_done_ignores_unknown_ids() {
    let mut data = vec![context(1, "work", true, vec![task(1, "only", false)])];
    assert_eq!(FileService.mark_done(&mut data, "5".to_string()), Ok(vec![]));
    assert_eq!(data.len(), 1);
    assert_eq!(data[0].tasks.len(), 1);
    assert_eq!(data[0].tasks[0].id, 1);
    assert_eq!(data[0].tasks[0].content, "only");
    assert!(!data[0].tasks[0].done);
}

#[test]
fn mark_done_marks_each_listed_task() {
    let tasks = vec![task(1, "a", false), task(2, "b", false), task(3, "c", false)];
    let mut data = vec![context(1, "work", true, tasks)];
    assert_eq!(
        FileService.mark_done(&mut data, "3,abc,1".to_string()),
        Ok(vec!["You can only use Ids, this is not: abc".to_string()])
    );
    assert_eq!(data[0].tasks.iter().map(|t| t.done).collect::<Vec<_>>(), vec![true, false, true]);
    assert_eq!(ids(&data[0]), vec![1, 2, 3]);
}

#[test]
fn mark_done_needs_an_active_context() {
    let mut data = vec![context(1, "work", false, vec![task(1, "a", false)])];
    assert_eq!(
        FileService.mark_done(&mut data, "1".to_string()),
        Err(StoreError::NoActiveContext)
    );
    assert!(!data[0].tasks[0].done);
}

#[test]
fn use_leaves_exactly_the_named_context_active() {
    let mut data = vec![
        context(1, "a", true, vec![]),
        context(2, "b", false, vec![task(1, "t", false)]),
        context(3, "c", false, vec![]),
    ];
    FileService.use_context(&mut data, "b".to_string());
    assert_eq!(flags(&data), vec![false, true, false]);
    assert_eq!(names(&data), vec!["a", "b", "c"]);
    assert_eq!(data[1].tasks.len(), 1);
    FileService.use_context(&mut data, "d".to_string());
    assert_eq!(flags(&data), vec![false, false, false, true]);
    assert_eq!(data[3].id, 4);
    assert_eq!(data[3].name, "d");
}

#[test]
fn use_twice_changes_nothing_more() {
    let mut data = vec![context(1, "a", true, vec![task(1, "t", true)])];
    FileService.use_context(&mut data, "x".to_string());
    let once = format!("{:?}", data);
    FileService.use_context(&mut data, "x".to_string());
    assert_eq!(format!("{:?}", data), once);
    assert_eq!(data.len(), 2);
}

#[test]
fn use_numbers_a_new_context_by_count_not_by_highest_id() {
    let mut data = vec![context(2, "b", true, vec![]), context(3, "c", false, vec![])];
    FileService.use_context(&mut data, "new".to_string());
    assert_eq!(data[2].id, 3);
}

#[test]
fn deleting_another_context_keeps_the_active_one() {
    let mut data = vec![context(1, "first", false, vec![]), context(2, "second", true, vec![])];
    assert_eq!(FileService.del_context(&mut data, "first".to_string()), Ok(()));
    assert_eq!(names(&data), vec!["second"]);
    assert_eq!(flags(&data), vec![true]);
    assert_eq!(data[0].id, 2);
}

#[test]
fn deleting_the_active_context_promotes_the_first_left() {
    let mut data = vec![
        context(1, "a", false, vec![]),
        context(2, "b", true, vec![]),
        context(3, "c", false, vec![]),
    ];
    assert_eq!(FileService.del_context(&mut data, "b".to_string()), Ok(()));
    assert_eq!(names(&data), vec!["a", "c"]);
    assert_eq!(flags(&data), vec![true, false]);
    assert_eq!(data.iter().map(|c| c.id).collect::<Vec<_>>(), vec![1, 3]);
}

#[test]
fn deleting_contexts_by_place_counts_from_one_before_any_leaves() {
    let mut data = vec![
        context(1, "a", true, vec![]),
        context(2, "b", false, vec![]),
        context(3, "c", false, vec![]),
        context(4, "d", false, vec![]),
    ];
    assert_eq!(FileService.del_context(&mut data, "1,3".to_string()), Ok(()));
    assert_eq!(names(&data), vec!["b", "d"]);
    assert_eq!(flags(&data), vec![true, false]);
}

#[test]
fn deleting_contexts_takes_names_and_places_together() {
    let mut data = vec![
        context(1, "a", false, vec![]),
        context(2, "2", false, vec![]),
        context(3, "c", true, vec![]),
        context(4, "01", false, vec![]),
    ];
    assert_eq!(FileService.del_context(&mut data, "2,01,+3".to_string()), Ok(()));
    assert_eq!(names(&data), vec!["a", "c"]);
    assert_eq!(flags(&data), vec![false, true]);
}

#[test]
fn deleting_every_context_leaves_none() {
    let mut data = vec![context(1, "a", true, vec![]), context(2, "b", false, vec![])];
    assert_eq!(FileService.del_context(&mut data, "a,b".to_string()), Ok(()));
    assert!(data.is_empty());
}

#[test]
fn deleting_contexts_needs_an_active_context() {
    let mut data = vec![context(1, "a", false, vec![])];
    assert_eq!(
        FileService.del_context(&mut data, "a".to_string()),
        Err(StoreError::NoActiveContext)
    );
    assert_eq!(names(&data), vec!["a"]);
}

#[test]
fn edit_task_rewords_the_task() {
    let tasks = vec![task(1, "a", false), task(2, "b", true)];
    let mut data = vec![context(1, "work", true, tasks)];
    assert_eq!(FileService.edit_task(&mut data, 2, "new".to_string()), Ok(()));
    assert_eq!(contents(&data[0]), vec!["a", "new"]);
    assert!(data[0].tasks[1].done);
    assert_eq!(data[0].tasks[1].modification_date, "2024-01-01 10:00:00 +00:00");
}

#[test]
fn edit_task_reports_an_unknown_id() {
    let mut data = vec![context(1, "work", true, vec![task(1, "a", false)])];
    assert_eq!(
        FileService.edit_task(&mut data, 4, "new".to_string()),
        Err(StoreError::NotFoundEntity { kind: EntityKind::Task, id: 4 })
    );
    assert_eq!(contents(&data[0]), vec!["a"]);
    let mut idle = vec![context(1, "work", false, vec![task(1, "a", false)])];
    assert_eq!(
        FileService.edit_task(&mut idle, 1, "new".to_string()),
        Err(StoreError::NoActiveContext)
    );
}

#[test]
fn edit_context_renames_by_id() {
    let mut data = vec![context(1, "a", true, vec![]), context(2, "b", false, vec![])];
    assert_eq!(FileService.edit_context(&mut data, 2, "home".to_string()), Ok(()));
    assert_eq!(names(&data), vec!["a", "home"]);
    assert_eq!(flags(&data), vec![true, false]);
}

#[test]
fn edit_context_reports_an_unknown_id() {
    let mut data = vec![context(1, "a", true, vec![])];
    assert_eq!(
        FileService.edit_context(&mut data, 3, "home".to_string()),
        Err(StoreError::NotFoundEntity { kind: EntityKind::Context, id: 3 })
    );
    assert_eq!(names(&data), vec!["a"]);
    let mut idle = vec![context(1, "a", false, vec![])];
    assert_eq!(
        FileService.edit_context(&mut idle, 1, "home".to_string()),
        Err(StoreError::NoActiveContext)
    );
    assert_eq!(names(&idle), vec!["a"]);
}

#[test]
fn clear_empties_the_active_context_only() {
    let mut data = vec![
        context(1, "a", false, vec![task(1, "keep", false)]),
        context(2, "b", true, vec![task(1, "x", false), task(2, "y", false)]),
    ];
    assert_eq!(FileService.clear_tasks(&mut data), Ok(()));
    assert_eq!(names(&data), vec!["a", "b"]);
    assert!(data[1].tasks.is_empty());
    assert!(data[1].active);
    assert_eq!(contents(&data[0]), vec!["keep"]);
    let mut idle = vec![context(1, "a", false, vec![task(1, "keep", false)])];
    assert_eq!(FileService.clear_tasks(&mut idle), Err(StoreError::NoActiveContext));
    assert_eq!(idle[0].tasks.len(), 1);
}

#[test]
fn the_first_active_context_is_the_one_commands_work_on() {
    let data = vec![
        context(1, "a", false, vec![]),
        context(2, "b", true, vec![]),
        context(3, "c", true, vec![]),
    ];
    assert_eq!(get_file_data(&data, false), Ok(Some(1)));
    assert_eq!(get_file_data(&data, true), Ok(Some(1)));
    let idle = vec![context(1, "a", false, vec![])];
    assert_eq!(get_file_data(&idle, false), Err(StoreError::NoActiveContext));
    assert_eq!(get_file_data(&idle, true), Ok(None));
    let none: Vec<Context> = Vec::new();
    assert_eq!(get_file_data(&none, true), Ok(None));
    assert_eq!(get_file_data(&none, false), Err(StoreError::NoActiveContext));
}

#[test]
fn a_new_context_is_numbered_one_past_the_count() {
    let fresh = Context::new(&"home".to_string(), 4);
    assert_eq!(fresh.id, 5);
    assert_eq!(fresh.name, "home");
    assert!(fresh.active);
    assert!(fresh.tasks.is_empty());
}
