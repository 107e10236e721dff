use tasks::error::StoreError;
use tasks::services::file::FileService;
use tasks::structs::{Config, Context, Task, UserConfig};
use tasks::table::{
    context_list, context_rows, print_table, table_header, table_rows, ContextCountTask,
};

fn config(width: usize) -> Config {
    let mut made = Config::for_terminal(UserConfig::default(), "me", None);
    made.max_line_lengh = width;
    made
}

fn task(id: usize, content: &str, done: bool) -> Task {
    Task {
        id,
        content: content.to_string(),
        done,
        creation_date: "a".to_string(),
        modification_date: "a".to_string(),
    }
}

fn work() -> Context {
    Context {
        id: 1,
        name: "work".to_string(),
        tasks: vec![task(1, "buy milk and some bread", false), task(2, "call", true)],
        active: true,
    }
}

#[test]
fn a_context_table_has_a_row_for_each_task() {
    assert_eq!(table_header(&config(10), &work()), vec!["", "", "work"]);
    assert_eq!(
        table_rows(&config(10), &work()),
        vec![vec!["1", "[]", "buy milk\nand some\nbread"], vec!["2", "[X]", "call"]]
    );
}

#[test]
fn a_context_without_tasks_says_so() {
    let idle = Context { id: 1, name: "idle".to_string(), tasks: vec![], active: true };
    assert_eq!(
        table_rows(&config(50), &idle),
        vec![vec!["", "", "No tasks, are you lazy or too efficient?"]]
    );
    assert_eq!(
        table_rows(&config(20), &idle),
        vec![vec!["", "", "No tasks, are you\nlazy or too\nefficient?"]]
    );
}

#[test]
fn a_long_context_name_is_broken_in_the_header() {
    let ctx = Context {
        id: 1,
        name: "a rather long name".to_string(),
        tasks: vec![],
        active: false,
    };
    assert_eq!(table_header(&config(10), &ctx), vec!["", "", "a rather\nlong name"]);
}

#[test]
fn print_table_draws_the_frame() {
    let text = print_table(&config(10), &work());
    let expected = "\
╭───┬─────┬──────────╮
│   ┆     ┆ work     │
╞═══╪═════╪══════════╡
│ 1 ┆ []  ┆ buy milk │
│   ┆     ┆ and some │
│   ┆     ┆ bread    │
├╌╌╌┼╌╌╌╌╌┼╌╌╌╌╌╌╌╌╌╌┤
│ 2 ┆ [X] ┆ call     │
╰───┴─────┴──────────╯";
    assert_eq!(text, expected);
}

#[test]
fn print_table_draws_an_empty_context() {
    let idle = Context { id: 1, name: "idle".to_string(), tasks: vec![], active: true };
    let expected = "\
╭───┬───┬──────────────────────────────────────────╮
│   ┆   ┆ idle                                     │
╞═══╪═══╪══════════════════════════════════════════╡
│   ┆   ┆ No tasks, are you lazy or too efficient? │
╰───┴───┴──────────────────────────────────────────╯";
    assert_eq!(print_table(&config(50), &idle), expected);
}

#[test]
fn print_table_is_what_comfy_table_draws() {
    let mut table = comfy_table::Table::new();
    table
        .load_preset(comfy_table::presets::UTF8_FULL)
        .apply_modifier(comfy_table::modifiers::UTF8_ROUND_CORNERS);
    table.set_header(vec!["", "", "work"]);
    table.add_row(vec!["1", "[]", "buy milk and some bread"]);
    table.add_row(vec!["2", "[X]", "call"]);
    assert_eq!(print_table(&config(50), &work()), table.to_string());
}

#[test]
fn the_list_of_contexts_has_a_row_for_each() {
    let counts = vec![
        ContextCountTask { name: "work".to_string(), task_count: 2, active: true },
        ContextCountTask { name: "home".to_string(), task_count: 0, active: false },
        ContextCountTask { name: "garden".to_string(), task_count: 11, active: false },
    ];
    assert_eq!(
        context_rows(&counts),
        vec![
            vec!["1", "work", "2 tasks", "active"],
            vec!["2", "home", "0 tasks", ""],
            vec!["3", "garden", "11 tasks", ""],
        ]
    );
}

#[test]
fn the_list_of_no_contexts_is_a_hint() {
    assert_eq!(
        context_rows(&vec![]),
        vec![vec!["Add your first context using: tasks use {{context}}"]]
    );
    let expected = "\
╭─────────────────────────────────────────────────────╮
│ Add your first context using: tasks use {{context}} │
╰─────────────────────────────────────────────────────╯";
    assert_eq!(context_list(&vec![]), expected);
}

#[test]
fn context_list_draws_the_frame() {
    let counts = vec![
        ContextCountTask { name: "work".to_string(), task_count: 2, active: true },
        ContextCountTask { name: "home".to_string(), task_count: 0, active: false },
    ];
    let expected = "\
╭───┬──────┬─────────┬────────╮
│ 1 ┆ work ┆ 2 tasks ┆ active │
├╌╌╌┼╌╌╌╌╌╌┼╌╌╌╌╌╌╌╌╌┼╌╌╌╌╌╌╌╌┤
│ 2 ┆ home ┆ 0 tasks ┆        │
╰───┴──────┴─────────┴────────╯";
    assert_eq!(context_list(&counts), expected);
}

#[test]
fn list_tasks_shows_the_active_context_or_all() {
    let home = Context {
        id: 2,
        name: "home".to_string(),
        tasks: vec![task(1, "sweep", false)],
        active: false,
    };
    let data = vec![home, work()];
    let one = FileService.list_tasks(&config(50), &data, false).unwrap();
    assert_eq!(one, vec![print_table(&config(50), &data[1])]);
    let all = FileService.list_tasks(&config(50), &data, true).unwrap();
    assert_eq!(
        all,
        vec![print_table(&config(50), &data[0]), print_table(&config(50), &data[1])]
    );
    assert!(all[0].contains("sweep"));
    assert!(all[1].contains("buy milk and some bread"));
}

#[test]
fn listings_need_an_active_context() {
    let idle = vec![Context { id: 1, name: "idle".to_string(), tasks: vec![], active: false }];
    assert_eq!(FileService.list_tasks(&config(50), &idle, false), Err(StoreError::NoActiveContext));
    assert_eq!(FileService.list_tasks(&config(50), &idle, true), Err(StoreError::NoActiveContext));
    assert_eq!(FileService.list_contexts(&idle), Err(StoreError::NoActiveContext));
    assert_eq!(FileService.list_contexts(&vec![]), Err(StoreError::NoActiveContext));
}

#[test]
fn list_contexts_counts_the_tasks_of_each() {
    let home = Context { id: 2, name: "home".to_string(), tasks: vec![], active: false };
    let data = vec![work(), home];
    let counts = FileService::context_counts(&data);
    assert_eq!(counts.len(), 2);
    assert_eq!(counts[0].name, "work");
    assert_eq!(counts[0].task_count, 2);
    assert!(counts[0].active);
    assert_eq!(counts[1].name, "home");
    assert_eq!(counts[1].task_count, 0);
    assert!(!counts[1].active);
    let expected = "\
╭───┬──────┬─────────┬────────╮
│ 1 ┆ work ┆ 2 tasks ┆ active │
├╌╌╌┼╌╌╌╌╌╌┼╌╌╌╌╌╌╌╌╌┼╌╌╌╌╌╌╌╌┤
│ 2 ┆ home ┆ 0 tasks ┆        │
╰───┴──────┴─────────┴────────╯";
    assert_eq!(FileService.list_contexts(&data), Ok(expected.to_string()));
}
