use tasks::args::{Commands, TaskArgs, UpdateArgs};
use tasks::error::{EntityKind, StoreError};
use tasks::run::{
    creates_document, expected_answer, request_for, run_cmd, run_cmd_at, Answer, Outcome,
};
use tasks::utils::id_warnings;
use tasks::services::api::{Body, Method};
use tasks::structs::{Config, Context, Task, UserConfig};
use tasks::table::print_table;

fn config() -> Config {
    let user = UserConfig {
        ssh_ip: String::new(),
        ssh_username: String::new(),
        ssh_file_path: String::new(),
        local_file_path: "x".to_string(),
        api_url: "https://api.example".to_string(),
        api_key: "key".to_string(),
    };
    Config::for_terminal(user, "ada", Some(60))
}

fn arg(name: &str) -> TaskArgs {
    TaskArgs { name: name.to_string() }
}

fn task(id: usize, content: &str) -> Task {
    Task {
        id,
        content: content.to_string(),
        done: false,
        creation_date: "then".to_string(),
        modification_date: "then".to_string(),
    }
}

fn sample() -> Vec<Context> {
    vec![
        Context { id: 1, name: "home".to_string(), tasks: vec![task(1, "sweep")], active: false },
        Context {
            id: 2,
            name: "work".to_string(),
            tasks: vec![task(1, "write"), task(2, "read")],
            active: true,
        },
    ]
}

fn idle() -> Vec<Context> {
    vec![Context { id: 1, name: "home".to_string(), tasks: vec![], active: false }]
}

fn persisted(outcome: Outcome) -> (Vec<Context>, Vec<String>) {
    match outcome {
        Outcome::Persist { data, warnings } => (data, warnings),
        other => panic!("nothing to write: {:?}", other),
    }
}

fn shown(outcome: Outcome) -> Vec<String> {
    match outcome {
        Outcome::Show { lines } => lines,
        other => panic!("nothing to show: {:?}", other),
    }
}

fn run(command: Option<Commands>, data: Vec<Context>) -> Outcome {
    run_cmd_at(&config(), command, data, "now".to_string())
}

#[test]
fn use_runs_on_any_collection() {
    let (data, warnings) = persisted(run(Some(Commands::Use(arg("work"))), vec![]));
    assert!(warnings.is_empty());
    assert_eq!(data.len(), 1);
    assert_eq!(data[0].id, 1);
    assert_eq!(data[0].name, "work");
    assert!(data[0].active);
    let (data, _) = persisted(run(Some(Commands::Use(arg("home"))), idle()));
    assert_eq!(data.len(), 1);
    assert!(data[0].active);
}

#[test]
fn every_other_command_needs_an_active_context() {
    let commands = vec![
        None,
        Some(Commands::Ls),
        Some(Commands::Lsa),
        Some(Commands::Lsc),
        Some(Commands::Add(arg("x"))),
        Some(Commands::Up(UpdateArgs { id: 1, name: "x".to_string() })),
        Some(Commands::Upc(UpdateArgs { id: 1, name: "x".to_string() })),
        Some(Commands::Rm(arg("1,x"))),
        Some(Commands::Done(arg("1,x"))),
        Some(Commands::Rmc(arg("home"))),
        Some(Commands::Clear),
    ];
    for command in commands {
        let outcome = run(command, idle());
        assert!(matches!(outcome, Outcome::Fail(StoreError::NoActiveContext)), "{:?}", outcome);
    }
}

#[test]
fn no_command_lists_the_active_context() {
    let expected = vec![print_table(&config(), &sample()[1])];
    assert_eq!(shown(run(None, sample())), expected);
    assert_eq!(shown(run(Some(Commands::Ls), sample())), expected);
}

#[test]
fn lsa_lists_every_context() {
    let expected = vec![print_table(&config(), &sample()[0]), print_table(&config(), &sample()[1])];
    assert_eq!(shown(run(Some(Commands::Lsa), sample())), expected);
}

#[test]
fn lsc_lists_the_contexts() {
    let expected = "\
╭───┬──────┬─────────┬────────╮
│ 1 ┆ home ┆ 1 tasks ┆        │
├╌╌╌┼╌╌╌╌╌╌┼╌╌╌╌╌╌╌╌╌┼╌╌╌╌╌╌╌╌┤
│ 2 ┆ work ┆ 2 tasks ┆ active │
╰───┴──────┴─────────┴────────╯";
    assert_eq!(shown(run(Some(Commands::Lsc), sample())), vec![expected]);
}

#[test]
fn add_appends_to_the_active_context() {
    let (data, warnings) = persisted(run(Some(Commands::Add(arg("think"))), sample()));
    assert!(warnings.is_empty());
    assert_eq!(data[1].tasks.len(), 3);
    assert_eq!(data[1].tasks[2].id, 3);
    assert_eq!(data[1].tasks[2].content, "think");
    assert_eq!(data[1].tasks[2].creation_date, "now");
    assert_eq!(data[1].tasks[2].modification_date, "now");
    assert_eq!(data[0].tasks.len(), 1);
}

#[test]
fn add_at_the_present_moment() {
    let (data, _) = persisted(run_cmd(&config(), Some(Commands::Add(arg("think"))), sample()));
    assert_eq!(data[1].tasks[2].content, "think");
    assert!(!data[1].tasks[2].creation_date.is_empty());
    let lines = shown(run_cmd(&config(), None, sample()));
    assert_eq!(lines.len(), 1);
}

#[test]
fn up_and_upc_report_unknown_ids() {
    let miss = run(Some(Commands::Up(UpdateArgs { id: 9, name: "x".to_string() })), sample());
    assert!(matches!(
        miss,
        Outcome::Fail(StoreError::NotFoundEntity { kind: EntityKind::Task, id: 9 })
    ));
    let miss = run(Some(Commands::Upc(UpdateArgs { id: 9, name: "x".to_string() })), sample());
    assert!(matches!(
        miss,
        Outcome::Fail(StoreError::NotFoundEntity { kind: EntityKind::Context, id: 9 })
    ));
    let reword = Commands::Up(UpdateArgs { id: 2, name: "skim".to_string() });
    let (data, _) = persisted(run(Some(reword), sample()));
    assert_eq!(data[1].tasks[1].content, "skim");
    let rename = Commands::Upc(UpdateArgs { id: 1, name: "flat".to_string() });
    let (data, _) = persisted(run(Some(rename), sample()));
    assert_eq!(data[0].name, "flat");
}

#[test]
fn rm_and_done_warn_about_what_is_no_id() {
    let (data, warnings) = persisted(run(Some(Commands::Rm(arg("1,x,,-2"))), sample()));
    assert_eq!(
        warnings,
        vec!["You can only use Ids, this is not: x", "You can only use Ids, this is not: -2"]
    );
    assert_eq!(data[1].tasks.len(), 1);
    assert_eq!(data[1].tasks[0].id, 1);
    assert_eq!(data[1].tasks[0].content, "read");
    let (data, warnings) = persisted(run(Some(Commands::Done(arg("two,2"))), sample()));
    assert_eq!(warnings, vec!["You can only use Ids, this is not: two"]);
    assert!(!data[1].tasks[0].done);
    assert!(data[1].tasks[1].done);
    assert_eq!(id_warnings(&"1,2".to_string()), Vec::<String>::new());
}

#[test]
fn rmc_and_clear() {
    let (data, _) = persisted(run(Some(Commands::Rmc(arg("work"))), sample()));
    assert_eq!(data.len(), 1);
    assert_eq!(data[0].name, "home");
    assert!(data[0].active);
    let (data, _) = persisted(run(Some(Commands::Clear), sample()));
    assert!(data[1].tasks.is_empty());
    assert_eq!(data[0].tasks.len(), 1);
}

#[test]
fn migrate_is_left_to_the_migration() {
    assert!(matches!(run(Some(Commands::Migrate), sample()), Outcome::Migrate));
    assert!(matches!(run(Some(Commands::Migrate), idle()), Outcome::Migrate));
    assert!(!creates_document(&Some(Commands::Migrate)));
    assert!(creates_document(&Some(Commands::Ls)));
    assert!(creates_document(&Some(Commands::Use(arg("x")))));
    assert!(creates_document(&None));
}

#[test]
fn each_command_has_its_request() {
    let url = |command: Option<Commands>| request_for(&config(), &command).unwrap().url;
    assert_eq!(url(None), "https://api.example/task?active=true");
    assert_eq!(url(Some(Commands::Ls)), "https://api.example/task?active=true");
    assert_eq!(url(Some(Commands::Lsa)), "https://api.example/task");
    assert_eq!(url(Some(Commands::Lsc)), "https://api.example/context?count=true");
    assert_eq!(url(Some(Commands::Use(arg("w")))), "https://api.example/context");
    assert_eq!(url(Some(Commands::Add(arg("w")))), "https://api.example/task");
    assert_eq!(
        url(Some(Commands::Up(UpdateArgs { id: 7, name: "w".to_string() }))),
        "https://api.example/task/7?index=true"
    );
    assert_eq!(
        url(Some(Commands::Upc(UpdateArgs { id: 7, name: "w".to_string() }))),
        "https://api.example/context/index/7"
    );
    assert_eq!(url(Some(Commands::Rm(arg("3")))), "https://api.example/task/3?index=true");
    assert_eq!(url(Some(Commands::Rmc(arg("3")))), "https://api.example/context/3?index=true");
    assert_eq!(url(Some(Commands::Done(arg("3")))), "https://api.example/task/done/3?index=true");
    assert_eq!(url(Some(Commands::Clear)), "https://api.example/context/clear");
    assert!(request_for(&config(), &Some(Commands::Migrate)).is_none());
    let r = request_for(&config(), &Some(Commands::Done(arg("3")))).unwrap();
    assert_eq!(r.method, Method::Put);
    assert!(matches!(r.body, Body::Empty));
    let r = request_for(&config(), &Some(Commands::Use(arg("w")))).unwrap();
    assert_eq!(r.method, Method::Post);
    assert!(matches!(r.body, Body::Context(ref c) if c.name == "w" && !c.active));
}

#[test]
fn each_command_has_its_answer() {
    assert_eq!(expected_answer(&None), Some(Answer::Contexts));
    assert_eq!(expected_answer(&Some(Commands::Ls)), Some(Answer::Contexts));
    assert_eq!(expected_answer(&Some(Commands::Lsa)), Some(Answer::Contexts));
    assert_eq!(expected_answer(&Some(Commands::Lsc)), Some(Answer::Counts));
    assert_eq!(expected_answer(&Some(Commands::Use(arg("w")))), Some(Answer::OneContext));
    assert_eq!(expected_answer(&Some(Commands::Add(arg("w")))), Some(Answer::OneTask));
    assert_eq!(expected_answer(&Some(Commands::Rm(arg("1")))), Some(Answer::Tasks));
    assert_eq!(expected_answer(&Some(Commands::Rmc(arg("1")))), Some(Answer::Status));
    assert_eq!(expected_answer(&Some(Commands::Done(arg("1")))), Some(Answer::Status));
    assert_eq!(expected_answer(&Some(Commands::Clear)), Some(Answer::Status));
    assert_eq!(
        expected_answer(&Some(Commands::Up(UpdateArgs { id: 1, name: "w".to_string() }))),
        Some(Answer::Status)
    );
    assert_eq!(expected_answer(&Some(Commands::Migrate)), None);
}
