//! One command from start to end: what it makes of the collection that was
//! loaded, and what is to happen with the result.

use crate::args::Commands;
use crate::collection::{
    active_tasks, context_renamed, contexts_deleted, fits, has_active, has_context, has_task,
    lemma_has_first_active, switched_to, task_added, task_edited, tasks_cleared, tasks_deleted,
    tasks_done,
};
use crate::error::{EntityKind, StoreError};
use crate::services::api::{
    endpoint, service_of, ApiRequest, ApiService, BodyView, Method, RequestView, ServiceView,
};
use crate::services::file::{counts_of, local_now, shown_tables, FileService};
use crate::structs::{Config, Context, ContextView};
use crate::table::{plain_table_text, summary_rows};
use crate::utils::{decimal, parsed_ids, split_commas, warnings_of};
use vstd::prelude::*;

verus! {

/// What is to happen once a command has run on the loaded collection.
#[derive(Debug)]
pub enum Outcome {
    /// Write `data` back in place of what was loaded, after telling the
    /// user each of `warnings`.
    Persist { data: Vec<Context>, warnings: Vec<String> },
    /// Show these texts, one after the other; nothing is written.
    Show { lines: Vec<String> },
    /// Tell the user of this failure; nothing is written.
    Fail(StoreError),
    /// Run a migration; the command itself changes nothing here.
    Migrate,
}

/// What an [`Outcome`] means.
pub enum OutcomeView {
    Persist { data: Seq<ContextView>, warnings: Seq<Seq<char>> },
    Show { lines: Seq<Seq<char>> },
    Fail(StoreError),
    Migrate,
}

impl View for Outcome {
    type V = OutcomeView;

    open spec fn view(&self) -> OutcomeView {
        match self {
            Outcome::Persist { data, warnings } => OutcomeView::Persist {
                data: data.deep_view(),
                warnings: warnings.deep_view(),
            },
            Outcome::Show { lines } => OutcomeView::Show { lines: lines.deep_view() },
            Outcome::Fail(e) => OutcomeView::Fail(*e),
            Outcome::Migrate => OutcomeView::Migrate,
        }
    }
}

/// `data` to be written back without a warning.
pub open spec fn persist(data: Seq<ContextView>) -> OutcomeView {
    OutcomeView::Persist { data, warnings: Seq::empty() }
}

/// What a command makes of the collection `s`, at the moment `now`, for a
/// line length of `max`. `use` works on any collection; every other
/// command fails where no context is active. A command that names a task
/// or a context by an id that none carries fails too. The listings show
/// and write nothing; the others give the collection to write back.
pub open spec fn outcome_of(
    s: Seq<ContextView>,
    max: nat,
    command: Option<Commands>,
    now: Seq<char>,
) -> OutcomeView {
    match command {
        Some(Commands::Migrate) => OutcomeView::Migrate,
        Some(Commands::Use(args)) => persist(switched_to(s, args.name@)),
        _ => if !has_active(s) {
            OutcomeView::Fail(StoreError::NoActiveContext)
        } else {
            match command {
                None | Some(Commands::Ls) => OutcomeView::Show {
                    lines: shown_tables(s, max, false),
                },
                Some(Commands::Lsa) => OutcomeView::Show { lines: shown_tables(s, max, true) },
                Some(Commands::Lsc) => OutcomeView::Show {
                    lines: seq![plain_table_text(summary_rows(counts_of(s)))],
                },
                Some(Commands::Add(args)) => persist(task_added(s, args.name@, now)),
                Some(Commands::Up(args)) => if has_task(active_tasks(s), args.id as nat) {
                    persist(task_edited(s, args.id as nat, args.name@))
                } else {
                    OutcomeView::Fail(
                        StoreError::NotFoundEntity { kind: EntityKind::Task, id: args.id },
                    )
                },
                Some(Commands::Upc(args)) => if has_context(s, args.id as nat) {
                    persist(context_renamed(s, args.id as nat, args.name@))
                } else {
                    OutcomeView::Fail(
                        StoreError::NotFoundEntity { kind: EntityKind::Context, id: args.id },
                    )
                },
                Some(Commands::Rm(args)) => OutcomeView::Persist {
                    data: tasks_deleted(s, parsed_ids(split_commas(args.name@))),
                    warnings: warnings_of(args.name@),
                },
                Some(Commands::Done(args)) => OutcomeView::Persist {
                    data: tasks_done(s, parsed_ids(split_commas(args.name@))),
                    warnings: warnings_of(args.name@),
                },
                Some(Commands::Rmc(args)) => persist(contexts_deleted(s, split_commas(args.name@))),
                Some(Commands::Clear) => persist(tasks_cleared(s)),
                _ => OutcomeView::Migrate,
            }
        },
    }
}

fn settle(data: Vec<Context>, result: Result<(), StoreError>) -> (outcome: Outcome)
    ensures
        outcome@ == match result {
            Ok(()) => persist(data.deep_view()),
            Err(e) => OutcomeView::Fail(e),
        },
{
    match result {
        Ok(()) => {
            let warnings: Vec<String> = Vec::new();
            assert(warnings.deep_view() =~= Seq::<Seq<char>>::empty());
            Outcome::Persist { data, warnings }
        },
        Err(e) => Outcome::Fail(e),
    }
}

/// Whether a missing document is to be created before `command` runs: it
/// is, but for a migration, which has nothing to copy where there is none.
pub fn creates_document(command: &Option<Commands>) -> (create: bool)
    ensures
        create == !(command matches Some(Commands::Migrate)),
{
    match command {
        Some(Commands::Migrate) => false,
        _ => true,
    }
}

/// Runs `command` on the collection that was loaded, at the present moment.
/// No command is the same as `ls`.
pub fn run_cmd(config: &Config, command: Option<Commands>, data: Vec<Context>) -> (outcome:
    Outcome)
    requires
        config.max_line_lengh > 0,
        fits(data.deep_view()),
    ensures
        exists|now: Seq<char>|
            outcome@ == outcome_of(
                data.deep_view(),
                config.max_line_lengh as nat,
                command,
                now,
            ),
{
    let now = match &command {
        Some(Commands::Add(_)) => local_now(),
        _ => String::new(),
    };
    run_cmd_at(config, command, data, now)
}

/// Runs `command` on the collection that was loaded, at the moment `now`.
pub fn run_cmd_at(
    config: &Config,
    command: Option<Commands>,
    data: Vec<Context>,
    now: String,
) -> (outcome: Outcome)
    requires
        config.max_line_lengh > 0,
        fits(data.deep_view()),
    ensures
        outcome@ == outcome_of(data.deep_view(), config.max_line_lengh as nat, command, now@),
{
    let service = FileService;
    let mut data = data;
    let ghost before = data.deep_view();
    proof {
        if has_active(before) {
            lemma_has_first_active(before);
        }
    }
    match command {
        None | Some(Commands::Ls) => match service.list_tasks(config, &data, false) {
            Ok(lines) => Outcome::Show { lines },
            Err(e) => Outcome::Fail(e),
        },
        Some(Commands::Lsa) => match service.list_tasks(config, &data, true) {
            Ok(lines) => Outcome::Show { lines },
            Err(e) => Outcome::Fail(e),
        },
        Some(Commands::Lsc) => match service.list_contexts(&data) {
            Ok(text) => {
                let mut lines: Vec<String> = Vec::new();
                lines.push(text);
                assert(lines.deep_view() =~= seq![text@]);
                Outcome::Show { lines }
            },
            Err(e) => Outcome::Fail(e),
        },
        Some(Commands::Use(args)) => {
            service.use_context(&mut data, args.name);
            settle(data, Ok(()))
        },
        Some(Commands::Add(args)) => {
            let result = service.add_task_at(&mut data, args.name, now);
            settle(data, result)
        },
        Some(Commands::Up(args)) => {
            let result = service.edit_task(&mut data, args.id, args.name);
            settle(data, result)
        },
        Some(Commands::Upc(args)) => {
            let result = service.edit_context(&mut data, args.id, args.name);
            settle(data, result)
        },
        Some(Commands::Rm(args)) => match service.del_task(&mut data, args.name) {
            Ok(warnings) => Outcome::Persist { data, warnings },
            Err(e) => Outcome::Fail(e),
        },
        Some(Commands::Done(args)) => match service.mark_done(&mut data, args.name) {
            Ok(warnings) => Outcome::Persist { data, warnings },
            Err(e) => Outcome::Fail(e),
        },
        Some(Commands::Rmc(args)) => {
            let result = service.del_context(&mut data, args.name);
            settle(data, result)
        },
        Some(Commands::Clear) => {
            let result = service.clear_tasks(&mut data);
            settle(data, result)
        },
        Some(Commands::Migrate) => Outcome::Migrate,
    }
}

/// The request that `command` sends to the service, if it sends one: all
/// do but `migrate`, which sends many. No command is the same as `ls`.
pub open spec fn request_of(service: ServiceView, command: Option<Commands>) -> Option<
    RequestView,
> {
    match command {
        None | Some(Commands::Ls) => Some(
            RequestView {
                method: Method::Get,
                url: endpoint(service.url, "task?active=true"@),
                authorization: service.key,
                body: BodyView::Empty,
            },
        ),
        Some(Commands::Lsa) => Some(
            RequestView {
                method: Method::Get,
                url: endpoint(service.url, "task"@),
                authorization: service.key,
                body: BodyView::Empty,
            },
        ),
        Some(Commands::Lsc) => Some(
            RequestView {
                method: Method::Get,
                url: endpoint(service.url, "context?count=true"@),
                authorization: service.key,
                body: BodyView::Empty,
            },
        ),
        Some(Commands::Use(args)) => Some(
            RequestView {
                method: Method::Post,
                url: endpoint(service.url, "context"@),
                authorization: service.key,
                body: BodyView::Context { name: args.name@, active: false, simple_create: false },
            },
        ),
        Some(Commands::Add(args)) => Some(
            RequestView {
                method: Method::Post,
                url: endpoint(service.url, "task"@),
                authorization: service.key,
                body: BodyView::Task { content: args.name@ },
            },
        ),
        Some(Commands::Up(args)) => Some(
            RequestView {
                method: Method::Put,
                url: endpoint(service.url, "task/"@ + decimal(args.id as nat) + "?index=true"@),
                authorization: service.key,
                body: BodyView::Task { content: args.name@ },
            },
        ),
        Some(Commands::Upc(args)) => Some(
            RequestView {
                method: Method::Put,
                url: endpoint(service.url, "context/index/"@ + decimal(args.id as nat)),
                authorization: service.key,
                body: BodyView::ContextUpdate { name: args.name@ },
            },
        ),
        Some(Commands::Rm(args)) => Some(
            RequestView {
                method: Method::Delete,
                url: endpoint(service.url, "task/"@ + args.name@ + "?index=true"@),
                authorization: service.key,
                body: BodyView::Empty,
            },
        ),
        Some(Commands::Rmc(args)) => Some(
            RequestView {
                method: Method::Delete,
                url: endpoint(service.url, "context/"@ + args.name@ + "?index=true"@),
                authorization: service.key,
                body: BodyView::Empty,
            },
        ),
        Some(Commands::Done(args)) => Some(
            RequestView {
                method: Method::Put,
                url: endpoint(service.url, "task/done/"@ + args.name@ + "?index=true"@),
                authorization: service.key,
                body: BodyView::Empty,
            },
        ),
        Some(Commands::Clear) => Some(
            RequestView {
                method: Method::Post,
                url: endpoint(service.url, "context/clear"@),
                authorization: service.key,
                body: BodyView::Empty,
            },
        ),
        Some(Commands::Migrate) => None,
    }
}

/// The request that `command` sends to the service, if it sends one.
pub fn request_for(config: &Config, command: &Option<Commands>) -> (request: Option<ApiRequest>)
    ensures
        match request {
            Some(r) => request_of(service_of(config), *command) == Some(r@),
            None => request_of(service_of(config), *command) is None,
        },
{
    let service = ApiService;
    match command {
        None | Some(Commands::Ls) => Some(service.list_tasks(config, false)),
        Some(Commands::Lsa) => Some(service.list_tasks(config, true)),
        Some(Commands::Lsc) => Some(service.list_contexts(config)),
        Some(Commands::Use(args)) => Some(service.use_context(config, args.name.clone())),
        Some(Commands::Add(args)) => Some(service.add_task(config, args.name.clone())),
        Some(Commands::Up(args)) => Some(service.edit_task(config, args.id, args.name.clone())),
        Some(Commands::Upc(args)) => Some(
            service.edit_context(config, args.id, args.name.clone()),
        ),
        Some(Commands::Rm(args)) => Some(service.del_task(config, args.name.clone())),
        Some(Commands::Rmc(args)) => Some(service.del_context(config, args.name.clone())),
        Some(Commands::Done(args)) => Some(service.mark_done(config, args.name.clone())),
        Some(Commands::Clear) => Some(service.clear_tasks(config)),
        Some(Commands::Migrate) => None,
    }
}

/// What the answer of the service to a command holds.
#[derive(Debug, Clone, Copy, PartialEq, Eq, Structural)]
pub enum Answer {
    /// One context with its tasks, to be shown as a table.
    OneContext,
    /// A list of contexts with their tasks, to be shown as tables.
    Contexts,
    /// A list of contexts with the number of their tasks, to be shown as
    /// the list of contexts.
    Counts,
    /// One task; only that it can be read matters.
    OneTask,
    /// A list of tasks; only that it can be read matters.
    Tasks,
    /// Nothing that is read: the status decides what is said.
    Status,
}

/// What the answer to `command` holds: `use` is answered with the context,
/// the listings with what they list, `add` with the task and `rm` with the
/// tasks that are left; of the others only the status is looked at.
/// `migrate` has no single answer.
pub open spec fn answer_to(command: Option<Commands>) -> Option<Answer> {
    match command {
        None | Some(Commands::Ls) | Some(Commands::Lsa) => Some(Answer::Contexts),
        Some(Commands::Lsc) => Some(Answer::Counts),
        Some(Commands::Use(_)) => Some(Answer::OneContext),
        Some(Commands::Add(_)) => Some(Answer::OneTask),
        Some(Commands::Rm(_)) => Some(Answer::Tasks),
        Some(Commands::Migrate) => None,
        _ => Some(Answer::Status),
    }
}

/// What the answer of the service to `command` is to be read as.
pub fn expected_answer(command: &Option<Commands>) -> (answer: Option<Answer>)
    ensures
        answer == answer_to(*command),
{
    match command {
        None | Some(Commands::Ls) | Some(Commands::Lsa) => Some(Answer::Contexts),
        Some(Commands::Lsc) => Some(Answer::Counts),
        Some(Commands::Use(_)) => Some(Answer::OneContext),
        Some(Commands::Add(_)) => Some(Answer::OneTask),
        Some(Commands::Rm(_)) => Some(Answer::Tasks),
        Some(Commands::Migrate) => None,
        _ => Some(Answer::Status),
    }
}

} // verus!
