//! The commands against a remote service that keeps tasks and contexts one
//! by one: which request each command sends, and what is made of the
//! answer.

use crate::args::Commands;
use crate::collection::{renumbered, with_tasks};
use crate::error::StoreError;
use crate::structs::{Config, Context, ContextView, Task, TaskView};
use crate::table::{context_table, print_table};
use crate::utils::{decimal, decimal_string};
use vstd::prelude::*;

verus! {

/// The commands of the service-backed store. Each says which request is to
/// be sent; sending it is the caller's part.
#[derive(Debug)]
pub struct ApiService;

/// The method of a request.
#[derive(Debug, Clone, Copy, PartialEq, Eq, Structural)]
pub enum Method {
    Get,
    Post,
    Put,
    Delete,
}

/// What is sent to create a context.
#[derive(Debug)]
pub struct ContextRequest {
    pub name: String,
    pub active: bool,
    pub simple_create: bool,
}

/// What is sent to rename a context.
#[derive(Debug)]
pub struct ContextUpdateRequest {
    pub name: String,
}

/// What is sent to create a task, or to give one a new content.
#[derive(Debug)]
pub struct TaskRequest {
    pub content: String,
}

/// What is sent to create a task in a given context with given dates.
#[derive(Debug)]
pub struct TaskRequestFull {
    pub content: String,
    pub context_id: i32,
    pub creation_date: String,
    pub modification_date: String,
}

/// What a [`TaskRequestFull`] means.
pub struct TaskRequestFullView {
    pub content: Seq<char>,
    pub context_id: int,
    pub creation_date: Seq<char>,
    pub modification_date: Seq<char>,
}

impl View for TaskRequestFull {
    type V = TaskRequestFullView;

    open spec fn view(&self) -> TaskRequestFullView {
        TaskRequestFullView {
            content: self.content@,
            context_id: self.context_id as int,
            creation_date: self.creation_date@,
            modification_date: self.modification_date@,
        }
    }
}

impl DeepView for TaskRequestFull {
    type V = TaskRequestFullView;

    open spec fn deep_view(&self) -> TaskRequestFullView {
        self@
    }
}

/// The body of a request.
#[derive(Debug)]
pub enum Body {
    Empty,
    Context(ContextRequest),
    ContextUpdate(ContextUpdateRequest),
    Task(TaskRequest),
    TaskBatch(Vec<TaskRequestFull>),
}

/// What a [`Body`] means.
pub enum BodyView {
    Empty,
    Context { name: Seq<char>, active: bool, simple_create: bool },
    ContextUpdate { name: Seq<char> },
    Task { content: Seq<char> },
    TaskBatch { tasks: Seq<TaskRequestFullView> },
}

impl View for Body {
    type V = BodyView;

    open spec fn view(&self) -> BodyView {
        match self {
            Body::Empty => BodyView::Empty,
            Body::Context(c) => BodyView::Context {
                name: c.name@,
                active: c.active,
                simple_create: c.simple_create,
            },
            Body::ContextUpdate(c) => BodyView::ContextUpdate { name: c.name@ },
            Body::Task(t) => BodyView::Task { content: t.content@ },
            Body::TaskBatch(tasks) => BodyView::TaskBatch { tasks: tasks.deep_view() },
        }
    }
}

/// A request to the service.
#[derive(Debug)]
pub struct ApiRequest {
    pub method: Method,
    pub url: String,
    /// The key that is sent along, in the `Authorization` header.
    pub authorization: String,
    pub body: Body,
}

/// What an [`ApiRequest`] means.
pub struct RequestView {
    pub method: Method,
    pub url: Seq<char>,
    pub authorization: Seq<char>,
    pub body: BodyView,
}

impl View for ApiRequest {
    type V = RequestView;

    open spec fn view(&self) -> RequestView {
        RequestView {
            method: self.method,
            url: self.url@,
            authorization: self.authorization@,
            body: self.body@,
        }
    }
}

/// The service as a request sees it: where it is, and the key that opens
/// it.
pub struct ServiceView {
    pub url: Seq<char>,
    pub key: Seq<char>,
}

/// The service that `config` names.
pub open spec fn service_of(config: &Config) -> ServiceView {
    ServiceView { url: config.api_url@, key: config.api_key@ }
}

/// The address of `slug` at the service at `api_url`.
pub open spec fn endpoint(api_url: Seq<char>, slug: Seq<char>) -> Seq<char> {
    api_url + "/"@ + slug
}

/// The address of `slug` at the configured service.
pub fn get_url(config: &Config, slug: &str) -> (url: String)
    ensures
        url@ == endpoint(config.api_url@, slug@),
{
    config.api_url.clone().concat("/").concat(slug)
}

/// The number of tasks in the first `upto` contexts of `s`.
pub open spec fn tasks_before(s: Seq<ContextView>, upto: int) -> nat
    decreases upto,
{
    if upto <= 0 {
        0
    } else {
        tasks_before(s, upto - 1) + s[upto - 1].tasks.len()
    }
}

/// `s` with its tasks numbered from 1 across all contexts: the count runs
/// on from each context to the next.
pub open spec fn renumbered_across(s: Seq<ContextView>) -> Seq<ContextView> {
    Seq::new(s.len(), |j: int| with_tasks(s[j], renumbered(s[j].tasks, tasks_before(s, j))))
}

/// The tasks up to a context are no more than those up to a later one.
pub proof fn lemma_tasks_before_grows(s: Seq<ContextView>, j: int, upto: int)
    requires
        0 <= j <= upto,
    ensures
        tasks_before(s, j) <= tasks_before(s, upto),
    decreases upto - j,
{
    if j < upto {
        lemma_tasks_before_grows(s, j, upto - 1);
    }
}

/// The number of tasks in all contexts of `data`, where it fits the
/// machine's word.
pub fn count_tasks(data: &Vec<Context>) -> (total: Option<usize>)
    ensures
        match total {
            Some(n) => n == tasks_before(data.deep_view(), data.len() as int),
            None => tasks_before(data.deep_view(), data.len() as int) > usize::MAX,
        },
{
    let mut total: usize = 0;
    let mut j: usize = 0;
    while j < data.len()
        invariant
            j <= data.len(),
            total == tasks_before(data.deep_view(), j as int),
        decreases data.len() - j,
    {
        assert(data.deep_view()[j as int].tasks.len() == data[j as int].tasks.len());
        total = match total.checked_add(data[j].tasks.len()) {
            Some(sum) => sum,
            None => {
                proof {
                    lemma_tasks_before_grows(data.deep_view(), j + 1, data.len() as int);
                }
                return None;
            },
        };
        j += 1;
    }
    Some(total)
}

fn renumber(tasks: &Vec<Task>, start: usize) -> (out: Vec<Task>)
    requires
        start + tasks.len() <= usize::MAX,
    ensures
        out.deep_view() == renumbered(tasks.deep_view(), start as nat),
{
    let mut out: Vec<Task> = Vec::new();
    let mut k: usize = 0;
    while k < tasks.len()
        invariant
            k <= tasks.len(),
            start + tasks.len() <= usize::MAX,
            out.len() == k,
            forall|i: int|
                0 <= i < k ==> out.deep_view()[i] == renumbered(tasks.deep_view(), start as nat)[i],
        decreases tasks.len() - k,
    {
        let ghost prev = out.deep_view();
        let task = Task {
            id: start + k + 1,
            content: tasks[k].content.clone(),
            done: tasks[k].done,
            creation_date: tasks[k].creation_date.clone(),
            modification_date: tasks[k].modification_date.clone(),
        };
        out.push(task);
        assert(out.deep_view() =~= prev.push(task@));
        k += 1;
    }
    assert(out.deep_view() =~= renumbered(tasks.deep_view(), start as nat));
    out
}

/// Numbers the tasks of `contexts` from 1 across all of them, in the order
/// in which they are listed.
pub fn mutate_tasks_ids(contexts: Vec<Context>) -> (out: Vec<Context>)
    requires
        tasks_before(contexts.deep_view(), contexts.len() as int) <= usize::MAX,
    ensures
        out.deep_view() == renumbered_across(contexts.deep_view()),
{
    let ghost before = contexts.deep_view();
    let mut out = contexts;
    let mut counter: usize = 0;
    let n: usize = out.len();
    let mut j: usize = 0;
    while j < n
        invariant
            j <= n,
            n == out.len(),
            n == before.len(),
            tasks_before(before, n as int) <= usize::MAX,
            counter == tasks_before(before, j as int),
            forall|i: int| 0 <= i < j ==> out.deep_view()[i] == renumbered_across(before)[i],
            forall|i: int| j <= i < n ==> out.deep_view()[i] == before[i],
        decreases n - j,
    {
        let ghost prev = out.deep_view();
        proof {
            lemma_tasks_before_grows(before, j + 1, n as int);
            assert(out.deep_view()[j as int] == before[j as int]);
            assert(out[j as int].tasks.deep_view().len() == out[j as int].tasks.len());
        }
        let tasks = renumber(&out[j].tasks, counter);
        assert(tasks.deep_view().len() == tasks.len());
        counter = counter + tasks.len();
        out[j].tasks = tasks;
        assert(out.deep_view() =~= prev.update(j as int, renumbered_across(before)[j as int]));
        j += 1;
    }
    assert(out.deep_view() =~= renumbered_across(before));
    out
}

/// The tables that a listing from the service shows: one for each context
/// it sent, with the tasks numbered across all of them.
pub open spec fn listed_tables(s: Seq<ContextView>, max: nat) -> Seq<Seq<char>> {
    Seq::new(s.len(), |i: int| context_table(renumbered_across(s)[i], max))
}

/// What is said once the service has answered a command that shows no
/// listing. `success` tells whether the answer's status was a success, and
/// `status` is that status written out. `None` for the commands whose
/// answer is a listing, and for `migrate`.
pub open spec fn reply_text(command: Commands, success: bool, status: Seq<char>) -> Option<
    Seq<char>,
> {
    match command {
        Commands::Add(_) => Some("Task created"@),
        Commands::Rm(_) => Some("Tasks deleted"@),
        Commands::Upc(args) => Some(
            if success {
                "Context updated with name: "@ + args.name@
            } else {
                "Error when updating context, status: "@ + status
            },
        ),
        Commands::Up(args) => Some(
            if success {
                "Task updated with content: "@ + args.name@
            } else {
                "Error when updating task, status: "@ + status
            },
        ),
        Commands::Rmc(_) => Some(
            if success {
                "Context deleted"@
            } else {
                "Error when deleting context, status: "@ + status
            },
        ),
        Commands::Done(_) => Some(
            if success {
                "Task marked as done"@
            } else {
                "Error when marking task as done, status: "@ + status
            },
        ),
        Commands::Clear => Some(
            if success {
                "Context cleared"@
            } else {
                "Error when clearing context, status: "@ + status
            },
        ),
        _ => None,
    }
}

fn request(method: Method, config: &Config, slug: &str, body: Body) -> (r: ApiRequest)
    ensures
        r@ == (RequestView {
            method,
            url: endpoint(config.api_url@, slug@),
            authorization: config.api_key@,
            body: body@,
        }),
{
    ApiRequest { method, url: get_url(config, slug), authorization: config.api_key.clone(), body }
}

impl ApiService {
    /// The request that switches to the context called `name`, creating it
    /// where it does not exist.
    pub fn use_context(&self, config: &Config, name: String) -> (r: ApiRequest)
        ensures
            r@ == (RequestView {
                method: Method::Post,
                url: endpoint(config.api_url@, "context"@),
                authorization: config.api_key@,
                body: BodyView::Context { name: name@, active: false, simple_create: false },
            }),
    {
        let body = Body::Context(ContextRequest { name, active: false, simple_create: false });
        request(Method::Post, config, "context", body)
    }

    /// The request that adds a task to the active context.
    pub fn add_task(&self, config: &Config, content: String) -> (r: ApiRequest)
        ensures
            r@ == (RequestView {
                method: Method::Post,
                url: endpoint(config.api_url@, "task"@),
                authorization: config.api_key@,
                body: BodyView::Task { content: content@ },
            }),
    {
        request(Method::Post, config, "task", Body::Task(TaskRequest { content }))
    }

    /// The request that renames the context shown at place `index`.
    pub fn edit_context(&self, config: &Config, index: usize, name: String) -> (r: ApiRequest)
        ensures
            r@ == (RequestView {
                method: Method::Put,
                url: endpoint(config.api_url@, "context/index/"@ + decimal(index as nat)),
                authorization: config.api_key@,
                body: BodyView::ContextUpdate { name: name@ },
            }),
    {
        let slug = String::from_str("context/index/").concat(decimal_string(index).as_str());
        request(
            Method::Put,
            config,
            slug.as_str(),
            Body::ContextUpdate(ContextUpdateRequest { name }),
        )
    }

    /// The request that gives the task shown as number `id` a new content.
    pub fn edit_task(&self, config: &Config, id: usize, content: String) -> (r: ApiRequest)
        ensures
            r@ == (RequestView {
                method: Method::Put,
                url: endpoint(
                    config.api_url@,
                    "task/"@ + decimal(id as nat) + "?index=true"@,
                ),
                authorization: config.api_key@,
                body: BodyView::Task { content: content@ },
            }),
    {
        let slug = String::from_str("task/").concat(decimal_string(id).as_str()).concat(
            "?index=true",
        );
        request(Method::Put, config, slug.as_str(), Body::Task(TaskRequest { content }))
    }

    /// The request that deletes the context that `index` names.
    pub fn del_context(&self, config: &Config, index: String) -> (r: ApiRequest)
        ensures
            r@ == (RequestView {
                method: Method::Delete,
                url: endpoint(config.api_url@, "context/"@ + index@ + "?index=true"@),
                authorization: config.api_key@,
                body: BodyView::Empty,
            }),
    {
        let slug = String::from_str("context/").concat(index.as_str()).concat("?index=true");
        request(Method::Delete, config, slug.as_str(), Body::Empty)
    }

    /// The request that deletes the task that `id` names.
    pub fn del_task(&self, config: &Config, id: String) -> (r: ApiRequest)
        ensures
            r@ == (RequestView {
                method: Method::Delete,
                url: endpoint(config.api_url@, "task/"@ + id@ + "?index=true"@),
                authorization: config.api_key@,
                body: BodyView::Empty,
            }),
    {
        let slug = String::from_str("task/").concat(id.as_str()).concat("?index=true");
        request(Method::Delete, config, slug.as_str(), Body::Empty)
    }

    /// The request that lists the tasks of the active context, or, where
    /// `all` is set, of all contexts.
    pub fn list_tasks(&self, config: &Config, all: bool) -> (r: ApiRequest)
        ensures
            r@ == (RequestView {
                method: Method::Get,
                url: endpoint(
                    config.api_url@,
                    if all {
                        "task"@
                    } else {
                        "task?active=true"@
                    },
                ),
                authorization: config.api_key@,
                body: BodyView::Empty,
            }),
    {
        let slug = if all {
            "task"
        } else {
            "task?active=true"
        };
        request(Method::Get, config, slug, Body::Empty)
    }

    /// The request that lists the contexts with the number of their tasks.
    pub fn list_contexts(&self, config: &Config) -> (r: ApiRequest)
        ensures
            r@ == (RequestView {
                method: Method::Get,
                url: endpoint(config.api_url@, "context?count=true"@),
                authorization: config.api_key@,
                body: BodyView::Empty,
            }),
    {
        request(Method::Get, config, "context?count=true", Body::Empty)
    }

    /// The request that marks the task that `index` names as done.
    pub fn mark_done(&self, config: &Config, index: String) -> (r: ApiRequest)
        ensures
            r@ == (RequestView {
                method: Method::Put,
                url: endpoint(config.api_url@, "task/done/"@ + index@ + "?index=true"@),
                authorization: config.api_key@,
                body: BodyView::Empty,
            }),
    {
        let slug = String::from_str("task/done/").concat(index.as_str()).concat("?index=true");
        request(Method::Put, config, slug.as_str(), Body::Empty)
    }

    /// The request that deletes the tasks of the active context.
    pub fn clear_tasks(&self, config: &Config) -> (r: ApiRequest)
        ensures
            r@ == (RequestView {
                method: Method::Post,
                url: endpoint(config.api_url@, "context/clear"@),
                authorization: config.api_key@,
                body: BodyView::Empty,
            }),
    {
        request(Method::Post, config, "context/clear", Body::Empty)
    }

    /// The tables to show for the contexts that the service sent in answer
    /// to a listing, or to `use`: the tasks are numbered from 1 across all
    /// of them first.
    pub fn show_tasks(&self, config: &Config, data: Vec<Context>) -> (tables: Vec<String>)
        requires
            config.max_line_lengh > 0,
            tasks_before(data.deep_view(), data.len() as int) <= usize::MAX,
        ensures
            tables.deep_view() == listed_tables(data.deep_view(), config.max_line_lengh as nat),
    {
        let ghost before = data.deep_view();
        let ghost max = config.max_line_lengh as nat;
        let updated = mutate_tasks_ids(data);
        let mut tables: Vec<String> = Vec::new();
        let mut i: usize = 0;
        while i < updated.len()
            invariant
                i <= updated.len(),
                config.max_line_lengh > 0,
                max == config.max_line_lengh,
                updated.deep_view() == renumbered_across(before),
                tables.len() == i,
                forall|j: int|
                    0 <= j < i ==> tables.deep_view()[j] == context_table(
                        renumbered_across(before)[j],
                        max,
                    ),
            decreases updated.len() - i,
        {
            let ghost prev = tables.deep_view();
            let text = print_table(config, &updated[i]);
            assert(updated.deep_view()[i as int] == updated[i as int]@);
            tables.push(text);
            assert(tables.deep_view() =~= prev.push(text@));
            i += 1;
        }
        assert(updated.deep_view().len() == updated.len());
        assert(tables.deep_view() =~= listed_tables(before, max));
        tables
    }

    /// What to say once the service has answered `command`.
    pub fn reply(&self, command: &Commands, success: bool, status: &str) -> (message: Option<
        String,
    >)
        ensures
            match message {
                Some(text) => reply_text(*command, success, status@) == Some(text@),
                None => reply_text(*command, success, status@) is None,
            },
    {
        match command {
            Commands::Add(_) => Some(String::from_str("Task created")),
            Commands::Rm(_) => Some(String::from_str("Tasks deleted")),
            Commands::Upc(args) => Some(
                if success {
                    String::from_str("Context updated with name: ").concat(args.name.as_str())
                } else {
                    String::from_str("Error when updating context, status: ").concat(status)
                },
            ),
            Commands::Up(args) => Some(
                if success {
                    String::from_str("Task updated with content: ").concat(args.name.as_str())
                } else {
                    String::from_str("Error when updating task, status: ").concat(status)
                },
            ),
            Commands::Rmc(_) => Some(
                if success {
                    String::from_str("Context deleted")
                } else {
                    String::from_str("Error when deleting context, status: ").concat(status)
                },
            ),
            Commands::Done(_) => Some(
                if success {
                    String::from_str("Task marked as done")
                } else {
                    String::from_str("Error when marking task as done, status: ").concat(status)
                },
            ),
            Commands::Clear => Some(
                if success {
                    String::from_str("Context cleared")
                } else {
                    String::from_str("Error when clearing context, status: ").concat(status)
                },
            ),
            _ => None,
        }
    }
}

/// How far a migration has come. A migration deletes what the service
/// holds and then creates every context of the stored collection there,
/// each followed by its tasks.
#[derive(Debug)]
pub enum MigrationState {
    /// The service was asked to delete its contexts.
    ClearingContexts { source: Vec<Context> },
    /// The service was asked to delete its tasks.
    ClearingTasks { source: Vec<Context>, contexts_cleared: bool },
    /// The service was asked to create `current`; `rest` is still to come.
    CreatingContext { current: Context, rest: Vec<Context> },
    /// The service was asked to create the tasks of `current`.
    CreatingTasks { current: Context, rest: Vec<Context> },
    /// Nothing is left to do.
    Done,
}

/// What a [`MigrationState`] means.
pub enum MigrationStateView {
    ClearingContexts { source: Seq<ContextView> },
    ClearingTasks { source: Seq<ContextView>, contexts_cleared: bool },
    CreatingContext { current: ContextView, rest: Seq<ContextView> },
    CreatingTasks { current: ContextView, rest: Seq<ContextView> },
    Done,
}

impl View for MigrationState {
    type V = MigrationStateView;

    open spec fn view(&self) -> MigrationStateView {
        match self {
            MigrationState::ClearingContexts { source } => MigrationStateView::ClearingContexts {
                source: source.deep_view(),
            },
            MigrationState::ClearingTasks {
                source,
                contexts_cleared,
            } => MigrationStateView::ClearingTasks {
                source: source.deep_view(),
                contexts_cleared: *contexts_cleared,
            },
            MigrationState::CreatingContext {
                current,
                rest,
            } => MigrationStateView::CreatingContext { current: current@, rest: rest.deep_view() },
            MigrationState::CreatingTasks { current, rest } => MigrationStateView::CreatingTasks {
                current: current@,
                rest: rest.deep_view(),
            },
            MigrationState::Done => MigrationStateView::Done,
        }
    }
}

/// What became of the request that was sent last.
#[derive(Debug, Clone, Copy, PartialEq, Eq, Structural)]
pub enum MigrationEvent {
    /// It could not be sent.
    Failed,
    /// It was sent and answered; nothing was read from the answer.
    Sent,
    /// It was sent, and the answer names the context that was created.
    Created { id: usize },
}

/// What is to be done next in a migration.
#[derive(Debug)]
pub enum MigrationAction {
    /// Send this request, and come back with what became of it.
    Send(ApiRequest),
    /// Say this, and end.
    Report(String),
    /// Give up with this message: the migration is left half done.
    Abort(String),
    /// End without a word.
    Stop,
}

/// What a [`MigrationAction`] means.
pub enum MigrationActionView {
    Send(RequestView),
    Report(Seq<char>),
    Abort(Seq<char>),
    Stop,
}

impl View for MigrationAction {
    type V = MigrationActionView;

    open spec fn view(&self) -> MigrationActionView {
        match self {
            MigrationAction::Send(r) => MigrationActionView::Send(r@),
            MigrationAction::Report(text) => MigrationActionView::Report(text@),
            MigrationAction::Abort(text) => MigrationActionView::Abort(text@),
            MigrationAction::Stop => MigrationActionView::Stop,
        }
    }
}

/// The request that creates `ctx` at the service, under its name and with
/// its active flag.
pub open spec fn create_context(service: ServiceView, ctx: ContextView) -> RequestView {
    RequestView {
        method: Method::Post,
        url: endpoint(service.url, "context"@),
        authorization: service.key,
        body: BodyView::Context { name: ctx.name, active: ctx.active, simple_create: true },
    }
}

/// `tasks` as they are sent to the service for the context it numbered
/// `id`: each with its content and both its dates.
pub open spec fn batch_of(tasks: Seq<TaskView>, id: int) -> Seq<TaskRequestFullView> {
    Seq::new(
        tasks.len(),
        |k: int|
            TaskRequestFullView {
                content: tasks[k].content,
                context_id: id,
                creation_date: tasks[k].creation_date,
                modification_date: tasks[k].modification_date,
            },
    )
}

/// The request that creates the tasks of `ctx` at the service, in the
/// context it numbered `id`.
pub open spec fn create_tasks(service: ServiceView, ctx: ContextView, id: usize) -> RequestView {
    RequestView {
        method: Method::Post,
        url: endpoint(service.url, "task/batch"@),
        authorization: service.key,
        body: BodyView::TaskBatch { tasks: batch_of(ctx.tasks, (id as i32) as int) },
    }
}

/// The step that turns to the first of `contexts`, or ends the migration
/// where none is left.
pub open spec fn turn_to(service: ServiceView, contexts: Seq<ContextView>) -> (
    MigrationStateView,
    MigrationActionView,
) {
    if contexts.len() == 0 {
        (MigrationStateView::Done, MigrationActionView::Report("Migration completed"@))
    } else {
        (
            MigrationStateView::CreatingContext {
                current: contexts[0],
                rest: contexts.drop_first(),
            },
            MigrationActionView::Send(create_context(service, contexts[0])),
        )
    }
}

/// The first step of a migration, for what loading the stored collection
/// gave: nothing happens where it could not be loaded; else the service is
/// asked to delete its contexts.
pub open spec fn migration_start(
    service: ServiceView,
    loaded: Result<Seq<ContextView>, StoreError>,
) -> (MigrationStateView, MigrationActionView) {
    match loaded {
        Ok(source) => (
            MigrationStateView::ClearingContexts { source },
            MigrationActionView::Send(
                RequestView {
                    method: Method::Delete,
                    url: endpoint(service.url, "context"@),
                    authorization: service.key,
                    body: BodyView::Empty,
                },
            ),
        ),
        Err(_) => (MigrationStateView::Done, MigrationActionView::Stop),
    }
}

/// The next step of a migration. Both deletions are asked for before
/// either is looked at; if one of them could not be sent, the migration
/// ends there. Then each context is created, and its tasks after it, under
/// the id that the service gave the context. A request that could not be
/// sent, or an answer without that id, ends the migration half done.
pub open spec fn migration_step(
    service: ServiceView,
    state: MigrationStateView,
    event: MigrationEvent,
) -> (MigrationStateView, MigrationActionView) {
    match state {
        MigrationStateView::ClearingContexts { source } => (
            MigrationStateView::ClearingTasks {
                source,
                contexts_cleared: event != MigrationEvent::Failed,
            },
            MigrationActionView::Send(
                RequestView {
                    method: Method::Delete,
                    url: endpoint(service.url, "task"@),
                    authorization: service.key,
                    body: BodyView::Empty,
                },
            ),
        ),
        MigrationStateView::ClearingTasks { source, contexts_cleared } => {
            if contexts_cleared && event != MigrationEvent::Failed {
                turn_to(service, source)
            } else {
                (
                    MigrationStateView::Done,
                    MigrationActionView::Report("Error when deleting data from API"@),
                )
            }
        },
        MigrationStateView::CreatingContext { current, rest } => match event {
            MigrationEvent::Created { id } => (
                MigrationStateView::CreatingTasks { current, rest },
                MigrationActionView::Send(create_tasks(service, current, id)),
            ),
            MigrationEvent::Failed => (
                MigrationStateView::Done,
                MigrationActionView::Abort("Error when migrating context "@ + current.name),
            ),
            MigrationEvent::Sent => (
                MigrationStateView::Done,
                MigrationActionView::Abort("Error when parsing response"@),
            ),
        },
        MigrationStateView::CreatingTasks { current, rest } => match event {
            MigrationEvent::Failed => (
                MigrationStateView::Done,
                MigrationActionView::Abort(
                    "Error when migrating tasks for context "@ + current.name,
                ),
            ),
            _ => turn_to(service, rest),
        },
        MigrationStateView::Done => (MigrationStateView::Done, MigrationActionView::Stop),
    }
}

fn batch(tasks: &Vec<Task>, id: i32) -> (out: Vec<TaskRequestFull>)
    ensures
        out.deep_view() == batch_of(tasks.deep_view(), id as int),
{
    let mut out: Vec<TaskRequestFull> = Vec::new();
    let mut k: usize = 0;
    while k < tasks.len()
        invariant
            k <= tasks.len(),
            out.len() == k,
            forall|i: int|
                0 <= i < k ==> out.deep_view()[i] == batch_of(tasks.deep_view(), id as int)[i],
        decreases tasks.len() - k,
    {
        let ghost prev = out.deep_view();
        let task = TaskRequestFull {
            content: tasks[k].content.clone(),
            context_id: id,
            creation_date: tasks[k].creation_date.clone(),
            modification_date: tasks[k].modification_date.clone(),
        };
        out.push(task);
        assert(out.deep_view() =~= prev.push(task@));
        k += 1;
    }
    assert(out.deep_view() =~= batch_of(tasks.deep_view(), id as int));
    out
}

fn turn(config: &Config, contexts: Vec<Context>) -> (step: (MigrationState, MigrationAction))
    ensures
        (step.0@, step.1@) == turn_to(service_of(config), contexts.deep_view()),
{
    let ghost before = contexts.deep_view();
    let mut rest = contexts;
    if rest.len() == 0 {
        (MigrationState::Done, MigrationAction::Report(String::from_str("Migration completed")))
    } else {
        let current = rest.remove(0);
        assert(rest.deep_view() =~= before.drop_first());
        let body = Body::Context(
            ContextRequest {
                name: current.name.clone(),
                active: current.active,
                simple_create: true,
            },
        );
        let send = request(Method::Post, config, "context", body);
        (MigrationState::CreatingContext { current, rest }, MigrationAction::Send(send))
    }
}

/// Begins a migration with what loading the stored collection gave.
pub fn migrate_start(config: &Config, loaded: Result<Vec<Context>, StoreError>) -> (step: (
    MigrationState,
    MigrationAction,
))
    ensures
        (step.0@, step.1@) == migration_start(service_of(config),
            match loaded {
                Ok(source) => Ok(source.deep_view()),
                Err(e) => Err(e),
            },
        ),
{
    match loaded {
        Ok(source) => {
            let send = request(Method::Delete, config, "context", Body::Empty);
            (MigrationState::ClearingContexts { source }, MigrationAction::Send(send))
        },
        Err(_) => (MigrationState::Done, MigrationAction::Stop),
    }
}

/// Takes a migration one step further: from the state it is in and what
/// became of the last request, to the state it is in next and what is to
/// be done now.
pub fn migrate(config: &Config, state: MigrationState, event: MigrationEvent) -> (step: (
    MigrationState,
    MigrationAction,
))
    ensures
        (step.0@, step.1@) == migration_step(service_of(config), state@, event),
{
    match state {
        MigrationState::ClearingContexts { source } => {
            let sent: bool = match event {
                MigrationEvent::Failed => false,
                _ => true,
            };
            let send = request(Method::Delete, config, "task", Body::Empty);
            (
                MigrationState::ClearingTasks { source, contexts_cleared: sent },
                MigrationAction::Send(send),
            )
        },
        MigrationState::ClearingTasks { source, contexts_cleared } => {
            let sent: bool = match event {
                MigrationEvent::Failed => false,
                _ => true,
            };
            if contexts_cleared && sent {
                turn(config, source)
            } else {
                (
                    MigrationState::Done,
                    MigrationAction::Report(String::from_str("Error when deleting data from API")),
                )
            }
        },
        MigrationState::CreatingContext { current, rest } => match event {
            MigrationEvent::Created { id } => {
                let tasks = batch(&current.tasks, #[verifier::truncate] (id as i32));
                let send = request(Method::Post, config, "task/batch", Body::TaskBatch(tasks));
                (MigrationState::CreatingTasks { current, rest }, MigrationAction::Send(send))
            },
            MigrationEvent::Failed => {
                let text = String::from_str("Error when migrating context ").concat(
                    current.name.as_str(),
                );
                (MigrationState::Done, MigrationAction::Abort(text))
            },
            MigrationEvent::Sent => (
                MigrationState::Done,
                MigrationAction::Abort(String::from_str("Error when parsing response")),
            ),
        },
        MigrationState::CreatingTasks { current, rest } => match event {
            MigrationEvent::Failed => {
                let text = String::from_str("Error when migrating tasks for context ").concat(
                    current.name.as_str(),
                );
                (MigrationState::Done, MigrationAction::Abort(text))
            },
            _ => turn(config, rest),
        },
        MigrationState::Done => (MigrationState::Done, MigrationAction::Stop),
    }
}

} // verus!
