//! What the listings show, and their drawing as framed tables.

use crate::structs::{Config, Context, ContextView, TaskView};
use crate::utils::{break_line, broken, decimal, decimal_string};
use vstd::prelude::*;

verus! {

/// What is shown of a context in the list of contexts.
#[derive(Debug)]
pub struct ContextCountTask {
    pub name: String,
    pub task_count: usize,
    pub active: bool,
}

/// What a [`ContextCountTask`] means.
pub struct ContextCountView {
    pub name: Seq<char>,
    pub task_count: nat,
    pub active: bool,
}

impl View for ContextCountTask {
    type V = ContextCountView;

    open spec fn view(&self) -> ContextCountView {
        ContextCountView {
            name: self.name@,
            task_count: self.task_count as nat,
            active: self.active,
        }
    }
}

impl DeepView for ContextCountTask {
    type V = ContextCountView;

    open spec fn deep_view(&self) -> ContextCountView {
        self@
    }
}

/// The text of the table that comfy-table draws, in its preset `UTF8_FULL`
/// with the modifier `UTF8_ROUND_CORNERS`, for a header of the cells
/// `header` above the rows `rows`, each row a list of cells.
pub uninterp spec fn table_text(header: Seq<Seq<char>>, rows: Seq<Seq<Seq<char>>>) -> Seq<char>;

/// The text of the table that comfy-table draws, in the same style, for the
/// rows `rows` without a header.
pub uninterp spec fn plain_table_text(rows: Seq<Seq<Seq<char>>>) -> Seq<char>;

/// Draws a table with a header. The body builds a `comfy_table::Table` with
/// `Table::new`, styles it with `load_preset` and `apply_modifier`, fills
/// it with `set_header` and `add_rows`, and writes it out with `to_string`.
/// The table is left at comfy-table's default arrangement, in which the
/// text is decided by the cells alone; the contract gives that text its
/// name and claims no more.
#[verifier::external_body]
fn draw_table(header: &Vec<String>, rows: &Vec<Vec<String>>) -> (text: String)
    ensures
        text@ == table_text(header.deep_view(), rows.deep_view()),
{
    let mut table = comfy_table::Table::new();
    table.load_preset(comfy_table::presets::UTF8_FULL);
    table.apply_modifier(comfy_table::modifiers::UTF8_ROUND_CORNERS);
    table.set_header(header);
    table.add_rows(rows);
    table.to_string()
}

/// Draws a table without a header, otherwise as `draw_table` does: with
/// `Table::new`, `load_preset`, `apply_modifier`, `add_rows` and
/// `to_string` of comfy-table. The contract gives the text its name and
/// claims no more.
#[verifier::external_body]
fn draw_plain_table(rows: &Vec<Vec<String>>) -> (text: String)
    ensures
        text@ == plain_table_text(rows.deep_view()),
{
    let mut table = comfy_table::Table::new();
    table.load_preset(comfy_table::presets::UTF8_FULL);
    table.apply_modifier(comfy_table::modifiers::UTF8_ROUND_CORNERS);
    table.add_rows(rows);
    table.to_string()
}

/// The mark in front of a task: crossed where it is done.
pub open spec fn check_mark(done: bool) -> Seq<char> {
    if done {
        "[X]"@
    } else {
        "[]"@
    }
}

/// The header of a context's table: its name in the third column.
pub open spec fn header_cells(name: Seq<char>, max: nat) -> Seq<Seq<char>> {
    seq![Seq::empty(), Seq::empty(), broken(name, max)]
}

/// The row of a task: its id, its mark, and its content.
pub open spec fn task_cells(task: TaskView, max: nat) -> Seq<Seq<char>> {
    seq![decimal(task.id), check_mark(task.done), broken(task.content, max)]
}

/// The rows of a context's table: one for each task, or a single row that
/// says so where there is none.
pub open spec fn task_rows(tasks: Seq<TaskView>, max: nat) -> Seq<Seq<Seq<char>>> {
    if tasks.len() == 0 {
        seq![
            seq![
                Seq::empty(),
                Seq::empty(),
                broken("No tasks, are you lazy or too efficient?"@, max),
            ],
        ]
    } else {
        Seq::new(tasks.len(), |k: int| task_cells(tasks[k], max))
    }
}

/// The table of a context, drawn.
pub open spec fn context_table(ctx: ContextView, max: nat) -> Seq<char> {
    table_text(header_cells(ctx.name, max), task_rows(ctx.tasks, max))
}

/// The row of a context in the list of contexts: the place at which it is
/// shown, its name, the number of its tasks, and whether it is active.
pub open spec fn summary_cells(place: nat, ctx: ContextCountView) -> Seq<Seq<char>> {
    seq![
        decimal(place),
        ctx.name,
        decimal(ctx.task_count) + " tasks"@,
        if ctx.active {
            "active"@
        } else {
            Seq::empty()
        },
    ]
}

/// The rows of the list of contexts: one for each, numbered from 1, or a
/// single row with a hint where there is none.
pub open spec fn summary_rows(contexts: Seq<ContextCountView>) -> Seq<Seq<Seq<char>>> {
    if contexts.len() == 0 {
        seq![seq!["Add your first context using: tasks use {{context}}"@]]
    } else {
        Seq::new(contexts.len(), |i: int| summary_cells((i + 1) as nat, contexts[i]))
    }
}

/// The header cells of the table of `ctx`.
pub fn table_header(config: &Config, ctx: &Context) -> (cells: Vec<String>)
    requires
        config.max_line_lengh > 0,
    ensures
        cells.deep_view() == header_cells(ctx@.name, config.max_line_lengh as nat),
{
    let mut cells: Vec<String> = Vec::new();
    cells.push(String::new());
    cells.push(String::new());
    cells.push(break_line(ctx.name.clone(), &config.max_line_lengh));
    assert(cells.deep_view() =~= header_cells(ctx@.name, config.max_line_lengh as nat));
    cells
}

/// The rows of the table of `ctx`.
pub fn table_rows(config: &Config, ctx: &Context) -> (rows: Vec<Vec<String>>)
    requires
        config.max_line_lengh > 0,
    ensures
        rows.deep_view() == task_rows(ctx@.tasks, config.max_line_lengh as nat),
{
    let ghost max = config.max_line_lengh as nat;
    let mut rows: Vec<Vec<String>> = Vec::new();
    let mut k: usize = 0;
    while k < ctx.tasks.len()
        invariant
            k <= ctx.tasks.len(),
            config.max_line_lengh > 0,
            max == config.max_line_lengh,
            rows.len() == k,
            forall|j: int| 0 <= j < k ==> rows.deep_view()[j] == task_cells(ctx@.tasks[j], max),
        decreases ctx.tasks.len() - k,
    {
        let task = &ctx.tasks[k];
        let mut cells: Vec<String> = Vec::new();
        cells.push(decimal_string(task.id));
        if task.done {
            cells.push(String::from_str("[X]"));
        } else {
            cells.push(String::from_str("[]"));
        }
        cells.push(break_line(task.content.clone(), &config.max_line_lengh));
        assert(cells.deep_view() =~= task_cells(ctx@.tasks[k as int], max));
        let ghost prev = rows.deep_view();
        rows.push(cells);
        assert(rows.deep_view() =~= prev.push(cells.deep_view()));
        k += 1;
    }
    if ctx.tasks.len() == 0 {
        let mut cells: Vec<String> = Vec::new();
        cells.push(String::new());
        cells.push(String::new());
        cells.push(
            break_line(
                String::from_str("No tasks, are you lazy or too efficient?"),
                &config.max_line_lengh,
            ),
        );
        let ghost row = seq![
            Seq::<char>::empty(),
            Seq::<char>::empty(),
            broken("No tasks, are you lazy or too efficient?"@, max),
        ];
        assert(cells.deep_view() =~= row);
        rows.push(cells);
        assert(rows.deep_view() =~= seq![row]);
    }
    assert(rows.deep_view() =~= task_rows(ctx@.tasks, max));
    rows
}

/// The table of one context as text: a header with its name, then a row
/// for each task with its id, a mark where it is done, and its content.
/// Names and contents are broken to the configured line length.
pub fn print_table(config: &Config, ctx: &Context) -> (text: String)
    requires
        config.max_line_lengh > 0,
    ensures
        text@ == context_table(ctx@, config.max_line_lengh as nat),
{
    let header = table_header(config, ctx);
    let rows = table_rows(config, ctx);
    draw_table(&header, &rows)
}

/// The rows of the list of contexts.
pub fn context_rows(contexts: &Vec<ContextCountTask>) -> (rows: Vec<Vec<String>>)
    ensures
        rows.deep_view() == summary_rows(contexts.deep_view()),
{
    let mut rows: Vec<Vec<String>> = Vec::new();
    let mut i: usize = 0;
    while i < contexts.len()
        invariant
            i <= contexts.len(),
            rows.len() == i,
            forall|j: int|
                0 <= j < i ==> rows.deep_view()[j] == summary_cells(
                    (j + 1) as nat,
                    contexts.deep_view()[j],
                ),
        decreases contexts.len() - i,
    {
        let ctx = &contexts[i];
        let mut cells: Vec<String> = Vec::new();
        cells.push(decimal_string(i + 1));
        cells.push(ctx.name.clone());
        cells.push(decimal_string(ctx.task_count).concat(" tasks"));
        if ctx.active {
            cells.push(String::from_str("active"));
        } else {
            cells.push(String::new());
        }
        assert(cells.deep_view() =~= summary_cells((i + 1) as nat, contexts.deep_view()[i as int]));
        let ghost prev = rows.deep_view();
        rows.push(cells);
        assert(rows.deep_view() =~= prev.push(cells.deep_view()));
        i += 1;
    }
    if contexts.len() == 0 {
        let mut cells: Vec<String> = Vec::new();
        cells.push(String::from_str("Add your first context using: tasks use {{context}}"));
        let ghost row = seq!["Add your first context using: tasks use {{context}}"@];
        assert(cells.deep_view() =~= row);
        rows.push(cells);
        assert(rows.deep_view() =~= seq![row]);
    }
    assert(rows.deep_view() =~= summary_rows(contexts.deep_view()));
    rows
}

/// The list of contexts as text: for each its place, its name, the number
/// of its tasks, and a mark on the active one.
pub fn context_list(contexts: &Vec<ContextCountTask>) -> (text: String)
    ensures
        text@ == plain_table_text(summary_rows(contexts.deep_view())),
{
    let rows = context_rows(contexts);
    draw_plain_table(&rows)
}

} // verus!
