//! Lists as tables of text: the tasks, the apps, the logs, and what belongs to each
//! project.

use crate::records::{App, AppView, Log, LogView, Task, TaskView};
use crate::report::{cell_or_null, label, text_or_null, total_cell, total_text, TextTable};
use crate::stats::null_text;
use crate::text::{decimal, to_decimal};
use crate::time::{time_written, write_time};
use vstd::prelude::*;
use vstd::string::StringExecFns;

verus! {

/// The two colours in which the rows of projects take turns.
#[derive(Clone, Copy, Debug, PartialEq, Eq, Structural)]
pub enum RowColor {
    DarkGreen,
    DarkCyan,
}

/// The other colour.
pub open spec fn other_color(color: RowColor) -> RowColor {
    match color {
        RowColor::DarkGreen => RowColor::DarkCyan,
        RowColor::DarkCyan => RowColor::DarkGreen,
    }
}

/// A row of text in one colour.
#[derive(Debug, PartialEq, Eq)]
pub struct ColoredRow {
    pub cells: Vec<String>,
    pub color: RowColor,
}

/// What a [`ColoredRow`] holds.
pub ghost struct ColoredRowView {
    pub cells: Seq<Seq<char>>,
    pub color: RowColor,
}

impl View for ColoredRow {
    type V = ColoredRowView;

    open spec fn view(&self) -> ColoredRowView {
        ColoredRowView { cells: self.cells.deep_view(), color: self.color }
    }
}

impl DeepView for ColoredRow {
    type V = ColoredRowView;

    open spec fn deep_view(&self) -> ColoredRowView {
        self@
    }
}

/// A project with one of the things that belong to it, an app or a task, or with none
/// where nothing belongs to it.
#[derive(Debug, PartialEq, Eq)]
pub struct ProjectItem {
    pub project_id: i32,
    pub project_name: String,
    pub item_id: Option<i32>,
    pub item_name: Option<String>,
}

/// What a [`ProjectItem`] holds.
pub ghost struct ProjectItemView {
    pub project_id: i32,
    pub project_name: Seq<char>,
    pub item_id: Option<i32>,
    pub item_name: Option<Seq<char>>,
}

impl View for ProjectItem {
    type V = ProjectItemView;

    open spec fn view(&self) -> ProjectItemView {
        ProjectItemView {
            project_id: self.project_id,
            project_name: self.project_name@,
            item_id: self.item_id,
            item_name: self.item_name.deep_view(),
        }
    }
}

impl DeepView for ProjectItem {
    type V = ProjectItemView;

    open spec fn deep_view(&self) -> ProjectItemView {
        self@
    }
}

/// The cells of an item's row.
pub open spec fn item_cells(item: ProjectItemView) -> Seq<Seq<char>> {
    seq![
        decimal(item.project_id as int),
        item.project_name,
        match item.item_id {
            Some(id) => decimal(id as int),
            None => null_text(),
        },
        text_or_null(item.item_name),
    ]
}

/// The cells of the row that closes a project: how many things belong to it.
pub open spec fn count_cells(count: int) -> Seq<Seq<char>> {
    seq![total_text(), total_text(), total_text(), decimal(count)]
}

/// Where a list of items stands after some of them: the project of the last one, how many
/// things of that project were seen, the colour of that project, and the rows so far.
pub ghost struct ListingState {
    pub project_id: i32,
    pub count: int,
    pub color: RowColor,
    pub rows: Seq<ColoredRowView>,
}

/// Where the list stands after `items`.
///
/// An item of another project than the one before it closes that project with a row of
/// its count, unless that project has the id 0, which also stands for no project at all,
/// and changes the colour. Each item has a row in the colour of its project, and counts
/// where it names a thing.
pub open spec fn listing_after(items: Seq<ProjectItemView>) -> ListingState
    decreases items.len(),
{
    if items.len() == 0 {
        ListingState { project_id: 0, count: 0, color: RowColor::DarkCyan, rows: Seq::empty() }
    } else {
        let before = listing_after(items.drop_last());
        let item = items.last();
        let named: int = if item.item_name is Some {
            1
        } else {
            0
        };
        if item.project_id != before.project_id {
            let closed = if before.project_id != 0 {
                before.rows.push(
                    ColoredRowView { cells: count_cells(before.count), color: before.color },
                )
            } else {
                before.rows
            };
            let color = other_color(before.color);
            ListingState {
                project_id: item.project_id,
                count: named,
                color,
                rows: closed.push(ColoredRowView { cells: item_cells(item), color }),
            }
        } else {
            ListingState {
                project_id: item.project_id,
                count: before.count + named,
                color: before.color,
                rows: before.rows.push(
                    ColoredRowView { cells: item_cells(item), color: before.color },
                ),
            }
        }
    }
}

/// The rows of a list of items that come ordered by project: the rows of each project in
/// one colour, closed by a row with the count of its things.
pub open spec fn grouped_rows_of(items: Seq<ProjectItemView>) -> Seq<ColoredRowView> {
    let end = listing_after(items);
    end.rows.push(ColoredRowView { cells: count_cells(end.count), color: end.color })
}

fn item_line(item: &ProjectItem) -> (cells: Vec<String>)
    ensures
        cells.deep_view() == item_cells(item@),
{
    let mut cells: Vec<String> = Vec::new();
    cells.push(to_decimal(item.project_id as i128));
    cells.push(item.project_name.clone());
    cells.push(
        match item.item_id {
            Some(id) => to_decimal(id as i128),
            None => cell_or_null(&None),
        },
    );
    cells.push(cell_or_null(&item.item_name));
    assert(cells.deep_view() =~= item_cells(item@));
    cells
}

fn count_line(count: usize) -> (cells: Vec<String>)
    ensures
        cells.deep_view() == count_cells(count as int),
{
    let mut cells: Vec<String> = Vec::new();
    cells.push(total_cell());
    cells.push(total_cell());
    cells.push(total_cell());
    cells.push(to_decimal(count as i128));
    assert(cells.deep_view() =~= count_cells(count as int));
    cells
}

/// The rows of a list of items that come ordered by project.
pub fn grouped_rows(items: &Vec<ProjectItem>) -> (rows: Vec<ColoredRow>)
    ensures
        rows.deep_view() == grouped_rows_of(items.deep_view()),
{
    let ghost all = items.deep_view();
    let mut rows: Vec<ColoredRow> = Vec::new();
    let mut project_id: i32 = 0;
    let mut count: usize = 0;
    let mut color = RowColor::DarkCyan;
    let mut i: usize = 0;
    assert(all.take(0) =~= Seq::<ProjectItemView>::empty());
    assert(rows.deep_view() =~= listing_after(all.take(0)).rows);
    while i < items.len()
        invariant
            i <= items.len(),
            all == items.deep_view(),
            count <= i,
            listing_after(all.take(i as int)) == (ListingState {
                project_id,
                count: count as int,
                color,
                rows: rows.deep_view(),
            }),
        decreases items.len() - i,
    {
        let item = &items[i];
        proof {
            assert(all[i as int] == items[i as int]@);
            assert(all.take(i + 1).drop_last() =~= all.take(i as int));
            assert(all.take(i + 1).last() == all[i as int]);
        }
        let ghost before = rows.deep_view();
        if item.project_id != project_id {
            if project_id != 0 {
                let closing = ColoredRow { cells: count_line(count), color };
                let ghost shown = closing@;
                rows.push(closing);
                assert(rows.deep_view() =~= before.push(shown));
            }
            let ghost closed = rows.deep_view();
            color = match color {
                RowColor::DarkGreen => RowColor::DarkCyan,
                RowColor::DarkCyan => RowColor::DarkGreen,
            };
            let line = ColoredRow { cells: item_line(item), color };
            let ghost shown = line@;
            rows.push(line);
            assert(rows.deep_view() =~= closed.push(shown));
            count = 0;
        } else {
            let line = ColoredRow { cells: item_line(item), color };
            let ghost shown = line@;
            rows.push(line);
            assert(rows.deep_view() =~= before.push(shown));
        }
        project_id = item.project_id;
        if item.item_name.is_some() {
            count = count + 1;
        }
        i = i + 1;
    }
    assert(all.take(i as int) =~= all);
    let ghost before = rows.deep_view();
    let closing = ColoredRow { cells: count_line(count), color };
    let ghost shown = closing@;
    rows.push(closing);
    assert(rows.deep_view() =~= before.push(shown));
    rows
}

/// The titles of the list of the apps of projects.
pub open spec fn project_apps_header_of() -> Seq<Seq<char>> {
    seq!["project_id"@, "project_name"@, "app_id"@, "app_name"@]
}

/// The titles of the list of the tasks of projects.
pub open spec fn project_tasks_header_of() -> Seq<Seq<char>> {
    seq!["project_id"@, "project_name"@, "task_id"@, "task_name"@]
}

/// The titles of the list of the apps of projects.
pub fn project_apps_header() -> (titles: Vec<String>)
    ensures
        titles.deep_view() == project_apps_header_of(),
{
    let mut titles: Vec<String> = Vec::new();
    titles.push(label("project_id"));
    titles.push(label("project_name"));
    titles.push(label("app_id"));
    titles.push(label("app_name"));
    assert(titles.deep_view() =~= project_apps_header_of());
    titles
}

/// The titles of the list of the tasks of projects.
pub fn project_tasks_header() -> (titles: Vec<String>)
    ensures
        titles.deep_view() == project_tasks_header_of(),
{
    let mut titles: Vec<String> = Vec::new();
    titles.push(label("project_id"));
    titles.push(label("project_name"));
    titles.push(label("task_id"));
    titles.push(label("task_name"));
    assert(titles.deep_view() =~= project_tasks_header_of());
    titles
}

/// What the user is told where no task is to be listed: of one project where projects were
/// asked for and none was named, and of several else.
pub open spec fn no_tasks_text(projects: Option<Seq<i32>>) -> Seq<char> {
    if projects is None || projects->0.len() > 0 {
        "No tasks in these projects!"@
    } else {
        "No tasks in this project!"@
    }
}

/// What the user is told where no task is to be listed.
pub fn no_tasks_message(projects: &Option<Vec<i32>>) -> (text: String)
    ensures
        text@ == no_tasks_text(projects.deep_view()),
{
    let several = match projects {
        None => true,
        Some(ids) => {
            assert(ids.deep_view().len() == ids.len());
            ids.len() > 0
        },
    };
    if several {
        String::from_str("No tasks in these projects!")
    } else {
        String::from_str("No tasks in this project!")
    }
}

/// The cells of a task's row in the list of tasks.
pub open spec fn task_list_cells(task: TaskView) -> Seq<Seq<char>> {
    seq![
        decimal(task.task_id as int),
        decimal(task.project_id as int),
        task.task_name,
        task.username,
        text_or_null(task.planned_time),
    ]
}

/// The list of tasks as a table: its titles, and a row for each task.
pub open spec fn task_table_of(tasks: Seq<TaskView>) -> (Seq<Seq<char>>, Seq<Seq<Seq<char>>>) {
    (
        seq!["task_id"@, "project_id"@, "task_name"@, "user"@, "planned_time"@],
        Seq::new(tasks.len(), |i: int| task_list_cells(tasks[i])),
    )
}

/// The list of tasks as a table.
pub fn task_table(tasks: &Vec<Task>) -> (table: TextTable)
    ensures
        (table.header.deep_view(), table.rows.deep_view()) == task_table_of(tasks.deep_view()),
{
    let mut header: Vec<String> = Vec::new();
    header.push(label("task_id"));
    header.push(label("project_id"));
    header.push(label("task_name"));
    header.push(label("user"));
    header.push(label("planned_time"));
    assert(header.deep_view() =~= task_table_of(tasks.deep_view()).0);
    let mut rows: Vec<Vec<String>> = Vec::new();
    let mut i: usize = 0;
    while i < tasks.len()
        invariant
            i <= tasks.len(),
            rows.len() == i,
            forall|k: int|
                0 <= k < i ==> (#[trigger] rows[k]).deep_view() == task_list_cells(
                    tasks.deep_view()[k],
                ),
        decreases tasks.len() - i,
    {
        let task = &tasks[i];
        assert(tasks.deep_view()[i as int] == tasks[i as int]@);
        let mut cells: Vec<String> = Vec::new();
        cells.push(to_decimal(task.task_id as i128));
        cells.push(to_decimal(task.project_id as i128));
        cells.push(task.task_name.clone());
        cells.push(task.username.clone());
        cells.push(cell_or_null(&task.planned_time));
        assert(cells.deep_view() =~= task_list_cells(task@));
        rows.push(cells);
        i = i + 1;
    }
    assert(rows.deep_view() =~= task_table_of(tasks.deep_view()).1);
    TextTable { header, rows }
}

/// An app with the number of projects that use it, where known.
#[derive(Debug, PartialEq, Eq)]
pub struct AppUse {
    pub app: App,
    pub projects: Option<i32>,
}

/// What an [`AppUse`] holds.
pub ghost struct AppUseView {
    pub app: AppView,
    pub projects: Option<i32>,
}

impl View for AppUse {
    type V = AppUseView;

    open spec fn view(&self) -> AppUseView {
        AppUseView { app: self.app@, projects: self.projects }
    }
}

impl DeepView for AppUse {
    type V = AppUseView;

    open spec fn deep_view(&self) -> AppUseView {
        self@
    }
}

/// The cells of an app's row: its id, its name, and the number of projects that use it,
/// zero where unknown.
pub open spec fn app_cells(used: AppUseView) -> Seq<Seq<char>> {
    seq![
        decimal(used.app.app_id as int),
        used.app.app_name,
        match used.projects {
            Some(n) => decimal(n as int),
            None => decimal(0),
        },
    ]
}

/// The list of apps as a table: its titles, and a row for each app.
pub open spec fn app_table_of(apps: Seq<AppUseView>) -> (Seq<Seq<char>>, Seq<Seq<Seq<char>>>) {
    (
        seq!["app_id"@, "app_name"@, "used in projects"@],
        Seq::new(apps.len(), |i: int| app_cells(apps[i])),
    )
}

/// The list of apps as a table.
pub fn app_table(apps: &Vec<AppUse>) -> (table: TextTable)
    ensures
        (table.header.deep_view(), table.rows.deep_view()) == app_table_of(apps.deep_view()),
{
    let mut header: Vec<String> = Vec::new();
    header.push(label("app_id"));
    header.push(label("app_name"));
    header.push(label("used in projects"));
    assert(header.deep_view() =~= app_table_of(apps.deep_view()).0);
    let mut rows: Vec<Vec<String>> = Vec::new();
    let mut i: usize = 0;
    while i < apps.len()
        invariant
            i <= apps.len(),
            rows.len() == i,
            forall|k: int|
                0 <= k < i ==> (#[trigger] rows[k]).deep_view() == app_cells(apps.deep_view()[k]),
        decreases apps.len() - i,
    {
        let used = &apps[i];
        assert(apps.deep_view()[i as int] == apps[i as int]@);
        let mut cells: Vec<String> = Vec::new();
        cells.push(to_decimal(used.app.app_id as i128));
        cells.push(used.app.app_name.clone());
        cells.push(
            match used.projects {
                Some(n) => to_decimal(n as i128),
                None => to_decimal(0),
            },
        );
        assert(cells.deep_view() =~= app_cells(used@));
        rows.push(cells);
        i = i + 1;
    }
    assert(rows.deep_view() =~= app_table_of(apps.deep_view()).1);
    TextTable { header, rows }
}

/// The format in which the time of a log is shown.
pub open spec fn log_time_format() -> Seq<char> {
    "%Y-%m-%d %H:%M:%S"@
}

/// The cells of a log's row, given its time as text.
pub open spec fn log_cells(log: LogView, date: Seq<char>) -> Seq<Seq<char>> {
    seq![decimal(log.log_id as int), decimal(log.task_id as int), log.log_type, date]
}

/// The cells of a log's row, given its time as text.
pub fn log_line(log: &Log, date: &str) -> (cells: Vec<String>)
    ensures
        cells.deep_view() == log_cells(log@, date@),
{
    let mut cells: Vec<String> = Vec::new();
    cells.push(to_decimal(log.log_id as i128));
    cells.push(to_decimal(log.task_id as i128));
    cells.push(log.log_type.clone());
    cells.push(String::from_str(date));
    assert(cells.deep_view() =~= log_cells(log@, date@));
    cells
}

/// The titles of the list of logs.
pub open spec fn log_header_of() -> Seq<Seq<char>> {
    seq!["log_id"@, "task_id"@, "log_type"@, "date"@]
}

/// Whether the time of each log can be written as a date.
pub open spec fn logs_can_be_shown(logs: Seq<LogView>) -> bool {
    forall|i: int|
        0 <= i < logs.len() ==> time_written((#[trigger] logs[i]).date, log_time_format()) is Some
}

/// The rows of the list of logs: one for each log, with its time as a date.
pub open spec fn log_rows_of(logs: Seq<LogView>) -> Seq<Seq<Seq<char>>> {
    Seq::new(
        logs.len(),
        |i: int| log_cells(logs[i], time_written(logs[i].date, log_time_format())->0),
    )
}

/// The list of logs as a table, and `None` where the time of a log cannot be written as a
/// date.
pub fn log_table(logs: &Vec<Log>) -> (table: Option<TextTable>)
    ensures
        table is Some <==> logs_can_be_shown(logs.deep_view()),
        table matches Some(t) ==> t.header.deep_view() == log_header_of() && t.rows.deep_view()
            == log_rows_of(logs.deep_view()),
{
    let ghost all = logs.deep_view();
    let mut header: Vec<String> = Vec::new();
    header.push(label("log_id"));
    header.push(label("task_id"));
    header.push(label("log_type"));
    header.push(label("date"));
    assert(header.deep_view() =~= log_header_of());
    let mut rows: Vec<Vec<String>> = Vec::new();
    let mut i: usize = 0;
    while i < logs.len()
        invariant
            i <= logs.len(),
            all == logs.deep_view(),
            rows.len() == i,
            logs_can_be_shown(all.take(i as int)),
            forall|k: int|
                0 <= k < i ==> (#[trigger] rows[k]).deep_view() == log_cells(
                    all[k],
                    time_written(all[k].date, log_time_format())->0,
                ),
        decreases logs.len() - i,
    {
        let log = &logs[i];
        assert(all[i as int] == logs[i as int]@);
        match write_time(log.date, "%Y-%m-%d %H:%M:%S") {
            Some(date) => {
                rows.push(log_line(log, date.as_str()));
                assert forall|k: int| 0 <= k < i + 1 implies time_written(
                    (#[trigger] all.take(i + 1)[k]).date,
                    log_time_format(),
                ) is Some by {
                    if k < i {
                        assert(all.take(i as int)[k] == all[k]);
                    }
                }
            },
            None => {
                return None;
            },
        }
        i = i + 1;
    }
    assert(all.take(i as int) =~= all);
    assert(rows.deep_view() =~= log_rows_of(all));
    Some(TextTable { header, rows })
}

} // verus!
