//! The statistics as a table of text: one row per task, then one row per project.

use crate::order::{
    display_order, in_display_order, insert_in_order, lemma_is_display_order,
};
use crate::records::Project;
use crate::stats::{
    get_stats_map, has_entry, null_text, outcomes, project_stats, projects_cover, stats_map_view,
    task_stats, ProjectStats, ProjectStatsView, StatRow, TaskStats, TaskStatsView, MAX_ROWS,
};
use crate::stats_laws::lemma_outcomes_come_from_rows;
use crate::time::{local_now, Timestamp};
use crate::text::{decimal, to_decimal};
use crate::time::{clock, clock_text, days_in, hours_in, minutes_in, span_clock, span_text};
use std::collections::HashMap;
use vstd::prelude::*;
use vstd::std_specs::hash::{group_hash_axioms, spec_keys_iter};
use vstd::std_specs::iter::IteratorSpec;
use vstd::string::StringExecFns;

verus! {

/// Which rows a table of statistics holds.
#[derive(Clone, Copy, Debug, PartialEq, Eq, Structural)]
pub enum PrintMode {
    /// Every task, then every project.
    All,
    /// Every task, then the projects that have a task.
    Appearing,
    /// No task; the projects that have a task and the totals, each in short.
    Project,
    /// The tasks asked for by id, with the time since their last event; no project.
    ConcreteTasks,
}

/// A table of text: the titles of its columns and its rows, cell by cell.
#[derive(Debug, PartialEq, Eq)]
pub struct TextTable {
    pub header: Vec<String>,
    pub rows: Vec<Vec<String>>,
}

/// The titles of the columns.
pub open spec fn header_of(mode: PrintMode) -> Seq<Seq<char>> {
    match mode {
        PrintMode::Project => seq![
            "project_id"@,
            "project_name"@,
            "user"@,
            "total tasks"@,
            "completed tasks"@,
            "planned_time"@,
            "total_worked"@,
        ],
        PrintMode::ConcreteTasks => seq![
            "task_id"@,
            "project_id"@,
            "task_name"@,
            "user"@,
            "planned_time"@,
            "total time"@,
            "total worked"@,
            "pause num"@,
            "longest pause"@,
            "longest work"@,
            "since_last_log"@,
        ],
        _ => seq![
            "task_id"@,
            "project_id"@,
            "task_name"@,
            "user"@,
            "planned_time"@,
            "total time"@,
            "total worked"@,
            "pause num"@,
            "longest pause"@,
            "longest work"@,
        ],
    }
}

/// An optional text as a cell shows it: the word `null` where there is none.
pub open spec fn text_or_null(text: Option<Seq<char>>) -> Seq<char> {
    match text {
        Some(t) => t,
        None => null_text(),
    }
}

/// The cells of a task's row.
pub open spec fn task_cells(t: TaskStatsView) -> Seq<Seq<char>> {
    seq![
        decimal(t.task_id as int),
        decimal(t.project_id as int),
        t.task_name,
        t.username,
        text_or_null(t.planned_time),
        span_clock(t.total_time),
        span_clock(t.total_worked),
        decimal(t.pause_num),
        span_clock(t.longest_pause),
        span_clock(t.longest_work),
    ]
}

/// The cell for the time since a task's last event: its days, then its hours and minutes
/// less the days and hours that the task's longest work interval fills.
pub open spec fn since_clock(t: TaskStatsView) -> Seq<char> {
    clock(
        days_in(t.since_last_log),
        hours_in(t.since_last_log) - 24 * days_in(t.longest_work),
        minutes_in(t.since_last_log) - 60 * hours_in(t.longest_work),
    )
}

/// The cells of a task's row where the time since its last event is shown too.
pub open spec fn concrete_task_cells(t: TaskStatsView) -> Seq<Seq<char>> {
    task_cells(t).push(since_clock(t))
}

/// The word under which the totals of all projects stand.
pub open spec fn total_text() -> Seq<char> {
    seq!['t', 'o', 't', 'a', 'l']
}

/// The cells of a project's row below the tasks.
pub open spec fn project_cells(e: ProjectStatsView) -> Seq<Seq<char>> {
    seq![
        total_text(),
        if e.project_id > 0 {
            decimal(e.project_id as int)
        } else {
            total_text()
        },
        e.project_name,
        e.username,
        text_or_null(e.planned_time),
        span_clock(e.total_time),
        span_clock(e.total_worked),
        decimal(e.pause_num),
        span_clock(e.longest_pause),
        span_clock(e.longest_work),
    ]
}

/// The cells of a project's row in short.
pub open spec fn project_summary_cells(e: ProjectStatsView) -> Seq<Seq<char>> {
    seq![
        if e.project_id == 0 {
            total_text()
        } else {
            decimal(e.project_id as int)
        },
        e.project_name,
        e.username,
        decimal(e.total_tasks),
        decimal(e.completed_tasks),
        text_or_null(e.planned_time),
        span_clock(e.total_worked),
    ]
}

/// Whether a task has a row.
pub open spec fn shows_task(mode: PrintMode, concrete: Option<Seq<i32>>, t: TaskStatsView)
    -> bool {
    match mode {
        PrintMode::Project => false,
        PrintMode::ConcreteTasks => concrete is Some && concrete->0.contains(t.task_id),
        _ => true,
    }
}

/// The rows of the tasks, in the order of the tasks.
pub open spec fn task_rows(tasks: Seq<TaskStatsView>, mode: PrintMode, concrete: Option<Seq<i32>>)
    -> Seq<Seq<Seq<char>>>
    decreases tasks.len(),
{
    if tasks.len() == 0 {
        Seq::empty()
    } else {
        let rest = task_rows(tasks.drop_last(), mode, concrete);
        if !shows_task(mode, concrete, tasks.last()) {
            rest
        } else if mode == PrintMode::ConcreteTasks {
            rest.push(concrete_task_cells(tasks.last()))
        } else {
            rest.push(task_cells(tasks.last()))
        }
    }
}

/// The projects that have a task among `tasks`.
pub open spec fn projects_of(tasks: Seq<TaskStatsView>) -> Set<i32> {
    Set::new(|p: i32| exists|k: int| 0 <= k < tasks.len() && (#[trigger] tasks[k]).project_id == p)
}

/// The projects that have a row, in the order of their rows. `keys` are the projects that
/// have statistics.
pub open spec fn shown_projects(keys: Set<i32>, tasks: Seq<TaskStatsView>, mode: PrintMode)
    -> Seq<i32> {
    match mode {
        PrintMode::All => display_order(keys),
        PrintMode::Appearing => display_order(projects_of(tasks)),
        PrintMode::Project => display_order(projects_of(tasks).insert(0)),
        PrintMode::ConcreteTasks => Seq::empty(),
    }
}

/// The rows of the projects `ids`, in the order of `ids`.
pub open spec fn project_rows(m: Map<i32, ProjectStatsView>, ids: Seq<i32>, mode: PrintMode)
    -> Seq<Seq<Seq<char>>> {
    Seq::new(
        ids.len(),
        |k: int|
            if mode == PrintMode::Project {
                project_summary_cells(m[ids[k]])
            } else {
                project_cells(m[ids[k]])
            },
    )
}

/// The rows of the table: those of the tasks, then those of the projects.
pub open spec fn table_rows(
    m: Map<i32, ProjectStatsView>,
    tasks: Seq<TaskStatsView>,
    mode: PrintMode,
    concrete: Option<Seq<i32>>,
) -> Seq<Seq<Seq<char>>> {
    task_rows(tasks, mode, concrete) + project_rows(m, shown_projects(m.dom(), tasks, mode), mode)
}

pub(crate) fn label(text: &str) -> (cell: String)
    ensures
        cell.deep_view() == text@,
{
    String::from_str(text)
}

/// The titles of the columns.
pub fn header(mode: PrintMode) -> (titles: Vec<String>)
    ensures
        titles.deep_view() == header_of(mode),
{
    let mut titles: Vec<String> = Vec::new();
    match mode {
        PrintMode::Project => {
            titles.push(label("project_id"));
            titles.push(label("project_name"));
            titles.push(label("user"));
            titles.push(label("total tasks"));
            titles.push(label("completed tasks"));
            titles.push(label("planned_time"));
            titles.push(label("total_worked"));
        },
        _ => {
            titles.push(label("task_id"));
            titles.push(label("project_id"));
            titles.push(label("task_name"));
            titles.push(label("user"));
            titles.push(label("planned_time"));
            titles.push(label("total time"));
            titles.push(label("total worked"));
            titles.push(label("pause num"));
            titles.push(label("longest pause"));
            titles.push(label("longest work"));
            if let PrintMode::ConcreteTasks = mode {
                titles.push(label("since_last_log"));
            }
        },
    }
    assert(titles.deep_view() =~= header_of(mode));
    titles
}

pub(crate) fn cell_or_null(text: &Option<String>) -> (cell: String)
    ensures
        cell.deep_view() == text_or_null(text.deep_view()),
{
    match text {
        Some(t) => t.clone(),
        None => {
            proof {
                reveal_strlit("null");
                assert("null"@ =~= null_text());
            }
            String::from_str("null")
        },
    }
}

pub(crate) fn total_cell() -> (cell: String)
    ensures
        cell.deep_view() == total_text(),
{
    proof {
        reveal_strlit("total");
        assert("total"@ =~= total_text());
    }
    String::from_str("total")
}

/// The cells of a task's row, with the time since its last event where `with_since` asks
/// for it.
pub fn task_line(t: &TaskStats, with_since: bool) -> (cells: Vec<String>)
    ensures
        cells.deep_view() == if with_since {
            concrete_task_cells(t@)
        } else {
            task_cells(t@)
        },
{
    let mut cells: Vec<String> = Vec::new();
    cells.push(to_decimal(t.task_id as i128));
    cells.push(to_decimal(t.project_id as i128));
    cells.push(t.task_name.clone());
    cells.push(t.username.clone());
    cells.push(cell_or_null(&t.planned_time));
    cells.push(span_text(&t.total_time));
    cells.push(span_text(&t.total_worked));
    cells.push(to_decimal(t.pause_num as i128));
    cells.push(span_text(&t.longest_pause));
    cells.push(span_text(&t.longest_work));
    assert(cells.deep_view() =~= task_cells(t@));
    if with_since {
        let days = t.since_last_log.num_days();
        let hours = t.since_last_log.num_hours() - 24 * t.longest_work.num_days();
        let minutes = t.since_last_log.num_minutes() - 60 * t.longest_work.num_hours();
        cells.push(clock_text(days, hours, minutes));
        assert(cells.deep_view() =~= concrete_task_cells(t@));
    }
    cells
}

/// The cells of a project's row: in short where `short` asks for it, and else as it
/// stands below the tasks.
pub fn project_line(e: &ProjectStats, short: bool) -> (cells: Vec<String>)
    ensures
        cells.deep_view() == if short {
            project_summary_cells(e@)
        } else {
            project_cells(e@)
        },
{
    let mut cells: Vec<String> = Vec::new();
    if short {
        if e.project_id == 0 {
            cells.push(total_cell());
        } else {
            cells.push(to_decimal(e.project_id as i128));
        }
        cells.push(e.project_name.clone());
        cells.push(e.username.clone());
        cells.push(to_decimal(e.total_tasks as i128));
        cells.push(to_decimal(e.completed_tasks as i128));
        cells.push(cell_or_null(&e.planned_time));
        cells.push(span_text(&e.total_worked));
        assert(cells.deep_view() =~= project_summary_cells(e@));
    } else {
        cells.push(total_cell());
        if e.project_id > 0 {
            cells.push(to_decimal(e.project_id as i128));
        } else {
            cells.push(total_cell());
        }
        cells.push(e.project_name.clone());
        cells.push(e.username.clone());
        cells.push(cell_or_null(&e.planned_time));
        cells.push(span_text(&e.total_time));
        cells.push(span_text(&e.total_worked));
        cells.push(to_decimal(e.pause_num as i128));
        cells.push(span_text(&e.longest_pause));
        cells.push(span_text(&e.longest_work));
        assert(cells.deep_view() =~= project_cells(e@));
    }
    cells
}

fn holds(ids: &Vec<i32>, id: i32) -> (found: bool)
    ensures
        found == ids@.contains(id),
{
    let mut i: usize = 0;
    while i < ids.len()
        invariant
            i <= ids.len(),
            forall|k: int| 0 <= k < i ==> ids@[k] != id,
        decreases ids.len() - i,
    {
        if ids[i] == id {
            return true;
        }
        i = i + 1;
    }
    false
}

fn asked_for(concrete: &Option<Vec<i32>>, id: i32) -> (found: bool)
    ensures
        found == (concrete.deep_view() is Some && concrete.deep_view()->0.contains(id)),
{
    match concrete {
        Some(ids) => {
            assert(ids.deep_view() =~= ids@);
            holds(ids, id)
        },
        None => false,
    }
}

/// The projects that have statistics, in the order in which they are shown.
fn ids_of_entries(project_stats: &HashMap<i32, ProjectStats>) -> (ids: Vec<i32>)
    ensures
        ids@ == display_order(project_stats@.dom()),
        forall|k: int| 0 <= k < ids@.len() ==> project_stats@.contains_key(#[trigger] ids@[k]),
{
    broadcast use group_hash_axioms;

    let ghost all = spec_keys_iter(project_stats).remaining();
    let mut ids: Vec<i32> = Vec::new();
    for key in it: project_stats.keys()
        invariant
            it.seq() == all,
            in_display_order(ids@),
            forall|q: i32|
                ids@.contains(q) <==> exists|i: int| 0 <= i < it.index() && *#[trigger] all[i] == q,
    {
        let ghost before = ids@;
        let ghost n = it.index();
        insert_in_order(&mut ids, *key);
        proof {
            assert forall|q: i32|
                ids@.contains(q) <==> exists|i: int| 0 <= i < n + 1 && *#[trigger] all[i] == q by {
                if before.contains(q) {
                    let i = choose|i: int| 0 <= i < n && *#[trigger] all[i] == q;
                    assert(0 <= i < n + 1 && *all[i] == q);
                }
                if q == *key {
                    assert(*all[n] == q);
                }
            }
        }
    }
    proof {
        let keys = all.unref();
        assert(keys.to_set() == project_stats@.dom());
        assert forall|q: i32| ids@.contains(q) <==> project_stats@.dom().contains(q) by {
            if ids@.contains(q) {
                let i = choose|i: int| 0 <= i < all.len() && *#[trigger] all[i] == q;
                assert(keys[i] == q);
                assert(keys.contains(q));
            }
            if project_stats@.dom().contains(q) {
                assert(keys.contains(q));
                let i = choose|i: int| 0 <= i < keys.len() && keys[i] == q;
                assert(*all[i] == q);
            }
        }
        lemma_is_display_order(ids@, project_stats@.dom());
        assert forall|k: int| 0 <= k < ids@.len() implies project_stats@.contains_key(
            #[trigger] ids@[k],
        ) by {
            assert(ids@.contains(ids@[k]));
        }
    }
    ids
}

/// The projects that have a task, and the id 0 where `with_total` asks for it, in the
/// order in which they are shown.
fn ids_of_tasks(tasks: &Vec<TaskStats>, with_total: bool) -> (ids: Vec<i32>)
    ensures
        ids@ == display_order(
            if with_total {
                projects_of(tasks.deep_view()).insert(0)
            } else {
                projects_of(tasks.deep_view())
            },
        ),
        forall|q: i32|
            ids@.contains(q) <==> (with_total && q == 0) || projects_of(tasks.deep_view()).contains(
                q,
            ),
{
    let ghost ts = tasks.deep_view();
    let mut ids: Vec<i32> = Vec::new();
    let mut i: usize = 0;
    while i < tasks.len()
        invariant
            i <= tasks.len(),
            ts == tasks.deep_view(),
            in_display_order(ids@),
            forall|q: i32|
                ids@.contains(q) <==> exists|k: int| 0 <= k < i && (#[trigger] ts[k]).project_id == q,
        decreases tasks.len() - i,
    {
        let ghost before = ids@;
        insert_in_order(&mut ids, tasks[i].project_id);
        proof {
            assert(ts[i as int] == tasks[i as int]@);
            assert forall|q: i32|
                ids@.contains(q) <==> exists|k: int|
                    0 <= k < i + 1 && (#[trigger] ts[k]).project_id == q by {
                if before.contains(q) {
                    let k = choose|k: int| 0 <= k < i && (#[trigger] ts[k]).project_id == q;
                    assert(0 <= k < i + 1 && ts[k].project_id == q);
                }
                if q == tasks[i as int].project_id {
                    assert(ts[i as int].project_id == q);
                }
            }
        }
        i = i + 1;
    }
    if with_total {
        insert_in_order(&mut ids, 0);
    }
    proof {
        let set = if with_total {
            projects_of(ts).insert(0)
        } else {
            projects_of(ts)
        };
        assert forall|q: i32| ids@.contains(q) <==> set.contains(q) by {}
        lemma_is_display_order(ids@, set);
    }
    ids
}

/// The table of the statistics.
///
/// The rows of the tasks come first, in the order of `task_stats`, then the rows of the
/// projects, by id and with the totals of all projects last. `print_mode` says which tasks
/// and projects have a row; `concrete_tasks` are the ids of the tasks to show where the
/// mode is `ConcreteTasks`.
pub fn stats_table(
    project_stats: &HashMap<i32, ProjectStats>,
    task_stats: &Vec<TaskStats>,
    print_mode: PrintMode,
    concrete_tasks: &Option<Vec<i32>>,
) -> (table: TextTable)
    requires
        print_mode == PrintMode::Appearing || print_mode == PrintMode::Project ==> forall|k: int|
            0 <= k < task_stats.len() ==> project_stats@.contains_key(
                (#[trigger] task_stats[k]).project_id,
            ),
        print_mode == PrintMode::Project ==> project_stats@.contains_key(0),
    ensures
        table.header.deep_view() == header_of(print_mode),
        table.rows.deep_view() == table_rows(
            stats_map_view(project_stats@),
            task_stats.deep_view(),
            print_mode,
            concrete_tasks.deep_view(),
        ),
{
    broadcast use group_hash_axioms;

    let ghost ts = task_stats.deep_view();
    let ghost concrete = concrete_tasks.deep_view();
    let ghost m = stats_map_view(project_stats@);
    let mut rows: Vec<Vec<String>> = Vec::new();
    let with_since = match print_mode {
        PrintMode::ConcreteTasks => true,
        _ => false,
    };
    let mut i: usize = 0;
    assert(ts.take(0) =~= Seq::<TaskStatsView>::empty());
    assert(rows.deep_view() =~= task_rows(ts.take(0), print_mode, concrete));
    while i < task_stats.len()
        invariant
            i <= task_stats.len(),
            ts == task_stats.deep_view(),
            concrete == concrete_tasks.deep_view(),
            with_since == (print_mode == PrintMode::ConcreteTasks),
            rows.deep_view() == task_rows(ts.take(i as int), print_mode, concrete),
        decreases task_stats.len() - i,
    {
        let task = &task_stats[i];
        let shown = match print_mode {
            PrintMode::Project => false,
            PrintMode::ConcreteTasks => asked_for(concrete_tasks, task.task_id),
            _ => true,
        };
        let ghost before = rows.deep_view();
        proof {
            assert(ts[i as int] == task_stats[i as int]@);
            assert(ts.take(i + 1).drop_last() =~= ts.take(i as int));
            assert(ts.take(i + 1).last() == ts[i as int]);
        }
        if shown {
            let line = task_line(task, with_since);
            rows.push(line);
            assert(rows.deep_view() =~= before.push(line.deep_view()));
        }
        i = i + 1;
    }
    assert(ts.take(i as int) =~= ts);
    let ghost task_part = rows.deep_view();
    let ids: Vec<i32> = match print_mode {
        PrintMode::All => ids_of_entries(project_stats),
        PrintMode::Appearing => ids_of_tasks(task_stats, false),
        PrintMode::Project => ids_of_tasks(task_stats, true),
        PrintMode::ConcreteTasks => Vec::new(),
    };
    assert(m.dom() =~= project_stats@.dom());
    assert(ids@ == shown_projects(m.dom(), ts, print_mode));
    assert forall|k: int| 0 <= k < ids@.len() implies project_stats@.contains_key(
        #[trigger] ids@[k],
    ) by {
        assert(ids@.contains(ids@[k]));
        if print_mode == PrintMode::Appearing || print_mode == PrintMode::Project {
            if projects_of(ts).contains(ids@[k]) {
                let j = choose|j: int| 0 <= j < ts.len() && (#[trigger] ts[j]).project_id == ids@[k];
                assert(task_stats[j].project_id == ids@[k]);
            }
        }
    }
    let short = match print_mode {
        PrintMode::Project => true,
        _ => false,
    };
    let mut k: usize = 0;
    assert(rows.deep_view() =~= task_part + project_rows(m, ids@.take(0), print_mode));
    while k < ids.len()
        invariant
            k <= ids.len(),
            m == stats_map_view(project_stats@),
            short == (print_mode == PrintMode::Project),
            forall|j: int| 0 <= j < ids@.len() ==> project_stats@.contains_key(#[trigger] ids@[j]),
            rows.deep_view() == task_part + project_rows(m, ids@.take(k as int), print_mode),
        decreases ids.len() - k,
    {
        let found = project_stats.get(&ids[k]);
        assert(project_stats@.contains_key(ids@[k as int]));
        let ghost before = rows.deep_view();
        match found {
            Some(entry) => {
                let line = project_line(entry, short);
                rows.push(line);
                assert(rows.deep_view() =~= before.push(line.deep_view()));
                assert(before.push(line.deep_view()) =~= task_part + project_rows(
                    m,
                    ids@.take(k + 1),
                    print_mode,
                ));
            },
            None => {},
        }
        k = k + 1;
    }
    assert(ids@.take(k as int) =~= ids@);
    TextTable { header: header(print_mode), rows }
}

/// The table of the statistics of `rows`, computed at the time `now`.
///
/// `all_projects` are the known projects and `rows` the joined rows, as `get_stats_map`
/// takes them; `print_mode` and `concrete_tasks` say which rows the table holds.
pub fn stats_report(
    all_projects: Option<Vec<Project>>,
    rows: &Vec<StatRow>,
    now: Timestamp,
    print_mode: PrintMode,
    concrete_tasks: &Option<Vec<i32>>,
) -> (table: TextTable)
    requires
        rows.len() <= MAX_ROWS,
        projects_cover(all_projects.deep_view(), rows.deep_view()),
    ensures
        table.header.deep_view() == header_of(print_mode),
        table.rows.deep_view() == table_rows(
            project_stats(all_projects.deep_view(), rows.deep_view()),
            task_stats(rows.deep_view(), now@),
            print_mode,
            concrete_tasks.deep_view(),
        ),
{
    let ghost projects = all_projects.deep_view();
    let ghost s = rows.deep_view();
    let (entries, tasks) = get_stats_map(all_projects, rows, now);
    proof {
        let m = project_stats(projects, s);
        assert(stats_map_view(entries@).dom() =~= entries@.dom());
        assert(has_entry(projects, 0));
        assert(m.contains_key(0));
        assert forall|k: int| 0 <= k < tasks.len() implies entries@.contains_key(
            (#[trigger] tasks[k]).project_id,
        ) by {
            assert(tasks.deep_view().len() == tasks.len());
            assert(tasks.deep_view()[k] == tasks[k]@);
            assert(tasks.deep_view()[k] == crate::stats::stats_of(outcomes(s, 0)[k], now@));
            lemma_outcomes_come_from_rows(s, k);
            let j = choose|j: int|
                0 <= j < s.len() && outcomes(s, 0)[k].task == (#[trigger] s[j]).task;
            assert(has_entry(projects, s[j].task.project_id));
            assert(m.contains_key(tasks[k].project_id));
        }
    }
    stats_table(&entries, &tasks, print_mode, concrete_tasks)
}

/// The table of the statistics of `rows`, computed at the time that the clock shows: the
/// contract holds for some time `now`.
pub fn current_stats_report(
    all_projects: Option<Vec<Project>>,
    rows: &Vec<StatRow>,
    print_mode: PrintMode,
    concrete_tasks: &Option<Vec<i32>>,
) -> (table: TextTable)
    requires
        rows.len() <= MAX_ROWS,
        projects_cover(all_projects.deep_view(), rows.deep_view()),
    ensures
        table.header.deep_view() == header_of(print_mode),
        exists|now: int|
            table.rows.deep_view() == table_rows(
                project_stats(all_projects.deep_view(), rows.deep_view()),
                #[trigger] task_stats(rows.deep_view(), now),
                print_mode,
                concrete_tasks.deep_view(),
            ),
{
    let now = local_now();
    let table = stats_report(all_projects, rows, now, print_mode, concrete_tasks);
    assert(table.rows.deep_view() == table_rows(
        project_stats(all_projects.deep_view(), rows.deep_view()),
        task_stats(rows.deep_view(), now@),
        print_mode,
        concrete_tasks.deep_view(),
    ));
    table
}

} // verus!
