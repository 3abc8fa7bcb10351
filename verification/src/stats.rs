//! Statistics per task and per project, computed from the joined rows of tasks and their
//! logged events.
//!
//! The rows come ordered by task and, within a task, by time. A *run* is a maximal stretch
//! of neighbouring rows with the same task id; each run yields one [`TaskStats`]. Nothing
//! here sorts or groups: rows of one task that do not stand together form several runs.

use crate::records::{clone_text, EventKind, Project, ProjectView, Task, TaskView};
use crate::time::{Duration, Timestamp};
use std::collections::{HashMap, HashSet};
use vstd::prelude::*;
use vstd::std_specs::hash::group_hash_axioms;
use vstd::string::StringExecFns;

verus! {

/// One joined row: a task and, where the task has any, one of its logged events. A task
/// without events stands in one row whose three event fields are all `None`.
#[derive(Debug, PartialEq, Eq)]
pub struct StatRow {
    pub task: Task,
    pub log_id: Option<i32>,
    pub kind: Option<EventKind>,
    pub at: Option<Timestamp>,
}

/// The most rows that the statistics take: with no more than these, no sum or count can
/// leave its type.
pub const MAX_ROWS: u64 = 0x1fff_ffff_ffff_ffff;

/// What a [`StatRow`] holds.
pub ghost struct StatRowView {
    pub task: TaskView,
    pub log_id: Option<i32>,
    pub kind: Option<EventKind>,
    pub at: Option<int>,
}

impl View for StatRow {
    type V = StatRowView;

    open spec fn view(&self) -> StatRowView {
        StatRowView {
            task: self.task@,
            log_id: self.log_id,
            kind: self.kind,
            at: match self.at {
                Some(t) => Some(t@),
                None => None,
            },
        }
    }
}

impl DeepView for StatRow {
    type V = StatRowView;

    open spec fn deep_view(&self) -> StatRowView {
        self@
    }
}

/// The time a row stands for: that of its event, or the epoch where it has none.
pub open spec fn time_of(row: StatRowView) -> int {
    match row.at {
        Some(t) => t,
        None => 0,
    }
}

/// The time between row `j - 1` and row `j`.
pub open spec fn gap(rows: Seq<StatRowView>, j: int) -> int {
    time_of(rows[j]) - time_of(rows[j - 1])
}

/// Whether the interval that ends at row `j` was spent working: it ends in a pause, or in
/// the end of a task that was not paused.
pub open spec fn is_work(rows: Seq<StatRowView>, j: int) -> bool {
    rows[j].kind == Some(EventKind::Pause) || (rows[j].kind == Some(EventKind::End) && rows[j
        - 1].kind != Some(EventKind::Pause))
}

/// Whether the interval that ends at row `j` was spent paused: it ends in a resume, or in
/// the end of a task that was paused.
pub open spec fn is_rest(rows: Seq<StatRowView>, j: int) -> bool {
    rows[j].kind == Some(EventKind::Resume) || (rows[j].kind == Some(EventKind::End) && rows[j
        - 1].kind == Some(EventKind::Pause))
}

/// The sum of the work intervals among rows `first .. end`.
pub open spec fn worked(rows: Seq<StatRowView>, first: int, end: int) -> int
    decreases end - first,
{
    if end - first <= 1 {
        0
    } else {
        worked(rows, first, end - 1) + if is_work(rows, end - 1) {
            gap(rows, end - 1)
        } else {
            0
        }
    }
}

/// The longest work interval among rows `first .. end`, and zero where none is longer
/// than that.
pub open spec fn longest_work(rows: Seq<StatRowView>, first: int, end: int) -> int
    decreases end - first,
{
    if end - first <= 1 {
        0
    } else {
        let before = longest_work(rows, first, end - 1);
        if is_work(rows, end - 1) && gap(rows, end - 1) > before {
            gap(rows, end - 1)
        } else {
            before
        }
    }
}

/// The longest pause interval among rows `first .. end`, and zero where none is longer
/// than that.
pub open spec fn longest_rest(rows: Seq<StatRowView>, first: int, end: int) -> int
    decreases end - first,
{
    if end - first <= 1 {
        0
    } else {
        let before = longest_rest(rows, first, end - 1);
        if is_rest(rows, end - 1) && gap(rows, end - 1) > before {
            gap(rows, end - 1)
        } else {
            before
        }
    }
}

/// The number of pauses among rows `first + 1 .. end`.
pub open spec fn pauses(rows: Seq<StatRowView>, first: int, end: int) -> int
    decreases end - first,
{
    if end - first <= 1 {
        0
    } else {
        pauses(rows, first, end - 1) + if rows[end - 1].kind == Some(EventKind::Pause) {
            1int
        } else {
            0int
        }
    }
}

/// Where the run that holds row `first` ends: the index after its last row.
pub open spec fn run_end(rows: Seq<StatRowView>, first: int) -> int
    decreases rows.len() - first,
{
    if 0 <= first && first + 1 < rows.len() && rows[first + 1].task.task_id
        == rows[first].task.task_id {
        run_end(rows, first + 1)
    } else {
        first + 1
    }
}

/// `run_end` lies after `first` and within the rows.
pub proof fn lemma_run_end_bounds(rows: Seq<StatRowView>, first: int)
    requires
        0 <= first < rows.len(),
    ensures
        first < run_end(rows, first) <= rows.len(),
    decreases rows.len() - first,
{
    if first + 1 < rows.len() && rows[first + 1].task.task_id == rows[first].task.task_id {
        lemma_run_end_bounds(rows, first + 1);
    }
}

/// What one run amounts to: whose it is, its totals, and whether it is complete.
pub ghost struct TaskOutcome {
    /// The task, as the run's last row gives it.
    pub task: TaskView,
    /// From the run's first row to its last.
    pub total_time: int,
    pub total_worked: int,
    pub pause_num: int,
    pub longest_pause: int,
    pub longest_work: int,
    /// The time of the run's last row.
    pub last_at: int,
    /// Whether the run's last event is an end.
    pub completed: bool,
}

/// The outcome of the run made of rows `first .. end`.
pub open spec fn outcome(rows: Seq<StatRowView>, first: int, end: int) -> TaskOutcome {
    TaskOutcome {
        task: rows[end - 1].task,
        total_time: time_of(rows[end - 1]) - time_of(rows[first]),
        total_worked: worked(rows, first, end),
        pause_num: pauses(rows, first, end),
        longest_pause: longest_rest(rows, first, end),
        longest_work: longest_work(rows, first, end),
        last_at: time_of(rows[end - 1]),
        completed: rows[end - 1].kind == Some(EventKind::End),
    }
}

/// The outcomes of the runs from row `from` on, in order. `from` is where a run starts.
pub open spec fn outcomes(rows: Seq<StatRowView>, from: int) -> Seq<TaskOutcome>
    decreases rows.len() - from,
    via outcomes_decreases
{
    if 0 <= from < rows.len() {
        seq![outcome(rows, from, run_end(rows, from))] + outcomes(rows, run_end(rows, from))
    } else {
        Seq::empty()
    }
}

#[via_fn]
proof fn outcomes_decreases(rows: Seq<StatRowView>, from: int) {
    if 0 <= from < rows.len() {
        lemma_run_end_bounds(rows, from);
    }
}

/// The statistics of one task.
#[derive(Debug, PartialEq, Eq)]
pub struct TaskStats {
    pub task_id: i32,
    pub project_id: i32,
    pub task_name: String,
    pub username: String,
    pub planned_time: Option<String>,
    /// From the task's first event to its last.
    pub total_time: Duration,
    /// The sum of its work intervals.
    pub total_worked: Duration,
    pub pause_num: u64,
    pub longest_pause: Duration,
    pub longest_work: Duration,
    /// From the task's last event to the time the statistics were asked for.
    pub since_last_log: Duration,
}

/// What a [`TaskStats`] holds.
pub ghost struct TaskStatsView {
    pub task_id: i32,
    pub project_id: i32,
    pub task_name: Seq<char>,
    pub username: Seq<char>,
    pub planned_time: Option<Seq<char>>,
    pub total_time: int,
    pub total_worked: int,
    pub pause_num: int,
    pub longest_pause: int,
    pub longest_work: int,
    pub since_last_log: int,
}

impl View for TaskStats {
    type V = TaskStatsView;

    open spec fn view(&self) -> TaskStatsView {
        TaskStatsView {
            task_id: self.task_id,
            project_id: self.project_id,
            task_name: self.task_name@,
            username: self.username@,
            planned_time: self.planned_time.deep_view(),
            total_time: self.total_time@,
            total_worked: self.total_worked@,
            pause_num: self.pause_num as int,
            longest_pause: self.longest_pause@,
            longest_work: self.longest_work@,
            since_last_log: self.since_last_log@,
        }
    }
}

impl DeepView for TaskStats {
    type V = TaskStatsView;

    open spec fn deep_view(&self) -> TaskStatsView {
        self@
    }
}

/// The statistics that an outcome gives when asked for at time `now`.
pub open spec fn stats_of(o: TaskOutcome, now: int) -> TaskStatsView {
    TaskStatsView {
        task_id: o.task.task_id,
        project_id: o.task.project_id,
        task_name: o.task.task_name,
        username: o.task.username,
        planned_time: o.task.planned_time,
        total_time: o.total_time,
        total_worked: o.total_worked,
        pause_num: o.pause_num,
        longest_pause: o.longest_pause,
        longest_work: o.longest_work,
        since_last_log: now - o.last_at,
    }
}

/// The statistics of a list of outcomes, one for one.
pub open spec fn stats_list(outs: Seq<TaskOutcome>, now: int) -> Seq<TaskStatsView> {
    Seq::new(outs.len(), |k: int| stats_of(outs[k], now))
}

/// The task statistics of `rows` at time `now`: one entry per run, in the order of the rows.
pub open spec fn task_stats(rows: Seq<StatRowView>, now: int) -> Seq<TaskStatsView> {
    stats_list(outcomes(rows, 0), now)
}

/// The statistics of one project, or of all projects together under the id 0.
#[derive(Debug, PartialEq, Eq)]
pub struct ProjectStats {
    pub project_id: i32,
    pub project_name: String,
    pub username: String,
    pub planned_time: Option<String>,
    pub total_time: Duration,
    pub total_worked: Duration,
    pub pause_num: u64,
    pub longest_pause: Duration,
    pub longest_work: Duration,
    pub total_tasks: u64,
    pub completed_tasks: u64,
}

/// What a [`ProjectStats`] holds.
pub ghost struct ProjectStatsView {
    pub project_id: i32,
    pub project_name: Seq<char>,
    pub username: Seq<char>,
    pub planned_time: Option<Seq<char>>,
    pub total_time: int,
    pub total_worked: int,
    pub pause_num: int,
    pub longest_pause: int,
    pub longest_work: int,
    pub total_tasks: int,
    pub completed_tasks: int,
}

impl View for ProjectStats {
    type V = ProjectStatsView;

    open spec fn view(&self) -> ProjectStatsView {
        ProjectStatsView {
            project_id: self.project_id,
            project_name: self.project_name@,
            username: self.username@,
            planned_time: self.planned_time.deep_view(),
            total_time: self.total_time@,
            total_worked: self.total_worked@,
            pause_num: self.pause_num as int,
            longest_pause: self.longest_pause@,
            longest_work: self.longest_work@,
            total_tasks: self.total_tasks as int,
            completed_tasks: self.completed_tasks as int,
        }
    }
}

impl DeepView for ProjectStats {
    type V = ProjectStatsView;

    open spec fn deep_view(&self) -> ProjectStatsView {
        self@
    }
}

/// The views of the entries of a map of project statistics.
pub open spec fn stats_map_view(m: Map<i32, ProjectStats>) -> Map<i32, ProjectStatsView> {
    Map::new(|p: i32| m.contains_key(p), |p: i32| m[p]@)
}

/// An entry with the given identity and no task counted yet.
pub open spec fn blank_entry(
    project_id: i32,
    project_name: Seq<char>,
    username: Seq<char>,
    planned_time: Option<Seq<char>>,
) -> ProjectStatsView {
    ProjectStatsView {
        project_id,
        project_name,
        username,
        planned_time,
        total_time: 0,
        total_worked: 0,
        pause_num: 0,
        longest_pause: 0,
        longest_work: 0,
        total_tasks: 0,
        completed_tasks: 0,
    }
}

/// The larger of two numbers.
pub open spec fn larger(a: int, b: int) -> int {
    if a >= b {
        a
    } else {
        b
    }
}

/// An entry after one more task is counted in: times and pauses add up, the longest
/// intervals are the larger of the two, and the task counts once, and once as completed
/// where it is.
pub open spec fn credited(e: ProjectStatsView, o: TaskOutcome) -> ProjectStatsView {
    ProjectStatsView {
        total_time: e.total_time + o.total_time,
        total_worked: e.total_worked + o.total_worked,
        pause_num: e.pause_num + o.pause_num,
        longest_pause: larger(e.longest_pause, o.longest_pause),
        longest_work: larger(e.longest_work, o.longest_work),
        total_tasks: e.total_tasks + 1,
        completed_tasks: e.completed_tasks + if o.completed {
            1int
        } else {
            0int
        },
        ..e
    }
}

/// An entry after the outcomes `outs` are counted in, for the entry of project `p`: each
/// task counts in the entry of its own project, and every task counts in the entry 0.
pub open spec fn entry_after(e: ProjectStatsView, outs: Seq<TaskOutcome>, p: i32)
    -> ProjectStatsView
    decreases outs.len(),
{
    if outs.len() == 0 {
        e
    } else {
        let before = entry_after(e, outs.drop_last(), p);
        let own = if outs.last().task.project_id == p {
            credited(before, outs.last())
        } else {
            before
        };
        if p == 0 {
            credited(own, outs.last())
        } else {
            own
        }
    }
}

/// Whether a project with the id `p` is among `projects`.
pub open spec fn listed(projects: Seq<ProjectView>, p: i32) -> bool {
    exists|i: int| 0 <= i < projects.len() && #[trigger] projects[i].project_id == p
}

/// The last project with the id `p` among `projects`.
pub open spec fn last_listed(projects: Seq<ProjectView>, p: i32) -> ProjectView
    decreases projects.len(),
{
    if projects.len() == 0 {
        arbitrary()
    } else if projects.last().project_id == p {
        projects.last()
    } else {
        last_listed(projects.drop_last(), p)
    }
}

/// Whether the statistics have an entry for `p`: for 0, and for each known project.
pub open spec fn has_entry(projects: Option<Seq<ProjectView>>, p: i32) -> bool {
    p == 0 || (projects is Some && listed(projects->0, p))
}

/// The text that stands where the entry 0 has no name, user or planned time.
pub open spec fn null_text() -> Seq<char> {
    seq!['n', 'u', 'l', 'l']
}

/// The entry of `p` before any task is counted. The entry 0 names no project; where
/// several known projects share an id, the last one gives the entry its identity.
pub open spec fn seed_entry(projects: Option<Seq<ProjectView>>, p: i32) -> ProjectStatsView {
    if p == 0 {
        blank_entry(0, null_text(), null_text(), Some(null_text()))
    } else {
        let project = last_listed(projects->0, p);
        blank_entry(
            project.project_id,
            project.project_name,
            project.username,
            project.planned_time,
        )
    }
}

/// The project statistics of `rows`, given the known projects: an entry for each known
/// project and the entry 0, each with the tasks counted in that fall to it.
pub open spec fn project_stats(projects: Option<Seq<ProjectView>>, rows: Seq<StatRowView>)
    -> Map<i32, ProjectStatsView> {
    Map::new(
        |p: i32| has_entry(projects, p),
        |p: i32| entry_after(seed_entry(projects, p), outcomes(rows, 0), p),
    )
}

/// Whether every row belongs to a project that has an entry.
pub open spec fn projects_cover(projects: Option<Seq<ProjectView>>, rows: Seq<StatRowView>)
    -> bool {
    forall|j: int| 0 <= j < rows.len() ==> has_entry(projects, #[trigger] rows[j].task.project_id)
}

/// A project is among the first `i + 1` where it is among the first `i` or is the one
/// after them.
proof fn lemma_listed_one_more(projects: Seq<ProjectView>, i: int, p: i32)
    requires
        0 <= i < projects.len(),
    ensures
        listed(projects.take(i + 1), p) <==> listed(projects.take(i), p) || projects[i].project_id
            == p,
{
    let before = projects.take(i);
    let after = projects.take(i + 1);
    if listed(before, p) {
        let k = choose|k: int| 0 <= k < before.len() && #[trigger] before[k].project_id == p;
        assert(after[k].project_id == p);
    }
    if listed(after, p) && p != projects[i].project_id {
        let k = choose|k: int| 0 <= k < after.len() && #[trigger] after[k].project_id == p;
        assert(before[k].project_id == p);
    }
    if p == projects[i].project_id {
        assert(after[i].project_id == p);
    }
}

/// Whether `get_stats_map` takes the input: there are no more than `MAX_ROWS` rows, and
/// each belongs to a project that has an entry.
pub fn input_fits(all_projects: &Option<Vec<Project>>, rows: &Vec<StatRow>) -> (ok: bool)
    ensures
        ok == (rows.len() <= MAX_ROWS && projects_cover(
            all_projects.deep_view(),
            rows.deep_view(),
        )),
{
    broadcast use group_hash_axioms;

    let ghost projects = all_projects.deep_view();
    let ghost s = rows.deep_view();
    if rows.len() as u64 > MAX_ROWS {
        return false;
    }
    let mut known: HashSet<i32> = HashSet::new();
    known.insert(0);
    if let Some(list) = all_projects {
        let ghost ps = list.deep_view();
        let mut i: usize = 0;
        while i < list.len()
            invariant
                i <= list.len(),
                ps == list.deep_view(),
                forall|p: i32| known@.contains(p) <==> p == 0 || listed(ps.take(i as int), p),
            decreases list.len() - i,
        {
            known.insert(list[i].project_id);
            proof {
                assert(ps[i as int] == list[i as int]@);
                assert forall|p: i32|
                    known@.contains(p) <==> p == 0 || listed(ps.take(i + 1), p) by {
                    lemma_listed_one_more(ps, i as int, p);
                }
            }
            i = i + 1;
        }
        assert(ps.take(i as int) =~= ps);
    }
    assert(forall|p: i32| known@.contains(p) <==> has_entry(projects, p));
    let mut j: usize = 0;
    while j < rows.len()
        invariant
            j <= rows.len() <= MAX_ROWS,
            s == rows.deep_view(),
            projects == all_projects.deep_view(),
            forall|p: i32| known@.contains(p) <==> has_entry(projects, p),
            forall|k: int| 0 <= k < j ==> has_entry(projects, (#[trigger] s[k]).task.project_id),
        decreases rows.len() - j,
    {
        assert(s[j as int] == rows[j as int]@);
        if !known.contains(&rows[j].task.project_id) {
            assert(!known@.contains(rows[j as int].task.project_id));
            assert(!has_entry(projects, s[j as int].task.project_id));
            return false;
        }
        j = j + 1;
    }
    true
}

/// Whether `d` lies within `k` times the widest gap that two timestamps can have.
spec fn fits(d: Duration, k: int) -> bool {
    -k * 0x1_0000_0000_0000_0000 <= d.micros <= k * 0x1_0000_0000_0000_0000
}

/// Whether the numbers of a task's statistics are those of `o`, and small enough for a run
/// of `k` rows.
spec fn task_fits(t: TaskStats, o: TaskOutcome, k: int) -> bool {
    &&& t.total_time@ == o.total_time
    &&& t.total_worked@ == o.total_worked
    &&& t.pause_num == o.pause_num
    &&& t.longest_pause@ == o.longest_pause
    &&& t.longest_work@ == o.longest_work
    &&& fits(t.total_time, k)
    &&& fits(t.total_worked, k)
    &&& fits(t.longest_pause, k)
    &&& fits(t.longest_work, k)
    &&& t.pause_num <= k
}

/// Whether the numbers of an entry are small enough for `k` rows counted in.
spec fn entry_fits(e: ProjectStats, k: int) -> bool {
    &&& fits(e.total_time, k)
    &&& fits(e.total_worked, k)
    &&& fits(e.longest_pause, k)
    &&& fits(e.longest_work, k)
    &&& e.pause_num <= k
    &&& e.total_tasks <= k
    &&& e.completed_tasks <= k
}

fn row_time(row: &StatRow) -> (t: i64)
    ensures
        t == time_of(row@),
{
    match row.at {
        Some(at) => at.micros,
        None => 0,
    }
}

fn is_kind(kind: Option<EventKind>, wanted: EventKind) -> (b: bool)
    ensures
        b == (kind == Some(wanted)),
{
    match kind {
        Some(k) => k == wanted,
        None => false,
    }
}

/// Walks the run that starts at row `start`: its statistics, whether it is complete, and
/// where it ends.
fn scan_run(rows: &Vec<StatRow>, start: usize, now: Timestamp) -> (out: (TaskStats, bool, usize))
    requires
        start < rows.len() <= MAX_ROWS,
    ensures
        out.2 == run_end(rows.deep_view(), start as int),
        start < out.2 <= rows.len(),
        out.0@ == stats_of(outcome(rows.deep_view(), start as int, out.2 as int), now@),
        out.1 == outcome(rows.deep_view(), start as int, out.2 as int).completed,
        task_fits(out.0, outcome(rows.deep_view(), start as int, out.2 as int), out.2 - start),
{
    let ghost s = rows.deep_view();
    let mut i: usize = start + 1;
    let mut pause_num: u64 = 0;
    let mut best_pause: i128 = 0;
    let mut best_work: i128 = 0;
    let mut total_worked: i128 = 0;
    while i < rows.len() && rows[i].task.task_id == rows[i - 1].task.task_id
        invariant
            start < i <= rows.len() <= MAX_ROWS,
            s == rows.deep_view(),
            run_end(s, i - 1) == run_end(s, start as int),
            total_worked == worked(s, start as int, i as int),
            best_work == longest_work(s, start as int, i as int),
            best_pause == longest_rest(s, start as int, i as int),
            pause_num == pauses(s, start as int, i as int),
            -(i - start) * 0x1_0000_0000_0000_0000 <= total_worked <= (i - start)
                * 0x1_0000_0000_0000_0000,
            0 <= best_work <= 0x1_0000_0000_0000_0000,
            0 <= best_pause <= 0x1_0000_0000_0000_0000,
            pause_num <= i - start,
        decreases rows.len() - i,
    {
        let here: i128 = row_time(&rows[i]) as i128;
        let before: i128 = row_time(&rows[i - 1]) as i128;
        let slot: i128 = here - before;
        let kind = rows[i].kind;
        let prev = rows[i - 1].kind;
        assert(s[i as int] == rows[i as int]@);
        assert(s[i - 1] == rows[i - 1]@);
        if is_kind(kind, EventKind::Pause) || (is_kind(kind, EventKind::End) && !is_kind(
            prev,
            EventKind::Pause,
        )) {
            if slot > best_work {
                best_work = slot;
            }
            total_worked = total_worked + slot;
            if is_kind(kind, EventKind::Pause) {
                pause_num = pause_num + 1;
            }
        } else if is_kind(kind, EventKind::Resume) || (is_kind(kind, EventKind::End) && is_kind(
            prev,
            EventKind::Pause,
        )) {
            if slot > best_pause {
                best_pause = slot;
            }
        }
        i = i + 1;
    }
    let last = &rows[i - 1];
    let first = &rows[start];
    assert(s[i - 1] == rows[i - 1]@);
    assert(s[start as int] == rows[start as int]@);
    assert(i < rows.len() ==> s[i as int] == rows[i as int]@);
    let last_at: i128 = row_time(last) as i128;
    let first_at: i128 = row_time(first) as i128;
    let now_at: i128 = now.micros as i128;
    let stats = TaskStats {
        task_id: last.task.task_id,
        project_id: last.task.project_id,
        task_name: last.task.task_name.clone(),
        username: last.task.username.clone(),
        planned_time: clone_text(&last.task.planned_time),
        total_time: Duration { micros: last_at - first_at },
        total_worked: Duration { micros: total_worked },
        pause_num,
        longest_pause: Duration { micros: best_pause },
        longest_work: Duration { micros: best_work },
        since_last_log: Duration { micros: now_at - last_at },
    };
    let completed = is_kind(last.kind, EventKind::End);
    (stats, completed, i)
}

/// The entries before any task is counted: one for each known project, and the entry 0.
fn seed_projects(all_projects: Option<Vec<Project>>) -> (map: HashMap<i32, ProjectStats>)
    ensures
        forall|p: i32| map@.contains_key(p) <==> has_entry(all_projects.deep_view(), p),
        forall|p: i32| #[trigger]
            map@.contains_key(p) ==> map@[p]@ == seed_entry(all_projects.deep_view(), p)
                && entry_fits(map@[p], 0),
{
    broadcast use group_hash_axioms;

    let mut map: HashMap<i32, ProjectStats> = HashMap::new();
    if let Some(known) = &all_projects {
        let ghost ps = known.deep_view();
        let mut i: usize = 0;
        while i < known.len()
            invariant
                i <= known.len(),
                ps == known.deep_view(),
                forall|p: i32| map@.contains_key(p) <==> listed(ps.take(i as int), p),
                forall|p: i32| #[trigger]
                    map@.contains_key(p) ==> {
                        let project = last_listed(ps.take(i as int), p);
                        &&& map@[p]@ == blank_entry(
                            project.project_id,
                            project.project_name,
                            project.username,
                            project.planned_time,
                        )
                        &&& entry_fits(map@[p], 0)
                    },
            decreases known.len() - i,
        {
            let project = &known[i];
            let entry = ProjectStats {
                project_id: project.project_id,
                project_name: project.project_name.clone(),
                username: project.username.clone(),
                planned_time: clone_text(&project.planned_time),
                total_time: Duration { micros: 0 },
                total_worked: Duration { micros: 0 },
                pause_num: 0,
                longest_pause: Duration { micros: 0 },
                longest_work: Duration { micros: 0 },
                total_tasks: 0,
                completed_tasks: 0,
            };
            map.insert(project.project_id, entry);
            proof {
                let before = ps.take(i as int);
                let after = ps.take(i + 1);
                assert(ps[i as int] == known[i as int]@);
                assert(after.drop_last() =~= before);
                assert(after.last() == ps[i as int]);
                assert forall|p: i32| map@.contains_key(p) <==> listed(after, p) by {
                    lemma_listed_one_more(ps, i as int, p);
                }
            }
            i = i + 1;
        }
        assert(ps.take(i as int) =~= ps);
    }
    let total = ProjectStats {
        project_id: 0,
        project_name: String::from_str("null"),
        username: String::from_str("null"),
        planned_time: Some(String::from_str("null")),
        total_time: Duration { micros: 0 },
        total_worked: Duration { micros: 0 },
        pause_num: 0,
        longest_pause: Duration { micros: 0 },
        longest_work: Duration { micros: 0 },
        total_tasks: 0,
        completed_tasks: 0,
    };
    proof {
        reveal_strlit("null");
        assert("null"@ =~= null_text());
    }
    map.insert(0, total);
    map
}

/// Counts one task into the entry of `project_id`.
fn credit(
    map: &mut HashMap<i32, ProjectStats>,
    project_id: i32,
    task: &TaskStats,
    completed: bool,
    Ghost(o): Ghost<TaskOutcome>,
    Ghost(k): Ghost<int>,
    Ghost(j): Ghost<int>,
)
    requires
        old(map)@.contains_key(project_id),
        entry_fits(old(map)@[project_id], k),
        task_fits(*task, o, j),
        completed == o.completed,
        0 <= k,
        1 <= j,
        k + j <= 2 * MAX_ROWS,
    ensures
        forall|p: i32| final(map)@.contains_key(p) <==> old(map)@.contains_key(p),
        forall|p: i32|
            p != project_id && old(map)@.contains_key(p) ==> final(map)@[p] == old(map)@[p],
        final(map)@[project_id]@ == credited(old(map)@[project_id]@, o),
        entry_fits(final(map)@[project_id], k + j),
{
    broadcast use group_hash_axioms;

    let found = map.remove(&project_id);
    match found {
        Some(entry) => {
            let mut entry = entry;
            entry.total_time = Duration { micros: entry.total_time.micros + task.total_time.micros };
            entry.total_worked = Duration {
                micros: entry.total_worked.micros + task.total_worked.micros,
            };
            entry.pause_num = entry.pause_num + task.pause_num;
            if task.longest_pause.micros > entry.longest_pause.micros {
                entry.longest_pause = task.longest_pause;
            }
            if task.longest_work.micros > entry.longest_work.micros {
                entry.longest_work = task.longest_work;
            }
            entry.total_tasks = entry.total_tasks + 1;
            if completed {
                entry.completed_tasks = entry.completed_tasks + 1;
            }
            map.insert(project_id, entry);
        },
        None => {},
    }
}

/// The entry of `p` after one more outcome, from the entry before it.
pub proof fn lemma_entry_after_push(e: ProjectStatsView, outs: Seq<TaskOutcome>, o: TaskOutcome, p: i32)
    ensures
        entry_after(e, outs.push(o), p) == {
            let before = entry_after(e, outs, p);
            let own = if o.task.project_id == p {
                credited(before, o)
            } else {
                before
            };
            if p == 0 {
                credited(own, o)
            } else {
                own
            }
        },
{
    assert(outs.push(o).drop_last() =~= outs);
    assert(outs.push(o).last() == o);
}

/// Computes the statistics of every task and of every project from the joined rows.
///
/// `all_projects` are the known projects, each of which gets an entry whether or not it has
/// tasks; `None` stands for an unknown list and leaves only the entry 0. `rows` are the
/// joined rows, ordered by task and then by time. `now` is the time the statistics are
/// asked for.
pub fn get_stats_map(all_projects: Option<Vec<Project>>, rows: &Vec<StatRow>, now: Timestamp) -> (out:
    (HashMap<i32, ProjectStats>, Vec<TaskStats>))
    requires
        rows.len() <= MAX_ROWS,
        projects_cover(all_projects.deep_view(), rows.deep_view()),
    ensures
        out.1.deep_view() == task_stats(rows.deep_view(), now@),
        stats_map_view(out.0@) == project_stats(all_projects.deep_view(), rows.deep_view()),
{
    let ghost projects = all_projects.deep_view();
    let ghost s = rows.deep_view();
    let mut project_stats = seed_projects(all_projects);
    let mut task_stats: Vec<TaskStats> = Vec::new();
    let n: usize = rows.len();
    let mut start: usize = 0;
    let ghost mut done: Seq<TaskOutcome> = Seq::empty();
    assert(done + outcomes(s, 0) =~= outcomes(s, 0));
    assert(task_stats.deep_view() =~= stats_list(done, now@));
    while start < n
        invariant
            n == rows.len(),
            start <= n <= MAX_ROWS,
            s == rows.deep_view(),
            projects_cover(projects, s),
            done + outcomes(s, start as int) == outcomes(s, 0),
            task_stats.deep_view() == stats_list(done, now@),
            forall|p: i32| project_stats@.contains_key(p) <==> has_entry(projects, p),
            forall|p: i32| #[trigger]
                project_stats@.contains_key(p) ==> project_stats@[p]@ == entry_after(
                    seed_entry(projects, p),
                    done,
                    p,
                ) && entry_fits(project_stats@[p], 2 * start),
        decreases n - start,
    {
        let (stats, completed, end) = scan_run(rows, start, now);
        let ghost o = outcome(s, start as int, end as int);
        let ghost before = project_stats@;
        let project_id = stats.project_id;
        assert(s[end - 1] == rows[end - 1]@);
        assert(has_entry(projects, s[end - 1].task.project_id));
        credit(
            &mut project_stats,
            project_id,
            &stats,
            completed,
            Ghost(o),
            Ghost(2 * start),
            Ghost(end - start),
        );
        let ghost between = project_stats@;
        assert(has_entry(projects, 0));
        assert(before.contains_key(0));
        assert(between.contains_key(0));
        credit(
            &mut project_stats,
            0,
            &stats,
            completed,
            Ghost(o),
            Ghost(2 * start + (end - start)),
            Ghost(end - start),
        );
        proof {
            assert forall|p: i32| #[trigger]
                project_stats@.contains_key(p) implies project_stats@[p]@ == entry_after(
                seed_entry(projects, p),
                done.push(o),
                p,
            ) && entry_fits(project_stats@[p], 2 * end) by {
                lemma_entry_after_push(seed_entry(projects, p), done, o, p);
                assert(before.contains_key(p));
                assert(between.contains_key(p));
            }
            assert(stats_list(done, now@).push(stats@) =~= stats_list(done.push(o), now@));
            assert(done.push(o) + outcomes(s, end as int) =~= done + outcomes(s, start as int));
        }
        task_stats.push(stats);
        proof {
            done = done.push(o);
            assert(task_stats.deep_view() =~= stats_list(done, now@));
        }
        start = end;
    }
    proof {
        assert(outcomes(s, n as int) =~= Seq::<TaskOutcome>::empty());
        assert(done =~= outcomes(s, 0));
        assert(stats_map_view(project_stats@) =~= crate::stats::project_stats(projects, s));
    }
    (project_stats, task_stats)
}

/// The statistics of `get_stats_map` where it takes the input, and `None` where there are
/// more than `MAX_ROWS` rows or a row belongs to a project that has no entry.
pub fn checked_stats_map(
    all_projects: Option<Vec<Project>>,
    rows: &Vec<StatRow>,
    now: Timestamp,
) -> (out: Option<(HashMap<i32, ProjectStats>, Vec<TaskStats>)>)
    ensures
        out is Some <==> rows.len() <= MAX_ROWS && projects_cover(
            all_projects.deep_view(),
            rows.deep_view(),
        ),
        out matches Some(found) ==> found.1.deep_view() == task_stats(rows.deep_view(), now@)
            && stats_map_view(found.0@) == project_stats(
            all_projects.deep_view(),
            rows.deep_view(),
        ),
{
    if input_fits(&all_projects, rows) {
        Some(get_stats_map(all_projects, rows, now))
    } else {
        None
    }
}

} // verus!
