//! What holds of the statistics for every input.

use crate::records::{EventKind, ProjectView};
use crate::stats::{
    credited, entry_after, has_entry, larger, lemma_entry_after_push, lemma_run_end_bounds,
    longest_rest, longest_work, outcome, outcomes, pauses, project_stats, projects_cover,
    run_end, seed_entry, stats_of, task_stats, time_of, worked, ProjectStatsView, StatRowView,
    TaskOutcome, TaskStatsView,
};
use vstd::prelude::*;

verus! {

/// Where the `k`-th run from row `from` on starts, `from` being where a run starts.
pub open spec fn nth_start(rows: Seq<StatRowView>, from: int, k: int) -> int
    decreases k,
{
    if k <= 0 {
        from
    } else {
        nth_start(rows, run_end(rows, from), k - 1)
    }
}

/// Where the `k`-th run of the rows starts.
pub open spec fn run_start(rows: Seq<StatRowView>, k: int) -> int {
    nth_start(rows, 0, k)
}

/// Whether a run starts at row `a`: it is the first row, or the row before it belongs to
/// another task.
pub open spec fn starts_run(rows: Seq<StatRowView>, a: int) -> bool {
    0 <= a < rows.len() && (a == 0 || rows[a - 1].task.task_id != rows[a].task.task_id)
}

/// The rows of a run share their task, and the row after the run belongs to another.
pub proof fn lemma_run_shape(rows: Seq<StatRowView>, first: int)
    requires
        0 <= first < rows.len(),
    ensures
        forall|j: int|
            first <= j < run_end(rows, first) ==> (#[trigger] rows[j]).task.task_id
                == rows[first].task.task_id,
        run_end(rows, first) < rows.len() ==> rows[run_end(rows, first)].task.task_id
            != rows[first].task.task_id,
    decreases rows.len() - first,
{
    if first + 1 < rows.len() && rows[first + 1].task.task_id == rows[first].task.task_id {
        lemma_run_shape(rows, first + 1);
    }
}

/// The `k`-th outcome from row `from` on is that of the run that starts at the `k`-th
/// start, which is where a run starts.
pub proof fn lemma_nth_outcome(rows: Seq<StatRowView>, from: int, k: int)
    requires
        starts_run(rows, from),
        0 <= k < outcomes(rows, from).len(),
    ensures
        starts_run(rows, nth_start(rows, from, k)),
        outcomes(rows, from)[k] == outcome(
            rows,
            nth_start(rows, from, k),
            run_end(rows, nth_start(rows, from, k)),
        ),
    decreases k,
{
    lemma_run_end_bounds(rows, from);
    lemma_run_shape(rows, from);
    let end = run_end(rows, from);
    if k > 0 {
        assert(outcomes(rows, from)[k] == outcomes(rows, end)[k - 1]);
        lemma_nth_outcome(rows, end, k - 1);
    }
}

/// Each entry of the task statistics is that of one run: of the `k`-th, for the `k`-th.
pub proof fn lemma_task_stats_by_run(rows: Seq<StatRowView>, now: int, k: int)
    requires
        0 <= k < task_stats(rows, now).len(),
    ensures
        starts_run(rows, run_start(rows, k)),
        task_stats(rows, now)[k] == stats_of(
            outcome(rows, run_start(rows, k), run_end(rows, run_start(rows, k))),
            now,
        ),
{
    lemma_nth_outcome(rows, 0, k);
}

/// Whether the rows of each task stand together.
pub open spec fn grouped(rows: Seq<StatRowView>) -> bool {
    forall|i: int, j: int, m: int|
        #![trigger rows[i], rows[j], rows[m]]
        0 <= i < j < m < rows.len() && rows[i].task.task_id == rows[m].task.task_id
            ==> rows[j].task.task_id == rows[i].task.task_id
}

/// The total time of a task is the time from its first event to its last, whatever lies
/// between them.
///
/// For rows in which each task's rows stand together: where `first` is the first row of the
/// task of the `k`-th entry and `last` its last row, the entry's `total_time` is the time of
/// `last` less the time of `first`.
pub proof fn lemma_total_time_is_last_less_first(
    rows: Seq<StatRowView>,
    now: int,
    k: int,
    first: int,
    last: int,
)
    requires
        grouped(rows),
        0 <= k < task_stats(rows, now).len(),
        0 <= first <= last < rows.len(),
        rows[first].task.task_id == task_stats(rows, now)[k].task_id,
        rows[last].task.task_id == task_stats(rows, now)[k].task_id,
        forall|i: int|
            0 <= i < first ==> (#[trigger] rows[i]).task.task_id != task_stats(
                rows,
                now,
            )[k].task_id,
        forall|i: int|
            last < i < rows.len() ==> (#[trigger] rows[i]).task.task_id != task_stats(
                rows,
                now,
            )[k].task_id,
    ensures
        task_stats(rows, now)[k].total_time == time_of(rows[last]) - time_of(rows[first]),
{
    lemma_task_stats_by_run(rows, now, k);
    let a = run_start(rows, k);
    let b = run_end(rows, a);
    lemma_run_end_bounds(rows, a);
    lemma_run_shape(rows, a);
    let id = task_stats(rows, now)[k].task_id;
    assert(rows[b - 1].task.task_id == rows[a].task.task_id);
    assert(id == rows[a].task.task_id);
    if first < a {
        if first < a - 1 {
            assert(rows[first].task.task_id == rows[a].task.task_id);
            let _ = (rows[first], rows[a - 1], rows[a]);
            assert(rows[a - 1].task.task_id == rows[first].task.task_id);
        }
        assert(false);
    }
    assert(first == a);
    if b - 1 < last {
        if b < last {
            let _ = (rows[b - 1], rows[b], rows[last]);
            assert(rows[b].task.task_id == rows[b - 1].task.task_id);
        }
        assert(false);
    }
    assert(last == b - 1);
}

/// Each run but the first starts where the run before it ends.
pub proof fn lemma_next_start(rows: Seq<StatRowView>, from: int, k: int)
    requires
        0 <= k,
    ensures
        nth_start(rows, from, k + 1) == run_end(rows, nth_start(rows, from, k)),
    decreases k,
{
    let next = run_end(rows, from);
    assert(nth_start(rows, from, k + 1) == nth_start(rows, next, k));
    if k > 0 {
        lemma_next_start(rows, next, k - 1);
        assert(nth_start(rows, from, k) == nth_start(rows, next, k - 1));
    } else {
        assert(nth_start(rows, next, 0) == next);
    }
}

/// Later runs start later.
pub proof fn lemma_starts_in_order(rows: Seq<StatRowView>, k1: int, k2: int)
    requires
        0 <= k1 <= k2 < outcomes(rows, 0).len(),
    ensures
        run_start(rows, k1) <= run_start(rows, k2),
        k1 < k2 ==> run_end(rows, run_start(rows, k1)) <= run_start(rows, k2),
    decreases k2 - k1,
{
    if k1 < k2 {
        lemma_starts_in_order(rows, k1, k2 - 1);
        lemma_next_start(rows, 0, k2 - 1);
        lemma_nth_outcome(rows, 0, k2 - 1);
        lemma_run_end_bounds(rows, run_start(rows, k2 - 1));
    }
}

/// Each task has one entry in the statistics.
///
/// For rows in which each task's rows stand together, no two entries of the task
/// statistics belong to the same task.
pub proof fn lemma_one_entry_per_task(rows: Seq<StatRowView>, now: int, k1: int, k2: int)
    requires
        grouped(rows),
        0 <= k1 < k2 < task_stats(rows, now).len(),
    ensures
        task_stats(rows, now)[k1].task_id != task_stats(rows, now)[k2].task_id,
{
    lemma_task_stats_by_run(rows, now, k1);
    lemma_task_stats_by_run(rows, now, k2);
    lemma_starts_in_order(rows, k1, k2);
    let a1 = run_start(rows, k1);
    let b1 = run_end(rows, a1);
    let a2 = run_start(rows, k2);
    let b2 = run_end(rows, a2);
    lemma_run_end_bounds(rows, a1);
    lemma_run_end_bounds(rows, a2);
    lemma_run_shape(rows, a1);
    lemma_run_shape(rows, a2);
    assert(rows[b1 - 1].task.task_id == rows[a1].task.task_id);
    assert(rows[b2 - 1].task.task_id == rows[a2].task.task_id);
    if rows[a1].task.task_id == rows[a2].task.task_id {
        if a1 < a2 - 1 {
            let _ = (rows[a1], rows[a2 - 1], rows[a2]);
            assert(rows[a2 - 1].task.task_id == rows[a1].task.task_id);
        }
        assert(false);
    }
}

/// The number of resumes among rows `first + 1 .. end`.
pub open spec fn resumes(rows: Seq<StatRowView>, first: int, end: int) -> int
    decreases end - first,
{
    if end - first <= 1 {
        0
    } else {
        resumes(rows, first, end - 1) + if rows[end - 1].kind == Some(EventKind::Resume) {
            1int
        } else {
            0int
        }
    }
}

/// Whether an event of kind `next` may follow one of kind `prev` in the life of a task: a
/// pause follows work, a resume follows a pause, an end follows anything but an end, and
/// nothing else follows at all.
pub open spec fn may_follow(prev: Option<EventKind>, next: Option<EventKind>) -> bool {
    match next {
        Some(EventKind::Pause) => prev == Some(EventKind::Begin) || prev == Some(
            EventKind::Resume,
        ),
        Some(EventKind::Resume) => prev == Some(EventKind::Pause),
        Some(EventKind::End) => prev == Some(EventKind::Begin) || prev == Some(EventKind::Pause)
            || prev == Some(EventKind::Resume),
        _ => false,
    }
}

/// Whether rows `first .. end` tell the life of a task in order: they start with a begin,
/// and each further event may follow the one before it.
pub open spec fn orderly(rows: Seq<StatRowView>, first: int, end: int) -> bool {
    &&& rows[first].kind == Some(EventKind::Begin)
    &&& forall|j: int| first < j < end ==> may_follow(rows[j - 1].kind, (#[trigger] rows[j]).kind)
}

/// Whether rows `first .. end` leave the task paused: their last event is a pause, or an
/// end that follows a pause.
pub open spec fn left_paused(rows: Seq<StatRowView>, first: int, end: int) -> bool {
    rows[end - 1].kind == Some(EventKind::Pause) || (end - first >= 2 && rows[end - 1].kind
        == Some(EventKind::End) && rows[end - 2].kind == Some(EventKind::Pause))
}

/// The pauses of a task are its resumes, and one more where it was left paused.
///
/// For rows `first .. end` that tell the life of a task in order, the number of pauses is
/// the number of resumes, plus one where the last event is a pause or an end that follows
/// a pause. So where the last event is no pause, it is the number of resumes, plus one
/// where the task ended from a pause.
pub proof fn lemma_pauses_are_resumes(rows: Seq<StatRowView>, first: int, end: int)
    requires
        0 <= first < end <= rows.len(),
        orderly(rows, first, end),
    ensures
        outcome(rows, first, end).pause_num == resumes(rows, first, end) + if left_paused(
            rows,
            first,
            end,
        ) {
            1int
        } else {
            0int
        },
        rows[end - 1].kind != Some(EventKind::Pause) ==> outcome(rows, first, end).pause_num
            == resumes(rows, first, end) + if end - first >= 2 && rows[end - 1].kind == Some(
            EventKind::End,
        ) && rows[end - 2].kind == Some(EventKind::Pause) {
            1int
        } else {
            0int
        },
    decreases end - first,
{
    if end - first >= 2 {
        assert(orderly(rows, first, end - 1)) by {
            assert forall|j: int| first < j < end - 1 implies may_follow(
                rows[j - 1].kind,
                (#[trigger] rows[j]).kind,
            ) by {}
        }
        lemma_pauses_are_resumes(rows, first, end - 1);
        assert(may_follow(rows[end - 2].kind, rows[end - 1].kind));
        if end - first >= 3 {
            assert(may_follow(rows[end - 3].kind, rows[end - 2].kind));
        }
    }
}

/// The sums and the longest intervals of an entry, or of several entries together.
pub ghost struct Totals {
    pub total_time: int,
    pub total_worked: int,
    pub pause_num: int,
    pub longest_pause: int,
    pub longest_work: int,
    pub total_tasks: int,
    pub completed_tasks: int,
}

/// The totals of one entry.
pub open spec fn totals_of(e: ProjectStatsView) -> Totals {
    Totals {
        total_time: e.total_time,
        total_worked: e.total_worked,
        pause_num: e.pause_num,
        longest_pause: e.longest_pause,
        longest_work: e.longest_work,
        total_tasks: e.total_tasks,
        completed_tasks: e.completed_tasks,
    }
}

/// The totals of nothing.
pub open spec fn no_totals() -> Totals {
    Totals {
        total_time: 0,
        total_worked: 0,
        pause_num: 0,
        longest_pause: 0,
        longest_work: 0,
        total_tasks: 0,
        completed_tasks: 0,
    }
}

/// Two totals together: the sum of each count and time, and the larger of each longest
/// interval.
pub open spec fn together(a: Totals, b: Totals) -> Totals {
    Totals {
        total_time: a.total_time + b.total_time,
        total_worked: a.total_worked + b.total_worked,
        pause_num: a.pause_num + b.pause_num,
        longest_pause: larger(a.longest_pause, b.longest_pause),
        longest_work: larger(a.longest_work, b.longest_work),
        total_tasks: a.total_tasks + b.total_tasks,
        completed_tasks: a.completed_tasks + b.completed_tasks,
    }
}

/// The totals of the entries of `ids` in `m` together.
pub open spec fn totals_over(m: Map<i32, ProjectStatsView>, ids: Seq<i32>) -> Totals
    decreases ids.len(),
{
    if ids.len() == 0 {
        no_totals()
    } else {
        together(totals_over(m, ids.drop_last()), totals_of(m[ids.last()]))
    }
}

/// The entries after the outcomes `outs` are counted in.
spec fn entries(projects: Option<Seq<ProjectView>>, outs: Seq<TaskOutcome>) -> Map<
    i32,
    ProjectStatsView,
> {
    Map::new(
        |p: i32| has_entry(projects, p),
        |p: i32| entry_after(seed_entry(projects, p), outs, p),
    )
}

/// What one outcome adds to the totals of an entry.
spec fn share(o: TaskOutcome) -> Totals {
    Totals {
        total_time: o.total_time,
        total_worked: o.total_worked,
        pause_num: o.pause_num,
        longest_pause: o.longest_pause,
        longest_work: o.longest_work,
        total_tasks: 1,
        completed_tasks: if o.completed {
            1
        } else {
            0
        },
    }
}

proof fn lemma_longest_not_negative(rows: Seq<StatRowView>, first: int, end: int)
    ensures
        longest_work(rows, first, end) >= 0,
        longest_rest(rows, first, end) >= 0,
    decreases end - first,
{
    if end - first > 1 {
        lemma_longest_not_negative(rows, first, end - 1);
    }
}

/// Each outcome is that of a task of some row, and its longest intervals are not negative.
pub proof fn lemma_outcomes_come_from_rows(rows: Seq<StatRowView>, k: int)
    requires
        0 <= k < outcomes(rows, 0).len(),
    ensures
        exists|j: int| 0 <= j < rows.len() && outcomes(rows, 0)[k].task == (#[trigger] rows[j]).task,
        outcomes(rows, 0)[k].longest_pause >= 0,
        outcomes(rows, 0)[k].longest_work >= 0,
{
    lemma_nth_outcome(rows, 0, k);
    let a = run_start(rows, k);
    let b = run_end(rows, a);
    lemma_run_end_bounds(rows, a);
    lemma_longest_not_negative(rows, a, b);
    assert(outcomes(rows, 0)[k].task == rows[b - 1].task);
}

/// The totals over `ids` do not change where the entries of `ids` do not.
proof fn lemma_totals_over_same(
    m: Map<i32, ProjectStatsView>,
    n: Map<i32, ProjectStatsView>,
    ids: Seq<i32>,
)
    requires
        forall|i: int| 0 <= i < ids.len() ==> m[#[trigger] ids[i]] == n[ids[i]],
    ensures
        totals_over(m, ids) == totals_over(n, ids),
    decreases ids.len(),
{
    if ids.len() > 0 {
        let front = ids.drop_last();
        assert forall|i: int| 0 <= i < front.len() implies m[#[trigger] front[i]] == n[front[i]] by {
            assert(front[i] == ids[i]);
        }
        lemma_totals_over_same(m, n, front);
        assert(ids.last() == ids[ids.len() - 1]);
    }
}

/// The totals over `ids` grow by what one outcome adds where one entry of `ids` does.
proof fn lemma_totals_over_credit(
    m: Map<i32, ProjectStatsView>,
    n: Map<i32, ProjectStatsView>,
    ids: Seq<i32>,
    q: i32,
    o: TaskOutcome,
)
    requires
        ids.no_duplicates(),
        ids.contains(q),
        n[q] == credited(m[q], o),
        forall|i: int| 0 <= i < ids.len() && ids[i] != q ==> m[#[trigger] ids[i]] == n[ids[i]],
    ensures
        totals_over(n, ids) == together(totals_over(m, ids), share(o)),
    decreases ids.len(),
{
    let front = ids.drop_last();
    let last = ids.last();
    assert(ids.len() > 0);
    assert(last == ids[ids.len() - 1]);
    assert forall|i: int| 0 <= i < front.len() implies front[i] == ids[i] by {}
    if last == q {
        assert forall|i: int| 0 <= i < front.len() implies m[#[trigger] front[i]] == n[front[i]] by {
            assert(front[i] == ids[i]);
            assert(ids[i] != ids[ids.len() - 1]);
        }
        lemma_totals_over_same(m, n, front);
    } else {
        assert(front.no_duplicates());
        let i = choose|i: int| 0 <= i < ids.len() && ids[i] == q;
        assert(front[i] == q);
        assert(front.contains(q));
        assert forall|i: int| 0 <= i < front.len() && front[i] != q implies m[#[trigger] front[i]]
            == n[front[i]] by {
            assert(front[i] == ids[i]);
        }
        lemma_totals_over_credit(m, n, front, q, o);
        assert(m[last] == n[last]);
    }
}

proof fn lemma_totals_over_seeds(projects: Option<Seq<ProjectView>>, ids: Seq<i32>)
    requires
        forall|i: int| 0 <= i < ids.len() ==> has_entry(projects, #[trigger] ids[i]),
    ensures
        totals_over(entries(projects, Seq::empty()), ids) == no_totals(),
    decreases ids.len(),
{
    if ids.len() > 0 {
        let front = ids.drop_last();
        assert forall|i: int| 0 <= i < front.len() implies has_entry(
            projects,
            #[trigger] front[i],
        ) by {
            assert(front[i] == ids[i]);
        }
        lemma_totals_over_seeds(projects, front);
        assert(has_entry(projects, ids[ids.len() - 1]));
    }
}

proof fn lemma_grand_total_of(
    projects: Option<Seq<ProjectView>>,
    outs: Seq<TaskOutcome>,
    ids: Seq<i32>,
)
    requires
        ids.no_duplicates(),
        !ids.contains(0),
        forall|i: int| 0 <= i < ids.len() ==> has_entry(projects, #[trigger] ids[i]),
        forall|k: int| 0 <= k < outs.len() ==> ids.contains((#[trigger] outs[k]).task.project_id),
        forall|k: int|
            0 <= k < outs.len() ==> (#[trigger] outs[k]).longest_pause >= 0 && outs[k].longest_work
                >= 0,
    ensures
        totals_of(entry_after(seed_entry(projects, 0), outs, 0)) == totals_over(
            entries(projects, outs),
            ids,
        ),
        entry_after(seed_entry(projects, 0), outs, 0).longest_pause >= 0,
        entry_after(seed_entry(projects, 0), outs, 0).longest_work >= 0,
    decreases outs.len(),
{
    if outs.len() == 0 {
        lemma_totals_over_seeds(projects, ids);
        assert(outs =~= Seq::empty());
    } else {
        let front = outs.drop_last();
        let o = outs.last();
        assert(outs =~= front.push(o));
        assert forall|k: int| 0 <= k < front.len() implies ids.contains(
            (#[trigger] front[k]).task.project_id,
        ) && front[k].longest_pause >= 0 && front[k].longest_work >= 0 by {
            assert(front[k] == outs[k]);
        }
        lemma_grand_total_of(projects, front, ids);
        let q = o.task.project_id;
        assert(o == outs[outs.len() - 1]);
        assert(ids.contains(q));
        let m = entries(projects, front);
        let n = entries(projects, outs);
        lemma_entry_after_push(seed_entry(projects, 0), front, o, 0);
        lemma_entry_after_push(seed_entry(projects, q), front, o, q);
        let at = choose|i: int| 0 <= i < ids.len() && ids[i] == q;
        assert(has_entry(projects, ids[at]));
        assert forall|i: int| 0 <= i < ids.len() && ids[i] != q implies m[#[trigger] ids[i]]
            == n[ids[i]] by {
            lemma_entry_after_push(seed_entry(projects, ids[i]), front, o, ids[i]);
            assert(ids.contains(ids[i]));
            assert(has_entry(projects, ids[i]));
        }
        lemma_totals_over_credit(m, n, ids, q, o);
    }
}

/// The entry 0 holds the totals of all projects together.
///
/// Where no task is filed under the project 0 itself, and `ids` lists each known project
/// once, the sums of the entry 0 are the sums over the entries of `ids`, and its longest
/// intervals are the longest among them.
pub proof fn lemma_grand_total(
    projects: Option<Seq<ProjectView>>,
    rows: Seq<StatRowView>,
    ids: Seq<i32>,
)
    requires
        projects_cover(projects, rows),
        forall|j: int| 0 <= j < rows.len() ==> (#[trigger] rows[j]).task.project_id != 0,
        ids.no_duplicates(),
        forall|p: i32| ids.contains(p) <==> p != 0 && has_entry(projects, p),
    ensures
        project_stats(projects, rows).contains_key(0),
        totals_of(project_stats(projects, rows)[0]) == totals_over(
            project_stats(projects, rows),
            ids,
        ),
{
    let outs = outcomes(rows, 0);
    assert forall|k: int| 0 <= k < outs.len() implies ids.contains(
        (#[trigger] outs[k]).task.project_id,
    ) && outs[k].longest_pause >= 0 && outs[k].longest_work >= 0 by {
        lemma_outcomes_come_from_rows(rows, k);
        let j = choose|j: int| 0 <= j < rows.len() && outs[k].task == (#[trigger] rows[j]).task;
        assert(has_entry(projects, rows[j].task.project_id));
    }
    lemma_grand_total_of(projects, outs, ids);
    assert(entries(projects, outs) =~= project_stats(projects, rows));
}

proof fn lemma_entry_untouched(e: ProjectStatsView, outs: Seq<TaskOutcome>, p: i32)
    requires
        p != 0,
        forall|k: int| 0 <= k < outs.len() ==> (#[trigger] outs[k]).task.project_id != p,
    ensures
        entry_after(e, outs, p) == e,
    decreases outs.len(),
{
    if outs.len() > 0 {
        let front = outs.drop_last();
        assert forall|k: int| 0 <= k < front.len() implies (#[trigger] front[k]).task.project_id
            != p by {
            assert(front[k] == outs[k]);
        }
        lemma_entry_untouched(e, front, p);
        assert(outs.last() == outs[outs.len() - 1]);
    }
}

/// A known project without tasks has its entry all the same, with nothing counted in.
///
/// For a known project `p` under which no row is filed, the statistics hold an entry for
/// `p` that has the project's identity and zero in every total.
pub proof fn lemma_project_without_tasks(
    projects: Option<Seq<ProjectView>>,
    rows: Seq<StatRowView>,
    p: i32,
)
    requires
        p != 0,
        has_entry(projects, p),
        forall|j: int| 0 <= j < rows.len() ==> (#[trigger] rows[j]).task.project_id != p,
    ensures
        project_stats(projects, rows).contains_key(p),
        project_stats(projects, rows)[p] == seed_entry(projects, p),
        totals_of(project_stats(projects, rows)[p]) == no_totals(),
{
    let outs = outcomes(rows, 0);
    assert forall|k: int| 0 <= k < outs.len() implies (#[trigger] outs[k]).task.project_id
        != p by {
        lemma_outcomes_come_from_rows(rows, k);
    }
    lemma_entry_untouched(seed_entry(projects, p), outs, p);
}

/// Whether an outcome holds no time, no pause and no end.
spec fn is_idle(o: TaskOutcome) -> bool {
    &&& o.total_time == 0
    &&& o.total_worked == 0
    &&& o.pause_num == 0
    &&& o.longest_pause == 0
    &&& o.longest_work == 0
    &&& !o.completed
}

proof fn lemma_rows_without_events(rows: Seq<StatRowView>, first: int, end: int)
    requires
        0 <= first < end <= rows.len(),
        forall|j: int|
            first <= j < end ==> (#[trigger] rows[j]).kind is None && rows[j].at is None,
    ensures
        is_idle(outcome(rows, first, end)),
    decreases end - first,
{
    if end - first > 1 {
        lemma_rows_without_events(rows, first, end - 1);
        assert(rows[end - 1].kind is None);
        assert(rows[end - 2].at is None);
        assert(pauses(rows, first, end) == 0);
        assert(worked(rows, first, end) == 0);
    }
    assert(rows[first].at is None);
}

proof fn lemma_entry_of_idle_tasks(e: ProjectStatsView, outs: Seq<TaskOutcome>, p: i32)
    requires
        p != 0,
        e.longest_pause >= 0,
        e.longest_work >= 0,
        forall|k: int|
            0 <= k < outs.len() && (#[trigger] outs[k]).task.project_id == p ==> is_idle(outs[k]),
    ensures
        entry_after(e, outs, p) == (ProjectStatsView {
            total_tasks: entry_after(e, outs, p).total_tasks,
            ..e
        }),
    decreases outs.len(),
{
    if outs.len() > 0 {
        let front = outs.drop_last();
        assert forall|k: int|
            0 <= k < front.len() && (#[trigger] front[k]).task.project_id == p implies is_idle(
            front[k],
        ) by {
            assert(front[k] == outs[k]);
        }
        lemma_entry_of_idle_tasks(e, front, p);
        assert(outs.last() == outs[outs.len() - 1]);
    }
}

/// A project whose tasks have no events has counted its tasks and nothing else.
///
/// Where each task lies in one project, and no row under the known project `p` holds an
/// event, the entry of `p` has the project's identity, zero in every time, no pause and no
/// completed task.
pub proof fn lemma_project_without_events(
    projects: Option<Seq<ProjectView>>,
    rows: Seq<StatRowView>,
    p: i32,
)
    requires
        p != 0,
        has_entry(projects, p),
        forall|i: int, j: int|
            0 <= i < rows.len() && 0 <= j < rows.len() && (#[trigger] rows[i]).task.task_id == (
            #[trigger] rows[j]).task.task_id ==> rows[i].task.project_id
                == rows[j].task.project_id,
        forall|j: int|
            0 <= j < rows.len() && (#[trigger] rows[j]).task.project_id == p ==> rows[j].kind
                is None && rows[j].at is None,
    ensures
        project_stats(projects, rows).contains_key(p),
        project_stats(projects, rows)[p] == (ProjectStatsView {
            total_tasks: project_stats(projects, rows)[p].total_tasks,
            ..seed_entry(projects, p)
        }),
{
    let outs = outcomes(rows, 0);
    assert forall|k: int|
        0 <= k < outs.len() && (#[trigger] outs[k]).task.project_id == p implies is_idle(
        outs[k],
    ) by {
        lemma_nth_outcome(rows, 0, k);
        let a = run_start(rows, k);
        let b = run_end(rows, a);
        lemma_run_end_bounds(rows, a);
        lemma_run_shape(rows, a);
        assert(rows[b - 1].task.project_id == p);
        assert forall|j: int| a <= j < b implies (#[trigger] rows[j]).kind is None && rows[j].at
            is None by {
            assert(rows[j].task.task_id == rows[b - 1].task.task_id);
        }
        lemma_rows_without_events(rows, a, b);
    }
    lemma_entry_of_idle_tasks(seed_entry(projects, p), outs, p);
}

/// The statistics depend on the known projects, the rows and the time asked at, and on
/// nothing else: two results for the same input are the same.
pub proof fn lemma_same_input_same_statistics(
    projects: Option<Seq<ProjectView>>,
    rows: Seq<StatRowView>,
    now: int,
    first: (Map<i32, ProjectStatsView>, Seq<TaskStatsView>),
    second: (Map<i32, ProjectStatsView>, Seq<TaskStatsView>),
)
    requires
        first.0 == project_stats(projects, rows),
        first.1 == task_stats(rows, now),
        second.0 == project_stats(projects, rows),
        second.1 == task_stats(rows, now),
    ensures
        first == second,
{
}

/// A task with one row has no time, no pause and no interval: every number of its
/// statistics is zero but the time since its event.
pub proof fn lemma_single_row(rows: Seq<StatRowView>, first: int)
    requires
        0 <= first < rows.len(),
    ensures
        outcome(rows, first, first + 1).total_time == 0,
        outcome(rows, first, first + 1).total_worked == 0,
        outcome(rows, first, first + 1).pause_num == 0,
        outcome(rows, first, first + 1).longest_pause == 0,
        outcome(rows, first, first + 1).longest_work == 0,
{
}

proof fn lemma_total_counts(e: ProjectStatsView, outs: Seq<TaskOutcome>)
    requires
        forall|k: int| 0 <= k < outs.len() ==> (#[trigger] outs[k]).task.project_id != 0,
    ensures
        entry_after(e, outs, 0).total_tasks == e.total_tasks + outs.len(),
    decreases outs.len(),
{
    if outs.len() > 0 {
        let front = outs.drop_last();
        assert forall|k: int| 0 <= k < front.len() implies (#[trigger] front[k]).task.project_id
            != 0 by {
            assert(front[k] == outs[k]);
        }
        lemma_total_counts(e, front);
        assert(outs.last() == outs[outs.len() - 1]);
    }
}

/// The entry 0 is always there, and counts every task.
///
/// Where no task is filed under the project 0 itself, the statistics hold an entry 0 whose
/// number of tasks is the number of task statistics.
pub proof fn lemma_total_counts_every_task(
    projects: Option<Seq<ProjectView>>,
    rows: Seq<StatRowView>,
    now: int,
)
    requires
        forall|j: int| 0 <= j < rows.len() ==> (#[trigger] rows[j]).task.project_id != 0,
    ensures
        project_stats(projects, rows).contains_key(0),
        project_stats(projects, rows)[0].total_tasks == task_stats(rows, now).len(),
{
    let outs = outcomes(rows, 0);
    assert forall|k: int| 0 <= k < outs.len() implies (#[trigger] outs[k]).task.project_id
        != 0 by {
        lemma_outcomes_come_from_rows(rows, k);
    }
    lemma_total_counts(seed_entry(projects, 0), outs);
}

/// Without rows, every entry is as before any task is counted, the entry 0 too.
pub proof fn lemma_no_rows(projects: Option<Seq<ProjectView>>, p: i32)
    requires
        has_entry(projects, p),
    ensures
        task_stats(Seq::empty(), 0).len() == 0,
        project_stats(projects, Seq::empty())[p] == seed_entry(projects, p),
        totals_of(project_stats(projects, Seq::empty())[p]) == no_totals(),
{
}

} // verus!
