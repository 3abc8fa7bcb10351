use std::collections::HashMap;
use workflow::records::EventKind::{Begin, End, Pause, Resume};
use workflow::records::{EventKind, Project, Task};
use workflow::stats::{
    checked_stats_map, get_stats_map, input_fits, ProjectStats, StatRow, TaskStats,
};
use workflow::time::{Duration, Timestamp};

const SECOND: i64 = 1_000_000;
const MINUTE: i64 = 60 * SECOND;

fn task(task_id: i32, project_id: i32) -> Task {
    Task {
        task_id,
        project_id,
        task_name: format!("task{}", task_id),
        username: "ann".to_string(),
        planned_time: None,
    }
}

fn project(project_id: i32) -> Project {
    Project {
        project_id,
        project_name: format!("project{}", project_id),
        username: "ann".to_string(),
        planned_time: Some("0:1:0".to_string()),
    }
}

fn row(task_id: i32, project_id: i32, log_id: i32, kind: EventKind, at: i64) -> StatRow {
    StatRow {
        task: task(task_id, project_id),
        log_id: Some(log_id),
        kind: Some(kind),
        at: Some(Timestamp { micros: at }),
    }
}

fn bare(task_id: i32, project_id: i32) -> StatRow {
    StatRow { task: task(task_id, project_id), log_id: None, kind: None, at: None }
}

fn span(micros: i64) -> Duration {
    Duration { micros: micros as i128 }
}

fn run(projects: Vec<Project>, rows: Vec<StatRow>, now: i64) -> (HashMap<i32, ProjectStats>, Vec<TaskStats>) {
    get_stats_map(Some(projects), &rows, Timestamp { micros: now })
}

#[test]
fn begin_pause_resume_end() {
    let t0 = 1_000 * MINUTE;
    let (t1, t2, t3) = (t0 + 10 * MINUTE, t0 + 15 * MINUTE, t0 + 45 * MINUTE);
    let rows = vec![
        row(1, 1, 1, EventKind::Begin, t0),
        row(1, 1, 2, EventKind::Pause, t1),
        row(1, 1, 3, EventKind::Resume, t2),
        row(1, 1, 4, EventKind::End, t3),
    ];
    let (projects, tasks) = run(vec![project(1)], rows, t3 + MINUTE);
    assert_eq!(tasks.len(), 1);
    let t = &tasks[0];
    assert_eq!(t.task_id, 1);
    assert_eq!(t.project_id, 1);
    assert_eq!(t.task_name, "task1");
    assert_eq!(t.username, "ann");
    assert_eq!(t.planned_time, None);
    assert_eq!(t.total_worked, span((t1 - t0) + (t3 - t2)));
    assert_eq!(t.total_worked, span(40 * MINUTE));
    assert_eq!(t.pause_num, 1);
    assert_eq!(t.longest_pause, span(t2 - t1));
    assert_eq!(t.longest_work, span(30 * MINUTE));
    assert_eq!(t.total_time, span(t3 - t0));
    assert_eq!(t.since_last_log, span(MINUTE));
    let p = &projects[&1];
    assert_eq!(p.total_tasks, 1);
    assert_eq!(p.completed_tasks, 1);
    assert_eq!(p.total_worked, span(40 * MINUTE));
    assert_eq!(p.total_time, span(45 * MINUTE));
    assert_eq!(p.pause_num, 1);
    assert_eq!(p.longest_pause, span(5 * MINUTE));
    assert_eq!(p.longest_work, span(30 * MINUTE));
}

#[test]
fn only_begin_gives_zeros() {
    let t0 = 77 * MINUTE;
    let (projects, tasks) = run(vec![project(1)], vec![row(1, 1, 1, EventKind::Begin, t0)], t0);
    assert_eq!(tasks.len(), 1);
    let t = &tasks[0];
    assert_eq!(t.total_time, span(0));
    assert_eq!(t.total_worked, span(0));
    assert_eq!(t.pause_num, 0);
    assert_eq!(t.longest_pause, span(0));
    assert_eq!(t.longest_work, span(0));
    assert_eq!(t.since_last_log, span(0));
    assert_eq!(projects[&1].total_tasks, 1);
    assert_eq!(projects[&1].completed_tasks, 0);
    assert_eq!(projects[&0].total_tasks, 1);
}

#[test]
fn task_without_events_appears_with_zeros() {
    let now = 5 * MINUTE;
    let (projects, tasks) = run(vec![project(3)], vec![bare(9, 3)], now);
    assert_eq!(tasks.len(), 1);
    let t = &tasks[0];
    assert_eq!(t.task_id, 9);
    assert_eq!(t.total_time, span(0));
    assert_eq!(t.total_worked, span(0));
    assert_eq!(t.pause_num, 0);
    assert_eq!(t.since_last_log, span(now));
    let p = &projects[&3];
    assert_eq!(p.total_tasks, 1);
    assert_eq!(p.completed_tasks, 0);
    assert_eq!(p.total_time, span(0));
}

#[test]
fn end_after_pause_counts_as_pause_time() {
    let rows = vec![
        row(1, 1, 1, EventKind::Begin, 0),
        row(1, 1, 2, EventKind::Pause, 10 * MINUTE),
        row(1, 1, 3, EventKind::End, 40 * MINUTE),
    ];
    let (_, tasks) = run(vec![project(1)], rows, 40 * MINUTE);
    let t = &tasks[0];
    assert_eq!(t.total_worked, span(10 * MINUTE));
    assert_eq!(t.longest_work, span(10 * MINUTE));
    assert_eq!(t.longest_pause, span(30 * MINUTE));
    assert_eq!(t.pause_num, 1);
    assert_eq!(t.total_time, span(40 * MINUTE));
}

#[test]
fn end_after_work_counts_as_work_time() {
    let rows = vec![
        row(1, 1, 1, EventKind::Begin, 0),
        row(1, 1, 2, EventKind::End, 25 * MINUTE),
    ];
    let (projects, tasks) = run(vec![project(1)], rows, 25 * MINUTE);
    let t = &tasks[0];
    assert_eq!(t.total_worked, span(25 * MINUTE));
    assert_eq!(t.longest_work, span(25 * MINUTE));
    assert_eq!(t.longest_pause, span(0));
    assert_eq!(t.pause_num, 0);
    assert_eq!(projects[&1].completed_tasks, 1);
    assert_eq!(projects[&0].completed_tasks, 1);
}

#[test]
fn resume_right_after_begin_adds_to_total_time_only() {
    let rows = vec![
        row(1, 1, 1, EventKind::Begin, 0),
        row(1, 1, 2, EventKind::Begin, 5 * MINUTE),
        row(1, 1, 3, EventKind::Pause, 8 * MINUTE),
        row(1, 1, 4, EventKind::Pause, 9 * MINUTE),
    ];
    let (_, tasks) = run(vec![project(1)], rows, 9 * MINUTE);
    let t = &tasks[0];
    assert_eq!(t.total_time, span(9 * MINUTE));
    assert_eq!(t.total_worked, span(4 * MINUTE));
    assert_eq!(t.pause_num, 2);
    assert_eq!(t.longest_work, span(3 * MINUTE));
    let rows = vec![
        row(2, 1, 1, EventKind::Begin, 0),
        row(2, 1, 2, EventKind::Resume, 7 * MINUTE),
    ];
    let (_, tasks) = run(vec![project(1)], rows, 9 * MINUTE);
    let t = &tasks[0];
    assert_eq!(t.total_time, span(7 * MINUTE));
    assert_eq!(t.total_worked, span(0));
    assert_eq!(t.longest_pause, span(7 * MINUTE));
    assert_eq!(t.pause_num, 0);
}

#[test]
fn several_tasks_and_projects() {
    let rows = vec![
        row(1, 1, 1, EventKind::Begin, 0),
        row(1, 1, 2, EventKind::Pause, 10 * MINUTE),
        row(1, 1, 3, EventKind::Resume, 30 * MINUTE),
        row(1, 1, 4, EventKind::End, 35 * MINUTE),
        row(2, 1, 5, EventKind::Begin, 100 * MINUTE),
        row(2, 1, 6, EventKind::Pause, 160 * MINUTE),
        bare(3, 2),
        row(4, 2, 7, EventKind::Begin, 200 * MINUTE),
        row(4, 2, 8, EventKind::End, 201 * MINUTE),
        row(5, 2, 9, EventKind::Begin, 300 * MINUTE),
    ];
    let now = 400 * MINUTE;
    let (projects, tasks) = run(vec![project(1), project(2), project(7)], rows, now);
    assert_eq!(tasks.iter().map(|t| t.task_id).collect::<Vec<_>>(), vec![1, 2, 3, 4, 5]);
    assert_eq!(tasks[0].total_worked, span(15 * MINUTE));
    assert_eq!(tasks[1].total_worked, span(60 * MINUTE));
    assert_eq!(tasks[1].pause_num, 1);
    assert_eq!(tasks[2].total_worked, span(0));
    assert_eq!(tasks[3].total_worked, span(MINUTE));
    assert_eq!(tasks[4].total_time, span(0));
    assert_eq!(tasks[4].since_last_log, span(100 * MINUTE));
    assert_eq!(tasks[4].task_name, "task5");

    let mut keys: Vec<i32> = projects.keys().copied().collect();
    keys.sort();
    assert_eq!(keys, vec![0, 1, 2, 7]);
    let one = &projects[&1];
    assert_eq!(one.project_name, "project1");
    assert_eq!(one.planned_time, Some("0:1:0".to_string()));
    assert_eq!(one.total_tasks, 2);
    assert_eq!(one.completed_tasks, 1);
    assert_eq!(one.total_time, span(95 * MINUTE));
    assert_eq!(one.total_worked, span(75 * MINUTE));
    assert_eq!(one.pause_num, 2);
    assert_eq!(one.longest_pause, span(20 * MINUTE));
    assert_eq!(one.longest_work, span(60 * MINUTE));
    let two = &projects[&2];
    assert_eq!(two.total_tasks, 3);
    assert_eq!(two.completed_tasks, 1);
    assert_eq!(two.total_worked, span(MINUTE));
    assert_eq!(two.longest_work, span(MINUTE));
    let total = &projects[&0];
    assert_eq!(total.project_id, 0);
    assert_eq!(total.project_name, "null");
    assert_eq!(total.username, "null");
    assert_eq!(total.planned_time, Some("null".to_string()));
    assert_eq!(total.total_tasks, one.total_tasks + two.total_tasks);
    assert_eq!(total.completed_tasks, one.completed_tasks + two.completed_tasks);
    assert_eq!(total.total_time.micros, one.total_time.micros + two.total_time.micros);
    assert_eq!(total.total_worked.micros, one.total_worked.micros + two.total_worked.micros);
    assert_eq!(total.pause_num, one.pause_num + two.pause_num);
    assert_eq!(total.longest_pause, span(20 * MINUTE));
    assert_eq!(total.longest_work, span(60 * MINUTE));
}

#[test]
fn project_without_tasks_has_a_zero_entry() {
    let rows = vec![row(1, 1, 1, EventKind::Begin, 0), row(1, 1, 2, EventKind::End, MINUTE)];
    let (projects, _) = run(vec![project(1), project(7)], rows, MINUTE);
    let idle = &projects[&7];
    assert_eq!(
        *idle,
        ProjectStats {
            project_id: 7,
            project_name: "project7".to_string(),
            username: "ann".to_string(),
            planned_time: Some("0:1:0".to_string()),
            total_time: span(0),
            total_worked: span(0),
            pause_num: 0,
            longest_pause: span(0),
            longest_work: span(0),
            total_tasks: 0,
            completed_tasks: 0,
        }
    );
}

#[test]
fn no_rows_give_no_tasks_and_zero_entries() {
    let (projects, tasks) = run(vec![project(1)], vec![], 0);
    assert!(tasks.is_empty());
    assert_eq!(projects.len(), 2);
    assert_eq!(projects[&0].total_tasks, 0);
    assert_eq!(projects[&1].total_tasks, 0);
    let (projects, tasks) = get_stats_map(None, &vec![], Timestamp { micros: 0 });
    assert!(tasks.is_empty());
    assert_eq!(projects.len(), 1);
    assert_eq!(projects[&0].project_name, "null");
}

#[test]
fn the_last_of_projects_with_one_id_names_the_entry() {
    let mut second = project(1);
    second.project_name = "renamed".to_string();
    let (projects, _) = run(vec![project(1), second], vec![], 0);
    assert_eq!(projects[&1].project_name, "renamed");
    let mut zero = project(0);
    zero.project_name = "zero".to_string();
    let (projects, _) = run(vec![zero], vec![], 0);
    assert_eq!(projects[&0].project_name, "null");
}

#[test]
fn task_under_project_zero_counts_twice_in_the_totals() {
    let rows = vec![row(1, 0, 1, EventKind::Begin, 0), row(1, 0, 2, EventKind::End, MINUTE)];
    let (projects, tasks) = run(vec![], rows, MINUTE);
    assert_eq!(tasks.len(), 1);
    assert_eq!(projects[&0].total_tasks, 2);
    assert_eq!(projects[&0].total_worked, span(2 * MINUTE));
    assert_eq!(projects[&0].longest_work, span(MINUTE));
}

#[test]
fn rows_of_a_task_that_stand_apart_form_two_runs() {
    let rows = vec![
        row(1, 1, 1, EventKind::Begin, 0),
        row(2, 1, 2, EventKind::Begin, MINUTE),
        row(1, 1, 3, EventKind::End, 2 * MINUTE),
    ];
    let (projects, tasks) = run(vec![project(1)], rows, 2 * MINUTE);
    assert_eq!(tasks.iter().map(|t| t.task_id).collect::<Vec<_>>(), vec![1, 2, 1]);
    assert_eq!(tasks[2].total_time, span(0));
    assert_eq!(projects[&1].total_tasks, 3);
    assert_eq!(projects[&1].completed_tasks, 1);
}

#[test]
fn times_out_of_order_give_negative_spans() {
    let rows = vec![
        row(1, 1, 1, EventKind::Begin, 10 * MINUTE),
        row(1, 1, 2, EventKind::Pause, 4 * MINUTE),
    ];
    let (_, tasks) = run(vec![project(1)], rows, 0);
    assert_eq!(tasks[0].total_time, span(-6 * MINUTE));
    assert_eq!(tasks[0].total_worked, span(-6 * MINUTE));
    assert_eq!(tasks[0].longest_work, span(0));
    assert_eq!(tasks[0].since_last_log, span(-4 * MINUTE));
}

#[test]
fn extreme_times_do_not_overflow() {
    let rows = vec![
        row(1, 1, 1, EventKind::Begin, i64::MIN),
        row(1, 1, 2, EventKind::Pause, i64::MAX),
    ];
    let (projects, tasks) = run(vec![project(1)], rows, i64::MIN);
    let whole = i64::MAX as i128 - i64::MIN as i128;
    assert_eq!(tasks[0].total_time.micros, whole);
    assert_eq!(tasks[0].total_worked.micros, whole);
    assert_eq!(tasks[0].since_last_log.micros, -whole);
    assert_eq!(projects[&0].total_worked.micros, whole);
}

#[test]
fn running_twice_gives_the_same() {
    let rows = || {
        vec![
            row(1, 1, 1, EventKind::Begin, 0),
            row(1, 1, 2, EventKind::Pause, 10 * MINUTE),
            bare(2, 2),
        ]
    };
    let first = run(vec![project(1), project(2)], rows(), 11 * MINUTE);
    let second = run(vec![project(1), project(2)], rows(), 11 * MINUTE);
    assert_eq!(first, second);
}

#[test]
fn input_fits_tells_unknown_projects() {
    let rows = vec![bare(1, 1), bare(2, 2)];
    assert!(input_fits(&Some(vec![project(1), project(2)]), &rows));
    assert!(input_fits(&Some(vec![project(2), project(1), project(1)]), &rows));
    assert!(!input_fits(&Some(vec![project(1)]), &rows));
    assert!(!input_fits(&None, &rows));
    assert!(input_fits(&None, &vec![bare(1, 0)]));
    assert!(input_fits(&None, &vec![]));
}

fn life(kinds: &[EventKind], minutes: &[i64]) -> Vec<StatRow> {
    kinds.iter().zip(minutes).enumerate().map(|(i, (k, m))| row(1, 1, i as i32, *k, m * MINUTE)).collect()
}

#[test]
fn total_time_is_last_less_first_whatever_lies_between() {
    let lives: Vec<(Vec<EventKind>, Vec<i64>)> = vec![
        (vec![Begin], vec![3]),
        (vec![Begin, Pause], vec![3, 9]),
        (vec![Begin, Pause, Resume, Pause, Resume, End], vec![0, 4, 8, 15, 16, 23]),
        (vec![Begin, Resume, Resume, Begin, End, End], vec![5, 6, 20, 21, 22, 90]),
        (vec![End, Pause, Begin], vec![50, 40, 10]),
    ];
    for (kinds, minutes) in lives {
        let (_, tasks) = run(vec![project(1)], life(&kinds, &minutes), 0);
        assert_eq!(tasks.len(), 1);
        assert_eq!(tasks[0].total_time, span((minutes[minutes.len() - 1] - minutes[0]) * MINUTE));
    }
}

#[test]
fn pauses_are_resumes_and_one_more_where_left_paused() {
    let lives: Vec<(Vec<EventKind>, u64)> = vec![
        (vec![Begin], 0),
        (vec![Begin, End], 0),
        (vec![Begin, Pause], 1),
        (vec![Begin, Pause, End], 1),
        (vec![Begin, Pause, Resume], 1),
        (vec![Begin, Pause, Resume, End], 1),
        (vec![Begin, Pause, Resume, Pause], 2),
        (vec![Begin, Pause, Resume, Pause, End], 2),
        (vec![Begin, Pause, Resume, Pause, Resume, End], 2),
    ];
    for (kinds, expected) in lives {
        let minutes: Vec<i64> = (0..kinds.len() as i64).collect();
        let (_, tasks) = run(vec![project(1)], life(&kinds, &minutes), 0);
        let resumes = kinds.iter().filter(|k| **k == Resume).count() as u64;
        let n = kinds.len();
        let left_paused = kinds[n - 1] == Pause || (n >= 2 && kinds[n - 1] == End && kinds[n - 2] == Pause);
        assert_eq!(tasks[0].pause_num, expected);
        assert_eq!(tasks[0].pause_num, resumes + left_paused as u64);
    }
}

#[test]
fn rows_at_the_limit_of_the_input_are_told() {
    assert_eq!(workflow::stats::MAX_ROWS, (1u64 << 61) - 1);
}

#[test]
fn checked_statistics() {
    let rows = vec![row(1, 1, 1, Begin, 0), row(1, 1, 2, End, MINUTE), bare(2, 2)];
    let now = Timestamp { micros: 5 * MINUTE };
    assert_eq!(checked_stats_map(Some(vec![project(1)]), &rows, now), None);
    assert_eq!(checked_stats_map(None, &rows, now), None);
    let found = checked_stats_map(Some(vec![project(1), project(2)]), &rows, now);
    assert_eq!(found, Some(get_stats_map(Some(vec![project(1), project(2)]), &rows, now)));
    let (projects, tasks) = found.unwrap();
    assert_eq!(tasks.len(), 2);
    assert_eq!(projects[&0].total_worked, span(MINUTE));
}
