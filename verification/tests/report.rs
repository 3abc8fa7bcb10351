use std::collections::HashMap;
use workflow::records::{EventKind, Project, Task};
use workflow::report::{
    current_stats_report, header, project_line, stats_report, stats_table, task_line, PrintMode,
    TextTable,
};
use workflow::stats::{get_stats_map, ProjectStats, StatRow, TaskStats};
use workflow::text::{to_decimal, to_two_digits};
use workflow::time::{clock_text, span_text, Duration, Timestamp};

const SECOND: i128 = 1_000_000;
const MINUTE: i128 = 60 * SECOND;
const HOUR: i128 = 60 * MINUTE;
const DAY: i128 = 24 * HOUR;

fn span(micros: i128) -> Duration {
    Duration { micros }
}

fn texts(cells: &[&str]) -> Vec<String> {
    cells.iter().map(|c| c.to_string()).collect()
}

fn task_stats(task_id: i32, project_id: i32) -> TaskStats {
    TaskStats {
        task_id,
        project_id,
        task_name: format!("task{}", task_id),
        username: "ann".to_string(),
        planned_time: None,
        total_time: span(DAY + 2 * HOUR + 3 * MINUTE),
        total_worked: span(2 * HOUR),
        pause_num: 4,
        longest_pause: span(59 * SECOND),
        longest_work: span(61 * MINUTE),
        since_last_log: span(3 * DAY + 5 * HOUR + 7 * MINUTE),
    }
}

fn project_stats(project_id: i32) -> ProjectStats {
    ProjectStats {
        project_id,
        project_name: format!("project{}", project_id),
        username: "bob".to_string(),
        planned_time: Some("1:0:0".to_string()),
        total_time: span(2 * DAY),
        total_worked: span(26 * HOUR + 30 * MINUTE),
        pause_num: 12,
        longest_pause: span(0),
        longest_work: span(100 * DAY),
        total_tasks: 3,
        completed_tasks: 2,
    }
}

fn entries(ids: &[i32]) -> HashMap<i32, ProjectStats> {
    ids.iter().map(|id| (*id, project_stats(*id))).collect()
}

#[test]
fn numbers_in_decimal() {
    assert_eq!(to_decimal(0), "0");
    assert_eq!(to_decimal(7), "7");
    assert_eq!(to_decimal(10), "10");
    assert_eq!(to_decimal(1234567890), "1234567890");
    assert_eq!(to_decimal(-1), "-1");
    assert_eq!(to_decimal(-905), "-905");
    assert_eq!(to_decimal(i128::MAX), i128::MAX.to_string());
    assert_eq!(to_decimal(i128::MIN), i128::MIN.to_string());
    assert_eq!(to_decimal(i32::MIN as i128), i32::MIN.to_string());
}

#[test]
fn two_digits_fill_with_a_zero() {
    for n in [-100i128, -10, -9, -1, 0, 1, 9, 10, 11, 99, 100, 12345] {
        assert_eq!(to_two_digits(n), format!("{:02}", n));
    }
    assert_eq!(to_two_digits(5), "05");
    assert_eq!(to_two_digits(-5), "-5");
}

#[test]
fn spans_as_clock_text() {
    assert_eq!(span_text(&span(0)), "00:00:00");
    assert_eq!(span_text(&span(59 * SECOND + 999_999)), "00:00:00");
    assert_eq!(span_text(&span(MINUTE)), "00:00:01");
    assert_eq!(span_text(&span(DAY + 2 * HOUR + 3 * MINUTE + 4 * SECOND)), "01:02:03");
    assert_eq!(span_text(&span(123 * DAY + 23 * HOUR + 59 * MINUTE)), "123:23:59");
    assert_eq!(span_text(&span(-90 * MINUTE)), "00:-1:-30");
    assert_eq!(span_text(&span(-(DAY + HOUR + MINUTE))), "-1:-1:-1");
    assert_eq!(span_text(&span(-1)), "00:00:00");
    assert_eq!(clock_text(1, 2, 3), "01:02:03");
    assert_eq!(clock_text(0, -12, 100), "00:-12:100");
}

#[test]
fn span_parts_round_towards_zero() {
    let d = span(DAY + 2 * HOUR + 3 * MINUTE + 4 * SECOND + 5);
    assert_eq!(d.num_seconds(), 93_784);
    assert_eq!(d.num_minutes(), 1_563);
    assert_eq!(d.num_hours(), 26);
    assert_eq!(d.num_days(), 1);
    let d = span(-(DAY + 2 * HOUR + 3 * MINUTE + 4 * SECOND + 5));
    assert_eq!(d.num_seconds(), -93_784);
    assert_eq!(d.num_minutes(), -1_563);
    assert_eq!(d.num_hours(), -26);
    assert_eq!(d.num_days(), -1);
    assert_eq!(span(-999_999).num_seconds(), 0);
    assert_eq!(span(i128::MIN).num_seconds(), i128::MIN / 1_000_000);
    assert_eq!(span(i128::MAX).num_days(), i128::MAX / 1_000_000 / 86_400);
}

#[test]
fn spans_agree_with_chrono() {
    for micros in [0i64, 1, 999_999, 1_000_000, -1, -999_999, -1_000_000, 86_399_999_999, 86_400_000_000, -86_400_000_001, 7_777_777_777_777, -7_777_777_777_777] {
        let theirs = chrono::TimeDelta::microseconds(micros);
        let ours = span(micros as i128);
        assert_eq!(ours.num_seconds(), theirs.num_seconds() as i128);
        assert_eq!(ours.num_minutes(), theirs.num_minutes() as i128);
        assert_eq!(ours.num_hours(), theirs.num_hours() as i128);
        assert_eq!(ours.num_days(), theirs.num_days() as i128);
        let expected = format!(
            "{:02}:{:02}:{:02}",
            theirs.num_days(),
            theirs.num_hours() - 24 * theirs.num_days(),
            theirs.num_minutes() - theirs.num_hours() * 60
        );
        assert_eq!(span_text(&ours), expected);
    }
}

#[test]
fn headers_by_mode() {
    let tasks = texts(&[
        "task_id", "project_id", "task_name", "user", "planned_time", "total time",
        "total worked", "pause num", "longest pause", "longest work",
    ]);
    assert_eq!(header(PrintMode::All), tasks);
    assert_eq!(header(PrintMode::Appearing), tasks);
    let mut concrete = tasks.clone();
    concrete.push("since_last_log".to_string());
    assert_eq!(header(PrintMode::ConcreteTasks), concrete);
    assert_eq!(
        header(PrintMode::Project),
        texts(&[
            "project_id", "project_name", "user", "total tasks", "completed tasks",
            "planned_time", "total_worked",
        ])
    );
}

#[test]
fn task_lines() {
    let t = task_stats(5, 2);
    assert_eq!(
        task_line(&t, false),
        texts(&["5", "2", "task5", "ann", "null", "01:02:03", "00:02:00", "4", "00:00:00", "00:01:01"])
    );
    assert_eq!(
        task_line(&t, true),
        texts(&[
            "5", "2", "task5", "ann", "null", "01:02:03", "00:02:00", "4", "00:00:00",
            "00:01:01", "03:77:4567",
        ])
    );
    let mut planned = task_stats(1, 1);
    planned.planned_time = Some("0:2:0".to_string());
    assert_eq!(task_line(&planned, false)[4], "0:2:0");
}

#[test]
fn project_lines() {
    assert_eq!(
        project_line(&project_stats(3), false),
        texts(&["total", "3", "project3", "bob", "1:0:0", "02:00:00", "01:02:30", "12", "00:00:00", "100:00:00"])
    );
    assert_eq!(project_line(&project_stats(0), false)[1], "total");
    assert_eq!(project_line(&project_stats(-4), false)[1], "total");
    assert_eq!(
        project_line(&project_stats(3), true),
        texts(&["3", "project3", "bob", "3", "2", "1:0:0", "01:02:30"])
    );
    assert_eq!(project_line(&project_stats(0), true)[0], "total");
    assert_eq!(project_line(&project_stats(-4), true)[0], "-4");
    let mut unplanned = project_stats(1);
    unplanned.planned_time = None;
    assert_eq!(project_line(&unplanned, true)[5], "null");
    assert_eq!(project_line(&unplanned, false)[4], "null");
}

fn first_cells(table: &TextTable, column: usize) -> Vec<String> {
    table.rows.iter().map(|r| r[column].clone()).collect()
}

#[test]
fn all_mode_shows_every_task_then_every_project_with_the_totals_last() {
    let tasks = vec![task_stats(8, 5), task_stats(2, 3)];
    let table = stats_table(&entries(&[5, 0, -2, 3, 11]), &tasks, PrintMode::All, &None);
    assert_eq!(table.header, header(PrintMode::All));
    assert_eq!(table.rows.len(), 7);
    assert_eq!(table.rows[0], task_line(&tasks[0], false));
    assert_eq!(table.rows[1], task_line(&tasks[1], false));
    assert_eq!(table.rows[2], project_line(&project_stats(-2), false));
    assert_eq!(table.rows[3], project_line(&project_stats(3), false));
    assert_eq!(table.rows[4], project_line(&project_stats(5), false));
    assert_eq!(table.rows[5], project_line(&project_stats(11), false));
    assert_eq!(table.rows[6], project_line(&project_stats(0), false));
}

#[test]
fn appearing_mode_shows_the_projects_of_the_tasks() {
    let tasks = vec![task_stats(8, 5), task_stats(2, 3), task_stats(9, 5)];
    let table = stats_table(&entries(&[5, 0, 3, 11]), &tasks, PrintMode::Appearing, &None);
    assert_eq!(table.rows.len(), 5);
    assert_eq!(first_cells(&table, 0), texts(&["8", "2", "9", "total", "total"]));
    assert_eq!(first_cells(&table, 1), texts(&["5", "3", "5", "3", "5"]));
    let table = stats_table(&entries(&[0]), &vec![task_stats(1, 0)], PrintMode::Appearing, &None);
    assert_eq!(first_cells(&table, 1), texts(&["0", "total"]));
}

#[test]
fn project_mode_shows_projects_in_short_and_no_task() {
    let tasks = vec![task_stats(8, 5), task_stats(2, 3)];
    let table = stats_table(&entries(&[5, 0, 3, 11]), &tasks, PrintMode::Project, &None);
    assert_eq!(table.header, header(PrintMode::Project));
    assert_eq!(first_cells(&table, 0), texts(&["3", "5", "total"]));
    assert_eq!(table.rows[0], project_line(&project_stats(3), true));
    let table = stats_table(&entries(&[0, 4]), &vec![], PrintMode::Project, &None);
    assert_eq!(first_cells(&table, 0), texts(&["total"]));
}

#[test]
fn concrete_mode_shows_the_tasks_asked_for() {
    let tasks = vec![task_stats(8, 5), task_stats(2, 3), task_stats(9, 5)];
    let map = entries(&[5, 0, 3]);
    let table = stats_table(&map, &tasks, PrintMode::ConcreteTasks, &Some(vec![9, 8, 77]));
    assert_eq!(table.header, header(PrintMode::ConcreteTasks));
    assert_eq!(table.rows, vec![task_line(&tasks[0], true), task_line(&tasks[2], true)]);
    let table = stats_table(&map, &tasks, PrintMode::ConcreteTasks, &None);
    assert!(table.rows.is_empty());
    let table = stats_table(&map, &tasks, PrintMode::ConcreteTasks, &Some(vec![]));
    assert!(table.rows.is_empty());
}

#[test]
fn report_from_rows() {
    let task = |task_id: i32, project_id: i32| Task {
        task_id,
        project_id,
        task_name: format!("t{}", task_id),
        username: "ann".to_string(),
        planned_time: None,
    };
    let event = |task_id: i32, project_id: i32, kind: EventKind, minute: i64| StatRow {
        task: task(task_id, project_id),
        log_id: Some(1),
        kind: Some(kind),
        at: Some(Timestamp { micros: minute * 60_000_000 }),
    };
    let projects = || {
        vec![
            Project { project_id: 2, project_name: "two".to_string(), username: "ann".to_string(), planned_time: None },
            Project { project_id: 1, project_name: "one".to_string(), username: "ann".to_string(), planned_time: Some("0:3:0".to_string()) },
        ]
    };
    let rows = vec![
        event(1, 1, EventKind::Begin, 0),
        event(1, 1, EventKind::Pause, 90),
        event(1, 1, EventKind::Resume, 100),
        event(1, 1, EventKind::End, 130),
    ];
    let now = Timestamp { micros: 200 * 60_000_000 };
    let table = stats_report(Some(projects()), &rows, now, PrintMode::All, &None);
    assert_eq!(
        table.rows,
        vec![
            texts(&["1", "1", "t1", "ann", "null", "00:02:10", "00:02:00", "1", "00:00:10", "00:01:30"]),
            texts(&["total", "1", "one", "ann", "0:3:0", "00:02:10", "00:02:00", "1", "00:00:10", "00:01:30"]),
            texts(&["total", "2", "two", "ann", "null", "00:00:00", "00:00:00", "0", "00:00:00", "00:00:00"]),
            texts(&["total", "total", "null", "null", "null", "00:02:10", "00:02:00", "1", "00:00:10", "00:01:30"]),
        ]
    );
    let table = stats_report(Some(projects()), &rows, now, PrintMode::Project, &None);
    assert_eq!(
        table.rows,
        vec![
            texts(&["1", "one", "ann", "1", "1", "0:3:0", "00:02:00"]),
            texts(&["total", "null", "null", "1", "1", "null", "00:02:00"]),
        ]
    );
    let table = stats_report(Some(projects()), &rows, now, PrintMode::ConcreteTasks, &Some(vec![1]));
    assert_eq!(table.rows.len(), 1);
    assert_eq!(table.rows[0][10], "00:01:10");
    let (map, tasks) = get_stats_map(Some(projects()), &rows, now);
    assert_eq!(stats_table(&map, &tasks, PrintMode::Appearing, &None).rows.len(), 2);
}

#[test]
fn report_at_the_time_of_the_clock() {
    let task = Task { task_id: 1, project_id: 0, task_name: "t".to_string(), username: "ann".to_string(), planned_time: None };
    let now = chrono::Local::now().naive_local().and_utc().timestamp_micros();
    let rows = vec![StatRow {
        task,
        log_id: Some(1),
        kind: Some(EventKind::Begin),
        at: Some(Timestamp { micros: now - 3 * 24 * 3_600_000_000 - 120_000_000 }),
    }];
    let table = current_stats_report(None, &rows, PrintMode::ConcreteTasks, &Some(vec![1]));
    assert_eq!(table.header, header(PrintMode::ConcreteTasks));
    assert_eq!(table.rows.len(), 1);
    assert_eq!(table.rows[0][10], "03:72:4322");
    let table = current_stats_report(None, &rows, PrintMode::All, &None);
    assert_eq!(table.rows.len(), 2);
    assert_eq!(table.rows[1][1], "total");
}
