use workflow::listing::{
    app_table, grouped_rows, log_line, log_table, no_tasks_message, project_apps_header,
    project_tasks_header, task_table, AppUse, ColoredRow, ProjectItem, RowColor,
};
use workflow::records::{App, Log, Task};
use workflow::time::Timestamp;

fn texts(cells: &[&str]) -> Vec<String> {
    cells.iter().map(|c| c.to_string()).collect()
}

fn item(project_id: i32, item: Option<(i32, &str)>) -> ProjectItem {
    ProjectItem {
        project_id,
        project_name: format!("p{}", project_id),
        item_id: item.map(|i| i.0),
        item_name: item.map(|i| i.1.to_string()),
    }
}

fn line(cells: &[&str], color: RowColor) -> ColoredRow {
    ColoredRow { cells: texts(cells), color }
}

#[test]
fn items_grouped_by_project() {
    let items = vec![
        item(1, Some((10, "vim"))),
        item(1, Some((11, "git"))),
        item(2, None),
        item(5, Some((10, "vim"))),
    ];
    assert_eq!(
        grouped_rows(&items),
        vec![
            line(&["1", "p1", "10", "vim"], RowColor::DarkGreen),
            line(&["1", "p1", "11", "git"], RowColor::DarkGreen),
            line(&["total", "total", "total", "2"], RowColor::DarkGreen),
            line(&["2", "p2", "null", "null"], RowColor::DarkCyan),
            line(&["total", "total", "total", "0"], RowColor::DarkCyan),
            line(&["5", "p5", "10", "vim"], RowColor::DarkGreen),
            line(&["total", "total", "total", "1"], RowColor::DarkGreen),
        ]
    );
}

#[test]
fn no_items_leave_the_closing_row() {
    assert_eq!(grouped_rows(&vec![]), vec![line(&["total", "total", "total", "0"], RowColor::DarkCyan)]);
}

#[test]
fn project_zero_starts_no_group_and_is_not_closed() {
    let items = vec![item(0, Some((1, "a"))), item(3, Some((2, "b"))), item(0, Some((3, "c")))];
    assert_eq!(
        grouped_rows(&items),
        vec![
            line(&["0", "p0", "1", "a"], RowColor::DarkCyan),
            line(&["3", "p3", "2", "b"], RowColor::DarkGreen),
            line(&["total", "total", "total", "1"], RowColor::DarkGreen),
            line(&["0", "p0", "3", "c"], RowColor::DarkCyan),
            line(&["total", "total", "total", "1"], RowColor::DarkCyan),
        ]
    );
}

#[test]
fn an_item_with_an_id_and_no_name_does_not_count() {
    let mut odd = item(4, None);
    odd.item_id = Some(9);
    assert_eq!(
        grouped_rows(&vec![odd]),
        vec![
            line(&["4", "p4", "9", "null"], RowColor::DarkGreen),
            line(&["total", "total", "total", "0"], RowColor::DarkGreen),
        ]
    );
}

#[test]
fn headers_of_the_project_lists() {
    assert_eq!(project_apps_header(), texts(&["project_id", "project_name", "app_id", "app_name"]));
    assert_eq!(project_tasks_header(), texts(&["project_id", "project_name", "task_id", "task_name"]));
}

#[test]
fn message_without_tasks() {
    assert_eq!(no_tasks_message(&None), "No tasks in these projects!");
    assert_eq!(no_tasks_message(&Some(vec![1])), "No tasks in these projects!");
    assert_eq!(no_tasks_message(&Some(vec![])), "No tasks in this project!");
}

#[test]
fn tasks_as_a_table() {
    let tasks = vec![
        Task { task_id: 1, project_id: 2, task_name: "write".to_string(), username: "ann".to_string(), planned_time: None },
        Task { task_id: -3, project_id: 4, task_name: "read".to_string(), username: "bob".to_string(), planned_time: Some("0:1:0".to_string()) },
    ];
    let table = task_table(&tasks);
    assert_eq!(table.header, texts(&["task_id", "project_id", "task_name", "user", "planned_time"]));
    assert_eq!(
        table.rows,
        vec![texts(&["1", "2", "write", "ann", "null"]), texts(&["-3", "4", "read", "bob", "0:1:0"])]
    );
    assert!(task_table(&vec![]).rows.is_empty());
}

#[test]
fn apps_as_a_table() {
    let apps = vec![
        AppUse { app: App { app_id: 1, app_name: "vim".to_string() }, projects: Some(3) },
        AppUse { app: App { app_id: 2, app_name: "git".to_string() }, projects: None },
    ];
    let table = app_table(&apps);
    assert_eq!(table.header, texts(&["app_id", "app_name", "used in projects"]));
    assert_eq!(table.rows, vec![texts(&["1", "vim", "3"]), texts(&["2", "git", "0"])]);
}

#[test]
fn logs_as_a_table() {
    let log = |log_id: i32, code: &str, micros: i64| Log {
        log_id,
        task_id: 7,
        log_type: code.to_string(),
        date: Timestamp { micros },
    };
    let logs = vec![log(1, "B", 0), log(2, "E", 1_700_000_000_123_456), log(3, "P", -1)];
    let table = log_table(&logs).unwrap();
    assert_eq!(table.header, texts(&["log_id", "task_id", "log_type", "date"]));
    assert_eq!(
        table.rows,
        vec![
            texts(&["1", "7", "B", "1970-01-01 00:00:00"]),
            texts(&["2", "7", "E", "2023-11-14 22:13:20"]),
            texts(&["3", "7", "P", "1969-12-31 23:59:59"]),
        ]
    );
    assert_eq!(log_table(&vec![]).unwrap().rows.len(), 0);
    assert_eq!(log_table(&vec![log(1, "B", 0), log(2, "B", i64::MAX)]), None);
    assert_eq!(log_line(&logs[0], "then"), texts(&["1", "7", "B", "then"]));
}
