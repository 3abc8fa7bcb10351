//! The stored records that statistics are computed from.

use crate::time::Timestamp;
use vstd::prelude::*;

verus! {

/// A project: a named group of tasks.
#[derive(Debug, PartialEq, Eq)]
pub struct Project {
    pub project_id: i32,
    pub project_name: String,
    pub username: String,
    /// Planned duration as free text, `days:hours:minutes`.
    pub planned_time: Option<String>,
}

/// What a [`Project`] holds, with its texts as sequences of characters.
pub ghost struct ProjectView {
    pub project_id: i32,
    pub project_name: Seq<char>,
    pub username: Seq<char>,
    pub planned_time: Option<Seq<char>>,
}

impl View for Project {
    type V = ProjectView;

    open spec fn view(&self) -> ProjectView {
        ProjectView {
            project_id: self.project_id,
            project_name: self.project_name@,
            username: self.username@,
            planned_time: self.planned_time.deep_view(),
        }
    }
}

impl DeepView for Project {
    type V = ProjectView;

    open spec fn deep_view(&self) -> ProjectView {
        self@
    }
}

impl Clone for Project {
    fn clone(&self) -> (copy: Self)
        ensures
            copy@ == self@,
    {
        Project {
            project_id: self.project_id,
            project_name: self.project_name.clone(),
            username: self.username.clone(),
            planned_time: clone_text(&self.planned_time),
        }
    }
}

/// A unit of tracked work inside a project.
#[derive(Debug, PartialEq, Eq)]
pub struct Task {
    pub task_id: i32,
    pub project_id: i32,
    pub task_name: String,
    pub username: String,
    /// Planned duration as free text, `days:hours:minutes`.
    pub planned_time: Option<String>,
}

/// What a [`Task`] holds, with its texts as sequences of characters.
pub ghost struct TaskView {
    pub task_id: i32,
    pub project_id: i32,
    pub task_name: Seq<char>,
    pub username: Seq<char>,
    pub planned_time: Option<Seq<char>>,
}

impl View for Task {
    type V = TaskView;

    open spec fn view(&self) -> TaskView {
        TaskView {
            task_id: self.task_id,
            project_id: self.project_id,
            task_name: self.task_name@,
            username: self.username@,
            planned_time: self.planned_time.deep_view(),
        }
    }
}

impl DeepView for Task {
    type V = TaskView;

    open spec fn deep_view(&self) -> TaskView {
        self@
    }
}

impl Clone for Task {
    fn clone(&self) -> (copy: Self)
        ensures
            copy@ == self@,
    {
        Task {
            task_id: self.task_id,
            project_id: self.project_id,
            task_name: self.task_name.clone(),
            username: self.username.clone(),
            planned_time: clone_text(&self.planned_time),
        }
    }
}

/// The kind of a logged event.
#[derive(Clone, Copy, Debug, PartialEq, Eq, Structural)]
pub enum EventKind {
    Begin,
    Pause,
    Resume,
    End,
}

/// An app: a tool that projects use.
#[derive(Debug, PartialEq, Eq)]
pub struct App {
    pub app_id: i32,
    pub app_name: String,
}

/// What an [`App`] holds.
pub ghost struct AppView {
    pub app_id: i32,
    pub app_name: Seq<char>,
}

impl View for App {
    type V = AppView;

    open spec fn view(&self) -> AppView {
        AppView { app_id: self.app_id, app_name: self.app_name@ }
    }
}

impl DeepView for App {
    type V = AppView;

    open spec fn deep_view(&self) -> AppView {
        self@
    }
}

/// That a project uses an app.
#[derive(Clone, Copy, Debug, PartialEq, Eq, Structural)]
pub struct ProjectApp {
    pub id: i32,
    pub project_id: i32,
    pub app_id: i32,
}

/// A logged event as it is stored: the task it belongs to, the code of its kind and its
/// time.
#[derive(Debug, PartialEq, Eq)]
pub struct Log {
    pub log_id: i32,
    pub task_id: i32,
    pub log_type: String,
    pub date: Timestamp,
}

/// What a [`Log`] holds.
pub ghost struct LogView {
    pub log_id: i32,
    pub task_id: i32,
    pub log_type: Seq<char>,
    pub date: int,
}

impl View for Log {
    type V = LogView;

    open spec fn view(&self) -> LogView {
        LogView {
            log_id: self.log_id,
            task_id: self.task_id,
            log_type: self.log_type@,
            date: self.date@,
        }
    }
}

impl DeepView for Log {
    type V = LogView;

    open spec fn deep_view(&self) -> LogView {
        self@
    }
}

impl Clone for Log {
    fn clone(&self) -> (copy: Self)
        ensures
            copy@ == self@,
    {
        Log {
            log_id: self.log_id,
            task_id: self.task_id,
            log_type: self.log_type.clone(),
            date: self.date,
        }
    }
}

/// A copy of an optional text.
pub fn clone_text(text: &Option<String>) -> (copy: Option<String>)
    ensures
        copy.deep_view() == text.deep_view(),
{
    match text {
        Some(s) => Some(s.clone()),
        None => None,
    }
}

} // verus!
