//! Time tracking: projects, tasks, logged events and the statistics derived from them.
//!
//! The heart of the library is [`stats`], which turns the joined rows of tasks and their
//! begin, pause, resume and end events into the statistics of each task and each project;
//! [`stats_laws`] states what holds of them for every input. [`report`] and [`listing`]
//! lay statistics and records out as tables of text, [`order`] puts projects in the order
//! in which they are shown. [`logging`] holds the rules by which an event may follow
//! another, [`args`] reads the words of the command line, [`commands`] names the commands,
//! [`manual`] pages the manual and [`pomodoro`] holds what the countdown timer decides.
//! [`records`], [`time`] and [`text`] are the values that all of them work on.

pub mod args;
pub mod commands;
pub mod listing;
pub mod logging;
pub mod manual;
pub mod order;
pub mod pomodoro;
pub mod records;
pub mod report;
pub mod stats;
pub mod stats_laws;
pub mod text;
pub mod time;
