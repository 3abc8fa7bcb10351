//! The rules for logging an event: which event may follow the task's last one, and what
//! the user is told.

use crate::commands::Commands;
use crate::records::{EventKind, Log, LogView};
use crate::text::{decimal, to_decimal};
use crate::time::{days_in, hours_in, local_now, minutes_in, Duration, Timestamp};
use vstd::prelude::*;
use vstd::string::StringExecFns;

verus! {

/// Why an event is not logged.
#[derive(Clone, Copy, Debug, PartialEq, Eq, Structural)]
pub enum Refusal {
    /// The task has no event yet, and the event is no begin.
    NotBegun,
    /// The task's last event is an end.
    Ended,
    /// A pause was asked for while the task is paused.
    AlreadyPaused,
    /// A resume was asked for while the task is not paused.
    NotPaused,
    /// A begin was asked for, and the task has events.
    AlreadyStarted,
}

/// What the user is told before an event is logged.
#[derive(Clone, Copy, Debug, PartialEq, Eq, Structural)]
pub enum Notice {
    /// Nothing.
    Silent,
    /// The task ends from a pause that lasted this long.
    EndingPause(Duration),
    /// The task ends from work that lasted this long.
    EndingWork(Duration),
    /// The task is paused after work that lasted this long.
    Worked(Duration),
    /// The task is resumed after a pause that lasted this long.
    Rested(Duration),
}

/// Whether an event is logged.
#[derive(Clone, Copy, Debug, PartialEq, Eq, Structural)]
pub enum Verdict {
    Refused(Refusal),
    Accepted(Notice),
}

/// What a notice holds, with its span as a number.
pub ghost enum NoticeView {
    Silent,
    EndingPause(int),
    EndingWork(int),
    Worked(int),
    Rested(int),
}

impl View for Notice {
    type V = NoticeView;

    open spec fn view(&self) -> NoticeView {
        match *self {
            Notice::Silent => NoticeView::Silent,
            Notice::EndingPause(d) => NoticeView::EndingPause(d@),
            Notice::EndingWork(d) => NoticeView::EndingWork(d@),
            Notice::Worked(d) => NoticeView::Worked(d@),
            Notice::Rested(d) => NoticeView::Rested(d@),
        }
    }
}

/// What a verdict holds.
pub ghost enum VerdictView {
    Refused(Refusal),
    Accepted(NoticeView),
}

impl View for Verdict {
    type V = VerdictView;

    open spec fn view(&self) -> VerdictView {
        match *self {
            Verdict::Refused(r) => VerdictView::Refused(r),
            Verdict::Accepted(n) => VerdictView::Accepted(n@),
        }
    }
}

/// The code of a pause.
pub open spec fn pause_code() -> Seq<char> {
    EventKind::Pause.code()
}

/// The code of an end.
pub open spec fn end_code() -> Seq<char> {
    EventKind::End.code()
}

/// Whether `command` may be logged for a task whose last event is `recent`, at the time
/// `now`, and what the user is told. The rules, the first that applies:
///
/// - without any event, only a begin is logged;
/// - after an end, nothing is;
/// - an end is logged, and the user is told how long the pause or the work before it was;
/// - a pause is refused while paused, a resume while not paused, a begin with any event;
/// - a pause or a resume is logged, and the user is told how long the work or the pause
///   before it was;
/// - any other command is logged.
pub open spec fn judged(command: Commands, recent: Option<LogView>, now: int) -> VerdictView {
    match recent {
        None => if command == Commands::Begin {
            VerdictView::Accepted(NoticeView::Silent)
        } else {
            VerdictView::Refused(Refusal::NotBegun)
        },
        Some(last) => {
            let span = now - last.date;
            if last.log_type == end_code() {
                VerdictView::Refused(Refusal::Ended)
            } else if command == Commands::End {
                if last.log_type == pause_code() {
                    VerdictView::Accepted(NoticeView::EndingPause(span))
                } else {
                    VerdictView::Accepted(NoticeView::EndingWork(span))
                }
            } else if last.log_type == pause_code() && command == Commands::Pause {
                VerdictView::Refused(Refusal::AlreadyPaused)
            } else if last.log_type != pause_code() && command == Commands::Resume {
                VerdictView::Refused(Refusal::NotPaused)
            } else if command == Commands::Begin {
                VerdictView::Refused(Refusal::AlreadyStarted)
            } else if command == Commands::Pause {
                VerdictView::Accepted(NoticeView::Worked(span))
            } else if command == Commands::Resume {
                VerdictView::Accepted(NoticeView::Rested(span))
            } else {
                VerdictView::Accepted(NoticeView::Silent)
            }
        },
    }
}

fn has_code(log: &Log, kind: EventKind) -> (same: bool)
    ensures
        same == (log.log_type@ == kind.code()),
{
    let code = kind.to_code();
    log.log_type == code
}

/// Whether `command` may be logged for a task whose last event is `recent`, at the time
/// `now`, and what the user is told.
pub fn judge(command: Commands, recent: &Option<Log>, now: Timestamp) -> (verdict: Verdict)
    ensures
        verdict@ == judged(command, recent.deep_view(), now@),
{
    match recent {
        None => {
            if command == Commands::Begin {
                Verdict::Accepted(Notice::Silent)
            } else {
                Verdict::Refused(Refusal::NotBegun)
            }
        },
        Some(last) => {
            let span = now.signed_duration_since(last.date);
            let paused = has_code(last, EventKind::Pause);
            if has_code(last, EventKind::End) {
                Verdict::Refused(Refusal::Ended)
            } else if command == Commands::End {
                if paused {
                    Verdict::Accepted(Notice::EndingPause(span))
                } else {
                    Verdict::Accepted(Notice::EndingWork(span))
                }
            } else if paused && command == Commands::Pause {
                Verdict::Refused(Refusal::AlreadyPaused)
            } else if !paused && command == Commands::Resume {
                Verdict::Refused(Refusal::NotPaused)
            } else if command == Commands::Begin {
                Verdict::Refused(Refusal::AlreadyStarted)
            } else if command == Commands::Pause {
                Verdict::Accepted(Notice::Worked(span))
            } else if command == Commands::Resume {
                Verdict::Accepted(Notice::Rested(span))
            } else {
                Verdict::Accepted(Notice::Silent)
            }
        },
    }
}

/// Whether `command` may be logged for a task whose last event is `recent`, at the time
/// that the clock shows. That time is handed back too.
pub fn judge_now(command: Commands, recent: &Option<Log>) -> (out: (Verdict, Timestamp))
    ensures
        out.0@ == judged(command, recent.deep_view(), out.1@),
{
    let now = local_now();
    (judge(command, recent, now), now)
}

/// What the user is told where an event is not logged.
pub open spec fn refusal_text(refusal: Refusal) -> Seq<char> {
    match refusal {
        Refusal::NotBegun => "First begin the task, then perform other operations!"@,
        Refusal::Ended => "Task has been ended!"@,
        Refusal::AlreadyPaused => "Task has already been paused"@,
        Refusal::NotPaused => "Pause task before you resume it"@,
        Refusal::AlreadyStarted => "Task has already been started"@,
    }
}

/// What the user is told where an event is not logged.
pub fn refusal_message(refusal: Refusal) -> (text: String)
    ensures
        text@ == refusal_text(refusal),
{
    match refusal {
        Refusal::NotBegun => String::from_str(
            "First begin the task, then perform other operations!",
        ),
        Refusal::Ended => String::from_str("Task has been ended!"),
        Refusal::AlreadyPaused => String::from_str("Task has already been paused"),
        Refusal::NotPaused => String::from_str("Pause task before you resume it"),
        Refusal::AlreadyStarted => String::from_str("Task has already been started"),
    }
}

/// A span in words: its whole days, its whole hours and its whole minutes, each counted
/// over the whole span.
pub open spec fn span_words(span: int) -> Seq<char> {
    decimal(days_in(span)) + " days, "@ + decimal(hours_in(span)) + " hours, "@ + decimal(
        minutes_in(span),
    ) + " minutes"@
}

/// A span in words: its whole days, its whole hours and its whole minutes, each counted
/// over the whole span.
pub fn span_in_words(span: &Duration) -> (text: String)
    ensures
        text@ == span_words(span@),
{
    let mut text = to_decimal(span.num_days());
    text.append(" days, ");
    text.append(to_decimal(span.num_hours()).as_str());
    text.append(" hours, ");
    text.append(to_decimal(span.num_minutes()).as_str());
    text.append(" minutes");
    text
}

/// What the user is told before an event is logged, where anything.
pub open spec fn notice_text(notice: NoticeView) -> Option<Seq<char>> {
    match notice {
        NoticeView::Silent => None,
        NoticeView::EndingPause(span) => Some("Ending pause that lasted: "@ + span_words(span)),
        NoticeView::EndingWork(span) => Some(
            "You've been working since last pause "@ + span_words(span),
        ),
        NoticeView::Worked(span) => Some("You've been working "@ + span_words(span)),
        NoticeView::Rested(span) => Some("Your pause was "@ + span_words(span) + " long"@),
    }
}

/// What the user is told before an event is logged, where anything.
pub fn notice_message(notice: &Notice) -> (text: Option<String>)
    ensures
        text.deep_view() == notice_text(notice@),
{
    match notice {
        Notice::Silent => None,
        Notice::EndingPause(span) => {
            let mut text = String::from_str("Ending pause that lasted: ");
            text.append(span_in_words(span).as_str());
            Some(text)
        },
        Notice::EndingWork(span) => {
            let mut text = String::from_str("You've been working since last pause ");
            text.append(span_in_words(span).as_str());
            Some(text)
        },
        Notice::Worked(span) => {
            let mut text = String::from_str("You've been working ");
            text.append(span_in_words(span).as_str());
            Some(text)
        },
        Notice::Rested(span) => {
            let mut text = String::from_str("Your pause was ");
            text.append(span_in_words(span).as_str());
            text.append(" long");
            Some(text)
        },
    }
}

/// What the user is told of the whole time of a task that ends: the time since its first
/// event `first`, or that no first event was found.
pub open spec fn total_time_text(first: Option<LogView>, now: int) -> Seq<char> {
    match first {
        Some(log) => "Total time spent on task:  "@ + span_words(now - log.date),
        None => "Error finding first log!"@,
    }
}

/// What the user is told of the whole time of a task that ends.
pub fn total_time_message(first: &Option<Log>, now: Timestamp) -> (text: String)
    ensures
        text@ == total_time_text(first.deep_view(), now@),
{
    match first {
        Some(log) => {
            let mut text = String::from_str("Total time spent on task:  ");
            let span = now.signed_duration_since(log.date);
            text.append(span_in_words(&span).as_str());
            text
        },
        None => String::from_str("Error finding first log!"),
    }
}

} // verus!
