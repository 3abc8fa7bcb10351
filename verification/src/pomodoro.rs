//! The countdown timer: its commands and the colours of its clock.

use crate::args::{shape, shape_of};
use crate::commands::Commands;
use crate::logging::Refusal;
use crate::records::{EventKind, Log, LogView};
use crate::text::{parse_i32, parsed_i32, same_text, split_words, trim, trimmed, words_of};
use crate::time::{clock, clock_text, clock_written, parse_clock};
use terminal_fonts::{map_block, to_block, to_string};
use vstd::prelude::*;
use vstd::std_specs::convert::FromSpecImpl;
use vstd::string::StringExecFns;

verus! {

/// The text that switches the terminal to green.
pub open spec fn green_on() -> Seq<char> {
    seq!['\u{1b}', '[', '3', '2', 'm']
}

/// The text that switches the terminal to red.
pub open spec fn red_on() -> Seq<char> {
    seq!['\u{1b}', '[', '3', '1', 'm']
}

/// The text that switches the terminal back to its own colour.
pub open spec fn colour_off() -> Seq<char> {
    seq!['\u{1b}', '[', '0', 'm']
}

/// `v` as the terminal shows it in green.
pub fn green(v: &str) -> (painted: String)
    ensures
        painted@ == green_on() + v@ + colour_off(),
{
    proof {
        reveal_strlit("\u{1b}[32m");
        reveal_strlit("\u{1b}[0m");
        assert("\u{1b}[32m"@ =~= green_on());
        assert("\u{1b}[0m"@ =~= colour_off());
    }
    let mut painted = String::from_str("\u{1b}[32m");
    painted.append(v);
    painted.append("\u{1b}[0m");
    painted
}

/// `v` as the terminal shows it in red.
pub fn red(v: &str) -> (painted: String)
    ensures
        painted@ == red_on() + v@ + colour_off(),
{
    proof {
        reveal_strlit("\u{1b}[31m");
        reveal_strlit("\u{1b}[0m");
        assert("\u{1b}[31m"@ =~= red_on());
        assert("\u{1b}[0m"@ =~= colour_off());
    }
    let mut painted = String::from_str("\u{1b}[31m");
    painted.append(v);
    painted.append("\u{1b}[0m");
    painted
}

/// What the user can type at the timer.
#[derive(Clone, Copy, Debug, PartialEq, Eq, Structural)]
pub enum PomodoroCommands {
    Yes,
    No,
    Work,
    Pause,
    End,
    Exit,
    ChangeTask,
    CurrentTask,
    Clear,
    NoSuchCommand,
}

impl PomodoroCommands {
    /// The command that a word names.
    pub open spec fn of_word(word: Seq<char>) -> PomodoroCommands {
        if word == "yes"@ {
            PomodoroCommands::Yes
        } else if word == "no"@ {
            PomodoroCommands::No
        } else if word == "work"@ {
            PomodoroCommands::Work
        } else if word == "pause"@ {
            PomodoroCommands::Pause
        } else if word == "end"@ {
            PomodoroCommands::End
        } else if word == "exit"@ {
            PomodoroCommands::Exit
        } else if word == "changetask"@ {
            PomodoroCommands::ChangeTask
        } else if word == "currenttask"@ {
            PomodoroCommands::CurrentTask
        } else if word == "clear"@ {
            PomodoroCommands::Clear
        } else {
            PomodoroCommands::NoSuchCommand
        }
    }

    /// The command that `word` names, and `NoSuchCommand` where it names none.
    pub fn from_word(word: &str) -> (command: PomodoroCommands)
        ensures
            command == PomodoroCommands::of_word(word@),
    {
        if same_text(word, "yes") {
            PomodoroCommands::Yes
        } else if same_text(word, "no") {
            PomodoroCommands::No
        } else if same_text(word, "work") {
            PomodoroCommands::Work
        } else if same_text(word, "pause") {
            PomodoroCommands::Pause
        } else if same_text(word, "end") {
            PomodoroCommands::End
        } else if same_text(word, "exit") {
            PomodoroCommands::Exit
        } else if same_text(word, "changetask") {
            PomodoroCommands::ChangeTask
        } else if same_text(word, "currenttask") {
            PomodoroCommands::CurrentTask
        } else if same_text(word, "clear") {
            PomodoroCommands::Clear
        } else {
            PomodoroCommands::NoSuchCommand
        }
    }
}

impl From<String> for PomodoroCommands {
    /// The command that `input` names once the whitespace at its ends is taken off.
    fn from(input: String) -> (command: Self) {
        PomodoroCommands::from_word(trim(input.as_str()))
    }
}

impl FromSpecImpl<String> for PomodoroCommands {
    open spec fn obeys_from_spec() -> bool {
        true
    }

    open spec fn from_spec(input: String) -> PomodoroCommands {
        PomodoroCommands::of_word(trimmed(input@))
    }
}

/// Whether the timer may log an event, and what the user is told where it may not.
#[derive(Clone, Copy, Debug, PartialEq, Eq, Structural)]
pub enum Possibility {
    Possible,
    /// It may not; the user is told why, or nothing.
    Impossible(Option<Refusal>),
}

/// Whether the timer may log the event of `log_type` for a task whose last event is
/// `recent`: not before the task has begun, not after it has ended, no pause while it is
/// paused and no resume while it is not.
pub open spec fn action_possibility(log_type: Commands, recent: Option<LogView>) -> Possibility {
    match recent {
        None => Possibility::Impossible(
            if log_type != Commands::Begin {
                Some(Refusal::NotBegun)
            } else {
                None
            },
        ),
        Some(last) => if last.log_type == EventKind::End.code() {
            Possibility::Impossible(Some(Refusal::Ended))
        } else if last.log_type == EventKind::Pause.code() && log_type == Commands::Pause {
            Possibility::Impossible(Some(Refusal::AlreadyPaused))
        } else if last.log_type != EventKind::Pause.code() && log_type == Commands::Resume {
            Possibility::Impossible(Some(Refusal::NotPaused))
        } else {
            Possibility::Possible
        },
    }
}

fn log_has_code(log: &Log, kind: EventKind) -> (same: bool)
    ensures
        same == (log.log_type@ == kind.code()),
{
    let code = kind.to_code();
    log.log_type == code
}

/// Whether the timer may log the event of `log_type` for a task whose last event is
/// `recent`.
pub fn action_possible(log_type: Commands, recent: &Option<Log>) -> (possible: Possibility)
    ensures
        possible == action_possibility(log_type, recent.deep_view()),
{
    match recent {
        None => Possibility::Impossible(
            if log_type != Commands::Begin {
                Some(Refusal::NotBegun)
            } else {
                None
            },
        ),
        Some(last) => {
            let paused = log_has_code(last, EventKind::Pause);
            if log_has_code(last, EventKind::End) {
                Possibility::Impossible(Some(Refusal::Ended))
            } else if paused && log_type == Commands::Pause {
                Possibility::Impossible(Some(Refusal::AlreadyPaused))
            } else if !paused && log_type == Commands::Resume {
                Possibility::Impossible(Some(Refusal::NotPaused))
            } else {
                Possibility::Possible
            }
        },
    }
}

/// Whether the timer may run for a task whose last event is `recent`, given the event
/// `log_type` that it is to log first: the task has begun and has not ended.
pub open spec fn timer_possibility(log_type: Commands, recent: Option<LogView>) -> Possibility {
    match recent {
        None => Possibility::Impossible(
            if log_type != Commands::Begin {
                Some(Refusal::NotBegun)
            } else {
                None
            },
        ),
        Some(last) => if last.log_type == EventKind::End.code() {
            Possibility::Impossible(Some(Refusal::Ended))
        } else {
            Possibility::Possible
        },
    }
}

/// Whether the timer may run for a task whose last event is `recent`.
pub fn pomodoro_possible(log_type: Commands, recent: &Option<Log>) -> (possible: Possibility)
    ensures
        possible == timer_possibility(log_type, recent.deep_view()),
{
    match recent {
        None => Possibility::Impossible(
            if log_type != Commands::Begin {
                Some(Refusal::NotBegun)
            } else {
                None
            },
        ),
        Some(last) => {
            if log_has_code(last, EventKind::End) {
                Possibility::Impossible(Some(Refusal::Ended))
            } else {
                Possibility::Possible
            }
        },
    }
}

/// The time that a countdown is set to.
#[derive(Clone, Copy, Debug, PartialEq, Eq, Structural)]
pub enum Countdown {
    /// So many seconds.
    Seconds(u32),
    /// The word for the time is not three numbers with colons between them.
    BadFormat,
    /// The word for the time has that form and still is no time of day.
    Unreadable,
}

/// The task that the timer is to change to.
#[derive(Clone, Copy, Debug, PartialEq, Eq, Structural)]
pub enum TaskChoice {
    /// No task is named.
    Missing,
    /// The word for the task is no number.
    Unreadable,
    Id(i32),
}

/// What a line typed at the timer asks for.
#[derive(Clone, Copy, Debug, PartialEq, Eq, Structural)]
pub enum TimerRequest {
    /// The line holds no word.
    Empty,
    Work(Countdown),
    Pause(Countdown),
    Exit,
    CurrentTask,
    ChangeTask(TaskChoice),
    Clear,
    /// The first word is none of these commands.
    Wrong,
}

/// The seconds of a work interval for which no time is given.
pub const DEFAULT_WORK: u32 = 5;

/// The seconds of a pause for which no time is given.
pub const DEFAULT_PAUSE: u32 = 300;

/// The countdown that the words of a line set, `preset` where they give no time. `timed`
/// says whether the second word has the form of a time, and `seconds` which time of day it
/// writes.
pub open spec fn countdown_of(
    words: Seq<Seq<char>>,
    timed: bool,
    seconds: Option<u32>,
    preset: u32,
) -> Countdown {
    if words.len() < 2 {
        Countdown::Seconds(preset)
    } else if !timed {
        Countdown::BadFormat
    } else {
        match seconds {
            Some(s) => Countdown::Seconds(s),
            None => Countdown::Unreadable,
        }
    }
}

/// What the words of a line ask for. `timed` says whether the second word has the form of
/// a time, and `seconds` which time of day it writes.
pub open spec fn timer_request_of(words: Seq<Seq<char>>, timed: bool, seconds: Option<u32>)
    -> TimerRequest {
    if words.len() == 0 {
        TimerRequest::Empty
    } else {
        match PomodoroCommands::of_word(trimmed(words[0])) {
            PomodoroCommands::Work => TimerRequest::Work(
                countdown_of(words, timed, seconds, DEFAULT_WORK),
            ),
            PomodoroCommands::Pause => TimerRequest::Pause(
                countdown_of(words, timed, seconds, DEFAULT_PAUSE),
            ),
            PomodoroCommands::Exit => TimerRequest::Exit,
            PomodoroCommands::CurrentTask => TimerRequest::CurrentTask,
            PomodoroCommands::ChangeTask => TimerRequest::ChangeTask(
                if words.len() < 2 {
                    TaskChoice::Missing
                } else {
                    match parsed_i32(words[1]) {
                        Some(id) => TaskChoice::Id(id),
                        None => TaskChoice::Unreadable,
                    }
                },
            ),
            PomodoroCommands::Clear => TimerRequest::Clear,
            _ => TimerRequest::Wrong,
        }
    }
}

fn countdown(words: &Vec<String>, timed: bool, seconds: Option<u32>, preset: u32) -> (set: Countdown)
    ensures
        set == countdown_of(words.deep_view(), timed, seconds, preset),
{
    if words.len() < 2 {
        Countdown::Seconds(preset)
    } else if !timed {
        Countdown::BadFormat
    } else {
        match seconds {
            Some(s) => Countdown::Seconds(s),
            None => Countdown::Unreadable,
        }
    }
}

/// What the words of a line ask for, given whether the second word has the form of a time
/// and which time of day it writes.
pub fn read_timer_request(words: &Vec<String>, timed: bool, seconds: Option<u32>) -> (request:
    TimerRequest)
    ensures
        request == timer_request_of(words.deep_view(), timed, seconds),
{
    if words.len() == 0 {
        return TimerRequest::Empty;
    }
    assert(words.deep_view()[0] == words[0]@);
    match PomodoroCommands::from_word(trim(words[0].as_str())) {
        PomodoroCommands::Work => TimerRequest::Work(countdown(words, timed, seconds, DEFAULT_WORK)),
        PomodoroCommands::Pause => TimerRequest::Pause(
            countdown(words, timed, seconds, DEFAULT_PAUSE),
        ),
        PomodoroCommands::Exit => TimerRequest::Exit,
        PomodoroCommands::CurrentTask => TimerRequest::CurrentTask,
        PomodoroCommands::ChangeTask => {
            if words.len() < 2 {
                TimerRequest::ChangeTask(TaskChoice::Missing)
            } else {
                assert(words.deep_view()[1] == words[1]@);
                match parse_i32(words[1].as_str()) {
                    Some(id) => TimerRequest::ChangeTask(TaskChoice::Id(id)),
                    None => TimerRequest::ChangeTask(TaskChoice::Unreadable),
                }
            }
        },
        PomodoroCommands::Clear => TimerRequest::Clear,
        _ => TimerRequest::Wrong,
    }
}

/// The format in which a time is typed at the timer.
pub open spec fn clock_format() -> Seq<char> {
    "%H:%M:%S"@
}

/// What a line typed at the timer asks for.
pub open spec fn timer_line_of(line: Seq<char>) -> TimerRequest {
    let words = words_of(line);
    if words.len() >= 2 {
        timer_request_of(words, shape_of(words[1]).timed, clock_written(words[1], clock_format()))
    } else {
        timer_request_of(words, false, None)
    }
}

/// What a line typed at the timer asks for.
pub fn timer_request(line: &str) -> (request: TimerRequest)
    ensures
        request == timer_line_of(line@),
{
    let words = split_words(line);
    if words.len() >= 2 {
        assert(words.deep_view()[1] == words[1]@);
        let timed = shape(words[1].as_str()).timed;
        let seconds = parse_clock(words[1].as_str(), "%H:%M:%S");
        read_timer_request(&words, timed, seconds)
    } else {
        read_timer_request(&words, false, None)
    }
}

/// The event that the timer offers to log when a countdown is over: a pause after work, a
/// resume after a pause, and none else.
pub open spec fn log_offered_after(last: PomodoroCommands) -> Option<Commands> {
    match last {
        PomodoroCommands::Work => Some(Commands::Pause),
        PomodoroCommands::Pause => Some(Commands::Resume),
        _ => None,
    }
}

/// The event that the timer offers to log when a countdown is over.
pub fn log_offered(last: PomodoroCommands) -> (offer: Option<Commands>)
    ensures
        offer == log_offered_after(last),
{
    match last {
        PomodoroCommands::Work => Some(Commands::Pause),
        PomodoroCommands::Pause => Some(Commands::Resume),
        _ => None,
    }
}

/// Whether the screen is cleared: where clearing is switched on and the lines typed do not
/// fit below the clock any more.
pub fn should_clear(clearing: bool, commands_num: i32, size: i32, line_count: i32) -> (clear: bool)
    ensures
        clear == (clearing && commands_num > size - line_count),
{
    clearing && (commands_num as i64) > (size as i64) - (line_count as i64)
}

/// A countdown one second later: one second less, and zero at zero.
pub fn tick(seconds: u32) -> (left: u32)
    ensures
        left == if seconds > 0 {
            seconds - 1
        } else {
            0
        },
{
    if seconds > 0 {
        seconds - 1
    } else {
        0
    }
}

/// A time of day as the clock shows it: `hh:mm:ss`.
pub open spec fn countdown_clock(seconds: u32) -> Seq<char> {
    clock(seconds as int / 3600, (seconds as int / 60) % 60, seconds as int % 60)
}

/// A time of day as the clock shows it: `hh:mm:ss`.
pub fn countdown_text(seconds: u32) -> (text: String)
    ensures
        text@ == countdown_clock(seconds),
{
    clock_text((seconds / 3600) as i128, ((seconds / 60) % 60) as i128, (seconds % 60) as i128)
}

/// `text` in large letters made of blocks, each block painted red, as the crate
/// terminal-fonts draws it.
pub uninterp spec fn red_blocks(text: Seq<char>) -> Seq<char>;

/// `text` in large letters made of blocks, each block painted green, as the crate
/// terminal-fonts draws it.
pub uninterp spec fn green_blocks(text: Seq<char>) -> Seq<char>;

/// `to_block`, `map_block` and `to_string` of the crate terminal-fonts: `text` in large
/// letters, with every block painted by `red`. The contract only names the result.
#[verifier::external_body]
fn draw_red(text: &str) -> (drawn: String)
    ensures
        drawn@ == red_blocks(text@),
{
    to_string(&map_block(&to_block(text), red))
}

/// `to_block`, `map_block` and `to_string` of the crate terminal-fonts: `text` in large
/// letters, with every block painted by `green`. The contract only names the result.
#[verifier::external_body]
fn draw_green(text: &str) -> (drawn: String)
    ensures
        drawn@ == green_blocks(text@),
{
    to_string(&map_block(&to_block(text), green))
}

/// The face of the clock at `seconds`: the time in large letters, green while the clock
/// runs and red while it stands.
pub open spec fn clock_face_of(seconds: u32, running: bool) -> Seq<char> {
    if running {
        green_on() + green_blocks(countdown_clock(seconds)) + colour_off()
    } else {
        red_on() + red_blocks(countdown_clock(seconds)) + colour_off()
    }
}

/// The face of the clock at `seconds`.
pub fn clock_face(seconds: u32, running: bool) -> (face: String)
    ensures
        face@ == clock_face_of(seconds, running),
{
    let time = countdown_text(seconds);
    if running {
        green(draw_green(time.as_str()).as_str())
    } else {
        red(draw_red(time.as_str()).as_str())
    }
}

} // verus!
