use workflow::commands::Commands;
use workflow::logging::Refusal;
use workflow::pomodoro::{
    action_possible, clock_face, countdown_text, log_offered, pomodoro_possible,
    read_timer_request, should_clear, tick, timer_request, Countdown, PomodoroCommands,
    Possibility, TaskChoice, TimerRequest, DEFAULT_PAUSE, DEFAULT_WORK,
};
use workflow::records::Log;
use workflow::time::Timestamp;

#[test]
fn timer_command_words() {
    let cases = [
        ("yes", PomodoroCommands::Yes),
        ("no", PomodoroCommands::No),
        ("work", PomodoroCommands::Work),
        ("pause", PomodoroCommands::Pause),
        ("end", PomodoroCommands::End),
        ("exit", PomodoroCommands::Exit),
        ("changetask", PomodoroCommands::ChangeTask),
        ("currenttask", PomodoroCommands::CurrentTask),
        ("clear", PomodoroCommands::Clear),
        ("quit", PomodoroCommands::NoSuchCommand),
        ("", PomodoroCommands::NoSuchCommand),
    ];
    for (word, command) in cases {
        assert_eq!(PomodoroCommands::from_word(word), command);
        assert_eq!(PomodoroCommands::from(format!(" {}\n", word)), command);
    }
    assert_eq!(PomodoroCommands::from_word("yes\n"), PomodoroCommands::NoSuchCommand);
}

fn last(code: &str) -> Option<Log> {
    Some(Log { log_id: 1, task_id: 1, log_type: code.to_string(), date: Timestamp { micros: 0 } })
}

#[test]
fn what_the_timer_may_log() {
    assert_eq!(action_possible(Commands::Resume, &None), Possibility::Impossible(Some(Refusal::NotBegun)));
    assert_eq!(action_possible(Commands::Begin, &None), Possibility::Impossible(None));
    assert_eq!(action_possible(Commands::Pause, &last("E")), Possibility::Impossible(Some(Refusal::Ended)));
    assert_eq!(action_possible(Commands::Pause, &last("P")), Possibility::Impossible(Some(Refusal::AlreadyPaused)));
    assert_eq!(action_possible(Commands::Resume, &last("P")), Possibility::Possible);
    assert_eq!(action_possible(Commands::Resume, &last("B")), Possibility::Impossible(Some(Refusal::NotPaused)));
    assert_eq!(action_possible(Commands::Resume, &last("R")), Possibility::Impossible(Some(Refusal::NotPaused)));
    assert_eq!(action_possible(Commands::Pause, &last("B")), Possibility::Possible);
    assert_eq!(action_possible(Commands::Pause, &last("R")), Possibility::Possible);
    assert_eq!(action_possible(Commands::Begin, &last("B")), Possibility::Possible);
}

#[test]
fn when_the_timer_may_run() {
    assert_eq!(pomodoro_possible(Commands::Pause, &None), Possibility::Impossible(Some(Refusal::NotBegun)));
    assert_eq!(pomodoro_possible(Commands::Begin, &None), Possibility::Impossible(None));
    assert_eq!(pomodoro_possible(Commands::Pause, &last("E")), Possibility::Impossible(Some(Refusal::Ended)));
    assert_eq!(pomodoro_possible(Commands::Pause, &last("P")), Possibility::Possible);
    assert_eq!(pomodoro_possible(Commands::Pause, &last("B")), Possibility::Possible);
}

#[test]
fn lines_typed_at_the_timer() {
    assert_eq!(timer_request(""), TimerRequest::Empty);
    assert_eq!(timer_request("   \n"), TimerRequest::Empty);
    assert_eq!(timer_request("work\n"), TimerRequest::Work(Countdown::Seconds(DEFAULT_WORK)));
    assert_eq!(timer_request("pause\n"), TimerRequest::Pause(Countdown::Seconds(DEFAULT_PAUSE)));
    assert_eq!(timer_request("  work   00:25:00 \n"), TimerRequest::Work(Countdown::Seconds(1500)));
    assert_eq!(timer_request("pause 1:2:3"), TimerRequest::Pause(Countdown::Seconds(3723)));
    assert_eq!(timer_request("pause 25"), TimerRequest::Pause(Countdown::BadFormat));
    assert_eq!(timer_request("work 25:00"), TimerRequest::Work(Countdown::BadFormat));
    assert_eq!(timer_request("work 99:99:99"), TimerRequest::Work(Countdown::Unreadable));
    assert_eq!(timer_request("work 24:00:00"), TimerRequest::Work(Countdown::Unreadable));
    assert_eq!(timer_request("exit"), TimerRequest::Exit);
    assert_eq!(timer_request("currenttask"), TimerRequest::CurrentTask);
    assert_eq!(timer_request("clear\n"), TimerRequest::Clear);
    assert_eq!(timer_request("changetask"), TimerRequest::ChangeTask(TaskChoice::Missing));
    assert_eq!(timer_request("changetask 12"), TimerRequest::ChangeTask(TaskChoice::Id(12)));
    assert_eq!(timer_request("changetask twelve"), TimerRequest::ChangeTask(TaskChoice::Unreadable));
    assert_eq!(timer_request("yes"), TimerRequest::Wrong);
    assert_eq!(timer_request("end"), TimerRequest::Wrong);
    assert_eq!(timer_request("Work"), TimerRequest::Wrong);
    let words = vec!["work".to_string(), "soon".to_string()];
    assert_eq!(read_timer_request(&words, true, Some(7)), TimerRequest::Work(Countdown::Seconds(7)));
    assert_eq!(read_timer_request(&words, false, Some(7)), TimerRequest::Work(Countdown::BadFormat));
    assert_eq!(read_timer_request(&words, true, None), TimerRequest::Work(Countdown::Unreadable));
}

#[test]
fn what_the_timer_offers_to_log() {
    assert_eq!(log_offered(PomodoroCommands::Work), Some(Commands::Pause));
    assert_eq!(log_offered(PomodoroCommands::Pause), Some(Commands::Resume));
    assert_eq!(log_offered(PomodoroCommands::Exit), None);
    assert_eq!(log_offered(PomodoroCommands::NoSuchCommand), None);
}

#[test]
fn clearing_and_ticking() {
    assert!(should_clear(true, 21, 30, 10));
    assert!(!should_clear(true, 20, 30, 10));
    assert!(!should_clear(false, 21, 30, 10));
    assert!(should_clear(true, i32::MIN + 1, i32::MIN, i32::MAX));
    assert!(!should_clear(true, i32::MAX, i32::MAX, i32::MIN));
    assert_eq!(tick(5), 4);
    assert_eq!(tick(1), 0);
    assert_eq!(tick(0), 0);
}

#[test]
fn the_clock_in_text_and_in_blocks() {
    assert_eq!(countdown_text(0), "00:00:00");
    assert_eq!(countdown_text(5), "00:00:05");
    assert_eq!(countdown_text(300), "00:05:00");
    assert_eq!(countdown_text(86_399), "23:59:59");
    assert_eq!(countdown_text(3_723), "01:02:03");
    let red = |v: &str| format!("\u{001b}[31m{}\u{001b}[0m", v);
    let green = |v: &str| format!("\u{001b}[32m{}\u{001b}[0m", v);
    let blocks = |text: &str, paint: &dyn Fn(&str) -> String| {
        terminal_fonts::to_string(&terminal_fonts::map_block(&terminal_fonts::to_block(text), paint))
    };
    assert_eq!(clock_face(3_723, false), red(&blocks("01:02:03", &red)));
    assert_eq!(clock_face(3_723, true), green(&blocks("01:02:03", &green)));
    assert_ne!(clock_face(5, true), clock_face(5, false));
    assert_eq!(clock_face(5, true).lines().count(), 7);
    assert!(clock_face(5, true).contains("█"));
}
