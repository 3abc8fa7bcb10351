use workflow::commands::Commands;
use workflow::pomodoro::{green, red};
use workflow::records::EventKind;

#[test]
fn every_command_word_is_known() {
    let words = [
        ("newproject", Commands::AddProject),
        ("projects", Commands::AllProjects),
        ("app", Commands::AddApp),
        ("newtask", Commands::AddTask),
        ("tasks", Commands::AllTasks),
        ("logs", Commands::Logs),
        ("app-task", Commands::AddAppToTask),
        ("stats", Commands::Stats),
        ("begin", Commands::Begin),
        ("end", Commands::End),
        ("pause", Commands::Pause),
        ("resume", Commands::Resume),
        ("man", Commands::Man),
        ("day", Commands::Day),
    ];
    for (word, command) in words {
        assert_eq!(Commands::from_word(word), command);
        assert_eq!(Commands::from(word.to_string()), command);
    }
}

#[test]
fn unknown_words_are_no_command() {
    assert_eq!(Commands::from_word(""), Commands::NoSuchCommand);
    assert_eq!(Commands::from_word("Stats"), Commands::NoSuchCommand);
    assert_eq!(Commands::from_word("stat"), Commands::NoSuchCommand);
    assert_eq!(Commands::from_word(" stats"), Commands::NoSuchCommand);
    assert_eq!(Commands::from("pomodoro".to_string()), Commands::NoSuchCommand);
}

#[test]
fn from_takes_the_whitespace_at_the_ends_off() {
    assert_eq!(Commands::from("  stats\n".to_string()), Commands::Stats);
    assert_eq!(Commands::from("\tbegin \r\n".to_string()), Commands::Begin);
    assert_eq!(Commands::from("app task".to_string()), Commands::NoSuchCommand);
}

#[test]
fn event_commands_have_codes() {
    assert_eq!(Commands::Begin.to_string(), "B");
    assert_eq!(Commands::End.to_string(), "E");
    assert_eq!(Commands::Pause.to_string(), "P");
    assert_eq!(Commands::Resume.to_string(), "R");
    assert_eq!(Commands::Stats.to_string(), "");
    assert_eq!(Commands::NoSuchCommand.to_string(), "");
    assert_eq!(Commands::Pause.event_kind(), Some(EventKind::Pause));
    assert_eq!(Commands::Logs.event_kind(), None);
}

#[test]
fn codes_and_kinds_go_both_ways() {
    for kind in [EventKind::Begin, EventKind::Pause, EventKind::Resume, EventKind::End] {
        assert_eq!(EventKind::from_code(&kind.to_code()), Some(kind));
    }
    assert_eq!(EventKind::from_code("E"), Some(EventKind::End));
    assert_eq!(EventKind::from_code(""), None);
    assert_eq!(EventKind::from_code("e"), None);
    assert_eq!(EventKind::from_code("EE"), None);
}

#[test]
fn colours_wrap_the_text() {
    assert_eq!(green("12:00"), "\u{001b}[32m12:00\u{001b}[0m");
    assert_eq!(red("12:00"), "\u{001b}[31m12:00\u{001b}[0m");
    assert_eq!(green(""), "\u{001b}[32m\u{001b}[0m");
}
