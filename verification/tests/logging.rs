use workflow::commands::Commands;
use workflow::logging::{
    judge, judge_now, notice_message, refusal_message, span_in_words, total_time_message,
    Notice, Refusal, Verdict,
};
use workflow::records::Log;
use workflow::time::{Duration, Timestamp};

const MINUTE: i64 = 60_000_000;

fn log(code: &str, minute: i64) -> Option<Log> {
    Some(Log { log_id: 1, task_id: 2, log_type: code.to_string(), date: Timestamp { micros: minute * MINUTE } })
}

fn at(minute: i64) -> Timestamp {
    Timestamp { micros: minute * MINUTE }
}

fn span(minutes: i64) -> Duration {
    Duration { micros: (minutes * MINUTE) as i128 }
}

#[test]
fn nothing_but_a_begin_starts_a_task() {
    assert_eq!(judge(Commands::Begin, &None, at(0)), Verdict::Accepted(Notice::Silent));
    for command in [Commands::Pause, Commands::Resume, Commands::End, Commands::Stats] {
        assert_eq!(judge(command, &None, at(0)), Verdict::Refused(Refusal::NotBegun));
    }
}

#[test]
fn nothing_follows_an_end() {
    for command in [Commands::Begin, Commands::Pause, Commands::Resume, Commands::End] {
        assert_eq!(judge(command, &log("E", 0), at(9)), Verdict::Refused(Refusal::Ended));
    }
}

#[test]
fn what_follows_a_begin() {
    let last = log("B", 10);
    assert_eq!(judge(Commands::Begin, &last, at(70)), Verdict::Refused(Refusal::AlreadyStarted));
    assert_eq!(judge(Commands::Pause, &last, at(70)), Verdict::Accepted(Notice::Worked(span(60))));
    assert_eq!(judge(Commands::Resume, &last, at(70)), Verdict::Refused(Refusal::NotPaused));
    assert_eq!(judge(Commands::End, &last, at(70)), Verdict::Accepted(Notice::EndingWork(span(60))));
}

#[test]
fn what_follows_a_pause() {
    let last = log("P", 10);
    assert_eq!(judge(Commands::Begin, &last, at(25)), Verdict::Refused(Refusal::AlreadyStarted));
    assert_eq!(judge(Commands::Pause, &last, at(25)), Verdict::Refused(Refusal::AlreadyPaused));
    assert_eq!(judge(Commands::Resume, &last, at(25)), Verdict::Accepted(Notice::Rested(span(15))));
    assert_eq!(judge(Commands::End, &last, at(25)), Verdict::Accepted(Notice::EndingPause(span(15))));
}

#[test]
fn what_follows_a_resume() {
    let last = log("R", 10);
    assert_eq!(judge(Commands::Begin, &last, at(5)), Verdict::Refused(Refusal::AlreadyStarted));
    assert_eq!(judge(Commands::Pause, &last, at(5)), Verdict::Accepted(Notice::Worked(span(-5))));
    assert_eq!(judge(Commands::Resume, &last, at(5)), Verdict::Refused(Refusal::NotPaused));
    assert_eq!(judge(Commands::End, &last, at(5)), Verdict::Accepted(Notice::EndingWork(span(-5))));
    assert_eq!(judge(Commands::Stats, &last, at(5)), Verdict::Accepted(Notice::Silent));
}

#[test]
fn judge_now_takes_the_time_of_the_clock() {
    let before = chrono::Local::now().naive_local().and_utc().timestamp_micros();
    let (verdict, now) = judge_now(Commands::Pause, &log("B", 0));
    let after = chrono::Local::now().naive_local().and_utc().timestamp_micros();
    assert!(before <= now.micros && now.micros <= after);
    assert_eq!(verdict, Verdict::Accepted(Notice::Worked(Duration { micros: now.micros as i128 })));
    assert_eq!(judge_now(Commands::Pause, &None).0, Verdict::Refused(Refusal::NotBegun));
}

#[test]
fn refusals_in_words() {
    assert_eq!(refusal_message(Refusal::NotBegun), "First begin the task, then perform other operations!");
    assert_eq!(refusal_message(Refusal::Ended), "Task has been ended!");
    assert_eq!(refusal_message(Refusal::AlreadyPaused), "Task has already been paused");
    assert_eq!(refusal_message(Refusal::NotPaused), "Pause task before you resume it");
    assert_eq!(refusal_message(Refusal::AlreadyStarted), "Task has already been started");
}

#[test]
fn spans_in_words() {
    assert_eq!(span_in_words(&span(0)), "0 days, 0 hours, 0 minutes");
    assert_eq!(span_in_words(&span(26 * 60 + 7)), "1 days, 26 hours, 1567 minutes");
    assert_eq!(span_in_words(&span(-61)), "0 days, -1 hours, -61 minutes");
}

#[test]
fn notices_in_words() {
    assert_eq!(notice_message(&Notice::Silent), None);
    assert_eq!(
        notice_message(&Notice::EndingPause(span(61))),
        Some("Ending pause that lasted: 0 days, 1 hours, 61 minutes".to_string())
    );
    assert_eq!(
        notice_message(&Notice::EndingWork(span(61))),
        Some("You've been working since last pause 0 days, 1 hours, 61 minutes".to_string())
    );
    assert_eq!(
        notice_message(&Notice::Worked(span(2))),
        Some("You've been working 0 days, 0 hours, 2 minutes".to_string())
    );
    assert_eq!(
        notice_message(&Notice::Rested(span(48 * 60))),
        Some("Your pause was 2 days, 48 hours, 2880 minutes long".to_string())
    );
}

#[test]
fn total_time_in_words() {
    assert_eq!(
        total_time_message(&log("B", 0), at(90)),
        "Total time spent on task:  0 days, 1 hours, 90 minutes"
    );
    assert_eq!(total_time_message(&None, at(90)), "Error finding first log!");
}
