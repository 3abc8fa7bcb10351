use workflow::manual::{closes, count_breaks, open_pager, skip_lines, App, Key, MANUAL};

#[test]
fn pager_scrolls_within_its_bounds() {
    let mut app = App { scroll_position: 0, msg_end: 2 };
    app.handle_input(Key::Up);
    assert_eq!(app, App { scroll_position: 0, msg_end: 2 });
    app.handle_input(Key::Down);
    app.handle_input(Key::Down);
    assert_eq!(app.scroll_position, 2);
    app.handle_input(Key::Down);
    assert_eq!(app.scroll_position, 2);
    app.handle_input(Key::Char('x'));
    app.handle_input(Key::Other);
    assert_eq!(app.scroll_position, 2);
    app.handle_input(Key::Up);
    assert_eq!(app, App { scroll_position: 1, msg_end: 2 });
}

#[test]
fn q_closes_the_pager() {
    assert!(closes(Key::Char('q')));
    assert!(!closes(Key::Char('Q')));
    assert!(!closes(Key::Up));
    assert!(!closes(Key::Other));
}

#[test]
fn lines_of_a_text() {
    assert_eq!(count_breaks(""), 0);
    assert_eq!(count_breaks("a\nb\n\nc"), 3);
    assert_eq!(skip_lines("a\nb\n\nc", 0), "a\nb\n\nc");
    assert_eq!(skip_lines("a\nb\n\nc", 1), "b\n\nc");
    assert_eq!(skip_lines("a\nb\n\nc", 2), "\nc");
    assert_eq!(skip_lines("a\nb\n\nc", 3), "c");
    assert_eq!(skip_lines("a\nb\n\nc", 4), "");
    assert_eq!(skip_lines("ä\nö", 1), "ö");
    for n in 0..6u16 {
        let text = "one\ntwo\nthree\nfour";
        let expected = text.lines().skip(n as usize).collect::<Vec<_>>().join("\n");
        assert_eq!(skip_lines(text, n), expected);
    }
}

#[test]
fn the_manual_can_be_paged() {
    assert!(MANUAL.starts_with("-----------------------------------------------------\nWelcome to workflow!"));
    assert!(MANUAL.ends_with("- man - displays app's manual;"));
    assert!(MANUAL.contains("in format \"YYYY-MM-DD\""));
    let pager = open_pager(MANUAL);
    assert_eq!(pager.scroll_position, 0);
    assert_eq!(pager.msg_end as usize, MANUAL.lines().count() - 3);
    for n in [0u16, 1, 7, pager.msg_end] {
        let expected = MANUAL.lines().skip(n as usize).collect::<Vec<_>>().join("\n");
        assert_eq!(skip_lines(MANUAL, n), expected);
    }
    assert_eq!(open_pager("one line"), App { scroll_position: 0, msg_end: 0 });
    assert_eq!(open_pager("1\n2\n3\n4"), App { scroll_position: 0, msg_end: 1 });
}
