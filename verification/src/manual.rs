//! The manual of the program, and the pager that shows it.

use vstd::prelude::*;

verus! {

/// The manual.
pub const MANUAL: &'static str = "-----------------------------------------------------
Welcome to workflow!
-----------------------------------------------------
COMMANDS:
- newproject NAME- creates new project
    OPTIONS:
        -t TIME - sets time user plans to spend on project. It should have format DAYS:HOURS:MINUTES
        -a APPLIST - sets apps used in the project;

- newtask NAME PROJECT_ID - creates new task in a project of the given id
    OPTIONS:
        -t TIME - sets time user plans to spend on task. It should have format DAYS:HOURS:MINUTES;

- tasks - displays all tasks;

- app APPLIST - adds specified apps to db;

- begin ID/NAME - begins the task given by id or name; a task that has ended cannot be started again;

- end ID/NAME - ends the task given by id or name; cannot end a task that was not started;

- pause ID/NAME - pauses the task given by id or name, a task that has already been paused, has ended 
                or has not begun cannot be paused;

- resume ID/NAME - resumes the task given by id or name, a task that has not been paused, has ended 
                    or has not begun cannot be resumed;     

- logs - displays the history of all tasks
    OPTIONS
        -t, -tasks TASKIDLIST - displays only the history of the tasks specified in args by id;

- stats - displays stats for every task and project, i.e. number of pauses made during the task,
            time spent working etc.;

- day - displays day stats: a table of projects cdeveloped on the current day
    OPTIONS
        -l - displays additional information for every project developed on the current day and 
            tasks within it
        -d, -date DATE - sets the date to display instead of the current date, DATE should be 
            in format \"YYYY-MM-DD\"

        (possible merging -ld, -dl options)

- man - displays app's manual;";

/// A key of the keyboard, as far as the pager tells keys apart.
#[derive(Clone, Copy, Debug, PartialEq, Eq, Structural)]
pub enum Key {
    Up,
    Down,
    Char(char),
    Other,
}

/// The pager: how many lines are scrolled away, and how many may be at most.
#[derive(Clone, Copy, Debug, PartialEq, Eq, Structural)]
pub struct App {
    pub scroll_position: u16,
    pub msg_end: u16,
}

/// Where the pager stands after a key: one line up or down within its bounds, and where
/// it stood for any other key.
pub open spec fn scrolled(position: u16, msg_end: u16, key: Key) -> u16 {
    match key {
        Key::Up => if position > 0 {
            (position - 1) as u16
        } else {
            position
        },
        Key::Down => if position < msg_end {
            (position + 1) as u16
        } else {
            position
        },
        _ => position,
    }
}

impl App {
    /// Scrolls by one line for the keys up and down.
    pub fn handle_input(&mut self, key: Key)
        ensures
            final(self).msg_end == old(self).msg_end,
            final(self).scroll_position == scrolled(
                old(self).scroll_position,
                old(self).msg_end,
                key,
            ),
    {
        match key {
            Key::Up => {
                if self.scroll_position > 0 {
                    self.scroll_position = self.scroll_position - 1;
                }
            },
            Key::Down => {
                if self.scroll_position < self.msg_end {
                    self.scroll_position = self.scroll_position + 1;
                }
            },
            _ => {},
        }
    }
}

/// The pager never scrolls past its end: from a position within the bounds, no key leads
/// out of them.
pub proof fn lemma_scroll_stays_within(position: u16, msg_end: u16, key: Key)
    requires
        position <= msg_end,
    ensures
        scrolled(position, msg_end, key) <= msg_end,
{
}

/// Whether a key closes the pager.
pub fn closes(key: Key) -> (quit: bool)
    ensures
        quit == (key == Key::Char('q')),
{
    match key {
        Key::Char(c) => c == 'q',
        _ => false,
    }
}

/// The number of line breaks in a text.
pub open spec fn breaks_in(text: Seq<char>) -> int
    decreases text.len(),
{
    if text.len() == 0 {
        0
    } else {
        breaks_in(text.drop_last()) + if text.last() == '\n' {
            1int
        } else {
            0int
        }
    }
}

/// What is left of a text after its first `n` lines; nothing where it has no more lines
/// than `n`.
pub open spec fn after_lines(text: Seq<char>, n: int) -> Seq<char>
    decreases text.len(),
{
    if n <= 0 {
        text
    } else if text.len() == 0 {
        text
    } else if text[0] == '\n' {
        after_lines(text.drop_first(), n - 1)
    } else {
        after_lines(text.drop_first(), n)
    }
}

/// How far the pager may scroll in a text: to where its last three lines stand alone, so
/// the number of its lines less three.
pub open spec fn scroll_end(text: Seq<char>) -> int {
    breaks_in(text) + 1 - 3
}

/// The number of line breaks in a text.
pub fn count_breaks(text: &str) -> (n: usize)
    ensures
        n == breaks_in(text@),
{
    let len = text.unicode_len();
    let mut n: usize = 0;
    let mut i: usize = 0;
    assert(text@.take(0) =~= Seq::<char>::empty());
    while i < len
        invariant
            i <= len,
            len == text@.len(),
            n <= i,
            n == breaks_in(text@.take(i as int)),
        decreases len - i,
    {
        assert(text@.take(i + 1).drop_last() =~= text@.take(i as int));
        if text.get_char(i) == '\n' {
            n = n + 1;
        }
        i = i + 1;
    }
    assert(text@.take(i as int) =~= text@);
    n
}

/// What is left of a text after its first `n` lines.
pub fn skip_lines(text: &str, n: u16) -> (rest: &str)
    ensures
        rest@ == after_lines(text@, n as int),
{
    let len = text.unicode_len();
    let mut left: u16 = n;
    let mut i: usize = 0;
    assert(text@.subrange(0, len as int) =~= text@);
    while i < len && left > 0
        invariant
            i <= len,
            len == text@.len(),
            after_lines(text@.subrange(i as int, len as int), left as int) == after_lines(
                text@,
                n as int,
            ),
        decreases len - i,
    {
        let ghost here = text@.subrange(i as int, len as int);
        assert(here.drop_first() =~= text@.subrange(i + 1, len as int));
        assert(here[0] == text@[i as int]);
        if text.get_char(i) == '\n' {
            left = left - 1;
        }
        i = i + 1;
    }
    text.substring_char(i, len)
}

/// The pager at the start of a text.
pub fn open_pager(text: &str) -> (pager: App)
    ensures
        pager.scroll_position == 0,
        pager.msg_end == if scroll_end(text@) < 0 {
            0
        } else if scroll_end(text@) > u16::MAX {
            u16::MAX as int
        } else {
            scroll_end(text@)
        },
{
    let breaks = count_breaks(text);
    let msg_end: u16 = if breaks < 2 {
        0
    } else if breaks - 2 > 0xffff {
        0xffff
    } else {
        (breaks - 2) as u16
    };
    App { scroll_position: 0, msg_end }
}

} // verus!
