//! The commands of the command line, and the codes under which events are stored.

use crate::records::EventKind;
use crate::text::{same_text, trim, trimmed};
use vstd::prelude::*;
use vstd::std_specs::convert::FromSpecImpl;
use vstd::string::StringExecFns;

verus! {

/// What the user can ask for.
#[derive(Clone, Copy, Debug, PartialEq, Eq, Structural)]
pub enum Commands {
    AddProject,
    AllProjects,
    AddTask,
    AddApp,
    AddAppToTask,
    AllTasks,
    Begin,
    Pause,
    Resume,
    End,
    Logs,
    Man,
    Stats,
    Day,
    NoSuchCommand,
}

impl Commands {
    /// The command that a word of the command line names.
    pub open spec fn of_word(word: Seq<char>) -> Commands {
        if word == "newproject"@ {
            Commands::AddProject
        } else if word == "projects"@ {
            Commands::AllProjects
        } else if word == "app"@ {
            Commands::AddApp
        } else if word == "newtask"@ {
            Commands::AddTask
        } else if word == "tasks"@ {
            Commands::AllTasks
        } else if word == "logs"@ {
            Commands::Logs
        } else if word == "app-task"@ {
            Commands::AddAppToTask
        } else if word == "stats"@ {
            Commands::Stats
        } else if word == "begin"@ {
            Commands::Begin
        } else if word == "end"@ {
            Commands::End
        } else if word == "pause"@ {
            Commands::Pause
        } else if word == "resume"@ {
            Commands::Resume
        } else if word == "man"@ {
            Commands::Man
        } else if word == "day"@ {
            Commands::Day
        } else {
            Commands::NoSuchCommand
        }
    }

    /// The command that `word` names, and `NoSuchCommand` where it names none.
    pub fn from_word(word: &str) -> (command: Commands)
        ensures
            command == Commands::of_word(word@),
    {
        if same_text(word, "newproject") {
            Commands::AddProject
        } else if same_text(word, "projects") {
            Commands::AllProjects
        } else if same_text(word, "app") {
            Commands::AddApp
        } else if same_text(word, "newtask") {
            Commands::AddTask
        } else if same_text(word, "tasks") {
            Commands::AllTasks
        } else if same_text(word, "logs") {
            Commands::Logs
        } else if same_text(word, "app-task") {
            Commands::AddAppToTask
        } else if same_text(word, "stats") {
            Commands::Stats
        } else if same_text(word, "begin") {
            Commands::Begin
        } else if same_text(word, "end") {
            Commands::End
        } else if same_text(word, "pause") {
            Commands::Pause
        } else if same_text(word, "resume") {
            Commands::Resume
        } else if same_text(word, "man") {
            Commands::Man
        } else if same_text(word, "day") {
            Commands::Day
        } else {
            Commands::NoSuchCommand
        }
    }

    /// The event that the command logs, where it logs one.
    pub open spec fn kind(self) -> Option<EventKind> {
        match self {
            Commands::Begin => Some(EventKind::Begin),
            Commands::Pause => Some(EventKind::Pause),
            Commands::Resume => Some(EventKind::Resume),
            Commands::End => Some(EventKind::End),
            _ => None,
        }
    }

    /// The event that the command logs, where it logs one.
    pub fn event_kind(&self) -> (kind: Option<EventKind>)
        ensures
            kind == self.kind(),
    {
        match self {
            Commands::Begin => Some(EventKind::Begin),
            Commands::Pause => Some(EventKind::Pause),
            Commands::Resume => Some(EventKind::Resume),
            Commands::End => Some(EventKind::End),
            _ => None,
        }
    }

    /// The code under which the command's event is stored, and the empty text for a
    /// command that logs none.
    pub open spec fn code(self) -> Seq<char> {
        match self.kind() {
            Some(kind) => kind.code(),
            None => Seq::empty(),
        }
    }

    /// The code under which the command's event is stored: `B`, `P`, `R` or `E`, and the
    /// empty text for a command that logs no event.
    pub fn to_string(&self) -> (code: String)
        ensures
            code@ == self.code(),
    {
        match self.event_kind() {
            Some(kind) => kind.to_code(),
            None => String::new(),
        }
    }
}

impl From<String> for Commands {
    /// The command that `input` names once the whitespace at its ends is taken off.
    fn from(input: String) -> (command: Self) {
        Commands::from_word(trim(input.as_str()))
    }
}

impl FromSpecImpl<String> for Commands {
    open spec fn obeys_from_spec() -> bool {
        true
    }

    open spec fn from_spec(input: String) -> Commands {
        Commands::of_word(trimmed(input@))
    }
}

impl EventKind {
    /// The one-letter code under which the kind is stored.
    pub open spec fn code(self) -> Seq<char> {
        match self {
            EventKind::Begin => seq!['B'],
            EventKind::Pause => seq!['P'],
            EventKind::Resume => seq!['R'],
            EventKind::End => seq!['E'],
        }
    }

    /// The kind that a stored code stands for.
    pub open spec fn of_code(code: Seq<char>) -> Option<EventKind> {
        if code == seq!['B'] {
            Some(EventKind::Begin)
        } else if code == seq!['P'] {
            Some(EventKind::Pause)
        } else if code == seq!['R'] {
            Some(EventKind::Resume)
        } else if code == seq!['E'] {
            Some(EventKind::End)
        } else {
            None
        }
    }

    /// The one-letter code under which the kind is stored.
    pub fn to_code(&self) -> (code: String)
        ensures
            code@ == self.code(),
    {
        proof {
            reveal_strlit("B");
            reveal_strlit("P");
            reveal_strlit("R");
            reveal_strlit("E");
        }
        let code = match self {
            EventKind::Begin => String::from_str("B"),
            EventKind::Pause => String::from_str("P"),
            EventKind::Resume => String::from_str("R"),
            EventKind::End => String::from_str("E"),
        };
        assert(code@ =~= self.code());
        code
    }

    /// The kind that a stored code stands for, and `None` for any other text.
    pub fn from_code(code: &str) -> (kind: Option<EventKind>)
        ensures
            kind == EventKind::of_code(code@),
    {
        proof {
            reveal_strlit("B");
            reveal_strlit("P");
            reveal_strlit("R");
            reveal_strlit("E");
            assert("B"@ =~= seq!['B']);
            assert("P"@ =~= seq!['P']);
            assert("R"@ =~= seq!['R']);
            assert("E"@ =~= seq!['E']);
        }
        if same_text(code, "B") {
            Some(EventKind::Begin)
        } else if same_text(code, "P") {
            Some(EventKind::Pause)
        } else if same_text(code, "R") {
            Some(EventKind::Resume)
        } else if same_text(code, "E") {
            Some(EventKind::End)
        } else {
            None
        }
    }
}

} // verus!
