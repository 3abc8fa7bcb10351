//! Reading the arguments of the commands.
//!
//! The arguments are the words of the command line, the program's name first and the
//! command second. A reading never fails: where the words do not fit the command, its
//! result says how. What is read is given by position among the arguments.

use crate::text::{find_pattern, parse_i32, parsed_i32, pattern_found, same_text};
use crate::time::{date_written, local_today, parse_date, Date};
use vstd::prelude::*;

verus! {

/// The pattern of a planned time: three numbers with colons between them.
pub open spec fn time_pattern() -> Seq<char> {
    "^\\d+:\\d+:\\d+$"@
}

/// The pattern of a word that holds a dash, as the name of an option does.
pub open spec fn dash_pattern() -> Seq<char> {
    "-.*"@
}

/// The pattern of a word that holds a digit.
pub open spec fn digit_pattern() -> Seq<char> {
    "\\d+"@
}

/// The pattern of a word that starts with a digit.
pub open spec fn leading_digit_pattern() -> Seq<char> {
    "^\\d+"@
}

/// Which patterns a word shows.
#[derive(Clone, Copy, Debug, PartialEq, Eq)]
pub struct ArgShape {
    /// It holds a dash.
    pub dashed: bool,
    /// It is a planned time.
    pub timed: bool,
    /// It holds a digit.
    pub numbered: bool,
    /// It starts with a digit.
    pub leading_digit: bool,
}

/// Which patterns `word` shows.
pub open spec fn shape_of(word: Seq<char>) -> ArgShape {
    ArgShape {
        dashed: pattern_found(dash_pattern(), word) == Some(true),
        timed: pattern_found(time_pattern(), word) == Some(true),
        numbered: pattern_found(digit_pattern(), word) == Some(true),
        leading_digit: pattern_found(leading_digit_pattern(), word) == Some(true),
    }
}

/// The shapes of all of `args`, one for one.
pub open spec fn shapes_of(args: Seq<Seq<char>>) -> Seq<ArgShape> {
    Seq::new(args.len(), |i: int| shape_of(args[i]))
}

fn shows(pattern: &str, word: &str) -> (found: bool)
    ensures
        found == (pattern_found(pattern@, word@) == Some(true)),
{
    match find_pattern(pattern, word) {
        Some(found) => found,
        None => false,
    }
}

/// Which patterns `word` shows.
pub fn shape(word: &str) -> (found: ArgShape)
    ensures
        found == shape_of(word@),
{
    ArgShape {
        dashed: shows("-.*", word),
        timed: shows("^\\d+:\\d+:\\d+$", word),
        numbered: shows("\\d+", word),
        leading_digit: shows("^\\d+", word),
    }
}

/// The shapes of all of `args`, one for one.
pub fn shapes(args: &Vec<String>) -> (found: Vec<ArgShape>)
    ensures
        found@ == shapes_of(args.deep_view()),
{
    let mut found: Vec<ArgShape> = Vec::new();
    let mut i: usize = 0;
    while i < args.len()
        invariant
            i <= args.len(),
            found@ == shapes_of(args.deep_view().take(i as int)),
        decreases args.len() - i,
    {
        found.push(shape(args[i].as_str()));
        assert(args.deep_view()[i as int] == args[i as int]@);
        assert(found@ =~= shapes_of(args.deep_view().take(i + 1)));
        i = i + 1;
    }
    assert(args.deep_view().take(i as int) =~= args.deep_view());
    found
}

/// What the arguments of the command that adds a project amount to.
#[derive(Clone, Copy, Debug, PartialEq, Eq)]
pub enum ProjectArgs {
    /// There is no argument after the command.
    TooFew,
    /// The first argument holds a dash, so it is no name.
    NameExpected,
    /// The option `-t` is the last word: its time is missing.
    TimeMissing,
    /// The word at `at` is no option; `wrong_times` options `-t` before it had no time.
    Unknown { at: usize, wrong_times: usize },
    /// The project to add: its name is the first argument; `time_planned` is where its
    /// planned time stands and `apps` the range in which its apps stand, where given;
    /// `wrong_times` options `-t` had no time.
    Add { time_planned: Option<usize>, apps: Option<(usize, usize)>, wrong_times: usize },
}

/// Where the words end that follow the option `-a` from `from` on: at the first word that
/// holds a dash, or where the arguments end.
pub open spec fn apps_end(shapes: Seq<ArgShape>, from: int) -> int
    decreases shapes.len() - from,
{
    if 0 <= from < shapes.len() && !shapes[from].dashed {
        apps_end(shapes, from + 1)
    } else {
        from
    }
}

/// The reading of a project's options from the word `i` on, with what was read before it.
///
/// - `-t` takes the next word as the planned time where it is one, and else counts as a
///   wrong time; the last valid one holds.
/// - The first `-a` takes the words up to the next that holds a dash as the apps; a later
///   `-a` takes nothing.
/// - Any other word ends the reading.
pub open spec fn project_options(
    args: Seq<Seq<char>>,
    shapes: Seq<ArgShape>,
    i: int,
    time_planned: Option<usize>,
    apps: Option<(usize, usize)>,
    wrong_times: usize,
) -> ProjectArgs
    decreases args.len() - i,
    via project_options_decreases
{
    if i < 0 || i >= args.len() || shapes.len() != args.len() {
        ProjectArgs::Add { time_planned, apps, wrong_times }
    } else if args[i] == "-t"@ {
        if i + 1 >= args.len() {
            ProjectArgs::TimeMissing
        } else if shapes[i + 1].timed {
            project_options(args, shapes, i + 2, Some((i + 1) as usize), apps, wrong_times)
        } else {
            project_options(
                args,
                shapes,
                i + 2,
                time_planned,
                apps,
                (wrong_times + 1) as usize,
            )
        }
    } else if args[i] == "-a"@ {
        if apps is None {
            project_options(
                args,
                shapes,
                apps_end(shapes, i + 1),
                time_planned,
                Some(((i + 1) as usize, apps_end(shapes, i + 1) as usize)),
                wrong_times,
            )
        } else {
            project_options(args, shapes, i + 1, time_planned, apps, wrong_times)
        }
    } else {
        ProjectArgs::Unknown { at: i as usize, wrong_times }
    }
}

/// What the arguments of the command that adds a project amount to, given the shapes of
/// the words.
pub open spec fn project_args_of(args: Seq<Seq<char>>, shapes: Seq<ArgShape>) -> ProjectArgs {
    if args.len() < 3 {
        ProjectArgs::TooFew
    } else if shapes[2].dashed {
        ProjectArgs::NameExpected
    } else {
        project_options(args, shapes, 3, None, None, 0)
    }
}

#[via_fn]
proof fn project_options_decreases(
    args: Seq<Seq<char>>,
    shapes: Seq<ArgShape>,
    i: int,
    time_planned: Option<usize>,
    apps: Option<(usize, usize)>,
    wrong_times: usize,
) {
    lemma_apps_end_bounds(shapes, i + 1);
}

proof fn lemma_apps_end_bounds(shapes: Seq<ArgShape>, from: int)
    ensures
        from <= apps_end(shapes, from),
        from <= shapes.len() ==> apps_end(shapes, from) <= shapes.len(),
    decreases shapes.len() - from,
{
    if 0 <= from < shapes.len() && !shapes[from].dashed {
        lemma_apps_end_bounds(shapes, from + 1);
    }
}

/// Whether the positions that a reading names lie among `len` arguments.
pub open spec fn project_args_within(read: ProjectArgs, len: int) -> bool {
    match read {
        ProjectArgs::Unknown { at, .. } => at < len,
        ProjectArgs::Add { time_planned, apps, .. } => {
            &&& time_planned matches Some(at) ==> at < len
            &&& apps matches Some((from, end)) ==> from <= end <= len
        },
        _ => true,
    }
}

/// Reads the arguments of the command that adds a project, given the shapes of the words.
pub fn read_project_args(args: &Vec<String>, shapes: &Vec<ArgShape>) -> (read: ProjectArgs)
    requires
        shapes.len() == args.len(),
    ensures
        read == project_args_of(args.deep_view(), shapes@),
        project_args_within(read, args.len() as int),
{
    let ghost words = args.deep_view();
    if args.len() < 3 {
        return ProjectArgs::TooFew;
    }
    if shapes[2].dashed {
        return ProjectArgs::NameExpected;
    }
    let mut time_planned: Option<usize> = None;
    let mut apps: Option<(usize, usize)> = None;
    let mut wrong_times: usize = 0;
    let mut i: usize = 3;
    while i < args.len()
        invariant
            3 <= i <= args.len(),
            shapes.len() == args.len(),
            words == args.deep_view(),
            !shapes@[2].dashed,
            wrong_times <= i,
            time_planned matches Some(at) ==> at < args.len(),
            apps matches Some((from, end)) ==> from <= end <= args.len(),
            project_options(words, shapes@, i as int, time_planned, apps, wrong_times)
                == project_options(words, shapes@, 3, None, None, 0),
        decreases args.len() - i,
    {
        assert(words[i as int] == args[i as int]@);
        if same_text(args[i].as_str(), "-t") {
            if i + 1 >= args.len() {
                return ProjectArgs::TimeMissing;
            }
            if shapes[i + 1].timed {
                time_planned = Some(i + 1);
            } else {
                wrong_times = wrong_times + 1;
            }
            i = i + 2;
        } else if same_text(args[i].as_str(), "-a") {
            if apps.is_none() {
                let from: usize = i + 1;
                let mut end: usize = from;
                proof {
                    lemma_apps_end_bounds(shapes@, from as int);
                }
                while end < args.len() && !shapes[end].dashed
                    invariant
                        from <= end <= args.len(),
                        shapes.len() == args.len(),
                        apps_end(shapes@, end as int) == apps_end(shapes@, from as int),
                    decreases args.len() - end,
                {
                    end = end + 1;
                }
                apps = Some((from, end));
                i = end;
            } else {
                i = i + 1;
            }
        } else {
            return ProjectArgs::Unknown { at: i, wrong_times };
        }
    }
    ProjectArgs::Add { time_planned, apps, wrong_times }
}

/// Reads the arguments of the command that adds a project.
pub fn project_args(args: &Vec<String>) -> (read: ProjectArgs)
    ensures
        read == project_args_of(args.deep_view(), shapes_of(args.deep_view())),
        project_args_within(read, args.len() as int),
{
    let found = shapes(args);
    read_project_args(args, &found)
}

/// What the arguments of the command that adds a task amount to.
#[derive(Clone, Copy, Debug, PartialEq, Eq)]
pub enum TaskArgs {
    /// There are less than two arguments after the command.
    TooFew,
    /// The first argument holds a dash, so it is no name.
    NameExpected,
    /// The second argument does not start with a digit, so it is no project id.
    ProjectExpected,
    /// The second argument starts with a digit and still is no number.
    ProjectUnreadable,
    /// The option `-t` is the last word: its time is missing.
    TimeMissing,
    /// The word at `at` is no option.
    Unknown { at: usize },
    /// The task to add: its name is the first argument and `project_id` its project;
    /// `time_planned` is where its planned time stands, where given; `wrong_times`
    /// options `-t` had no time.
    Add { project_id: i32, time_planned: Option<usize>, wrong_times: usize },
}

/// The reading of a task's options from the word `i` on, with what was read before it:
/// `-t` takes the next word as the planned time where it is one, and else counts as a
/// wrong time; any other word ends the reading.
pub open spec fn task_options(
    args: Seq<Seq<char>>,
    shapes: Seq<ArgShape>,
    project_id: i32,
    i: int,
    time_planned: Option<usize>,
    wrong_times: usize,
) -> TaskArgs
    decreases args.len() - i,
{
    if i < 0 || i >= args.len() {
        TaskArgs::Add { project_id, time_planned, wrong_times }
    } else if args[i] == "-t"@ {
        if i + 1 >= args.len() {
            TaskArgs::TimeMissing
        } else if shapes[i + 1].timed {
            task_options(args, shapes, project_id, i + 2, Some((i + 1) as usize), wrong_times)
        } else {
            task_options(
                args,
                shapes,
                project_id,
                i + 2,
                time_planned,
                (wrong_times + 1) as usize,
            )
        }
    } else {
        TaskArgs::Unknown { at: i as usize }
    }
}

/// What the arguments of the command that adds a task amount to, given the shapes of the
/// words.
pub open spec fn task_args_of(args: Seq<Seq<char>>, shapes: Seq<ArgShape>) -> TaskArgs {
    if args.len() < 4 {
        TaskArgs::TooFew
    } else if shapes[2].dashed {
        TaskArgs::NameExpected
    } else if !shapes[3].leading_digit {
        TaskArgs::ProjectExpected
    } else {
        match parsed_i32(args[3]) {
            None => TaskArgs::ProjectUnreadable,
            Some(project_id) => task_options(args, shapes, project_id, 4, None, 0),
        }
    }
}

/// Whether the positions that a reading names lie among `len` arguments.
pub open spec fn task_args_within(read: TaskArgs, len: int) -> bool {
    match read {
        TaskArgs::Unknown { at } => at < len,
        TaskArgs::Add { time_planned, .. } => time_planned matches Some(at) ==> at < len,
        _ => true,
    }
}

/// Reads the arguments of the command that adds a task, given the shapes of the words.
pub fn read_task_args(args: &Vec<String>, shapes: &Vec<ArgShape>) -> (read: TaskArgs)
    requires
        shapes.len() == args.len(),
    ensures
        read == task_args_of(args.deep_view(), shapes@),
        task_args_within(read, args.len() as int),
{
    let ghost words = args.deep_view();
    if args.len() < 4 {
        return TaskArgs::TooFew;
    }
    if shapes[2].dashed {
        return TaskArgs::NameExpected;
    }
    if !shapes[3].leading_digit {
        return TaskArgs::ProjectExpected;
    }
    assert(words[3] == args[3]@);
    let project_id = match parse_i32(args[3].as_str()) {
        Some(id) => id,
        None => {
            return TaskArgs::ProjectUnreadable;
        },
    };
    let mut time_planned: Option<usize> = None;
    let mut wrong_times: usize = 0;
    let mut i: usize = 4;
    while i < args.len()
        invariant
            4 <= i <= args.len(),
            shapes.len() == args.len(),
            words == args.deep_view(),
            !shapes@[2].dashed,
            shapes@[3].leading_digit,
            parsed_i32(words[3]) == Some(project_id),
            wrong_times <= i,
            time_planned matches Some(at) ==> at < args.len(),
            task_options(words, shapes@, project_id, i as int, time_planned, wrong_times)
                == task_options(words, shapes@, project_id, 4, None, 0),
        decreases args.len() - i,
    {
        assert(words[i as int] == args[i as int]@);
        if same_text(args[i].as_str(), "-t") {
            if i + 1 >= args.len() {
                return TaskArgs::TimeMissing;
            }
            if shapes[i + 1].timed {
                time_planned = Some(i + 1);
            } else {
                wrong_times = wrong_times + 1;
            }
            i = i + 2;
        } else {
            return TaskArgs::Unknown { at: i };
        }
    }
    TaskArgs::Add { project_id, time_planned, wrong_times }
}

/// Reads the arguments of the command that adds a task.
pub fn task_args(args: &Vec<String>) -> (read: TaskArgs)
    ensures
        read == task_args_of(args.deep_view(), shapes_of(args.deep_view())),
        task_args_within(read, args.len() as int),
{
    let found = shapes(args);
    read_task_args(args, &found)
}

/// Where the event of a logging command goes.
#[derive(Clone, Copy, Debug, PartialEq, Eq)]
pub enum LogTarget {
    /// There is no argument after the command.
    TooFew,
    /// There is more than one argument after the command.
    TooMany,
    /// To the task with this id.
    Id(i32),
    /// To the task with the name that the first argument holds.
    Name,
}

/// Where the event of a logging command goes: the one argument is the id of the task where
/// it is a number, and else its name.
pub open spec fn log_target_of(args: Seq<Seq<char>>) -> LogTarget {
    if args.len() < 3 {
        LogTarget::TooFew
    } else if args.len() > 3 {
        LogTarget::TooMany
    } else {
        match parsed_i32(args[2]) {
            Some(id) => LogTarget::Id(id),
            None => LogTarget::Name,
        }
    }
}

/// Reads the arguments of a logging command.
pub fn log_target(args: &Vec<String>) -> (target: LogTarget)
    ensures
        target == log_target_of(args.deep_view()),
{
    if args.len() < 3 {
        LogTarget::TooFew
    } else if args.len() > 3 {
        LogTarget::TooMany
    } else {
        assert(args.deep_view()[2] == args[2]@);
        match parse_i32(args[2].as_str()) {
            Some(id) => LogTarget::Id(id),
            None => LogTarget::Name,
        }
    }
}

/// The id that a word stands for where logs are asked for by task: its number, and -1,
/// which no task has, where it is none.
pub open spec fn task_id_of(word: Seq<char>) -> i32 {
    match parsed_i32(word) {
        Some(id) => id,
        None => -1i32,
    }
}

/// The tasks whose logs are asked for: after `-t` or `-tasks`, the ids of the words that
/// follow, and no id, which asks for all logs, without arguments. `None` where the first
/// argument is anything else.
pub open spec fn logs_filter_of(args: Seq<Seq<char>>) -> Option<Seq<i32>> {
    if args.len() == 0 {
        Some(Seq::empty())
    } else if args[0] == "-t"@ || args[0] == "-tasks"@ {
        Some(Seq::new((args.len() - 1) as nat, |i: int| task_id_of(args[i + 1])))
    } else {
        None
    }
}

/// Reads the arguments of the command that shows logs; `args` are the words after the
/// command.
pub fn logs_filter(args: &Vec<String>) -> (ids: Option<Vec<i32>>)
    ensures
        ids.deep_view() == logs_filter_of(args.deep_view()),
{
    let ghost words = args.deep_view();
    let mut ids: Vec<i32> = Vec::new();
    if args.len() == 0 {
        assert(ids.deep_view() =~= Seq::<i32>::empty());
        return Some(ids);
    }
    assert(words[0] == args[0]@);
    if !(same_text(args[0].as_str(), "-t") || same_text(args[0].as_str(), "-tasks")) {
        return None;
    }
    let mut i: usize = 1;
    while i < args.len()
        invariant
            1 <= i <= args.len(),
            words == args.deep_view(),
            ids@.len() == i - 1,
            forall|k: int| 0 <= k < ids@.len() ==> ids@[k] == task_id_of(words[k + 1]),
        decreases args.len() - i,
    {
        assert(words[i as int] == args[i as int]@);
        let id = match parse_i32(args[i].as_str()) {
            Some(id) => id,
            None => -1,
        };
        ids.push(id);
        i = i + 1;
    }
    assert(ids.deep_view() =~= logs_filter_of(words)->0);
    Some(ids)
}

/// What the arguments of the command that shows a day amount to.
#[derive(Clone, Copy, Debug, PartialEq, Eq)]
pub enum DayArgs {
    /// An option that takes a day is the only word.
    TooFew,
    /// The word at `at` is no option; `wrong_dates` options before it named no day.
    Unknown { at: usize, wrong_dates: usize },
    /// The day to show, in detail where `long_version` says so; `wrong_dates` options
    /// named no day.
    Show { date: Date, long_version: bool, wrong_dates: usize },
}

/// Whether a word is an option that takes a day.
pub open spec fn takes_day(word: Seq<char>) -> bool {
    word == "-d"@ || word == "-day"@ || word == "-ld"@ || word == "-dl"@
}

/// Whether a word is an option that takes a day and asks for details.
pub open spec fn asks_details(word: Seq<char>) -> bool {
    word == "-ld"@ || word == "-dl"@
}

/// The reading of the options of a day from the word `i` on, with what was read before it.
///
/// - `-d`, `-day`, `-ld` and `-dl` take a day and pass over the word that follows them.
///   The day is `second`, the reading of the second word, wherever the option stands;
///   where that word names no day, the day is `today` and the option counts as a wrong
///   date.
/// - `-ld` and `-dl` ask for details, and so does `-l`, which takes no day.
/// - Any other word ends the reading.
pub open spec fn day_options(
    args: Seq<Seq<char>>,
    second: Option<Date>,
    today: Date,
    i: int,
    date: Date,
    long_version: bool,
    wrong_dates: usize,
) -> DayArgs
    decreases args.len() + 1 - i,
{
    if i < 0 || i >= args.len() {
        DayArgs::Show { date, long_version, wrong_dates }
    } else if takes_day(args[i]) {
        if args.len() < 2 {
            DayArgs::TooFew
        } else {
            match second {
                Some(day) => day_options(
                    args,
                    second,
                    today,
                    i + 2,
                    day,
                    long_version || asks_details(args[i]),
                    wrong_dates,
                ),
                None => day_options(
                    args,
                    second,
                    today,
                    i + 2,
                    today,
                    long_version || asks_details(args[i]),
                    (wrong_dates + 1) as usize,
                ),
            }
        }
    } else if args[i] == "-l"@ {
        day_options(args, second, today, i + 1, date, true, wrong_dates)
    } else {
        DayArgs::Unknown { at: i as usize, wrong_dates }
    }
}

/// What the words after the command that shows a day amount to, given the day that the
/// second word names and the day of today.
pub open spec fn day_args_of(args: Seq<Seq<char>>, second: Option<Date>, today: Date) -> DayArgs {
    day_options(args, second, today, 0, today, false, 0)
}

/// Reads the words after the command that shows a day, given the day that the second word
/// names and the day of today.
pub fn read_day_args(args: &Vec<String>, second: Option<Date>, today: Date) -> (read: DayArgs)
    ensures
        read == day_args_of(args.deep_view(), second, today),
        read matches DayArgs::Unknown { at, .. } ==> at < args.len(),
{
    let ghost words = args.deep_view();
    let mut date = today;
    let mut long_version = false;
    let mut wrong_dates: usize = 0;
    let mut i: usize = 0;
    while i < args.len()
        invariant
            i <= args.len(),
            words == args.deep_view(),
            wrong_dates <= i,
            day_options(words, second, today, i as int, date, long_version, wrong_dates)
                == day_options(words, second, today, 0, today, false, 0),
        decreases args.len() - i,
    {
        assert(words[i as int] == args[i as int]@);
        let word = args[i].as_str();
        let detailed = same_text(word, "-ld") || same_text(word, "-dl");
        if detailed || same_text(word, "-d") || same_text(word, "-day") {
            if args.len() < 2 {
                return DayArgs::TooFew;
            }
            if detailed {
                long_version = true;
            }
            match second {
                Some(day) => {
                    date = day;
                },
                None => {
                    date = today;
                    wrong_dates = wrong_dates + 1;
                },
            }
            proof {
                let shown = DayArgs::Show { date, long_version, wrong_dates };
                if i + 1 >= args.len() {
                    assert(day_options(
                        words,
                        second,
                        today,
                        i + 2,
                        date,
                        long_version,
                        wrong_dates,
                    ) == shown);
                    assert(day_options(
                        words,
                        second,
                        today,
                        args.len() as int,
                        date,
                        long_version,
                        wrong_dates,
                    ) == shown);
                }
            }
            i = if i + 1 < args.len() {
                i + 2
            } else {
                args.len()
            };
        } else if same_text(word, "-l") {
            long_version = true;
            i = i + 1;
        } else {
            return DayArgs::Unknown { at: i, wrong_dates };
        }
    }
    DayArgs::Show { date, long_version, wrong_dates }
}

/// The format in which a day is written on the command line.
pub open spec fn day_format() -> Seq<char> {
    "%Y-%m-%d"@
}

/// The day that the second word names, where there is a second word and it names one.
pub open spec fn second_day(args: Seq<Seq<char>>) -> Option<Date> {
    if args.len() >= 2 {
        date_written(args[1], day_format())
    } else {
        None
    }
}

/// Reads the words after the command that shows a day. The day of today is that of the
/// clock, so the contract holds for some day `today`.
pub fn day_args(args: &Vec<String>) -> (read: DayArgs)
    ensures
        exists|today: Date|
            read == #[trigger] day_args_of(args.deep_view(), second_day(args.deep_view()), today),
        read matches DayArgs::Unknown { at, .. } ==> at < args.len(),
{
    let today = local_today();
    let second = if args.len() >= 2 {
        assert(args.deep_view()[1] == args[1]@);
        parse_date(args[1].as_str(), "%Y-%m-%d")
    } else {
        None
    };
    read_day_args(args, second, today)
}

/// What the arguments of the command that lists the tasks of projects amount to.
#[derive(Clone, Copy, Debug, PartialEq, Eq)]
pub enum TaskListArgs {
    /// The option `-pr` stands twice.
    Repeated,
    /// A word after `-pr` holds no digit, so it is no project id.
    IdExpected,
    /// A word after `-pr` holds a digit and still is no number.
    IdUnreadable,
    /// Two options ask for tasks that are ended and not ended, or begun and not begun.
    Contradictory,
    /// The word at `at` is no option.
    Unknown { at: usize },
    /// The tasks to list: those of the projects whose ids stand in the range `projects`,
    /// where given; those that are ended or not, where `ended` says so; those that are
    /// begun or not, where `begun` says so.
    Show { projects: Option<(usize, usize)>, ended: Option<bool>, begun: Option<bool> },
}

/// Where the project ids end that stand from the word `from` on, or what is wrong with
/// them.
pub ghost enum IdsEnd {
    End(int),
    IdExpected,
    IdUnreadable,
}

/// Where the project ids end that stand from the word `from` on: at the first word that
/// holds a dash, or where the arguments end. Each word before that has to hold a digit
/// and to write a number.
pub open spec fn ids_end(args: Seq<Seq<char>>, shapes: Seq<ArgShape>, from: int) -> IdsEnd
    decreases args.len() - from,
{
    if from < 0 || from >= args.len() || shapes[from].dashed {
        IdsEnd::End(from)
    } else if !shapes[from].numbered {
        IdsEnd::IdExpected
    } else if parsed_i32(args[from]) is None {
        IdsEnd::IdUnreadable
    } else {
        ids_end(args, shapes, from + 1)
    }
}

proof fn lemma_ids_end_bounds(args: Seq<Seq<char>>, shapes: Seq<ArgShape>, from: int)
    requires
        0 <= from <= args.len(),
    ensures
        ids_end(args, shapes, from) matches IdsEnd::End(end) ==> from <= end <= args.len(),
    decreases args.len() - from,
{
    if from < args.len() && !shapes[from].dashed && shapes[from].numbered && parsed_i32(
        args[from],
    ) is Some {
        lemma_ids_end_bounds(args, shapes, from + 1);
    }
}

/// The reading of the options of a list of tasks from the word `i` on, with what was read
/// before it.
///
/// - `-pr` takes the words that follow it, up to the next that holds a dash, as project
///   ids; it may stand once.
/// - `-e` asks for ended tasks and `-ne` for tasks that are not; `-b` asks for begun tasks
///   and `-nb` for tasks that are not. An option may stand again, but not together with
///   its contrary.
/// - Any other word ends the reading.
pub open spec fn task_list_options(
    args: Seq<Seq<char>>,
    shapes: Seq<ArgShape>,
    i: int,
    projects: Option<(usize, usize)>,
    ended: Option<bool>,
    begun: Option<bool>,
) -> TaskListArgs
    decreases args.len() - i,
    via task_list_options_decreases
{
    if i < 0 || i >= args.len() {
        TaskListArgs::Show { projects, ended, begun }
    } else if args[i] == "-pr"@ {
        if projects is Some {
            TaskListArgs::Repeated
        } else {
            match ids_end(args, shapes, i + 1) {
                IdsEnd::IdExpected => TaskListArgs::IdExpected,
                IdsEnd::IdUnreadable => TaskListArgs::IdUnreadable,
                IdsEnd::End(end) => task_list_options(
                    args,
                    shapes,
                    end,
                    Some(((i + 1) as usize, end as usize)),
                    ended,
                    begun,
                ),
            }
        }
    } else if args[i] == "-e"@ {
        if ended == Some(false) {
            TaskListArgs::Contradictory
        } else {
            task_list_options(args, shapes, i + 1, projects, Some(true), begun)
        }
    } else if args[i] == "-ne"@ {
        if ended == Some(true) {
            TaskListArgs::Contradictory
        } else {
            task_list_options(args, shapes, i + 1, projects, Some(false), begun)
        }
    } else if args[i] == "-b"@ {
        if begun == Some(false) {
            TaskListArgs::Contradictory
        } else {
            task_list_options(args, shapes, i + 1, projects, ended, Some(true))
        }
    } else if args[i] == "-nb"@ {
        if begun == Some(true) {
            TaskListArgs::Contradictory
        } else {
            task_list_options(args, shapes, i + 1, projects, ended, Some(false))
        }
    } else {
        TaskListArgs::Unknown { at: i as usize }
    }
}

#[via_fn]
proof fn task_list_options_decreases(
    args: Seq<Seq<char>>,
    shapes: Seq<ArgShape>,
    i: int,
    projects: Option<(usize, usize)>,
    ended: Option<bool>,
    begun: Option<bool>,
) {
    if 0 <= i < args.len() {
        lemma_ids_end_bounds(args, shapes, i + 1);
    }
}

/// What the words after the command that lists the tasks of projects amount to, given the
/// shapes of the words.
pub open spec fn task_list_args_of(args: Seq<Seq<char>>, shapes: Seq<ArgShape>) -> TaskListArgs {
    task_list_options(args, shapes, 0, None, None, None)
}

/// Whether the positions that a reading names lie among `len` arguments.
pub open spec fn task_list_args_within(read: TaskListArgs, len: int) -> bool {
    match read {
        TaskListArgs::Unknown { at } => at < len,
        TaskListArgs::Show { projects, .. } => projects matches Some((from, end)) ==> from <= end
            <= len,
        _ => true,
    }
}

/// Reads the words after the command that lists the tasks of projects, given the shapes of
/// the words.
pub fn read_task_list_args(args: &Vec<String>, shapes: &Vec<ArgShape>) -> (read: TaskListArgs)
    requires
        shapes.len() == args.len(),
    ensures
        read == task_list_args_of(args.deep_view(), shapes@),
        task_list_args_within(read, args.len() as int),
{
    let ghost words = args.deep_view();
    let mut projects: Option<(usize, usize)> = None;
    let mut ended: Option<bool> = None;
    let mut begun: Option<bool> = None;
    let mut i: usize = 0;
    while i < args.len()
        invariant
            i <= args.len(),
            shapes.len() == args.len(),
            words == args.deep_view(),
            projects matches Some((from, end)) ==> from <= end <= args.len(),
            task_list_options(words, shapes@, i as int, projects, ended, begun)
                == task_list_options(words, shapes@, 0, None, None, None),
        decreases args.len() - i,
    {
        assert(words[i as int] == args[i as int]@);
        let word = args[i].as_str();
        if same_text(word, "-pr") {
            if projects.is_some() {
                return TaskListArgs::Repeated;
            }
            let from: usize = i + 1;
            let mut end: usize = from;
            while end < args.len() && !shapes[end].dashed
                invariant
                    from <= end <= args.len(),
                    shapes.len() == args.len(),
                    words == args.deep_view(),
                    ids_end(words, shapes@, end as int) == ids_end(words, shapes@, from as int),
                    i + 1 == from,
                    words[i as int] == "-pr"@,
                    projects is None,
                    task_list_options(words, shapes@, i as int, projects, ended, begun)
                        == task_list_options(words, shapes@, 0, None, None, None),
                decreases args.len() - end,
            {
                assert(words[end as int] == args[end as int]@);
                if !shapes[end].numbered {
                    return TaskListArgs::IdExpected;
                }
                if parse_i32(args[end].as_str()).is_none() {
                    return TaskListArgs::IdUnreadable;
                }
                end = end + 1;
            }
            projects = Some((from, end));
            i = end;
        } else if same_text(word, "-e") {
            if let Some(false) = ended {
                return TaskListArgs::Contradictory;
            }
            ended = Some(true);
            i = i + 1;
        } else if same_text(word, "-ne") {
            if let Some(true) = ended {
                return TaskListArgs::Contradictory;
            }
            ended = Some(false);
            i = i + 1;
        } else if same_text(word, "-b") {
            if let Some(false) = begun {
                return TaskListArgs::Contradictory;
            }
            begun = Some(true);
            i = i + 1;
        } else if same_text(word, "-nb") {
            if let Some(true) = begun {
                return TaskListArgs::Contradictory;
            }
            begun = Some(false);
            i = i + 1;
        } else {
            return TaskListArgs::Unknown { at: i };
        }
    }
    TaskListArgs::Show { projects, ended, begun }
}

/// Reads the words after the command that lists the tasks of projects.
pub fn task_list_args(args: &Vec<String>) -> (read: TaskListArgs)
    ensures
        read == task_list_args_of(args.deep_view(), shapes_of(args.deep_view())),
        task_list_args_within(read, args.len() as int),
{
    let found = shapes(args);
    read_task_list_args(args, &found)
}

/// The numbers that the words `from .. end` write, with -1 for a word that writes none.
pub open spec fn ids_in(args: Seq<Seq<char>>, from: int, end: int) -> Seq<i32> {
    Seq::new((end - from) as nat, |k: int| task_id_of(args[from + k]))
}

/// The numbers that the words `from .. end` write, with -1 for a word that writes none.
pub fn read_ids(args: &Vec<String>, from: usize, end: usize) -> (ids: Vec<i32>)
    requires
        from <= end <= args.len(),
    ensures
        ids@ == ids_in(args.deep_view(), from as int, end as int),
{
    let ghost words = args.deep_view();
    let mut ids: Vec<i32> = Vec::new();
    let mut i: usize = from;
    while i < end
        invariant
            from <= i <= end <= args.len(),
            words == args.deep_view(),
            ids@.len() == i - from,
            forall|k: int| 0 <= k < ids@.len() ==> ids@[k] == task_id_of(words[from + k]),
        decreases end - i,
    {
        assert(words[i as int] == args[i as int]@);
        let id = match parse_i32(args[i].as_str()) {
            Some(id) => id,
            None => -1,
        };
        ids.push(id);
        i = i + 1;
    }
    assert(ids@ =~= ids_in(words, from as int, end as int));
    ids
}

/// What the words after the command that starts the timer amount to.
#[derive(Clone, Copy, Debug, PartialEq, Eq)]
pub enum TimerArgs {
    /// There is no word.
    TooFew,
    /// There are more than two words.
    TooMany,
    /// The first word is no number.
    TaskUnreadable,
    /// The timer runs for the task `task_id`, and clears the screen when it fills where
    /// `clearing` says so.
    Start { task_id: i32, clearing: bool },
}

/// What the words after the command that starts the timer amount to: the id of a task,
/// and then, where wanted, the word `clearing`.
pub open spec fn timer_args_of(args: Seq<Seq<char>>) -> TimerArgs {
    if args.len() < 1 {
        TimerArgs::TooFew
    } else if args.len() > 2 {
        TimerArgs::TooMany
    } else {
        match parsed_i32(args[0]) {
            None => TimerArgs::TaskUnreadable,
            Some(task_id) => TimerArgs::Start {
                task_id,
                clearing: args.len() > 1 && args[1] == "clearing"@,
            },
        }
    }
}

/// Reads the words after the command that starts the timer.
pub fn timer_args(args: &Vec<String>) -> (read: TimerArgs)
    ensures
        read == timer_args_of(args.deep_view()),
{
    if args.len() < 1 {
        TimerArgs::TooFew
    } else if args.len() > 2 {
        TimerArgs::TooMany
    } else {
        assert(args.deep_view()[0] == args[0]@);
        match parse_i32(args[0].as_str()) {
            None => TimerArgs::TaskUnreadable,
            Some(task_id) => {
                let clearing = if args.len() > 1 {
                    assert(args.deep_view()[1] == args[1]@);
                    same_text(args[1].as_str(), "clearing")
                } else {
                    false
                };
                TimerArgs::Start { task_id, clearing }
            },
        }
    }
}

} // verus!
