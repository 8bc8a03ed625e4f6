//! What the command line's logger prints, and at which level it logs.

use vstd::prelude::*;

verus! {

/// How serious a log record is, the most serious first.
#[derive(Debug, Clone, Copy, PartialEq, Eq, Structural)]
pub enum Level {
    Error,
    Warn,
    Info,
    Debug,
    Trace,
}

/// The most detailed level that is shown, or none.
#[derive(Debug, Clone, Copy, PartialEq, Eq, Structural)]
pub enum LevelFilter {
    Off,
    Error,
    Warn,
    Info,
    Debug,
    Trace,
}

/// The colour that a label is printed in.
#[derive(Debug, Clone, Copy, PartialEq, Eq, Structural)]
pub enum Colour {
    Red,
    Yellow,
    Green,
    Blue,
    Purple,
}

impl Level {
    /// How detailed the level is: `Error` least.
    pub open spec fn rank(self) -> nat {
        match self {
            Level::Error => 1,
            Level::Warn => 2,
            Level::Info => 3,
            Level::Debug => 4,
            Level::Trace => 5,
        }
    }
}

impl LevelFilter {
    /// How detailed the most detailed shown level is: `Off` shows none.
    pub open spec fn rank(self) -> nat {
        match self {
            LevelFilter::Off => 0,
            LevelFilter::Error => 1,
            LevelFilter::Warn => 2,
            LevelFilter::Info => 3,
            LevelFilter::Debug => 4,
            LevelFilter::Trace => 5,
        }
    }
}

/// The label of each level.
pub open spec fn label_text(level: Level) -> Seq<char> {
    match level {
        Level::Error => "error"@,
        Level::Warn => "warning"@,
        Level::Info => "info"@,
        Level::Debug => "debug"@,
        Level::Trace => "trace"@,
    }
}

/// The colour of each level's label.
pub open spec fn colour_of(level: Level) -> Colour {
    match level {
        Level::Error => Colour::Red,
        Level::Warn => Colour::Yellow,
        Level::Info => Colour::Green,
        Level::Debug => Colour::Blue,
        Level::Trace => Colour::Purple,
    }
}

/// The filter that shows records up to `level` and no further.
pub open spec fn filter_up_to(level: Level) -> LevelFilter {
    match level {
        Level::Error => LevelFilter::Error,
        Level::Warn => LevelFilter::Warn,
        Level::Info => LevelFilter::Info,
        Level::Debug => LevelFilter::Debug,
        Level::Trace => LevelFilter::Trace,
    }
}

/// The next more detailed level, in the order error, warning, information,
/// debug, trace.
pub open spec fn more_detailed(level: Level) -> Option<Level> {
    match level {
        Level::Error => Some(Level::Warn),
        Level::Warn => Some(Level::Info),
        Level::Info => Some(Level::Debug),
        Level::Debug => Some(Level::Trace),
        Level::Trace => None,
    }
}

/// A record is shown exactly up to its level's own filter: the filter of a
/// level shows that level and every less detailed one, and hides the next
/// more detailed one (so the default, information, hides debug records);
/// `Off` shows none. Shown-ness only grows with the filter.
pub proof fn law_levels_ordered(level: Level, other: Level, filter: LevelFilter)
    ensures
        level.rank() <= filter_up_to(level).rank(),
        more_detailed(level) matches Some(next) ==> !(next.rank() <= filter_up_to(level).rank()),
        more_detailed(level) matches Some(next) ==> (other.rank() <= level.rank() || next.rank() <= other.rank()),
        !(level.rank() <= LevelFilter::Off.rank()),
        level.rank() <= filter.rank() && filter.rank() <= filter_up_to(other).rank() ==> other.rank() >= level.rank(),
{
}

/// No two levels are shown at exactly the same filters: one of their own
/// filters tells them apart.
pub proof fn law_levels_distinct(a: Level, b: Level)
    requires
        a != b,
    ensures
        (a.rank() <= filter_up_to(a).rank()) != (b.rank() <= filter_up_to(a).rank())
            || (a.rank() <= filter_up_to(b).rank()) != (b.rank() <= filter_up_to(b).rank()),
{
}

/// Each level's label is its own: no two levels are labelled alike, and
/// each label is the level's name in lower case (`warning` in full).
pub proof fn law_labels(a: Level, b: Level)
    ensures
        a != b ==> label_text(a) != label_text(b),
        label_text(a) == match a {
            Level::Error => "error"@,
            Level::Warn => "warning"@,
            Level::Info => "info"@,
            Level::Debug => "debug"@,
            Level::Trace => "trace"@,
        },
{
    reveal_strlit("error");
    reveal_strlit("warning");
    reveal_strlit("info");
    reveal_strlit("debug");
    reveal_strlit("trace");
    assert(label_text(a).len() > 0 && label_text(b).len() > 0);
    if a != b {
        assert(label_text(a)[0] != label_text(b)[0]);
    }
}

/// The logger of the command line: it prints each shown record on
/// standard error, after a bold label (or the record's action) in the
/// colour of its level.
pub struct Logger;

impl Logger {
    /// Whether a record of `level` is shown when `max` is the most detailed
    /// level shown.
    pub fn enabled(&self, level: Level, max: LevelFilter) -> (r: bool)
        ensures
            r == (level.rank() <= max.rank()),
    {
        let rank: u8 = match level {
            Level::Error => 1,
            Level::Warn => 2,
            Level::Info => 3,
            Level::Debug => 4,
            Level::Trace => 5,
        };
        let most: u8 = match max {
            LevelFilter::Off => 0,
            LevelFilter::Error => 1,
            LevelFilter::Warn => 2,
            LevelFilter::Info => 3,
            LevelFilter::Debug => 4,
            LevelFilter::Trace => 5,
        };
        rank <= most
    }

    /// The label of a record of `level` that names no action.
    pub fn label(level: Level) -> (r: &'static str)
        ensures
            r@ == label_text(level),
    {
        match level {
            Level::Error => "error",
            Level::Warn => "warning",
            Level::Info => "info",
            Level::Debug => "debug",
            Level::Trace => "trace",
        }
    }

    /// How many spaces go before a record's action, so that the action ends
    /// in the twelfth column; a longer action gets none.
    pub fn action_padding(action: &str) -> (r: usize)
        ensures
            r == if action@.len() < 12 {
                12 - action@.len()
            } else {
                0
            },
    {
        let length = action.unicode_len();
        if length < 12 {
            12 - length
        } else {
            0
        }
    }

    /// The colour that the label or action of a record of `level` is
    /// printed in.
    pub fn colour(level: Level) -> (r: Colour)
        ensures
            r == colour_of(level),
    {
        match level {
            Level::Error => Colour::Red,
            Level::Warn => Colour::Yellow,
            Level::Info => Colour::Green,
            Level::Debug => Colour::Blue,
            Level::Trace => Colour::Purple,
        }
    }
}

/// How the command line logs, given its `--quiet` flag and how many times
/// `--verbose` was given.
#[derive(Debug, Clone, Copy, PartialEq, Eq, Structural)]
pub struct LogSettings {
    pub max_level: LevelFilter,
    /// Warn that `--quiet` and `--verbose` were both given.
    pub warn_quiet_and_verbose: bool,
    /// Warn that `--verbose` was given more than twice.
    pub warn_too_verbose: bool,
}

/// The settings: `--verbose` once shows debug records and twice trace
/// records, whatever `--quiet` says; otherwise `--quiet` shows warnings and
/// errors only, and the default is to show information too.
pub fn log_settings(quiet: bool, verbose: u8) -> (r: LogSettings)
    ensures
        r.max_level == (if verbose == 1 {
            LevelFilter::Debug
        } else if verbose == 2 {
            LevelFilter::Trace
        } else if quiet {
            LevelFilter::Warn
        } else {
            LevelFilter::Info
        }),
        r.warn_quiet_and_verbose == (quiet && verbose > 0),
        r.warn_too_verbose == (verbose > 2),
{
    let mut max_level = LevelFilter::Info;
    if quiet {
        max_level = LevelFilter::Warn;
    }
    if verbose == 1 {
        max_level = LevelFilter::Debug;
    } else if verbose == 2 {
        max_level = LevelFilter::Trace;
    }
    LogSettings { max_level, warn_quiet_and_verbose: quiet && verbose > 0, warn_too_verbose: verbose > 2 }
}

} // verus!
