//! The levels of log messages, as the `log` crate names them, and the line that a printing
//! logger writes for a message.

use vstd::prelude::*;

verus! {

/// The verbosity of a log message, from the most severe to the least: the levels of the
/// `log` crate, as plain values.
#[derive(Debug, Copy, Clone, PartialEq, Eq, PartialOrd, Ord, Hash)]
pub enum Level {
    Error,
    Warn,
    Info,
    Debug,
    Trace,
}

/// The name of a level: its variant's name in capitals.
pub open spec fn level_name(l: Level) -> Seq<char> {
    match l {
        Level::Error => "ERROR"@,
        Level::Warn => "WARN"@,
        Level::Info => "INFO"@,
        Level::Debug => "DEBUG"@,
        Level::Trace => "TRACE"@,
    }
}

/// `log::Level::as_str`: the `log` crate names each level by its variant's name in
/// capitals (its table `LOG_LEVEL_NAMES`); its `Display` writes the same name.
#[verifier::external_body]
fn log_level_name(l: Level) -> (r: &'static str)
    ensures
        r@ == level_name(l),
{
    let level = match l {
        Level::Error => log::Level::Error,
        Level::Warn => log::Level::Warn,
        Level::Info => log::Level::Info,
        Level::Debug => log::Level::Debug,
        Level::Trace => log::Level::Trace,
    };
    level.as_str()
}

impl Level {
    /// The name of the level, as the `log` crate writes it.
    pub fn name(self) -> (r: String)
        ensures
            r@ == level_name(self),
    {
        String::from_str(log_level_name(self))
    }
}

/// The line that a printing logger writes: the level's name in brackets, a space, and the
/// message: `[INFO] message`.
pub fn log_line(level: Level, message: &str) -> (r: String)
    ensures
        r@ == "["@ + level_name(level) + "] "@ + message@,
{
    let mut out = String::from_str("[");
    out.append(log_level_name(level));
    out.append("] ");
    out.append(message);
    out
}

} // verus!
