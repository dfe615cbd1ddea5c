//! The console of the script, on the host's side.
use vstd::prelude::*;
use crate::value::JsValue;

verus! {

/// Log level of a message sent via the console. The levels stand for the
/// functions of the console.
#[derive(PartialEq, Eq, Clone, Copy, Debug, Structural)]
pub enum Level {
    Trace,
    Debug,
    Log,
    Info,
    Warn,
    Error,
}

/// The name of a level.
pub open spec fn level_name(level: Level) -> Seq<char> {
    match level {
        Level::Trace => "trace"@,
        Level::Debug => "debug"@,
        Level::Log => "log"@,
        Level::Info => "info"@,
        Level::Warn => "warn"@,
        Level::Error => "error"@,
    }
}

/// The level of a name, if the name is that of a level.
pub open spec fn level_named(name: Seq<char>) -> Option<Level> {
    if name == "trace"@ {
        Some(Level::Trace)
    } else if name == "debug"@ {
        Some(Level::Debug)
    } else if name == "log"@ {
        Some(Level::Log)
    } else if name == "info"@ {
        Some(Level::Info)
    } else if name == "warn"@ {
        Some(Level::Warn)
    } else if name == "error"@ {
        Some(Level::Error)
    } else {
        None
    }
}

/// Whether two texts are the same.
fn same_text(a: &str, b: &str) -> (same: bool)
    ensures
        same == (a@ == b@),
{
    let x = String::from_str(a);
    let y = String::from_str(b);
    x == y
}

impl Level {
    /// The name of the level, as the console's functions are named.
    pub fn as_str(&self) -> (name: &'static str)
        ensures
            name@ == level_name(*self),
    {
        match self {
            Level::Trace => "trace",
            Level::Debug => "debug",
            Level::Log => "log",
            Level::Info => "info",
            Level::Warn => "warn",
            Level::Error => "error",
        }
    }

    /// The level of a name, if the name is that of a level.
    pub fn from_name(name: &str) -> (level: Option<Level>)
        ensures
            level == level_named(name@),
    {
        if same_text(name, "trace") {
            Some(Level::Trace)
        } else if same_text(name, "debug") {
            Some(Level::Debug)
        } else if same_text(name, "log") {
            Some(Level::Log)
        } else if same_text(name, "info") {
            Some(Level::Info)
        } else if same_text(name, "warn") {
            Some(Level::Warn)
        } else if same_text(name, "error") {
            Some(Level::Error)
        } else {
            None
        }
    }
}

/// A handler of the messages that the script sends via its console.
pub trait ConsoleBackend {
    /// Handles a message.
    fn log(&self, level: Level, values: Vec<JsValue>);
}

/// The level and the values of a console message, as they arrive from the
/// script: the first argument names the level, the others are the values.
/// A message without values, or with a first argument that names no level,
/// is no message.
pub fn console_message(args: Vec<JsValue>) -> (r: Option<(Level, Vec<JsValue>)>)
    ensures
        match r {
            Some((level, values)) => {
                &&& args@.len() > 1
                &&& args@[0] matches JsValue::String(name) && level_named(name@) == Some(level)
                &&& values@ == args@.subrange(1, args@.len() as int)
            },
            None => args@.len() <= 1 || !(args@[0] matches JsValue::String(name) && level_named(
                name@,
            ).is_some()),
        },
{
    if args.len() <= 1 {
        return None;
    }
    let ghost all = args@;
    let mut args = args;
    let level_raw = args.remove(0);
    assert(args@ =~= all.subrange(1, all.len() as int)) by {
        assert(args@ == all.remove(0));
    }
    let level = match level_raw.as_str() {
        Some(name) => Level::from_name(name),
        None => None,
    };
    match level {
        Some(level) => Some((level, args)),
        None => None,
    }
}

/// Whether the arguments are a console message: more than one argument,
/// of which the first is a text that names a level.
pub open spec fn is_console_message(args: Seq<JsValue>) -> bool {
    args.len() > 1 && (args[0] matches JsValue::String(name) && level_named(name@).is_some())
}

/// Hands a console message to a backend, where the arguments are one, and
/// tells whether they were. What the backend makes of the message is the
/// backend's matter.
pub fn dispatch_console<B: ConsoleBackend>(backend: &B, args: Vec<JsValue>) -> (handled: bool)
    ensures
        handled == is_console_message(args@),
{
    match console_message(args) {
        Some((level, values)) => {
            backend.log(level, values);
            true
        },
        None => false,
    }
}

/// The severity under which a logging backend files a message.
#[derive(PartialEq, Eq, Clone, Copy, Debug, Structural)]
pub enum Severity {
    Trace,
    Debug,
    Info,
    Warn,
    Error,
}

/// A console that files messages with a logging backend.
#[derive(PartialEq, Eq, Clone, Copy, Debug, Structural)]
pub struct LogConsole;

impl LogConsole {
    /// The severity under which a message of a level is filed: plain log
    /// messages count as information.
    pub fn severity(level: Level) -> (severity: Severity)
        ensures
            severity == (match level {
                Level::Trace => Severity::Trace,
                Level::Debug => Severity::Debug,
                Level::Log => Severity::Info,
                Level::Info => Severity::Info,
                Level::Warn => Severity::Warn,
                Level::Error => Severity::Error,
            }),
    {
        match level {
            Level::Trace => Severity::Trace,
            Level::Debug => Severity::Debug,
            Level::Log => Severity::Info,
            Level::Info => Severity::Info,
            Level::Warn => Severity::Warn,
            Level::Error => Severity::Error,
        }
    }
}

} // verus!
