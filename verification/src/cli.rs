//! The command line of the node: which command runs, and how verbose its
//! logs are.

use vstd::prelude::*;

verus! {

/// A log level.
#[derive(Clone, Copy, Debug, PartialEq, Eq, Structural)]
pub enum Level {
    Error,
    Warn,
    Info,
    Debug,
    Trace,
}

/// The filter that the log verbosity selects.
#[derive(Clone, Copy, Debug, PartialEq, Eq, Structural)]
pub enum LogDirective {
    /// Silence all log output.
    Off,
    /// Log at this level and above.
    Level(Level),
}

impl Level {
    /// The level's name, as logs print it.
    pub fn as_str(&self) -> (r: &'static str)
        ensures
            *self == Level::Error ==> r@ == "ERROR"@,
            *self == Level::Warn ==> r@ == "WARN"@,
            *self == Level::Info ==> r@ == "INFO"@,
            *self == Level::Debug ==> r@ == "DEBUG"@,
            *self == Level::Trace ==> r@ == "TRACE"@,
    {
        match self {
            Level::Error => "ERROR",
            Level::Warn => "WARN",
            Level::Info => "INFO",
            Level::Debug => "DEBUG",
            Level::Trace => "TRACE",
        }
    }
}

/// The verbosity settings for the command line.
#[derive(Clone, Copy, Debug)]
pub struct Verbosity {
    /// The number of `-v` flags: 1 errors, 2 warnings, 3 info, 4 debug, 5
    /// and more traces. Defaults to 3.
    pub verbosity: u8,
    /// Silence all log output.
    pub quiet: bool,
}

/// The level that `v` flags select.
pub open spec fn level_of(verbosity: u8) -> Level {
    if verbosity == 1 {
        Level::Error
    } else if verbosity == 2 {
        Level::Warn
    } else if verbosity == 3 {
        Level::Info
    } else if verbosity == 4 {
        Level::Debug
    } else {
        Level::Trace
    }
}

/// How much a level shows, from errors only (1) to everything (5).
pub open spec fn level_detail(l: Level) -> int {
    match l {
        Level::Error => 1,
        Level::Warn => 2,
        Level::Info => 3,
        Level::Debug => 4,
        Level::Trace => 5,
    }
}

/// Each further `-v` flag shows more, up to everything: with `n` flags from
/// one to five, the level shows exactly `n` kinds of message, and more flags
/// never show less.
pub proof fn lemma_more_flags_show_more(v: u8, w: u8)
    requires
        1 <= v,
    ensures
        v <= 5 ==> level_detail(level_of(v)) == v,
        v > 5 ==> level_of(v) == Level::Trace,
        v <= w ==> level_detail(level_of(v)) <= level_detail(level_of(w)),
{
}

impl Verbosity {
    /// The log filter for the given verbosity: none where silenced.
    pub fn directive(&self) -> (r: LogDirective)
        requires
            self.quiet || self.verbosity >= 1,
        ensures
            self.quiet ==> r == LogDirective::Off,
            !self.quiet ==> r == LogDirective::Level(level_of(self.verbosity)),
    {
        if self.quiet {
            LogDirective::Off
        } else {
            let level = match self.verbosity - 1 {
                0 => Level::Error,
                1 => Level::Warn,
                2 => Level::Info,
                3 => Level::Debug,
                _ => Level::Trace,
            };
            LogDirective::Level(level)
        }
    }
}

/// The command `node` and the extension it runs with.
#[derive(Clone, Debug)]
pub struct NodeCommand<Ext> {
    pub ext: Ext,
}

/// Commands to be executed.
#[derive(Clone, Debug)]
pub enum Commands<Ext> {
    /// Start the node.
    Node(NodeCommand<Ext>),
    /// Initialize the database from a genesis file.
    Init,
    /// Sync RLP encoded blocks from a file.
    Import,
    /// Database debugging utilities.
    Db,
    /// Manipulate individual stages.
    Stage,
    /// P2P debugging utilities.
    P2P,
    /// Generate test vectors.
    TestVectors,
    /// Write config to stdout.
    Config,
    /// Various debug routines.
    Debug,
    /// Scripts for node recovery.
    Recover,
}

impl<Ext> Commands<Ext> {
    /// Sets the node extension if the command is `node`; otherwise does
    /// nothing.
    pub fn set_node_extension(&mut self, ext: Ext)
        ensures
            match *old(self) {
                Commands::Node(_) => *final(self) == Commands::Node(NodeCommand { ext }),
                _ => *final(self) == *old(self),
            },
    {
        if let Commands::Node(command) = self {
            command.ext = ext;
        }
    }
}

} // verus!
