//! What a caller can ask of a copy.

use vstd::prelude::*;

verus! {

/// The execution strategies a copy can be run with.
#[derive(Debug, Clone, Copy, PartialEq, Eq, Structural)]
pub enum DriverKind {
    /// One operation at a time, on the caller's thread.
    Sequential,
    /// Operations spread over a fixed pool of workers.
    Parallel,
}

/// How much the run tells about itself.
#[derive(Debug, Clone, Copy, PartialEq, Eq, Structural)]
pub enum LogLevel {
    Warn,
    Info,
    Debug,
    Trace,
}

/// The block size used when none is asked for.
pub const DEFAULT_BLOCK_SIZE: u64 = 1048576;

/// The options of one invocation.
#[derive(Debug, Clone)]
pub struct Opts {
    /// How often the verbosity flag was given.
    pub verbose: u64,
    /// Descend into directories.
    pub recursive: bool,
    /// Copy what a symbolic link points at, rather than the link.
    pub dereference: bool,
    /// Refuse to overwrite what exists.
    pub no_clobber: bool,
    /// The number of workers; zero leaves the choice to the machine.
    pub workers: u64,
    /// The number of bytes moved by one buffered step.
    pub block_size: u64,
    /// The strategy asked for.
    pub driver: DriverKind,
    /// Carry mode bits, timestamps and ownership over, as far as possible.
    pub preserve_metadata: bool,
    /// The sources, in order, followed by the destination.
    pub paths: Vec<String>,
}

/// The level that a verbosity count stands for.
pub open spec fn level_of(verbose: u64) -> LogLevel {
    if verbose == 0 {
        LogLevel::Warn
    } else if verbose == 1 {
        LogLevel::Info
    } else if verbose == 2 {
        LogLevel::Debug
    } else {
        LogLevel::Trace
    }
}

/// The size of the worker pool: the number asked for, or, where none was
/// asked for, the number of hardware threads, and never less than one.
pub open spec fn pool_size(configured: u64, available: u64) -> u64 {
    if configured > 0 {
        configured
    } else if available > 0 {
        available
    } else {
        1
    }
}

/// Maps the number of verbosity flags to a log level: none warns, one
/// informs, two debug, more trace.
pub fn log_level(verbose: u64) -> (level: LogLevel)
    ensures
        level == level_of(verbose),
{
    match verbose {
        0 => LogLevel::Warn,
        1 => LogLevel::Info,
        2 => LogLevel::Debug,
        _ => LogLevel::Trace,
    }
}

impl Opts {
    /// Options for copying `paths` with everything else left at its default:
    /// quiet, flat, links kept as links, overwriting, parallel, the pool
    /// sized by the machine.
    pub fn new(paths: Vec<String>) -> (opts: Opts)
        ensures
            opts == (Opts {
                verbose: 0,
                recursive: false,
                dereference: false,
                no_clobber: false,
                workers: 0,
                block_size: DEFAULT_BLOCK_SIZE,
                driver: DriverKind::Parallel,
                preserve_metadata: false,
                paths,
            }),
    {
        Opts {
            verbose: 0,
            recursive: false,
            dereference: false,
            no_clobber: false,
            workers: 0,
            block_size: DEFAULT_BLOCK_SIZE,
            driver: DriverKind::Parallel,
            preserve_metadata: false,
            paths,
        }
    }

    /// The number of workers to run with on a machine that offers
    /// `available` hardware threads.
    pub fn num_workers(&self, available: u64) -> (n: u64)
        ensures
            n == pool_size(self.workers, available),
            n >= 1,
    {
        if self.workers > 0 {
            self.workers
        } else if available > 0 {
            available
        } else {
            1
        }
    }
}

} // verus!
