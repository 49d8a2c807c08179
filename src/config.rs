use vstd::prelude::*;

verus! {

/// The number of workers a server runs with when none is asked for.
pub const DEFAULT_THREAD_COUNT: usize = 4;

/// The smallest number of workers a server accepts.
pub const MIN_THREAD_COUNT: usize = 1;

/// The settings a server is started with, as given on its command line.
pub struct Args {
    /// The address the server listens on, as text.
    pub socket: String,
    /// The number of workers in the server's pool.
    pub threads: usize,
}

/// Why a server's settings were refused.
#[derive(Debug, PartialEq, Eq)]
pub enum ConfigError {
    /// The pool was asked for fewer than one worker; holds the number asked for.
    TooFewThreads(usize),
    /// The address is not an IPv4 or IPv6 socket address; holds the text given.
    InvalidSocket(String),
}

impl Args {
    /// Settings with the given address text and worker count.
    pub fn new(socket: String, threads: usize) -> (r: Args)
        ensures
            r.socket@ == socket@,
            r.threads == threads,
    {
        Args { socket, threads }
    }

    /// The worker count, or the error that refuses it when it is below
    /// one.
    pub fn thread_count(&self) -> (r: Result<usize, ConfigError>)
        ensures
            self.threads >= MIN_THREAD_COUNT ==> r == Ok::<usize, ConfigError>(self.threads),
            self.threads < MIN_THREAD_COUNT ==> r == Err::<usize, ConfigError>(
                ConfigError::TooFewThreads(self.threads),
            ),
    {
        if self.threads < MIN_THREAD_COUNT {
            Err(ConfigError::TooFewThreads(self.threads))
        } else {
            Ok(self.threads)
        }
    }
}

} // verus!
