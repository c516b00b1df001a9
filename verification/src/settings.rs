//! The settings of the game server program: logging, the async runtime, and
//! the network endpoint.

use vstd::prelude::*;

verus! {

/// All settings of the server program.
#[derive(Debug)]
pub struct Settings {
    pub logging: Logging,
    pub runtime: Runtime,
    pub server: Server,
}

impl Default for Settings {
    fn default() -> (res: Self)
        ensures
            res.logging.level@ == "info"@,
            res.runtime.threaded,
            res.runtime.core_threads >= 1,
            res.runtime.max_threads == res.runtime.core_threads.wrapping_mul(2),
            res.runtime.thread_name@ == "async-worker"@,
            res.server.bind_addr@ == "127.0.0.1:3000"@,
            res.server.client_files_path@ == "./ui/"@,
    {
        Settings { logging: Logging::default(), runtime: Runtime::default(), server: Server::default() }
    }
}

#[derive(Debug)]
pub struct Logging {
    /// The level of the log messages to record.
    pub level: String,
}

impl Default for Logging {
    fn default() -> (res: Self)
        ensures
            res.level@ == "info"@,
    {
        Logging { level: "info".to_owned() }
    }
}

/// The settings of the async runtime.
#[derive(Debug)]
pub struct Runtime {
    pub threaded: bool,
    pub core_threads: usize,
    pub max_threads: usize,
    pub thread_name: String,
}

/// Calls `num_cpus::get_physical()`: the number of physical cores of the
/// machine (the number of logical CPUs where that cannot be told). The number
/// depends on the machine; what num_cpus documents of every outcome is that
/// it is at least 1.
#[verifier::external_body]
fn physical_cores() -> (res: usize)
    ensures
        res >= 1,
{
    num_cpus::get_physical()
}

impl Default for Runtime {
    /// One core thread per physical core of the machine, and twice as many
    /// threads at most: `Runtime::with_cores` of the core count.
    fn default() -> (res: Self)
        ensures
            res.threaded,
            res.core_threads >= 1,
            res.max_threads == res.core_threads.wrapping_mul(2),
            res.core_threads <= usize::MAX / 2 ==> res.max_threads == 2 * res.core_threads,
            res.thread_name@ == "async-worker"@,
    {
        Runtime::with_cores(physical_cores())
    }
}

impl Runtime {
    /// The runtime settings for a machine with `cores` cores: one core thread
    /// per core, and twice as many threads at most (the product wraps on
    /// overflow).
    pub fn with_cores(cores: usize) -> (res: Self)
        ensures
            res.threaded,
            res.core_threads == cores,
            res.max_threads == cores.wrapping_mul(2),
            cores <= usize::MAX / 2 ==> res.max_threads == 2 * cores,
            res.thread_name@ == "async-worker"@,
    {
        let max_threads: usize = cores.wrapping_mul(2);
        proof {
            if cores <= usize::MAX / 2 {
                assert(cores.wrapping_mul(2) == 2 * cores) by (nonlinear_arith)
                    requires
                        cores <= usize::MAX / 2,
                ;
            }
        }
        Runtime { threaded: true, core_threads: cores, max_threads, thread_name: "async-worker".to_owned() }
    }

    /// The maximum number of threads to give the runtime: it must be greater
    /// than the number of core threads, so when it is not, it becomes one
    /// more than that.
    pub fn adjusted_max_threads(&self) -> (res: usize)
        requires
            self.core_threads < usize::MAX,
        ensures
            res == if self.core_threads >= self.max_threads {
                self.core_threads + 1
            } else {
                self.max_threads as int
            },
            res > self.core_threads,
            res >= self.max_threads,
    {
        if self.core_threads >= self.max_threads {
            self.core_threads + 1
        } else {
            self.max_threads
        }
    }
}

/// The network settings of the server.
#[derive(Debug)]
pub struct Server {
    /// The address to listen on.
    pub bind_addr: String,
    /// The directory of the files of the web client.
    pub client_files_path: String,
}

impl Default for Server {
    fn default() -> (res: Self)
        ensures
            res.bind_addr@ == "127.0.0.1:3000"@,
            res.client_files_path@ == "./ui/"@,
    {
        Server { bind_addr: "127.0.0.1:3000".to_owned(), client_files_path: "./ui/".to_owned() }
    }
}

} // verus!
