//! Options for the timing harness that runs a program repeatedly and
//! reports each run's duration. The harness itself — argument parsing,
//! clocks, output — is the embedding program's; only the option record
//! lives here.

use vstd::prelude::*;

verus! {

/// The timing harness's options: the file to run, and optional caps on
/// how many runs to make and how many seconds to spend.
#[derive(Debug)]
pub struct Args {
    pub run_file: String,
    pub max_runs: Option<u32>,
    pub max_time: Option<u64>,
    pub help: bool,
}

impl Default for Args {
    /// No file, no caps, no help.
    fn default() -> (a: Args)
        ensures
            a.run_file@ == Seq::<char>::empty(),
            a.max_runs is None,
            a.max_time is None,
            !a.help,
    {
        Args { run_file: String::new(), max_runs: None, max_time: None, help: false }
    }
}

} // verus!
