//! Processing side of the pipeline: the contract every event processor obeys,
//! the in-memory spy used by tests, and the decision logic of the real
//! processor that hands new files to the external transfer command.

use crate::settings::Settings;
use vstd::prelude::*;
use vstd::string::StringExecFns;

verus! {

/// Failure of one processing attempt. Processing is single-shot: no retry and
/// no queuing; the dispatcher decides whether a failure ends the loop.
#[derive(Debug, Clone, Copy, PartialEq, Eq)]
pub enum ProcessError {
    /// The transfer command ran but exited non-zero, or its exit code could
    /// not be obtained; the code observed, if any, is carried.
    ProcessingFailed(Option<i32>),
    /// The transfer command could not be started at all.
    LaunchFailed,
}

/// One processor invocation, as a mathematical value: the path handed over
/// and the result the processor reported.
pub struct ProcCall {
    pub path: Seq<char>,
    pub result: Result<(), ProcessError>,
}

/// A sink for new-file events. Each call to `process` is one best-effort,
/// synchronous attempt; the full history of attempts is the model.
pub trait EventProcessor: Sized {
    /// Every invocation this processor has received, in order.
    spec fn processed(&self) -> Seq<ProcCall>;

    /// Process one newly created file; the invocation is recorded whether or
    /// not it succeeds.
    fn process(&mut self, path: &String) -> (r: Result<(), ProcessError>)
        ensures
            final(self).processed() == old(self).processed().push(
                ProcCall { path: path@, result: r },
            ),
    ;
}

/// In-memory processor for tests: performs no side effect, records every
/// path it is handed, and reports a fixed, configurable outcome.
pub struct EventProcessorSpy {
    calls: Vec<String>,
    reply: Result<(), ProcessError>,
}

impl EventProcessorSpy {
    /// The outcome this spy reports on every invocation.
    pub closed spec fn outcome(&self) -> Result<(), ProcessError> {
        self.reply
    }

    /// A spy that reports success on every invocation.
    pub fn new() -> (spy: Self)
        ensures
            spy.processed() =~= Seq::<ProcCall>::empty(),
            spy.outcome() == Ok::<(), ProcessError>(()),
    {
        EventProcessorSpy { calls: Vec::new(), reply: Ok(()) }
    }

    /// A spy that reports the given failure on every invocation.
    pub fn failing(e: ProcessError) -> (spy: Self)
        ensures
            spy.processed() =~= Seq::<ProcCall>::empty(),
            spy.outcome() == Err::<(), ProcessError>(e),
    {
        EventProcessorSpy { calls: Vec::new(), reply: Err(e) }
    }

    /// Whether the spy was invoked at all.
    pub fn executed(self) -> (b: bool)
        ensures
            b == (self.processed().len() > 0),
    {
        self.calls.len() > 0
    }

    /// How many invocations the spy received.
    pub fn call_count(&self) -> (n: usize)
        ensures
            n == self.processed().len(),
    {
        self.calls.len()
    }

    /// The paths the spy was handed, in invocation order.
    pub fn calls(self) -> (v: Vec<String>)
        ensures
            v@.len() == self.processed().len(),
            forall|i: int| 0 <= i < v@.len() ==> (#[trigger] v@[i])@ == self.processed()[i].path,
    {
        self.calls
    }
}

impl EventProcessor for EventProcessorSpy {
    closed spec fn processed(&self) -> Seq<ProcCall> {
        self.calls@.map_values(|s: String| ProcCall { path: s@, result: self.reply })
    }

    fn process(&mut self, path: &String) -> (r: Result<(), ProcessError>)
        ensures
            r == old(self).outcome(),
            final(self).outcome() == old(self).outcome(),
    {
        self.calls.push(path.clone());
        proof {
            assert(self.processed() =~= old(self).processed().push(
                ProcCall { path: path@, result: self.reply },
            ));
        }
        self.reply
    }
}

/// The external command that performs a transfer.
pub fn transfer_program() -> (r: &'static str)
    ensures
        r@ == "bt-obex"@,
{
    "bt-obex"
}

/// Decide what one run of the transfer command amounts to: exit code zero is
/// success (the code is returned for logging); any other code, or a missing
/// one, is a processing failure carrying the observed code.
pub fn interpret_exit(code: Option<i32>) -> (r: Result<i32, ProcessError>)
    ensures
        r is Ok <==> code == Some(0i32),
        r matches Ok(c) ==> c == 0,
        code != Some(0i32) ==> r == Err::<i32, ProcessError>(ProcessError::ProcessingFailed(code)),
{
    match code {
        Some(0) => Ok(0),
        other => Err(ProcessError::ProcessingFailed(other)),
    }
}

/// The real processor: forwards each newly created file to the external
/// transfer command, aimed at the configured device. The command invocation
/// itself is outside work; this type fixes what is handed to it and how its
/// exit status is read.
pub struct NewBookEventProcessor<'a> {
    pub settings: &'a Settings,
}

impl<'a> NewBookEventProcessor<'a> {
    /// A processor aimed at the device the settings name.
    pub fn new(settings: &'a Settings) -> (p: Self)
        ensures
            p.settings == settings,
    {
        NewBookEventProcessor { settings }
    }

    /// The exact argument list handed to the transfer command: the
    /// fixed-position device flag, the configured device address, and the
    /// file's path.
    pub fn transfer_args(&self, path: &str) -> (args: Vec<String>)
        ensures
            args@.len() == 3,
            args@[0]@ == "-p"@,
            args@[1]@ == self.settings.device_mac@,
            args@[2]@ == path@,
    {
        let mut args: Vec<String> = Vec::new();
        args.push(String::from_str("-p"));
        args.push(self.settings.device_mac.clone());
        args.push(path.to_owned());
        args
    }
}

} // verus!
