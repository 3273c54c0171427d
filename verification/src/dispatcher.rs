//! The dispatch loop: pulls domain events from a provider and routes them to
//! a processor, handling each event variant per policy. A processing failure
//! aborts the loop (strict policy); a provider error is logged and the loop
//! continues; the stop sentinel ends the loop normally.

use crate::processor::{EventProcessor, ProcCall, ProcessError};
use crate::provider::{outcome_of, Event, EventProvider, EventV, ProviderError};
use std::io::Write;
use vstd::prelude::*;

verus! {

/// What the dispatcher does with one pulled outcome.
#[derive(Debug, Clone, PartialEq, Eq)]
pub enum Action {
    /// Hand the newly created file at the carried path to the processor.
    Transfer(String),
    /// Log an informational notice; the event needs no further action.
    ReportOther,
    /// Log the provider's error; dispatch continues.
    ReportProviderError,
    /// Leave the dispatch loop normally.
    Shutdown,
}

/// Mathematical value of an action.
pub enum ActionV {
    Transfer(Seq<char>),
    ReportOther,
    ReportProviderError,
    Shutdown,
}

impl View for Action {
    type V = ActionV;

    open spec fn view(&self) -> ActionV {
        match self {
            Action::Transfer(p) => ActionV::Transfer(p@),
            Action::ReportOther => ActionV::ReportOther,
            Action::ReportProviderError => ActionV::ReportProviderError,
            Action::Shutdown => ActionV::Shutdown,
        }
    }
}

/// The dispatch policy, one outcome at a time: a creation event is handed
/// over for transfer, a non-creation event and a provider error are logged,
/// and the stop sentinel ends the loop.
pub open spec fn spec_route(o: Option<EventV>) -> ActionV {
    match o {
        Some(EventV::NewFile(p)) => ActionV::Transfer(p),
        Some(EventV::Other) => ActionV::ReportOther,
        Some(EventV::Stop) => ActionV::Shutdown,
        None => ActionV::ReportProviderError,
    }
}

/// Decide the action for one provider outcome. The long-running daemon loop
/// drives the live watch source through this same decision table.
pub fn route(r: Result<Event, ProviderError>) -> (a: Action)
    ensures
        a@ == spec_route(outcome_of(r)),
{
    match r {
        Ok(Event::NewFile(p)) => Action::Transfer(p),
        Ok(Event::Other) => Action::ReportOther,
        Ok(Event::Stop) => Action::Shutdown,
        Err(_) => Action::ReportProviderError,
    }
}

/// The paths of the creation events in a stream of outcomes, in order.
pub open spec fn new_file_paths(s: Seq<Option<EventV>>) -> Seq<Seq<char>>
    decreases s.len(),
{
    if s.len() == 0 {
        Seq::empty()
    } else {
        let rest = new_file_paths(s.drop_last());
        match s.last() {
            Some(EventV::NewFile(p)) => rest.push(p),
            _ => rest,
        }
    }
}

/// Whether a stream of outcomes contains the stop sentinel.
pub open spec fn has_stop(s: Seq<Option<EventV>>) -> bool {
    exists|i: int| 0 <= i < s.len() && s[i] == Some(EventV::Stop)
}

/// The paths of a history of processor invocations, in order.
pub open spec fn paths_of(calls: Seq<ProcCall>) -> Seq<Seq<char>> {
    calls.map_values(|c: ProcCall| c.path)
}

/// Relies on the standard library's standard-output handle: writes one
/// informational line. Observability only; nothing is stated of it.
#[verifier::external_body]
pub(crate) fn log_notice(msg: &str) {
    let _ = writeln!(std::io::stdout(), "{}", msg);
}

/// Relies on the standard library's standard-error handle: writes one line
/// reporting a provider error. Observability only; nothing is stated of it.
#[verifier::external_body]
pub(crate) fn log_watch_error(e: &ProviderError) {
    let _ = writeln!(std::io::stderr(), "watch error: {:?}", e);
}

/// The event dispatcher: borrows nothing back from its components, owns a
/// provider and a processor, and runs the receive-dispatch loop.
pub struct EventDispatcher<R: EventProvider, P: EventProcessor> {
    pub provider: R,
    pub processor: P,
}

impl<R: EventProvider, P: EventProcessor> EventDispatcher<R, P> {
    /// Couple a provider and a processor into a dispatcher.
    pub fn new(provider: R, processor: P) -> (d: Self)
        ensures
            d.provider == provider,
            d.processor == processor,
    {
        EventDispatcher { provider, processor }
    }

    /// Run the dispatch loop until the stop sentinel or a processing failure.
    ///
    /// The stream must contain the stop sentinel: the sentinel is how a
    /// finite (in-memory) stream closes, and the loop would otherwise demand
    /// events past the end of the script. Consumed outcomes are handled
    /// exactly as the policy says: every creation event before the exit point
    /// reaches the processor, in stream order; non-creation events and
    /// provider errors are logged and skipped; the first stop sentinel, or
    /// the first processing failure, ends the loop, and nothing past the exit
    /// point is consumed.
    pub fn dispatch(&mut self) -> (r: Result<(), ProcessError>)
        requires
            has_stop(old(self).provider.upcoming()),
        ensures
            ({
                let before = old(self).provider.upcoming();
                let after = final(self).provider.upcoming();
                let n = before.len() - after.len();
                let consumed = before.take(n);
                let new_calls = final(self).processor.processed().skip(
                    old(self).processor.processed().len() as int,
                );
                &&& 0 < n <= before.len()
                &&& after == before.skip(n)
                &&& final(self).processor.processed() == old(self).processor.processed()
                    + new_calls
                &&& paths_of(new_calls) == new_file_paths(consumed)
                &&& forall|i: int| 0 <= i < n - 1 ==> before[i] != Some(EventV::Stop)
                &&& forall|i: int|
                    0 <= i < new_calls.len() - 1 ==> (#[trigger] new_calls[i].result) is Ok
                &&& r matches Ok(()) ==> before[n - 1] == Some(EventV::Stop) && (forall|i: int|
                    0 <= i < new_calls.len() ==> (#[trigger] new_calls[i].result) is Ok)
                &&& r matches Err(e) ==> {
                    &&& new_calls.len() > 0
                    &&& new_calls.last().result == Err::<(), ProcessError>(e)
                    &&& before[n - 1] == Some(EventV::NewFile(new_calls.last().path))
                }
            }),
    {
        let ghost before = self.provider.upcoming();
        let ghost procd0 = self.processor.processed();
        let ghost mut n: int = 0;
        loop
            invariant_except_break
                before == old(self).provider.upcoming(),
                procd0 == old(self).processor.processed(),
                0 <= n <= before.len(),
                self.provider.upcoming() == before.skip(n),
                has_stop(self.provider.upcoming()),
                forall|i: int| 0 <= i < n ==> before[i] != Some(EventV::Stop),
                procd0.len() <= self.processor.processed().len(),
                self.processor.processed().take(procd0.len() as int) == procd0,
                paths_of(self.processor.processed().skip(procd0.len() as int))
                    == new_file_paths(before.take(n)),
                forall|i: int|
                    procd0.len() <= i < self.processor.processed().len() ==> (
                    #[trigger] self.processor.processed()[i].result) is Ok,
            ensures
                before == old(self).provider.upcoming(),
                procd0 == old(self).processor.processed(),
                0 < n <= before.len(),
                self.provider.upcoming() == before.skip(n),
                before[n - 1] == Some(EventV::Stop),
                forall|i: int| 0 <= i < n - 1 ==> before[i] != Some(EventV::Stop),
                self.processor.processed().take(procd0.len() as int) == procd0,
                procd0.len() <= self.processor.processed().len(),
                paths_of(self.processor.processed().skip(procd0.len() as int))
                    == new_file_paths(before.take(n)),
                forall|i: int|
                    procd0.len() <= i < self.processor.processed().len() ==> (
                    #[trigger] self.processor.processed()[i].result) is Ok,
            decreases self.provider.upcoming().len(),
        {
            proof {
                let w = choose|i: int|
                    0 <= i < self.provider.upcoming().len() && self.provider.upcoming()[i]
                        == Some(EventV::Stop);
                assert(self.provider.upcoming().len() > 0);
            }
            let ghost upc_prev = self.provider.upcoming();
            let reply = self.provider.next();
            proof {
                n = n + 1;
                assert(outcome_of(reply) == upc_prev[0]);
                assert(upc_prev[0] == before[n - 1]);
                assert(self.provider.upcoming() =~= before.skip(n));
                assert(before.take(n).drop_last() =~= before.take(n - 1));
                assert(before.take(n).last() == before[n - 1]);
            }
            match reply {
                Ok(Event::NewFile(p)) => {
                    proof {
                        assert(new_file_paths(before.take(n)) =~= new_file_paths(
                            before.take(n - 1),
                        ).push(p@));
                    }
                    let ghost calls_prev = self.processor.processed();
                    match self.processor.process(&p) {
                        Ok(()) => {
                            proof {
                                assert(self.processor.processed().take(procd0.len() as int)
                                    =~= procd0);
                                assert(paths_of(
                                    self.processor.processed().skip(procd0.len() as int),
                                ) =~= new_file_paths(before.take(n)));
                                lemma_stop_stays(upc_prev, before, n);
                            }
                        },
                        Err(e) => {
                            proof {
                                let new_calls = self.processor.processed().skip(
                                    procd0.len() as int,
                                );
                                assert(self.processor.processed().take(procd0.len() as int)
                                    =~= procd0);
                                assert(self.processor.processed() =~= procd0 + new_calls);
                                assert(new_calls.last() == ProcCall {
                                    path: p@,
                                    result: Err::<(), ProcessError>(e),
                                });
                                assert(paths_of(new_calls) =~= new_file_paths(before.take(n)));
                                assert(final(self).provider.upcoming() == before.skip(n));
                            }
                            return Err(e);
                        },
                    }
                },
                Ok(Event::Other) => {
                    log_notice("different event");
                    proof {
                        assert(new_file_paths(before.take(n)) =~= new_file_paths(
                            before.take(n - 1),
                        ));
                        lemma_stop_stays(upc_prev, before, n);
                    }
                },
                Ok(Event::Stop) => {
                    proof {
                        assert(before[n - 1] == Some(EventV::Stop));
                        assert(new_file_paths(before.take(n)) =~= new_file_paths(
                            before.take(n - 1),
                        ));
                    }
                    break;
                },
                Err(e) => {
                    log_watch_error(&e);
                    proof {
                        assert(new_file_paths(before.take(n)) =~= new_file_paths(
                            before.take(n - 1),
                        ));
                        lemma_stop_stays(upc_prev, before, n);
                    }
                },
            }
        }
        proof {
            let new_calls = self.processor.processed().skip(procd0.len() as int);
            assert(self.processor.processed() =~= procd0 + new_calls);
        }
        Ok(())
    }
}

/// After one non-stop outcome is consumed, the rest of the stream still
/// contains the stop sentinel.
pub(crate) proof fn lemma_stop_stays(upc_prev: Seq<Option<EventV>>, before: Seq<Option<EventV>>, n: int)
    requires
        0 < n <= before.len(),
        upc_prev == before.skip(n - 1),
        has_stop(upc_prev),
        before[n - 1] != Some(EventV::Stop),
    ensures
        has_stop(before.skip(n)),
{
    let w = choose|i: int|
        0 <= i < upc_prev.len() && upc_prev[i] == Some(EventV::Stop);
    assert(upc_prev[0] == before[n - 1]);
    assert(w >= 1);
    assert(before.skip(n)[w - 1] == upc_prev[w]);
}

} // verus!
