//! Resilient variant of the dispatch loop: processing failures are ignored
//! and the loop runs on; only the stop sentinel ends it. It predates the
//! strict dispatcher and is kept as the alternative policy.

use crate::dispatcher::{has_stop, log_notice, log_watch_error, new_file_paths, paths_of};
use crate::processor::EventProcessor;
use crate::provider::{outcome_of, Event, EventProvider, EventV};
use vstd::prelude::*;

verus! {

/// The domain-event alphabet under its older name, as this dispatcher's
/// callers know it.
pub type FsEvent = Event;

/// Dispatcher with the resilient policy: every creation event up to the stop
/// sentinel reaches the processor, whatever the processor reports.
pub struct FsEventDispatcher<R: EventProvider, P: EventProcessor> {
    pub provider: R,
    pub processor: P,
}

impl<R: EventProvider, P: EventProcessor> FsEventDispatcher<R, P> {
    /// Couple a provider and a processor into a resilient dispatcher.
    pub fn new(provider: R, processor: P) -> (d: Self)
        ensures
            d.provider == provider,
            d.processor == processor,
    {
        FsEventDispatcher { provider, processor }
    }

    /// Run the loop until the stop sentinel. Every creation event before the
    /// first stop sentinel reaches the processor, in stream order; failures
    /// reported by the processor do not end the loop; non-creation events and
    /// provider errors are logged and skipped.
    pub fn handle(&mut self)
        requires
            has_stop(old(self).provider.upcoming()),
        ensures
            ({
                let before = old(self).provider.upcoming();
                let after = final(self).provider.upcoming();
                let n = before.len() - after.len();
                let consumed = before.take(n);
                let new_calls = final(self).processor.processed().skip(
                    old(self).processor.processed().len() as int,
                );
                &&& 0 < n <= before.len()
                &&& after == before.skip(n)
                &&& final(self).processor.processed() == old(self).processor.processed()
                    + new_calls
                &&& paths_of(new_calls) == new_file_paths(consumed)
                &&& forall|i: int| 0 <= i < n - 1 ==> before[i] != Some(EventV::Stop)
                &&& before[n - 1] == Some(EventV::Stop)
            }),
    {
        let ghost before = self.provider.upcoming();
        let ghost procd0 = self.processor.processed();
        let ghost mut n: int = 0;
        loop
            invariant_except_break
                before == old(self).provider.upcoming(),
                procd0 == old(self).processor.processed(),
                0 <= n <= before.len(),
                self.provider.upcoming() == before.skip(n),
                has_stop(self.provider.upcoming()),
                forall|i: int| 0 <= i < n ==> before[i] != Some(EventV::Stop),
                procd0.len() <= self.processor.processed().len(),
                self.processor.processed().take(procd0.len() as int) == procd0,
                paths_of(self.processor.processed().skip(procd0.len() as int))
                    == new_file_paths(before.take(n)),
            ensures
                before == old(self).provider.upcoming(),
                procd0 == old(self).processor.processed(),
                0 < n <= before.len(),
                self.provider.upcoming() == before.skip(n),
                before[n - 1] == Some(EventV::Stop),
                forall|i: int| 0 <= i < n - 1 ==> before[i] != Some(EventV::Stop),
                procd0.len() <= self.processor.processed().len(),
                self.processor.processed().take(procd0.len() as int) == procd0,
                paths_of(self.processor.processed().skip(procd0.len() as int))
                    == new_file_paths(before.take(n)),
            decreases self.provider.upcoming().len(),
        {
            proof {
                let w = choose|i: int|
                    0 <= i < self.provider.upcoming().len() && self.provider.upcoming()[i]
                        == Some(EventV::Stop);
                assert(self.provider.upcoming().len() > 0);
            }
            let ghost upc_prev = self.provider.upcoming();
            let reply = self.provider.next();
            proof {
                n = n + 1;
                assert(outcome_of(reply) == upc_prev[0]);
                assert(upc_prev[0] == before[n - 1]);
                assert(self.provider.upcoming() =~= before.skip(n));
                assert(before.take(n).drop_last() =~= before.take(n - 1));
                assert(before.take(n).last() == before[n - 1]);
            }
            match reply {
                Ok(Event::NewFile(p)) => {
                    proof {
                        assert(new_file_paths(before.take(n)) =~= new_file_paths(
                            before.take(n - 1),
                        ).push(p@));
                    }
                    let _ = self.processor.process(&p);
                    proof {
                        assert(self.processor.processed().take(procd0.len() as int) =~= procd0);
                        assert(paths_of(self.processor.processed().skip(procd0.len() as int))
                            =~= new_file_paths(before.take(n)));
                        crate::dispatcher::lemma_stop_stays(upc_prev, before, n);
                    }
                },
                Ok(Event::Other) => {
                    log_notice("different event");
                    proof {
                        assert(new_file_paths(before.take(n)) =~= new_file_paths(
                            before.take(n - 1),
                        ));
                        crate::dispatcher::lemma_stop_stays(upc_prev, before, n);
                    }
                },
                Ok(Event::Stop) => {
                    proof {
                        assert(new_file_paths(before.take(n)) =~= new_file_paths(
                            before.take(n - 1),
                        ));
                    }
                    break;
                },
                Err(e) => {
                    log_watch_error(&e);
                    proof {
                        assert(new_file_paths(before.take(n)) =~= new_file_paths(
                            before.take(n - 1),
                        ));
                        crate::dispatcher::lemma_stop_stays(upc_prev, before, n);
                    }
                },
            }
        }
        proof {
            let new_calls = self.processor.processed().skip(procd0.len() as int);
            assert(self.processor.processed() =~= procd0 + new_calls);
        }
    }
}

} // verus!
