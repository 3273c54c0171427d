//! Event source side of the pipeline: the watcher's raw notification
//! alphabet, the reduced domain-event alphabet, and the total translation
//! between them.

use vstd::prelude::*;

verus! {

/// A raw, already-debounced filesystem change notification, as delivered by
/// the external watch mechanism. Paths are carried as plain strings.
#[derive(Debug, Clone, PartialEq, Eq, Hash)]
pub enum RawNotification {
    /// A file was created at the path.
    Created(String),
    /// A file's contents were written.
    Written(String),
    /// A file was removed.
    Removed(String),
    /// A file was renamed from the first path to the second.
    Renamed(String, String),
    /// A file's metadata (permissions, timestamps) changed.
    MetadataChanged(String),
    /// Advisory notice that a write is imminent.
    NoticeWritten(String),
    /// Advisory notice that a removal is imminent.
    NoticeRemoved(String),
    /// The watcher asks for a full rescan of the watched tree.
    Rescan,
    /// The watcher reported an error, possibly tied to a path.
    WatchFailure(Option<String>),
}

/// Mathematical value of a raw notification: the same alphabet over `Seq<char>`.
pub enum RawNotificationV {
    Created(Seq<char>),
    Written(Seq<char>),
    Removed(Seq<char>),
    Renamed(Seq<char>, Seq<char>),
    MetadataChanged(Seq<char>),
    NoticeWritten(Seq<char>),
    NoticeRemoved(Seq<char>),
    Rescan,
    WatchFailure(Option<Seq<char>>),
}

impl View for RawNotification {
    type V = RawNotificationV;

    open spec fn view(&self) -> RawNotificationV {
        match self {
            RawNotification::Created(p) => RawNotificationV::Created(p@),
            RawNotification::Written(p) => RawNotificationV::Written(p@),
            RawNotification::Removed(p) => RawNotificationV::Removed(p@),
            RawNotification::Renamed(p, q) => RawNotificationV::Renamed(p@, q@),
            RawNotification::MetadataChanged(p) => RawNotificationV::MetadataChanged(p@),
            RawNotification::NoticeWritten(p) => RawNotificationV::NoticeWritten(p@),
            RawNotification::NoticeRemoved(p) => RawNotificationV::NoticeRemoved(p@),
            RawNotification::Rescan => RawNotificationV::Rescan,
            RawNotification::WatchFailure(p) => RawNotificationV::WatchFailure(
                match p {
                    Some(s) => Some(s@),
                    None => None,
                },
            ),
        }
    }
}

/// The reduced domain-event alphabet the dispatcher acts on.
#[derive(Debug, Clone, PartialEq, Eq, Hash)]
pub enum Event {
    /// End-of-stream sentinel; terminates the dispatch loop. Emitted only by
    /// in-memory providers: the live watch source never produces it.
    Stop,
    /// A file was created at the carried path.
    NewFile(String),
    /// Any non-creation notification, with no payload.
    Other,
}

/// Mathematical value of a domain event.
pub enum EventV {
    Stop,
    NewFile(Seq<char>),
    Other,
}

impl View for Event {
    type V = EventV;

    open spec fn view(&self) -> EventV {
        match self {
            Event::Stop => EventV::Stop,
            Event::NewFile(p) => EventV::NewFile(p@),
            Event::Other => EventV::Other,
        }
    }
}

/// Terminal failure of an event provider: the underlying notification source
/// is permanently closed. There is no partial-failure or retry state.
#[derive(Debug, Clone, Copy, PartialEq, Eq)]
pub enum ProviderError {
    Terminated,
}

/// The translation rule: a creation becomes `NewFile` with the same path;
/// every other raw kind becomes `Other`. Total and deterministic.
pub open spec fn spec_translate(raw: RawNotificationV) -> EventV {
    match raw {
        RawNotificationV::Created(p) => EventV::NewFile(p),
        _ => EventV::Other,
    }
}

/// Reduce one raw notification to its domain event.
pub fn translate(raw: RawNotification) -> (e: Event)
    ensures
        e@ == spec_translate(raw@),
{
    match raw {
        RawNotification::Created(p) => Event::NewFile(p),
        _ => Event::Other,
    }
}

/// What one pull from a provider yielded, as a mathematical value:
/// `Some(event)` for a delivered event, `None` for a provider error.
pub open spec fn outcome_of(r: Result<Event, ProviderError>) -> Option<EventV> {
    match r {
        Ok(e) => Some(e@),
        Err(_) => None,
    }
}

/// A pull-based source of domain events whose remaining stream is modelled as
/// a finite sequence of outcomes. Implemented by in-memory providers; the live
/// adapter over the filesystem watcher stands outside this trait, since its
/// stream is unbounded and unknowable in advance.
pub trait EventProvider: Sized {
    /// The outcomes this provider has still to yield, in order.
    spec fn upcoming(&self) -> Seq<Option<EventV>>;

    /// Yield the next outcome: the head of `upcoming`.
    fn next(&mut self) -> (r: Result<Event, ProviderError>)
        requires
            old(self).upcoming().len() > 0,
        ensures
            outcome_of(r) == old(self).upcoming()[0],
            final(self).upcoming() == old(self).upcoming().drop_first(),
    ;
}

/// The events a whole stream of raw notifications reduces to, in order.
pub open spec fn translated(raws: Seq<RawNotificationV>) -> Seq<EventV> {
    raws.map_values(|r: RawNotificationV| spec_translate(r))
}

/// How many notifications in a raw stream are creations.
pub open spec fn count_created(raws: Seq<RawNotificationV>) -> int
    decreases raws.len(),
{
    if raws.len() == 0 {
        0
    } else {
        count_created(raws.drop_last()) + if raws.last() is Created {
            1int
        } else {
            0int
        }
    }
}

/// How many events in a domain stream are creation events.
pub open spec fn count_new_files(events: Seq<EventV>) -> int
    decreases events.len(),
{
    if events.len() == 0 {
        0
    } else {
        count_new_files(events.drop_last()) + if events.last() is NewFile {
            1int
        } else {
            0int
        }
    }
}

/// How many events in a domain stream are `Other`.
pub open spec fn count_others(events: Seq<EventV>) -> int
    decreases events.len(),
{
    if events.len() == 0 {
        0
    } else {
        count_others(events.drop_last()) + if events.last() is Other {
            1int
        } else {
            0int
        }
    }
}

/// Law: translation preserves length and relative order, and reduces exactly
/// the creations: a raw stream with K creations among N notifications yields
/// K `NewFile` events and N - K `Other` events, each at its notification's
/// position, and never the stop sentinel.
pub proof fn lemma_translation_round_trip(raws: Seq<RawNotificationV>)
    ensures
        translated(raws).len() == raws.len(),
        forall|i: int| 0 <= i < raws.len() ==> translated(raws)[i] == spec_translate(raws[i]),
        count_new_files(translated(raws)) == count_created(raws),
        count_others(translated(raws)) == raws.len() - count_created(raws),
        forall|i: int| 0 <= i < raws.len() ==> !((#[trigger] translated(raws)[i]) is Stop),
    decreases raws.len(),
{
    if raws.len() > 0 {
        lemma_translation_round_trip(raws.drop_last());
        assert(translated(raws).drop_last() =~= translated(raws.drop_last()));
        assert(translated(raws).last() == spec_translate(raws.last()));
    }
}

/// Reduce a whole batch of raw notifications, preserving order.
pub fn translate_all(raws: Vec<RawNotification>) -> (events: Vec<Event>)
    ensures
        events@.len() == raws@.len(),
        forall|i: int| 0 <= i < raws@.len() ==> (#[trigger] events@[i])@ == spec_translate(
            raws@[i]@,
        ),
{
    let ghost all = raws@;
    let mut events: Vec<Event> = Vec::new();
    let mut rest = raws;
    while rest.len() > 0
        invariant
            events@.len() + rest@.len() == all.len(),
            rest@ =~= all.skip(events@.len() as int),
            forall|i: int| 0 <= i < events@.len() ==> (#[trigger] events@[i])@ == spec_translate(
                all[i]@,
            ),
        decreases rest.len(),
    {
        let raw = rest.remove(0);
        proof {
            assert(rest@ =~= all.skip(events@.len() as int + 1));
        }
        events.push(translate(raw));
    }
    events
}

#[verifier::external_type_specification]
#[verifier::external_body]
pub struct ExDebouncedEvent(notify::DebouncedEvent);

#[verifier::external_type_specification]
#[verifier::external_body]
#[verifier::reject_recursive_types(T)]
pub struct ExReceiver<T>(std::sync::mpsc::Receiver<T>);

/// Relies on std::sync::mpsc::Receiver::recv: blocks until a message is
/// available and yields it, or fails exactly when the channel is empty and
/// every sender is gone; the failure is converted to the provider's terminal
/// error.
#[verifier::external_body]
fn recv_notification(
    receiver: &std::sync::mpsc::Receiver<notify::DebouncedEvent>,
) -> Result<notify::DebouncedEvent, ProviderError> {
    match receiver.recv() {
        Ok(event) => Ok(event),
        Err(_) => Err(ProviderError::Terminated),
    }
}

/// Relies on the standard library's lossy path-to-text conversion: the
/// path's text, with any invalid Unicode replaced.
#[verifier::external_body]
fn path_text(path: std::path::PathBuf) -> String {
    path.to_string_lossy().into_owned()
}

/// Relies on notify::DebouncedEvent's variants: each is carried over to the
/// raw-notification kind of the same meaning, with its paths converted to
/// text.
#[verifier::external_body]
fn raw_of_debounced(event: notify::DebouncedEvent) -> RawNotification {
    match event {
        notify::DebouncedEvent::Create(p) => RawNotification::Created(path_text(p)),
        notify::DebouncedEvent::Write(p) => RawNotification::Written(path_text(p)),
        notify::DebouncedEvent::Remove(p) => RawNotification::Removed(path_text(p)),
        notify::DebouncedEvent::Rename(p, q) => RawNotification::Renamed(path_text(p), path_text(q)),
        notify::DebouncedEvent::Chmod(p) => RawNotification::MetadataChanged(path_text(p)),
        notify::DebouncedEvent::NoticeWrite(p) => RawNotification::NoticeWritten(path_text(p)),
        notify::DebouncedEvent::NoticeRemove(p) => RawNotification::NoticeRemoved(path_text(p)),
        notify::DebouncedEvent::Rescan => RawNotification::Rescan,
        notify::DebouncedEvent::Error(_, p) => RawNotification::WatchFailure(p.map(path_text)),
    }
}

/// Adapter from the live watch mechanism to the domain-event stream: owns
/// the receiving end of the channel the watcher feeds, and is its sole
/// consumer.
pub struct DebouncedEventAdapter {
    receiver: std::sync::mpsc::Receiver<notify::DebouncedEvent>,
}

impl DebouncedEventAdapter {
    /// Wrap the receiving end of the watcher's channel.
    pub fn new(receiver: std::sync::mpsc::Receiver<notify::DebouncedEvent>) -> Self {
        DebouncedEventAdapter { receiver }
    }

    /// Block until a raw notification is available and reduce it, or report
    /// the terminal provider error when the source is closed. Whatever
    /// arrives, every delivered event is the translation of some raw
    /// notification; the live stream never carries the stop sentinel.
    pub fn next(&self) -> (r: Result<Event, ProviderError>)
        ensures
            r matches Ok(e) ==> (exists|raw: RawNotificationV| e@ == spec_translate(raw)) && !(e@
                is Stop),
    {
        match recv_notification(&self.receiver) {
            Ok(event) => {
                let raw = raw_of_debounced(event);
                let e = translate(raw);
                proof {
                    assert(e@ == spec_translate(raw@));
                }
                Ok(e)
            },
            Err(pe) => Err(pe),
        }
    }
}

/// In-memory provider for tests: yields a scripted, finite sequence of
/// outcomes, in order.
pub struct EventProviderStub {
    script: Vec<Result<Event, ProviderError>>,
}

impl EventProviderStub {
    /// A stub that delivers the given events, in order, with no provider
    /// errors among them.
    pub fn new(events: Vec<Event>) -> (stub: Self)
        ensures
            stub.upcoming() =~= events@.map_values(|e: Event| Some(e@)),
    {
        let ghost all = events@;
        let mut script: Vec<Result<Event, ProviderError>> = Vec::new();
        let mut rest = events;
        while rest.len() > 0
            invariant
                script@.len() + rest@.len() == all.len(),
                rest@ =~= all.skip(script@.len() as int),
                forall|k: int| 0 <= k < script@.len() ==> outcome_of(#[trigger] script@[k])
                    == Some(all[k]@),
            decreases rest.len(),
        {
            let e = rest.remove(0);
            proof {
                assert(rest@ =~= all.skip(script@.len() as int + 1));
            }
            script.push(Ok(e));
        }
        let stub = EventProviderStub { script };
        proof {
            assert(stub.upcoming() =~= all.map_values(|e: Event| Some(e@)));
        }
        stub
    }

    /// A stub that follows an arbitrary script of outcomes, provider errors
    /// included.
    pub fn with_script(script: Vec<Result<Event, ProviderError>>) -> (stub: Self)
        ensures
            stub.upcoming() =~= script@.map_values(
                |x: Result<Event, ProviderError>| outcome_of(x),
            ),
    {
        EventProviderStub { script }
    }
}

impl EventProvider for EventProviderStub {
    closed spec fn upcoming(&self) -> Seq<Option<EventV>> {
        self.script@.map_values(|x: Result<Event, ProviderError>| outcome_of(x))
    }

    fn next(&mut self) -> (r: Result<Event, ProviderError>) {
        let r = self.script.remove(0);
        proof {
            assert(self.upcoming() =~= old(self).upcoming().drop_first());
        }
        r
    }
}

} // verus!
