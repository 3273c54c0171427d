//! Behaviour of the resilient dispatch loop.

use books_daemon::handler::{FsEvent, FsEventDispatcher};
use books_daemon::processor::{EventProcessorSpy, ProcessError};
use books_daemon::provider::EventProviderStub;

#[test]
fn test() {
    // given
    let processor_spy = EventProcessorSpy::new();
    let events = vec![FsEvent::NewFile(String::from(r"/test")), FsEvent::Stop];
    // when
    let mut dispatcher = FsEventDispatcher::new(EventProviderStub::new(events), processor_spy);
    dispatcher.handle();
    // then
    assert_eq!(dispatcher.processor.executed(), true);
}

#[test]
fn test_handler_continues_past_processing_failure() {
    let events = vec![
        FsEvent::NewFile(String::from("/one")),
        FsEvent::NewFile(String::from("/two")),
        FsEvent::Stop,
    ];
    let mut dispatcher = FsEventDispatcher::new(
        EventProviderStub::new(events),
        EventProcessorSpy::failing(ProcessError::ProcessingFailed(None)),
    );

    // resilient policy: failures are ignored, every creation is still handed over
    dispatcher.handle();

    assert_eq!(
        dispatcher.processor.calls(),
        vec![String::from("/one"), String::from("/two")]
    );
}
