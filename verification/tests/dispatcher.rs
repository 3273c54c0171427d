//! Behaviour of the strict dispatch loop against scripted providers.

use books_daemon::dispatcher::EventDispatcher;
use books_daemon::processor::{EventProcessorSpy, ProcessError};
use books_daemon::provider::{Event, EventProviderStub, ProviderError};

#[test]
fn test_processor_executed_when_new_file_appeared() {
    // given
    let processor_spy = EventProcessorSpy::new();
    let events = vec![Event::NewFile(String::from(r"/test")), Event::Stop];
    let provider_stub = EventProviderStub::new(events);

    // when
    let mut dispatcher = EventDispatcher::new(provider_stub, processor_spy);
    dispatcher.dispatch().unwrap();

    // then
    assert_eq!(dispatcher.processor.executed(), true);
}

#[test]
fn test_processor_not_executed_when_no_new_file_event_occured() {
    // given
    let processor_spy = EventProcessorSpy::new();
    let stubbed_events = vec![Event::Stop];
    let provider_stub = EventProviderStub::new(stubbed_events);

    // when
    let mut dispatcher = EventDispatcher::new(provider_stub, processor_spy);
    dispatcher.dispatch().unwrap();

    // then
    assert_eq!(dispatcher.processor.executed(), false);
}

#[test]
fn test_processor_not_executed_when_other_event_occured() {
    // given
    let processor_spy = EventProcessorSpy::new();
    let stubbed_events = vec![Event::Other, Event::Stop];
    let provider_stub = EventProviderStub::new(stubbed_events);

    // when
    let mut dispatcher = EventDispatcher::new(provider_stub, processor_spy);
    dispatcher.dispatch().unwrap();

    // then
    assert_eq!(dispatcher.processor.executed(), false);
}

#[test]
fn test_dispatch_hands_the_created_path_to_the_processor() {
    let events = vec![Event::NewFile(String::from("/test")), Event::Stop];
    let mut dispatcher =
        EventDispatcher::new(EventProviderStub::new(events), EventProcessorSpy::new());

    let result = dispatcher.dispatch();

    assert!(result.is_ok());
    assert_eq!(dispatcher.processor.calls(), vec![String::from("/test")]);
}

#[test]
fn test_provider_error_does_not_abort_dispatch() {
    // a terminal provider error is logged, then dispatch keeps consuming
    let script = vec![
        Err(ProviderError::Terminated),
        Ok(Event::NewFile(String::from("/test"))),
        Ok(Event::Stop),
    ];
    let mut dispatcher =
        EventDispatcher::new(EventProviderStub::with_script(script), EventProcessorSpy::new());

    let result = dispatcher.dispatch();

    assert!(result.is_ok());
    assert_eq!(dispatcher.processor.calls(), vec![String::from("/test")]);
}

#[test]
fn test_processing_failure_aborts_dispatch() {
    let failure = ProcessError::ProcessingFailed(Some(1));
    let events = vec![
        Event::NewFile(String::from("/test")),
        Event::NewFile(String::from("/later")),
        Event::Stop,
    ];
    let mut dispatcher =
        EventDispatcher::new(EventProviderStub::new(events), EventProcessorSpy::failing(failure));

    let result = dispatcher.dispatch();

    // strict policy: the first failure surfaces and nothing more is consumed
    assert_eq!(result, Err(failure));
    assert_eq!(dispatcher.processor.calls(), vec![String::from("/test")]);
}

#[test]
fn test_processing_failure_is_reproduced_on_rerun() {
    let failure = ProcessError::ProcessingFailed(Some(1));
    let mut first = EventDispatcher::new(
        EventProviderStub::new(vec![Event::NewFile(String::from("/test")), Event::Stop]),
        EventProcessorSpy::failing(failure),
    );
    let mut second = EventDispatcher::new(
        EventProviderStub::new(vec![Event::NewFile(String::from("/test")), Event::Stop]),
        EventProcessorSpy::failing(failure),
    );

    let first_result = first.dispatch();
    let second_result = second.dispatch();
    assert_eq!(first_result, Err(failure));
    assert_eq!(first_result, second_result);
}
