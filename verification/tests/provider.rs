//! Behaviour of the translation rule, the batch translator, and the live
//! adapter over the watch mechanism's channel.

use books_daemon::provider::{
    translate, translate_all, DebouncedEventAdapter, Event, ProviderError, RawNotification,
};
use notify::DebouncedEvent;
use std::path::PathBuf;
use std::sync::mpsc::channel;

#[test]
fn test_create_event_is_correctly_adapted_to_new_file_event() {
    // given
    let (sender, receiver) = channel();
    let provider = DebouncedEventAdapter::new(receiver);

    // when
    sender
        .send(DebouncedEvent::Create(PathBuf::from("/test")))
        .unwrap();

    // then
    assert_eq!(
        provider.next().unwrap(),
        Event::NewFile(String::from("/test")),
    );
}

#[test]
fn test_any_other_event_is_converted_to_other_event() {
    // given
    let (sender, receiver) = channel();
    let provider = DebouncedEventAdapter::new(receiver);

    // when
    sender
        .send(DebouncedEvent::Chmod(PathBuf::from("/test")))
        .unwrap();
    sender
        .send(DebouncedEvent::Write(PathBuf::from("/test")))
        .unwrap();
    sender
        .send(DebouncedEvent::Remove(PathBuf::from("/test")))
        .unwrap();
    sender
        .send(DebouncedEvent::Rename(
            PathBuf::from("/test"),
            PathBuf::from("/test1"),
        ))
        .unwrap();
    sender
        .send(DebouncedEvent::NoticeWrite(PathBuf::from("/test")))
        .unwrap();
    sender
        .send(DebouncedEvent::NoticeRemove(PathBuf::from("/test")))
        .unwrap();
    sender.send(DebouncedEvent::Rescan).unwrap();

    // then
    assert_eq!(Event::Other, provider.next().unwrap());
    assert_eq!(Event::Other, provider.next().unwrap());
    assert_eq!(Event::Other, provider.next().unwrap());
    assert_eq!(Event::Other, provider.next().unwrap());
    assert_eq!(Event::Other, provider.next().unwrap());
    assert_eq!(Event::Other, provider.next().unwrap());
    assert_eq!(Event::Other, provider.next().unwrap());
}

#[test]
fn test_adapter_reports_terminal_error_when_source_closed() {
    let (sender, receiver) = channel::<DebouncedEvent>();
    let provider = DebouncedEventAdapter::new(receiver);

    drop(sender);

    assert_eq!(provider.next(), Err(ProviderError::Terminated));
}

#[test]
fn test_translate_created_yields_new_file_with_same_path() {
    assert_eq!(
        translate(RawNotification::Created(String::from("/books/new.epub"))),
        Event::NewFile(String::from("/books/new.epub"))
    );
}

#[test]
fn test_translate_every_other_kind_yields_other() {
    let raws = vec![
        RawNotification::Written(String::from("/test")),
        RawNotification::Removed(String::from("/test")),
        RawNotification::Renamed(String::from("/test"), String::from("/test1")),
        RawNotification::MetadataChanged(String::from("/test")),
        RawNotification::NoticeWritten(String::from("/test")),
        RawNotification::NoticeRemoved(String::from("/test")),
        RawNotification::Rescan,
        RawNotification::WatchFailure(Some(String::from("/test"))),
        RawNotification::WatchFailure(None),
    ];
    for raw in raws {
        assert_eq!(translate(raw), Event::Other);
    }
}

#[test]
fn test_translation_round_trip_counts_and_order() {
    // six notifications, two of them creations: exactly two NewFile events
    // and four Other events, keeping their relative order
    let raws = vec![
        RawNotification::Written(String::from("/a")),
        RawNotification::Created(String::from("/b")),
        RawNotification::Rescan,
        RawNotification::Created(String::from("/c")),
        RawNotification::Removed(String::from("/d")),
        RawNotification::NoticeWritten(String::from("/e")),
    ];

    let events = translate_all(raws);

    assert_eq!(
        events,
        vec![
            Event::Other,
            Event::NewFile(String::from("/b")),
            Event::Other,
            Event::NewFile(String::from("/c")),
            Event::Other,
            Event::Other,
        ]
    );
    let new_files = events
        .iter()
        .filter(|e| matches!(e, Event::NewFile(_)))
        .count();
    assert_eq!(new_files, 2);
    assert_eq!(events.len() - new_files, 4);
}

#[test]
fn test_translate_all_of_nothing_is_nothing() {
    assert_eq!(translate_all(Vec::new()), Vec::<Event>::new());
}
