use skanuvaty::progress::{Display, ProgressAggregator, ProgressEvent};

#[test]
fn new_aggregator_has_counted_nothing() {
    let aggregator = ProgressAggregator::new();
    assert_eq!(aggregator.processed_count(), 0);
    assert_eq!(aggregator.found_count(), 0);
    assert!(!aggregator.is_finished());
    assert!(aggregator.has_room());
}

#[test]
fn increment_moves_only_the_processed_count() {
    let mut aggregator = ProgressAggregator::new();
    assert_eq!(aggregator.apply(ProgressEvent::Increment), Some(Display::Advance));
    assert_eq!(aggregator.processed_count(), 1);
    assert_eq!(aggregator.found_count(), 0);
    assert!(!aggregator.is_finished());
}

#[test]
fn found_moves_only_the_found_count() {
    let mut aggregator = ProgressAggregator::new();
    assert_eq!(aggregator.apply(ProgressEvent::Found), Some(Display::ShowFound(1)));
    assert_eq!(aggregator.apply(ProgressEvent::Found), Some(Display::ShowFound(2)));
    assert_eq!(aggregator.processed_count(), 0);
    assert_eq!(aggregator.found_count(), 2);
}

#[test]
fn finish_closes_with_the_found_count() {
    let mut aggregator = ProgressAggregator::new();
    aggregator.apply(ProgressEvent::Found);
    aggregator.apply(ProgressEvent::Increment);
    aggregator.apply(ProgressEvent::Increment);
    assert_eq!(aggregator.apply(ProgressEvent::Finish), Some(Display::Close(1)));
    assert!(aggregator.is_finished());
    assert_eq!(aggregator.processed_count(), 2);
    assert_eq!(aggregator.found_count(), 1);
}

#[test]
fn nothing_counts_after_finish() {
    let mut aggregator = ProgressAggregator::new();
    aggregator.apply(ProgressEvent::Finish);
    assert_eq!(aggregator.apply(ProgressEvent::Increment), None);
    assert_eq!(aggregator.apply(ProgressEvent::Found), None);
    assert_eq!(aggregator.apply(ProgressEvent::Finish), None);
    assert_eq!(aggregator.processed_count(), 0);
    assert_eq!(aggregator.found_count(), 0);
    assert!(aggregator.is_finished());
}

#[test]
fn counts_do_not_depend_on_the_order_of_events() {
    let one = [
        ProgressEvent::Found,
        ProgressEvent::Increment,
        ProgressEvent::Increment,
        ProgressEvent::Found,
        ProgressEvent::Increment,
    ];
    let other = [
        ProgressEvent::Increment,
        ProgressEvent::Increment,
        ProgressEvent::Increment,
        ProgressEvent::Found,
        ProgressEvent::Found,
    ];
    let mut first = ProgressAggregator::new();
    for event in one {
        first.apply(event);
    }
    let mut second = ProgressAggregator::new();
    for event in other {
        second.apply(event);
    }
    assert_eq!(first.apply(ProgressEvent::Finish), Some(Display::Close(2)));
    assert_eq!(second.apply(ProgressEvent::Finish), Some(Display::Close(2)));
    assert_eq!(first.processed_count(), 3);
    assert_eq!(second.processed_count(), 3);
}
