use copilot_client::aggregate::{Aggregator, ControlSignal};
use copilot_client::event::{Choice, Frame};

fn delta(text: &str) -> Frame {
    Frame::Event(vec![Choice { delta_text: Some(text.to_string()), finish_reason: None }])
}

fn finish(reason: &str) -> Frame {
    Frame::Event(vec![Choice { delta_text: None, finish_reason: Some(reason.to_string()) }])
}

#[test]
fn new_aggregator_is_empty() {
    let aggregator = Aggregator::new();
    assert_eq!(aggregator.content(), "");
    assert_eq!(aggregator.finish_reason(), "");
}

#[test]
fn delta_is_added_and_the_exchange_goes_on() {
    let mut aggregator = Aggregator::new();
    assert_eq!(aggregator.accept(&delta("He")), ControlSignal::Continue);
    assert_eq!(aggregator.content(), "He");
    assert_eq!(aggregator.finish_reason(), "");
}

#[test]
fn deltas_are_added_in_the_order_of_their_arrival() {
    let mut aggregator = Aggregator::new();
    assert_eq!(aggregator.accept(&delta("He")), ControlSignal::Continue);
    assert_eq!(aggregator.accept(&delta("llo")), ControlSignal::Continue);
    assert_eq!(aggregator.accept(&delta(" world")), ControlSignal::Continue);
    assert_eq!(aggregator.content(), "Hello world");
}

#[test]
fn reason_stops_the_exchange() {
    let mut aggregator = Aggregator::new();
    aggregator.accept(&delta("Hi"));
    assert_eq!(aggregator.accept(&finish("stop")), ControlSignal::Stop);
    assert_eq!(aggregator.content(), "Hi");
    assert_eq!(aggregator.finish_reason(), "stop");
}

#[test]
fn reason_goes_before_the_text_beside_it() {
    let mut aggregator = Aggregator::new();
    aggregator.accept(&delta("Hi"));
    let both = Frame::Event(vec![Choice {
        delta_text: Some("!".to_string()),
        finish_reason: Some("length".to_string()),
    }]);
    assert_eq!(aggregator.accept(&both), ControlSignal::Stop);
    assert_eq!(aggregator.content(), "Hi");
    assert_eq!(aggregator.finish_reason(), "length");
}

#[test]
fn reason_with_empty_text_keeps_the_answer() {
    let mut aggregator = Aggregator::new();
    aggregator.accept(&delta("Hi"));
    let both = Frame::Event(vec![Choice {
        delta_text: Some(String::new()),
        finish_reason: Some("stop".to_string()),
    }]);
    assert_eq!(aggregator.accept(&both), ControlSignal::Stop);
    assert_eq!(aggregator.content(), "Hi");
    assert_eq!(aggregator.finish_reason(), "stop");
}

#[test]
fn event_without_text_or_reason_changes_nothing() {
    let mut aggregator = Aggregator::new();
    aggregator.accept(&delta("Hi"));
    let idle = Frame::Event(vec![Choice { delta_text: None, finish_reason: None }]);
    assert_eq!(aggregator.accept(&idle), ControlSignal::Continue);
    assert_eq!(aggregator.accept(&Frame::Event(vec![])), ControlSignal::Continue);
    assert_eq!(aggregator.content(), "Hi");
    assert_eq!(aggregator.finish_reason(), "");
}

#[test]
fn only_the_first_choice_counts() {
    let mut aggregator = Aggregator::new();
    let frame = Frame::Event(vec![
        Choice { delta_text: Some("first".to_string()), finish_reason: None },
        Choice { delta_text: Some("second".to_string()), finish_reason: Some("stop".to_string()) },
    ]);
    assert_eq!(aggregator.accept(&frame), ControlSignal::Continue);
    assert_eq!(aggregator.content(), "first");
    assert_eq!(aggregator.finish_reason(), "");
}

#[test]
fn end_marker_stops_without_a_reason() {
    let mut aggregator = Aggregator::new();
    assert_eq!(aggregator.accept(&Frame::StreamEnd), ControlSignal::Stop);
    assert_eq!(aggregator.content(), "");
    assert_eq!(aggregator.finish_reason(), "");
}

#[test]
fn end_marker_keeps_an_earlier_reason() {
    let mut aggregator = Aggregator::new();
    aggregator.accept(&finish("stop"));
    assert_eq!(aggregator.accept(&Frame::StreamEnd), ControlSignal::Stop);
    assert_eq!(aggregator.finish_reason(), "stop");
}

#[test]
fn frames_behind_the_stop_are_not_taken() {
    let mut aggregator = Aggregator::new();
    let frames = vec![delta("a"), delta("b"), finish("stop"), delta("c"), finish("length")];
    assert_eq!(aggregator.accept_frames(&frames), ControlSignal::Stop);
    assert_eq!(aggregator.content(), "ab");
    assert_eq!(aggregator.finish_reason(), "stop");
    let mut other = Aggregator::new();
    assert_eq!(other.accept_frames(&vec![delta("a"), delta("b")]), ControlSignal::Continue);
    assert_eq!(other.content(), "ab");
    assert_eq!(other.accept_frames(&vec![]), ControlSignal::Continue);
}

#[test]
fn echo_holds_what_was_added_since_it_was_taken() {
    let mut aggregator = Aggregator::new();
    aggregator.accept(&delta("He"));
    aggregator.accept(&delta("llo"));
    assert_eq!(aggregator.take_echo(), "Hello");
    assert_eq!(aggregator.take_echo(), "");
    aggregator.accept(&delta(" world"));
    aggregator.accept(&finish("stop"));
    assert_eq!(aggregator.take_echo(), " world");
    assert_eq!(aggregator.content(), "Hello world");
}

#[test]
fn set_finish_reason_replaces_the_reason() {
    let mut aggregator = Aggregator::new();
    aggregator.accept(&delta("x"));
    aggregator.set_finish_reason("stream_stalled");
    assert_eq!(aggregator.finish_reason(), "stream_stalled");
    assert_eq!(aggregator.content(), "x");
}
