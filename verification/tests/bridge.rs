use velora::bridge::{check_outgoing, LineAccumulator, SendRefusal, NOT_UTF8, TOO_LARGE};
use velora::protocol::MAX_MESSAGE_BYTES;

#[test]
fn assembles_partial_and_multiple_lines() {
    let mut accumulator = LineAccumulator::new();
    assert!(accumulator.push(b"one").unwrap().is_empty());
    assert_eq!(
        accumulator.push(b"\ntwo\n").unwrap(),
        vec!["one".to_owned(), "two".to_owned()]
    );
}

#[test]
fn rejects_oversized_line() {
    let mut accumulator = LineAccumulator::new();
    assert!(accumulator.push(&vec![b'x'; MAX_MESSAGE_BYTES + 1]).is_err());
}

#[test]
fn oversized_and_invalid_lines_name_their_error() {
    let mut accumulator = LineAccumulator::new();
    assert_eq!(
        accumulator.push(&vec![b'x'; MAX_MESSAGE_BYTES + 1]),
        Err(TOO_LARGE)
    );
    let mut accumulator = LineAccumulator::new();
    assert_eq!(accumulator.push(&[0xff, b'\n']), Err(NOT_UTF8));
}

#[test]
fn a_line_of_exactly_the_limit_is_accepted() {
    let mut accumulator = LineAccumulator::new();
    let mut chunk = vec![b'x'; MAX_MESSAGE_BYTES];
    chunk.push(b'\n');
    let lines = accumulator.push(&chunk).unwrap();
    assert_eq!(lines.len(), 1);
    assert_eq!(lines[0].len(), MAX_MESSAGE_BYTES);
}

#[test]
fn outgoing_messages_are_checked_before_sending() {
    assert_eq!(check_outgoing("{\"type\":\"ping\"}"), Ok(()));
    assert_eq!(check_outgoing("a\nb"), Err(SendRefusal::ContainsNewline));
    assert_eq!(
        check_outgoing(&"x".repeat(MAX_MESSAGE_BYTES + 1)),
        Err(SendRefusal::TooLarge)
    );
    assert_eq!(SendRefusal::TooLarge.code(), "message_too_large");
    assert_eq!(SendRefusal::ContainsNewline.message(), "payload cannot contain a newline");
}

#[test]
fn an_oversized_message_keeps_failing_on_the_next_chunk() {
    let mut accumulator = LineAccumulator::new();
    assert_eq!(accumulator.push(&vec![b'x'; MAX_MESSAGE_BYTES + 1]), Err(TOO_LARGE));
    assert_eq!(accumulator.push(b"y"), Err(TOO_LARGE));
    assert!(accumulator.bytes.len() > MAX_MESSAGE_BYTES);
}
