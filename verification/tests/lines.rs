use quilon::runtime::io::IoErrorKind;
use quilon::runtime::lines::{line_step, take_line, ReadAction, ReadEvent};

#[test]
fn take_line_splits_on_newline_and_keeps_remainder() {
    let mut buffer = b"first\r\nsecond".to_vec();
    assert_eq!(take_line(&mut buffer), Some(b"first".to_vec()));
    assert_eq!(buffer, b"second");
    // No newline yet: nothing to take.
    assert_eq!(take_line(&mut buffer), None);
    assert_eq!(buffer, b"second");
}

#[test]
fn take_line_keeps_a_lone_carriage_return_inside() {
    let mut buffer = b"a\rb\nc\n".to_vec();
    assert_eq!(take_line(&mut buffer), Some(b"a\rb".to_vec()));
    assert_eq!(take_line(&mut buffer), Some(b"c".to_vec()));
    assert_eq!(buffer, b"");
    let mut empty_line = b"\n".to_vec();
    assert_eq!(take_line(&mut empty_line), Some(Vec::new()));
    assert!(empty_line.is_empty());
}

#[test]
fn line_step_appends_and_takes_a_completed_line() {
    let mut buffer = b"hel".to_vec();
    match line_step(&mut buffer, ReadEvent::Data(b"lo world\nnext".to_vec()), false) {
        ReadAction::Line(line) => assert_eq!(line, b"hello world"),
        other => panic!("unexpected {:?}", other),
    }
    assert_eq!(buffer, b"next");
    assert!(matches!(line_step(&mut buffer, ReadEvent::Data(b" part".to_vec()), false), ReadAction::ReadAgain));
    assert_eq!(buffer, b"next part");
}

#[test]
fn line_step_at_end_of_input_hands_back_the_rest() {
    let mut buffer = b"tail".to_vec();
    match line_step(&mut buffer, ReadEvent::Eof, true) {
        ReadAction::Line(line) => assert_eq!(line, b"tail"),
        other => panic!("unexpected {:?}", other),
    }
    assert!(buffer.is_empty());
    match line_step(&mut buffer, ReadEvent::Eof, true) {
        ReadAction::Line(line) => assert!(line.is_empty()),
        other => panic!("unexpected {:?}", other),
    }
}

#[test]
fn line_step_parks_retries_or_fails() {
    let mut buffer = b"x".to_vec();
    assert!(matches!(line_step(&mut buffer, ReadEvent::Failed(IoErrorKind::WouldBlock), false), ReadAction::RegisterAndPark));
    assert!(matches!(line_step(&mut buffer, ReadEvent::Failed(IoErrorKind::WouldBlock), true), ReadAction::RearmAndPark));
    assert!(matches!(line_step(&mut buffer, ReadEvent::Failed(IoErrorKind::Interrupted), true), ReadAction::ReadAgain));
    assert!(matches!(line_step(&mut buffer, ReadEvent::Failed(IoErrorKind::Other), true), ReadAction::Fail(IoErrorKind::Other)));
    assert_eq!(buffer, b"x");
}

// A taken line plus its terminator and the remainder is the buffer as it was.
#[test]
fn taking_a_line_loses_no_bytes() {
    let before = b"ab\r\ncd\nef".to_vec();
    let mut buffer = before.clone();
    let line = take_line(&mut buffer).unwrap();
    let mut rebuilt = line.clone();
    rebuilt.extend_from_slice(b"\r\n");
    rebuilt.extend_from_slice(&buffer);
    assert_eq!(rebuilt, before);
}
