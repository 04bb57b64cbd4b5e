use canal::repl::{contains_bytes, mock_execute, ReplError};

#[test]
fn repl_executes_a_code_in_mockrepl() {
    let (output, result) = mock_execute(b"1", false);

    assert_eq!(output, b"1".to_vec());
    assert_eq!(result, Ok(()));
}

#[test]
fn repl_executes_a_buggy_code_in_mockrepl() {
    let (output, result) = mock_execute(b"buggy", false);

    assert_eq!(output, b"error".to_vec());
    assert_eq!(result, Err(ReplError::Failed));
}

#[test]
fn repl_can_be_interupted_in_mockrepl() {
    let (output, result) = mock_execute(b"expensive", true);

    assert_eq!(output, b"partial...".to_vec());
    assert_eq!(result, Err(ReplError::Interrupted));
}

#[test]
fn repl_finishes_expensive_code_without_interrupt() {
    let (output, result) = mock_execute(b"expensive", false);

    assert_eq!(output, b"partial......rest".to_vec());
    assert_eq!(result, Ok(()));
}

#[test]
fn repl_marker_is_found_anywhere_in_the_code() {
    let (output, result) = mock_execute(b"this code is buggy indeed", false);

    assert_eq!(output, b"error".to_vec());
    assert_eq!(result, Err(ReplError::Failed));
}

#[test]
fn repl_interrupt_does_not_change_quick_outcomes() {
    // Only the expensive path suspends, so only it can lose the race.
    let (output, result) = mock_execute(b"1", true);
    assert_eq!(output, b"1".to_vec());
    assert_eq!(result, Ok(()));

    let (output, result) = mock_execute(b"buggy", true);
    assert_eq!(output, b"error".to_vec());
    assert_eq!(result, Err(ReplError::Failed));
}

#[test]
fn byte_search_finds_substrings() {
    assert!(contains_bytes(b"hello world", b"lo wo"));
    assert!(contains_bytes(b"abc", b""));
    assert!(contains_bytes(b"abc", b"abc"));
    assert!(!contains_bytes(b"abc", b"abcd"));
    assert!(!contains_bytes(b"abcabd", b"abe"));
}
