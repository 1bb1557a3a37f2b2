use mouse_term::input::InputError;
use mouse_term::input::InputState;

#[test]
fn test_tokenize_simple() {
    let mut input_state = InputState::new();
    input_state.set_input("ls -la /home".to_string()).unwrap();

    assert_eq!(input_state.tokens.len(), 3);
    assert_eq!(input_state.tokens[0].text, "ls");
    assert_eq!(input_state.tokens[1].text, "-la");
    assert_eq!(input_state.tokens[2].text, "/home");
}

#[test]
fn test_tokenize_simple_ranges() {
    let mut input_state = InputState::new();
    input_state.set_input("ls -la /home".to_string()).unwrap();

    assert_eq!(input_state.tokens[0].range, (0, 2));
    assert_eq!(input_state.tokens[1].range, (3, 6));
    assert_eq!(input_state.tokens[2].range, (7, 12));
    // The ranges cover each substring of the raw line losslessly.
    assert_eq!(&input_state.raw_input[0..2], "ls");
    assert_eq!(&input_state.raw_input[3..6], "-la");
    assert_eq!(&input_state.raw_input[7..12], "/home");
}

#[test]
fn test_tokenize_with_quotes() {
    let mut input_state = InputState::new();
    input_state.set_input("echo \"hello world\" test".to_string()).unwrap();

    assert_eq!(input_state.tokens.len(), 3);
    assert_eq!(input_state.tokens[0].text, "echo");
    // The quotes toggle the quoting state and are not part of the token text.
    assert_eq!(input_state.tokens[1].text, "hello world");
    assert_eq!(input_state.tokens[2].text, "test");
}

#[test]
fn test_tokenize_unmatched_quote() {
    let mut input_state = InputState::new();
    let res = input_state.set_input("echo \"unterminated".to_string());
    match res {
        Err(InputError::UnmatchedQuote) => {}
        other => panic!("expected UnmatchedQuote, got {:?}", other),
    }
    // All-or-nothing: no tokens come back from a failed tokenization.
    assert_eq!(input_state.tokens.len(), 0);
}

#[test]
fn test_tokenize_escape() {
    let mut input_state = InputState::new();
    input_state.set_input("a\\ b c".to_string()).unwrap();
    assert_eq!(input_state.tokens.len(), 2);
    // The backslash escapes the space and is itself never copied.
    assert_eq!(input_state.tokens[0].text, "a b");
    assert_eq!(input_state.tokens[1].text, "c");
}

#[test]
fn test_tokenize_skips_consecutive_whitespace() {
    let mut input_state = InputState::new();
    input_state.set_input("a  \t b".to_string()).unwrap();
    assert_eq!(input_state.tokens.len(), 2);
    assert_eq!(input_state.tokens[0].text, "a");
    assert_eq!(input_state.tokens[1].text, "b");
}

#[test]
fn test_tokenize_multibyte_ranges() {
    let mut input_state = InputState::new();
    // 'é' is two bytes in UTF-8: the ranges are byte offsets, not character
    // counts.
    input_state.set_input("é x".to_string()).unwrap();
    assert_eq!(input_state.tokens.len(), 2);
    assert_eq!(input_state.tokens[0].text, "é");
    assert_eq!(input_state.tokens[0].range, (0, 2));
    assert_eq!(input_state.tokens[1].text, "x");
    assert_eq!(input_state.tokens[1].range, (3, 4));
}

#[test]
fn test_newline_token_round_trips() {
    let mut input_state = InputState::new();
    input_state.set_input("echo x".to_string()).unwrap();
    input_state.start_editing(1).unwrap();
    input_state.update_editing("a\nb".to_string());
    input_state.commit_edit(1).unwrap();
    // A newline counts as whitespace for the rebuild's quoting ...
    assert_eq!(input_state.raw_input, "echo \"a\nb\"");
    // ... and inside quotes it stays part of the token text.
    input_state.tokenize().unwrap();
    assert_eq!(input_state.tokens.len(), 2);
    assert_eq!(input_state.tokens[1].text, "a\nb");
}

#[test]
fn test_edit_invalid_index() {
    let mut input_state = InputState::new();
    input_state.set_input("ls -la".to_string()).unwrap();

    match input_state.start_editing(2) {
        Err(InputError::InvalidTokenIndex(2)) => {}
        other => panic!("expected InvalidTokenIndex, got {:?}", other),
    }
    match input_state.commit_edit(7) {
        Err(InputError::InvalidTokenIndex(7)) => {}
        other => panic!("expected InvalidTokenIndex, got {:?}", other),
    }
    // The token list is untouched by the failed calls.
    assert_eq!(input_state.tokens.len(), 2);
    assert_eq!(input_state.tokens[0].text, "ls");
    assert_eq!(input_state.tokens[1].text, "-la");
    assert_eq!(input_state.raw_input, "ls -la");
}

#[test]
fn test_edit_commit_rebuilds_line() {
    let mut input_state = InputState::new();
    input_state.set_input("ls -la /home".to_string()).unwrap();

    input_state.start_editing(1).unwrap();
    assert_eq!(input_state.editing.as_deref(), Some("-la"));
    input_state.update_editing("-lah".to_string());
    input_state.commit_edit(1).unwrap();

    assert_eq!(input_state.editing, None);
    assert_eq!(input_state.raw_input, "ls -lah /home");
    assert_eq!(input_state.tokens[1].text, "-lah");
}

#[test]
fn test_edit_cancel_discards_scratch() {
    let mut input_state = InputState::new();
    input_state.set_input("ls -la".to_string()).unwrap();

    input_state.start_editing(0).unwrap();
    input_state.update_editing("rm".to_string());
    input_state.cancel_edit();

    assert_eq!(input_state.editing, None);
    assert_eq!(input_state.tokens[0].text, "ls");
    assert_eq!(input_state.raw_input, "ls -la");
}

#[test]
fn test_commit_quotes_whitespace_token() {
    let mut input_state = InputState::new();
    input_state.set_input("echo x".to_string()).unwrap();

    input_state.start_editing(1).unwrap();
    input_state.update_editing("hello world".to_string());
    input_state.commit_edit(1).unwrap();

    // The rebuild re-wraps a whitespace-bearing text in double quotes.
    assert_eq!(input_state.raw_input, "echo \"hello world\"");

    // Round trip: re-tokenizing the rebuilt line yields the same texts.
    input_state.tokenize().unwrap();
    assert_eq!(input_state.tokens.len(), 2);
    assert_eq!(input_state.tokens[0].text, "echo");
    assert_eq!(input_state.tokens[1].text, "hello world");
}

#[test]
fn test_retokenize_rebuild_is_idempotent() {
    let mut input_state = InputState::new();
    input_state.set_input("echo \"hello world\" test".to_string()).unwrap();
    let texts: Vec<String> = input_state.tokens.iter().map(|t| t.text.clone()).collect();

    // Committing with an unchanged scratch rebuilds the line from the texts.
    input_state.start_editing(0).unwrap();
    input_state.commit_edit(0).unwrap();
    input_state.tokenize().unwrap();

    let texts_after: Vec<String> = input_state.tokens.iter().map(|t| t.text.clone()).collect();
    assert_eq!(texts, texts_after);
}

#[test]
fn test_quote_bearing_token_does_not_round_trip() {
    let mut input_state = InputState::new();
    input_state.set_input("ab c".to_string()).unwrap();

    input_state.start_editing(0).unwrap();
    input_state.update_editing("a\"b".to_string());
    input_state.commit_edit(0).unwrap();

    // The rebuild does not re-escape the embedded quote ...
    assert_eq!(input_state.raw_input, "a\"b c");
    // ... so re-tokenizing does not yield the texts back: the lone quote
    // leaves the quoting unbalanced. A known boundary, not a bug.
    match input_state.tokenize() {
        Err(InputError::UnmatchedQuote) => {}
        other => panic!("expected UnmatchedQuote, got {:?}", other),
    }
    assert_eq!(input_state.tokens.len(), 0);
}

#[test]
fn test_commit_without_edit_changes_nothing() {
    let mut input_state = InputState::new();
    input_state.set_input("ls -la".to_string()).unwrap();
    input_state.commit_edit(0).unwrap();
    assert_eq!(input_state.raw_input, "ls -la");
    assert_eq!(input_state.tokens.len(), 2);
}

#[test]
fn test_clear() {
    let mut input_state = InputState::new();
    input_state.set_input("ls -la".to_string()).unwrap();
    input_state.start_editing(0).unwrap();
    input_state.clear();
    assert_eq!(input_state.raw_input, "");
    assert_eq!(input_state.tokens.len(), 0);
    assert_eq!(input_state.editing, None);
}

#[test]
fn test_get_command() {
    let mut input_state = InputState::new();
    input_state.set_input("cargo build".to_string()).unwrap();
    assert_eq!(input_state.get_command(), "cargo build");
}
