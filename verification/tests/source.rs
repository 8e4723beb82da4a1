use clap_stdin::{Content, Reader, SingleReadGuard, Source, Stdin, StdinError};

fn strings(items: &[&str]) -> Vec<String> {
    items.iter().map(|item| item.to_string()).collect()
}

#[test]
fn the_sentinel_selects_stdin() {
    let source = Source::from_str("-");
    assert_eq!(source, Source::Stdin(Stdin));
    assert!(source.is_stdin());
}

#[test]
fn every_other_token_is_the_argument() {
    for token in ["", "a", "--", " -", "- ", "-\n", "a-", "-a", "stdin", "\u{2212}", "banana,apple"] {
        let source = Source::from_str(token);
        assert_eq!(source, Source::Arg(token.to_string()));
        assert!(!source.is_stdin());
    }
}

#[test]
fn a_new_guard_is_unconsumed() {
    let guard = SingleReadGuard::new();
    assert!(!guard.is_consumed());
}

#[test]
fn try_consume_returns_the_previous_state() {
    let mut guard = SingleReadGuard::new();
    assert!(!guard.try_consume());
    assert!(guard.is_consumed());
    assert!(guard.try_consume());
    assert!(guard.try_consume());
    assert!(guard.is_consumed());
}

#[test]
fn claim_is_granted_once() {
    let mut guard = SingleReadGuard::new();
    assert!(guard.claim().is_ok());
    assert!(guard.is_consumed());
    assert_eq!(guard.claim().unwrap_err(), StdinError::StdInRepeatedUse);
    assert_eq!(guard.claim().unwrap_err(), StdinError::StdInRepeatedUse);
    assert!(guard.is_consumed());
}

#[test]
fn claim_after_try_consume_is_refused() {
    let mut guard = SingleReadGuard::new();
    guard.try_consume();
    assert_eq!(guard.claim().unwrap_err(), StdinError::StdInRepeatedUse);
}

#[test]
fn value_of_an_argument_is_the_argument() {
    let mut guard = SingleReadGuard::new();
    match Source::from_str("  some text ").get_value(&mut guard) {
        Ok(Content::Text(text)) => assert_eq!(text, "  some text "),
        other => panic!("unexpected: {:?}", other),
    }
    assert!(!guard.is_consumed());
}

#[test]
fn value_of_an_argument_does_not_need_the_guard() {
    let mut guard = SingleReadGuard::new();
    guard.try_consume();
    match Source::from_str("x").get_value(&mut guard) {
        Ok(Content::Text(text)) => assert_eq!(text, "x"),
        other => panic!("unexpected: {:?}", other),
    }
    assert!(guard.is_consumed());
}

#[test]
fn value_of_stdin_is_granted_once() {
    let mut guard = SingleReadGuard::new();
    let permit = match Source::from_str("-").get_value(&mut guard) {
        Ok(Content::Stdin(permit)) => permit,
        other => panic!("unexpected: {:?}", other),
    };
    assert!(guard.is_consumed());
    assert_eq!(permit.into_string(Ok("all of it\n".to_string())), Ok("all of it\n".to_string()));
    match Source::from_str("-").get_value(&mut guard) {
        Err(error) => assert_eq!(error, StdinError::StdInRepeatedUse),
        other => panic!("unexpected: {:?}", other),
    }
}

#[test]
fn reader_of_an_argument_is_a_file() {
    let mut guard = SingleReadGuard::new();
    match Source::from_str("dir/input.txt").into_reader(&mut guard) {
        Ok(Reader::File(path)) => assert_eq!(path, "dir/input.txt"),
        other => panic!("unexpected: {:?}", other),
    }
    assert!(!guard.is_consumed());
}

#[test]
fn reader_of_stdin_is_granted_once() {
    let mut guard = SingleReadGuard::new();
    assert!(matches!(Source::from_str("-").into_reader(&mut guard), Ok(Reader::Stdin(_))));
    assert!(guard.is_consumed());
    match Source::from_str("-").into_reader(&mut guard) {
        Err(error) => assert_eq!(error, StdinError::StdInRepeatedUse),
        other => panic!("unexpected: {:?}", other),
    }
    assert!(matches!(Source::from_str("f").into_reader(&mut guard), Ok(Reader::File(_))));
}

#[test]
fn reader_and_value_share_the_guard() {
    let mut guard = SingleReadGuard::new();
    assert!(Source::from_str("-").into_reader(&mut guard).is_ok());
    assert!(Source::from_str("-").get_value(&mut guard).is_err());
    assert_eq!(Stdin.read_string(&mut guard).unwrap_err(), StdinError::StdInRepeatedUse);
    assert_eq!(Stdin.lines(&mut guard).unwrap_err(), StdinError::StdInRepeatedUse);
}

#[test]
fn read_string_is_granted_once() {
    let mut guard = SingleReadGuard::new();
    let permit = Stdin.read_string(&mut guard).unwrap();
    assert!(guard.is_consumed());
    assert_eq!(permit.into_string(Ok("42\n".to_string())), Ok("42\n".to_string()));
    assert_eq!(Stdin.read_string(&mut guard).unwrap_err(), StdinError::StdInRepeatedUse);
}

#[test]
fn lines_are_granted_once() {
    let mut guard = SingleReadGuard::new();
    let permit = Stdin.lines(&mut guard).unwrap();
    assert_eq!(
        permit.into_lines(Ok("banana\napple\n".to_string())),
        Ok(strings(&["banana", "apple"]))
    );
    assert_eq!(Stdin.lines(&mut guard).unwrap_err(), StdinError::StdInRepeatedUse);
}

#[test]
fn lines_are_not_trimmed() {
    let mut guard = SingleReadGuard::new();
    let permit = Stdin.lines(&mut guard).unwrap();
    assert_eq!(
        permit.into_lines(Ok("\n a \r\n\nb".to_string())),
        Ok(strings(&["", " a ", "", "b"]))
    );
}

#[test]
fn a_failed_read_becomes_stdin_error() {
    let mut guard = SingleReadGuard::new();
    let permit = guard.claim().unwrap();
    assert_eq!(
        permit.into_string(Err("stream did not contain valid UTF-8".to_string())),
        Err(StdinError::StdIn("stream did not contain valid UTF-8".to_string()))
    );
    let mut guard = SingleReadGuard::new();
    let permit = guard.claim().unwrap();
    assert_eq!(
        permit.into_lines(Err("broken pipe".to_string())),
        Err(StdinError::StdIn("broken pipe".to_string()))
    );
}

#[test]
fn separate_guards_do_not_interfere() {
    let mut one = SingleReadGuard::new();
    let mut other = SingleReadGuard::new();
    assert!(Stdin.read_string(&mut one).is_ok());
    assert!(Stdin.read_string(&mut other).is_ok());
    assert!(Stdin.read_string(&mut one).is_err());
    assert!(Stdin.read_string(&mut other).is_err());
}

#[test]
fn messages_of_the_errors() {
    assert_eq!(StdinError::StdInRepeatedUse.to_string(), "stdin read from more than once");
    assert_eq!(StdinError::StdIn("broken pipe".to_string()).to_string(), "broken pipe");
    assert_eq!(
        StdinError::FromStr("invalid digit found in string".to_string()).to_string(),
        "unable to parse from_str: invalid digit found in string"
    );
    assert_eq!(
        StdinError::FromSource("no fruit".to_string()).to_string(),
        "unable to parse from_source: no fruit"
    );
    assert_eq!(StdinError::FromStr(String::new()).to_string(), "unable to parse from_str: ");
}

#[test]
fn wrapping_keeps_the_message() {
    assert_eq!(
        StdinError::StdInRepeatedUse.wrap(),
        StdinError::FromStr("stdin read from more than once".to_string())
    );
    assert_eq!(
        StdinError::StdIn("broken pipe".to_string()).wrap(),
        StdinError::FromStr("broken pipe".to_string())
    );
    assert_eq!(
        StdinError::FromSource("no fruit".to_string()).wrap(),
        StdinError::FromStr("unable to parse from_source: no fruit".to_string())
    );
    assert_eq!(
        StdinError::FromStr("x".to_string()).wrap(),
        StdinError::FromStr("unable to parse from_str: x".to_string())
    );
}
