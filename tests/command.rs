use parallel::command::{build, pipe_chunk, prepare, BuildErr, JobSpec, Payload, Strategy, Token};

fn s(v: &[&str]) -> Vec<String> {
    v.iter().map(|x| x.to_string()).collect()
}

fn template(v: &[&str]) -> Vec<Token> {
    v.iter().map(|x| Token::parse(x)).collect()
}

#[test]
fn placeholders_are_substituted() {
    let t = template(&["echo", "{}", "and", "{2}"]);
    assert_eq!(build(&t, &s(&["a", "b"])), Ok(s(&["echo", "a", "b", "and", "b"])));
}

#[test]
fn records_are_appended_without_placeholder() {
    let t = template(&["gzip", "-9"]);
    assert_eq!(build(&t, &s(&["f1"])), Ok(s(&["gzip", "-9", "f1"])));
    assert_eq!(build(&Vec::new(), &s(&["x", "y"])), Ok(s(&["x", "y"])));
}

#[test]
fn missing_record_fails_before_spawn() {
    let t = template(&["cp", "{1}", "{3}"]);
    assert_eq!(build(&t, &s(&["a", "b"])), Err(BuildErr::MissingInput(3)));
    let t = template(&["cp", "{0}"]);
    assert_eq!(build(&t, &s(&["a"])), Err(BuildErr::MissingInput(0)));
}

#[test]
fn tokens_parse() {
    assert!(matches!(Token::parse("{}"), Token::Input));
    assert!(matches!(Token::parse("{12}"), Token::Nth(12)));
    assert!(matches!(Token::parse("{1a}"), Token::Text(ref t) if t == "{1a}"));
    assert!(matches!(Token::parse("{"), Token::Text(ref t) if t == "{"));
    assert!(matches!(Token::parse("ls"), Token::Text(ref t) if t == "ls"));
    assert!(matches!(Token::parse("{99999999999999999999999}"), Token::Text(_)));
}

#[test]
fn pipe_mode_writes_lines() {
    assert_eq!(pipe_chunk(&s(&["a", "b"])), "a\nb\n");
    assert_eq!(pipe_chunk(&Vec::new()), "");
    match prepare(&Strategy::Pipe, 4, &s(&["x"])) {
        Ok(JobSpec { seq: 4, payload: Payload::Text(t) }) => assert_eq!(t, "x\n"),
        other => panic!("unexpected {:?}", other),
    }
    match prepare(&Strategy::Template(template(&["echo"])), 5, &s(&["x"])) {
        Ok(JobSpec { seq: 5, payload: Payload::Args(a) }) => assert_eq!(a, s(&["echo", "x"])),
        other => panic!("unexpected {:?}", other),
    }
    assert!(prepare(&Strategy::Template(template(&["{2}"])), 5, &s(&["x"])).is_err());
}
