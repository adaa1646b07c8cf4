use eesh::alias::CommandAliases;
use eesh::input::{KeyCode, KeyInput};
use eesh::lexer::{MotionToken, MotionTokenizer, tokenize};

fn ch(c: char) -> KeyInput {
    KeyInput { code: KeyCode::Char(c), mods: 0 }
}

fn enter() -> KeyInput {
    KeyInput { code: KeyCode::Enter, mods: 0 }
}

fn chord(code: u32) -> KeyInput {
    KeyInput { code: KeyCode::Other(code), mods: 0 }
}

fn ident_text(t: &MotionToken) -> &str {
    match t {
        MotionToken::Identifier(s) => s.as_str(),
        _ => panic!("expected an identifier"),
    }
}

fn string_text(t: &MotionToken) -> &str {
    match t {
        MotionToken::StringLiteral(s) => s.as_str(),
        _ => panic!("expected a string literal"),
    }
}

fn number_value(t: &MotionToken) -> i64 {
    match t {
        MotionToken::Number(n) => *n,
        _ => panic!("expected a number"),
    }
}

#[test]
fn leader_then_identifier_then_submit() {
    let aliases = CommandAliases::new();
    let events = vec![ch(','), ch('q'), enter()];
    let toks = tokenize(&events, &aliases);
    assert_eq!(toks.len(), 3);
    assert!(matches!(toks[0], MotionToken::ClientCommand));
    assert_eq!(ident_text(&toks[1]), "q");
    assert!(matches!(toks[2], MotionToken::Submit));
}

#[test]
fn negative_number_then_submit() {
    let aliases = CommandAliases::new();
    let events = vec![ch('-'), ch('4'), ch('2'), enter()];
    let toks = tokenize(&events, &aliases);
    assert_eq!(toks.len(), 2);
    assert_eq!(number_value(&toks[0]), -42);
    assert!(matches!(toks[1], MotionToken::Submit));
}

#[test]
fn string_literal_then_submit() {
    let aliases = CommandAliases::new();
    let events = vec![ch('"'), ch('h'), ch('i'), ch('"'), enter()];
    let toks = tokenize(&events, &aliases);
    assert_eq!(toks.len(), 2);
    assert_eq!(string_text(&toks[0]), "hi");
    assert!(matches!(toks[1], MotionToken::Submit));
}

#[test]
fn commander_marks_server_command() {
    let aliases = CommandAliases::new();
    let events = vec![ch('/'), ch('j'), enter()];
    let toks = tokenize(&events, &aliases);
    assert_eq!(toks.len(), 3);
    assert!(matches!(toks[0], MotionToken::ServerCommand));
    assert_eq!(ident_text(&toks[1]), "j");
    assert!(matches!(toks[2], MotionToken::Submit));
}

#[test]
fn whitespace_is_skipped() {
    let aliases = CommandAliases::new();
    let events = vec![ch(' '), ch('a'), ch('b'), ch(' '), ch(' '), ch('7'), enter()];
    let toks = tokenize(&events, &aliases);
    assert_eq!(toks.len(), 3);
    assert_eq!(ident_text(&toks[0]), "ab");
    assert_eq!(number_value(&toks[1]), 7);
    assert!(matches!(toks[2], MotionToken::Submit));
}

#[test]
fn chord_passes_through_raw() {
    let aliases = CommandAliases::new();
    let events = vec![chord(33), ch('x')];
    let toks = tokenize(&events, &aliases);
    assert_eq!(toks.len(), 2);
    match toks[0] {
        MotionToken::Chord(k) => assert_eq!(k, chord(33)),
        _ => panic!("expected a chord"),
    }
    assert_eq!(ident_text(&toks[1]), "x");
}

#[test]
fn unterminated_string_keeps_gathered_text() {
    let aliases = CommandAliases::new();
    let events = vec![ch('"'), ch('o'), ch('k')];
    let toks = tokenize(&events, &aliases);
    assert_eq!(toks.len(), 1);
    assert_eq!(string_text(&toks[0]), "ok");
}

#[test]
fn escaped_quote_stays_inside_string() {
    let aliases = CommandAliases::new();
    let events = vec![ch('"'), ch('a'), ch('\\'), ch('"'), ch('b'), ch('"')];
    let toks = tokenize(&events, &aliases);
    assert_eq!(toks.len(), 1);
    assert_eq!(string_text(&toks[0]), "a\"b");
}

#[test]
fn bare_minus_reads_as_identifier() {
    let aliases = CommandAliases::new();
    let events = vec![ch('-'), enter()];
    let toks = tokenize(&events, &aliases);
    assert_eq!(toks.len(), 2);
    assert_eq!(ident_text(&toks[0]), "-");
    assert!(matches!(toks[1], MotionToken::Submit));
}

#[test]
fn minus_before_word_reads_as_identifier() {
    let aliases = CommandAliases::new();
    let events = vec![ch('-'), ch('v'), enter()];
    let toks = tokenize(&events, &aliases);
    assert_eq!(toks.len(), 2);
    assert_eq!(ident_text(&toks[0]), "-v");
    assert!(matches!(toks[1], MotionToken::Submit));
}

#[test]
fn long_number_saturates() {
    let aliases = CommandAliases::new();
    let mut events = Vec::new();
    for _ in 0..25 {
        events.push(ch('9'));
    }
    let toks = tokenize(&events, &aliases);
    assert_eq!(toks.len(), 1);
    assert_eq!(number_value(&toks[0]), i64::MAX);

    let mut neg = vec![ch('-')];
    for _ in 0..25 {
        neg.push(ch('9'));
    }
    let toks = tokenize(&neg, &aliases);
    assert_eq!(toks.len(), 1);
    assert_eq!(number_value(&toks[0]), i64::MIN);
}

#[test]
fn overridden_leader_is_honored() {
    let mut aliases = CommandAliases::new();
    aliases.insert("leader".to_string(), ";".to_string());
    let events = vec![ch(';'), ch('q'), enter()];
    let toks = tokenize(&events, &aliases);
    assert_eq!(toks.len(), 3);
    assert!(matches!(toks[0], MotionToken::ClientCommand));
    // The default leader no longer marks a client command.
    let events = vec![ch(','), enter()];
    let toks = tokenize(&events, &aliases);
    assert_eq!(toks.len(), 2);
    assert_eq!(ident_text(&toks[0]), ",");
}

#[test]
fn empty_trigger_disables_the_marker() {
    let mut aliases = CommandAliases::new();
    aliases.insert("leader".to_string(), String::new());
    let events = vec![ch(','), enter()];
    let toks = tokenize(&events, &aliases);
    assert_eq!(toks.len(), 2);
    assert_eq!(ident_text(&toks[0]), ",");
}

#[test]
fn tokenizer_yields_one_token_per_call() {
    let aliases = CommandAliases::new();
    let events = vec![ch('a'), ch(' '), ch('b')];
    let mut scan = MotionTokenizer::new(&events, &aliases);
    let first = scan.next().expect("one identifier");
    assert_eq!(ident_text(&first), "a");
    let second = scan.next().expect("another identifier");
    assert_eq!(ident_text(&second), "b");
    assert!(scan.next().is_none());
}

#[test]
fn identifier_swallows_digits_and_quotes_after_start() {
    let aliases = CommandAliases::new();
    let events = vec![ch('x'), ch('1'), ch('"'), ch('y')];
    let toks = tokenize(&events, &aliases);
    assert_eq!(toks.len(), 1);
    assert_eq!(ident_text(&toks[0]), "x1\"y");
}
