use host_instrument::pattern::{check_tokens, compile, PatternError, Token};
use host_instrument::singleton::{null_check_pattern, NULL_CHECK_PATTERN};

#[test]
fn compile_reads_bytes_wildcards_and_captures() {
    let pattern = compile("B9 ' ?? 68").expect("a valid pattern");
    assert_eq!(
        pattern.tokens(),
        &vec![
            Token::Capture(0),
            Token::Byte(0xB9),
            Token::Capture(1),
            Token::Wildcard(2),
            Token::Byte(0x68),
        ]
    );
    assert_eq!(pattern.capture_count(), 2);
}

#[test]
fn compile_reads_the_idiom() {
    let pattern = null_check_pattern().expect("the idiom compiles");
    assert_eq!(
        pattern.tokens(),
        &vec![
            Token::Capture(0),
            Token::Byte(0x48),
            Token::Byte(0x8b),
            Token::Byte(0x0d),
            Token::GroupStart(4),
            Token::Follow4,
            Token::Capture(1),
            Token::GroupEnd,
            Token::Byte(0x48),
            Token::Byte(0x85),
            Token::Wildcard(1),
            Token::Byte(0x75),
            Token::Wildcard(1),
            Token::Byte(0x48),
            Token::Byte(0x8d),
            Token::Byte(0x0d),
            Token::GroupStart(4),
            Token::Follow4,
            Token::Capture(2),
            Token::GroupEnd,
            Token::Byte(0xe8),
            Token::GroupStart(4),
            Token::Follow4,
            Token::Capture(3),
        ]
    );
    assert_eq!(pattern.capture_count(), 4);
    assert_eq!(
        compile(NULL_CHECK_PATTERN).expect("the idiom compiles").tokens(),
        pattern.tokens()
    );
}

#[test]
fn compile_reads_short_jumps_and_text() {
    let pattern = compile("74 % { ' } \"ok\"").expect("a valid pattern");
    assert_eq!(
        pattern.tokens(),
        &vec![
            Token::Capture(0),
            Token::Byte(0x74),
            Token::GroupStart(1),
            Token::Follow1,
            Token::Capture(1),
            Token::GroupEnd,
            Token::Byte(b'o'),
            Token::Byte(b'k'),
        ]
    );
}

#[test]
fn compile_refuses_malformed_text() {
    assert_eq!(compile("123").err(), Some(PatternError::Syntax));
    assert_eq!(compile("EE BZ").err(), Some(PatternError::Syntax));
    assert_eq!(compile("AB {}").err(), Some(PatternError::Syntax));
    assert_eq!(compile("e8 ${").err(), Some(PatternError::Syntax));
    assert_eq!(compile("zz").err(), Some(PatternError::Syntax));
    assert_eq!(compile("\"open").err(), Some(PatternError::Syntax));
}

#[test]
fn compile_refuses_pattern_without_bytes() {
    assert_eq!(compile("").err(), Some(PatternError::Syntax));
    assert_eq!(compile("   ").err(), Some(PatternError::Syntax));
    assert_eq!(compile("? ? '").err(), Some(PatternError::Syntax));
    assert_eq!(compile("$ { ' }").err(), Some(PatternError::Syntax));
}

#[test]
fn compile_refuses_what_lies_outside_the_grammar() {
    assert_eq!(compile("b8 [13-42] ff").err(), Some(PatternError::Syntax));
    assert_eq!(compile("68 * ' 31").err(), Some(PatternError::Syntax));
    assert_eq!(compile("e8 i1 a0 u4").err(), Some(PatternError::Syntax));
    assert_eq!(compile("e9 $ @4").err(), Some(PatternError::Syntax));
    assert_eq!(compile("83 ( 6a ? | 68 ? ? ? ? ) e8").err(), Some(PatternError::Syntax));
    assert_eq!(compile("83 ( 6a ' | 68 ' ) e8").err(), Some(PatternError::Syntax));
}

#[test]
fn check_tokens_holds_the_invariant() {
    assert!(check_tokens(&vec![Token::Capture(0), Token::Byte(1)]));
    assert!(check_tokens(&vec![
        Token::Capture(0),
        Token::Capture(1),
        Token::Byte(1),
        Token::Capture(2)
    ]));
    assert!(!check_tokens(&vec![]));
    assert!(!check_tokens(&vec![Token::Capture(0)]));
    assert!(!check_tokens(&vec![Token::Capture(0), Token::Wildcard(3)]));
    assert!(!check_tokens(&vec![Token::Byte(1), Token::Capture(0)]));
    assert!(!check_tokens(&vec![Token::Capture(1), Token::Byte(1)]));
    assert!(!check_tokens(&vec![Token::Capture(0), Token::Byte(1), Token::Capture(2)]));
    assert!(!check_tokens(&vec![Token::Capture(0), Token::Byte(1), Token::Capture(0)]));
    for outside in [
        Token::ReadI8(1),
        Token::ReadU8(1),
        Token::ReadI16(1),
        Token::ReadU16(1),
        Token::ReadI32(1),
        Token::ReadU32(1),
        Token::Check(0),
        Token::Zero(1),
        Token::FollowRelative(0),
        Token::FollowPointer,
        Token::TypeName,
        Token::Aligned(4),
        Token::Mask(0xf0),
        Token::Rewind(1),
        Token::Extend(1),
        Token::Within(29),
        Token::Case(3),
        Token::Break(3),
        Token::Nop,
    ] {
        assert!(!check_tokens(&vec![Token::Capture(0), Token::Byte(1), outside]));
    }
}

#[test]
fn check_tokens_holds_tokens_to_their_shape() {
    let head = vec![Token::Capture(0), Token::Byte(0xe8)];
    let with = |tail: &[Token]| {
        let mut tokens = head.clone();
        tokens.extend_from_slice(tail);
        tokens
    };
    assert!(check_tokens(&with(&[Token::Wildcard(1)])));
    assert!(check_tokens(&with(&[Token::Wildcard(255)])));
    assert!(!check_tokens(&with(&[Token::Wildcard(0)])));
    assert!(check_tokens(&with(&[Token::GroupStart(4), Token::Follow4, Token::GroupEnd])));
    assert!(check_tokens(&with(&[Token::GroupStart(1), Token::Follow1])));
    assert!(check_tokens(&with(&[Token::Follow4])));
    assert!(!check_tokens(&with(&[Token::GroupStart(4)])));
    assert!(!check_tokens(&with(&[Token::GroupStart(4), Token::Follow1])));
    assert!(!check_tokens(&with(&[Token::GroupStart(1), Token::Follow4])));
    assert!(!check_tokens(&with(&[Token::GroupStart(0), Token::Follow4])));
    assert!(!check_tokens(&with(&[Token::GroupStart(4), Token::Byte(1), Token::Follow4])));
}

#[test]
fn check_tokens_counts_up_to_the_last_slot() {
    let mut tokens = vec![Token::Byte(0x90)];
    for slot in 0..=255u8 {
        tokens.insert(slot as usize, Token::Capture(slot));
    }
    assert!(check_tokens(&tokens));
    tokens.push(Token::Capture(0));
    assert!(!check_tokens(&tokens));
}

#[test]
fn compile_bounds_the_nesting_of_groups() {
    let group = "e8 $ { ' } ";
    assert_eq!(compile(&group.repeat(200)).map(|p| p.capture_count()), Ok(201));
    assert_eq!(compile(&"e8 $ { } ".repeat(300)).map(|p| p.capture_count()), Ok(1));
    let nested = format!("{} 90 {}", "e8 $ { ".repeat(255), "} ".repeat(255));
    assert!(compile(&nested).is_ok());
    let too_deep = format!("{} 90 {}", "e8 $ { ".repeat(256), "} ".repeat(256));
    assert_eq!(compile(&too_deep).err(), Some(PatternError::Syntax));
    let unclosed = format!("90 {}", "e8 $ { ".repeat(256));
    assert_eq!(compile(&unclosed).err(), Some(PatternError::Syntax));
    let in_turn = format!("{} 90", "e8 $ { e8 $ { } } ".repeat(200));
    assert!(compile(&in_turn).is_ok());
}

#[test]
fn compile_reads_quoted_text_as_bytes() {
    let braces = format!("90 \"{}\"", "{".repeat(300));
    let pattern = compile(&braces).expect("quoted braces open nothing");
    assert_eq!(pattern.tokens().len(), 302);
    assert_eq!(pattern.tokens()[2], Token::Byte(b'{'));
    let pattern = compile("\"(|)\" 90").expect("quoted bars write no alternatives");
    assert_eq!(
        pattern.tokens(),
        &vec![
            Token::Capture(0),
            Token::Byte(b'('),
            Token::Byte(b'|'),
            Token::Byte(b')'),
            Token::Byte(0x90),
        ]
    );
    assert_eq!(compile("\"a\" ( 90 | 91 )").err(), Some(PatternError::Syntax));
    assert_eq!(compile("90 )").err(), Some(PatternError::Syntax));
    assert_eq!(compile("90 | 91").err(), Some(PatternError::Syntax));
}
