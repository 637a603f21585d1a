use blanket_trait::error::{ExpandError, SyntaxError};
use blanket_trait::member::MemberKind;
use blanket_trait::syntax::lex;
use blanket_trait::token::{append_tokens, clone_tokens, same_text, Delimiter, Token};

fn ident(text: &str) -> Token {
    Token::Ident(text.to_string())
}

fn literal(text: &str) -> Token {
    Token::Literal(text.to_string())
}

#[test]
fn lexing_tells_the_four_kinds_of_token_apart() {
    assert_eq!(
        lex("a + 1 (b)"),
        Ok(vec![
            ident("a"),
            Token::Punct('+', false),
            literal("1"),
            Token::Group(Delimiter::Paren, vec![ident("b")]),
        ])
    );
}

#[test]
fn lexing_keeps_the_delimiter_of_each_group() {
    assert_eq!(
        lex("() {} [] ({[]})"),
        Ok(vec![
            Token::Group(Delimiter::Paren, vec![]),
            Token::Group(Delimiter::Brace, vec![]),
            Token::Group(Delimiter::Bracket, vec![]),
            Token::Group(
                Delimiter::Paren,
                vec![Token::Group(
                    Delimiter::Brace,
                    vec![Token::Group(Delimiter::Bracket, vec![])]
                )]
            ),
        ])
    );
}

#[test]
fn lexing_marks_glued_punctuation() {
    assert_eq!(
        lex("a::b -> 'c"),
        Ok(vec![
            ident("a"),
            Token::Punct(':', true),
            Token::Punct(':', false),
            ident("b"),
            Token::Punct('-', true),
            Token::Punct('>', false),
            Token::Punct('\'', true),
            ident("c"),
        ])
    );
}

#[test]
fn lexing_keeps_literals_and_raw_identifiers_as_written() {
    assert_eq!(
        lex("r#type 1u8 \"s\" 'x' 1.5e3 b\"y\""),
        Ok(vec![
            ident("r#type"),
            literal("1u8"),
            literal("\"s\""),
            literal("'x'"),
            literal("1.5e3"),
            literal("b\"y\""),
        ])
    );
}

#[test]
fn lexing_drops_comments_and_turns_doc_comments_into_attributes() {
    assert_eq!(lex("a // b\n /* c */ d"), Ok(vec![ident("a"), ident("d")]));
    assert_eq!(
        lex("/// doc\nx"),
        Ok(vec![
            Token::Punct('#', false),
            Token::Group(
                Delimiter::Bracket,
                vec![ident("doc"), Token::Punct('=', false), literal("\" doc\"")]
            ),
            ident("x"),
        ])
    );
}

#[test]
fn lexing_of_nothing_is_empty() {
    assert_eq!(lex(""), Ok(vec![]));
    assert_eq!(lex("  \n\t "), Ok(vec![]));
}

#[test]
fn lexing_reports_where_it_stops() {
    assert_eq!(
        lex("a )"),
        Err(SyntaxError {
            message: "cannot parse string into token stream".to_string(),
            line: 1,
            column: 2,
        })
    );
    assert_eq!(
        lex("a\n  \"b"),
        Err(SyntaxError {
            message: "cannot parse string into token stream".to_string(),
            line: 2,
            column: 2,
        })
    );
}

#[test]
fn text_is_compared_character_by_character() {
    assert!(same_text("", ""));
    assert!(same_text("fn", "fn"));
    assert!(same_text("é∀", "é∀"));
    assert!(!same_text("fn", "fm"));
    assert!(!same_text("fn", "f"));
    assert!(!same_text("f", "fn"));
    assert!(!same_text("", "a"));
}

#[test]
fn token_predicates() {
    assert!(Token::Punct(';', false).is_punct(';'));
    assert!(Token::Punct(';', true).is_punct(';'));
    assert!(!Token::Punct(':', false).is_punct(';'));
    assert!(!ident(";").is_punct(';'));
    assert!(ident("fn").is_word("fn"));
    assert!(!ident("fn").is_word("f"));
    assert!(!literal("fn").is_word("fn"));
    assert!(Token::Group(Delimiter::Brace, vec![]).is_group(Delimiter::Brace));
    assert!(!Token::Group(Delimiter::Paren, vec![]).is_group(Delimiter::Brace));
    assert!(!ident("x").is_group(Delimiter::Brace));
}

#[test]
fn token_constructors() {
    assert_eq!(Token::punct(';'), Token::Punct(';', false));
    assert_eq!(Token::word("impl"), ident("impl"));
}

#[test]
fn clones_are_deep_copies() {
    let all = lex("a (b [c {d 1}]) :: 'e").unwrap();
    assert_eq!(clone_tokens(&all), all);
    assert_eq!(all[1].clone(), all[1]);
    assert_eq!(clone_tokens(&vec![]), vec![]);
}

#[test]
fn appending_copies_in_order() {
    let mut out = lex("a b").unwrap();
    append_tokens(&mut out, &lex("(c) d").unwrap());
    assert_eq!(out, lex("a b (c) d").unwrap());
    append_tokens(&mut out, &vec![]);
    assert_eq!(out, lex("a b (c) d").unwrap());
}

#[test]
fn every_error_has_its_message() {
    let syntax = |message: &str| SyntaxError { message: message.to_string(), line: 3, column: 4 };
    assert_eq!(ExpandError::MalformedHeader(syntax("expected `for`")).message(), "expected `for`");
    assert_eq!(
        ExpandError::MalformedBlock(syntax("expected `trait`")).message(),
        "expected `trait`"
    );
    assert_eq!(ExpandError::MissingBraces.message(), "expected curly braces");
    assert_eq!(
        ExpandError::MissingDefault { index: 0, kind: MemberKind::Behavior, line: 1, column: 2 }
            .message(),
        "Expected function body"
    );
    assert_eq!(
        ExpandError::MissingDefault { index: 1, kind: MemberKind::Type, line: 1, column: 2 }
            .message(),
        "Expected default value."
    );
    assert_eq!(
        ExpandError::MissingDefault { index: 2, kind: MemberKind::Constant, line: 1, column: 2 }
            .message(),
        "Expected default value."
    );
}
