use blanket_trait::error::SyntaxError;
use blanket_trait::header::{BindingHeader, Generics};
use blanket_trait::syntax::{lex, parse_header};
use blanket_trait::token::Token;

fn tokens(text: &str) -> Vec<Token> {
    lex(text).unwrap()
}

fn failure(text: &str) -> SyntaxError {
    parse_header(text).unwrap_err()
}

fn written(header: &BindingHeader) -> Vec<Token> {
    let mut out = Vec::new();
    header.write_tokens(&mut out);
    out
}

#[test]
fn header_parts_are_reproduced() {
    let header = parse_header("impl<T: A> B for T where T::AA: Send").unwrap();
    assert_eq!(header.attrs, vec![]);
    assert!(!header.unsafety);
    assert_eq!(header.generics.params, tokens("<T: A>"));
    assert_eq!(header.path, tokens("B"));
    assert_eq!(header.self_ty, tokens("T"));
    assert_eq!(header.generics.where_clause, tokens("where T::AA: Send"));
    assert_eq!(written(&header), tokens("impl<T: A> B for T where T::AA: Send"));
}

#[test]
fn header_without_generics_or_where_clause() {
    let header = parse_header("impl Display for Wrapper").unwrap();
    assert_eq!(header.generics.params, vec![]);
    assert_eq!(header.generics.where_clause, vec![]);
    assert_eq!(header.path, tokens("Display"));
    assert_eq!(header.self_ty, tokens("Wrapper"));
    assert_eq!(written(&header), tokens("impl Display for Wrapper"));
}

#[test]
fn header_with_attributes_and_unsafety() {
    let header = parse_header("#[cfg(a)] #[b] unsafe impl<T> m::B<T> for Vec<T>").unwrap();
    assert_eq!(header.attrs, tokens("#[cfg(a)] #[b]"));
    assert!(header.unsafety);
    assert_eq!(header.generics.params, tokens("<T>"));
    assert_eq!(header.path, tokens("m::B<T> "));
    assert_eq!(header.self_ty, tokens("Vec<T> "));
    assert_eq!(written(&header), tokens("#[cfg(a)] #[b] unsafe impl<T> m::B<T> for Vec<T> "));
}

#[test]
fn generics_stop_before_the_path() {
    let header = parse_header("impl<T, const N: usize> ::a::B<N> for [T; N]").unwrap();
    assert_eq!(header.generics.params, tokens("<T, const N: usize> "));
    assert_eq!(header.path, tokens("::a::B<N> "));
    assert_eq!(header.self_ty, tokens("[T; N]"));
}

#[test]
fn empty_where_clause_is_dropped() {
    let header = parse_header("impl<T> B for T where").unwrap();
    assert_eq!(header.generics.where_clause, vec![]);
}

#[test]
fn assembling_attaches_the_where_clause_to_the_generics() {
    let header = BindingHeader::assemble(
        tokens("#[a]"),
        true,
        tokens("<T>"),
        tokens("B"),
        tokens("T"),
        tokens("where T: C"),
    );
    assert_eq!(
        header,
        BindingHeader {
            attrs: tokens("#[a]"),
            unsafety: true,
            generics: Generics { params: tokens("<T>"), where_clause: tokens("where T: C") },
            path: tokens("B"),
            self_ty: tokens("T"),
        }
    );
    assert_eq!(written(&header), tokens("#[a] unsafe impl<T> B for T where T: C"));
}

#[test]
fn writing_a_header_appends_to_what_is_there() {
    let header = parse_header("impl B for T").unwrap();
    let mut out = tokens("x y");
    header.write_tokens(&mut out);
    assert_eq!(out, tokens("x y impl B for T"));
}

#[test]
fn inner_attributes_are_not_written_in_front() {
    let header = BindingHeader::assemble(
        tokens("#[a] # ![b] #[c]"),
        false,
        vec![],
        tokens("B"),
        tokens("T"),
        vec![],
    );
    assert_eq!(written(&header), tokens("#[a] #[c] impl B for T"));
}

#[test]
fn missing_impl_is_reported() {
    assert_eq!(
        failure("<T> B for T"),
        SyntaxError { message: "expected `impl`".to_string(), line: 1, column: 0 }
    );
    assert_eq!(
        failure(""),
        SyntaxError {
            message: "unexpected end of input, expected `impl`".to_string(),
            line: 1,
            column: 0,
        }
    );
}

#[test]
fn missing_for_is_reported() {
    assert_eq!(
        failure("impl<T> B T"),
        SyntaxError { message: "expected `for`".to_string(), line: 1, column: 10 }
    );
}

#[test]
fn missing_path_is_reported() {
    assert_eq!(
        failure("impl<T> for T"),
        SyntaxError {
            message: "expected identifier, found keyword `for`".to_string(),
            line: 1,
            column: 8,
        }
    );
}

#[test]
fn missing_type_is_reported() {
    let error = failure("impl<T> B for");
    assert!(error.message.starts_with("unexpected end of input, expected one of: "));
    assert_eq!(
        failure("impl B for 'a"),
        SyntaxError {
            message: "at least one trait is required for an object type".to_string(),
            line: 1,
            column: 11,
        }
    );
}

#[test]
fn broken_generics_are_reported_with_their_line() {
    assert_eq!(
        failure("impl<T>\n  B<1 for T"),
        SyntaxError { message: "expected `,`".to_string(), line: 2, column: 6 }
    );
}

#[test]
fn tokens_after_the_header_are_reported() {
    assert_eq!(
        failure("impl B for T extra"),
        SyntaxError { message: "unexpected token".to_string(), line: 1, column: 13 }
    );
    assert!(parse_header("impl B for T {}").is_err());
}

#[test]
fn header_that_does_not_lex_is_reported() {
    assert_eq!(
        failure("impl B for T {"),
        SyntaxError {
            message: "cannot parse string into token stream".to_string(),
            line: 1,
            column: 13,
        }
    );
}

#[test]
fn parsed_header_is_complete() {
    for text in [
        "impl B for T",
        "impl<T: A> B for T where T::AA: Send",
        "#[a] unsafe impl<'a> m::B<'a> for &'a [u8] where",
    ] {
        assert!(parse_header(text).unwrap().is_complete());
    }
}

#[test]
fn header_without_path_or_type_is_not_complete() {
    let header = |path: &str, self_ty: &str, where_clause: &str| {
        BindingHeader::assemble(
            vec![],
            false,
            tokens("<T>"),
            tokens(path),
            tokens(self_ty),
            tokens(where_clause),
        )
    };
    assert!(header("B", "T", "").is_complete());
    assert!(header("B", "T", "where T: C").is_complete());
    assert!(!header("", "T", "").is_complete());
    assert!(!header("B", "", "").is_complete());
    assert!(!header("B", "T", "T: C").is_complete());
}

#[test]
fn completing_gives_the_assembled_header_or_nothing() {
    let parts = |path: &str, self_ty: &str, where_clause: &str| {
        BindingHeader::complete(
            tokens("#[a]"),
            true,
            tokens("<T>"),
            tokens(path),
            tokens(self_ty),
            tokens(where_clause),
        )
    };
    assert_eq!(
        parts("B", "T", "where T: C"),
        Some(BindingHeader::assemble(
            tokens("#[a]"),
            true,
            tokens("<T>"),
            tokens("B"),
            tokens("T"),
            tokens("where T: C"),
        ))
    );
    assert_eq!(parts("", "T", ""), None);
    assert_eq!(parts("B", "", ""), None);
    assert_eq!(parts("B", "T", "T: C"), None);
}

#[test]
fn header_takes_all_tokens_of_the_directive_in_order() {
    let text = "#[a] unsafe impl<T: A> m::B<T> for Vec<T> where T: C";
    let header = parse_header(text).unwrap();
    let mut parts = header.attrs.clone();
    parts.extend(tokens("unsafe impl"));
    parts.extend(header.generics.params.clone());
    parts.extend(header.path.clone());
    parts.extend(tokens("for"));
    parts.extend(header.self_ty.clone());
    parts.extend(header.generics.where_clause.clone());
    assert_eq!(parts, written(&header));
    assert_eq!(header.path, tokens("m::B<T> "));
    assert_eq!(header.self_ty, tokens("Vec<T> "));
}
