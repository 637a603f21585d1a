use blanket_trait::attribute::append_attributes;
use blanket_trait::block::{split_members, write_members, TraitBlock};
use blanket_trait::emit::{emit, expand};
use blanket_trait::error::ExpandError;
use blanket_trait::member::{Member, MemberKind};
use blanket_trait::syntax::{lex, parse_block, parse_header};
use blanket_trait::token::Token;

fn tokens(text: &str) -> Vec<Token> {
    lex(text).unwrap()
}

fn member(kind: MemberKind, attrs: &str, signature: &str, default: Option<&str>) -> Member {
    Member {
        kind,
        attrs: tokens(attrs),
        signature: tokens(signature),
        bounds: vec![],
        default: default.map(tokens),
        trailer: vec![],
        line: 0,
        column: 0,
    }
}

fn at(member: Member, line: usize, column: usize) -> Member {
    Member { line, column, ..member }
}

fn written(member: &Member) -> Vec<Token> {
    let mut out = Vec::new();
    member.write_tokens(&mut out);
    out
}

fn associated_type() -> Member {
    Member {
        kind: MemberKind::Type,
        attrs: tokens("#[a]"),
        signature: tokens("type X<U>"),
        bounds: tokens("Clone"),
        default: Some(tokens("Vec<U>")),
        trailer: tokens("where U: Copy"),
        line: 0,
        column: 0,
    }
}

fn attributes(text: &str, inner: bool) -> Vec<Token> {
    let mut out = Vec::new();
    append_attributes(&mut out, &tokens(text), inner);
    out
}

#[test]
fn parsed_function_is_taken_apart() {
    let block = parse_block("trait K { #[a] fn f(&self) -> u8 { 1 } }").unwrap();
    assert_eq!(
        block.members,
        vec![at(member(MemberKind::Behavior, "#[a]", "fn f(&self) -> u8", Some("{ 1 }")), 1, 10)]
    );
}

#[test]
fn parsed_type_is_taken_apart() {
    let block = parse_block("trait K { #[a] type X<U>: Clone = Vec<U> where U: Copy; }").unwrap();
    assert_eq!(
        block.members,
        vec![Member {
            kind: MemberKind::Type,
            attrs: tokens("#[a]"),
            signature: tokens("type X<U> "),
            bounds: tokens("Clone"),
            default: Some(tokens("Vec<U> ")),
            trailer: tokens("where U: Copy"),
            line: 1,
            column: 10,
        }]
    );
}

#[test]
fn parsed_constant_is_taken_apart() {
    let block = parse_block("trait K { const N: usize = 1 + 2; const M: u8; }").unwrap();
    assert_eq!(
        block.members,
        vec![
            at(member(MemberKind::Constant, "", "const N: usize", Some("1 + 2")), 1, 10),
            at(member(MemberKind::Constant, "", "const M: u8", None), 1, 34),
        ]
    );
}

#[test]
fn parsed_macro_is_kept_whole() {
    let block = parse_block("trait K { #[a] make!(x); }").unwrap();
    assert_eq!(
        block.members,
        vec![at(member(MemberKind::Verbatim, "", "#[a] make!(x);", None), 1, 10)]
    );
}

#[test]
fn parsed_block_keeps_attributes_and_frame_apart() {
    let block = parse_block("#[a] pub trait K<T>: B where T: C { #![b] }").unwrap();
    assert_eq!(
        block,
        TraitBlock {
            attrs: tokens("#[a] # ![b]"),
            shell: tokens("pub trait K<T> "),
            supertraits: tokens("B"),
            where_clause: tokens("where T: C"),
            members: vec![],
        }
    );
}

#[test]
fn member_order_is_kept() {
    let block =
        parse_block("trait K { type A = u8; fn b() {} const C: u8 = 0; fn d() {} }").unwrap();
    let kinds: Vec<MemberKind> = block.members.iter().map(|m| m.kind).collect();
    assert_eq!(
        kinds,
        vec![
            MemberKind::Type,
            MemberKind::Behavior,
            MemberKind::Constant,
            MemberKind::Behavior
        ]
    );
}

#[test]
fn default_must_not_be_empty() {
    assert!(member(MemberKind::Behavior, "", "fn f()", Some("{}")).has_default());
    assert!(!member(MemberKind::Behavior, "", "fn f()", None).has_default());
    assert!(!member(MemberKind::Type, "", "type X", Some("")).has_default());
    assert!(member(MemberKind::Type, "", "type X", Some("u8")).has_default());
}

#[test]
fn only_interpreted_members_can_lack_a_default() {
    assert!(member(MemberKind::Behavior, "", "fn f()", None).lacks_default());
    assert!(member(MemberKind::Type, "", "type X", None).lacks_default());
    assert!(member(MemberKind::Constant, "", "const C: u8", Some("")).lacks_default());
    assert!(!member(MemberKind::Constant, "", "const C: u8", Some("1")).lacks_default());
    assert!(!member(MemberKind::Verbatim, "", "m!();", None).lacks_default());
}

#[test]
fn declared_half_has_no_default() {
    let whole = associated_type();
    let half = whole.declared();
    assert_eq!(half.default, None);
    assert_eq!(half.attrs, whole.attrs);
    assert_eq!(half.signature, whole.signature);
    assert_eq!(half.bounds, whole.bounds);
    assert_eq!(half.trailer, whole.trailer);
    assert_eq!(half.kind, whole.kind);
    assert_eq!((half.line, half.column), (whole.line, whole.column));
}

#[test]
fn bound_half_has_no_bounds() {
    let whole = associated_type();
    let half = whole.bound();
    assert_eq!(half.bounds, vec![]);
    assert_eq!(half.default, whole.default);
    assert_eq!(half.attrs, whole.attrs);
    assert_eq!(half.signature, whole.signature);
    assert_eq!(half.trailer, whole.trailer);
    assert_eq!(half.kind, whole.kind);
    assert_eq!((half.line, half.column), (whole.line, whole.column));
}

#[test]
fn halves_rejoin_to_the_member() {
    for whole in [
        at(associated_type(), 3, 4),
        member(MemberKind::Behavior, "#[a] #[b]", "fn f<T>(&self, t: T) -> u8", Some("{ 1 }")),
        member(MemberKind::Constant, "", "const N: u8", Some("1")),
    ] {
        assert_eq!(whole.declared().rejoin(&whole.bound()), whole);
    }
}

#[test]
fn clone_is_deep() {
    let whole = associated_type();
    assert_eq!(whole.clone(), whole);
}

#[test]
fn function_is_written_with_body_or_semicolon() {
    let whole = member(MemberKind::Behavior, "#[a]", "fn f()", Some("{ 1 }"));
    assert_eq!(written(&whole), tokens("#[a] fn f() { 1 }"));
    assert_eq!(written(&whole.declared()), tokens("#[a] fn f();"));
    assert_eq!(written(&whole.bound()), tokens("#[a] fn f() { 1 }"));
}

#[test]
fn type_is_written_with_equals_sign_and_semicolon() {
    let whole = associated_type();
    assert_eq!(written(&whole), tokens("#[a] type X<U> : Clone = Vec<U> where U: Copy;"));
    assert_eq!(written(&whole.declared()), tokens("#[a] type X<U> : Clone where U: Copy;"));
    assert_eq!(written(&whole.bound()), tokens("#[a] type X<U> = Vec<U> where U: Copy;"));
}

#[test]
fn constant_is_written_with_equals_sign_and_semicolon() {
    let whole = member(MemberKind::Constant, "", "const N: u8", Some("1 + 2"));
    assert_eq!(written(&whole.declared()), tokens("const N: u8;"));
    assert_eq!(written(&whole.bound()), tokens("const N: u8 = 1 + 2;"));
}

#[test]
fn uninterpreted_member_is_written_as_it_is() {
    let whole = member(MemberKind::Verbatim, "", "make! { x }", None);
    assert_eq!(written(&whole), tokens("make! { x }"));
    assert_eq!(written(&whole.declared()), tokens("make! { x }"));
}

#[test]
fn writing_a_member_appends_to_what_is_there() {
    let mut out = tokens("x");
    member(MemberKind::Constant, "", "const N: u8", Some("1")).write_tokens(&mut out);
    assert_eq!(out, tokens("x const N: u8 = 1;"));
}

#[test]
fn inner_attributes_of_a_member_are_not_written() {
    let whole = member(MemberKind::Behavior, "#[a] # ![b] #[c]", "fn f()", Some("{}"));
    assert_eq!(written(&whole), tokens("#[a] #[c] fn f() {}"));
}

#[test]
fn outer_and_inner_attributes_are_told_apart() {
    let text = "#[a] # ![b] #[c] # ![d(e)]";
    assert_eq!(attributes(text, false), tokens("#[a] #[c]"));
    assert_eq!(attributes(text, true), tokens("# ![b] # ![d(e)]"));
    assert_eq!(attributes("", false), vec![]);
    assert_eq!(attributes("", true), vec![]);
}

#[test]
fn glued_inner_attribute_is_recognised() {
    assert_eq!(attributes("#![b] #[c]", false), tokens("#[c]"));
    assert_eq!(attributes("#![b] #[c]", true), tokens("#![b]"));
}

#[test]
fn tokens_that_form_no_inner_attribute_count_as_outer() {
    assert_eq!(attributes("# ! (b) # !", false), tokens("# ! (b) # !"));
    assert_eq!(attributes("# ! (b) # !", true), vec![]);
}

#[test]
fn attributes_are_appended_to_what_is_there() {
    let mut out = tokens("x");
    append_attributes(&mut out, &tokens("#[a] # ![b]"), true);
    assert_eq!(out, tokens("x # ![b]"));
}

#[test]
fn split_gives_both_halves_of_every_member() {
    let members = vec![
        associated_type(),
        member(MemberKind::Verbatim, "", "m!();", None),
        member(MemberKind::Behavior, "", "fn f()", Some("{}")),
    ];
    let (declared, bound) = split_members(&members).unwrap();
    assert_eq!(declared, vec![members[0].declared(), members[2].declared()]);
    assert_eq!(bound, vec![members[0].bound(), members[2].bound()]);
}

#[test]
fn split_skips_uninterpreted_members() {
    let members = vec![
        member(MemberKind::Verbatim, "", "m!();", None),
        member(MemberKind::Verbatim, "", "pub fn f();", None),
    ];
    assert_eq!(split_members(&members), Ok((vec![], vec![])));
}

#[test]
fn type_without_bounds_is_written_without_colon() {
    let whole = member(MemberKind::Type, "", "type X", Some("u8"));
    assert_eq!(written(&whole.declared()), tokens("type X;"));
    assert_eq!(written(&whole), tokens("type X = u8;"));
}

#[test]
fn split_of_no_members_is_empty() {
    assert_eq!(split_members(&vec![]), Ok((vec![], vec![])));
}

#[test]
fn split_fails_at_the_first_member_without_default() {
    let members = vec![
        member(MemberKind::Behavior, "", "fn f()", Some("{}")),
        member(MemberKind::Verbatim, "", "m!();", None),
        at(member(MemberKind::Type, "", "type X", None), 7, 8),
        member(MemberKind::Behavior, "", "fn g()", None),
    ];
    assert_eq!(
        split_members(&members),
        Err(ExpandError::MissingDefault { index: 2, kind: MemberKind::Type, line: 7, column: 8 })
    );
}

#[test]
fn split_treats_an_empty_default_as_missing() {
    let members = vec![member(MemberKind::Constant, "", "const N: u8", Some(""))];
    assert_eq!(
        split_members(&members),
        Err(ExpandError::MissingDefault {
            index: 0,
            kind: MemberKind::Constant,
            line: 0,
            column: 0,
        })
    );
}

#[test]
fn members_are_written_one_after_the_other() {
    let members = vec![
        member(MemberKind::Constant, "", "const N: u8", Some("1")),
        member(MemberKind::Verbatim, "", "m!();", None),
        member(MemberKind::Behavior, "", "fn f()", None),
    ];
    assert_eq!(write_members(&members), tokens("const N: u8 = 1; m!(); fn f();"));
    assert_eq!(write_members(&vec![]), vec![]);
}

#[test]
fn emitter_wraps_both_sides_in_braces() {
    let out = emit(tokens("a b"), tokens("c"), tokens("d e"), tokens("f"));
    assert_eq!(out, tokens("a b { c } d e { f }"));
    assert_eq!(emit(vec![], vec![], vec![], vec![]), tokens("{} {}"));
}

#[test]
fn expansion_of_hand_built_values() {
    let header = parse_header("impl<T> K for T").unwrap();
    let block = TraitBlock {
        attrs: tokens("#[a] # ![b]"),
        shell: tokens("trait K"),
        supertraits: tokens("B + C"),
        where_clause: vec![],
        members: vec![associated_type(), member(MemberKind::Verbatim, "", "m!();", None)],
    };
    assert_eq!(
        expand(&header, &block),
        Ok(tokens(
            "#[a] trait K: B + C { # ![b] #[a] type X<U> : Clone where U: Copy; } \
             impl<T> K for T { #[a] type X<U> = Vec<U> where U: Copy; }"
        ))
    );
}

#[test]
fn expansion_fails_without_output_when_a_default_is_missing() {
    let header = parse_header("impl<T> K for T").unwrap();
    let block = parse_block("trait K { fn f() {} fn g(); }").unwrap();
    assert_eq!(
        expand(&header, &block),
        Err(ExpandError::MissingDefault {
            index: 1,
            kind: MemberKind::Behavior,
            line: 1,
            column: 20,
        })
    );
}
