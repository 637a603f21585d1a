//! The boundary to the lexer and parser: text becomes token trees, a trait
//! definition becomes a [`TraitBlock`], a binding directive becomes a
//! [`BindingHeader`]. What the lexer and parser return is named here and
//! not restated; everything built on top of it is stated over these names.

use vstd::prelude::*;
use proc_macro2::{Spacing, TokenStream, TokenTree};
use quote::ToTokens;
use syn::parse::ParseBuffer;
use syn::TraitItem;
use crate::block::{member_models, BlockModel, TraitBlock};
use crate::error::{Failure, SyntaxError};
use crate::header::{assembled, BindingHeader, HeaderModel};
use crate::member::{Member, MemberKind};
use crate::token::{trees, Delimiter, Token, Tree};

verus! {

/// A sequence of token trees of the lexer.
#[verifier::external_type_specification]
#[verifier::external_body]
pub struct ExTokenStream(proc_macro2::TokenStream);

/// A lexing or parsing error.
#[verifier::external_type_specification]
#[verifier::external_body]
pub struct ExSyntaxError(syn::Error);

/// A parsed trait definition.
#[verifier::external_type_specification]
#[verifier::external_body]
pub struct ExItemTrait(syn::ItemTrait);

/// A running parse: the parser's cursor over the tokens of a text. It is
/// made only where a text is parsed, and every read moves it forward.
#[verifier::external_body]
pub struct Reader<'a> {
    input: &'a ParseBuffer<'a>,
}

/// The token trees that a stream holds, in order.
pub uninterp spec fn stream_trees(stream: TokenStream) -> Seq<Tree>;

/// The message of an error and the line and column of the token it points at.
pub uninterp spec fn failure_of(error: syn::Error) -> Failure;

/// What lexing a text gives: its token trees, or why it is not a token stream.
pub uninterp spec fn lexed(source: Seq<char>) -> Result<Seq<Tree>, Failure>;

/// What parsing a text as a trait definition gives. It is named for the
/// text and not for its token trees, because the place of an error lies in
/// the text.
pub uninterp spec fn parsed_trait(source: Seq<char>) -> Result<BlockModel, Failure>;

/// The attributes, the parts in front of the brace and the members of a
/// parsed trait definition.
pub uninterp spec fn trait_model(item: syn::ItemTrait) -> BlockModel;

/// The tokens that a reader has not read yet, in order.
pub uninterp spec fn unread(reader: Reader) -> Seq<Tree>;

/// What reading outer attributes off the front of tokens gives: their
/// tokens and the tokens left over.
pub uninterp spec fn attributes_prefix(tokens: Seq<Tree>) -> Option<(Seq<Tree>, Seq<Tree>)>;

/// What reading generic parameters off the front of tokens gives: `<...>`
/// or nothing, and the tokens left over.
pub uninterp spec fn generics_prefix(tokens: Seq<Tree>) -> Option<(Seq<Tree>, Seq<Tree>)>;

/// What reading a path off the front of tokens gives: the path and the
/// tokens left over.
pub uninterp spec fn path_prefix(tokens: Seq<Tree>) -> Option<(Seq<Tree>, Seq<Tree>)>;

/// What reading a type off the front of tokens gives: the type and the
/// tokens left over.
pub uninterp spec fn type_prefix(tokens: Seq<Tree>) -> Option<(Seq<Tree>, Seq<Tree>)>;

/// What reading a where clause off the front of tokens gives: the clause
/// or nothing, and the tokens left over.
pub uninterp spec fn where_prefix(tokens: Seq<Tree>) -> Option<(Seq<Tree>, Seq<Tree>)>;

/// The error with which parsing a text as a binding directive ends, if it
/// ends with one.
pub uninterp spec fn directive_failure(source: Seq<char>) -> Option<Failure>;

/// `<TokenStream as FromStr>::from_str`: lexes a text. The result depends on
/// the text alone; a lexing error is carried as a `syn::Error`.
#[verifier::external_body]
fn lex_stream(source: &str) -> (result: Result<TokenStream, syn::Error>)
    ensures
        match result {
            Ok(stream) => lexed(source@) == Ok::<Seq<Tree>, Failure>(stream_trees(stream)),
            Err(error) => lexed(source@) == Err::<Seq<Tree>, Failure>(failure_of(error)),
        },
{
    source.parse::<TokenStream>().map_err(syn::Error::from)
}

/// `TokenStream::into_iter` with the accessors of each token tree: copies a
/// stream into tokens, one for one, groups with their contents.
#[verifier::external_body]
fn tokens_of(stream: TokenStream) -> (tokens: Vec<Token>)
    ensures
        trees(tokens@) == stream_trees(stream),
{
    stream.into_iter().map(|tree| match tree {
        TokenTree::Group(g) => Token::Group(match g.delimiter() {
            proc_macro2::Delimiter::Parenthesis => Delimiter::Paren,
            proc_macro2::Delimiter::Brace => Delimiter::Brace,
            proc_macro2::Delimiter::Bracket => Delimiter::Bracket,
            proc_macro2::Delimiter::None => Delimiter::Invisible,
        }, tokens_of(g.stream())),
        TokenTree::Ident(i) => Token::Ident(i.to_string()),
        TokenTree::Punct(p) => Token::Punct(p.as_char(), p.spacing() == Spacing::Joint),
        TokenTree::Literal(l) => Token::Literal(l.to_string()),
    }).collect()
}

/// `syn::Error::to_string` and `syn::Error::span`: the message of the error
/// and where its span starts. The place is right on the thread that made
/// the error, which is where every caller here is.
#[verifier::external_body]
fn describe(error: &syn::Error) -> (report: SyntaxError)
    ensures
        report@ == failure_of(*error),
{
    let start = error.span().start();
    SyntaxError { message: error.to_string(), line: start.line, column: start.column }
}

/// `syn::parse_str::<syn::ItemTrait>`: lexes a text and parses all of it
/// as one trait definition. The result depends on the text alone.
#[verifier::external_body]
fn parse_trait(source: &str) -> (result: Result<syn::ItemTrait, syn::Error>)
    ensures
        match result {
            Ok(item) => parsed_trait(source@) == Ok::<BlockModel, Failure>(trait_model(item)),
            Err(error) => parsed_trait(source@) == Err::<BlockModel, Failure>(
                failure_of(error),
            ),
        },
{
    syn::parse_str::<syn::ItemTrait>(source)
}

/// `Attribute::to_tokens` on each attribute of the trait, outer and inner,
/// in source order.
#[verifier::external_body]
fn trait_attrs(item: &syn::ItemTrait) -> (tokens: Vec<Token>)
    ensures
        trees(tokens@) == trait_model(*item).attrs,
{
    tokens_of(item.attrs.iter().map(ToTokens::to_token_stream).collect())
}

/// `to_tokens` on the fields of the trait that `ItemTrait::to_tokens`
/// prints between the attributes and the supertraits: visibility, `unsafe`,
/// `auto`, `trait`, name and generic parameters, in this order.
#[verifier::external_body]
fn trait_shell(item: &syn::ItemTrait) -> (tokens: Vec<Token>)
    ensures
        trees(tokens@) == trait_model(*item).shell,
{
    tokens_of([item.vis.to_token_stream(), item.unsafety.to_token_stream(), item.auto_token.to_token_stream(), item.trait_token.to_token_stream(), item.ident.to_token_stream(), item.generics.to_token_stream()].into_iter().collect())
}

/// `Punctuated::to_tokens` on the supertraits of the trait: the bounds and
/// the `+` between them, without the `:` in front.
#[verifier::external_body]
fn trait_supertraits(item: &syn::ItemTrait) -> (tokens: Vec<Token>)
    ensures
        trees(tokens@) == trait_model(*item).supertraits,
{
    tokens_of(item.supertraits.to_token_stream())
}

/// `Option<WhereClause>::to_tokens` on the where clause of the trait.
#[verifier::external_body]
fn trait_where_clause(item: &syn::ItemTrait) -> (tokens: Vec<Token>)
    ensures
        trees(tokens@) == trait_model(*item).where_clause,
{
    tokens_of(item.generics.where_clause.to_token_stream())
}

/// `Vec::len` of the items of the trait.
#[verifier::external_body]
fn member_count(item: &syn::ItemTrait) -> (count: usize)
    ensures
        count == trait_model(*item).members.len(),
{
    item.items.len()
}

/// The item at `index` if it is a function (`TraitItem::Fn`): its
/// attributes, its signature, and as default the brace group that
/// `TraitItemFn::to_tokens` prints last when there is a body. The place is
/// handed through.
#[verifier::external_body]
fn behavior_at(item: &syn::ItemTrait, index: usize, line: usize, column: usize) -> (member: Option<
    Member,
>)
    requires
        index < trait_model(*item).members.len(),
        line == trait_model(*item).members[index as int].line,
        column == trait_model(*item).members[index as int].column,
    ensures
        member is Some <==> trait_model(*item).members[index as int].kind == MemberKind::Behavior,
        member matches Some(m) ==> m@ == trait_model(*item).members[index as int],
{
    match &item.items[index] {
        TraitItem::Fn(f) => Some(Member {
            kind: MemberKind::Behavior,
            attrs: tokens_of(f.attrs.iter().map(ToTokens::to_token_stream).collect()),
            signature: tokens_of(f.sig.to_token_stream()),
            bounds: Vec::new(),
            default: f.default.as_ref().and(f.to_token_stream().into_iter().last()).map(|body| tokens_of(body.into())),
            trailer: Vec::new(),
            line,
            column,
        }),
        _ => None,
    }
}

/// The item at `index` if it is an associated type (`TraitItem::Type`), in
/// the parts that `TraitItemType::to_tokens` prints: `type`, name and
/// generics; the bounds; the type after `=`; the where clause. The place
/// is handed through.
#[verifier::external_body]
fn type_at(item: &syn::ItemTrait, index: usize, line: usize, column: usize) -> (member: Option<
    Member,
>)
    requires
        index < trait_model(*item).members.len(),
        line == trait_model(*item).members[index as int].line,
        column == trait_model(*item).members[index as int].column,
    ensures
        member is Some <==> trait_model(*item).members[index as int].kind == MemberKind::Type,
        member matches Some(m) ==> m@ == trait_model(*item).members[index as int],
{
    match &item.items[index] {
        TraitItem::Type(t) => Some(Member {
            kind: MemberKind::Type,
            attrs: tokens_of(t.attrs.iter().map(ToTokens::to_token_stream).collect()),
            signature: tokens_of([t.type_token.to_token_stream(), t.ident.to_token_stream(), t.generics.to_token_stream()].into_iter().collect()),
            bounds: tokens_of(t.bounds.to_token_stream()),
            default: t.default.as_ref().map(|(_, ty)| tokens_of(ty.to_token_stream())),
            trailer: tokens_of(t.generics.where_clause.to_token_stream()),
            line,
            column,
        }),
        _ => None,
    }
}

/// The item at `index` if it is an associated constant
/// (`TraitItem::Const`), in the parts that `TraitItemConst::to_tokens`
/// prints: `const`, name, `:` and type; the expression after `=`. The
/// place is handed through.
#[verifier::external_body]
fn constant_at(item: &syn::ItemTrait, index: usize, line: usize, column: usize) -> (member: Option<
    Member,
>)
    requires
        index < trait_model(*item).members.len(),
        line == trait_model(*item).members[index as int].line,
        column == trait_model(*item).members[index as int].column,
    ensures
        member is Some <==> trait_model(*item).members[index as int].kind == MemberKind::Constant,
        member matches Some(m) ==> m@ == trait_model(*item).members[index as int],
{
    match &item.items[index] {
        TraitItem::Const(c) => Some(Member {
            kind: MemberKind::Constant,
            attrs: tokens_of(c.attrs.iter().map(ToTokens::to_token_stream).collect()),
            signature: tokens_of([c.const_token.to_token_stream(), c.ident.to_token_stream(), c.colon_token.to_token_stream(), c.ty.to_token_stream()].into_iter().collect()),
            bounds: Vec::new(),
            default: c.default.as_ref().map(|(_, value)| tokens_of(value.to_token_stream())),
            trailer: Vec::new(),
            line,
            column,
        }),
        _ => None,
    }
}

/// `TraitItem::to_tokens` on the item at `index`: all its tokens as one
/// uninterpreted member. This is what a macro invocation or a verbatim
/// item is. The place is handed through.
#[verifier::external_body]
fn verbatim_at(item: &syn::ItemTrait, index: usize, line: usize, column: usize) -> (member: Member)
    requires
        index < trait_model(*item).members.len(),
        line == trait_model(*item).members[index as int].line,
        column == trait_model(*item).members[index as int].column,
    ensures
        trait_model(*item).members[index as int].kind == MemberKind::Verbatim ==> member@
            == trait_model(*item).members[index as int],
{
    Member {
        kind: MemberKind::Verbatim,
        attrs: Vec::new(),
        signature: tokens_of(item.items[index].to_token_stream()),
        bounds: Vec::new(),
        default: None,
        trailer: Vec::new(),
        line,
        column,
    }
}

/// `Spanned::span` and `Span::start` on the item at `index`: the line and
/// column of its first token in the text.
#[verifier::external_body]
fn member_start(item: &syn::ItemTrait, index: usize) -> (start: (usize, usize))
    requires
        index < trait_model(*item).members.len(),
    ensures
        start.0 == trait_model(*item).members[index as int].line,
        start.1 == trait_model(*item).members[index as int].column,
{
    let start = syn::spanned::Spanned::span(&item.items[index]).start();
    (start.line, start.column)
}

/// `Attribute::parse_outer`: reads the outer attributes in front of what
/// is unread. Which tokens these are depends on the unread tokens alone.
#[verifier::external_body]
fn read_attributes(reader: &mut Reader) -> (result: Result<Vec<Token>, syn::Error>)
    ensures
        match result {
            Ok(attrs) => attributes_prefix(unread(*old(reader))) == Some(
                (trees(attrs@), unread(*final(reader))),
            ),
            Err(_) => attributes_prefix(unread(*old(reader))) is None,
        },
{
    reader.input.call(syn::Attribute::parse_outer).map(|attrs| tokens_of(attrs.iter().map(ToTokens::to_token_stream).collect()))
}

/// `ParseBuffer::parse::<Option<Token![unsafe]>>`: reads the next token if
/// it is the word `unsafe`, and nothing otherwise. It cannot fail.
#[verifier::external_body]
fn read_unsafety(reader: &mut Reader) -> (result: Result<bool, syn::Error>)
    ensures
        result is Ok,
        result matches Ok(found) ==> found == starts_with_word(unread(*old(reader)), "unsafe"@),
        unread(*final(reader)) == rest_after_word(unread(*old(reader)), "unsafe"@),
{
    reader.input.parse::<Option<syn::token::Unsafe>>().map(|found| found.is_some())
}

/// `ParseBuffer::parse::<Token![impl]>`: reads the next token if it is the
/// word `impl`, and fails otherwise.
#[verifier::external_body]
fn read_impl(reader: &mut Reader) -> (result: Result<(), syn::Error>)
    ensures
        result is Ok <==> starts_with_word(unread(*old(reader)), "impl"@),
        result is Ok ==> unread(*final(reader)) == unread(*old(reader)).skip(1),
{
    reader.input.parse::<syn::token::Impl>().map(|_| ())
}

/// `ParseBuffer::parse::<syn::Generics>`: reads `<...>` if `<` is next. It
/// never reads a where clause. Which tokens it reads depends on the unread
/// tokens alone.
#[verifier::external_body]
fn read_generics(reader: &mut Reader) -> (result: Result<Vec<Token>, syn::Error>)
    ensures
        match result {
            Ok(params) => generics_prefix(unread(*old(reader))) == Some(
                (trees(params@), unread(*final(reader))),
            ),
            Err(_) => generics_prefix(unread(*old(reader))) is None,
        },
{
    reader.input.parse::<syn::Generics>().map(|generics| tokens_of(generics.to_token_stream()))
}

/// `ParseBuffer::parse::<syn::Path>`: reads a path or fails. Which tokens
/// it reads depends on the unread tokens alone.
#[verifier::external_body]
fn read_path(reader: &mut Reader) -> (result: Result<Vec<Token>, syn::Error>)
    ensures
        match result {
            Ok(path) => path_prefix(unread(*old(reader))) == Some(
                (trees(path@), unread(*final(reader))),
            ),
            Err(_) => path_prefix(unread(*old(reader))) is None,
        },
{
    reader.input.parse::<syn::Path>().map(|path| tokens_of(path.to_token_stream()))
}

/// `ParseBuffer::parse::<Token![for]>`: reads the next token if it is the
/// word `for`, and fails otherwise.
#[verifier::external_body]
fn read_for(reader: &mut Reader) -> (result: Result<(), syn::Error>)
    ensures
        result is Ok <==> starts_with_word(unread(*old(reader)), "for"@),
        result is Ok ==> unread(*final(reader)) == unread(*old(reader)).skip(1),
{
    reader.input.parse::<syn::token::For>().map(|_| ())
}

/// `ParseBuffer::parse::<syn::Type>`: reads a type or fails. Which tokens
/// it reads depends on the unread tokens alone.
#[verifier::external_body]
fn read_type(reader: &mut Reader) -> (result: Result<Vec<Token>, syn::Error>)
    ensures
        match result {
            Ok(ty) => type_prefix(unread(*old(reader))) == Some(
                (trees(ty@), unread(*final(reader))),
            ),
            Err(_) => type_prefix(unread(*old(reader))) is None,
        },
{
    reader.input.parse::<syn::Type>().map(|ty| tokens_of(ty.to_token_stream()))
}

/// `ParseBuffer::parse::<Option<syn::WhereClause>>`: reads a where clause
/// if `where` is next. Which tokens it reads depends on the unread tokens
/// alone.
#[verifier::external_body]
fn read_where_clause(reader: &mut Reader) -> (result: Result<Vec<Token>, syn::Error>)
    ensures
        match result {
            Ok(clause) => where_prefix(unread(*old(reader))) == Some(
                (trees(clause@), unread(*final(reader))),
            ),
            Err(_) => where_prefix(unread(*old(reader))) is None,
        },
{
    reader.input.parse::<Option<syn::WhereClause>>().map(|clause| tokens_of(clause.to_token_stream()))
}

/// `ParseBuffer::error`: an error with `message` at the cursor.
#[verifier::external_body]
fn refuse(reader: &Reader, message: &str) -> (error: syn::Error) {
    reader.input.error(message)
}

/// Whether `tokens` starts with the identifier or keyword spelled `word`.
pub open spec fn starts_with_word(tokens: Seq<Tree>, word: Seq<char>) -> bool {
    tokens.len() > 0 && tokens[0].is_word(word)
}

/// `tokens` without its first token if that is `word`, else all of it.
pub open spec fn rest_after_word(tokens: Seq<Tree>, word: Seq<char>) -> Seq<Tree> {
    if starts_with_word(tokens, word) {
        tokens.skip(1)
    } else {
        tokens
    }
}

/// What reading a binding directive off the front of `tokens` gives: the
/// header and the tokens left over, or nothing if they do not start with
///
/// `[attributes] [unsafe] impl [generics] path for type [where-clause]`.
///
/// The parts are read in this order, each from what the one before left.
/// The generics stop before the path; the where clause comes last and goes
/// to the generics. A header that is not complete counts as none.
pub open spec fn header_read(tokens: Seq<Tree>) -> Option<(HeaderModel, Seq<Tree>)> {
    match attributes_prefix(tokens) {
        None => None,
        Some((attrs, after_attrs)) => {
            let unsafety = starts_with_word(after_attrs, "unsafe"@);
            let after_unsafe = rest_after_word(after_attrs, "unsafe"@);
            if !starts_with_word(after_unsafe, "impl"@) {
                None
            } else {
                match generics_prefix(after_unsafe.skip(1)) {
                    None => None,
                    Some((params, after_params)) => match path_prefix(after_params) {
                        None => None,
                        Some((path, after_path)) => if !starts_with_word(after_path, "for"@) {
                            None
                        } else {
                            match type_prefix(after_path.skip(1)) {
                                None => None,
                                Some((self_ty, after_type)) => match where_prefix(after_type) {
                                    None => None,
                                    Some((clause, rest)) => {
                                        let header = assembled(
                                            attrs,
                                            unsafety,
                                            params,
                                            path,
                                            self_ty,
                                            clause,
                                        );
                                        if header.is_complete() {
                                            Some((header, rest))
                                        } else {
                                            None
                                        }
                                    },
                                },
                            }
                        },
                    },
                }
            }
        },
    }
}

/// Reads a binding directive off the front of what is unread:
/// `[attributes] [unsafe] impl [generics] path for type [where-clause]`.
/// The first part that cannot be read ends the reading with its error, and
/// so does a header that is not complete.
fn read_header(reader: &mut Reader) -> (result: Result<BindingHeader, syn::Error>)
    ensures
        match result {
            Ok(header) => header_read(unread(*old(reader))) == Some(
                (header@, unread(*final(reader))),
            ) && header@.is_complete(),
            Err(_) => header_read(unread(*old(reader))) is None,
        },
{
    let attrs = read_attributes(reader)?;
    let unsafety = read_unsafety(reader)?;
    read_impl(reader)?;
    let params = read_generics(reader)?;
    let path = read_path(reader)?;
    read_for(reader)?;
    let self_ty = read_type(reader)?;
    let where_clause = read_where_clause(reader)?;
    match BindingHeader::complete(attrs, unsafety, params, path, self_ty, where_clause) {
        Some(header) => Ok(header),
        None => Err(refuse(reader, "expected a trait path and a type")),
    }
}

/// `syn::parse::Parser::parse_str` with [`read_header`] as the parser: lexes
/// a text, runs the parser on all of its tokens and fails if it fails or
/// leaves tokens unread. A header is only ever the one that [`read_header`]
/// returned. The error, if there is one, depends on the text alone.
#[verifier::external_body]
fn run_header(source: &str) -> (result: Result<BindingHeader, syn::Error>)
    ensures
        match result {
            Ok(header) => {
                &&& directive_failure(source@) is None
                &&& lexed(source@) matches Ok(tokens)
                &&& header_read(tokens) == Some((header@, Seq::<Tree>::empty()))
            },
            Err(error) => directive_failure(source@) == Some(failure_of(error)),
        },
{
    syn::parse::Parser::parse_str(|input: syn::parse::ParseStream| read_header(&mut Reader { input }), source)
}

/// What parsing a text as a binding directive gives: the header, if the
/// text lexes, the grammar of [`header_read`] takes all of its tokens and
/// the parser raises no error; the parser's error otherwise.
pub open spec fn read_directive(source: Seq<char>) -> Result<HeaderModel, Failure> {
    match lexed(source) {
        Ok(tokens) => match header_read(tokens) {
            Some((header, rest)) => if rest.len() == 0 && directive_failure(source) is None {
                Ok(header)
            } else {
                Err(directive_failure(source)->Some_0)
            },
            None => Err(directive_failure(source)->Some_0),
        },
        Err(_) => Err(directive_failure(source)->Some_0),
    }
}

/// Lexes a text into tokens.
pub fn lex(source: &str) -> (result: Result<Vec<Token>, SyntaxError>)
    ensures
        match result {
            Ok(tokens) => lexed(source@) == Ok::<Seq<Tree>, Failure>(trees(tokens@)),
            Err(error) => lexed(source@) == Err::<Seq<Tree>, Failure>(error@),
        },
{
    match lex_stream(source) {
        Ok(stream) => Ok(tokens_of(stream)),
        Err(error) => Err(describe(&error)),
    }
}

/// The member at `index` of a parsed trait, in whichever kind it is.
fn member_at(item: &syn::ItemTrait, index: usize) -> (member: Member)
    requires
        index < trait_model(*item).members.len(),
    ensures
        member@ == trait_model(*item).members[index as int],
{
    let (line, column) = member_start(item, index);
    if let Some(member) = behavior_at(item, index, line, column) {
        return member;
    }
    if let Some(member) = type_at(item, index, line, column) {
        return member;
    }
    if let Some(member) = constant_at(item, index, line, column) {
        return member;
    }
    verbatim_at(item, index, line, column)
}

/// A parsed trait as a [`TraitBlock`].
fn block_of(item: &syn::ItemTrait) -> (block: TraitBlock)
    ensures
        block@ == trait_model(*item),
{
    let attrs = trait_attrs(item);
    let shell = trait_shell(item);
    let supertraits = trait_supertraits(item);
    let where_clause = trait_where_clause(item);
    let count = member_count(item);
    let mut members: Vec<Member> = Vec::new();
    let mut i: usize = 0;
    while i < count
        invariant
            i <= count,
            count == trait_model(*item).members.len(),
            members.len() == i,
            forall|k: int| 0 <= k < i ==> members@[k]@ == trait_model(*item).members[k],
        decreases count - i,
    {
        let member = member_at(item, i);
        members.push(member);
        i += 1;
    }
    assert(member_models(members@) =~= trait_model(*item).members);
    TraitBlock { attrs, shell, supertraits, where_clause, members }
}

/// Parses a text as a trait definition.
pub fn parse_block(source: &str) -> (result: Result<TraitBlock, SyntaxError>)
    ensures
        match result {
            Ok(block) => parsed_trait(source@) == Ok::<BlockModel, Failure>(block@),
            Err(error) => parsed_trait(source@) == Err::<BlockModel, Failure>(error@),
        },
{
    match parse_trait(source) {
        Ok(item) => Ok(block_of(&item)),
        Err(error) => Err(describe(&error)),
    }
}

/// Parses a text as a binding directive
/// `[attributes] [unsafe] impl [generics] path for type [where-clause]`.
/// A header that comes back names a trait path and a carrier type.
pub fn parse_header(source: &str) -> (result: Result<BindingHeader, SyntaxError>)
    ensures
        match result {
            Ok(header) => read_directive(source@) == Ok::<HeaderModel, Failure>(header@)
                && header@.is_complete(),
            Err(error) => read_directive(source@) == Err::<HeaderModel, Failure>(error@),
        },
{
    match run_header(source) {
        Ok(header) => Ok(header),
        Err(error) => Err(describe(&error)),
    }
}

} // verus!
