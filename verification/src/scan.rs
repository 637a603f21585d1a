//! The scanning splitter: one left-to-right pass over the tokens of a member
//! block that routes each token to the declaration, to the binding, or to
//! both, without building a syntax tree.
//!
//! The pass never looks inside a group and does not check that a member has a
//! default: a member without `=` and without a body reaches both outputs
//! unchanged (see [`lemma_defaultless_passes_through`]).

use vstd::prelude::*;
use crate::token::{Delimiter, Token, Tree, trees, punct_tree, lemma_trees_push};

verus! {

/// The state of the scan between two tokens.
#[derive(Clone, Copy, Debug, PartialEq, Eq, Structural)]
pub enum ScanState {
    /// Reading attributes or a signature.
    Signature,
    /// Reading the value that follows a `=`.
    DefaultValue,
}

/// The class of a token, in priority order: an earlier class wins.
#[derive(Clone, Copy, Debug, PartialEq, Eq, Structural)]
pub enum TokenClass {
    /// A brace group: the body of a behavior member.
    Body,
    /// The punctuation `=`, which starts a default value.
    Assign,
    /// The punctuation `;` or one of the keywords that start a member.
    Boundary,
    /// Anything else.
    Other,
}

/// What one output receives for one input token.
#[derive(Clone, Copy, Debug, PartialEq, Eq, Structural)]
pub enum Emission {
    /// The token itself.
    Copy,
    /// A bare `;` in place of the token.
    Terminator,
    /// Nothing.
    Nothing,
}

/// Where one token goes and the state that follows it.
#[derive(Clone, Copy, Debug, PartialEq, Eq, Structural)]
pub struct Route {
    pub declaration: Emission,
    pub binding: Emission,
    pub next: ScanState,
}

/// Whether `token` is one of the keywords `fn`, `type`, `const`.
pub open spec fn is_member_keyword(token: Tree) -> bool {
    token.is_word("fn"@) || token.is_word("type"@) || token.is_word("const"@)
}

/// The class of a token.
pub open spec fn class_of(token: Tree) -> TokenClass {
    if token.is_group(Delimiter::Brace) {
        TokenClass::Body
    } else if token.is_punct('=') {
        TokenClass::Assign
    } else if token.is_punct(';') || is_member_keyword(token) {
        TokenClass::Boundary
    } else {
        TokenClass::Other
    }
}

/// The transition table of the scan.
pub open spec fn route_of(state: ScanState, class: TokenClass) -> Route {
    match class {
        // A body is a whole default: the declaration gets a terminator in its place.
        TokenClass::Body => Route {
            declaration: Emission::Terminator,
            binding: Emission::Copy,
            next: state,
        },
        // `=` opens a default value, which only the binding keeps.
        TokenClass::Assign => Route {
            declaration: Emission::Nothing,
            binding: Emission::Copy,
            next: ScanState::DefaultValue,
        },
        // A boundary closes a default value, if one is open, and belongs to both.
        TokenClass::Boundary => Route {
            declaration: Emission::Copy,
            binding: Emission::Copy,
            next: ScanState::Signature,
        },
        TokenClass::Other => match state {
            ScanState::DefaultValue => Route {
                declaration: Emission::Nothing,
                binding: Emission::Copy,
                next: ScanState::DefaultValue,
            },
            ScanState::Signature => Route {
                declaration: Emission::Copy,
                binding: Emission::Copy,
                next: ScanState::Signature,
            },
        },
    }
}

/// The tokens that an emission of `token` adds to an output.
pub open spec fn emitted(emission: Emission, token: Tree) -> Seq<Tree> {
    match emission {
        Emission::Copy => seq![token],
        Emission::Terminator => seq![punct_tree(';')],
        Emission::Nothing => Seq::empty(),
    }
}

/// The state of the scan after `tokens`, starting in `Signature`.
pub open spec fn state_after(tokens: Seq<Tree>) -> ScanState
    decreases tokens.len(),
{
    if tokens.len() == 0 {
        ScanState::Signature
    } else {
        route_of(state_after(tokens.drop_last()), class_of(tokens.last())).next
    }
}

/// The route that the last token of a non-empty `tokens` takes.
pub open spec fn last_route(tokens: Seq<Tree>) -> Route
    recommends
        tokens.len() > 0,
{
    route_of(state_after(tokens.drop_last()), class_of(tokens.last()))
}

/// The declaration output of the scan over `tokens`.
pub open spec fn declaration_stream(tokens: Seq<Tree>) -> Seq<Tree>
    decreases tokens.len(),
{
    if tokens.len() == 0 {
        Seq::empty()
    } else {
        declaration_stream(tokens.drop_last()) + emitted(
            last_route(tokens).declaration,
            tokens.last(),
        )
    }
}

/// The binding output of the scan over `tokens`.
pub open spec fn binding_stream(tokens: Seq<Tree>) -> Seq<Tree>
    decreases tokens.len(),
{
    if tokens.len() == 0 {
        Seq::empty()
    } else {
        binding_stream(tokens.drop_last()) + emitted(last_route(tokens).binding, tokens.last())
    }
}

/// Classifies one token.
pub fn classify(token: &Token) -> (class: TokenClass)
    ensures
        class == class_of(token@),
{
    if token.is_group(Delimiter::Brace) {
        TokenClass::Body
    } else if token.is_punct('=') {
        TokenClass::Assign
    } else if token.is_punct(';') || token.is_word("fn") || token.is_word("type")
        || token.is_word("const") {
        TokenClass::Boundary
    } else {
        TokenClass::Other
    }
}

/// One transition of the scan.
pub fn route(state: ScanState, class: TokenClass) -> (step: Route)
    ensures
        step == route_of(state, class),
{
    match class {
        TokenClass::Body => Route {
            declaration: Emission::Terminator,
            binding: Emission::Copy,
            next: state,
        },
        TokenClass::Assign => Route {
            declaration: Emission::Nothing,
            binding: Emission::Copy,
            next: ScanState::DefaultValue,
        },
        TokenClass::Boundary => Route {
            declaration: Emission::Copy,
            binding: Emission::Copy,
            next: ScanState::Signature,
        },
        TokenClass::Other => match state {
            ScanState::DefaultValue => Route {
                declaration: Emission::Nothing,
                binding: Emission::Copy,
                next: ScanState::DefaultValue,
            },
            ScanState::Signature => Route {
                declaration: Emission::Copy,
                binding: Emission::Copy,
                next: ScanState::Signature,
            },
        },
    }
}

/// Appends to `out` what `emission` of `token` stands for.
pub fn emit_token(out: &mut Vec<Token>, emission: Emission, token: &Token)
    ensures
        trees(final(out)@) == trees(old(out)@) + emitted(emission, token@),
{
    match emission {
        Emission::Copy => {
            let copy = token.clone();
            proof {
                lemma_trees_push(out@, copy);
            }
            out.push(copy);
            assert(trees(old(out)@).push(token@) =~= trees(old(out)@) + seq![token@]);
        },
        Emission::Terminator => {
            let semi = Token::punct(';');
            proof {
                lemma_trees_push(out@, semi);
            }
            out.push(semi);
            assert(trees(old(out)@).push(punct_tree(';')) =~= trees(old(out)@) + seq![
                punct_tree(';'),
            ]);
        },
        Emission::Nothing => {
            assert(trees(out@) =~= trees(out@) + Seq::<Tree>::empty());
        },
    }
}

/// Scans the tokens of a member block and returns the declaration stream
/// and the binding stream, in this order.
pub fn split_tokens(block: &Vec<Token>) -> (streams: (Vec<Token>, Vec<Token>))
    ensures
        trees(streams.0@) == declaration_stream(trees(block@)),
        trees(streams.1@) == binding_stream(trees(block@)),
{
    let mut declaration: Vec<Token> = Vec::new();
    let mut binding: Vec<Token> = Vec::new();
    let mut state = ScanState::Signature;
    let mut i: usize = 0;
    assert(trees(declaration@) =~= Seq::<Tree>::empty());
    assert(trees(binding@) =~= Seq::<Tree>::empty());
    while i < block.len()
        invariant
            i <= block.len(),
            state == state_after(trees(block@).take(i as int)),
            trees(declaration@) == declaration_stream(trees(block@).take(i as int)),
            trees(binding@) == binding_stream(trees(block@).take(i as int)),
        decreases block.len() - i,
    {
        proof {
            let prefix = trees(block@).take(i as int + 1);
            assert(prefix.drop_last() =~= trees(block@).take(i as int));
            assert(prefix.last() == block@[i as int]@);
        }
        let step = route(state, classify(&block[i]));
        emit_token(&mut declaration, step.declaration, &block[i]);
        emit_token(&mut binding, step.binding, &block[i]);
        state = step.next;
        i += 1;
    }
    assert(trees(block@).take(block.len() as int) =~= trees(block@));
    (declaration, binding)
}

/// Every token reaches the binding: the binding stream is the input.
pub proof fn lemma_binding_keeps_every_token(tokens: Seq<Tree>)
    ensures
        binding_stream(tokens) == tokens,
    decreases tokens.len(),
{
    if tokens.len() > 0 {
        lemma_binding_keeps_every_token(tokens.drop_last());
        assert(tokens.drop_last() + seq![tokens.last()] =~= tokens);
    }
}

/// The outputs for a prefix of the input are prefixes of the outputs: a
/// token never changes what was emitted before it.
pub proof fn lemma_declaration_grows(tokens: Seq<Tree>, n: int)
    requires
        0 <= n <= tokens.len(),
    ensures
        declaration_stream(tokens.take(n)).len() <= declaration_stream(tokens).len(),
        declaration_stream(tokens).take(declaration_stream(tokens.take(n)).len() as int)
            == declaration_stream(tokens.take(n)),
    decreases tokens.len(),
{
    if n == tokens.len() {
        assert(tokens.take(n) =~= tokens);
        assert(declaration_stream(tokens).take(declaration_stream(tokens).len() as int)
            =~= declaration_stream(tokens));
    } else {
        let shorter = tokens.drop_last();
        lemma_declaration_grows(shorter, n);
        assert(shorter.take(n) =~= tokens.take(n));
        let head = declaration_stream(tokens.take(n));
        assert(declaration_stream(tokens).take(head.len() as int) =~= declaration_stream(
            shorter,
        ).take(head.len() as int));
    }
}

/// A `;` or member keyword reaches both outputs exactly once, whichever
/// state the scan is in, and leaves the scan in `Signature`: the declaration
/// grows by this one token at the place where the tokens before it end, and
/// the binding holds it at its own index.
pub proof fn lemma_boundary_reaches_both(tokens: Seq<Tree>, i: int)
    requires
        0 <= i < tokens.len(),
        class_of(tokens[i]) == TokenClass::Boundary,
    ensures
        declaration_stream(tokens.take(i + 1)) == declaration_stream(tokens.take(i)).push(
            tokens[i],
        ),
        declaration_stream(tokens.take(i)).len() < declaration_stream(tokens).len(),
        declaration_stream(tokens)[declaration_stream(tokens.take(i)).len() as int] == tokens[i],
        binding_stream(tokens.take(i + 1)) == binding_stream(tokens.take(i)).push(tokens[i]),
        binding_stream(tokens)[i] == tokens[i],
        state_after(tokens.take(i + 1)) == ScanState::Signature,
{
    let prefix = tokens.take(i + 1);
    assert(prefix.drop_last() =~= tokens.take(i));
    assert(prefix.last() == tokens[i]);
    assert(declaration_stream(prefix) =~= declaration_stream(tokens.take(i)).push(tokens[i]));
    assert(binding_stream(prefix) =~= binding_stream(tokens.take(i)).push(tokens[i]));
    lemma_declaration_grows(tokens, i + 1);
    let at = declaration_stream(tokens.take(i)).len() as int;
    assert(declaration_stream(tokens).take(at + 1)[at] == tokens[i]);
    lemma_binding_keeps_every_token(tokens);
}

/// A body group is never opened: the binding holds it whole at its own
/// index, and the declaration holds a single `;` in its place.
pub proof fn lemma_body_moves_whole(tokens: Seq<Tree>, i: int)
    requires
        0 <= i < tokens.len(),
        class_of(tokens[i]) == TokenClass::Body,
    ensures
        binding_stream(tokens)[i] == tokens[i],
        declaration_stream(tokens.take(i + 1)) == declaration_stream(tokens.take(i)).push(
            punct_tree(';'),
        ),
        declaration_stream(tokens.take(i)).len() < declaration_stream(tokens).len(),
        declaration_stream(tokens)[declaration_stream(tokens.take(i)).len() as int]
            == punct_tree(';'),
        state_after(tokens.take(i + 1)) == state_after(tokens.take(i)),
{
    let prefix = tokens.take(i + 1);
    assert(prefix.drop_last() =~= tokens.take(i));
    assert(prefix.last() == tokens[i]);
    assert(declaration_stream(prefix) =~= declaration_stream(tokens.take(i)).push(
        punct_tree(';'),
    ));
    lemma_declaration_grows(tokens, i + 1);
    let at = declaration_stream(tokens.take(i)).len() as int;
    assert(declaration_stream(tokens).take(at + 1)[at] == punct_tree(';'));
    lemma_binding_keeps_every_token(tokens);
}

/// Whether no token of `tokens` is a body or a `=`.
pub open spec fn has_no_default(tokens: Seq<Tree>) -> bool {
    forall|i: int|
        0 <= i < tokens.len() ==> class_of(#[trigger] tokens[i]) != TokenClass::Body && class_of(
            tokens[i],
        ) != TokenClass::Assign
}

/// Members without any default are not rejected: they reach both outputs
/// unchanged.
pub proof fn lemma_defaultless_passes_through(tokens: Seq<Tree>)
    requires
        has_no_default(tokens),
    ensures
        declaration_stream(tokens) == tokens,
        binding_stream(tokens) == tokens,
        state_after(tokens) == ScanState::Signature,
    decreases tokens.len(),
{
    lemma_binding_keeps_every_token(tokens);
    if tokens.len() > 0 {
        let shorter = tokens.drop_last();
        assert(has_no_default(shorter)) by {
            assert forall|i: int| 0 <= i < shorter.len() implies class_of(#[trigger] shorter[i])
                != TokenClass::Body && class_of(shorter[i]) != TokenClass::Assign by {
                assert(shorter[i] == tokens[i]);
            }
        }
        lemma_defaultless_passes_through(shorter);
        assert(class_of(tokens[tokens.len() - 1]) != TokenClass::Body);
        assert(shorter + seq![tokens.last()] =~= tokens);
    }
}

/// The declaration holds no default: none of its tokens is a body or a `=`.
pub proof fn lemma_declaration_has_no_default(tokens: Seq<Tree>)
    ensures
        has_no_default(declaration_stream(tokens)),
    decreases tokens.len(),
{
    if tokens.len() > 0 {
        let shorter = tokens.drop_last();
        lemma_declaration_has_no_default(shorter);
        let before = declaration_stream(shorter);
        let added = emitted(last_route(tokens).declaration, tokens.last());
        let all = declaration_stream(tokens);
        assert forall|i: int| 0 <= i < all.len() implies class_of(#[trigger] all[i])
            != TokenClass::Body && class_of(all[i]) != TokenClass::Assign by {
            if i < before.len() {
                assert(all[i] == before[i]);
            } else {
                assert(all[i] == added[i - before.len()]);
            }
        }
    }
}

/// The signatures can be read back from either output: scanning the binding
/// again gives the same declaration, and scanning the declaration again
/// changes nothing.
pub proof fn lemma_signature_recovered(tokens: Seq<Tree>)
    ensures
        declaration_stream(binding_stream(tokens)) == declaration_stream(tokens),
        declaration_stream(declaration_stream(tokens)) == declaration_stream(tokens),
        binding_stream(declaration_stream(tokens)) == declaration_stream(tokens),
{
    lemma_binding_keeps_every_token(tokens);
    lemma_declaration_has_no_default(tokens);
    lemma_defaultless_passes_through(declaration_stream(tokens));
}

} // verus!
