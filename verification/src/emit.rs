//! The emitter: the declaration block followed by the binding block.

use vstd::prelude::*;
use crate::attribute::{append_attributes, inner_attributes};
use crate::block::{
    all_defaulted, bound_members, declared_members, is_first_defaultless, member_tokens,
    split_members, write_members, BlockModel, TraitBlock,
};
use crate::error::ExpandError;
use crate::header::{BindingHeader, HeaderModel};
use crate::scan::{binding_stream, declaration_stream, split_tokens};
use crate::token::{
    append_tokens, lemma_trees_concat, lemma_trees_push, trees, Delimiter, Token, Tree,
};

verus! {

/// A brace group around `inner`.
pub open spec fn braced(inner: Seq<Tree>) -> Tree {
    Tree::Group(Delimiter::Brace, inner)
}

/// The output: the shell of the source block around the declaration side,
/// then the header prefix in front of the binding side in braces of its own.
pub open spec fn emitted_blocks(
    shell: Seq<Tree>,
    declaration: Seq<Tree>,
    prefix: Seq<Tree>,
    binding: Seq<Tree>,
) -> Seq<Tree> {
    shell + seq![braced(declaration)] + prefix + seq![braced(binding)]
}

/// Joins the two sides into one output. Nothing is checked here.
pub fn emit(
    shell: Vec<Token>,
    declaration: Vec<Token>,
    prefix: Vec<Token>,
    binding: Vec<Token>,
) -> (output: Vec<Token>)
    ensures
        trees(output@) == emitted_blocks(
            trees(shell@),
            trees(declaration@),
            trees(prefix@),
            trees(binding@),
        ),
{
    let ghost before = trees(shell@);
    let ghost middle = trees(prefix@);
    let mut output = shell;
    let mut rest = prefix;
    let first = Token::Group(Delimiter::Brace, declaration);
    let second = Token::Group(Delimiter::Brace, binding);
    proof {
        lemma_trees_push(output@, first);
        lemma_trees_concat(output@.push(first), rest@);
        lemma_trees_push(output@.push(first) + rest@, second);
    }
    output.push(first);
    output.append(&mut rest);
    output.push(second);
    assert(trees(output@) =~= emitted_blocks(
        before,
        trees(declaration@),
        middle,
        trees(binding@),
    ));
    output
}

/// What the structured expansion of a block under a header writes: the
/// trait with the declaration half of every interpreted member, then the
/// implementation with the binding half of each. A macro invocation or
/// other uninterpreted member is written to neither.
pub open spec fn expansion(header: HeaderModel, block: BlockModel) -> Seq<Tree> {
    emitted_blocks(
        block.frame(),
        inner_attributes(block.attrs) + member_tokens(declared_members(block.members)),
        header.tokens(),
        inner_attributes(header.attrs) + member_tokens(bound_members(block.members)),
    )
}

/// Expands a parsed block under a parsed header. Every interpreted member
/// must carry a default: the first that does not is reported and nothing
/// is written.
pub fn expand(header: &BindingHeader, block: &TraitBlock) -> (result: Result<
    Vec<Token>,
    ExpandError,
>)
    ensures
        match result {
            Ok(output) => {
                &&& all_defaulted(block@.members)
                &&& trees(output@) == expansion(header@, block@)
            },
            Err(error) => {
                &&& error matches ExpandError::MissingDefault { index, kind, line, column }
                &&& is_first_defaultless(block@.members, index as int)
                &&& kind == block@.members[index as int].kind
                &&& line == block@.members[index as int].line
                &&& column == block@.members[index as int].column
            },
        },
{
    let halves = match split_members(&block.members) {
        Ok(halves) => halves,
        Err(error) => {
            return Err(error);
        },
    };
    let shell = block.write_frame();

    let mut declaration: Vec<Token> = Vec::new();
    assert(trees(declaration@) =~= Seq::<Tree>::empty());
    append_attributes(&mut declaration, &block.attrs, true);
    let items = write_members(&halves.0);
    append_tokens(&mut declaration, &items);
    assert(trees(declaration@) =~= inner_attributes(block@.attrs) + member_tokens(
        declared_members(block@.members),
    ));

    let mut prefix: Vec<Token> = Vec::new();
    assert(trees(prefix@) =~= Seq::<Tree>::empty());
    header.write_tokens(&mut prefix);
    assert(trees(prefix@) =~= header@.tokens());

    let mut binding: Vec<Token> = Vec::new();
    assert(trees(binding@) =~= Seq::<Tree>::empty());
    append_attributes(&mut binding, &header.attrs, true);
    let items = write_members(&halves.1);
    append_tokens(&mut binding, &items);
    assert(trees(binding@) =~= inner_attributes(header@.attrs) + member_tokens(
        bound_members(block@.members),
    ));

    Ok(emit(shell, declaration, prefix, binding))
}

/// Whether `tokens` ends in a brace group, the body of the block.
pub open spec fn ends_in_braces(tokens: Seq<Tree>) -> bool {
    tokens.len() > 0 && tokens.last().is_group(Delimiter::Brace)
}

/// The tokens inside the last group of `tokens`.
pub open spec fn block_body(tokens: Seq<Tree>) -> Seq<Tree>
    recommends
        ends_in_braces(tokens),
{
    match tokens.last() {
        Tree::Group(_, inner) => inner,
        _ => Seq::empty(),
    }
}

/// What the scanning expansion of a block under a header writes: the
/// tokens in front of the body around the declaration stream of the body,
/// then the header in front of the binding stream of the body.
pub open spec fn scanned_expansion(header: HeaderModel, tokens: Seq<Tree>) -> Seq<Tree>
    recommends
        ends_in_braces(tokens),
{
    emitted_blocks(
        tokens.drop_last(),
        declaration_stream(block_body(tokens)),
        header.tokens(),
        binding_stream(block_body(tokens)),
    )
}

/// Expands the tokens of a block under a parsed header by scanning. The
/// block must end in its brace group; nothing else is checked, and a member
/// without a default is written to both sides as it stands.
pub fn expand_scanned(header: &BindingHeader, block: &Vec<Token>) -> (result: Result<
    Vec<Token>,
    ExpandError,
>)
    ensures
        match result {
            Ok(output) => {
                &&& ends_in_braces(trees(block@))
                &&& trees(output@) == scanned_expansion(header@, trees(block@))
            },
            Err(error) => {
                &&& error matches ExpandError::MissingBraces
                &&& !ends_in_braces(trees(block@))
            },
        },
{
    let n = block.len();
    if n == 0 {
        return Err(ExpandError::MissingBraces);
    }
    assert(trees(block@).last() == block@[n - 1]@);
    match &block[n - 1] {
        Token::Group(Delimiter::Brace, inner) => {
            let mut shell: Vec<Token> = Vec::new();
            let mut i: usize = 0;
            assert(trees(shell@) =~= trees(block@).take(0));
            while i < n - 1
                invariant
                    n == block.len(),
                    i <= n - 1,
                    trees(shell@) == trees(block@).take(i as int),
                decreases n - 1 - i,
            {
                let copy = block[i].clone();
                proof {
                    lemma_trees_push(shell@, copy);
                    assert(trees(block@).take(i as int + 1) =~= trees(block@).take(i as int).push(
                        block@[i as int]@,
                    ));
                }
                shell.push(copy);
                i += 1;
            }
            assert(trees(block@).take(n as int - 1) =~= trees(block@).drop_last());
            let streams = split_tokens(inner);
            let mut prefix: Vec<Token> = Vec::new();
            assert(trees(prefix@) =~= Seq::<Tree>::empty());
            header.write_tokens(&mut prefix);
            assert(trees(prefix@) =~= header@.tokens());
            Ok(emit(shell, streams.0, prefix, streams.1))
        },
        _ => Err(ExpandError::MissingBraces),
    }
}

} // verus!
