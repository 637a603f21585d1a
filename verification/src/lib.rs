//! Splits a trait block whose members all carry defaults into a bare trait
//! declaration and a blanket implementation for a generic carrier type.
//!
//! Given the directive `impl<T: Behavior> Erased for T` and the block
//!
//! ```text
//! pub trait Erased {
//!     fn name(&self) -> &str { T::name() }
//! }
//! ```
//!
//! the expansion is
//!
//! ```text
//! pub trait Erased {
//!     fn name(&self) -> &str;
//! }
//! impl<T: Behavior> Erased for T {
//!     fn name(&self) -> &str { T::name() }
//! }
//! ```
//!
//! There are two strategies. [`blanket_trait`] parses the block, demands a
//! default of every member and is the one to use. [`blanket_trait_scanned`]
//! only scans the tokens of the block: it is cheaper and checks less.
//! [`blanket_trait_with`] takes the strategy as an argument.

use vstd::prelude::*;
use crate::block::{
    all_defaulted, is_first_defaultless, lemma_defaultless_is_rejected, BlockModel,
};
use crate::emit::{ends_in_braces, expand, expand_scanned, expansion, scanned_expansion};
use crate::error::{ExpandError, ExpandErrorModel};
use crate::header::HeaderModel;
use crate::syntax::{lex, lexed, parse_block, parse_header, parsed_trait, read_directive};
use crate::token::{Token, Tree};

pub mod agreement;
pub mod attribute;
pub mod block;
pub mod emit;
pub mod error;
pub mod header;
pub mod member;
pub mod scan;
pub mod syntax;
pub mod token;

verus! {

/// The first member of `block` that must carry a default and lacks it.
pub open spec fn first_defaultless(block: BlockModel) -> int {
    choose|index: int| is_first_defaultless(block.members, index)
}

/// What the structured expansion of a parsed block under a parsed header
/// gives: the output, or the first member without a default.
pub open spec fn structured_result(header: HeaderModel, block: BlockModel) -> Result<
    Seq<Tree>,
    ExpandErrorModel,
> {
    if all_defaulted(block.members) {
        Ok(expansion(header, block))
    } else {
        Err(
            ExpandErrorModel::MissingDefault {
                index: first_defaultless(block) as nat,
                kind: block.members[first_defaultless(block)].kind,
                line: block.members[first_defaultless(block)].line,
                column: block.members[first_defaultless(block)].column,
            },
        )
    }
}

/// What [`blanket_trait`] gives for the texts of a directive and a block.
/// The directive is read first: if it is malformed, the block is not looked at.
pub open spec fn structured_outcome(first: Seq<char>, tokens: Seq<char>) -> Result<
    Seq<Tree>,
    ExpandErrorModel,
> {
    match read_directive(first) {
        Err(failure) => Err(ExpandErrorModel::MalformedHeader(failure)),
        Ok(header) => match parsed_trait(tokens) {
            Err(failure) => Err(ExpandErrorModel::MalformedBlock(failure)),
            Ok(block) => structured_result(header, block),
        },
    }
}

/// What [`blanket_trait_scanned`] gives for the texts of a directive and a block.
pub open spec fn scanned_outcome(first: Seq<char>, tokens: Seq<char>) -> Result<
    Seq<Tree>,
    ExpandErrorModel,
> {
    match read_directive(first) {
        Err(failure) => Err(ExpandErrorModel::MalformedHeader(failure)),
        Ok(header) => match lexed(tokens) {
            Err(failure) => Err(ExpandErrorModel::MalformedBlock(failure)),
            Ok(input) => if ends_in_braces(input) {
                Ok(scanned_expansion(header, input))
            } else {
                Err(ExpandErrorModel::MissingBraces)
            },
        },
    }
}

/// Which splitter expands a block.
#[derive(Clone, Copy, Debug, PartialEq, Eq, Structural)]
pub enum Strategy {
    /// Parse the block and demand a default of every member.
    Structured,
    /// Scan the tokens of the block; a member without a default is not detected.
    Scanned,
}

/// What [`blanket_trait_with`] gives under `strategy`.
pub open spec fn outcome(strategy: Strategy, first: Seq<char>, tokens: Seq<char>) -> Result<
    Seq<Tree>,
    ExpandErrorModel,
> {
    match strategy {
        Strategy::Structured => structured_outcome(first, tokens),
        Strategy::Scanned => scanned_outcome(first, tokens),
    }
}

/// Only one member can be the first without a default.
pub proof fn lemma_first_defaultless_is_unique(block: BlockModel, index: int)
    requires
        is_first_defaultless(block.members, index),
    ensures
        first_defaultless(block) == index,
{
    let other = first_defaultless(block);
    if other < index {
        assert(block.members.take(index)[other] == block.members[other]);
    } else if index < other {
        assert(block.members.take(other)[index] == block.members[index]);
    }
}

/// A member without its default is fatal to the structured expansion,
/// whatever the header and the other members: there is no output, and the
/// error names the first such member.
pub proof fn lemma_missing_default_is_fatal(header: HeaderModel, block: BlockModel, index: int)
    requires
        0 <= index < block.members.len(),
        block.members[index].lacks_default(),
    ensures
        structured_result(header, block) == Err::<Seq<Tree>, ExpandErrorModel>(
            ExpandErrorModel::MissingDefault {
                index: first_defaultless(block) as nat,
                kind: block.members[first_defaultless(block)].kind,
                line: block.members[first_defaultless(block)].line,
                column: block.members[first_defaultless(block)].column,
            },
        ),
        0 <= first_defaultless(block) <= index,
        is_first_defaultless(block.members, first_defaultless(block)),
{
    lemma_defaultless_is_rejected(block.members, index);
    let first = choose|first: int| 0 <= first <= index && is_first_defaultless(block.members, first);
    lemma_first_defaultless_is_unique(block, first);
}

/// Expands the trait block `tokens` under the binding directive `first`,
/// both given as source text, into the trait declaration followed by the
/// blanket implementation.
///
/// Fails, with no output, if the directive is malformed, if the block is
/// not a trait definition, or if a member carries no default.
pub fn blanket_trait(first: &str, tokens: &str) -> (result: Result<Vec<Token>, ExpandError>)
    ensures
        match result {
            Ok(output) => structured_outcome(first@, tokens@) == Ok::<
                Seq<Tree>,
                ExpandErrorModel,
            >(crate::token::trees(output@)),
            Err(error) => structured_outcome(first@, tokens@) == Err::<
                Seq<Tree>,
                ExpandErrorModel,
            >(error@),
        },
{
    let header = match parse_header(first) {
        Ok(header) => header,
        Err(error) => {
            return Err(ExpandError::MalformedHeader(error));
        },
    };
    let block = match parse_block(tokens) {
        Ok(block) => block,
        Err(error) => {
            return Err(ExpandError::MalformedBlock(error));
        },
    };
    match expand(&header, &block) {
        Ok(output) => Ok(output),
        Err(error) => {
            proof {
                match error {
                    ExpandError::MissingDefault { index, kind, line, column } => {
                        lemma_first_defaultless_is_unique(block@, index as int);
                        assert(!block@.members[index as int].lacks_default() || !all_defaulted(
                            block@.members,
                        ));
                    },
                    _ => {},
                }
            }
            Err(error)
        },
    }
}

/// Expands like [`blanket_trait`], but by one scan over the tokens of the
/// block instead of a parse. The directive is still parsed. The block only
/// has to end in a brace group: a member without a default is not
/// detected and reaches both the declaration and the implementation as it
/// stands.
pub fn blanket_trait_scanned(first: &str, tokens: &str) -> (result: Result<
    Vec<Token>,
    ExpandError,
>)
    ensures
        match result {
            Ok(output) => scanned_outcome(first@, tokens@) == Ok::<Seq<Tree>, ExpandErrorModel>(
                crate::token::trees(output@),
            ),
            Err(error) => scanned_outcome(first@, tokens@) == Err::<Seq<Tree>, ExpandErrorModel>(
                error@,
            ),
        },
{
    let header = match parse_header(first) {
        Ok(header) => header,
        Err(error) => {
            return Err(ExpandError::MalformedHeader(error));
        },
    };
    let block = match lex(tokens) {
        Ok(block) => block,
        Err(error) => {
            return Err(ExpandError::MalformedBlock(error));
        },
    };
    expand_scanned(&header, &block)
}

/// Expands under the chosen strategy: [`blanket_trait`] for `Structured`,
/// [`blanket_trait_scanned`] for `Scanned`.
pub fn blanket_trait_with(strategy: Strategy, first: &str, tokens: &str) -> (result: Result<
    Vec<Token>,
    ExpandError,
>)
    ensures
        match result {
            Ok(output) => outcome(strategy, first@, tokens@) == Ok::<Seq<Tree>, ExpandErrorModel>(
                crate::token::trees(output@),
            ),
            Err(error) => outcome(strategy, first@, tokens@) == Err::<
                Seq<Tree>,
                ExpandErrorModel,
            >(error@),
        },
{
    match strategy {
        Strategy::Structured => blanket_trait(first, tokens),
        Strategy::Scanned => blanket_trait_scanned(first, tokens),
    }
}

} // verus!
