//! The ways an expansion can fail.

use vstd::prelude::*;
use crate::member::MemberKind;

verus! {

/// A syntax error with the place in the input text where it was found.
#[derive(Debug, PartialEq, Eq)]
pub struct SyntaxError {
    /// What was expected or found.
    pub message: String,
    /// Line in the input text, counted from 1.
    pub line: usize,
    /// Column in that line, counted from 0 in characters.
    pub column: usize,
}

/// The mathematical value of a [`SyntaxError`].
pub struct Failure {
    pub message: Seq<char>,
    pub line: nat,
    pub column: nat,
}

impl View for SyntaxError {
    type V = Failure;

    open spec fn view(&self) -> Failure {
        Failure { message: self.message@, line: self.line as nat, column: self.column as nat }
    }
}

/// Why no output was produced. There is no partial success: an expansion
/// either returns both blocks or one of these.
#[derive(Debug, PartialEq, Eq)]
pub enum ExpandError {
    /// The binding directive is not a token stream or not of the form
    /// `[attributes] [unsafe] impl [generics] path for type [where-clause]`.
    MalformedHeader(SyntaxError),
    /// The member block is not a token stream or not a trait definition.
    MalformedBlock(SyntaxError),
    /// The input of the scanning splitter does not end in a brace group.
    MissingBraces,
    /// The member at `index`, counted from 0, carries no default. `line`
    /// and `column` are where it starts in the text of the block.
    MissingDefault { index: usize, kind: MemberKind, line: usize, column: usize },
}

/// The mathematical value of an [`ExpandError`].
pub enum ExpandErrorModel {
    MalformedHeader(Failure),
    MalformedBlock(Failure),
    MissingBraces,
    MissingDefault { index: nat, kind: MemberKind, line: nat, column: nat },
}

impl View for ExpandError {
    type V = ExpandErrorModel;

    open spec fn view(&self) -> ExpandErrorModel {
        match self {
            ExpandError::MalformedHeader(e) => ExpandErrorModel::MalformedHeader(e@),
            ExpandError::MalformedBlock(e) => ExpandErrorModel::MalformedBlock(e@),
            ExpandError::MissingBraces => ExpandErrorModel::MissingBraces,
            ExpandError::MissingDefault { index, kind, line, column } => {
                ExpandErrorModel::MissingDefault {
                    index: *index as nat,
                    kind: *kind,
                    line: *line as nat,
                    column: *column as nat,
                }
            },
        }
    }
}

impl ExpandErrorModel {
    /// The text shown for this error.
    pub open spec fn message(self) -> Seq<char> {
        match self {
            ExpandErrorModel::MalformedHeader(e) => e.message,
            ExpandErrorModel::MalformedBlock(e) => e.message,
            ExpandErrorModel::MissingBraces => "expected curly braces"@,
            ExpandErrorModel::MissingDefault { kind, .. } => match kind {
                MemberKind::Behavior => "Expected function body"@,
                _ => "Expected default value."@,
            },
        }
    }
}

impl ExpandError {
    /// The text shown for this error.
    pub fn message(&self) -> (text: String)
        ensures
            text@ == self@.message(),
    {
        match self {
            ExpandError::MalformedHeader(e) => e.message.clone(),
            ExpandError::MalformedBlock(e) => e.message.clone(),
            ExpandError::MissingBraces => "expected curly braces".to_owned(),
            ExpandError::MissingDefault { index: _, kind, line: _, column: _ } => match kind {
                MemberKind::Behavior => "Expected function body".to_owned(),
                _ => "Expected default value.".to_owned(),
            },
        }
    }
}

} // verus!
