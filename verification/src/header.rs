//! The binding directive: which trait is implemented for which carrier type,
//! under which generic parameters and constraints.

use vstd::prelude::*;
use crate::attribute::{append_attributes, outer_attributes};
use crate::token::{append_tokens, lemma_trees_push, trees, word_tree, Token, Tree};

verus! {

/// Generic parameters together with their constraints. The where clause is
/// written after the carrier type but is kept here, so that "generics with
/// constraints" travel as one unit.
#[derive(Debug, PartialEq, Eq)]
pub struct Generics {
    /// `<...>` with its angle brackets, or nothing.
    pub params: Vec<Token>,
    /// `where ...`, or nothing.
    pub where_clause: Vec<Token>,
}

/// The mathematical value of [`Generics`].
pub struct GenericsModel {
    pub params: Seq<Tree>,
    pub where_clause: Seq<Tree>,
}

impl View for Generics {
    type V = GenericsModel;

    open spec fn view(&self) -> GenericsModel {
        GenericsModel { params: trees(self.params@), where_clause: trees(self.where_clause@) }
    }
}

/// A parsed binding directive
/// `[attributes] [unsafe] impl [generics] path for type [where-clause]`.
/// It names exactly one trait path and one carrier type.
#[derive(Debug, PartialEq, Eq)]
pub struct BindingHeader {
    /// The attributes in front of the directive.
    pub attrs: Vec<Token>,
    /// Whether `unsafe` precedes `impl`.
    pub unsafety: bool,
    pub generics: Generics,
    /// The path of the trait that is implemented.
    pub path: Vec<Token>,
    /// The carrier type that receives the implementation.
    pub self_ty: Vec<Token>,
}

/// The mathematical value of a [`BindingHeader`].
pub struct HeaderModel {
    pub attrs: Seq<Tree>,
    pub unsafety: bool,
    pub generics: GenericsModel,
    pub path: Seq<Tree>,
    pub self_ty: Seq<Tree>,
}

impl View for BindingHeader {
    type V = HeaderModel;

    open spec fn view(&self) -> HeaderModel {
        HeaderModel {
            attrs: trees(self.attrs@),
            unsafety: self.unsafety,
            generics: self.generics@,
            path: trees(self.path@),
            self_ty: trees(self.self_ty@),
        }
    }
}

/// The header whose parts were read in source order, the where clause last.
pub open spec fn assembled(
    attrs: Seq<Tree>,
    unsafety: bool,
    params: Seq<Tree>,
    path: Seq<Tree>,
    self_ty: Seq<Tree>,
    where_clause: Seq<Tree>,
) -> HeaderModel {
    HeaderModel {
        attrs,
        unsafety,
        generics: GenericsModel { params, where_clause },
        path,
        self_ty,
    }
}

impl HeaderModel {
    /// Whether the header names one trait path and one carrier type, and
    /// its where clause, if it has one, starts with `where`.
    pub open spec fn is_complete(self) -> bool {
        &&& self.path.len() > 0
        &&& self.self_ty.len() > 0
        &&& self.generics.where_clause.len() > 0 ==> self.generics.where_clause[0].is_word(
            "where"@,
        )
    }

    /// The `unsafe` keyword, if the header has it.
    pub open spec fn unsafety_tokens(self) -> Seq<Tree> {
        if self.unsafety {
            seq![word_tree("unsafe"@)]
        } else {
            Seq::empty()
        }
    }

    /// The header written out as the tokens that precede the body of an
    /// implementation: the where clause returns to its place after the type.
    pub open spec fn tokens(self) -> Seq<Tree> {
        outer_attributes(self.attrs) + self.unsafety_tokens() + seq![word_tree("impl"@)]
            + self.generics.params + self.path + seq![word_tree("for"@)] + self.self_ty
            + self.generics.where_clause
    }
}

impl BindingHeader {
    /// Builds the header from its parts in source order, attaching the
    /// trailing where clause to the generics.
    pub fn assemble(
        attrs: Vec<Token>,
        unsafety: bool,
        params: Vec<Token>,
        path: Vec<Token>,
        self_ty: Vec<Token>,
        where_clause: Vec<Token>,
    ) -> (header: BindingHeader)
        ensures
            header@ == assembled(
                trees(attrs@),
                unsafety,
                trees(params@),
                trees(path@),
                trees(self_ty@),
                trees(where_clause@),
            ),
    {
        let mut header = BindingHeader {
            attrs,
            unsafety,
            generics: Generics { params, where_clause: Vec::new() },
            path,
            self_ty,
        };
        header.generics.where_clause = where_clause;
        header
    }

    /// Builds the header from its parts as [`BindingHeader::assemble`]
    /// does, if that header is complete, and gives nothing otherwise.
    pub fn complete(
        attrs: Vec<Token>,
        unsafety: bool,
        params: Vec<Token>,
        path: Vec<Token>,
        self_ty: Vec<Token>,
        where_clause: Vec<Token>,
    ) -> (result: Option<BindingHeader>)
        ensures
            result is Some <==> assembled(
                trees(attrs@),
                unsafety,
                trees(params@),
                trees(path@),
                trees(self_ty@),
                trees(where_clause@),
            ).is_complete(),
            result matches Some(header) ==> header@ == assembled(
                trees(attrs@),
                unsafety,
                trees(params@),
                trees(path@),
                trees(self_ty@),
                trees(where_clause@),
            ),
    {
        let header = BindingHeader::assemble(attrs, unsafety, params, path, self_ty, where_clause);
        if header.is_complete() {
            Some(header)
        } else {
            None
        }
    }

    /// Whether the header names one trait path and one carrier type, and
    /// its where clause, if it has one, starts with `where`.
    pub fn is_complete(&self) -> (yes: bool)
        ensures
            yes == self@.is_complete(),
    {
        let clause = &self.generics.where_clause;
        proof {
            if clause.len() > 0 {
                assert(trees(clause@)[0] == clause@[0]@);
            }
        }
        self.path.len() > 0 && self.self_ty.len() > 0 && (clause.len() == 0 || clause[0].is_word(
            "where",
        ))
    }

    /// Appends the header, written out as tokens, to `out`.
    pub fn write_tokens(&self, out: &mut Vec<Token>)
        ensures
            trees(final(out)@) == trees(old(out)@) + self@.tokens(),
    {
        let ghost start = trees(out@);
        append_attributes(out, &self.attrs, false);
        let ghost after_attrs = trees(out@);
        if self.unsafety {
            let word = Token::word("unsafe");
            proof {
                lemma_trees_push(out@, word);
            }
            out.push(word);
        }
        assert(trees(out@) =~= after_attrs + self@.unsafety_tokens());
        let word = Token::word("impl");
        proof {
            lemma_trees_push(out@, word);
        }
        out.push(word);
        append_tokens(out, &self.generics.params);
        append_tokens(out, &self.path);
        let word = Token::word("for");
        proof {
            lemma_trees_push(out@, word);
        }
        out.push(word);
        append_tokens(out, &self.self_ty);
        append_tokens(out, &self.generics.where_clause);
        assert(trees(out@) =~= start + self@.tokens());
    }
}

} // verus!
