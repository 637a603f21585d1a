//! Members of a trait block and the two halves each one splits into.

use vstd::prelude::*;
use crate::attribute::{append_attributes, outer_attributes};
use crate::token::{append_tokens, clone_tokens, lemma_trees_push, punct_tree, trees, Token, Tree};

verus! {

/// What a member declares.
#[derive(Clone, Copy, Debug, PartialEq, Eq, Structural)]
pub enum MemberKind {
    /// A function; its default is its body.
    Behavior,
    /// An associated type; its default is the type after `=`.
    Type,
    /// An associated constant; its default is the expression after `=`.
    Constant,
    /// A macro invocation or other tokens that are not interpreted; it has
    /// no default, is never split, and is written to neither output.
    Verbatim,
}

/// One member of a trait block, as runs of tokens.
#[derive(Debug, PartialEq, Eq)]
pub struct Member {
    pub kind: MemberKind,
    /// The attributes as written, outer and inner. Empty for `Verbatim`.
    pub attrs: Vec<Token>,
    /// Everything up to the default: a function signature, `type` with its
    /// name and generic parameters, or `const` with its name and type. For
    /// `Verbatim`, all tokens of the member.
    pub signature: Vec<Token>,
    /// The bounds of an associated type, without the `:` in front of them.
    /// Only a declaration has them.
    pub bounds: Vec<Token>,
    /// The default payload: the body group of a function, or the tokens that
    /// follow the `=` of a type or constant.
    pub default: Option<Vec<Token>>,
    /// The where clause of an associated type, which follows its default.
    pub trailer: Vec<Token>,
    /// The line of the text on which the member starts, counted from 1;
    /// 0 for a member that was not read from text.
    pub line: usize,
    /// The column in that line, counted from 0 in characters.
    pub column: usize,
}

/// The mathematical value of a [`Member`].
pub struct MemberModel {
    pub kind: MemberKind,
    pub attrs: Seq<Tree>,
    pub signature: Seq<Tree>,
    pub bounds: Seq<Tree>,
    pub default: Option<Seq<Tree>>,
    pub trailer: Seq<Tree>,
    pub line: nat,
    pub column: nat,
}

impl View for Member {
    type V = MemberModel;

    open spec fn view(&self) -> MemberModel {
        MemberModel {
            kind: self.kind,
            attrs: trees(self.attrs@),
            signature: trees(self.signature@),
            bounds: trees(self.bounds@),
            default: match self.default {
                Some(payload) => Some(trees(payload@)),
                None => None,
            },
            trailer: trees(self.trailer@),
            line: self.line as nat,
            column: self.column as nat,
        }
    }
}

impl MemberModel {
    /// Whether the member carries a default payload that is not empty.
    pub open spec fn has_default(self) -> bool {
        self.default matches Some(payload) && payload.len() > 0
    }

    /// Whether the member must carry a default and does not.
    pub open spec fn lacks_default(self) -> bool {
        self.kind != MemberKind::Verbatim && !self.has_default()
    }

    /// The declaration half: the member without its default.
    pub open spec fn declared(self) -> MemberModel {
        MemberModel { default: None, ..self }
    }

    /// The binding half: the member with its default and without bounds,
    /// which an implementation may not repeat.
    pub open spec fn bound(self) -> MemberModel {
        MemberModel { bounds: Seq::empty(), ..self }
    }

    /// The member whose declaration half is `self` and whose default is that
    /// of `binding`.
    pub open spec fn rejoin(self, binding: MemberModel) -> MemberModel {
        MemberModel { default: binding.default, ..self }
    }

    /// The bounds as written: after a `:` if there are any.
    pub open spec fn bounds_tokens(self) -> Seq<Tree> {
        if self.bounds.len() > 0 {
            seq![punct_tree(':')] + self.bounds
        } else {
            Seq::empty()
        }
    }

    /// The tokens of the default as written: a body as it is, any other
    /// payload after a `=`.
    pub open spec fn default_tokens(self) -> Seq<Tree> {
        match self.default {
            None => Seq::empty(),
            Some(payload) => if self.kind == MemberKind::Behavior {
                payload
            } else {
                seq![punct_tree('=')] + payload
            },
        }
    }

    /// The `;` that ends every member but a function with a body.
    pub open spec fn terminator(self) -> Seq<Tree> {
        if self.kind == MemberKind::Behavior && self.default is Some {
            Seq::empty()
        } else {
            seq![punct_tree(';')]
        }
    }

    /// The member written out as tokens.
    pub open spec fn tokens(self) -> Seq<Tree> {
        if self.kind == MemberKind::Verbatim {
            self.signature
        } else {
            outer_attributes(self.attrs) + self.signature + self.bounds_tokens()
                + self.default_tokens() + self.trailer + self.terminator()
        }
    }
}

impl Clone for Member {
    fn clone(&self) -> (copy: Self)
        ensures
            copy@ == self@,
    {
        Member {
            kind: self.kind,
            attrs: clone_tokens(&self.attrs),
            signature: clone_tokens(&self.signature),
            bounds: clone_tokens(&self.bounds),
            default: match &self.default {
                Some(payload) => Some(clone_tokens(payload)),
                None => None,
            },
            trailer: clone_tokens(&self.trailer),
            line: self.line,
            column: self.column,
        }
    }
}

impl Member {
    /// Whether the member carries a default payload that is not empty.
    pub fn has_default(&self) -> (yes: bool)
        ensures
            yes == self@.has_default(),
    {
        match &self.default {
            Some(payload) => payload.len() > 0,
            None => false,
        }
    }

    /// Whether the member must carry a default and does not.
    pub fn lacks_default(&self) -> (yes: bool)
        ensures
            yes == self@.lacks_default(),
    {
        match self.kind {
            MemberKind::Verbatim => false,
            _ => !self.has_default(),
        }
    }

    /// The declaration half: a copy of the member without its default.
    pub fn declared(&self) -> (half: Member)
        ensures
            half@ == self@.declared(),
    {
        Member {
            kind: self.kind,
            attrs: clone_tokens(&self.attrs),
            signature: clone_tokens(&self.signature),
            bounds: clone_tokens(&self.bounds),
            default: None,
            trailer: clone_tokens(&self.trailer),
            line: self.line,
            column: self.column,
        }
    }

    /// The binding half: a copy of the member with its default and without
    /// bounds.
    pub fn bound(&self) -> (half: Member)
        ensures
            half@ == self@.bound(),
    {
        let bounds: Vec<Token> = Vec::new();
        assert(trees(bounds@) =~= Seq::<Tree>::empty());
        Member {
            kind: self.kind,
            attrs: clone_tokens(&self.attrs),
            signature: clone_tokens(&self.signature),
            bounds,
            default: match &self.default {
                Some(payload) => Some(clone_tokens(payload)),
                None => None,
            },
            trailer: clone_tokens(&self.trailer),
            line: self.line,
            column: self.column,
        }
    }

    /// The member whose declaration half is `self` and whose default is
    /// that of `binding`: the inverse of splitting.
    pub fn rejoin(&self, binding: &Member) -> (whole: Member)
        ensures
            whole@ == self@.rejoin(binding@),
    {
        Member {
            kind: self.kind,
            attrs: clone_tokens(&self.attrs),
            signature: clone_tokens(&self.signature),
            bounds: clone_tokens(&self.bounds),
            default: match &binding.default {
                Some(payload) => Some(clone_tokens(payload)),
                None => None,
            },
            trailer: clone_tokens(&self.trailer),
            line: self.line,
            column: self.column,
        }
    }

    /// Appends the member, written out as tokens, to `out`.
    pub fn write_tokens(&self, out: &mut Vec<Token>)
        ensures
            trees(final(out)@) == trees(old(out)@) + self@.tokens(),
    {
        let ghost start = trees(out@);
        match self.kind {
            MemberKind::Verbatim => {
                append_tokens(out, &self.signature);
            },
            _ => {
                append_attributes(out, &self.attrs, false);
                append_tokens(out, &self.signature);
                let ghost named = trees(out@);
                if self.bounds.len() > 0 {
                    let colon = Token::punct(':');
                    proof {
                        lemma_trees_push(out@, colon);
                    }
                    out.push(colon);
                    append_tokens(out, &self.bounds);
                }
                let ghost head = trees(out@);
                assert(head =~= named + self@.bounds_tokens());
                assert(head =~= start + (outer_attributes(self@.attrs) + self@.signature
                    + self@.bounds_tokens()));
                match &self.default {
                    None => {
                        assert(head =~= head + self@.default_tokens());
                    },
                    Some(payload) => {
                        match self.kind {
                            MemberKind::Behavior => {},
                            _ => {
                                let eq = Token::punct('=');
                                proof {
                                    lemma_trees_push(out@, eq);
                                }
                                out.push(eq);
                            },
                        }
                        append_tokens(out, payload);
                        assert(trees(out@) =~= head + self@.default_tokens());
                    },
                }
                append_tokens(out, &self.trailer);
                let ghost body = trees(out@);
                let terminated = match (&self.kind, &self.default) {
                    (MemberKind::Behavior, Some(_)) => false,
                    _ => true,
                };
                if terminated {
                    let semi = Token::punct(';');
                    proof {
                        lemma_trees_push(out@, semi);
                    }
                    out.push(semi);
                }
                assert(trees(out@) =~= body + self@.terminator());
                assert(trees(out@) =~= start + self@.tokens());
            },
        }
    }
}

/// Splitting loses nothing: both halves keep the attributes and the
/// signature as they were, in order, and the place of the member, and the
/// member is the declaration half rejoined with the default of the binding
/// half.
pub proof fn lemma_split_rejoins(member: MemberModel)
    ensures
        member.declared().attrs == member.attrs,
        member.declared().signature == member.signature,
        member.bound().attrs == member.attrs,
        member.bound().signature == member.signature,
        member.bound().default == member.default,
        member.declared().rejoin(member.bound()) == member,
{
}

/// A function with a body splits into its signature followed by `;` and
/// its signature followed by the body, token for token.
pub proof fn lemma_behavior_halves(member: MemberModel, body: Seq<Tree>)
    requires
        member.kind == MemberKind::Behavior,
        member.default == Some(body),
    ensures
        member.declared().tokens() == outer_attributes(member.attrs) + member.signature
            + member.bounds_tokens() + member.trailer + seq![punct_tree(';')],
        member.bound().tokens() == outer_attributes(member.attrs) + member.signature + body
            + member.trailer,
{
    assert(member.declared().tokens() =~= outer_attributes(member.attrs) + member.signature
        + member.bounds_tokens() + member.trailer + seq![punct_tree(';')]);
    assert(member.bound().tokens() =~= outer_attributes(member.attrs) + member.signature + body
        + member.trailer);
}

/// A type or constant with a default splits into its signature (with `:`
/// and the bounds of a type, if it has any) followed by `;` and its
/// signature followed by `=`, the default and `;`.
pub proof fn lemma_value_halves(member: MemberModel, payload: Seq<Tree>)
    requires
        member.kind == MemberKind::Type || member.kind == MemberKind::Constant,
        member.default == Some(payload),
    ensures
        member.declared().tokens() == outer_attributes(member.attrs) + member.signature
            + member.bounds_tokens() + member.trailer + seq![punct_tree(';')],
        member.bound().tokens() == outer_attributes(member.attrs) + member.signature + seq![
            punct_tree('='),
        ] + payload + member.trailer + seq![punct_tree(';')],
{
    assert(member.declared().tokens() =~= outer_attributes(member.attrs) + member.signature
        + member.bounds_tokens() + member.trailer + seq![punct_tree(';')]);
    assert(member.bound().tokens() =~= outer_attributes(member.attrs) + member.signature + seq![
        punct_tree('='),
    ] + payload + member.trailer + seq![punct_tree(';')]);
}

} // verus!
