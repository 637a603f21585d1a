//! The structured splitter: every member of a parsed trait block must carry
//! a default, which moves to the binding while the declaration keeps the
//! signature.

use vstd::prelude::*;
use crate::error::ExpandError;
use crate::member::{Member, MemberKind, MemberModel};
use crate::attribute::{append_attributes, outer_attributes};
use crate::token::{append_tokens, lemma_trees_push, punct_tree, trees, Token, Tree};

verus! {

/// A parsed trait block: what stands in front of its braces and the members
/// between them.
#[derive(Debug, PartialEq, Eq)]
pub struct TraitBlock {
    /// The attributes of the trait: the outer ones stand in front of it, the
    /// inner ones at the start of its body.
    pub attrs: Vec<Token>,
    /// The tokens between the attributes and the supertraits: visibility,
    /// `unsafe`, `auto`, `trait`, the name and the generic parameters.
    pub shell: Vec<Token>,
    /// The supertraits, without the `:` in front of them.
    pub supertraits: Vec<Token>,
    /// The where clause, which stands in front of the opening brace.
    pub where_clause: Vec<Token>,
    /// The members, in source order.
    pub members: Vec<Member>,
}

/// The mathematical value of a [`TraitBlock`].
pub struct BlockModel {
    pub attrs: Seq<Tree>,
    pub shell: Seq<Tree>,
    pub supertraits: Seq<Tree>,
    pub where_clause: Seq<Tree>,
    pub members: Seq<MemberModel>,
}

impl BlockModel {
    /// The supertraits as written: after a `:` if there are any.
    pub open spec fn supertraits_tokens(self) -> Seq<Tree> {
        if self.supertraits.len() > 0 {
            seq![punct_tree(':')] + self.supertraits
        } else {
            Seq::empty()
        }
    }

    /// Everything in front of the opening brace of the trait.
    pub open spec fn frame(self) -> Seq<Tree> {
        outer_attributes(self.attrs) + self.shell + self.supertraits_tokens() + self.where_clause
    }
}

/// The values of a sequence of members, in order.
pub open spec fn member_models(members: Seq<Member>) -> Seq<MemberModel> {
    members.map_values(|m: Member| m@)
}

impl View for TraitBlock {
    type V = BlockModel;

    open spec fn view(&self) -> BlockModel {
        BlockModel {
            attrs: trees(self.attrs@),
            shell: trees(self.shell@),
            supertraits: trees(self.supertraits@),
            where_clause: trees(self.where_clause@),
            members: member_models(self.members@),
        }
    }
}

impl TraitBlock {
    /// Everything in front of the opening brace of the trait, as tokens.
    pub fn write_frame(&self) -> (tokens: Vec<Token>)
        ensures
            trees(tokens@) == self@.frame(),
    {
        let mut tokens: Vec<Token> = Vec::new();
        assert(trees(tokens@) =~= Seq::<Tree>::empty());
        append_attributes(&mut tokens, &self.attrs, false);
        append_tokens(&mut tokens, &self.shell);
        let ghost head = trees(tokens@);
        if self.supertraits.len() > 0 {
            let colon = Token::punct(':');
            proof {
                lemma_trees_push(tokens@, colon);
            }
            tokens.push(colon);
            append_tokens(&mut tokens, &self.supertraits);
        }
        assert(trees(tokens@) =~= head + self@.supertraits_tokens());
        append_tokens(&mut tokens, &self.where_clause);
        assert(trees(tokens@) =~= self@.frame());
        tokens
    }
}

/// Whether no member that must carry a default lacks one.
pub open spec fn all_defaulted(members: Seq<MemberModel>) -> bool {
    forall|i: int| 0 <= i < members.len() ==> !(#[trigger] members[i]).lacks_default()
}

/// Whether `index` is the first member that must carry a default and lacks it.
pub open spec fn is_first_defaultless(members: Seq<MemberModel>, index: int) -> bool {
    &&& 0 <= index < members.len()
    &&& members[index].lacks_default()
    &&& all_defaulted(members.take(index))
}

/// The declaration halves: every interpreted member, in order, without its
/// default. An uninterpreted member cannot be split and is left out.
pub open spec fn declared_members(members: Seq<MemberModel>) -> Seq<MemberModel> {
    members.filter(|m: MemberModel| m.kind != MemberKind::Verbatim).map_values(
        |m: MemberModel| m.declared(),
    )
}

/// The binding halves: every interpreted member, in order, with its default.
/// An uninterpreted member is left out here too.
pub open spec fn bound_members(members: Seq<MemberModel>) -> Seq<MemberModel> {
    members.filter(|m: MemberModel| m.kind != MemberKind::Verbatim).map_values(
        |m: MemberModel| m.bound(),
    )
}

/// The members written out as tokens, one after the other.
pub open spec fn member_tokens(members: Seq<MemberModel>) -> Seq<Tree> {
    members.map_values(|m: MemberModel| m.tokens()).flatten()
}

/// Splits the members of a block into declaration halves and binding
/// halves. A macro invocation or other uninterpreted member is skipped: it
/// raises no error and reaches neither side. Fails at the first interpreted
/// member that lacks a default, with no output and with the place of that
/// member.
pub fn split_members(members: &Vec<Member>) -> (result: Result<(Vec<Member>, Vec<Member>), ExpandError>)
    ensures
        match result {
            Ok(halves) => {
                &&& all_defaulted(member_models(members@))
                &&& member_models(halves.0@) == declared_members(member_models(members@))
                &&& member_models(halves.1@) == bound_members(member_models(members@))
            },
            Err(error) => {
                &&& error matches ExpandError::MissingDefault { index, kind, line, column }
                &&& is_first_defaultless(member_models(members@), index as int)
                &&& kind == member_models(members@)[index as int].kind
                &&& line == member_models(members@)[index as int].line
                &&& column == member_models(members@)[index as int].column
            },
        },
{
    let ghost all = member_models(members@);
    let ghost interpreted = |m: MemberModel| m.kind != MemberKind::Verbatim;
    let ghost to_bound = |m: MemberModel| m.bound();
    let ghost to_declared = |m: MemberModel| m.declared();
    let mut declared: Vec<Member> = Vec::new();
    let mut bound: Vec<Member> = Vec::new();
    let mut i: usize = 0;
    assert(member_models(declared@) =~= declared_members(all.take(0)));
    assert(all.take(0) =~= Seq::<MemberModel>::empty());
    assert(member_models(bound@) =~= bound_members(all.take(0)));
    while i < members.len()
        invariant
            i <= members.len(),
            all == member_models(members@),
            interpreted == |m: MemberModel| m.kind != MemberKind::Verbatim,
            to_bound == |m: MemberModel| m.bound(),
            to_declared == |m: MemberModel| m.declared(),
            all_defaulted(all.take(i as int)),
            member_models(declared@) == declared_members(all.take(i as int)),
            member_models(bound@) == bound_members(all.take(i as int)),
        decreases members.len() - i,
    {
        let member = &members[i];
        assert(member@ == all[i as int]);
        if member.lacks_default() {
            return Err(
                ExpandError::MissingDefault {
                    index: i,
                    kind: member.kind,
                    line: member.line,
                    column: member.column,
                },
            );
        }
        let ghost before = all.take(i as int);
        let ghost after = all.take(i as int + 1);
        proof {
            assert(after =~= before.push(all[i as int]));
            assert(all_defaulted(after)) by {
                assert forall|k: int| 0 <= k < after.len() implies !(#[trigger] after[k]).lacks_default() by {
                    if k < i {
                        assert(after[k] == before[k]);
                    }
                }
            }
            before.lemma_filter_push(all[i as int], interpreted);
        }
        match member.kind {
            MemberKind::Verbatim => {
                assert(declared_members(after) == declared_members(before));
                assert(bound_members(after) == bound_members(before));
            },
            _ => {
                let half = member.declared();
                let ghost declared_before = declared@;
                declared.push(half);
                assert(member_models(declared@) =~= member_models(declared_before).push(half@));
                assert(before.filter(interpreted).push(all[i as int]).map_values(to_declared)
                    =~= before.filter(interpreted).map_values(to_declared).push(
                    all[i as int].declared(),
                ));
                assert(member_models(declared@) =~= declared_members(after));
                let half = member.bound();
                let ghost bound_before = bound@;
                bound.push(half);
                assert(member_models(bound@) =~= member_models(bound_before).push(half@));
                assert(before.filter(interpreted).push(all[i as int]).map_values(to_bound)
                    =~= before.filter(interpreted).map_values(to_bound).push(
                    all[i as int].bound(),
                ));
                assert(member_models(bound@) =~= bound_members(after));
            },
        }
        i += 1;
    }
    assert(all.take(members.len() as int) =~= all);
    Ok((declared, bound))
}

/// Writes the members out as tokens, one after the other.
pub fn write_members(members: &Vec<Member>) -> (tokens: Vec<Token>)
    ensures
        trees(tokens@) == member_tokens(member_models(members@)),
{
    let ghost all = member_models(members@);
    let ghost print = |m: MemberModel| m.tokens();
    let mut tokens: Vec<Token> = Vec::new();
    let mut i: usize = 0;
    assert(all.take(0) =~= Seq::<MemberModel>::empty());
    assert(all.take(0).map_values(print) =~= Seq::<Seq<Tree>>::empty());
    assert(trees(tokens@) =~= member_tokens(all.take(0)));
    while i < members.len()
        invariant
            i <= members.len(),
            all == member_models(members@),
            print == |m: MemberModel| m.tokens(),
            trees(tokens@) == member_tokens(all.take(i as int)),
        decreases members.len() - i,
    {
        proof {
            let before = all.take(i as int);
            let after = all.take(i as int + 1);
            assert(after =~= before.push(all[i as int]));
            assert(after.map_values(print) =~= before.map_values(print).push(
                all[i as int].tokens(),
            ));
            before.map_values(print).lemma_flatten_push(all[i as int].tokens());
        }
        members[i].write_tokens(&mut tokens);
        i += 1;
    }
    assert(all.take(members.len() as int) =~= all);
    tokens
}

/// A missing default is fatal: the split fails exactly when some
/// interpreted member lacks a default, and then names the first one.
pub proof fn lemma_defaultless_is_rejected(members: Seq<MemberModel>, index: int)
    requires
        0 <= index < members.len(),
        members[index].lacks_default(),
    ensures
        !all_defaulted(members),
        exists|first: int| 0 <= first <= index && is_first_defaultless(members, first),
    decreases index,
{
    if all_defaulted(members.take(index)) {
        assert(is_first_defaultless(members, index));
    } else {
        let earlier = choose|k: int|
            0 <= k < members.take(index).len() && (#[trigger] members.take(index)[k]).lacks_default();
        assert(members.take(index)[earlier] == members[earlier]);
        lemma_defaultless_is_rejected(members, earlier);
    }
}

/// An uninterpreted member is skipped: it is never the member that lacks a
/// default, and neither side holds a member of its kind.
pub proof fn lemma_uninterpreted_is_skipped(members: Seq<MemberModel>)
    ensures
        forall|i: int|
            0 <= i < members.len() && (#[trigger] members[i]).kind == MemberKind::Verbatim
                ==> !members[i].lacks_default(),
        forall|j: int|
            0 <= j < declared_members(members).len() ==> (#[trigger] declared_members(
                members,
            )[j]).kind != MemberKind::Verbatim,
        forall|j: int|
            0 <= j < bound_members(members).len() ==> (#[trigger] bound_members(members)[j]).kind
                != MemberKind::Verbatim,
{
    let interpreted = |m: MemberModel| m.kind != MemberKind::Verbatim;
    let kept = members.filter(interpreted);
    assert forall|j: int| 0 <= j < kept.len() implies (#[trigger] kept[j]).kind
        != MemberKind::Verbatim by {
        members.lemma_filter_pred(interpreted, j);
    }
    assert forall|j: int| 0 <= j < declared_members(members).len() implies (
    #[trigger] declared_members(members)[j]).kind != MemberKind::Verbatim by {
        assert(declared_members(members)[j] == kept[j].declared());
    }
    assert forall|j: int| 0 <= j < bound_members(members).len() implies (#[trigger] bound_members(
        members,
    )[j]).kind != MemberKind::Verbatim by {
        assert(bound_members(members)[j] == kept[j].bound());
    }
}

/// Every member with a default appears in the binding with that default
/// untouched, in the order of the block.
pub proof fn lemma_binding_keeps_defaults(members: Seq<MemberModel>)
    ensures
        bound_members(members).len() <= members.len(),
        forall|j: int|
            0 <= j < bound_members(members).len() ==> exists|i: int|
                0 <= i < members.len() && members[i].kind != MemberKind::Verbatim && (
                #[trigger] bound_members(members)[j]) == members[i].bound(),
{
    let interpreted = |m: MemberModel| m.kind != MemberKind::Verbatim;
    let kept = members.filter(interpreted);
    members.lemma_filter_len(interpreted);
    assert forall|j: int| 0 <= j < bound_members(members).len() implies exists|i: int|
        0 <= i < members.len() && members[i].kind != MemberKind::Verbatim && (
        #[trigger] bound_members(members)[j]) == members[i].bound() by {
        members.lemma_filter_pred(interpreted, j);
        members.lemma_filter_contains_rev(interpreted, kept[j]);
        assert(kept.contains(kept[j]));
        assert(members.contains(kept[j]));
        let i = choose|i: int| 0 <= i < members.len() && members[i] == kept[j];
        assert(members[i].kind != MemberKind::Verbatim);
        assert(bound_members(members)[j] == members[i].bound());
    }
}

} // verus!
