//! Where the two splitters agree. The scanning splitter sees tokens, not
//! members, so it can only follow the structured one on members whose
//! tokens do not mislead it.

use vstd::prelude::*;
use crate::attribute::{inner_attributes, outer_attributes};
use crate::block::{bound_members, declared_members, member_tokens, BlockModel};
use crate::emit::{braced, expansion, scanned_expansion};
use crate::header::HeaderModel;
use crate::member::{MemberKind, MemberModel};
use crate::scan::{
    binding_stream, class_of, declaration_stream, has_no_default,
    lemma_binding_keeps_every_token, lemma_defaultless_passes_through, state_after, ScanState,
    TokenClass,
};
use crate::token::{punct_tree, Tree};

verus! {

/// Whether no token of `tokens` ends a default value or is a body: a scan
/// that is inside a default value stays inside it.
pub open spec fn is_plain_value(tokens: Seq<Tree>) -> bool {
    forall|i: int|
        0 <= i < tokens.len() ==> class_of(#[trigger] tokens[i]) != TokenClass::Body && class_of(
            tokens[i],
        ) != TokenClass::Boundary
}

/// Whether the scan reads `member` as the parser does: it is interpreted
/// and has a default; nothing in front of the default looks like one; a
/// function's default is one brace group; the default of a type or constant
/// holds no `;`, member keyword or brace group; and there are no bounds and
/// no where clause, which the two splitters place differently.
pub open spec fn scans_cleanly(member: MemberModel) -> bool {
    &&& member.kind != MemberKind::Verbatim
    &&& member.bounds.len() == 0
    &&& member.trailer.len() == 0
    &&& has_no_default(outer_attributes(member.attrs) + member.signature)
    &&& member.default matches Some(payload)
    &&& if member.kind == MemberKind::Behavior {
        payload.len() == 1 && class_of(payload[0]) == TokenClass::Body
    } else {
        is_plain_value(payload)
    }
}

/// Whether the scan reads every member of `members` as the parser does.
pub open spec fn all_scan_cleanly(members: Seq<MemberModel>) -> bool {
    forall|i: int| 0 <= i < members.len() ==> scans_cleanly(#[trigger] members[i])
}

/// After tokens that leave the scan in `Signature`, the scan of what
/// follows does not depend on them.
pub proof fn lemma_scan_restarts(before: Seq<Tree>, after: Seq<Tree>)
    requires
        state_after(before) == ScanState::Signature,
    ensures
        state_after(before + after) == state_after(after),
        declaration_stream(before + after) == declaration_stream(before) + declaration_stream(
            after,
        ),
    decreases after.len(),
{
    if after.len() == 0 {
        assert(before + after =~= before);
        assert(declaration_stream(before) + declaration_stream(after) =~= declaration_stream(
            before,
        ));
    } else {
        let whole = before + after;
        assert(whole.drop_last() =~= before + after.drop_last());
        assert(whole.last() == after.last());
        lemma_scan_restarts(before, after.drop_last());
        assert(declaration_stream(whole) =~= declaration_stream(before) + declaration_stream(
            after,
        ));
    }
}

/// A `=` followed by a plain value adds nothing to the declaration and
/// leaves the scan inside the default value.
pub proof fn lemma_plain_value_is_skipped(value: Seq<Tree>)
    requires
        is_plain_value(value),
    ensures
        state_after(seq![punct_tree('=')] + value) == ScanState::DefaultValue,
        declaration_stream(seq![punct_tree('=')] + value) == Seq::<Tree>::empty(),
    decreases value.len(),
{
    let whole = seq![punct_tree('=')] + value;
    if value.len() == 0 {
        let nothing = Seq::<Tree>::empty();
        assert(whole.drop_last() =~= nothing);
        assert(whole.last() == punct_tree('='));
        assert(state_after(nothing) == ScanState::Signature);
        assert(declaration_stream(nothing) =~= nothing);
        assert(declaration_stream(whole) =~= nothing);
    } else {
        let shorter = value.drop_last();
        assert(is_plain_value(shorter)) by {
            assert forall|i: int| 0 <= i < shorter.len() implies class_of(#[trigger] shorter[i])
                != TokenClass::Body && class_of(shorter[i]) != TokenClass::Boundary by {
                assert(shorter[i] == value[i]);
            }
        }
        lemma_plain_value_is_skipped(shorter);
        assert(whole.drop_last() =~= seq![punct_tree('=')] + shorter);
        assert(whole.last() == value[value.len() - 1]);
        assert(declaration_stream(whole) =~= Seq::<Tree>::empty());
    }
}

/// On a member that scans cleanly the two splitters write the same halves,
/// and the scan is back in `Signature` after it.
pub proof fn lemma_member_scans_as_split(member: MemberModel)
    requires
        scans_cleanly(member),
    ensures
        declaration_stream(member.tokens()) == member.declared().tokens(),
        binding_stream(member.tokens()) == member.bound().tokens(),
        state_after(member.tokens()) == ScanState::Signature,
{
    let head = outer_attributes(member.attrs) + member.signature;
    let payload = member.default->Some_0;
    let semi = punct_tree(';');
    lemma_defaultless_passes_through(head);
    lemma_binding_keeps_every_token(member.tokens());
    assert(member.bound() == member) by {
        assert(member.bounds =~= Seq::<Tree>::empty());
    }
    assert(member.declared().tokens() =~= head + seq![semi]);
    if member.kind == MemberKind::Behavior {
        let whole = head + payload;
        assert(member.tokens() =~= whole);
        assert(payload =~= seq![payload[0]]);
        assert(whole.drop_last() =~= head);
        assert(whole.last() == payload[0]);
        assert(declaration_stream(whole) =~= head + seq![semi]);
    } else {
        let value = seq![punct_tree('=')] + payload;
        let tail = value + seq![semi];
        assert(member.tokens() =~= head + tail);
        lemma_plain_value_is_skipped(payload);
        assert(tail.drop_last() =~= value);
        assert(tail.last() == semi);
        assert(declaration_stream(tail) =~= seq![semi]);
        lemma_scan_restarts(head, tail);
    }
}

/// The tokens of members grow by the tokens of a member put at their end.
proof fn lemma_member_tokens_push(members: Seq<MemberModel>, last: MemberModel)
    ensures
        member_tokens(members.push(last)) == member_tokens(members) + last.tokens(),
{
    let print = |m: MemberModel| m.tokens();
    assert(members.push(last).map_values(print) =~= members.map_values(print).push(last.tokens()));
    members.map_values(print).lemma_flatten_push(last.tokens());
}

/// The halves of members grow by the halves of an interpreted member put at
/// their end.
proof fn lemma_halves_push(members: Seq<MemberModel>, last: MemberModel)
    requires
        last.kind != MemberKind::Verbatim,
    ensures
        declared_members(members.push(last)) == declared_members(members).push(last.declared()),
        bound_members(members.push(last)) == bound_members(members).push(last.bound()),
{
    let interpreted = |m: MemberModel| m.kind != MemberKind::Verbatim;
    let to_bound = |m: MemberModel| m.bound();
    let to_declared = |m: MemberModel| m.declared();
    members.lemma_filter_push(last, interpreted);
    let kept = members.filter(interpreted);
    assert(kept.push(last).map_values(to_declared) =~= kept.map_values(to_declared).push(
        last.declared(),
    ));
    assert(kept.push(last).map_values(to_bound) =~= kept.map_values(to_bound).push(last.bound()));
}

/// On members that all scan cleanly the two splitters write the same
/// declaration side and the same binding side.
pub proof fn lemma_members_scan_as_split(members: Seq<MemberModel>)
    requires
        all_scan_cleanly(members),
    ensures
        declaration_stream(member_tokens(members)) == member_tokens(declared_members(members)),
        binding_stream(member_tokens(members)) == member_tokens(bound_members(members)),
        state_after(member_tokens(members)) == ScanState::Signature,
    decreases members.len(),
{
    lemma_binding_keeps_every_token(member_tokens(members));
    if members.len() == 0 {
        let print = |m: MemberModel| m.tokens();
        let interpreted = |m: MemberModel| m.kind != MemberKind::Verbatim;
        members.lemma_filter_len(interpreted);
        assert(members.filter(interpreted) =~= Seq::<MemberModel>::empty());
        assert(members.map_values(print) =~= Seq::<Seq<Tree>>::empty());
        assert(declared_members(members).map_values(print) =~= Seq::<Seq<Tree>>::empty());
        assert(bound_members(members).map_values(print) =~= Seq::<Seq<Tree>>::empty());
    } else {
        let rest = members.drop_last();
        let last = members.last();
        assert(all_scan_cleanly(rest)) by {
            assert forall|i: int| 0 <= i < rest.len() implies scans_cleanly(#[trigger] rest[i]) by {
                assert(rest[i] == members[i]);
            }
        }
        assert(scans_cleanly(members[members.len() - 1]));
        assert(members =~= rest.push(last));
        lemma_members_scan_as_split(rest);
        lemma_member_scans_as_split(last);
        lemma_binding_keeps_every_token(member_tokens(rest));
        lemma_member_tokens_push(rest, last);
        lemma_halves_push(rest, last);
        lemma_member_tokens_push(declared_members(rest), last.declared());
        lemma_member_tokens_push(bound_members(rest), last.bound());
        lemma_scan_restarts(member_tokens(rest), last.tokens());
    }
}

/// The two strategies write the same output for a block whose members all
/// scan cleanly and whose attributes, like those of the header, are all
/// outer ones: they can differ only where a member has no default, is not
/// interpreted (the scan copies it to both sides, the parse drops it from
/// both), or misleads the scan.
pub proof fn lemma_strategies_agree(header: HeaderModel, block: BlockModel)
    requires
        all_scan_cleanly(block.members),
        inner_attributes(block.attrs).len() == 0,
        inner_attributes(header.attrs).len() == 0,
    ensures
        scanned_expansion(
            header,
            block.frame().push(braced(member_tokens(block.members))),
        ) == expansion(header, block),
{
    lemma_members_scan_as_split(block.members);
    let shell = block.frame();
    let input = shell.push(braced(member_tokens(block.members)));
    assert(input.drop_last() =~= shell);
    assert(inner_attributes(block.attrs) + member_tokens(declared_members(block.members))
        =~= member_tokens(declared_members(block.members)));
    assert(inner_attributes(header.attrs) + member_tokens(bound_members(block.members))
        =~= member_tokens(bound_members(block.members)));
}

} // verus!
