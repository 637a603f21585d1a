//! Telling inner attributes (`#![...]`) from outer ones (`#[...]`) in a run
//! of attribute tokens.

use vstd::prelude::*;
use crate::token::{Delimiter, Token, Tree, trees, lemma_trees_push};

verus! {

/// Whether `tokens` starts with the three tokens of an inner attribute:
/// `#`, `!` and a bracket group.
pub open spec fn starts_inner_attribute(tokens: Seq<Tree>) -> bool {
    &&& tokens.len() >= 3
    &&& tokens[0].is_punct('#')
    &&& tokens[1].is_punct('!')
    &&& tokens[2].is_group(Delimiter::Bracket)
}

/// The tokens that belong to no inner attribute, in order.
pub open spec fn outer_attributes(tokens: Seq<Tree>) -> Seq<Tree>
    decreases tokens.len(),
{
    if tokens.len() == 0 {
        Seq::empty()
    } else if starts_inner_attribute(tokens) {
        outer_attributes(tokens.skip(3))
    } else {
        seq![tokens[0]] + outer_attributes(tokens.skip(1))
    }
}

/// The tokens of the inner attributes, in order.
pub open spec fn inner_attributes(tokens: Seq<Tree>) -> Seq<Tree>
    decreases tokens.len(),
{
    if tokens.len() == 0 {
        Seq::empty()
    } else if starts_inner_attribute(tokens) {
        tokens.take(3) + inner_attributes(tokens.skip(3))
    } else {
        inner_attributes(tokens.skip(1))
    }
}

/// Whether the tokens of `tokens` from index `at` on start with an inner attribute.
fn inner_attribute_at(tokens: &Vec<Token>, at: usize) -> (yes: bool)
    requires
        at <= tokens.len(),
    ensures
        yes == starts_inner_attribute(trees(tokens@).skip(at as int)),
{
    if tokens.len() - at < 3 {
        return false;
    }
    tokens[at].is_punct('#') && tokens[at + 1].is_punct('!') && tokens[at + 2].is_group(
        Delimiter::Bracket,
    )
}

/// Appends to `out` the outer attributes of `tokens` when `inner` is false
/// and its inner attributes when `inner` is true.
pub fn append_attributes(out: &mut Vec<Token>, tokens: &Vec<Token>, inner: bool)
    ensures
        trees(final(out)@) == trees(old(out)@) + if inner {
            inner_attributes(trees(tokens@))
        } else {
            outer_attributes(trees(tokens@))
        },
{
    let ghost all = trees(tokens@);
    let mut i: usize = 0;
    assert(all.skip(0) =~= all);
    assert(trees(out@) =~= trees(out@) + Seq::<Tree>::empty());
    while i < tokens.len()
        invariant
            i <= tokens.len(),
            all == trees(tokens@),
            inner ==> trees(old(out)@) + inner_attributes(all) == trees(out@) + inner_attributes(
                all.skip(i as int),
            ),
            !inner ==> trees(old(out)@) + outer_attributes(all) == trees(out@) + outer_attributes(
                all.skip(i as int),
            ),
        decreases tokens.len() - i,
    {
        let ghost rest = all.skip(i as int);
        let ghost before = trees(out@);
        if inner_attribute_at(tokens, i) {
            assert(rest.skip(3) =~= all.skip(i as int + 3));
            if inner {
                let a = tokens[i].clone();
                let b = tokens[i + 1].clone();
                let c = tokens[i + 2].clone();
                proof {
                    lemma_trees_push(out@, a);
                    lemma_trees_push(out@.push(a), b);
                    lemma_trees_push(out@.push(a).push(b), c);
                }
                out.push(a);
                out.push(b);
                out.push(c);
                assert(trees(out@) =~= before + rest.take(3));
                assert(before + (rest.take(3) + inner_attributes(rest.skip(3))) =~= (before
                    + rest.take(3)) + inner_attributes(rest.skip(3)));
            }
            i += 3;
        } else {
            assert(rest.skip(1) =~= all.skip(i as int + 1));
            if !inner {
                let a = tokens[i].clone();
                proof {
                    lemma_trees_push(out@, a);
                }
                out.push(a);
                assert(trees(out@) =~= before + seq![rest[0]]);
                assert(before + (seq![rest[0]] + outer_attributes(rest.skip(1))) =~= (before
                    + seq![rest[0]]) + outer_attributes(rest.skip(1)));
            }
            i += 1;
        }
    }
    assert(all.skip(tokens.len() as int).len() == 0);
    assert(trees(out@) + Seq::<Tree>::empty() =~= trees(out@));
}

} // verus!
