//! What a reduction yields, given what is known of `merge`.

use vstd::prelude::*;
use crate::command::DrawCommand;
use crate::gating::{command_at, lemma_emitted_at, lemma_emitted_len, shown};
use crate::permutation::{Permutation, ORDERINGS};
use crate::reduce::{all_merged_by, emitted, is_reduction, mergeable, merged_by, Merged};

verus! {

/// `merge` returns one result for one pair of circles.
pub open spec fn deterministic<C, F: Fn(C, C) -> C>(merge: F) -> bool {
    forall|a: C, b: C, r1: C, r2: C|
        #![trigger merge.ensures((a, b), r1), merge.ensures((a, b), r2)]
        merge.ensures((a, b), r1) && merge.ensures((a, b), r2) ==> r1 == r2
}

/// `merge` takes any two circles that are `valid`, and what it returns for
/// them is `valid` too.
pub open spec fn keeps<C, F: Fn(C, C) -> C>(merge: F, valid: spec_fn(C) -> bool) -> bool {
    &&& forall|a: C, b: C| valid(a) && valid(b) ==> #[trigger] merge.requires((a, b))
    &&& forall|a: C, b: C, r: C|
        valid(a) && valid(b) && #[trigger] merge.ensures((a, b), r) ==> valid(r)
}

/// `merge` returns for every pair of circles what `f` says.
pub open spec fn computes<C, F: Fn(C, C) -> C>(merge: F, f: spec_fn(C, C) -> C) -> bool {
    forall|a: C, b: C, r: C| #[trigger] merge.ensures((a, b), r) ==> r == f(a, b)
}

/// The two circles of ordering `n` where merging is the function `f`.
pub open spec fn merged_along<C>(f: spec_fn(C, C) -> C, circles: Seq<C>, n: int) -> Merged<C> {
    let p = Permutation::nth(n);
    let first = f(circles[p.first as int], circles[p.second as int]);
    Merged { first, second: f(first, circles[p.last as int]) }
}

/// The commands of a reduction where merging is the function `f`.
pub open spec fn reduction<C>(
    f: spec_fn(C, C) -> C,
    circles: Seq<C>,
    show_first: bool,
    show_second: bool,
) -> Seq<DrawCommand<C>> {
    emitted(
        Seq::new(ORDERINGS as nat, |n: int| merged_along(f, circles, n)),
        show_first,
        show_second,
    )
}

/// Some merging of the circles along every ordering from which `commands`
/// are emitted, where they are a reduction.
spec fn witness<C, F: Fn(C, C) -> C>(
    merge: F,
    circles: Seq<C>,
    show_first: bool,
    show_second: bool,
    commands: Seq<DrawCommand<C>>,
) -> Seq<Merged<C>> {
    choose|merged: Seq<Merged<C>>|
        {
            &&& #[trigger] all_merged_by(merge, circles, merged)
            &&& commands == emitted(merged, show_first, show_second)
        }
}

/// A reduction yields six commands for each flag that is set, and command
/// `i` is the one that `command_at` names for some merging of the circles
/// along every ordering.
pub proof fn lemma_reduction_gated<C, F: Fn(C, C) -> C>(
    merge: F,
    circles: Seq<C>,
    show_first: bool,
    show_second: bool,
    commands: Seq<DrawCommand<C>>,
)
    requires
        is_reduction(merge, circles, show_first, show_second, commands),
    ensures
        commands.len() == ORDERINGS * shown(show_first, show_second),
        exists|merged: Seq<Merged<C>>|
            {
                &&& #[trigger] all_merged_by(merge, circles, merged)
                &&& forall|i: int|
                    0 <= i < commands.len() ==> {
                        #[trigger] commands[i] == command_at(merged, show_first, show_second, i)
                    }
            },
{
    let merged = witness(merge, circles, show_first, show_second, commands);
    lemma_emitted_len(merged, show_first, show_second);
    assert forall|i: int| 0 <= i < commands.len() implies {
        #[trigger] commands[i] == command_at(merged, show_first, show_second, i)
    } by {
        lemma_emitted_at(merged, show_first, show_second, i);
    }
}

/// Two reductions of the same circles under the same flags yield the same
/// commands, provided that `merge` returns one result for one pair.
pub proof fn lemma_reduction_unique<C, F: Fn(C, C) -> C>(
    merge: F,
    circles: Seq<C>,
    show_first: bool,
    show_second: bool,
    once: Seq<DrawCommand<C>>,
    again: Seq<DrawCommand<C>>,
)
    requires
        deterministic(merge),
        is_reduction(merge, circles, show_first, show_second, once),
        is_reduction(merge, circles, show_first, show_second, again),
    ensures
        once == again,
{
    let m1 = witness(merge, circles, show_first, show_second, once);
    let m2 = witness(merge, circles, show_first, show_second, again);
    assert(m1 =~= m2);
}

/// Where `merge` returns what the function `f` says, a reduction yields
/// exactly the commands of `reduction` for `f`.
pub proof fn lemma_reduction_computed<C, F: Fn(C, C) -> C>(
    merge: F,
    f: spec_fn(C, C) -> C,
    circles: Seq<C>,
    show_first: bool,
    show_second: bool,
    commands: Seq<DrawCommand<C>>,
)
    requires
        computes(merge, f),
        is_reduction(merge, circles, show_first, show_second, commands),
    ensures
        commands == reduction(f, circles, show_first, show_second),
{
    let merged = witness(merge, circles, show_first, show_second, commands);
    let expected = Seq::new(ORDERINGS as nat, |n: int| merged_along(f, circles, n));
    assert(merged =~= expected);
}

/// Three circles that are `valid` can be reduced by a `merge` that keeps
/// circles `valid`.
pub proof fn lemma_valid_circles_are_mergeable<C, F: Fn(C, C) -> C>(
    merge: F,
    valid: spec_fn(C) -> bool,
    circles: Seq<C>,
)
    requires
        circles.len() == 3,
        keeps(merge, valid),
        forall|i: int| 0 <= i < 3 ==> valid(#[trigger] circles[i]),
    ensures
        mergeable(merge, circles),
{
}

/// Where the three circles are `valid` and `merge` keeps circles `valid`,
/// both circles of every ordering are `valid`.
pub proof fn lemma_merged_circles_are_valid<C, F: Fn(C, C) -> C>(
    merge: F,
    valid: spec_fn(C) -> bool,
    circles: Seq<C>,
    n: int,
    m: Merged<C>,
)
    requires
        circles.len() == 3,
        0 <= n < ORDERINGS,
        keeps(merge, valid),
        forall|i: int| 0 <= i < 3 ==> valid(#[trigger] circles[i]),
        merged_by(merge, circles, n, m),
    ensures
        valid(m.first),
        valid(m.second),
{
}

/// Where `merge` returns a circle that covers both of its arguments, and
/// covering carries over from circle to circle, the first circle of an
/// ordering covers the two circles it was merged from and the second circle
/// covers all three.
pub proof fn lemma_second_covers_all<C, F: Fn(C, C) -> C>(
    merge: F,
    covers: spec_fn(C, C) -> bool,
    circles: Seq<C>,
    n: int,
    m: Merged<C>,
)
    requires
        circles.len() == 3,
        0 <= n < ORDERINGS,
        forall|a: C, b: C, r: C| #[trigger]
            merge.ensures((a, b), r) ==> covers(r, a) && covers(r, b),
        forall|a: C, b: C, c: C|
            #![trigger covers(a, b), covers(b, c)]
            covers(a, b) && covers(b, c) ==> covers(a, c),
        merged_by(merge, circles, n, m),
    ensures
        covers(m.first, circles[Permutation::nth(n).first as int]),
        covers(m.first, circles[Permutation::nth(n).second as int]),
        forall|i: int| 0 <= i < 3 ==> covers(m.second, #[trigger] circles[i]),
{
}

} // verus!
