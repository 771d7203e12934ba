//! Merging three circles pairwise, in every order.
//!
//! The reduction never looks inside a circle: it is generic over the circle
//! type `C` and over the operation `merge` that covers two circles by one.
//! Its contracts are stated over what `merge` itself guarantees of each call.

use vstd::prelude::*;
use crate::command::{Color, DrawCommand};
use crate::gating::{color_at, lemma_emitted_at, lemma_emitted_len, shown};
use crate::permutation::{Permutation, ORDERINGS};

verus! {

/// The three circles of a scene, at the indices 0, 1 and 2.
pub type CircleSet<C> = [C; 3];

/// The two circles that one ordering produces: `first` covers the first two
/// circles of the ordering, `second` covers `first` and the remaining circle.
#[derive(Clone, Copy, Debug, PartialEq)]
pub struct Merged<C> {
    pub first: C,
    pub second: C,
}

/// `merge` may be called on what ordering `n` hands to it: on the first two
/// circles of the ordering, and on whatever it returns for them together
/// with the remaining circle.
pub open spec fn accepts<C, F: Fn(C, C) -> C>(merge: F, circles: Seq<C>, n: int) -> bool {
    let p = Permutation::nth(n);
    let a = circles[p.first as int];
    let b = circles[p.second as int];
    let c = circles[p.last as int];
    &&& merge.requires((a, b))
    &&& forall|m: C| #[trigger] merge.ensures((a, b), m) ==> merge.requires((m, c))
}

/// `merge` may be called on what each of the orderings hands to it.
pub open spec fn mergeable<C, F: Fn(C, C) -> C>(merge: F, circles: Seq<C>) -> bool {
    forall|n: int| 0 <= n < ORDERINGS ==> #[trigger] accepts(merge, circles, n)
}

/// `m` is what `merge` can return along ordering `n`: `m.first` for the first
/// two circles of the ordering, `m.second` for `m.first` and the remaining
/// circle.
pub open spec fn merged_by<C, F: Fn(C, C) -> C>(
    merge: F,
    circles: Seq<C>,
    n: int,
    m: Merged<C>,
) -> bool {
    let p = Permutation::nth(n);
    &&& merge.ensures((circles[p.first as int], circles[p.second as int]), m.first)
    &&& merge.ensures((m.first, circles[p.last as int]), m.second)
}

/// `merged` holds, for each ordering in table order, what `merge` can return
/// along it.
pub open spec fn all_merged_by<C, F: Fn(C, C) -> C>(
    merge: F,
    circles: Seq<C>,
    merged: Seq<Merged<C>>,
) -> bool {
    &&& merged.len() == ORDERINGS
    &&& forall|n: int| 0 <= n < ORDERINGS ==> merged_by(merge, circles, n, #[trigger] merged[n])
}

/// Merges the three circles along every ordering, whatever is to be drawn.
pub fn merge_all<C: Copy, F: Fn(C, C) -> C>(
    circles: &CircleSet<C>,
    merge: F,
) -> (merged: Vec<Merged<C>>)
    requires
        mergeable(merge, circles@),
    ensures
        all_merged_by(merge, circles@, merged@),
{
    let table = Permutation::all();
    let mut merged: Vec<Merged<C>> = Vec::new();
    let mut n: usize = 0;
    while n < ORDERINGS
        invariant
            n <= ORDERINGS,
            table@ == Permutation::table(),
            mergeable(merge, circles@),
            merged.len() == n,
            forall|k: int| 0 <= k < n ==> merged_by(merge, circles@, k, #[trigger] merged[k]),
        decreases ORDERINGS - n,
    {
        let p = table[n];
        assert(accepts(merge, circles@, n as int));
        let first = merge(circles[p.first], circles[p.second]);
        let second = merge(first, circles[p.last]);
        merged.push(Merged { first, second });
        n += 1;
    }
    merged
}

/// The commands that one ordering contributes: its first circle in green if
/// first merges are shown, then its second circle in red if second merges
/// are shown.
pub open spec fn commands_of<C>(
    m: Merged<C>,
    show_first: bool,
    show_second: bool,
) -> Seq<DrawCommand<C>> {
    let first = if show_first {
        seq![DrawCommand { circle: m.first, color: Color::green() }]
    } else {
        Seq::empty()
    };
    let second = if show_second {
        seq![DrawCommand { circle: m.second, color: Color::red() }]
    } else {
        Seq::empty()
    };
    first + second
}

/// The commands of all of `merged`, ordering after ordering.
pub open spec fn emitted<C>(
    merged: Seq<Merged<C>>,
    show_first: bool,
    show_second: bool,
) -> Seq<DrawCommand<C>>
    decreases merged.len(),
{
    if merged.len() == 0 {
        Seq::empty()
    } else {
        let before = emitted(merged.drop_last(), show_first, show_second);
        before + commands_of(merged.last(), show_first, show_second)
    }
}

/// `commands` is what a reduction of `circles` by `merge` can yield under
/// the two flags.
pub open spec fn is_reduction<C, F: Fn(C, C) -> C>(
    merge: F,
    circles: Seq<C>,
    show_first: bool,
    show_second: bool,
    commands: Seq<DrawCommand<C>>,
) -> bool {
    exists|merged: Seq<Merged<C>>|
        {
            &&& #[trigger] all_merged_by(merge, circles, merged)
            &&& commands == emitted(merged, show_first, show_second)
        }
}

/// Turns merged circles into draw commands. The flags decide what is drawn,
/// not what has been merged.
pub fn emit<C: Copy>(
    merged: &[Merged<C>],
    show_first: bool,
    show_second: bool,
) -> (commands: Vec<DrawCommand<C>>)
    ensures
        commands@ == emitted(merged@, show_first, show_second),
{
    let mut commands: Vec<DrawCommand<C>> = Vec::new();
    let mut n: usize = 0;
    while n < merged.len()
        invariant
            n <= merged.len(),
            commands@ == emitted(merged@.take(n as int), show_first, show_second),
        decreases merged.len() - n,
    {
        let m = merged[n];
        if show_first {
            commands.push(DrawCommand { circle: m.first, color: Color::green() });
        }
        if show_second {
            commands.push(DrawCommand { circle: m.second, color: Color::red() });
        }
        proof {
            assert(merged@.take(n + 1).drop_last() == merged@.take(n as int));
        }
        n += 1;
    }
    proof {
        assert(merged@.take(merged.len() as int) == merged@);
    }
    commands
}

/// Merges three circles pairwise along every ordering and yields, ordering
/// after ordering, the circles to draw: the cover of the first two circles
/// in green, then the cover of all three in red, each only if its flag is
/// set. All merges are made whatever the flags are.
pub fn reduce<C: Copy, F: Fn(C, C) -> C>(
    circles: &CircleSet<C>,
    merge: F,
    show_first: bool,
    show_second: bool,
) -> (commands: Vec<DrawCommand<C>>)
    requires
        mergeable(merge, circles@),
    ensures
        is_reduction(merge, circles@, show_first, show_second, commands@),
        commands@.len() == ORDERINGS * shown(show_first, show_second),
        forall|i: int|
            0 <= i < commands@.len() ==> {
                (#[trigger] commands@[i]).color == color_at(show_first, show_second, i)
            },
{
    let merged = merge_all(circles, merge);
    let commands = emit(merged.as_slice(), show_first, show_second);
    proof {
        lemma_emitted_len(merged@, show_first, show_second);
        assert forall|i: int| 0 <= i < commands@.len() implies {
            (#[trigger] commands@[i]).color == color_at(show_first, show_second, i)
        } by {
            lemma_emitted_at(merged@, show_first, show_second, i);
        }
    }
    commands
}

} // verus!
