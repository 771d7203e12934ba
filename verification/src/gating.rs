//! What the two flags let through: how many commands are emitted, and which
//! command stands where.

use vstd::prelude::*;
use crate::command::{Color, DrawCommand};
use crate::reduce::{emitted, Merged};

verus! {

/// How many commands each ordering contributes under the flags.
pub open spec fn shown(show_first: bool, show_second: bool) -> int {
    if show_first && show_second {
        2
    } else if show_first || show_second {
        1
    } else {
        0
    }
}

/// The colour of the command at place `i` of what is emitted: green for the
/// first circle of an ordering, red for its second.
pub open spec fn color_at(show_first: bool, show_second: bool, i: int) -> Color {
    if show_first && i % shown(show_first, show_second) == 0 {
        Color::green()
    } else {
        Color::red()
    }
}

/// The command at place `i` of what is emitted for `merged`: orderings follow
/// each other in the order of `merged`, and within an ordering the first
/// circle precedes the second.
pub open spec fn command_at<C>(
    merged: Seq<Merged<C>>,
    show_first: bool,
    show_second: bool,
    i: int,
) -> DrawCommand<C> {
    let per = shown(show_first, show_second);
    let m = merged[i / per];
    DrawCommand {
        circle: if show_first && i % per == 0 {
            m.first
        } else {
            m.second
        },
        color: color_at(show_first, show_second, i),
    }
}

/// Each ordering contributes one command for each flag that is set.
pub proof fn lemma_emitted_len<C>(merged: Seq<Merged<C>>, show_first: bool, show_second: bool)
    ensures
        emitted(merged, show_first, show_second).len()
            == merged.len() * shown(show_first, show_second),
    decreases merged.len(),
{
    if merged.len() > 0 {
        let per = shown(show_first, show_second);
        lemma_emitted_len(merged.drop_last(), show_first, show_second);
        assert((merged.len() - 1) * per + per == merged.len() * per) by (nonlinear_arith);
    }
}

/// With both flags clear nothing is emitted.
pub proof fn lemma_emitted_nothing<C>(merged: Seq<Merged<C>>)
    ensures
        emitted(merged, false, false) == Seq::<DrawCommand<C>>::empty(),
{
    lemma_emitted_len(merged, false, false);
}

/// What is emitted holds at every place the command that `command_at` names.
pub proof fn lemma_emitted_at<C>(
    merged: Seq<Merged<C>>,
    show_first: bool,
    show_second: bool,
    i: int,
)
    requires
        0 <= i < merged.len() * shown(show_first, show_second),
    ensures
        emitted(merged, show_first, show_second)[i]
            == command_at(merged, show_first, show_second, i),
    decreases merged.len(),
{
    let per = shown(show_first, show_second);
    let init = merged.drop_last();
    lemma_emitted_len(init, show_first, show_second);
    if i < init.len() * per {
        lemma_emitted_at(init, show_first, show_second, i);
    }
}

} // verus!
