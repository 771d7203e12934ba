//! The orderings in which three circles are merged.

use vstd::prelude::*;

verus! {

/// How many orderings three circles have.
pub const ORDERINGS: usize = 6;

/// One ordering of the three circle indices: `first` and `second` are merged
/// first, `last` is merged into their result.
#[derive(Clone, Copy, Debug, PartialEq, Eq, Structural)]
pub struct Permutation {
    pub first: usize,
    pub second: usize,
    pub last: usize,
}

impl Permutation {
    /// The three positions name each of the indices 0, 1, 2 exactly once.
    pub open spec fn wf(self) -> bool {
        &&& self.first < 3
        &&& self.second < 3
        &&& self.last < 3
        &&& self.first != self.second
        &&& self.first != self.last
        &&& self.second != self.last
    }

    /// The table of all orderings, in lexicographic order.
    pub open spec fn table() -> Seq<Permutation> {
        seq![
            Permutation { first: 0, second: 1, last: 2 },
            Permutation { first: 0, second: 2, last: 1 },
            Permutation { first: 1, second: 0, last: 2 },
            Permutation { first: 1, second: 2, last: 0 },
            Permutation { first: 2, second: 0, last: 1 },
            Permutation { first: 2, second: 1, last: 0 },
        ]
    }

    /// Entry `n` of the table.
    pub open spec fn nth(n: int) -> Permutation {
        Self::table()[n]
    }

    /// Where an ordering stands in the table: orderings that begin with a
    /// smaller index come first, and of two that begin alike the one whose
    /// second index is smaller.
    pub open spec fn position(self) -> int {
        2 * self.first + if self.second < self.last {
            0int
        } else {
            1int
        }
    }

    /// The table of all orderings.
    pub fn all() -> (table: [Permutation; ORDERINGS])
        ensures
            table@ == Self::table(),
    {
        let table = [
            Permutation { first: 0, second: 1, last: 2 },
            Permutation { first: 0, second: 2, last: 1 },
            Permutation { first: 1, second: 0, last: 2 },
            Permutation { first: 1, second: 2, last: 0 },
            Permutation { first: 2, second: 0, last: 1 },
            Permutation { first: 2, second: 1, last: 0 },
        ];
        assert(table@ =~= Self::table());
        table
    }
}

/// The table has six entries. Each names each of the three indices exactly
/// once and stands in the table at its own position.
pub proof fn lemma_table_holds_permutations(n: int)
    requires
        0 <= n < ORDERINGS,
    ensures
        Permutation::table().len() == ORDERINGS,
        Permutation::nth(n).wf(),
        Permutation::nth(n).position() == n,
{
}

/// Every ordering of the three indices is in the table, at its position.
pub proof fn lemma_table_is_complete(p: Permutation)
    requires
        p.wf(),
    ensures
        0 <= p.position() < ORDERINGS,
        Permutation::nth(p.position()) == p,
{
}

/// No ordering stands in the table twice.
pub proof fn lemma_table_entries_differ(n: int, m: int)
    requires
        0 <= n < ORDERINGS,
        0 <= m < ORDERINGS,
        n != m,
    ensures
        Permutation::nth(n) != Permutation::nth(m),
{
    lemma_table_holds_permutations(n);
    lemma_table_holds_permutations(m);
}

} // verus!
