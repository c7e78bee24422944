//! Tile, meld and hand model.
//!
//! A tile kind is an integer in 0..34: man 0-8, pin 9-17, sou 18-26,
//! winds 27-30 (E,S,W,N), dragons 31-33 (white, green, red). A physical
//! tile id is an integer in 0..136, four copies of each kind, with
//! kind = id / 4.

use vstd::prelude::*;

verus! {

/// Kind of an open or concealed meld.
#[derive(Clone, Copy, PartialEq, Eq, Debug)]
pub enum MeldType {
    /// Run of three called from the left neighbour.
    Chi,
    /// Open triplet.
    Peng,
    /// Open quad called on a discard.
    Gang,
    /// Concealed quad.
    Angang,
    /// Quad made by adding the fourth tile to an open triplet.
    Addgang,
}

/// A meld belonging to one seat: its kind, the physical tile ids it is
/// made of, whether it is open, and for called melds the seat the called
/// tile came from.
#[derive(Clone, Debug)]
pub struct Meld {
    pub meld_type: MeldType,
    pub tiles: Vec<u8>,
    pub opened: bool,
    pub from_seat: u8,
}

/// True of a tile kind that is a wind or a dragon.
pub open spec fn is_honor(k: int) -> bool {
    27 <= k < 34
}

/// True of a tile kind that is a 1 or a 9 of a suit.
pub open spec fn is_terminal(k: int) -> bool {
    k == 0 || k == 8 || k == 9 || k == 17 || k == 18 || k == 26
}

/// True of a tile kind that is a terminal or an honor: the thirteen
/// kinds out of which kokushi is formed.
pub open spec fn is_terminal_or_honor(k: int) -> bool {
    is_terminal(k) || is_honor(k)
}

/// True where a run (three consecutive kinds of one suit) may start at
/// kind `k`: positions 0..6, 9..15 and 18..24.
pub open spec fn run_start(k: int) -> bool {
    (0 <= k <= 6) || (9 <= k <= 15) || (18 <= k <= 24)
}

/// A concealed hand: a count per tile kind together with the list of
/// held kinds, in insertion order.
///
/// Well-formedness ties the two representations: `counts` has one slot
/// per kind and `counts[k]` is the multiplicity of `k` in `tiles`.
pub struct Hand {
    pub counts: Vec<u8>,
    pub tiles: Vec<u8>,
}

/// Multiplicity of the kind `k` in the tile list `s`.
pub open spec fn count_of(s: Seq<u8>, k: int) -> int
    decreases s.len(),
{
    if s.len() == 0 {
        0
    } else {
        count_of(s.drop_last(), k) + if s.last() == k { 1int } else { 0int }
    }
}

impl Hand {
    /// The hand's mathematical content: the count vector, as integers.
    pub open spec fn view_counts(self) -> Seq<int> {
        self.counts@.map(|i: int, c: u8| c as int)
    }

    /// The two representations agree, every tile is a real kind, and the
    /// hand holds at most fourteen tiles.
    pub open spec fn wf(self) -> bool {
        &&& self.counts@.len() == 34
        &&& self.tiles@.len() <= 14
        &&& forall|k: int| 0 <= k < 34 ==> #[trigger] self.counts@[k] as int == count_of(self.tiles@, k)
        &&& forall|i: int| 0 <= i < self.tiles@.len() ==> #[trigger] self.tiles@[i] < 34
    }

    /// Empty hand, or a hand holding the given tile kinds.
    pub fn new(tiles: Option<Vec<u8>>) -> (r: Hand)
        requires
            match tiles {
                Some(ts) => ts@.len() <= 14
                    && forall|i: int| 0 <= i < ts@.len() ==> #[trigger] ts@[i] < 34,
                None => true,
            },
        ensures
            r.wf(),
            match tiles {
                Some(ts) => r.tiles@ == ts@,
                None => r.tiles@.len() == 0,
            },
    {
        let mut counts: Vec<u8> = Vec::new();
        let mut k: usize = 0;
        while k < 34
            invariant
                counts@.len() == k,
                k <= 34,
                forall|j: int| 0 <= j < k ==> #[trigger] counts@[j] == 0,
            decreases 34 - k,
        {
            counts.push(0);
            k += 1;
        }
        let mut h = Hand { counts, tiles: Vec::new() };
        proof {
            assert forall|kk: int| 0 <= kk < 34 implies #[trigger] h.counts@[kk] as int == count_of(h.tiles@, kk) by {
                assert(count_of(h.tiles@, kk) == 0);
            }
        }
        match tiles {
            None => h,
            Some(ts) => {
                let mut i: usize = 0;
                while i < ts.len()
                    invariant
                        h.wf(),
                        i <= ts@.len(),
                        ts@.len() <= 14,
                        h.tiles@ == ts@.take(i as int),
                        forall|j: int| 0 <= j < ts@.len() ==> #[trigger] ts@[j] < 34,
                    decreases ts@.len() - i,
                {
                    proof {
                        assert(ts@.take(i as int).len() == i);
                    }
                    h.add(ts[i]);
                    proof {
                        assert(ts@.take(i + 1) =~= ts@.take(i as int).push(ts@[i as int]));
                    }
                    i += 1;
                }
                proof {
                    assert(ts@.take(ts@.len() as int) =~= ts@);
                }
                h
            }
        }
    }

    /// Add one tile of kind `t` to the hand.
    pub fn add(&mut self, t: u8)
        requires
            old(self).wf(),
            old(self).tiles@.len() < 14,
            t < 34,
        ensures
            final(self).wf(),
            final(self).tiles@ == old(self).tiles@.push(t),
    {
        proof {
            lemma_count_of_le_len(self.tiles@, t as int);
        }
        let c = self.counts[t as usize];
        self.counts.set(t as usize, c + 1);
        self.tiles.push(t);
        proof {
            assert forall|k: int| 0 <= k < 34 implies #[trigger] self.counts@[k] as int == count_of(self.tiles@, k) by {
                assert(self.tiles@.drop_last() =~= old(self).tiles@);
            }
        }
    }

    /// Total number of tiles held, through the count vector.
    pub open spec fn total(self) -> int {
        sum_counts(self.view_counts(), 34)
    }
}

/// Sum of the first `n` entries of a count sequence.
pub open spec fn sum_counts(c: Seq<int>, n: int) -> int
    decreases n,
{
    if n <= 0 {
        0
    } else {
        sum_counts(c, n - 1) + c[n - 1]
    }
}

/// The multiplicity of any kind is bounded by the length of the list.
pub proof fn lemma_count_of_le_len(s: Seq<u8>, k: int)
    ensures
        0 <= count_of(s, k) <= s.len(),
    decreases s.len(),
{
    if s.len() > 0 {
        lemma_count_of_le_len(s.drop_last(), k);
    }
}

/// Changing one slot changes the sum by the difference, if the slot is
/// within the summed prefix.
pub proof fn lemma_sum_counts_update(c: Seq<int>, k: int, v: int, n: int)
    requires
        0 <= k < c.len(),
        n <= c.len(),
    ensures
        sum_counts(c.update(k, v), n) == sum_counts(c, n) + if k < n {
            v - c[k]
        } else {
            0int
        },
    decreases n,
{
    if n > 0 {
        lemma_sum_counts_update(c, k, v, n - 1);
    }
}

/// A prefix of zeros sums to zero.
pub proof fn lemma_sum_counts_zero(c: Seq<int>, n: int)
    requires
        forall|j: int| 0 <= j < n ==> #[trigger] c[j] == 0,
    ensures
        sum_counts(c, n) == 0,
    decreases n,
{
    if n > 0 {
        lemma_sum_counts_zero(c, n - 1);
    }
}

/// A count vector that counts a tile list sums to the list's length.
pub proof fn lemma_counts_sum_of_tiles(tiles: Seq<u8>, c: Seq<int>)
    requires
        c.len() == 34,
        forall|k: int| 0 <= k < 34 ==> #[trigger] c[k] == count_of(tiles, k),
        forall|i: int| 0 <= i < tiles.len() ==> #[trigger] tiles[i] < 34,
    ensures
        sum_counts(c, 34) == tiles.len(),
    decreases tiles.len(),
{
    if tiles.len() == 0 {
        lemma_sum_counts_zero(c, 34);
    } else {
        let t = tiles.drop_last();
        let x = tiles.last() as int;
        lemma_count_of_le_len(t, x);
        let c2 = c.update(x, c[x] - 1);
        assert forall|k: int| 0 <= k < 34 implies #[trigger] c2[k] == count_of(t, k) by {
            assert(c[k] == count_of(tiles, k));
        }
        lemma_counts_sum_of_tiles(t, c2);
        lemma_sum_counts_update(c, x, c[x] - 1, 34);
    }
}

/// The total of a well-formed hand is the number of tiles it holds.
pub proof fn lemma_hand_total(h: Hand)
    requires
        h.wf(),
    ensures
        h.total() == h.tiles@.len(),
{
    lemma_counts_sum_of_tiles(h.tiles@, h.view_counts());
}

} // verus!
