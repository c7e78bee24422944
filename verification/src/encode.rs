//! Per-turn tensor encoder: serialize a read-only snapshot of the
//! environment, from one seat's viewpoint, into fixed-shape integer
//! tensors, plus the legal-action matrices.
//!
//! Scalar features are emitted as raw integer numerators (honba, riichi
//! sticks, kyoku index, score offset from 25000); the host divides by
//! the fixed normalization constants when it builds its float arrays.

use vstd::prelude::*;
use vstd::multiset::Multiset;
use vstd::relations::{sorted_by, total_ordering};
use vstd::seq_lib::lemma_sorted_unique;
use crate::env::RiichiEnv;
use crate::schema::{
    abs_to_rel, spec_abs_to_rel, spec_meld_kind, MAX_ACTIONS, MAX_DORA, MAX_HAND_TIDS, MAX_MELDS,
    MAX_MELD_TILES, MAX_RIVER, MAX_STATE_TOKENS, NUM_RIVER_FLAGS, TID_NONE, TOK_CLS, TOK_DORA,
    TOK_DRAWN, TOK_HAND, TOK_MELD_TILE, TOK_RIVER, TOK_ROUND, TOK_SCORE,
};
use crate::types::{count_of, Meld};

verus! {

/// One row of the observation token matrix: the seven integer features
/// (type, seat relative to the viewpoint, position, second position,
/// tile id, and two auxiliary values).
#[derive(Clone, Copy, PartialEq, Eq, Structural, Debug)]
pub struct TokenRow {
    pub ttype: i64,
    pub seat: i64,
    pub pos: i64,
    pub pos2: i64,
    pub tile: i64,
    pub aux1: i64,
    pub aux2: i64,
}

/// One row of the scalar side channel: raw integer numerators. For the
/// ROUND token these are honba, riichi sticks and kyoku index (the host
/// divides by 20, 20 and 16); for a SCORE token `c0` is the seat's
/// score minus 25000 (the host divides by 100000); all other rows are
/// zero.
#[derive(Clone, Copy, PartialEq, Eq, Structural, Debug)]
pub struct ScalarRow {
    pub c0: i64,
    pub c1: i64,
    pub c2: i64,
}

/// Why a snapshot cannot be encoded into the fixed shapes.
#[derive(Clone, Copy, PartialEq, Eq, Structural, Debug)]
pub enum EncodeError {
    /// A tile id at or above the sentinel 136 where a real tile is owed.
    TidOutOfRange,
    /// More state tokens than the token matrix holds.
    TooManyStateTokens,
    /// More than fourteen concealed tiles.
    HandTooLong,
    /// More than four melds for one seat.
    TooManyMelds,
    /// More than four tiles in one meld.
    MeldTooLong,
    /// More than thirty discards in one river.
    RiverTooLong,
    /// A river flag value outside 0..4.
    RiverFlagsOutOfRange,
    /// An empty legal-action list.
    NoLegalActions,
    /// More legal actions than the action matrix holds.
    TooManyActions,
    /// An action kind that carries a tile came without one.
    ActionMissingTile,
    /// More than four consumed tiles in one action.
    ConsumeTooLong,
}

/// The all-zero token row used as padding.
pub open spec fn zrow() -> TokenRow {
    TokenRow { ttype: 0, seat: 0, pos: 0, pos2: 0, tile: 0, aux1: 0, aux2: 0 }
}

/// The all-zero scalar row.
pub open spec fn zscal() -> ScalarRow {
    ScalarRow { c0: 0, c1: 0, c2: 0 }
}

/// The leading CLS token.
pub open spec fn spec_cls_row() -> TokenRow {
    TokenRow { ttype: TOK_CLS, seat: 0, pos: 0, pos2: 0, tile: TID_NONE, aux1: 0, aux2: 0 }
}

/// The ROUND token: round wind and the dealer seat relative to the
/// viewpoint.
pub open spec fn spec_round_row(env: RiichiEnv, me: int) -> TokenRow {
    TokenRow {
        ttype: TOK_ROUND,
        seat: 0,
        pos: 0,
        pos2: 0,
        tile: TID_NONE,
        aux1: env.round_wind as i64,
        aux2: spec_abs_to_rel(env.oya as int, me) as i64,
    }
}

/// The SCORE token of absolute seat `p`: riichi flags and meld count.
pub open spec fn spec_score_row(env: RiichiEnv, me: int, p: int) -> TokenRow {
    TokenRow {
        ttype: TOK_SCORE,
        seat: spec_abs_to_rel(p, me) as i64,
        pos: 0,
        pos2: 0,
        tile: TID_NONE,
        aux1: ((if env.riichi_declared@[p] { 1int } else { 0int }) + (if env.double_riichi_declared@[p] {
            2int
        } else {
            0int
        })) as i64,
        aux2: env.melds@[p]@.len() as i64,
    }
}

/// The DORA token of the `d`-th revealed indicator.
pub open spec fn spec_dora_row(t: u8, d: int) -> TokenRow {
    TokenRow { ttype: TOK_DORA, seat: 0, pos: 0, pos2: 0, tile: t as i64, aux1: d as i64, aux2: 0 }
}

/// The tile shown in the DRAWN token: the drawn tile when the viewpoint
/// seat is the current actor and holds one, else the sentinel.
pub open spec fn spec_drawn_tid(env: RiichiEnv, me: int) -> i64 {
    if env.current_player as int == me {
        match env.drawn_tile {
            Some(t) => t as i64,
            None => TID_NONE,
        }
    } else {
        TID_NONE
    }
}

/// The single DRAWN token.
pub open spec fn spec_drawn_row(env: RiichiEnv, me: int) -> TokenRow {
    TokenRow {
        ttype: TOK_DRAWN,
        seat: 0,
        pos: 0,
        pos2: 0,
        tile: spec_drawn_tid(env, me),
        aux1: 0,
        aux2: 0,
    }
}

/// One HAND token.
pub open spec fn spec_hand_row(t: u8) -> TokenRow {
    TokenRow { ttype: TOK_HAND, seat: 0, pos: 0, pos2: 0, tile: t as i64, aux1: 0, aux2: 0 }
}

/// One MELD_TILE token: seat, meld index, slot, tile, meld kind, open
/// flag.
pub open spec fn spec_meld_row(m: Meld, p_rel: int, mi: int, s: int) -> TokenRow {
    TokenRow {
        ttype: TOK_MELD_TILE,
        seat: p_rel as i64,
        pos: mi as i64,
        pos2: s as i64,
        tile: m.tiles@[s] as i64,
        aux1: spec_meld_kind(m.meld_type),
        aux2: if m.opened { 1 } else { 0 },
    }
}

/// One RIVER token: seat, river position, tile, flags.
pub open spec fn spec_river_row(e: (u8, u8), p_rel: int, ridx: int) -> TokenRow {
    TokenRow {
        ttype: TOK_RIVER,
        seat: p_rel as i64,
        pos: ridx as i64,
        pos2: 0,
        tile: e.0 as i64,
        aux1: e.1 as i64,
        aux2: 0,
    }
}

/// The scalar row of the ROUND token.
pub open spec fn spec_round_scal(env: RiichiEnv) -> ScalarRow {
    ScalarRow { c0: env.honba as i64, c1: env.riichi_sticks as i64, c2: env.kyoku_idx as i64 }
}

/// The scalar row of the SCORE token of seat `p`.
pub open spec fn spec_score_scal(env: RiichiEnv, p: int) -> ScalarRow {
    ScalarRow { c0: ((env.scores@[p] as int) - 25000) as i64, c1: 0, c2: 0 }
}

/// The six head tokens: CLS, ROUND, and one SCORE token per seat.
pub open spec fn spec_head_tokens(env: RiichiEnv, me: int) -> Seq<TokenRow> {
    seq![spec_cls_row(), spec_round_row(env, me)] + Seq::new(4, |p: int| spec_score_row(env, me, p))
}

/// The number of DORA tokens: at most five indicators are encoded.
pub open spec fn spec_dora_len(ds: Seq<u8>) -> int {
    if ds.len() <= 5 {
        ds.len() as int
    } else {
        5
    }
}

/// The DORA tokens of the first five indicators.
pub open spec fn spec_dora_tokens(ds: Seq<u8>) -> Seq<TokenRow> {
    Seq::new(spec_dora_len(ds) as nat, |d: int| spec_dora_row(ds[d], d))
}

/// The HAND tokens of a sorted concealed hand.
pub open spec fn spec_hand_tokens(sorted: Seq<u8>) -> Seq<TokenRow> {
    Seq::new(sorted.len(), |i: int| spec_hand_row(sorted[i]))
}

/// The MELD_TILE tokens of one meld.
pub open spec fn spec_meld_tokens(m: Meld, p_rel: int, mi: int) -> Seq<TokenRow> {
    Seq::new(m.tiles@.len(), |s: int| spec_meld_row(m, p_rel, mi, s))
}

/// The MELD_TILE tokens of the first `n` melds of one seat.
pub open spec fn spec_seat_meld_tokens(ms: Seq<Meld>, p_rel: int, n: int) -> Seq<TokenRow>
    decreases n,
{
    if n <= 0 {
        Seq::empty()
    } else {
        spec_seat_meld_tokens(ms, p_rel, n - 1) + spec_meld_tokens(ms[n - 1], p_rel, n - 1)
    }
}

/// The MELD_TILE tokens of the first `p` seats, in absolute seat order.
pub open spec fn spec_all_meld_tokens(env: RiichiEnv, me: int, p: int) -> Seq<TokenRow>
    decreases p,
{
    if p <= 0 {
        Seq::empty()
    } else {
        spec_all_meld_tokens(env, me, p - 1) + spec_seat_meld_tokens(
            env.melds@[p - 1]@,
            spec_abs_to_rel(p - 1, me),
            env.melds@[p - 1]@.len() as int,
        )
    }
}

/// The RIVER tokens of one seat, in river order.
pub open spec fn spec_seat_river_tokens(r: Seq<(u8, u8)>, p_rel: int) -> Seq<TokenRow> {
    Seq::new(r.len(), |i: int| spec_river_row(r[i], p_rel, i))
}

/// The RIVER tokens of the first `p` seats, in absolute seat order.
pub open spec fn spec_all_river_tokens(env: RiichiEnv, me: int, p: int) -> Seq<TokenRow>
    decreases p,
{
    if p <= 0 {
        Seq::empty()
    } else {
        spec_all_river_tokens(env, me, p - 1) + spec_seat_river_tokens(
            env.discards@[p - 1]@,
            spec_abs_to_rel(p - 1, me),
        )
    }
}

/// The whole observation token sequence, before padding: head, dora,
/// drawn, sorted hand, melds, rivers.
pub open spec fn spec_obs_tokens(env: RiichiEnv, me: int, sorted: Seq<u8>) -> Seq<TokenRow> {
    spec_head_tokens(env, me) + spec_dora_tokens(env.dora_indicators@) + seq![
        spec_drawn_row(env, me),
    ] + spec_hand_tokens(sorted) + spec_all_meld_tokens(env, me, 4) + spec_all_river_tokens(
        env,
        me,
        4,
    )
}

/// One meld fits the tensor shape: at most four tiles, all real.
pub open spec fn meld_ok(m: Meld) -> bool {
    &&& m.tiles@.len() <= 4
    &&& forall|s: int| 0 <= s < m.tiles@.len() ==> #[trigger] m.tiles@[s] < 136
}

/// One seat's melds fit: at most four, each well-shaped.
pub open spec fn seat_melds_ok(env: RiichiEnv, p: int) -> bool {
    &&& env.melds@[p]@.len() <= 4
    &&& forall|m: int| 0 <= m < env.melds@[p]@.len() ==> #[trigger] meld_ok(env.melds@[p]@[m])
}

/// One river entry fits: a real tile and a flag value below four.
pub open spec fn river_entry_ok(e: (u8, u8)) -> bool {
    e.0 < 136 && e.1 < 4
}

/// One seat's river fits: at most thirty entries, each well-shaped.
pub open spec fn seat_river_ok(env: RiichiEnv, p: int) -> bool {
    &&& env.discards@[p]@.len() <= 30
    &&& forall|i: int| 0 <= i < env.discards@[p]@.len() ==> #[trigger] river_entry_ok(
        env.discards@[p]@[i],
    )
}

/// The snapshot fits the observation tensor shapes: every encoded tile
/// id is real, and every per-seat list is within its fixed capacity.
pub open spec fn obs_valid(env: RiichiEnv, me: int, hand: Seq<u8>) -> bool {
    &&& forall|d: int| 0 <= d < spec_dora_len(env.dora_indicators@) ==> #[trigger] env.dora_indicators@[d]
        < 136
    &&& (env.current_player as int == me ==> match env.drawn_tile {
        Some(t) => t < 136,
        None => true,
    })
    &&& hand.len() <= 14
    &&& forall|i: int| 0 <= i < hand.len() ==> #[trigger] hand[i] < 136
    &&& forall|p: int| 0 <= p < 4 ==> #[trigger] seat_melds_ok(env, p)
    &&& forall|p: int| 0 <= p < 4 ==> #[trigger] seat_river_ok(env, p)
}

/// The ordering by which a hand is sorted before encoding.
pub open spec fn tile_leq() -> spec_fn(u8, u8) -> bool {
    |x: u8, y: u8| x <= y
}

/// The encoded observation: padded token matrix, scalar matrix and
/// mask, against the unpadded spec token sequence.
pub open spec fn obs_matches(
    env: RiichiEnv,
    me: int,
    hand: Seq<u8>,
    tm: Seq<TokenRow>,
    ts: Seq<ScalarRow>,
    mask: Seq<bool>,
) -> bool {
    let toks = spec_obs_tokens(env, me, hand.sort_by(tile_leq()));
    &&& tm.len() == 256
    &&& ts.len() == 256
    &&& mask.len() == 256
    &&& toks.len() <= 256
    &&& forall|i: int| 0 <= i < toks.len() ==> #[trigger] tm[i] == toks[i]
    &&& forall|i: int| toks.len() <= i < 256 ==> #[trigger] tm[i] == zrow()
    &&& ts[0] == zscal()
    &&& ts[1] == spec_round_scal(env)
    &&& forall|p: int| 0 <= p < 4 ==> #[trigger] ts[2 + p] == spec_score_scal(env, p)
    &&& forall|i: int| 6 <= i < 256 ==> #[trigger] ts[i] == zscal()
    &&& forall|i: int| 0 <= i < 256 ==> #[trigger] mask[i] == (i < toks.len())
}

/// Appending one tile adds one to its kind's count and nothing else.
proof fn lemma_count_of_push(s: Seq<u8>, x: u8, k: int)
    ensures
        count_of(s.push(x), k) == count_of(s, k) + if x == k {
            1int
        } else {
            0int
        },
{
    assert(s.push(x).drop_last() =~= s);
}

/// A kind held by no tile of the list has count zero.
proof fn lemma_count_of_absent(s: Seq<u8>, k: int)
    requires
        forall|i: int| 0 <= i < s.len() ==> #[trigger] s[i] != k,
    ensures
        count_of(s, k) == 0,
    decreases s.len(),
{
    if s.len() > 0 {
        lemma_count_of_absent(s.drop_last(), k);
    }
}

/// `count_of` agrees with the multiset count.
proof fn lemma_count_of_is_multiset_count(s: Seq<u8>, k: u8)
    ensures
        s.to_multiset().count(k) == count_of(s, k as int),
    decreases s.len(),
{
    broadcast use vstd::seq_lib::group_to_multiset_ensures;
    broadcast use vstd::multiset::group_multiset_axioms;

    if s.len() == 0 {
        assert(s.to_multiset() =~= Multiset::<u8>::empty());
    } else {
        lemma_count_of_is_multiset_count(s.drop_last(), k);
        assert(s.drop_last().push(s.last()) =~= s);
        assert(s.drop_last().push(s.last()).to_multiset() =~= s.drop_last().to_multiset().insert(
            s.last(),
        ));
    }
}

/// Two tile lists with the same count for every kind hold the same
/// tiles.
proof fn lemma_same_counts_same_multiset(a: Seq<u8>, b: Seq<u8>)
    requires
        forall|k: int| #[trigger] count_of(a, k) == count_of(b, k),
    ensures
        a.to_multiset() =~= b.to_multiset(),
{
    assert forall|x: u8| a.to_multiset().count(x) == b.to_multiset().count(x) by {
        lemma_count_of_is_multiset_count(a, x);
        lemma_count_of_is_multiset_count(b, x);
        assert(count_of(a, x as int) == count_of(b, x as int));
    }
}

/// Sort a concealed hand ascending by tile id, by counting: the result
/// is exactly the sorted permutation of the input.
fn sort_tiles(hand: &[u8]) -> (r: Vec<u8>)
    requires
        hand@.len() <= 14,
        forall|i: int| 0 <= i < hand@.len() ==> #[trigger] hand@[i] < 136,
    ensures
        r@ == hand@.sort_by(tile_leq()),
        r@.len() == hand@.len(),
        forall|i: int| 0 <= i < r@.len() ==> #[trigger] r@[i] < 136,
{
    let mut counts: Vec<u8> = Vec::new();
    let mut k: usize = 0;
    while k < 136
        invariant
            counts@.len() == k,
            k <= 136,
            forall|j: int| 0 <= j < k ==> #[trigger] counts@[j] == 0,
        decreases 136 - k,
    {
        counts.push(0);
        k += 1;
    }
    proof {
        assert forall|j: int| 0 <= j < 136 implies #[trigger] counts@[j] as int == count_of(
            hand@.take(0),
            j,
        ) by {
            assert(hand@.take(0) =~= Seq::<u8>::empty());
        }
    }
    let mut i: usize = 0;
    while i < hand.len()
        invariant
            counts@.len() == 136,
            i <= hand@.len(),
            hand@.len() <= 14,
            forall|j: int| 0 <= j < hand@.len() ==> #[trigger] hand@[j] < 136,
            forall|j: int| 0 <= j < 136 ==> #[trigger] counts@[j] as int == count_of(
                hand@.take(i as int),
                j,
            ),
        decreases hand@.len() - i,
    {
        let t = hand[i];
        proof {
            crate::types::lemma_count_of_le_len(hand@.take(i as int), t as int);
            assert(hand@.take(i as int).len() == i);
        }
        let c = counts[t as usize];
        counts.set(t as usize, c + 1);
        proof {
            assert(hand@.take(i + 1) =~= hand@.take(i as int).push(hand@[i as int]));
            assert forall|j: int| 0 <= j < 136 implies #[trigger] counts@[j] as int == count_of(
                hand@.take(i + 1),
                j,
            ) by {
                lemma_count_of_push(hand@.take(i as int), hand@[i as int], j);
            }
        }
        i += 1;
    }
    proof {
        assert(hand@.take(hand@.len() as int) =~= hand@);
    }
    let mut r: Vec<u8> = Vec::new();
    let mut k: usize = 0;
    while k < 136
        invariant
            counts@.len() == 136,
            k <= 136,
            forall|j: int| 0 <= j < 136 ==> #[trigger] counts@[j] as int == count_of(hand@, j),
            forall|j: int| 0 <= j < k ==> #[trigger] count_of(r@, j) == count_of(hand@, j),
            forall|j: int| j >= k ==> #[trigger] count_of(r@, j) == 0,
            forall|j: int| j < 0 ==> #[trigger] count_of(r@, j) == 0,
            sorted_by(r@, tile_leq()),
            forall|idx: int| 0 <= idx < r@.len() ==> #[trigger] r@[idx] < k,
        decreases 136 - k,
    {
        let mut c = counts[k];
        proof {
            crate::types::lemma_count_of_le_len(hand@, k as int);
        }
        let ghost target = count_of(hand@, k as int);
        while c > 0
            invariant
                k < 136,
                c as int <= target,
                target == count_of(hand@, k as int),
                forall|j: int| 0 <= j < k ==> #[trigger] count_of(r@, j) == count_of(hand@, j),
                count_of(r@, k as int) == target - c,
                forall|j: int| j > k ==> #[trigger] count_of(r@, j) == 0,
                forall|j: int| j < 0 ==> #[trigger] count_of(r@, j) == 0,
                sorted_by(r@, tile_leq()),
                forall|idx: int| 0 <= idx < r@.len() ==> #[trigger] r@[idx] <= k,
            decreases c,
        {
            let ghost oldr = r@;
            r.push(k as u8);
            proof {
                assert forall|j: int| #[trigger] count_of(r@, j) == count_of(oldr, j) + (if j
                    == k as int {
                    1int
                } else {
                    0int
                }) by {
                    lemma_count_of_push(oldr, k as u8, j);
                }
                assert(sorted_by(r@, tile_leq())) by {
                    assert forall|a: int, b: int| 0 <= a < b < r@.len() implies tile_leq()(
                        r@[a],
                        r@[b],
                    ) by {
                        if b < r@.len() - 1 {
                            assert(tile_leq()(oldr[a], oldr[b]));
                        }
                    }
                }
            }
            c -= 1;
        }
        k += 1;
    }
    proof {
        assert forall|j: int| #[trigger] count_of(r@, j) == count_of(hand@, j) by {
            if j < 0 || j >= 136 {
                assert(count_of(r@, j) == 0);
                lemma_count_of_absent(hand@, j);
            } else {
                assert(count_of(r@, j) == count_of(hand@, j));
            }
        }
        lemma_same_counts_same_multiset(r@, hand@);
        let leq = tile_leq();
        assert(total_ordering(leq)) by {
            assert(vstd::relations::reflexive(leq)) by {
                assert forall|x: u8| #[trigger] leq(x, x) by {}
            }
            assert(vstd::relations::antisymmetric(leq)) by {
                assert forall|x: u8, y: u8| #[trigger] leq(x, y) && #[trigger] leq(y, x) implies x
                    == y by {}
            }
            assert(vstd::relations::transitive(leq)) by {
                assert forall|x: u8, y: u8, z: u8| #[trigger] leq(x, y) && #[trigger] leq(
                    y,
                    z,
                ) implies leq(x, z) by {}
            }
            assert(vstd::relations::strongly_connected(leq)) by {
                assert forall|x: u8, y: u8| #[trigger] leq(x, y) || #[trigger] leq(y, x) by {}
            }
        }
        hand@.lemma_sort_by_ensures(leq);
        lemma_sorted_unique(r@, hand@.sort_by(leq), leq);
        broadcast use vstd::seq_lib::to_multiset_len;

        assert(r@.to_multiset() == hand@.to_multiset());
        assert(r@.to_multiset().len() == r@.len());
        assert(hand@.to_multiset().len() == hand@.len());
    }
    r
}

/// Scan the snapshot for the first thing that does not fit the
/// observation tensor shapes, in encoding order.
fn find_obs_error(env: &RiichiEnv, me: u8, hand: &[u8]) -> (r: Option<EncodeError>)
    ensures
        r is None <==> obs_valid(*env, me as int, hand@),
{
    let dlen = if env.dora_indicators.len() <= 5 {
        env.dora_indicators.len()
    } else {
        5
    };
    let mut d: usize = 0;
    while d < dlen
        invariant
            dlen == spec_dora_len(env.dora_indicators@),
            d <= dlen,
            forall|j: int| 0 <= j < d ==> #[trigger] env.dora_indicators@[j] < 136,
        decreases dlen - d,
    {
        if env.dora_indicators[d] >= 136 {
            return Some(EncodeError::TidOutOfRange);
        }
        d += 1;
    }
    if env.current_player == me {
        match env.drawn_tile {
            Some(t) => {
                if t >= 136 {
                    return Some(EncodeError::TidOutOfRange);
                }
            },
            None => {},
        }
    }
    if hand.len() > 14 {
        return Some(EncodeError::HandTooLong);
    }
    let mut i: usize = 0;
    while i < hand.len()
        invariant
            i <= hand@.len(),
            forall|j: int| 0 <= j < i ==> #[trigger] hand@[j] < 136,
        decreases hand@.len() - i,
    {
        if hand[i] >= 136 {
            return Some(EncodeError::TidOutOfRange);
        }
        i += 1;
    }
    let mut p: usize = 0;
    while p < 4
        invariant
            p <= 4,
            forall|q: int| 0 <= q < p ==> #[trigger] seat_melds_ok(*env, q),
        decreases 4 - p,
    {
        let mlen = env.melds[p].len();
        if mlen > 4 {
            proof {
                assert(!seat_melds_ok(*env, p as int));
            }
            return Some(EncodeError::TooManyMelds);
        }
        let mut mi: usize = 0;
        while mi < mlen
            invariant
                p < 4,
                mlen == env.melds@[p as int]@.len(),
                mlen <= 4,
                mi <= mlen,
                forall|q: int| 0 <= q < p ==> #[trigger] seat_melds_ok(*env, q),
                forall|m: int| 0 <= m < mi ==> #[trigger] meld_ok(env.melds@[p as int]@[m]),
            decreases mlen - mi,
        {
            let m = &env.melds[p][mi];
            if m.tiles.len() > 4 {
                proof {
                    assert(!meld_ok(env.melds@[p as int]@[mi as int]));
                    assert(!seat_melds_ok(*env, p as int));
                }
                return Some(EncodeError::MeldTooLong);
            }
            let mut s: usize = 0;
            while s < m.tiles.len()
                invariant
                    p < 4,
                    mi < env.melds@[p as int]@.len(),
                    m == &env.melds@[p as int]@[mi as int],
                    m.tiles@.len() <= 4,
                    s <= m.tiles@.len(),
                    forall|j: int| 0 <= j < s ==> #[trigger] m.tiles@[j] < 136,
                decreases m.tiles@.len() - s,
            {
                if m.tiles[s] >= 136 {
                    proof {
                        assert(!meld_ok(env.melds@[p as int]@[mi as int]));
                        assert(!seat_melds_ok(*env, p as int));
                    }
                    return Some(EncodeError::TidOutOfRange);
                }
                s += 1;
            }
            proof {
                assert(meld_ok(env.melds@[p as int]@[mi as int]));
            }
            mi += 1;
        }
        proof {
            assert(seat_melds_ok(*env, p as int));
        }
        p += 1;
    }
    let mut p: usize = 0;
    while p < 4
        invariant
            p <= 4,
            forall|q: int| 0 <= q < 4 ==> #[trigger] seat_melds_ok(*env, q),
            forall|q: int| 0 <= q < p ==> #[trigger] seat_river_ok(*env, q),
        decreases 4 - p,
    {
        let rlen = env.discards[p].len();
        if rlen > 30 {
            proof {
                assert(!seat_river_ok(*env, p as int));
            }
            return Some(EncodeError::RiverTooLong);
        }
        let mut ri: usize = 0;
        while ri < rlen
            invariant
                p < 4,
                rlen == env.discards@[p as int]@.len(),
                rlen <= 30,
                ri <= rlen,
                forall|q: int| 0 <= q < 4 ==> #[trigger] seat_melds_ok(*env, q),
                forall|q: int| 0 <= q < p ==> #[trigger] seat_river_ok(*env, q),
                forall|j: int| 0 <= j < ri ==> #[trigger] river_entry_ok(env.discards@[p as int]@[j]),
            decreases rlen - ri,
        {
            let e = env.discards[p][ri];
            if e.1 >= NUM_RIVER_FLAGS {
                proof {
                    assert(!river_entry_ok(env.discards@[p as int]@[ri as int]));
                    assert(!seat_river_ok(*env, p as int));
                }
                return Some(EncodeError::RiverFlagsOutOfRange);
            }
            if e.0 >= 136 {
                proof {
                    assert(!river_entry_ok(env.discards@[p as int]@[ri as int]));
                    assert(!seat_river_ok(*env, p as int));
                }
                return Some(EncodeError::TidOutOfRange);
            }
            proof {
                assert(river_entry_ok(env.discards@[p as int]@[ri as int]));
            }
            ri += 1;
        }
        proof {
            assert(seat_river_ok(*env, p as int));
        }
        p += 1;
    }
    None
}

/// Append one token and its scalar row, refusing to grow past the
/// fixed token capacity.
fn push_token(
    tokens: &mut Vec<TokenRow>,
    scalars: &mut Vec<ScalarRow>,
    row: TokenRow,
    scal: ScalarRow,
) -> (r: Result<(), EncodeError>)
    requires
        old(tokens)@.len() == old(scalars)@.len(),
    ensures
        final(tokens)@.len() == final(scalars)@.len(),
        old(tokens)@.len() < MAX_STATE_TOKENS ==> r is Ok && final(tokens)@ == old(tokens)@.push(row)
            && final(scalars)@ == old(scalars)@.push(scal),
        old(tokens)@.len() >= MAX_STATE_TOKENS ==> r is Err && final(tokens)@ == old(tokens)@
            && final(scalars)@ == old(scalars)@,
{
    if tokens.len() >= MAX_STATE_TOKENS {
        return Err(EncodeError::TooManyStateTokens);
    }
    tokens.push(row);
    scalars.push(scal);
    Ok(())
}

/// Encode the observation half of a turn: the padded token matrix, the
/// scalar matrix and the token mask, from the viewpoint of seat `me`
/// holding the concealed tiles `hand`.
pub fn encode_observation(env: &RiichiEnv, me: u8, hand: &[u8]) -> (r: Result<
    (Vec<TokenRow>, Vec<ScalarRow>, Vec<bool>),
    EncodeError,
>)
    requires
        me < 4,
        env.oya < 4,
    ensures
        match r {
            Ok(out) => obs_valid(*env, me as int, hand@) && obs_matches(
                *env,
                me as int,
                hand@,
                out.0@,
                out.1@,
                out.2@,
            ),
            Err(_) => !obs_valid(*env, me as int, hand@),
        },
{
    match find_obs_error(env, me, hand) {
        Some(e) => {
            return Err(e);
        },
        None => {},
    }
    let ghost menv = *env;
    let ghost gme = me as int;
    let sorted = sort_tiles(hand);
    let ghost toks = spec_obs_tokens(menv, gme, sorted@);
    let mut tokens: Vec<TokenRow> = Vec::new();
    let mut scalars: Vec<ScalarRow> = Vec::new();

    let cls = TokenRow { ttype: TOK_CLS, seat: 0, pos: 0, pos2: 0, tile: TID_NONE, aux1: 0, aux2: 0 };
    match push_token(&mut tokens, &mut scalars, cls, ScalarRow { c0: 0, c1: 0, c2: 0 }) {
        Ok(_) => {},
        Err(e) => {
            return Err(e);
        },
    }
    let round = TokenRow {
        ttype: TOK_ROUND,
        seat: 0,
        pos: 0,
        pos2: 0,
        tile: TID_NONE,
        aux1: env.round_wind as i64,
        aux2: abs_to_rel(env.oya, me) as i64,
    };
    let rscal = ScalarRow {
        c0: env.honba as i64,
        c1: env.riichi_sticks as i64,
        c2: env.kyoku_idx as i64,
    };
    match push_token(&mut tokens, &mut scalars, round, rscal) {
        Ok(_) => {},
        Err(e) => {
            return Err(e);
        },
    }
    proof {
        assert(tokens@ =~= seq![spec_cls_row(), spec_round_row(menv, gme)] + Seq::new(
            0,
            |p: int| spec_score_row(menv, gme, p),
        ));
    }
    let mut p: usize = 0;
    while p < 4
        invariant
            me < 4,
            env.oya < 4,
            menv == *env,
            gme == me as int,
            p <= 4,
            tokens@.len() == scalars@.len(),
            tokens@.len() == 2 + p,
            tokens@ == seq![spec_cls_row(), spec_round_row(menv, gme)] + Seq::new(
                p as nat,
                |q: int| spec_score_row(menv, gme, q),
            ),
            scalars@[0] == zscal(),
            scalars@[1] == spec_round_scal(menv),
            forall|q: int| 0 <= q < p ==> #[trigger] scalars@[2 + q] == spec_score_scal(menv, q),
        decreases 4 - p,
    {
        let mut flags: i64 = 0;
        if env.riichi_declared[p] {
            flags += 1;
        }
        if env.double_riichi_declared[p] {
            flags += 2;
        }
        let row = TokenRow {
            ttype: TOK_SCORE,
            seat: abs_to_rel(p as u8, me) as i64,
            pos: 0,
            pos2: 0,
            tile: TID_NONE,
            aux1: flags,
            aux2: env.melds[p].len() as i64,
        };
        let scal = ScalarRow { c0: (env.scores[p] as i64) - 25000, c1: 0, c2: 0 };
        let ghost oldt = tokens@;
        match push_token(&mut tokens, &mut scalars, row, scal) {
            Ok(_) => {},
            Err(e) => {
                return Err(e);
            },
        }
        proof {
            assert(row == spec_score_row(menv, gme, p as int));
            assert(scal == spec_score_scal(menv, p as int));
            assert(tokens@ =~= seq![spec_cls_row(), spec_round_row(menv, gme)] + Seq::new(
                (p + 1) as nat,
                |q: int| spec_score_row(menv, gme, q),
            ));
        }
        p += 1;
    }
    proof {
        assert(tokens@ =~= spec_head_tokens(menv, gme));
    }
    let ghost after_head = tokens@;

    let dlen = if env.dora_indicators.len() <= 5 {
        env.dora_indicators.len()
    } else {
        5
    };
    let mut d: usize = 0;
    while d < dlen
        invariant
            menv == *env,
            gme == me as int,
            dlen == spec_dora_len(env.dora_indicators@),
            d <= dlen,
            after_head.len() == 6,
            tokens@.len() == scalars@.len(),
            tokens@.len() == 6 + d,
            obs_valid(menv, gme, hand@),
            tokens@ == after_head + spec_dora_tokens(env.dora_indicators@).take(d as int),
            scalars@[0] == zscal(),
            scalars@[1] == spec_round_scal(menv),
            forall|q: int| 0 <= q < 4 ==> #[trigger] scalars@[2 + q] == spec_score_scal(menv, q),
            forall|i: int| 6 <= i < scalars@.len() ==> #[trigger] scalars@[i] == zscal(),
        decreases dlen - d,
    {
        let t = env.dora_indicators[d];
        let row = TokenRow {
            ttype: TOK_DORA,
            seat: 0,
            pos: 0,
            pos2: 0,
            tile: t as i64,
            aux1: d as i64,
            aux2: 0,
        };
        match push_token(&mut tokens, &mut scalars, row, ScalarRow { c0: 0, c1: 0, c2: 0 }) {
            Ok(_) => {},
            Err(e) => {
                return Err(e);
            },
        }
        proof {
            assert(row == spec_dora_row(env.dora_indicators@[d as int], d as int));
            assert(tokens@ =~= after_head + spec_dora_tokens(env.dora_indicators@).take(d + 1));
        }
        d += 1;
    }
    proof {
        assert(spec_dora_tokens(env.dora_indicators@).take(dlen as int) =~= spec_dora_tokens(
            env.dora_indicators@,
        ));
    }
    let ghost after_dora = tokens@;

    let drawn_tid: i64 = if env.current_player == me {
        match env.drawn_tile {
            Some(t) => t as i64,
            None => TID_NONE,
        }
    } else {
        TID_NONE
    };
    let drow = TokenRow {
        ttype: TOK_DRAWN,
        seat: 0,
        pos: 0,
        pos2: 0,
        tile: drawn_tid,
        aux1: 0,
        aux2: 0,
    };
    match push_token(&mut tokens, &mut scalars, drow, ScalarRow { c0: 0, c1: 0, c2: 0 }) {
        Ok(_) => {},
        Err(e) => {
            return Err(e);
        },
    }
    proof {
        assert(drow == spec_drawn_row(menv, gme));
        assert(tokens@ =~= after_dora + seq![spec_drawn_row(menv, gme)]);
    }
    let ghost after_drawn = tokens@;

    let mut i: usize = 0;
    while i < sorted.len()
        invariant
            menv == *env,
            gme == me as int,
            i <= sorted@.len(),
            sorted@.len() <= 14,
            7 <= after_drawn.len() <= 12 + 14,
            tokens@.len() == scalars@.len(),
            tokens@.len() == after_drawn.len() + i,
            obs_valid(menv, gme, hand@),
            tokens@ == after_drawn + spec_hand_tokens(sorted@).take(i as int),
            scalars@[0] == zscal(),
            scalars@[1] == spec_round_scal(menv),
            forall|q: int| 0 <= q < 4 ==> #[trigger] scalars@[2 + q] == spec_score_scal(menv, q),
            forall|j: int| 6 <= j < scalars@.len() ==> #[trigger] scalars@[j] == zscal(),
        decreases sorted@.len() - i,
    {
        let row = TokenRow {
            ttype: TOK_HAND,
            seat: 0,
            pos: 0,
            pos2: 0,
            tile: sorted[i] as i64,
            aux1: 0,
            aux2: 0,
        };
        match push_token(&mut tokens, &mut scalars, row, ScalarRow { c0: 0, c1: 0, c2: 0 }) {
            Ok(_) => {},
            Err(e) => {
                return Err(e);
            },
        }
        proof {
            assert(row == spec_hand_row(sorted@[i as int]));
            assert(tokens@ =~= after_drawn + spec_hand_tokens(sorted@).take(i + 1));
        }
        i += 1;
    }
    proof {
        assert(spec_hand_tokens(sorted@).take(sorted@.len() as int) =~= spec_hand_tokens(sorted@));
    }
    let ghost after_hand = tokens@;

    let mut p: usize = 0;
    while p < 4
        invariant
            me < 4,
            menv == *env,
            gme == me as int,
            p <= 4,
            7 <= after_hand.len() <= 26,
            tokens@.len() == scalars@.len(),
            tokens@.len() <= after_hand.len() + 16 * p,
            obs_valid(menv, gme, hand@),
            tokens@ == after_hand + spec_all_meld_tokens(menv, gme, p as int),
            scalars@[0] == zscal(),
            scalars@[1] == spec_round_scal(menv),
            forall|q: int| 0 <= q < 4 ==> #[trigger] scalars@[2 + q] == spec_score_scal(menv, q),
            forall|j: int| 6 <= j < scalars@.len() ==> #[trigger] scalars@[j] == zscal(),
        decreases 4 - p,
    {
        let p_rel = abs_to_rel(p as u8, me);
        let ghost seat_pre = tokens@;
        let mlen = env.melds[p].len();
        proof {
            assert(seat_melds_ok(menv, p as int));
        }
        let mut mi: usize = 0;
        while mi < mlen
            invariant
                me < 4,
                menv == *env,
                gme == me as int,
                p < 4,
                p_rel == spec_abs_to_rel(p as int, gme),
                mlen == env.melds@[p as int]@.len(),
                mlen <= 4,
                mi <= mlen,
                7 <= seat_pre.len() <= 26 + 16 * p,
                tokens@.len() == scalars@.len(),
                tokens@.len() <= seat_pre.len() + 4 * mi,
                obs_valid(menv, gme, hand@),
                tokens@ == seat_pre + spec_seat_meld_tokens(
                    env.melds@[p as int]@,
                    p_rel as int,
                    mi as int,
                ),
                scalars@[0] == zscal(),
                scalars@[1] == spec_round_scal(menv),
                forall|q: int| 0 <= q < 4 ==> #[trigger] scalars@[2 + q] == spec_score_scal(menv, q),
                forall|j: int| 6 <= j < scalars@.len() ==> #[trigger] scalars@[j] == zscal(),
            decreases mlen - mi,
        {
            let m = &env.melds[p][mi];
            let kind = crate::schema::meld_kind(m.meld_type);
            let opened: i64 = if m.opened {
                1
            } else {
                0
            };
            proof {
                assert(seat_melds_ok(menv, p as int));
                assert(meld_ok(env.melds@[p as int]@[mi as int]));
            }
            let ghost meld_pre = tokens@;
            let mut s: usize = 0;
            while s < m.tiles.len()
                invariant
                    menv == *env,
                    gme == me as int,
                    p < 4,
                    mi < env.melds@[p as int]@.len(),
                    m == &env.melds@[p as int]@[mi as int],
                    kind == spec_meld_kind(m.meld_type),
                    opened == (if m.opened { 1int } else { 0int }),
                    p_rel == spec_abs_to_rel(p as int, gme),
                    m.tiles@.len() <= 4,
                    s <= m.tiles@.len(),
                    mi < 4,
                    7 <= meld_pre.len() <= 26 + 16 * p + 4 * mi,
                    tokens@.len() == scalars@.len(),
                    tokens@.len() == meld_pre.len() + s,
                    obs_valid(menv, gme, hand@),
                    tokens@ == meld_pre + spec_meld_tokens(*m, p_rel as int, mi as int).take(
                        s as int,
                    ),
                    scalars@[0] == zscal(),
                    scalars@[1] == spec_round_scal(menv),
                    forall|q: int| 0 <= q < 4 ==> #[trigger] scalars@[2 + q] == spec_score_scal(
                        menv,
                        q,
                    ),
                    forall|j: int| 6 <= j < scalars@.len() ==> #[trigger] scalars@[j] == zscal(),
                decreases m.tiles@.len() - s,
            {
                let row = TokenRow {
                    ttype: TOK_MELD_TILE,
                    seat: p_rel as i64,
                    pos: mi as i64,
                    pos2: s as i64,
                    tile: m.tiles[s] as i64,
                    aux1: kind,
                    aux2: opened,
                };
                match push_token(&mut tokens, &mut scalars, row, ScalarRow { c0: 0, c1: 0, c2: 0 }) {
                    Ok(_) => {},
                    Err(e) => {
                        return Err(e);
                    },
                }
                proof {
                    assert(row == spec_meld_row(*m, p_rel as int, mi as int, s as int));
                    assert(tokens@ =~= meld_pre + spec_meld_tokens(*m, p_rel as int, mi as int).take(
                        s + 1,
                    ));
                }
                s += 1;
            }
            proof {
                assert(spec_meld_tokens(*m, p_rel as int, mi as int).take(m.tiles@.len() as int)
                    =~= spec_meld_tokens(*m, p_rel as int, mi as int));
                assert(tokens@ =~= seat_pre + spec_seat_meld_tokens(
                    env.melds@[p as int]@,
                    p_rel as int,
                    mi + 1,
                ));
            }
            mi += 1;
        }
        proof {
            assert(tokens@ =~= after_hand + spec_all_meld_tokens(menv, gme, p + 1));
        }
        p += 1;
    }
    let ghost after_melds = tokens@;

    let mut p: usize = 0;
    while p < 4
        invariant
            me < 4,
            menv == *env,
            gme == me as int,
            p <= 4,
            7 <= after_melds.len() <= 90,
            tokens@.len() == scalars@.len(),
            tokens@.len() <= after_melds.len() + 30 * p,
            obs_valid(menv, gme, hand@),
            tokens@ == after_melds + spec_all_river_tokens(menv, gme, p as int),
            scalars@[0] == zscal(),
            scalars@[1] == spec_round_scal(menv),
            forall|q: int| 0 <= q < 4 ==> #[trigger] scalars@[2 + q] == spec_score_scal(menv, q),
            forall|j: int| 6 <= j < scalars@.len() ==> #[trigger] scalars@[j] == zscal(),
        decreases 4 - p,
    {
        let p_rel = abs_to_rel(p as u8, me);
        let ghost seat_pre = tokens@;
        let rlen = env.discards[p].len();
        proof {
            assert(seat_river_ok(menv, p as int));
        }
        let mut ri: usize = 0;
        while ri < rlen
            invariant
                menv == *env,
                gme == me as int,
                p < 4,
                p_rel == spec_abs_to_rel(p as int, gme),
                rlen == env.discards@[p as int]@.len(),
                rlen <= 30,
                ri <= rlen,
                7 <= seat_pre.len() <= 90 + 30 * p,
                tokens@.len() == scalars@.len(),
                tokens@.len() == seat_pre.len() + ri,
                obs_valid(menv, gme, hand@),
                tokens@ == seat_pre + spec_seat_river_tokens(
                    env.discards@[p as int]@,
                    p_rel as int,
                ).take(ri as int),
                scalars@[0] == zscal(),
                scalars@[1] == spec_round_scal(menv),
                forall|q: int| 0 <= q < 4 ==> #[trigger] scalars@[2 + q] == spec_score_scal(menv, q),
                forall|j: int| 6 <= j < scalars@.len() ==> #[trigger] scalars@[j] == zscal(),
            decreases rlen - ri,
        {
            let e = env.discards[p][ri];
            let row = TokenRow {
                ttype: TOK_RIVER,
                seat: p_rel as i64,
                pos: ri as i64,
                pos2: 0,
                tile: e.0 as i64,
                aux1: e.1 as i64,
                aux2: 0,
            };
            match push_token(&mut tokens, &mut scalars, row, ScalarRow { c0: 0, c1: 0, c2: 0 }) {
                Ok(_) => {},
                Err(err) => {
                    return Err(err);
                },
            }
            proof {
                assert(row == spec_river_row(env.discards@[p as int]@[ri as int], p_rel as int, ri as int));
                assert(tokens@ =~= seat_pre + spec_seat_river_tokens(
                    env.discards@[p as int]@,
                    p_rel as int,
                ).take(ri + 1));
            }
            ri += 1;
        }
        proof {
            assert(spec_seat_river_tokens(env.discards@[p as int]@, p_rel as int).take(rlen as int)
                =~= spec_seat_river_tokens(env.discards@[p as int]@, p_rel as int));
            assert(tokens@ =~= after_melds + spec_all_river_tokens(menv, gme, p + 1));
        }
        p += 1;
    }
    proof {
        assert(sorted@ == hand@.sort_by(tile_leq()));
        assert(tokens@ =~= toks);
    }

    let n = tokens.len();
    while tokens.len() < MAX_STATE_TOKENS
        invariant
            n == toks.len(),
            7 <= n <= 210,
            tokens@.len() == scalars@.len(),
            n <= tokens@.len() <= 256,
            forall|j: int| 0 <= j < n ==> #[trigger] tokens@[j] == toks[j],
            forall|j: int| n <= j < tokens@.len() ==> #[trigger] tokens@[j] == zrow(),
            scalars@[0] == zscal(),
            scalars@[1] == spec_round_scal(menv),
            forall|q: int| 0 <= q < 4 ==> #[trigger] scalars@[2 + q] == spec_score_scal(menv, q),
            forall|j: int| 6 <= j < scalars@.len() ==> #[trigger] scalars@[j] == zscal(),
        decreases 256 - tokens@.len(),
    {
        tokens.push(TokenRow { ttype: 0, seat: 0, pos: 0, pos2: 0, tile: 0, aux1: 0, aux2: 0 });
        scalars.push(ScalarRow { c0: 0, c1: 0, c2: 0 });
    }
    let mut mask: Vec<bool> = Vec::new();
    let mut mi: usize = 0;
    while mi < MAX_STATE_TOKENS
        invariant
            n <= 210,
            mi <= 256,
            mask@.len() == mi,
            forall|j: int| 0 <= j < mi ==> #[trigger] mask@[j] == (j < n),
        decreases 256 - mi,
    {
        mask.push(mi < n);
        mi += 1;
    }
    Ok((tokens, scalars, mask))
}

/// One row of the action matrix: kind, declared tile, source seat
/// relative to the viewpoint, number of consumed tiles, and the two
/// presence flags.
#[derive(Clone, Copy, PartialEq, Eq, Structural, Debug)]
pub struct ActionRow {
    pub kind: i64,
    pub tile: i64,
    pub from: i64,
    pub consume_len: i64,
    pub has_tile: i64,
    pub has_from: i64,
}

/// The four consumed-tile slots of one action, sentinel-padded.
#[derive(Clone, Copy, PartialEq, Eq, Structural, Debug)]
pub struct ConsumeRow {
    pub t0: i64,
    pub t1: i64,
    pub t2: i64,
    pub t3: i64,
}

/// Validity of the four consumed-tile slots of one action.
#[derive(Clone, Copy, PartialEq, Eq, Structural, Debug)]
pub struct ConsumeMaskRow {
    pub m0: bool,
    pub m1: bool,
    pub m2: bool,
    pub m3: bool,
}

/// The all-zero action row used as padding.
pub open spec fn zact() -> ActionRow {
    ActionRow { kind: 0, tile: 0, from: 0, consume_len: 0, has_tile: 0, has_from: 0 }
}

/// The all-sentinel consume row used as padding.
pub open spec fn zconsume() -> ConsumeRow {
    ConsumeRow { t0: TID_NONE, t1: TID_NONE, t2: TID_NONE, t3: TID_NONE }
}

/// The all-false consume mask row.
pub open spec fn zconsume_mask() -> ConsumeMaskRow {
    ConsumeMaskRow { m0: false, m1: false, m2: false, m3: false }
}

/// An action kind that must carry a declared tile: discard and the
/// five meld calls.
pub open spec fn kind_has_tile(kind: i64) -> bool {
    0 <= kind <= 5
}

/// The declared tile and its presence flag of one action.
pub open spec fn spec_act_tile(a: crate::env::Action) -> (i64, i64) {
    if kind_has_tile(crate::schema::spec_action_kind(a.action_type)) {
        match a.tile {
            Some(t) => (t as i64, 1),
            None => (TID_NONE, 0),
        }
    } else {
        (TID_NONE, 0)
    }
}

/// The source seat and its presence flag of one action: the discarder
/// for the three claims, the discarder or the kan declarer for a ron.
pub open spec fn spec_act_from(env: RiichiEnv, me: int, kind: i64) -> (i64, i64) {
    if kind == 1 || kind == 2 || kind == 3 {
        match env.last_discard {
            Some(e) => (spec_abs_to_rel(e.0 as int, me) as i64, 1),
            None => (0, 0),
        }
    } else if kind == 7 {
        match env.last_discard {
            Some(e) => (spec_abs_to_rel(e.0 as int, me) as i64, 1),
            None => match env.pending_kan {
                Some(e) => (spec_abs_to_rel(e.0 as int, me) as i64, 1),
                None => (0, 0),
            },
        }
    } else {
        (0, 0)
    }
}

/// The action matrix row of one legal action.
pub open spec fn spec_action_row(env: RiichiEnv, me: int, a: crate::env::Action) -> ActionRow {
    let kind = crate::schema::spec_action_kind(a.action_type);
    ActionRow {
        kind: kind,
        tile: spec_act_tile(a).0,
        from: spec_act_from(env, me, kind).0,
        consume_len: a.consume_tiles@.len() as i64,
        has_tile: spec_act_tile(a).1,
        has_from: spec_act_from(env, me, kind).1,
    }
}

/// The value of one consumed-tile slot: the tile, or the sentinel.
pub open spec fn spec_consume_at(a: crate::env::Action, j: int) -> i64 {
    if 0 <= j < a.consume_tiles@.len() {
        a.consume_tiles@[j] as i64
    } else {
        TID_NONE
    }
}

/// The consume row of one action.
pub open spec fn spec_consume_row(a: crate::env::Action) -> ConsumeRow {
    ConsumeRow {
        t0: spec_consume_at(a, 0),
        t1: spec_consume_at(a, 1),
        t2: spec_consume_at(a, 2),
        t3: spec_consume_at(a, 3),
    }
}

/// The consume mask row of one action.
pub open spec fn spec_consume_mask_row(a: crate::env::Action) -> ConsumeMaskRow {
    let l = a.consume_tiles@.len() as int;
    ConsumeMaskRow { m0: 0 < l, m1: 1 < l, m2: 2 < l, m3: 3 < l }
}

/// One action fits the tensor shape: a real declared tile where the
/// kind carries one, and at most four real consumed tiles.
pub open spec fn act_ok(a: crate::env::Action) -> bool {
    &&& (kind_has_tile(crate::schema::spec_action_kind(a.action_type)) ==> match a.tile {
        Some(t) => t < 136,
        None => false,
    })
    &&& a.consume_tiles@.len() <= 4
    &&& forall|j: int| 0 <= j < a.consume_tiles@.len() ==> #[trigger] a.consume_tiles@[j] < 136
}

/// The legal-action list fits the action tensor shapes: non-empty, at
/// most 128 actions, each well-shaped.
pub open spec fn acts_valid(acts: Seq<crate::env::Action>) -> bool {
    &&& 1 <= acts.len() <= 128
    &&& forall|i: int| 0 <= i < acts.len() ==> #[trigger] act_ok(acts[i])
}

/// The encoded action matrices against the legal-action list.
pub open spec fn acts_match(
    env: RiichiEnv,
    me: int,
    acts: Seq<crate::env::Action>,
    am: Seq<ActionRow>,
    ac: Seq<ConsumeRow>,
    acm: Seq<ConsumeMaskRow>,
    lam: Seq<bool>,
) -> bool {
    &&& am.len() == 128
    &&& ac.len() == 128
    &&& acm.len() == 128
    &&& lam.len() == 128
    &&& acts.len() <= 128
    &&& forall|i: int| 0 <= i < acts.len() ==> #[trigger] am[i] == spec_action_row(env, me, acts[i])
    &&& forall|i: int| 0 <= i < acts.len() ==> #[trigger] ac[i] == spec_consume_row(acts[i])
    &&& forall|i: int| 0 <= i < acts.len() ==> #[trigger] acm[i] == spec_consume_mask_row(acts[i])
    &&& forall|i: int| acts.len() <= i < 128 ==> #[trigger] am[i] == zact()
    &&& forall|i: int| acts.len() <= i < 128 ==> #[trigger] ac[i] == zconsume()
    &&& forall|i: int| acts.len() <= i < 128 ==> #[trigger] acm[i] == zconsume_mask()
    &&& forall|i: int| 0 <= i < 128 ==> #[trigger] lam[i] == (i < acts.len())
}

/// Scan the legal-action list for the first thing that does not fit
/// the action tensor shapes.
fn find_acts_error(actions: &[crate::env::Action]) -> (r: Option<EncodeError>)
    ensures
        r is None <==> acts_valid(actions@),
{
    if actions.len() == 0 {
        return Some(EncodeError::NoLegalActions);
    }
    if actions.len() > 128 {
        return Some(EncodeError::TooManyActions);
    }
    let mut i: usize = 0;
    while i < actions.len()
        invariant
            1 <= actions@.len() <= 128,
            i <= actions@.len(),
            forall|j: int| 0 <= j < i ==> #[trigger] act_ok(actions@[j]),
        decreases actions@.len() - i,
    {
        let a = &actions[i];
        let kind = crate::schema::action_kind(a.action_type);
        if kind <= 5 {
            match a.tile {
                Some(t) => {
                    if t >= 136 {
                        proof {
                            assert(!act_ok(actions@[i as int]));
                        }
                        return Some(EncodeError::TidOutOfRange);
                    }
                },
                None => {
                    proof {
                        assert(!act_ok(actions@[i as int]));
                    }
                    return Some(EncodeError::ActionMissingTile);
                },
            }
        }
        if a.consume_tiles.len() > 4 {
            proof {
                assert(!act_ok(actions@[i as int]));
            }
            return Some(EncodeError::ConsumeTooLong);
        }
        let mut j: usize = 0;
        while j < a.consume_tiles.len()
            invariant
                i < actions@.len(),
                a == &actions@[i as int],
                a.consume_tiles@.len() <= 4,
                j <= a.consume_tiles@.len(),
                forall|l: int| 0 <= l < j ==> #[trigger] a.consume_tiles@[l] < 136,
            decreases a.consume_tiles@.len() - j,
        {
            if a.consume_tiles[j] >= 136 {
                proof {
                    assert(!act_ok(actions@[i as int]));
                }
                return Some(EncodeError::TidOutOfRange);
            }
            j += 1;
        }
        proof {
            assert(act_ok(actions@[i as int]));
        }
        i += 1;
    }
    None
}

/// Encode the legal-action half of a turn: the padded action matrix,
/// the consume matrix and mask, and the legal-slot mask.
pub fn encode_actions(env: &RiichiEnv, me: u8, actions: &[crate::env::Action]) -> (r: Result<
    (Vec<ActionRow>, Vec<ConsumeRow>, Vec<ConsumeMaskRow>, Vec<bool>),
    EncodeError,
>)
    requires
        me < 4,
    ensures
        match r {
            Ok(out) => acts_valid(actions@) && acts_match(
                *env,
                me as int,
                actions@,
                out.0@,
                out.1@,
                out.2@,
                out.3@,
            ),
            Err(_) => !acts_valid(actions@),
        },
{
    match find_acts_error(actions) {
        Some(e) => {
            return Err(e);
        },
        None => {},
    }
    let ghost menv = *env;
    let ghost gme = me as int;

    let last_from_rel: Option<u8> = match env.last_discard {
        Some(e) => Some(abs_to_rel(e.0, me)),
        None => None,
    };
    let kan_from_rel: Option<u8> = match env.pending_kan {
        Some(e) => Some(abs_to_rel(e.0, me)),
        None => None,
    };

    let mut am: Vec<ActionRow> = Vec::new();
    let mut ac: Vec<ConsumeRow> = Vec::new();
    let mut acm: Vec<ConsumeMaskRow> = Vec::new();
    let mut lam: Vec<bool> = Vec::new();

    let n = actions.len();
    let mut i: usize = 0;
    while i < n
        invariant
            menv == *env,
            gme == me as int,
            n == actions@.len(),
            1 <= n <= 128,
            i <= n,
            acts_valid(actions@),
            (match env.last_discard {
                Some(e) => last_from_rel == Some(abs_to_rel_u8(e.0 as int, gme)),
                None => last_from_rel is None,
            }),
            (match env.pending_kan {
                Some(e) => kan_from_rel == Some(abs_to_rel_u8(e.0 as int, gme)),
                None => kan_from_rel is None,
            }),
            am@.len() == i,
            ac@.len() == i,
            acm@.len() == i,
            lam@.len() == i,
            forall|j: int| 0 <= j < i ==> #[trigger] am@[j] == spec_action_row(menv, gme, actions@[j]),
            forall|j: int| 0 <= j < i ==> #[trigger] ac@[j] == spec_consume_row(actions@[j]),
            forall|j: int| 0 <= j < i ==> #[trigger] acm@[j] == spec_consume_mask_row(actions@[j]),
            forall|j: int| 0 <= j < i ==> #[trigger] lam@[j] == true,
        decreases n - i,
    {
        let a = &actions[i];
        proof {
            assert(act_ok(actions@[i as int]));
        }
        let kind = crate::schema::action_kind(a.action_type);
        let mut tile: i64 = TID_NONE;
        let mut has_tile: i64 = 0;
        if kind <= 5 {
            match a.tile {
                Some(t) => {
                    tile = t as i64;
                    has_tile = 1;
                },
                None => {},
            }
        }
        let mut from: i64 = 0;
        let mut has_from: i64 = 0;
        if kind == 1 || kind == 2 || kind == 3 {
            match last_from_rel {
                Some(src) => {
                    from = src as i64;
                    has_from = 1;
                },
                None => {},
            }
        } else if kind == 7 {
            match last_from_rel {
                Some(src) => {
                    from = src as i64;
                    has_from = 1;
                },
                None => {
                    match kan_from_rel {
                        Some(src) => {
                            from = src as i64;
                            has_from = 1;
                        },
                        None => {},
                    }
                },
            }
        }
        let l = a.consume_tiles.len();
        let row = ActionRow {
            kind: kind,
            tile: tile,
            from: from,
            consume_len: l as i64,
            has_tile: has_tile,
            has_from: has_from,
        };
        let crow = ConsumeRow {
            t0: if l > 0 {
                a.consume_tiles[0] as i64
            } else {
                TID_NONE
            },
            t1: if l > 1 {
                a.consume_tiles[1] as i64
            } else {
                TID_NONE
            },
            t2: if l > 2 {
                a.consume_tiles[2] as i64
            } else {
                TID_NONE
            },
            t3: if l > 3 {
                a.consume_tiles[3] as i64
            } else {
                TID_NONE
            },
        };
        let cmask = ConsumeMaskRow { m0: l > 0, m1: l > 1, m2: l > 2, m3: l > 3 };
        proof {
            assert(row == spec_action_row(menv, gme, actions@[i as int]));
            assert(crow == spec_consume_row(actions@[i as int]));
            assert(cmask == spec_consume_mask_row(actions@[i as int]));
        }
        am.push(row);
        ac.push(crow);
        acm.push(cmask);
        lam.push(true);
        i += 1;
    }
    let mut i: usize = n;
    while i < MAX_ACTIONS
        invariant
            1 <= n <= 128,
            n <= i <= 128,
            am@.len() == i,
            ac@.len() == i,
            acm@.len() == i,
            lam@.len() == i,
            forall|j: int| 0 <= j < n ==> #[trigger] am@[j] == spec_action_row(menv, gme, actions@[j]),
            forall|j: int| 0 <= j < n ==> #[trigger] ac@[j] == spec_consume_row(actions@[j]),
            forall|j: int| 0 <= j < n ==> #[trigger] acm@[j] == spec_consume_mask_row(actions@[j]),
            forall|j: int| 0 <= j < n ==> #[trigger] lam@[j] == true,
            forall|j: int| n <= j < i ==> #[trigger] am@[j] == zact(),
            forall|j: int| n <= j < i ==> #[trigger] ac@[j] == zconsume(),
            forall|j: int| n <= j < i ==> #[trigger] acm@[j] == zconsume_mask(),
            forall|j: int| n <= j < i ==> #[trigger] lam@[j] == false,
        decreases 128 - i,
    {
        am.push(ActionRow { kind: 0, tile: 0, from: 0, consume_len: 0, has_tile: 0, has_from: 0 });
        ac.push(ConsumeRow { t0: TID_NONE, t1: TID_NONE, t2: TID_NONE, t3: TID_NONE });
        acm.push(ConsumeMaskRow { m0: false, m1: false, m2: false, m3: false });
        lam.push(false);
        i += 1;
    }
    Ok((am, ac, acm, lam))
}

/// The relative seat of any absolute seat index, as a `u8`.
pub open spec fn abs_to_rel_u8(p_abs: int, me: int) -> u8 {
    spec_abs_to_rel(p_abs, me) as u8
}

/// The seven per-turn tensors: the observation token matrix, scalar
/// matrix and token mask, and the four legal-action matrices.
pub struct Y47Turn {
    pub token_main: Vec<TokenRow>,
    pub token_scalar: Vec<ScalarRow>,
    pub token_mask: Vec<bool>,
    pub action_main: Vec<ActionRow>,
    pub action_consume: Vec<ConsumeRow>,
    pub action_consume_mask: Vec<ConsumeMaskRow>,
    pub legal_action_mask: Vec<bool>,
}

impl Y47Turn {
    /// Bundle the seven arrays of one encoded turn.
    pub fn new(
        token_main: Vec<TokenRow>,
        token_scalar: Vec<ScalarRow>,
        token_mask: Vec<bool>,
        action_main: Vec<ActionRow>,
        action_consume: Vec<ConsumeRow>,
        action_consume_mask: Vec<ConsumeMaskRow>,
        legal_action_mask: Vec<bool>,
    ) -> (r: Y47Turn)
        ensures
            r.token_main@ == token_main@,
            r.token_scalar@ == token_scalar@,
            r.token_mask@ == token_mask@,
            r.action_main@ == action_main@,
            r.action_consume@ == action_consume@,
            r.action_consume_mask@ == action_consume_mask@,
            r.legal_action_mask@ == legal_action_mask@,
    {
        Y47Turn {
            token_main,
            token_scalar,
            token_mask,
            action_main,
            action_consume,
            action_consume_mask,
            legal_action_mask,
        }
    }
}

/// The seven tensors of one turn, against the snapshot they encode.
pub open spec fn turn_matches(
    env: RiichiEnv,
    me: int,
    hand: Seq<u8>,
    acts: Seq<crate::env::Action>,
    y: Y47Turn,
) -> bool {
    &&& obs_matches(env, me, hand, y.token_main@, y.token_scalar@, y.token_mask@)
    &&& acts_match(env, me, acts, y.action_main@, y.action_consume@, y.action_consume_mask@,
    y.legal_action_mask@)
}

/// Encode one full turn for the viewpoint seat `me`: observation
/// tensors of the snapshot and action tensors of the legal-action
/// list.
pub fn encode_turn(env: &RiichiEnv, me: u8, hand: &[u8], actions: &[crate::env::Action]) -> (r:
    Result<Y47Turn, EncodeError>)
    requires
        me < 4,
        env.oya < 4,
    ensures
        match r {
            Ok(y) => obs_valid(*env, me as int, hand@) && acts_valid(actions@) && turn_matches(
                *env,
                me as int,
                hand@,
                actions@,
                y,
            ),
            Err(_) => !obs_valid(*env, me as int, hand@) || !acts_valid(actions@),
        },
{
    let (token_main, token_scalar, token_mask) = match encode_observation(env, me, hand) {
        Ok(out) => out,
        Err(e) => {
            return Err(e);
        },
    };
    let (action_main, action_consume, action_consume_mask, legal_action_mask) =
        match encode_actions(env, me, actions) {
        Ok(out) => out,
        Err(e) => {
            return Err(e);
        },
    };
    Ok(
        Y47Turn::new(
            token_main,
            token_scalar,
            token_mask,
            action_main,
            action_consume,
            action_consume_mask,
            legal_action_mask,
        ),
    )
}

/// Encoding is a function of the snapshot alone: two turns encoded
/// from the same snapshot, viewpoint, hand and legal-action list hold
/// identical tensors.
pub proof fn lemma_encode_round_trip(
    env: RiichiEnv,
    me: int,
    hand: Seq<u8>,
    acts: Seq<crate::env::Action>,
    y1: Y47Turn,
    y2: Y47Turn,
)
    requires
        turn_matches(env, me, hand, acts, y1),
        turn_matches(env, me, hand, acts, y2),
    ensures
        y1.token_main@ == y2.token_main@,
        y1.token_scalar@ == y2.token_scalar@,
        y1.token_mask@ == y2.token_mask@,
        y1.action_main@ == y2.action_main@,
        y1.action_consume@ == y2.action_consume@,
        y1.action_consume_mask@ == y2.action_consume_mask@,
        y1.legal_action_mask@ == y2.legal_action_mask@,
{
    let toks = spec_obs_tokens(env, me, hand.sort_by(tile_leq()));
    assert(y1.token_main@ =~= y2.token_main@);
    assert forall|i: int| 0 <= i < 256 implies y1.token_scalar@[i] == y2.token_scalar@[i] by {
        if i >= toks.len() {
            assert(y1.token_scalar@[i] == zscal());
            assert(y2.token_scalar@[i] == zscal());
        } else if i >= 6 {
            assert(y1.token_scalar@[i] == zscal());
            assert(y2.token_scalar@[i] == zscal());
        } else if 2 <= i < 6 {
            assert(y1.token_scalar@[2 + (i - 2)] == spec_score_scal(env, i - 2));
            assert(y2.token_scalar@[2 + (i - 2)] == spec_score_scal(env, i - 2));
        }
    }
    assert(y1.token_scalar@ =~= y2.token_scalar@);
    assert(y1.token_mask@ =~= y2.token_mask@);
    assert(y1.action_main@ =~= y2.action_main@);
    assert(y1.action_consume@ =~= y2.action_consume@);
    assert(y1.action_consume_mask@ =~= y2.action_consume_mask@);
    assert(y1.legal_action_mask@ =~= y2.legal_action_mask@);
}

} // verus!
