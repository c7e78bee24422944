//! Yaku and fu evaluation: score a winning hand and its context into
//! han, fu and the list of scored yaku.
//!
//! Yaku ids: 1 riichi, 2 ippatsu, 3 menzen tsumo, 4 pinfu, 5 tanyao,
//! 6 iipeikou, 7 round-wind triplet, 8 seat-wind triplet, 9 dragon
//! triplet (once per dragon), 11 sanshoku-doujun, 12 ittsuu, 13 chanta,
//! 14 toitoi, 15 sanankou, 16 sanshoku-doukou, 17 sankantsu,
//! 18 honitsu, 19 junchan, 20 ryanpeikou, 21 shousangen, 22 chinitsu,
//! 23 chiitoitsu, 24 haitei, 25 houtei, 26 rinshan, 27 chankan.
//! Yakuman ids: 30 tenhou, 31 chiihou, 32 kokushi, 33 daisangen,
//! 34 suuankou, 35 suuankou tanki, 36 shousuushii, 37 chinroutou,
//! 38 suukantsu, 39 tsuuiisou, 40 ryuuiisou, 41 chuuren-poutou,
//! 42 pure nine-wait chuuren, 50 daisuushii. Each counts 13 han;
//! the single-wait, pure nine-gates and four-big-winds forms count 26.

use vstd::prelude::*;
use crate::agari::{
    find_parse, spec_chiitoitsu, spec_kokushi, spec_standard, to_ints, valid_parse,
};
use crate::types::{is_honor, is_terminal, is_terminal_or_honor, Hand, Meld, MeldType};

verus! {

/// One meld of the fully parsed winning hand, concealed part and open
/// melds alike: a run or a triplet/quad, with concealment for fu and
/// the concealed-triplet yaku.
#[derive(Clone, Copy, PartialEq, Eq, Structural, Debug)]
pub struct SetInfo {
    pub is_run: bool,
    pub kind: u8,
    pub concealed: bool,
    pub quad: bool,
}

/// Context of the win, as the state machine knows it.
pub struct YakuContext {
    pub is_oya: bool,
    pub round_wind: u8,
    pub seat_wind: u8,
    pub is_tsumo: bool,
    pub riichi: bool,
    pub double_riichi: bool,
    pub ippatsu: bool,
    pub haitei: bool,
    pub houtei: bool,
    pub rinshan: bool,
    pub chankan: bool,
    pub dora_indicators: Vec<u8>,
    pub is_first_turn: bool,
}

impl Default for YakuContext {
    /// A plain ron out of riichi, winds East, no dora, not the first
    /// turn.
    fn default() -> (r: YakuContext)
        ensures
            !r.is_oya,
            r.round_wind == 0,
            r.seat_wind == 0,
            !r.is_tsumo,
            !r.riichi,
            !r.double_riichi,
            !r.ippatsu,
            !r.haitei,
            !r.houtei,
            !r.rinshan,
            !r.chankan,
            r.dora_indicators@.len() == 0,
            !r.is_first_turn,
    {
        YakuContext {
            is_oya: false,
            round_wind: 0,
            seat_wind: 0,
            is_tsumo: false,
            riichi: false,
            double_riichi: false,
            ippatsu: false,
            haitei: false,
            houtei: false,
            rinshan: false,
            chankan: false,
            dora_indicators: Vec::new(),
            is_first_turn: false,
        }
    }
}

/// The outcome of yaku evaluation: total han, fu, the scored yaku ids
/// in a fixed order, and the limit class (0 none, 1 mangan, 2 haneman,
/// 3 baiman, 4 sanbaiman, 5 yakuman).
pub struct YakuResult {
    pub han: u32,
    pub fu: u32,
    pub yaku_ids: Vec<u32>,
    pub limit: u32,
}

/// The hand holds a triplet or quad of kind `k`.
pub open spec fn has_trip(sets: Seq<SetInfo>, k: int) -> bool {
    exists|i: int| 0 <= i < sets.len() && !(#[trigger] sets[i]).is_run && sets[i].kind == k
}

/// The hand holds a run starting at kind `k`.
pub open spec fn has_run(sets: Seq<SetInfo>, k: int) -> bool {
    exists|i: int| 0 <= i < sets.len() && (#[trigger] sets[i]).is_run && sets[i].kind == k
}

/// Number of runs starting at kind `k`.
pub open spec fn n_runs_of(sets: Seq<SetInfo>, k: int) -> int
    decreases sets.len(),
{
    if sets.len() == 0 {
        0
    } else {
        n_runs_of(sets.drop_last(), k) + if sets.last().is_run && sets.last().kind == k {
            1int
        } else {
            0int
        }
    }
}

/// Number of quads.
pub open spec fn n_quads(sets: Seq<SetInfo>) -> int
    decreases sets.len(),
{
    if sets.len() == 0 {
        0
    } else {
        n_quads(sets.drop_last()) + if sets.last().quad {
            1int
        } else {
            0int
        }
    }
}

/// Number of concealed triplets and quads.
pub open spec fn n_concealed_trips(sets: Seq<SetInfo>) -> int
    decreases sets.len(),
{
    if sets.len() == 0 {
        0
    } else {
        n_concealed_trips(sets.drop_last()) + if !sets.last().is_run && sets.last().concealed {
            1int
        } else {
            0int
        }
    }
}

/// Number of disjoint pairs of identical runs (an iipeikou pair each),
/// counting a quadruple run as two such pairs.
pub open spec fn n_identical_run_pairs(sets: Seq<SetInfo>) -> int {
    sum_run_pairs(sets, 34)
}

/// Sum over kinds below `n` of how many disjoint identical-run pairs
/// stand at that kind.
pub open spec fn sum_run_pairs(sets: Seq<SetInfo>, n: int) -> int
    decreases n,
{
    if n <= 0 {
        0
    } else {
        sum_run_pairs(sets, n - 1) + n_runs_of(sets, n - 1) / 2
    }
}

/// All sets are runs.
pub open spec fn all_runs(sets: Seq<SetInfo>) -> bool {
    forall|i: int| 0 <= i < sets.len() ==> (#[trigger] sets[i]).is_run
}

/// All sets are triplets or quads.
pub open spec fn all_trips(sets: Seq<SetInfo>) -> bool {
    forall|i: int| 0 <= i < sets.len() ==> !(#[trigger] sets[i]).is_run
}

/// A set contains a terminal or honor tile.
pub open spec fn set_has_terminal_or_honor(s: SetInfo) -> bool {
    if s.is_run {
        s.kind % 9 == 0 || s.kind % 9 == 6
    } else {
        is_terminal_or_honor(s.kind as int)
    }
}

/// A set contains a terminal tile and no honor.
pub open spec fn set_has_terminal(s: SetInfo) -> bool {
    if s.is_run {
        s.kind % 9 == 0 || s.kind % 9 == 6
    } else {
        is_terminal(s.kind as int)
    }
}

/// The pair kind is a yakuhai kind: seat wind, round wind or dragon.
pub open spec fn pair_is_yakuhai(pair: int, ctx: YakuContext) -> bool {
    pair == 27 + ctx.round_wind || pair == 27 + ctx.seat_wind || 31 <= pair < 34
}

/// A kind is one of the six green tiles: 2,3,4,6,8 of sou and hatsu.
pub open spec fn is_green(k: int) -> bool {
    k == 19 || k == 20 || k == 21 || k == 23 || k == 25 || k == 32
}

/// Every held tile satisfies the kind predicate `ok` (over the full
/// count vector, melds included).
pub open spec fn counts_all_in(ca: Seq<int>, lo: int, hi: int) -> bool {
    forall|k: int| 0 <= k < 34 && #[trigger] ca[k] > 0 ==> lo <= k < hi
}

/// All tiles lie in one suit (possibly with honors when `honors_ok`).
pub open spec fn one_suit(ca: Seq<int>, suit: int, honors_ok: bool) -> bool {
    forall|k: int| 0 <= k < 34 && #[trigger] ca[k] > 0 ==> (suit * 9 <= k < suit * 9 + 9 || (
    honors_ok && is_honor(k)))
}

/// Some honor tile is held.
pub open spec fn any_honor(ca: Seq<int>) -> bool {
    exists|k: int| 27 <= k < 34 && #[trigger] ca[k] > 0
}

/// No terminal or honor tile is held: tanyao.
pub open spec fn spec_tanyao(ca: Seq<int>) -> bool {
    forall|k: int| 0 <= k < 34 && #[trigger] ca[k] > 0 ==> !is_terminal_or_honor(k)
}

/// Only honor tiles are held: tsuuiisou.
pub open spec fn spec_all_honors(ca: Seq<int>) -> bool {
    forall|k: int| 0 <= k < 34 && #[trigger] ca[k] > 0 ==> is_honor(k)
}

/// Only terminal tiles are held: chinroutou.
pub open spec fn spec_all_terminals(ca: Seq<int>) -> bool {
    forall|k: int| 0 <= k < 34 && #[trigger] ca[k] > 0 ==> is_terminal(k)
}

/// Only green tiles are held: ryuuiisou.
pub open spec fn spec_all_green(ca: Seq<int>) -> bool {
    forall|k: int| 0 <= k < 34 && #[trigger] ca[k] > 0 ==> is_green(k)
}

/// There is a suit such that all tiles lie in it, honors aside, and at
/// least one honor is held: honitsu.
pub open spec fn spec_honitsu(ca: Seq<int>) -> bool {
    (one_suit(ca, 0, true) || one_suit(ca, 1, true) || one_suit(ca, 2, true)) && any_honor(ca)
}

/// All tiles lie in one suit with no honors: chinitsu.
pub open spec fn spec_chinitsu(ca: Seq<int>) -> bool {
    one_suit(ca, 0, false) || one_suit(ca, 1, false) || one_suit(ca, 2, false)
}

/// The same run stands in all three suits: sanshoku-doujun.
pub open spec fn spec_sanshoku(sets: Seq<SetInfo>) -> bool {
    exists|r: int| 0 <= r <= 6 && #[trigger] has_run(sets, r) && has_run(sets, r + 9) && has_run(
        sets,
        r + 18,
    )
}

/// The same triplet rank stands in all three suits: sanshoku-doukou.
pub open spec fn spec_sanshoku_doukou(sets: Seq<SetInfo>) -> bool {
    exists|r: int| 0 <= r <= 8 && #[trigger] has_trip(sets, r) && has_trip(sets, r + 9) && has_trip(
        sets,
        r + 18,
    )
}

/// 123-456-789 of one suit: ittsuu.
pub open spec fn spec_ittsuu(sets: Seq<SetInfo>) -> bool {
    exists|s: int| 0 <= s <= 2 && #[trigger] has_run(sets, s * 9) && has_run(sets, s * 9 + 3)
        && has_run(sets, s * 9 + 6)
}

/// Every meld and the pair contain a terminal or honor: chanta.
pub open spec fn spec_chanta(sets: Seq<SetInfo>, pair: int) -> bool {
    (forall|i: int| 0 <= i < sets.len() ==> set_has_terminal_or_honor(#[trigger] sets[i]))
        && is_terminal_or_honor(pair)
}

/// Every meld and the pair contain a terminal, no honors: junchan.
pub open spec fn spec_junchan(sets: Seq<SetInfo>, pair: int) -> bool {
    (forall|i: int| 0 <= i < sets.len() ==> set_has_terminal(#[trigger] sets[i])) && is_terminal(
        pair,
    )
}

/// The win tile completes some run two-sidedly: a ryanmen wait.
pub open spec fn spec_ryanmen_wait(sets: Seq<SetInfo>, win: int) -> bool {
    exists|i: int| 0 <= i < sets.len() && (#[trigger] sets[i]).is_run && {
        let k = sets[i].kind as int;
        (win == k && k % 9 != 6) || (win == k + 2 && k % 9 != 0)
    }
}

/// Some run of the parse contains the win tile.
pub open spec fn spec_win_in_run(sets: Seq<SetInfo>, win: int) -> bool {
    exists|i: int| 0 <= i < sets.len() && (#[trigger] sets[i]).is_run && sets[i].kind <= win
        <= sets[i].kind + 2
}

/// Pinfu: closed, all runs, pair not yakuhai, two-sided wait.
pub open spec fn spec_pinfu(
    sets: Seq<SetInfo>,
    pair: int,
    menzen: bool,
    ctx: YakuContext,
    win: int,
) -> bool {
    menzen && all_runs(sets) && !pair_is_yakuhai(pair, ctx) && spec_ryanmen_wait(sets, win)
}

/// The dora kind named by an indicator kind: the next tile in its
/// class, wrapping within suits, winds and dragons.
pub open spec fn spec_dora_next(ind: int) -> int {
    if ind < 9 {
        (ind + 1) % 9
    } else if ind < 18 {
        9 + (ind - 9 + 1) % 9
    } else if ind < 27 {
        18 + (ind - 18 + 1) % 9
    } else if ind < 31 {
        27 + (ind - 27 + 1) % 4
    } else {
        31 + (ind - 31 + 1) % 3
    }
}

/// Total dora han: for each indicator, the count of the named kind.
pub open spec fn spec_dora_han(ca: Seq<int>, inds: Seq<u8>) -> int
    decreases inds.len(),
{
    if inds.len() == 0 {
        0
    } else {
        spec_dora_han(ca, inds.drop_last()) + ca[spec_dora_next(inds.last() as int)]
    }
}

/// A count vector fit for yaku evaluation: 34 kinds, melds included,
/// so at most 14 concealed plus 16 meld tiles of one kind.
pub open spec fn ca_ok(v: Seq<u8>) -> bool {
    v.len() == 34 && forall|j: int| 0 <= j < 34 ==> #[trigger] v[j] <= 30
}

/// Does the hand hold a triplet or quad of kind `k`?
fn e_has_trip(sets: &Vec<SetInfo>, k: u8) -> (r: bool)
    ensures
        r == has_trip(sets@, k as int),
{
    let mut i: usize = 0;
    while i < sets.len()
        invariant
            i <= sets@.len(),
            forall|j: int| 0 <= j < i ==> (#[trigger] sets@[j]).is_run || sets@[j].kind != k,
        decreases sets@.len() - i,
    {
        if !sets[i].is_run && sets[i].kind == k {
            return true;
        }
        i += 1;
    }
    false
}

/// Does the hand hold a run starting at kind `k`?
fn e_has_run(sets: &Vec<SetInfo>, k: u8) -> (r: bool)
    ensures
        r == has_run(sets@, k as int),
{
    let mut i: usize = 0;
    while i < sets.len()
        invariant
            i <= sets@.len(),
            forall|j: int| 0 <= j < i ==> !(#[trigger] sets@[j]).is_run || sets@[j].kind != k,
        decreases sets@.len() - i,
    {
        if sets[i].is_run && sets[i].kind == k {
            return true;
        }
        i += 1;
    }
    false
}

/// Number of runs starting at kind `k`.
fn e_n_runs_of(sets: &Vec<SetInfo>, k: u8) -> (r: usize)
    requires
        sets@.len() <= 8,
    ensures
        r == n_runs_of(sets@, k as int),
        r <= sets@.len(),
{
    let mut n: usize = 0;
    let mut i: usize = 0;
    while i < sets.len()
        invariant
            sets@.len() <= 8,
            i <= sets@.len(),
            n <= i,
            n == n_runs_of(sets@.take(i as int), k as int),
        decreases sets@.len() - i,
    {
        proof {
            assert(sets@.take(i + 1).drop_last() =~= sets@.take(i as int));
        }
        if sets[i].is_run && sets[i].kind == k {
            n += 1;
        }
        i += 1;
    }
    proof {
        assert(sets@.take(sets@.len() as int) =~= sets@);
        lemma_n_runs_of_le(sets@, k as int);
    }
    n
}

/// The number of runs of one kind is bounded by the number of sets.
proof fn lemma_n_runs_of_le(sets: Seq<SetInfo>, k: int)
    ensures
        0 <= n_runs_of(sets, k) <= sets.len(),
    decreases sets.len(),
{
    if sets.len() > 0 {
        lemma_n_runs_of_le(sets.drop_last(), k);
    }
}

/// Number of quads.
fn e_n_quads(sets: &Vec<SetInfo>) -> (r: usize)
    requires
        sets@.len() <= 8,
    ensures
        r == n_quads(sets@),
{
    let mut n: usize = 0;
    let mut i: usize = 0;
    while i < sets.len()
        invariant
            sets@.len() <= 8,
            i <= sets@.len(),
            n <= i,
            n == n_quads(sets@.take(i as int)),
        decreases sets@.len() - i,
    {
        proof {
            assert(sets@.take(i + 1).drop_last() =~= sets@.take(i as int));
        }
        if sets[i].quad {
            n += 1;
        }
        i += 1;
    }
    proof {
        assert(sets@.take(sets@.len() as int) =~= sets@);
    }
    n
}

/// Number of concealed triplets and quads.
fn e_n_concealed_trips(sets: &Vec<SetInfo>) -> (r: usize)
    requires
        sets@.len() <= 8,
    ensures
        r == n_concealed_trips(sets@),
{
    let mut n: usize = 0;
    let mut i: usize = 0;
    while i < sets.len()
        invariant
            sets@.len() <= 8,
            i <= sets@.len(),
            n <= i,
            n == n_concealed_trips(sets@.take(i as int)),
        decreases sets@.len() - i,
    {
        proof {
            assert(sets@.take(i + 1).drop_last() =~= sets@.take(i as int));
        }
        if !sets[i].is_run && sets[i].concealed {
            n += 1;
        }
        i += 1;
    }
    proof {
        assert(sets@.take(sets@.len() as int) =~= sets@);
    }
    n
}

/// Number of disjoint identical-run pairs.
fn e_n_identical_run_pairs(sets: &Vec<SetInfo>) -> (r: usize)
    requires
        sets@.len() <= 8,
    ensures
        r == n_identical_run_pairs(sets@),
{
    let mut n: usize = 0;
    let mut k: usize = 0;
    while k < 34
        invariant
            sets@.len() <= 8,
            k <= 34,
            n <= 4 * k,
            n == sum_run_pairs(sets@, k as int),
        decreases 34 - k,
    {
        let nr = e_n_runs_of(sets, k as u8);
        n += nr / 2;
        k += 1;
    }
    n
}

/// Are all sets runs?
fn e_all_runs(sets: &Vec<SetInfo>) -> (r: bool)
    ensures
        r == all_runs(sets@),
{
    let mut i: usize = 0;
    while i < sets.len()
        invariant
            i <= sets@.len(),
            forall|j: int| 0 <= j < i ==> (#[trigger] sets@[j]).is_run,
        decreases sets@.len() - i,
    {
        if !sets[i].is_run {
            return false;
        }
        i += 1;
    }
    true
}

/// Are all sets triplets or quads?
fn e_all_trips(sets: &Vec<SetInfo>) -> (r: bool)
    ensures
        r == all_trips(sets@),
{
    let mut i: usize = 0;
    while i < sets.len()
        invariant
            i <= sets@.len(),
            forall|j: int| 0 <= j < i ==> !(#[trigger] sets@[j]).is_run,
        decreases sets@.len() - i,
    {
        if sets[i].is_run {
            return false;
        }
        i += 1;
    }
    true
}

/// Does every set contain a terminal or honor?
fn e_all_sets_th(sets: &Vec<SetInfo>) -> (r: bool)
    ensures
        r == (forall|i: int| 0 <= i < sets@.len() ==> set_has_terminal_or_honor(
            #[trigger] sets@[i],
        )),
{
    let mut i: usize = 0;
    while i < sets.len()
        invariant
            i <= sets@.len(),
            forall|j: int| 0 <= j < i ==> set_has_terminal_or_honor(#[trigger] sets@[j]),
        decreases sets@.len() - i,
    {
        let s = sets[i];
        let ok = if s.is_run {
            s.kind % 9 == 0 || s.kind % 9 == 6
        } else {
            let k = s.kind;
            k == 0 || k == 8 || k == 9 || k == 17 || k == 18 || (26 <= k && k < 34)
        };
        if !ok {
            proof {
                assert(!set_has_terminal_or_honor(sets@[i as int]));
            }
            return false;
        }
        i += 1;
    }
    true
}

/// Does every set contain a terminal, with no honors?
fn e_all_sets_terminal(sets: &Vec<SetInfo>) -> (r: bool)
    ensures
        r == (forall|i: int| 0 <= i < sets@.len() ==> set_has_terminal(#[trigger] sets@[i])),
{
    let mut i: usize = 0;
    while i < sets.len()
        invariant
            i <= sets@.len(),
            forall|j: int| 0 <= j < i ==> set_has_terminal(#[trigger] sets@[j]),
        decreases sets@.len() - i,
    {
        let s = sets[i];
        let ok = if s.is_run {
            s.kind % 9 == 0 || s.kind % 9 == 6
        } else {
            let k = s.kind;
            k == 0 || k == 8 || k == 9 || k == 17 || k == 18 || k == 26
        };
        if !ok {
            proof {
                assert(!set_has_terminal(sets@[i as int]));
            }
            return false;
        }
        i += 1;
    }
    true
}

/// Does the win tile complete some run two-sidedly?
fn e_ryanmen_wait(sets: &Vec<SetInfo>, win: u8) -> (r: bool)
    ensures
        r == spec_ryanmen_wait(sets@, win as int),
{
    let mut i: usize = 0;
    while i < sets.len()
        invariant
            i <= sets@.len(),
            forall|j: int| 0 <= j < i ==> !((#[trigger] sets@[j]).is_run && {
                let k = sets@[j].kind as int;
                (win == k && k % 9 != 6) || (win == k + 2 && k % 9 != 0)
            }),
        decreases sets@.len() - i,
    {
        let s = sets[i];
        if s.is_run {
            let k = s.kind;
            if (win == k && k % 9 != 6) || (win as u32 == k as u32 + 2 && k % 9 != 0) {
                return true;
            }
        }
        i += 1;
    }
    false
}

/// Does some run of the parse contain the win tile?
fn e_win_in_run(sets: &Vec<SetInfo>, win: u8) -> (r: bool)
    ensures
        r == spec_win_in_run(sets@, win as int),
{
    let mut i: usize = 0;
    while i < sets.len()
        invariant
            i <= sets@.len(),
            forall|j: int| 0 <= j < i ==> !((#[trigger] sets@[j]).is_run && sets@[j].kind <= win
                <= sets@[j].kind + 2),
        decreases sets@.len() - i,
    {
        let s = sets[i];
        if s.is_run && s.kind <= win && win as u32 <= s.kind as u32 + 2 {
            return true;
        }
        i += 1;
    }
    false
}

/// Does every held tile satisfy the closed kind test `f`? The test is
/// given by code below; this scans the count vector for a violation of
/// the corresponding spec predicate.
fn e_tanyao(ca: &Vec<u8>) -> (r: bool)
    requires
        ca_ok(ca@),
    ensures
        r == spec_tanyao(to_ints(ca@)),
{
    let mut k: usize = 0;
    while k < 34
        invariant
            ca_ok(ca@),
            k <= 34,
            forall|j: int| 0 <= j < k && #[trigger] to_ints(ca@)[j] > 0 ==> !is_terminal_or_honor(
                j,
            ),
        decreases 34 - k,
    {
        let th = k == 0 || k == 8 || k == 9 || k == 17 || k == 18 || k >= 26;
        if th && ca[k] > 0 {
            proof {
                assert(to_ints(ca@)[k as int] > 0);
                assert(is_terminal_or_honor(k as int));
            }
            return false;
        }
        k += 1;
    }
    true
}

/// Are only honor tiles held?
fn e_all_honors(ca: &Vec<u8>) -> (r: bool)
    requires
        ca_ok(ca@),
    ensures
        r == spec_all_honors(to_ints(ca@)),
{
    let mut k: usize = 0;
    while k < 34
        invariant
            ca_ok(ca@),
            k <= 34,
            forall|j: int| 0 <= j < k && #[trigger] to_ints(ca@)[j] > 0 ==> is_honor(j),
        decreases 34 - k,
    {
        if k < 27 && ca[k] > 0 {
            proof {
                assert(to_ints(ca@)[k as int] > 0);
                assert(!is_honor(k as int));
            }
            return false;
        }
        k += 1;
    }
    true
}

/// Are only terminal tiles held?
fn e_all_terminals(ca: &Vec<u8>) -> (r: bool)
    requires
        ca_ok(ca@),
    ensures
        r == spec_all_terminals(to_ints(ca@)),
{
    let mut k: usize = 0;
    while k < 34
        invariant
            ca_ok(ca@),
            k <= 34,
            forall|j: int| 0 <= j < k && #[trigger] to_ints(ca@)[j] > 0 ==> is_terminal(j),
        decreases 34 - k,
    {
        let t = k == 0 || k == 8 || k == 9 || k == 17 || k == 18 || k == 26;
        if !t && ca[k] > 0 {
            proof {
                assert(to_ints(ca@)[k as int] > 0);
                assert(!is_terminal(k as int));
            }
            return false;
        }
        k += 1;
    }
    true
}

/// Are only green tiles held?
fn e_all_green(ca: &Vec<u8>) -> (r: bool)
    requires
        ca_ok(ca@),
    ensures
        r == spec_all_green(to_ints(ca@)),
{
    let mut k: usize = 0;
    while k < 34
        invariant
            ca_ok(ca@),
            k <= 34,
            forall|j: int| 0 <= j < k && #[trigger] to_ints(ca@)[j] > 0 ==> is_green(j),
        decreases 34 - k,
    {
        let g = k == 19 || k == 20 || k == 21 || k == 23 || k == 25 || k == 32;
        if !g && ca[k] > 0 {
            proof {
                assert(to_ints(ca@)[k as int] > 0);
                assert(!is_green(k as int));
            }
            return false;
        }
        k += 1;
    }
    true
}

/// Is some honor tile held?
fn e_any_honor(ca: &Vec<u8>) -> (r: bool)
    requires
        ca_ok(ca@),
    ensures
        r == any_honor(to_ints(ca@)),
{
    let mut k: usize = 27;
    while k < 34
        invariant
            ca_ok(ca@),
            27 <= k <= 34,
            forall|j: int| 27 <= j < k ==> #[trigger] to_ints(ca@)[j] <= 0,
        decreases 34 - k,
    {
        if ca[k] > 0 {
            proof {
                assert(to_ints(ca@)[k as int] > 0);
            }
            return true;
        }
        k += 1;
    }
    false
}

/// Do all tiles lie in the given suit, honors admitted when asked?
fn e_one_suit(ca: &Vec<u8>, suit: usize, honors_ok: bool) -> (r: bool)
    requires
        ca_ok(ca@),
        suit < 3,
    ensures
        r == one_suit(to_ints(ca@), suit as int, honors_ok),
{
    let mut k: usize = 0;
    while k < 34
        invariant
            ca_ok(ca@),
            suit < 3,
            k <= 34,
            forall|j: int| 0 <= j < k && #[trigger] to_ints(ca@)[j] > 0 ==> (suit * 9 <= j < suit
                * 9 + 9 || (honors_ok && is_honor(j))),
        decreases 34 - k,
    {
        let in_suit = suit * 9 <= k && k < suit * 9 + 9;
        let honor = k >= 27;
        if ca[k] > 0 && !(in_suit || (honors_ok && honor)) {
            proof {
                assert(to_ints(ca@)[k as int] > 0);
            }
            return false;
        }
        k += 1;
    }
    true
}

/// The dora kind named by an indicator kind.
fn e_dora_next(ind: u8) -> (r: u8)
    requires
        ind < 34,
    ensures
        r == spec_dora_next(ind as int),
        r < 34,
{
    if ind < 9 {
        (ind + 1) % 9
    } else if ind < 18 {
        9 + (ind - 9 + 1) % 9
    } else if ind < 27 {
        18 + (ind - 18 + 1) % 9
    } else if ind < 31 {
        27 + (ind - 27 + 1) % 4
    } else {
        31 + (ind - 31 + 1) % 3
    }
}

/// Total dora han of the hand against the indicator list.
fn e_dora_han(ca: &Vec<u8>, inds: &Vec<u8>) -> (r: u32)
    requires
        ca_ok(ca@),
        inds@.len() <= 5,
        forall|j: int| 0 <= j < inds@.len() ==> #[trigger] inds@[j] < 34,
    ensures
        r == spec_dora_han(to_ints(ca@), inds@),
        r <= 150,
{
    let mut n: u32 = 0;
    let mut i: usize = 0;
    while i < inds.len()
        invariant
            ca_ok(ca@),
            inds@.len() <= 5,
            forall|j: int| 0 <= j < inds@.len() ==> #[trigger] inds@[j] < 34,
            i <= inds@.len(),
            n <= 30 * i,
            n == spec_dora_han(to_ints(ca@), inds@.take(i as int)),
        decreases inds@.len() - i,
    {
        proof {
            assert(inds@.take(i + 1).drop_last() =~= inds@.take(i as int));
        }
        let dk = e_dora_next(inds[i]);
        n += ca[dk as usize] as u32;
        i += 1;
    }
    proof {
        assert(inds@.take(inds@.len() as int) =~= inds@);
    }
    n
}

/// A singleton id list when the yaku is scored, else nothing.
pub open spec fn sif(b: bool, id: u32) -> Seq<u32> {
    if b {
        seq![id]
    } else {
        Seq::empty()
    }
}

/// Append the id when the yaku is scored.
pub open spec fn pif(s: Seq<u32>, b: bool, id: u32) -> Seq<u32> {
    if b {
        s.push(id)
    } else {
        s
    }
}

/// Number of dragon triplets held (0..3).
pub open spec fn n_dragon_trips(sets: Seq<SetInfo>) -> int {
    (if has_trip(sets, 31) {
        1int
    } else {
        0int
    }) + (if has_trip(sets, 32) {
        1int
    } else {
        0int
    }) + (if has_trip(sets, 33) {
        1int
    } else {
        0int
    })
}

/// Number of wind triplets held (0..4).
pub open spec fn n_wind_trips(sets: Seq<SetInfo>) -> int {
    (if has_trip(sets, 27) {
        1int
    } else {
        0int
    }) + (if has_trip(sets, 28) {
        1int
    } else {
        0int
    }) + (if has_trip(sets, 29) {
        1int
    } else {
        0int
    }) + (if has_trip(sets, 30) {
        1int
    } else {
        0int
    })
}

/// The nine-gates base count of a rank: three of the 1 and the 9, one
/// of everything between.
pub open spec fn spec_chuuren_base(r: int) -> int {
    if r == 0 || r == 8 {
        3
    } else {
        1
    }
}

/// Sum of the counts of the first `n` ranks of a suit.
pub open spec fn suit_sum(ca: Seq<int>, s: int, n: int) -> int
    decreases n,
{
    if n <= 0 {
        0
    } else {
        suit_sum(ca, s, n - 1) + ca[s * 9 + n - 1]
    }
}

/// The counts of one suit dominate the nine-gates pattern and total
/// fourteen tiles.
pub open spec fn spec_chuuren_suit(ca: Seq<int>, s: int) -> bool {
    (forall|r: int| 0 <= r < 9 ==> #[trigger] ca[s * 9 + r] >= spec_chuuren_base(r)) && suit_sum(
        ca,
        s,
        9,
    ) == 14
}

/// Chuuren-poutou: one suit only, nine-gates pattern plus one tile.
pub open spec fn spec_chuuren(ca: Seq<int>) -> bool {
    ||| (one_suit(ca, 0, false) && spec_chuuren_suit(ca, 0))
    ||| (one_suit(ca, 1, false) && spec_chuuren_suit(ca, 1))
    ||| (one_suit(ca, 2, false) && spec_chuuren_suit(ca, 2))
}

/// The pure nine-sided wait: the extra tile is the winning tile.
pub open spec fn spec_junsei(ca: Seq<int>, win: int) -> bool {
    ca[win] == spec_chuuren_base(win % 9) + 1
}

/// Any yakuman of the standard shape is present.
pub open spec fn spec_std_yakuman(
    ca: Seq<int>,
    sets: Seq<SetInfo>,
    pair: int,
    menzen: bool,
    melds_empty: bool,
    ctx: YakuContext,
    win: int,
) -> bool {
    ||| (ctx.is_first_turn && ctx.is_tsumo && menzen)
    ||| n_dragon_trips(sets) == 3
    ||| n_concealed_trips(sets) == 4
    ||| (n_wind_trips(sets) == 3 && 27 <= pair < 31)
    ||| n_wind_trips(sets) == 4
    ||| spec_all_terminals(ca)
    ||| spec_all_honors(ca)
    ||| spec_all_green(ca)
    ||| n_quads(sets) == 4
    ||| (melds_empty && spec_chuuren(ca))
}

/// The yakuman ids scored on a standard-shape hand, in id order.
/// The yakuman id list from the decided conditions, in id order.
pub open spec fn spec_std_yakuman_ids(
    first: bool,
    oya: bool,
    nd3: bool,
    nct4: bool,
    tanki: bool,
    shousuu: bool,
    daisuu: bool,
    all_term: bool,
    all_hon: bool,
    all_grn: bool,
    nq4: bool,
    chuuren: bool,
    junsei: bool,
) -> Seq<u32> {
    pif(
        pif(
            pif(
                pif(
                    pif(
                        pif(
                            pif(
                                pif(
                                    pif(
                                        pif(
                                            pif(
                                                pif(
                                                    pif(Seq::empty(), first && oya, 30),
                                                    first && !oya,
                                                    31,
                                                ),
                                                nd3,
                                                33,
                                            ),
                                            nct4 && !tanki,
                                            34,
                                        ),
                                        nct4 && tanki,
                                        35,
                                    ),
                                    shousuu,
                                    36,
                                ),
                                all_term,
                                37,
                            ),
                            nq4,
                            38,
                        ),
                        all_hon,
                        39,
                    ),
                    all_grn,
                    40,
                ),
                chuuren && !junsei,
                41,
            ),
            chuuren && junsei,
            42,
        ),
        daisuu,
        50,
    )
}

/// The yakuman han total from the decided conditions: thirteen per
/// yakuman, twenty-six for the double forms.
pub open spec fn spec_std_yakuman_han(
    first: bool,
    nd3: bool,
    nct4: bool,
    tanki: bool,
    shousuu: bool,
    daisuu: bool,
    all_term: bool,
    all_hon: bool,
    all_grn: bool,
    nq4: bool,
    chuuren: bool,
    junsei: bool,
) -> int {
    (if first {
        13int
    } else {
        0int
    }) + (if nd3 {
        13int
    } else {
        0int
    }) + (if nct4 {
        if tanki {
            26int
        } else {
            13int
        }
    } else {
        0int
    }) + (if shousuu {
        13int
    } else {
        0int
    }) + (if daisuu {
        26int
    } else {
        0int
    }) + (if all_term {
        13int
    } else {
        0int
    }) + (if all_hon {
        13int
    } else {
        0int
    }) + (if all_grn {
        13int
    } else {
        0int
    }) + (if nq4 {
        13int
    } else {
        0int
    }) + (if chuuren {
        if junsei {
            26int
        } else {
            13int
        }
    } else {
        0int
    })
}

/// The first stage of the ordinary yaku id list: ids 1 through the
/// dragon yakuhai.
#[verifier::opaque]
pub open spec fn spec_std_ids_a(
    menzen: bool,
    riichi: bool,
    ippatsu: bool,
    tsumo: bool,
    pinfu: bool,
    tanyao: bool,
    nirp: int,
    round_trip: bool,
    seat_trip: bool,
    nd: int,
) -> Seq<u32> {
    pif(
        pif(
            pif(
                pif(
                    pif(
                        pif(
                            pif(
                                pif(
                                    pif(pif(Seq::empty(), riichi, 1), ippatsu, 2),
                                    tsumo,
                                    3,
                                ),
                                pinfu,
                                4,
                            ),
                            tanyao,
                            5,
                        ),
                        menzen && nirp == 1,
                        6,
                    ),
                    round_trip,
                    7,
                ),
                seat_trip,
                8,
            ),
            nd >= 1,
            9,
        ),
        nd >= 2,
        9,
    )
}

/// The second stage: ids 11 through honitsu.
#[verifier::opaque]
pub open spec fn spec_std_ids_b(
    s: Seq<u32>,
    menzen: bool,
    sanshoku: bool,
    ittsuu: bool,
    chanta: bool,
    toitoi: bool,
    nct3: bool,
    doukou: bool,
    nq3: bool,
    honitsu: bool,
) -> Seq<u32> {
    pif(
        pif(
            pif(
                pif(
                    pif(pif(pif(pif(s, sanshoku, 11), ittsuu, 12), chanta, 13), toitoi, 14),
                    nct3,
                    15,
                ),
                doukou,
                16,
            ),
            nq3,
            17,
        ),
        honitsu,
        18,
    )
}

/// The third stage: ids 19 through chankan.
#[verifier::opaque]
pub open spec fn spec_std_ids_c(
    s: Seq<u32>,
    menzen: bool,
    nirp: int,
    junchan: bool,
    shousangen: bool,
    chinitsu: bool,
    haitei: bool,
    houtei: bool,
    rinshan: bool,
    chankan: bool,
) -> Seq<u32> {
    pif(
        pif(
            pif(
                pif(
                    pif(
                        pif(pif(pif(s, junchan, 19), menzen && nirp >= 2, 20), shousangen, 21),
                        chinitsu,
                        22,
                    ),
                    haitei,
                    24,
                ),
                houtei,
                25,
            ),
            rinshan,
            26,
        ),
        chankan,
        27,
    )
}

/// The ordinary yaku id list from the decided conditions, in id order,
/// with the dragon yakuhai id once per dragon triplet.
#[verifier::opaque]
pub open spec fn spec_std_ids(
    menzen: bool,
    riichi: bool,
    ippatsu: bool,
    tsumo: bool,
    pinfu: bool,
    tanyao: bool,
    nirp: int,
    round_trip: bool,
    seat_trip: bool,
    nd: int,
    sanshoku: bool,
    ittsuu: bool,
    chanta: bool,
    toitoi: bool,
    nct3: bool,
    doukou: bool,
    nq3: bool,
    honitsu: bool,
    junchan: bool,
    shousangen: bool,
    chinitsu: bool,
    haitei: bool,
    houtei: bool,
    rinshan: bool,
    chankan: bool,
) -> Seq<u32> {
    spec_std_ids_c(
        spec_std_ids_b(
            spec_std_ids_a(menzen, riichi, ippatsu, tsumo, pinfu, tanyao, nirp, round_trip,
            seat_trip, nd),
            menzen,
            sanshoku,
            ittsuu,
            chanta,
            toitoi,
            nct3,
            doukou,
            nq3,
            honitsu,
        ),
        menzen,
        nirp,
        junchan,
        shousangen,
        chinitsu,
        haitei,
        houtei,
        rinshan,
        chankan,
    )
}

/// The first stage of the ordinary han total: riichi through the
/// dragon yakuhai.
#[verifier::opaque]
pub open spec fn spec_std_han_a(
    menzen: bool,
    riichi: bool,
    double_riichi: bool,
    ippatsu: bool,
    tsumo: bool,
    pinfu: bool,
    tanyao: bool,
    nirp: int,
    round_trip: bool,
    seat_trip: bool,
    nd: int,
) -> int {
    (if riichi {
        if double_riichi {
            2int
        } else {
            1int
        }
    } else {
        0int
    }) + (if ippatsu {
        1int
    } else {
        0int
    }) + (if tsumo {
        1int
    } else {
        0int
    }) + (if pinfu {
        1int
    } else {
        0int
    }) + (if tanyao {
        1int
    } else {
        0int
    }) + (if menzen && nirp == 1 {
        1int
    } else {
        0int
    }) + (if round_trip {
        1int
    } else {
        0int
    }) + (if seat_trip {
        1int
    } else {
        0int
    }) + nd
}

/// The second stage: sanshoku through honitsu, on top of the first.
#[verifier::opaque]
pub open spec fn spec_std_han_b(
    acc: int,
    menzen: bool,
    sanshoku: bool,
    ittsuu: bool,
    chanta: bool,
    toitoi: bool,
    nct3: bool,
    doukou: bool,
    nq3: bool,
    honitsu: bool,
) -> int {
    acc + (if sanshoku {
        if menzen {
            2int
        } else {
            1int
        }
    } else {
        0int
    }) + (if ittsuu {
        if menzen {
            2int
        } else {
            1int
        }
    } else {
        0int
    }) + (if chanta {
        if menzen {
            2int
        } else {
            1int
        }
    } else {
        0int
    }) + (if toitoi {
        2int
    } else {
        0int
    }) + (if nct3 {
        2int
    } else {
        0int
    }) + (if doukou {
        2int
    } else {
        0int
    }) + (if nq3 {
        2int
    } else {
        0int
    }) + (if honitsu {
        if menzen {
            3int
        } else {
            2int
        }
    } else {
        0int
    })
}

/// The third stage: junchan through chankan and the dora, on top of
/// the second.
#[verifier::opaque]
pub open spec fn spec_std_han_c(
    acc: int,
    menzen: bool,
    nirp: int,
    junchan: bool,
    shousangen: bool,
    chinitsu: bool,
    haitei: bool,
    houtei: bool,
    rinshan: bool,
    chankan: bool,
    dora: int,
) -> int {
    acc + (if junchan {
        if menzen {
            3int
        } else {
            2int
        }
    } else {
        0int
    }) + (if menzen && nirp >= 2 {
        3int
    } else {
        0int
    }) + (if shousangen {
        2int
    } else {
        0int
    }) + (if chinitsu {
        if menzen {
            6int
        } else {
            5int
        }
    } else {
        0int
    }) + (if haitei {
        1int
    } else {
        0int
    }) + (if houtei {
        1int
    } else {
        0int
    }) + (if rinshan {
        1int
    } else {
        0int
    }) + (if chankan {
        1int
    } else {
        0int
    }) + dora
}

/// The ordinary han total from the decided conditions, dora included.
#[verifier::opaque]
pub open spec fn spec_std_han(
    menzen: bool,
    riichi: bool,
    double_riichi: bool,
    ippatsu: bool,
    tsumo: bool,
    pinfu: bool,
    tanyao: bool,
    nirp: int,
    round_trip: bool,
    seat_trip: bool,
    nd: int,
    sanshoku: bool,
    ittsuu: bool,
    chanta: bool,
    toitoi: bool,
    nct3: bool,
    doukou: bool,
    nq3: bool,
    honitsu: bool,
    junchan: bool,
    shousangen: bool,
    chinitsu: bool,
    haitei: bool,
    houtei: bool,
    rinshan: bool,
    chankan: bool,
    dora: int,
) -> int {
    spec_std_han_c(
        spec_std_han_b(
            spec_std_han_a(menzen, riichi, double_riichi, ippatsu, tsumo, pinfu, tanyao, nirp,
            round_trip, seat_trip, nd),
            menzen,
            sanshoku,
            ittsuu,
            chanta,
            toitoi,
            nct3,
            doukou,
            nq3,
            honitsu,
        ),
        menzen,
        nirp,
        junchan,
        shousangen,
        chinitsu,
        haitei,
        houtei,
        rinshan,
        chankan,
        dora,
    )
}

/// Fu value of one set: nothing for a run; for triplets and quads the
/// table value by openness, terminal-or-honor and quadness.
pub open spec fn set_fu(s: SetInfo) -> int {
    if s.is_run {
        0
    } else {
        (if s.concealed {
            4int
        } else {
            2int
        }) * (if is_terminal_or_honor(s.kind as int) {
            2int
        } else {
            1int
        }) * (if s.quad {
            4int
        } else {
            1int
        })
    }
}

/// Total fu of all sets.
pub open spec fn sets_fu(sets: Seq<SetInfo>) -> int
    decreases sets.len(),
{
    if sets.len() == 0 {
        0
    } else {
        sets_fu(sets.drop_last()) + set_fu(sets.last())
    }
}

/// Fu of the pair: two per yakuhai role it fills, so a doubled wind
/// pair gives four.
pub open spec fn pair_fu(pair: int, ctx: YakuContext) -> int {
    (if pair == 27 + ctx.round_wind {
        2int
    } else {
        0int
    }) + (if pair == 27 + ctx.seat_wind {
        2int
    } else {
        0int
    }) + (if 31 <= pair < 34 {
        2int
    } else {
        0int
    })
}

/// The hand holds a concealed triplet or quad of kind `k`.
pub open spec fn has_concealed_trip(sets: Seq<SetInfo>, k: int) -> bool {
    exists|i: int|
        0 <= i < sets.len() && !(#[trigger] sets[i]).is_run && sets[i].concealed && sets[i].kind
            == k
}

/// Fu of the wait: nothing on a two-sided wait, two on a pair, middle
/// or edge wait, or a shanpon resolved on a concealed triplet.
pub open spec fn wait_fu(sets: Seq<SetInfo>, pair: int, win: int) -> int {
    if spec_ryanmen_wait(sets, win) {
        0
    } else if win == pair {
        2
    } else if spec_win_in_run(sets, win) {
        2
    } else if has_concealed_trip(sets, win) {
        2
    } else {
        0
    }
}

/// Round fu up to the next ten.
pub open spec fn round10(x: int) -> int {
    ((x + 9) / 10) * 10
}

/// Total fu of a standard-shape hand: base twenty, ten for a closed
/// ron, two for a tsumo outside pinfu, the set, pair and wait values,
/// rounded up to ten. Pinfu comes out as twenty on tsumo and thirty on
/// ron.
pub open spec fn spec_std_fu(
    sets: Seq<SetInfo>,
    pair: int,
    menzen: bool,
    ctx: YakuContext,
    win: int,
) -> int {
    let pinfu = spec_pinfu(sets, pair, menzen, ctx, win);
    round10(
        20 + (if menzen && !ctx.is_tsumo {
            10int
        } else {
            0int
        }) + (if ctx.is_tsumo && !pinfu {
            2int
        } else {
            0int
        }) + sets_fu(sets) + pair_fu(pair, ctx) + wait_fu(sets, pair, win),
    )
}

/// The limit class of a scored hand: yakuman, sanbaiman, baiman,
/// haneman, mangan, or none.
pub open spec fn spec_limit(han: int, fu: int) -> int {
    if han >= 13 {
        5
    } else if han >= 11 {
        4
    } else if han >= 8 {
        3
    } else if han >= 6 {
        2
    } else if crate::score::spec_base_points(han, fu) >= 2000 {
        1
    } else {
        0
    }
}

/// Total fu of all sets.
fn e_sets_fu(sets: &Vec<SetInfo>) -> (r: u32)
    requires
        sets@.len() <= 8,
    ensures
        r == sets_fu(sets@),
        r <= 8 * 32,
{
    let mut n: u32 = 0;
    let mut i: usize = 0;
    while i < sets.len()
        invariant
            sets@.len() <= 8,
            i <= sets@.len(),
            n <= 32 * i,
            n == sets_fu(sets@.take(i as int)),
        decreases sets@.len() - i,
    {
        proof {
            assert(sets@.take(i + 1).drop_last() =~= sets@.take(i as int));
        }
        let s = sets[i];
        let v: u32 = if s.is_run {
            0
        } else {
            let k = s.kind;
            let th = k == 0 || k == 8 || k == 9 || k == 17 || k == 18 || (26 <= k && k < 34);
            let base: u32 = if s.concealed {
                4
            } else {
                2
            };
            let mult: u32 = if th {
                2
            } else {
                1
            };
            let quad: u32 = if s.quad {
                4
            } else {
                1
            };
            base * mult * quad
        };
        n += v;
        i += 1;
    }
    proof {
        assert(sets@.take(sets@.len() as int) =~= sets@);
    }
    n
}

/// The limit class of a han and fu total.
fn e_limit(han: u32, fu: u32) -> (r: u32)
    requires
        fu <= 1000,
    ensures
        r == spec_limit(han as int, fu as int),
{
    if han >= 13 {
        5
    } else if han >= 11 {
        4
    } else if han >= 8 {
        3
    } else if han >= 6 {
        2
    } else {
        let mult: u32 = if han == 0 {
            4
        } else if han == 1 {
            8
        } else if han == 2 {
            16
        } else if han == 3 {
            32
        } else if han == 4 {
            64
        } else {
            128
        };
        if fu * mult >= 2000 {
            1
        } else {
            0
        }
    }
}

/// The hand holds a concealed triplet or quad of kind `k`.
fn e_has_concealed_trip(sets: &Vec<SetInfo>, k: u8) -> (r: bool)
    ensures
        r == has_concealed_trip(sets@, k as int),
{
    let mut i: usize = 0;
    while i < sets.len()
        invariant
            i <= sets@.len(),
            forall|j: int| 0 <= j < i ==> !(!(#[trigger] sets@[j]).is_run && sets@[j].concealed
                && sets@[j].kind == k),
        decreases sets@.len() - i,
    {
        if !sets[i].is_run && sets[i].concealed && sets[i].kind == k {
            return true;
        }
        i += 1;
    }
    false
}

/// Does any suit dominate the nine-gates pattern with fourteen tiles?
fn e_chuuren_suit(ca: &Vec<u8>, s: usize) -> (r: bool)
    requires
        ca_ok(ca@),
        s < 3,
    ensures
        r == spec_chuuren_suit(to_ints(ca@), s as int),
{
    let mut sum: u32 = 0;
    let mut rk: usize = 0;
    let mut ok = true;
    while rk < 9
        invariant
            ca_ok(ca@),
            s < 3,
            rk <= 9,
            sum <= 30 * rk,
            sum == suit_sum(to_ints(ca@), s as int, rk as int),
            ok == (forall|r: int| 0 <= r < rk ==> #[trigger] to_ints(ca@)[s * 9 + r]
                >= spec_chuuren_base(r)),
        decreases 9 - rk,
    {
        let need: u8 = if rk == 0 || rk == 8 {
            3
        } else {
            1
        };
        if ca[s * 9 + rk] < need {
            proof {
                assert(!(to_ints(ca@)[s * 9 + rk as int] >= spec_chuuren_base(rk as int)));
            }
            ok = false;
        }
        sum += ca[s * 9 + rk] as u32;
        rk += 1;
    }
    ok && sum == 14
}

/// Is the hand a nine-gates shape in some suit?
fn e_chuuren(ca: &Vec<u8>) -> (r: bool)
    requires
        ca_ok(ca@),
    ensures
        r == spec_chuuren(to_ints(ca@)),
{
    if e_one_suit(ca, 0, false) && e_chuuren_suit(ca, 0) {
        return true;
    }
    if e_one_suit(ca, 1, false) && e_chuuren_suit(ca, 1) {
        return true;
    }
    if e_one_suit(ca, 2, false) && e_chuuren_suit(ca, 2) {
        return true;
    }
    false
}

/// Evaluate a fully parsed standard-shape hand: yakuman take the hand
/// whole, else the ordinary yaku with dora, plus fu and the limit
/// class.

/// Total fu of a parsed standard-shape hand.
fn eval_std_fu(sets: &Vec<SetInfo>, pair: u8, menzen: bool, ctx: &YakuContext, win: u8) -> (r: u32)
    requires
        sets@.len() <= 8,
        pair < 34,
        win < 34,
        ctx.round_wind < 4,
        ctx.seat_wind < 4,
    ensures
        r == spec_std_fu(sets@, pair as int, menzen, *ctx, win as int),
        r <= 320,
{
    let sfu = e_sets_fu(sets);
    let pfu: u32 = (if pair == 27 + ctx.round_wind {
        2u32
    } else {
        0u32
    }) + (if pair == 27 + ctx.seat_wind {
        2u32
    } else {
        0u32
    }) + (if pair >= 31 {
        2u32
    } else {
        0u32
    });
    let ryanmen = e_ryanmen_wait(sets, win);
    let wfu: u32 = if ryanmen {
        0
    } else if win == pair {
        2
    } else if e_win_in_run(sets, win) {
        2
    } else if e_has_concealed_trip(sets, win) {
        2
    } else {
        0
    };
    let all_run = e_all_runs(sets);
    let pair_yakuhai = pair == 27 + ctx.round_wind || pair == 27 + ctx.seat_wind || pair >= 31;
    let pinfu = menzen && all_run && !pair_yakuhai && ryanmen;
    proof {
        assert(pinfu == spec_pinfu(sets@, pair as int, menzen, *ctx, win as int));
        assert(pfu as int == pair_fu(pair as int, *ctx));
        assert(wfu as int == wait_fu(sets@, pair as int, win as int));
    }
    let raw_fu: u32 = 20 + (if menzen && !ctx.is_tsumo {
        10u32
    } else {
        0u32
    }) + (if ctx.is_tsumo && !pinfu {
        2u32
    } else {
        0u32
    }) + sfu + pfu + wfu;
    let fu = ((raw_fu + 9) / 10) * 10;
    proof {
        assert(fu as int == spec_std_fu(sets@, pair as int, menzen, *ctx, win as int));
    }
    fu
}

/// The same run stands in all three suits?
fn e_sanshoku(sets: &Vec<SetInfo>) -> (r: bool)
    ensures
        r == spec_sanshoku(sets@),
{
    let mut found = false;
    let mut rk: usize = 0;
    while rk < 7
        invariant
            rk <= 7,
            found == (exists|r: int|
                0 <= r < rk && #[trigger] has_run(sets@, r) && has_run(sets@, r + 9) && has_run(
                    sets@,
                    r + 18,
                )),
        decreases 7 - rk,
    {
        if e_has_run(sets, rk as u8) && e_has_run(sets, rk as u8 + 9) && e_has_run(
            sets,
            rk as u8 + 18,
        ) {
            found = true;
        }
        rk += 1;
    }
    found
}

/// The same triplet rank stands in all three suits?
fn e_sanshoku_doukou(sets: &Vec<SetInfo>) -> (r: bool)
    ensures
        r == spec_sanshoku_doukou(sets@),
{
    let mut found = false;
    let mut rk: usize = 0;
    while rk < 9
        invariant
            rk <= 9,
            found == (exists|r: int|
                0 <= r < rk && #[trigger] has_trip(sets@, r) && has_trip(sets@, r + 9) && has_trip(
                    sets@,
                    r + 18,
                )),
        decreases 9 - rk,
    {
        if e_has_trip(sets, rk as u8) && e_has_trip(sets, rk as u8 + 9) && e_has_trip(
            sets,
            rk as u8 + 18,
        ) {
            found = true;
        }
        rk += 1;
    }
    found
}

/// 123-456-789 of a single suit?
fn e_ittsuu(sets: &Vec<SetInfo>) -> (r: bool)
    ensures
        r == spec_ittsuu(sets@),
{
    let mut found = false;
    let mut su: usize = 0;
    while su < 3
        invariant
            su <= 3,
            found == (exists|s: int|
                0 <= s < su && #[trigger] has_run(sets@, s * 9) && has_run(sets@, s * 9 + 3)
                    && has_run(sets@, s * 9 + 6)),
        decreases 3 - su,
    {
        if e_has_run(sets, (su * 9) as u8) && e_has_run(sets, (su * 9 + 3) as u8) && e_has_run(
            sets,
            (su * 9 + 6) as u8,
        ) {
            found = true;
        }
        su += 1;
    }
    found
}

/// Concatenating a singleton is a push.
proof fn lemma_concat_singleton(s: Seq<u32>, x: u32)
    ensures
        s + seq![x] == s.push(x),
{
    assert(s + seq![x] =~= s.push(x));
}

/// Concatenating nothing changes nothing.
proof fn lemma_concat_empty(s: Seq<u32>)
    ensures
        s + Seq::<u32>::empty() == s,
{
    assert(s + Seq::<u32>::empty() =~= s);
}

/// Assemble the yakuman id list and han total from the decided
/// conditions.
fn yakuman_ids_han(
    first: bool,
    oya: bool,
    nd3: bool,
    nct4: bool,
    tanki: bool,
    shousuu: bool,
    daisuu: bool,
    all_term: bool,
    all_hon: bool,
    all_grn: bool,
    nq4: bool,
    chuuren: bool,
    junsei: bool,
) -> (r: (Vec<u32>, u32))
    ensures
        r.0@ == spec_std_yakuman_ids(first, oya, nd3, nct4, tanki, shousuu, daisuu, all_term,
        all_hon, all_grn, nq4, chuuren, junsei),
        r.1 as int == spec_std_yakuman_han(first, nd3, nct4, tanki, shousuu, daisuu, all_term,
        all_hon, all_grn, nq4, chuuren, junsei),
{
    let mut ids: Vec<u32> = Vec::new();
    let mut han: u32 = 0;
    if first && oya {
        ids.push(30);
    }
    if first {
        han += 13;
    }
    if first && !oya {
        ids.push(31);
    }
    if nd3 {
        ids.push(33);
        han += 13;
    }
    if nct4 && !tanki {
        ids.push(34);
        han += 13;
    }
    if nct4 && tanki {
        ids.push(35);
        han += 26;
    }
    if shousuu {
        ids.push(36);
        han += 13;
    }
    if all_term {
        ids.push(37);
        han += 13;
    }
    if nq4 {
        ids.push(38);
        han += 13;
    }
    if all_hon {
        ids.push(39);
        han += 13;
    }
    if all_grn {
        ids.push(40);
        han += 13;
    }
    if chuuren && !junsei {
        ids.push(41);
        han += 13;
    }
    if chuuren && junsei {
        ids.push(42);
        han += 26;
    }
    if daisuu {
        ids.push(50);
        han += 26;
    }
    proof {
        assert(ids@ == spec_std_yakuman_ids(first, oya, nd3, nct4, tanki, shousuu, daisuu,
        all_term, all_hon, all_grn, nq4, chuuren, junsei));
    }
    (ids, han)
}

/// The first stage of the ordinary id list.
#[verifier::rlimit(100)]
#[verifier::spinoff_prover]
fn regular_ids_a(
    menzen: bool,
    riichi: bool,
    ippatsu: bool,
    tsumo: bool,
    pinfu: bool,
    tanyao: bool,
    nirp: usize,
    round_trip: bool,
    seat_trip: bool,
    nd: u32,
) -> (r: Vec<u32>)
    ensures
        r@ == spec_std_ids_a(menzen, riichi, ippatsu, tsumo, pinfu, tanyao, nirp as int,
        round_trip, seat_trip, nd as int),
{
    let mut ids: Vec<u32> = Vec::new();
    if riichi {
        ids.push(1);
    }
    if ippatsu {
        ids.push(2);
    }
    if tsumo {
        ids.push(3);
    }
    if pinfu {
        ids.push(4);
    }
    if tanyao {
        ids.push(5);
    }
    if menzen && nirp == 1 {
        ids.push(6);
    }
    if round_trip {
        ids.push(7);
    }
    if seat_trip {
        ids.push(8);
    }
    if nd >= 1 {
        ids.push(9);
    }
    if nd >= 2 {
        ids.push(9);
    }
    proof {
        assert(ids@ == spec_std_ids_a(menzen, riichi, ippatsu, tsumo, pinfu, tanyao, nirp as int,
        round_trip, seat_trip, nd as int)) by {
            reveal(spec_std_ids_a);
        }
    }
    ids
}

/// The second stage of the ordinary id list.
#[verifier::rlimit(100)]
#[verifier::spinoff_prover]
fn regular_ids_b(
    ids_in: Vec<u32>,
    menzen: bool,
    sanshoku: bool,
    ittsuu: bool,
    chanta: bool,
    toitoi: bool,
    nct3: bool,
    doukou: bool,
    nq3: bool,
    honitsu: bool,
) -> (r: Vec<u32>)
    ensures
        r@ == spec_std_ids_b(ids_in@, menzen, sanshoku, ittsuu, chanta, toitoi, nct3, doukou, nq3,
        honitsu),
{
    let mut ids = ids_in;
    if sanshoku {
        ids.push(11);
    }
    if ittsuu {
        ids.push(12);
    }
    if chanta {
        ids.push(13);
    }
    if toitoi {
        ids.push(14);
    }
    if nct3 {
        ids.push(15);
    }
    if doukou {
        ids.push(16);
    }
    if nq3 {
        ids.push(17);
    }
    if honitsu {
        ids.push(18);
    }
    proof {
        assert(ids@ == spec_std_ids_b(ids_in@, menzen, sanshoku, ittsuu, chanta, toitoi, nct3,
        doukou, nq3, honitsu)) by {
            reveal(spec_std_ids_b);
        }
    }
    ids
}

/// The third stage of the ordinary id list.
#[verifier::rlimit(100)]
#[verifier::spinoff_prover]
fn regular_ids_c(
    ids_in: Vec<u32>,
    menzen: bool,
    nirp: usize,
    junchan: bool,
    shousangen: bool,
    chinitsu: bool,
    haitei: bool,
    houtei: bool,
    rinshan: bool,
    chankan: bool,
) -> (r: Vec<u32>)
    ensures
        r@ == spec_std_ids_c(ids_in@, menzen, nirp as int, junchan, shousangen, chinitsu, haitei,
        houtei, rinshan, chankan),
{
    let mut ids = ids_in;
    if junchan {
        ids.push(19);
    }
    if menzen && nirp >= 2 {
        ids.push(20);
    }
    if shousangen {
        ids.push(21);
    }
    if chinitsu {
        ids.push(22);
    }
    if haitei {
        ids.push(24);
    }
    if houtei {
        ids.push(25);
    }
    if rinshan {
        ids.push(26);
    }
    if chankan {
        ids.push(27);
    }
    proof {
        assert(ids@ == spec_std_ids_c(ids_in@, menzen, nirp as int, junchan, shousangen, chinitsu,
        haitei, houtei, rinshan, chankan)) by {
            reveal(spec_std_ids_c);
        }
    }
    ids
}

/// The first stage of the ordinary han total.
#[verifier::rlimit(100)]
#[verifier::spinoff_prover]
fn regular_han_a(
    menzen: bool,
    riichi: bool,
    double_riichi: bool,
    ippatsu: bool,
    tsumo: bool,
    pinfu: bool,
    tanyao: bool,
    nirp: usize,
    round_trip: bool,
    seat_trip: bool,
    nd: u32,
) -> (r: u32)
    requires
        nd <= 3,
    ensures
        r as int == spec_std_han_a(menzen, riichi, double_riichi, ippatsu, tsumo, pinfu, tanyao,
        nirp as int, round_trip, seat_trip, nd as int),
        r <= 14,
{
    let r: u32 = (if riichi {
        if double_riichi {
            2u32
        } else {
            1u32
        }
    } else {
        0u32
    }) + (if ippatsu {
        1u32
    } else {
        0u32
    }) + (if tsumo {
        1u32
    } else {
        0u32
    }) + (if pinfu {
        1u32
    } else {
        0u32
    }) + (if tanyao {
        1u32
    } else {
        0u32
    }) + (if menzen && nirp == 1 {
        1u32
    } else {
        0u32
    }) + (if round_trip {
        1u32
    } else {
        0u32
    }) + (if seat_trip {
        1u32
    } else {
        0u32
    }) + nd;
    proof {
        assert(r as int == spec_std_han_a(menzen, riichi, double_riichi, ippatsu, tsumo, pinfu,
        tanyao, nirp as int, round_trip, seat_trip, nd as int)) by {
            reveal(spec_std_han_a);
        }
    }
    r
}

/// The second stage of the ordinary han total.
#[verifier::rlimit(100)]
#[verifier::spinoff_prover]
fn regular_han_b(
    acc: u32,
    menzen: bool,
    sanshoku: bool,
    ittsuu: bool,
    chanta: bool,
    toitoi: bool,
    nct3: bool,
    doukou: bool,
    nq3: bool,
    honitsu: bool,
) -> (r: u32)
    requires
        acc <= 14,
    ensures
        r as int == spec_std_han_b(acc as int, menzen, sanshoku, ittsuu, chanta, toitoi, nct3,
        doukou, nq3, honitsu),
        r <= 31,
{
    let r: u32 = acc + (if sanshoku {
        if menzen {
            2u32
        } else {
            1u32
        }
    } else {
        0u32
    }) + (if ittsuu {
        if menzen {
            2u32
        } else {
            1u32
        }
    } else {
        0u32
    }) + (if chanta {
        if menzen {
            2u32
        } else {
            1u32
        }
    } else {
        0u32
    }) + (if toitoi {
        2u32
    } else {
        0u32
    }) + (if nct3 {
        2u32
    } else {
        0u32
    }) + (if doukou {
        2u32
    } else {
        0u32
    }) + (if nq3 {
        2u32
    } else {
        0u32
    }) + (if honitsu {
        if menzen {
            3u32
        } else {
            2u32
        }
    } else {
        0u32
    });
    proof {
        assert(r as int == spec_std_han_b(acc as int, menzen, sanshoku, ittsuu, chanta, toitoi,
        nct3, doukou, nq3, honitsu)) by {
            reveal(spec_std_han_b);
        }
    }
    r
}

/// The third stage of the ordinary han total.
#[verifier::rlimit(100)]
#[verifier::spinoff_prover]
fn regular_han_c(
    acc: u32,
    menzen: bool,
    nirp: usize,
    junchan: bool,
    shousangen: bool,
    chinitsu: bool,
    haitei: bool,
    houtei: bool,
    rinshan: bool,
    chankan: bool,
    dora: u32,
) -> (r: u32)
    requires
        acc <= 31,
        dora <= 150,
    ensures
        r as int == spec_std_han_c(acc as int, menzen, nirp as int, junchan, shousangen, chinitsu,
        haitei, houtei, rinshan, chankan, dora as int),
        r <= 200,
{
    let r: u32 = acc + (if junchan {
        if menzen {
            3u32
        } else {
            2u32
        }
    } else {
        0u32
    }) + (if menzen && nirp >= 2 {
        3u32
    } else {
        0u32
    }) + (if shousangen {
        2u32
    } else {
        0u32
    }) + (if chinitsu {
        if menzen {
            6u32
        } else {
            5u32
        }
    } else {
        0u32
    }) + (if haitei {
        1u32
    } else {
        0u32
    }) + (if houtei {
        1u32
    } else {
        0u32
    }) + (if rinshan {
        1u32
    } else {
        0u32
    }) + (if chankan {
        1u32
    } else {
        0u32
    }) + dora;
    proof {
        assert(r as int == spec_std_han_c(acc as int, menzen, nirp as int, junchan, shousangen,
        chinitsu, haitei, houtei, rinshan, chankan, dora as int)) by {
            reveal(spec_std_han_c);
        }
    }
    r
}

} // verus!
