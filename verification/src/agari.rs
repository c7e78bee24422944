//! Win detection: kokushi, chiitoitsu, and the standard four-melds-plus-
//! pair decomposition, with the successful parse retrievable for yaku
//! and fu evaluation.

use vstd::prelude::*;
use crate::types::{Hand, count_of, is_terminal_or_honor, run_start, sum_counts};

verus! {

/// One meld of a parsed standard hand: a run starting at `kind`, or a
/// triplet of `kind`.
#[derive(Clone, Copy, Debug)]
pub struct ParsedMeld {
    pub is_run: bool,
    pub kind: u8,
}

/// A full parse of the concealed part of a standard hand: the pair kind
/// and the concealed melds.
#[derive(Clone, Debug)]
pub struct Parse {
    pub pair: u8,
    pub sets: Vec<ParsedMeld>,
}

/// A parsed meld names a real kind, and a run starts where a run may.
pub open spec fn wf_set(m: ParsedMeld) -> bool {
    if m.is_run {
        run_start(m.kind as int)
    } else {
        m.kind < 34
    }
}

/// Counts as integers.
pub open spec fn to_ints(s: Seq<u8>) -> Seq<int> {
    s.map(|i: int, c: u8| c as int)
}

/// The all-zero count vector.
pub open spec fn zero_counts() -> Seq<int> {
    Seq::new(34, |i: int| 0)
}

/// Add one parsed meld's tiles to a count vector.
pub open spec fn add_set(c: Seq<int>, m: ParsedMeld) -> Seq<int> {
    if m.is_run {
        c.update(m.kind as int, c[m.kind as int] + 1)
            .update(m.kind + 1, c[m.kind + 1] + 1)
            .update(m.kind + 2, c[m.kind + 2] + 1)
    } else {
        c.update(m.kind as int, c[m.kind as int] + 3)
    }
}

/// The count vector holding exactly the tiles of the given melds.
pub open spec fn sets_counts(v: Seq<ParsedMeld>) -> Seq<int>
    decreases v.len(),
{
    if v.len() == 0 {
        zero_counts()
    } else {
        add_set(sets_counts(v.drop_last()), v.last())
    }
}

/// The counts from position `k` on decompose into triplets and runs
/// that consume them exactly. Triplets may stand anywhere; runs only
/// within one suit.
pub open spec fn spec_dec(c: Seq<int>, k: int) -> bool
    decreases 34 - k, (if 0 <= k < 34 { c[k] } else { 0 })
        when 0 <= k <= 34 && c.len() == 34 && (forall|j: int| 0 <= j < 34 ==> c[j] >= 0)
{
    if k >= 34 {
        true
    } else if c[k] == 0 {
        spec_dec(c, k + 1)
    } else {
        ||| (c[k] >= 3 && spec_dec(c.update(k, c[k] - 3), k))
        ||| (run_start(k) && c[k + 1] >= 1 && c[k + 2] >= 1 && spec_dec(
            c.update(k, c[k] - 1).update(k + 1, c[k + 1] - 1).update(k + 2, c[k + 2] - 1),
            k,
        ))
    }
}

/// Kind `p` can serve as the pair of a standard decomposition of `c`.
pub open spec fn pair_choice_ok(c: Seq<int>, p: int) -> bool {
    0 <= p < 34 && c[p] >= 2 && spec_dec(c.update(p, c[p] - 2), 0)
}

/// The counts decompose into melds plus one pair: the standard shape.
pub open spec fn spec_standard(c: Seq<int>) -> bool {
    exists|p: int| #[trigger] pair_choice_ok(c, p)
}

/// Thirteen orphans: each of the thirteen terminal and honor kinds at
/// least once, nothing else, fourteen tiles in all (so exactly one kind
/// is doubled).
pub open spec fn spec_kokushi(c: Seq<int>) -> bool {
    &&& c.len() == 34
    &&& forall|k: int| 0 <= k < 34 && is_terminal_or_honor(k) ==> #[trigger] c[k] >= 1
    &&& forall|k: int| 0 <= k < 34 && !is_terminal_or_honor(k) ==> #[trigger] c[k] == 0
    &&& sum_counts(c, 34) == 14
}

/// Seven pairs: every kind held is held exactly twice, fourteen tiles
/// in all (so exactly seven distinct kinds).
pub open spec fn spec_chiitoitsu(c: Seq<int>) -> bool {
    &&& c.len() == 34
    &&& forall|k: int| 0 <= k < 34 ==> #[trigger] c[k] == 0 || #[trigger] c[k] == 2
    &&& sum_counts(c, 34) == 14
}

/// The hand counts form a winning shape of any of the three families.
pub open spec fn spec_agari(c: Seq<int>) -> bool {
    spec_kokushi(c) || spec_chiitoitsu(c) || spec_standard(c)
}

/// Counts of `v` are a valid count vector (right length, entries in
/// range) as every well-formed hand provides.
pub open spec fn counts_ok(v: Seq<u8>) -> bool {
    v.len() == 34 && forall|j: int| 0 <= j < 34 ==> #[trigger] v[j] <= 14
}

/// A parse accounts for the count vector exactly: the melds plus the
/// doubled pair reproduce `c`.
pub open spec fn valid_parse(c: Seq<int>, p: Parse) -> bool {
    &&& p.pair < 34
    &&& forall|i: int| 0 <= i < p.sets@.len() ==> #[trigger] wf_set(p.sets@[i])
    &&& {
        let base = sets_counts(p.sets@);
        c =~= base.update(p.pair as int, base[p.pair as int] + 2)
    }
}

/// Mapping counts to integers turns an update into an update.
proof fn lemma_to_ints_update(v: Seq<u8>, k: int, x: u8)
    requires
        0 <= k < v.len(),
    ensures
        to_ints(v.update(k, x)) =~= to_ints(v).update(k, x as int),
{
}

/// Search for a decomposition of the counts from position `k` on, all
/// positions below `k` being empty, and return the melds found.
fn dec_from(c: &Vec<u8>, k: usize) -> (r: Option<Vec<ParsedMeld>>)
    requires
        counts_ok(c@),
        k <= 34,
        forall|j: int| 0 <= j < k ==> #[trigger] c@[j] == 0,
    ensures
        r is Some <==> spec_dec(to_ints(c@), k as int),
        match r {
            Some(v) => sets_counts(v@) =~= to_ints(c@) && 3 * v@.len() == crate::types::sum_counts(
                to_ints(c@),
                34,
            ) && forall|i: int| 0 <= i < v@.len() ==> #[trigger] wf_set(v@[i]),
            None => true,
        },
    decreases 34 - k, (if k < 34 { c@[k as int] as int } else { 0 }),
{
    if k >= 34 {
        let v: Vec<ParsedMeld> = Vec::new();
        proof {
            assert(sets_counts(v@) =~= to_ints(c@));
            crate::types::lemma_sum_counts_zero(to_ints(c@), 34);
        }
        Some(v)
    } else if c[k] == 0 {
        dec_from(c, k + 1)
    } else {
        if c[k] >= 3 {
            let mut c2 = c.clone();
            c2.set(k, c[k] - 3);
            proof {
                lemma_to_ints_update(c@, k as int, (c@[k as int] - 3) as u8);
            }
            match dec_from(&c2, k) {
                Some(mut v) => {
                    let ghost before = v@;
                    let m = ParsedMeld { is_run: false, kind: k as u8 };
                    v.push(m);
                    proof {
                        assert(v@.drop_last() =~= before);
                        assert(sets_counts(v@) == add_set(sets_counts(before), m));
                        assert(sets_counts(v@) =~= to_ints(c@));
                        crate::types::lemma_sum_counts_update(
                            to_ints(c@),
                            k as int,
                            c@[k as int] - 3,
                            34,
                        );
                    }
                    return Some(v);
                }
                None => {}
            }
        }
        let krun = k <= 6 || (9 <= k && k <= 15) || (18 <= k && k <= 24);
        if krun && c[k + 1] >= 1 && c[k + 2] >= 1 {
            let mut c2 = c.clone();
            c2.set(k, c[k] - 1);
            c2.set(k + 1, c2[k + 1] - 1);
            c2.set(k + 2, c2[k + 2] - 1);
            proof {
                assert(to_ints(c2@) =~= to_ints(c@).update(k as int, c@[k as int] - 1).update(
                    k + 1,
                    c@[k + 1] - 1,
                ).update(k + 2, c@[k + 2] - 1));
            }
            match dec_from(&c2, k) {
                Some(mut v) => {
                    let ghost before = v@;
                    let m = ParsedMeld { is_run: true, kind: k as u8 };
                    v.push(m);
                    proof {
                        assert(v@.drop_last() =~= before);
                        assert(sets_counts(v@) == add_set(sets_counts(before), m));
                        assert(sets_counts(v@) =~= to_ints(c@));
                        let a0 = to_ints(c@);
                        let a1 = a0.update(k as int, a0[k as int] - 1);
                        let a2 = a1.update(k + 1, a1[k + 1] - 1);
                        crate::types::lemma_sum_counts_update(a0, k as int, a0[k as int] - 1, 34);
                        crate::types::lemma_sum_counts_update(a1, k + 1, a1[k + 1] - 1, 34);
                        crate::types::lemma_sum_counts_update(a2, k + 2, a2[k + 2] - 1, 34);
                    }
                    return Some(v);
                }
                None => {}
            }
        }
        None
    }
}

/// Find a standard parse of the counts: try each kind with at least two
/// tiles as the pair, then decompose the rest.
pub fn find_parse(c: &Vec<u8>) -> (r: Option<Parse>)
    requires
        counts_ok(c@),
    ensures
        r is Some <==> spec_standard(to_ints(c@)),
        match r {
            Some(p) => valid_parse(to_ints(c@), p) && 3 * p.sets@.len() + 2
                == crate::types::sum_counts(to_ints(c@), 34),
            None => true,
        },
{
    let mut p: usize = 0;
    while p < 34
        invariant
            counts_ok(c@),
            p <= 34,
            forall|j: int| 0 <= j < p ==> !pair_choice_ok(to_ints(c@), j),
        decreases 34 - p,
    {
        if c[p] >= 2 {
            let mut c2 = c.clone();
            c2.set(p, c[p] - 2);
            proof {
                lemma_to_ints_update(c@, p as int, (c@[p as int] - 2) as u8);
            }
            match dec_from(&c2, 0) {
                Some(v) => {
                    let parse = Parse { pair: p as u8, sets: v };
                    proof {
                        assert(pair_choice_ok(to_ints(c@), p as int));
                        crate::types::lemma_sum_counts_update(
                            to_ints(c@),
                            p as int,
                            c@[p as int] - 2,
                            34,
                        );
                        let base = sets_counts(parse.sets@);
                        assert(base =~= to_ints(c@).update(p as int, c@[p as int] - 2));
                        assert(to_ints(c@) =~= base.update(
                            parse.pair as int,
                            base[parse.pair as int] + 2,
                        ));
                    }
                    return Some(parse);
                }
                None => {
                    proof {
                        assert(!pair_choice_ok(to_ints(c@), p as int));
                    }
                }
            }
        } else {
            proof {
                assert(!pair_choice_ok(to_ints(c@), p as int));
            }
        }
        p += 1;
    }
    proof {
        assert forall|j: int| !pair_choice_ok(to_ints(c@), j) by {
            if 0 <= j < 34 {
                assert(!pair_choice_ok(to_ints(c@), j));
            }
        }
    }
    None
}

/// Kokushi admits the count at one index: at least one of each terminal
/// or honor kind, none of anything else.
pub open spec fn kokushi_ok_at(v: Seq<u8>, j: int) -> bool {
    if is_terminal_or_honor(j) {
        v[j] >= 1
    } else {
        v[j] == 0
    }
}

/// Chiitoitsu admits the count at one index: zero or exactly a pair.
pub open spec fn chiitoi_ok_at(v: Seq<u8>, j: int) -> bool {
    v[j] == 0 || v[j] == 2
}

/// Decide kokushi on a count vector.
pub fn is_kokushi_counts(c: &Vec<u8>) -> (r: bool)
    requires
        counts_ok(c@),
    ensures
        r == spec_kokushi(to_ints(c@)),
{
    let mut ok = true;
    let mut sum: usize = 0;
    let mut k: usize = 0;
    while k < 34
        invariant
            counts_ok(c@),
            k <= 34,
            sum == sum_counts(to_ints(c@), k as int),
            sum <= 14 * k,
            ok == (forall|j: int| 0 <= j < k ==> #[trigger] kokushi_ok_at(c@, j)),
        decreases 34 - k,
    {
        let th = k == 0 || k == 8 || k == 9 || k == 17 || k == 18 || k >= 26;
        if th {
            if c[k] < 1 {
                proof {
                    assert(!kokushi_ok_at(c@, k as int));
                }
                ok = false;
            }
        } else {
            if c[k] != 0 {
                proof {
                    assert(!kokushi_ok_at(c@, k as int));
                }
                ok = false;
            }
        }
        sum += c[k] as usize;
        k += 1;
    }
    let r = ok && sum == 14;
    proof {
        if r {
            assert forall|j: int| 0 <= j < 34 && is_terminal_or_honor(j) implies #[trigger] to_ints(
                c@,
            )[j] >= 1 by {
                assert(kokushi_ok_at(c@, j));
            }
            assert forall|j: int| 0 <= j < 34 && !is_terminal_or_honor(j) implies #[trigger] to_ints(
                c@,
            )[j] == 0 by {
                assert(kokushi_ok_at(c@, j));
            }
            assert(spec_kokushi(to_ints(c@)));
        }
        if spec_kokushi(to_ints(c@)) {
            assert forall|j: int| 0 <= j < 34 implies #[trigger] kokushi_ok_at(c@, j) by {
                if is_terminal_or_honor(j) {
                    assert(to_ints(c@)[j] >= 1);
                } else {
                    assert(to_ints(c@)[j] == 0);
                }
            }
            assert(r);
        }
    }
    r
}

/// Decide chiitoitsu on a count vector.
pub fn is_chiitoitsu_counts(c: &Vec<u8>) -> (r: bool)
    requires
        counts_ok(c@),
    ensures
        r == spec_chiitoitsu(to_ints(c@)),
{
    let mut ok = true;
    let mut sum: usize = 0;
    let mut k: usize = 0;
    while k < 34
        invariant
            counts_ok(c@),
            k <= 34,
            sum == sum_counts(to_ints(c@), k as int),
            sum <= 14 * k,
            ok == (forall|j: int| 0 <= j < k ==> #[trigger] chiitoi_ok_at(c@, j)),
        decreases 34 - k,
    {
        if c[k] != 0 && c[k] != 2 {
            proof {
                assert(!chiitoi_ok_at(c@, k as int));
            }
            ok = false;
        }
        sum += c[k] as usize;
        k += 1;
    }
    let r = ok && sum == 14;
    proof {
        if r {
            assert forall|j: int| 0 <= j < 34 implies #[trigger] to_ints(c@)[j] == 0 || #[trigger] to_ints(
                c@,
            )[j] == 2 by {
                assert(chiitoi_ok_at(c@, j));
            }
            assert(spec_chiitoitsu(to_ints(c@)));
        }
        if spec_chiitoitsu(to_ints(c@)) {
            assert forall|j: int| 0 <= j < 34 implies #[trigger] chiitoi_ok_at(c@, j) by {
                assert(to_ints(c@)[j] == 0 || to_ints(c@)[j] == 2);
            }
            assert(r);
        }
    }
    r
}

/// Is the hand a thirteen-orphans win?
pub fn is_kokushi(hand: &Hand) -> (r: bool)
    requires
        hand.wf(),
    ensures
        r == spec_kokushi(hand.view_counts()),
{
    proof {
        lemma_hand_counts_ok(hand);
        assert(to_ints(hand.counts@) =~= hand.view_counts());
    }
    is_kokushi_counts(&hand.counts)
}

/// Is the hand a seven-pairs win?
pub fn is_chiitoitsu(hand: &Hand) -> (r: bool)
    requires
        hand.wf(),
    ensures
        r == spec_chiitoitsu(hand.view_counts()),
{
    proof {
        lemma_hand_counts_ok(hand);
        assert(to_ints(hand.counts@) =~= hand.view_counts());
    }
    is_chiitoitsu_counts(&hand.counts)
}

/// A well-formed hand's count vector has the right length and bounded
/// entries.
pub proof fn lemma_hand_counts_ok(hand: &Hand)
    requires
        hand.wf(),
    ensures
        counts_ok(hand.counts@),
{
    assert forall|j: int| 0 <= j < 34 implies #[trigger] hand.counts@[j] <= 14 by {
        crate::types::lemma_count_of_le_len(hand.tiles@, j);
    }
}

/// Decide whether a count vector is any winning shape.
pub fn is_agari_counts(c: &Vec<u8>) -> (r: bool)
    requires
        counts_ok(c@),
    ensures
        r == spec_agari(to_ints(c@)),
{
    if is_kokushi_counts(c) {
        return true;
    }
    if is_chiitoitsu_counts(c) {
        return true;
    }
    find_parse(c).is_some()
}

/// Is the hand a winning hand of any of the three shape families?
pub fn is_agari(hand: &Hand) -> (r: bool)
    requires
        hand.wf(),
    ensures
        r == spec_agari(hand.view_counts()),
{
    proof {
        lemma_hand_counts_ok(hand);
        assert(to_ints(hand.counts@) =~= hand.view_counts());
    }
    is_agari_counts(&hand.counts)
}

} // verus!
