//! Point calculator: translate (han, fu, dealer, tsumo) into the bare
//! payments, before honba and riichi-stick adjustments.

use vstd::prelude::*;

verus! {

/// Payments for one winning hand. For a ron exactly one payer pays
/// `pay_ron`; for a dealer tsumo every non-dealer pays `pay_tsumo_ko`;
/// for a non-dealer tsumo the dealer pays `pay_tsumo_oya` and each other
/// non-dealer pays `pay_tsumo_ko`. `total` is the sum over all payers.
#[derive(Clone, Copy, Debug)]
pub struct Score {
    pub pay_ron: u32,
    pub pay_tsumo_oya: u32,
    pub pay_tsumo_ko: u32,
    pub total: u32,
}

/// Base points before the seat multipliers: fu × 2^(2+han), capped by
/// the limit of the hand's class. A yakuman (han ≥ 13) has base 8000,
/// sanbaiman 6000, baiman 4000, haneman 3000; below that the base is
/// capped at the mangan threshold 2000. No kiriage rounding: base 1920
/// stays 1920.
pub open spec fn spec_base_points(han: int, fu: int) -> int {
    if han >= 13 {
        8000
    } else if han >= 11 {
        6000
    } else if han >= 8 {
        4000
    } else if han >= 6 {
        3000
    } else {
        let raw = fu * spec_pow2_shift(han);
        if raw >= 2000 {
            2000
        } else {
            raw
        }
    }
}

/// 2^(2+han) for the sub-haneman classes, han in 0..6.
pub open spec fn spec_pow2_shift(han: int) -> int {
    if han <= 0 {
        4
    } else if han == 1 {
        8
    } else if han == 2 {
        16
    } else if han == 3 {
        32
    } else if han == 4 {
        64
    } else {
        128
    }
}

/// Round a payment up to the next multiple of 100.
pub open spec fn spec_ceil100(x: int) -> int {
    ((x + 99) / 100) * 100
}

/// Payments owed for a winning hand of the given han and fu.
pub open spec fn spec_calculate_score(han: int, fu: int, is_oya: bool, is_tsumo: bool) -> Score {
    let base = spec_base_points(han, fu);
    if is_tsumo {
        if is_oya {
            let ko = spec_ceil100(base * 2);
            Score { pay_ron: 0, pay_tsumo_oya: 0, pay_tsumo_ko: ko as u32, total: (3 * ko) as u32 }
        } else {
            let oya = spec_ceil100(base * 2);
            let ko = spec_ceil100(base);
            Score {
                pay_ron: 0,
                pay_tsumo_oya: oya as u32,
                pay_tsumo_ko: ko as u32,
                total: (oya + 2 * ko) as u32,
            }
        }
    } else {
        let pays = if is_oya {
            spec_ceil100(base * 6)
        } else {
            spec_ceil100(base * 4)
        };
        Score { pay_ron: pays as u32, pay_tsumo_oya: 0, pay_tsumo_ko: 0, total: pays as u32 }
    }
}

/// Round `x` up to the next multiple of 100.
fn ceil100(x: u32) -> (r: u32)
    requires
        x <= 48000,
    ensures
        r == spec_ceil100(x as int),
        r <= 48000,
        x <= r,
{
    ((x + 99) / 100) * 100
}

/// Compute the payments for a winning hand: base points from the limit
/// table, then the seat multipliers of §point rules, each rounded up to
/// the next 100.
pub fn calculate_score(han: u32, fu: u32, is_oya: bool, is_tsumo: bool) -> (r: Score)
    requires
        fu <= 200,
    ensures
        r == spec_calculate_score(han as int, fu as int, is_oya, is_tsumo),
        r.total <= 48000,
{
    let base: u32 = if han >= 13 {
        8000
    } else if han >= 11 {
        6000
    } else if han >= 8 {
        4000
    } else if han >= 6 {
        3000
    } else {
        let mult: u32 = if han == 0 {
            4
        } else if han == 1 {
            8
        } else if han == 2 {
            16
        } else if han == 3 {
            32
        } else if han == 4 {
            64
        } else {
            128
        };
        let raw = fu * mult;
        if raw >= 2000 {
            2000
        } else {
            raw
        }
    };
    if is_tsumo {
        if is_oya {
            let ko = ceil100(base * 2);
            Score { pay_ron: 0, pay_tsumo_oya: 0, pay_tsumo_ko: ko, total: 3 * ko }
        } else {
            let oya = ceil100(base * 2);
            let ko = ceil100(base);
            Score { pay_ron: 0, pay_tsumo_oya: oya, pay_tsumo_ko: ko, total: oya + 2 * ko }
        }
    } else {
        let pays = if is_oya {
            ceil100(base * 6)
        } else {
            ceil100(base * 4)
        };
        Score { pay_ron: pays, pay_tsumo_oya: 0, pay_tsumo_ko: 0, total: pays }
    }
}

} // verus!
