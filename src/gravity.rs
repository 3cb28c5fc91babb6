//! How many ticks pass between two automatic downward steps.

use vstd::prelude::*;

verus! {

/// `b` raised to the power `e`.
pub open spec fn power(b: int, e: nat) -> int
    decreases e,
{
    if e == 0 {
        1
    } else {
        b * power(b, (e - 1) as nat)
    }
}

/// The interval of the speed curve at `level`, rounded to the nearest
/// whole tick: 100 * (0.8 - (level - 1) * 0.007) ^ (level - 1), that is
/// 100 * ((807 - 7 * level) / 1000) ^ (level - 1). At level 0 the exponent
/// is -1 and the reciprocal is taken as it stands: 100 * 1000 / 807.
pub open spec fn curve_ticks(level: int) -> int {
    if level <= 0 {
        (2 * 100 * 1000 + 807) as int / (2 * 807) as int
    } else {
        let e = (level - 1) as nat;
        (200 * power(807 - 7 * level, e) + power(1000, e)) / (2 * power(1000, e))
    }
}

/// The fall interval for `lines` cleared lines, at level `lines / 10`: the
/// speed curve, and never less than one tick. From level 116 on the base of
/// the curve is no longer positive, and the interval stays at one tick.
pub open spec fn fall_interval(lines: u64) -> int {
    let level = lines / 10;
    if level > 115 {
        1
    } else if curve_ticks(level as int) < 1 {
        1
    } else {
        curve_ticks(level as int)
    }
}

/// The same intervals level by level: levels 0 to 13 from the table, one
/// tick from level 14 on.
pub open spec fn interval_by_level(level: int) -> int {
    if level < 14 {
        seq![124int, 100, 79, 62, 47, 36, 26, 19, 13, 9, 6, 4, 3, 2][level]
    } else {
        1
    }
}

proof fn lemma_power_base_le(b: int, c: int, e: nat)
    requires
        0 <= b <= c,
    ensures
        0 <= power(b, e) <= power(c, e),
    decreases e,
{
    if e > 0 {
        lemma_power_base_le(b, c, (e - 1) as nat);
        let pb = power(b, (e - 1) as nat);
        let pc = power(c, (e - 1) as nat);
        assert(b * pb <= c * pc) by (nonlinear_arith)
            requires
                0 <= b <= c,
                0 <= pb <= pc,
        ;
    }
}

proof fn lemma_power_positive(b: int, e: nat)
    requires
        b > 0,
    ensures
        power(b, e) > 0,
    decreases e,
{
    if e > 0 {
        lemma_power_positive(b, (e - 1) as nat);
        let p = power(b, (e - 1) as nat);
        assert(b * p > 0) by (nonlinear_arith)
            requires
                b > 0,
                p > 0,
        ;
    }
}

/// Past fifteen turns of a base of at most 0.695, the curve is below 0.5.
proof fn lemma_small_power(b: int, e: nat)
    requires
        0 < b <= 695,
        e >= 15,
    ensures
        200 * power(b, e) < power(1000, e),
    decreases e,
{
    if e == 15 {
        lemma_power_base_le(b, 695, 15);
        reveal_with_fuel(power, 16);
        assert(200 * power(695, 15) < power(1000, 15));
    } else {
        lemma_small_power(b, (e - 1) as nat);
        lemma_power_base_le(b, b, (e - 1) as nat);
        let pb = power(b, (e - 1) as nat);
        let pk = power(1000, (e - 1) as nat);
        assert(200 * (b * pb) < 1000 * pk) by (nonlinear_arith)
            requires
                0 < b <= 695,
                200 * pb < pk,
                pb >= 0,
        ;
    }
}

proof fn lemma_div_exact(x: int, d: int, q: int)
    requires
        d > 0,
        q * d <= x < (q + 1) * d,
    ensures
        x / d == q,
{
    assert(x / d == q) by (nonlinear_arith)
        requires
            d > 0,
            q * d <= x < (q + 1) * d,
    ;
}

/// The curve at `level` is `q`, given the two powers that it is made of.
proof fn lemma_curve_at(level: int, b: int, e: nat, pb: int, pk: int, q: int)
    requires
        level >= 1,
        b == 807 - 7 * level,
        e == level - 1,
        power(b, e) == pb,
        power(1000, e) == pk,
        pk > 0,
        q * (2 * pk) <= 200 * pb + pk < (q + 1) * (2 * pk),
    ensures
        curve_ticks(level) == q,
{
    lemma_div_exact(200 * pb + pk, 2 * pk, q);
}

/// Ticks between two automatic downward steps after `lines` cleared lines.
pub fn fall_interval_ticks(lines: u64) -> (t: u64)
    ensures
        t == fall_interval(lines),
        t == interval_by_level((lines / 10) as int),
        t >= 1,
{
    let level = lines / 10;
    let t: u64 = match level {
        0 => 124,
        1 => 100,
        2 => 79,
        3 => 62,
        4 => 47,
        5 => 36,
        6 => 26,
        7 => 19,
        8 => 13,
        9 => 9,
        10 => 6,
        11 => 4,
        12 => 3,
        13 => 2,
        _ => 1,
    };
    proof {
        let l = level as int;
        if l == 0 {
            lemma_div_exact(200807, 1614, 124);
            assert(curve_ticks(0) == 200807int / 1614int);
            assert(curve_ticks(0) == 124);
        } else if l == 1 {
            reveal_with_fuel(power, 1);
            lemma_curve_at(1, 800, 0, 1int, 1int, 100);
        } else if l == 2 {
            reveal_with_fuel(power, 2);
            lemma_curve_at(2, 793, 1, 793int, 1000int, 79);
        } else if l == 3 {
            reveal_with_fuel(power, 3);
            lemma_curve_at(3, 786, 2, 617796int, 1000000int, 62);
        } else if l == 4 {
            reveal_with_fuel(power, 4);
            lemma_curve_at(4, 779, 3, 472729139int, 1000000000int, 47);
        } else if l == 5 {
            reveal_with_fuel(power, 5);
            lemma_curve_at(5, 772, 4, 355196928256int, 1000000000000int, 36);
        } else if l == 6 {
            reveal_with_fuel(power, 6);
            lemma_curve_at(6, 765, 5, 262003549978125int, 1000000000000000int, 26);
        } else if l == 7 {
            reveal_with_fuel(power, 7);
            lemma_curve_at(7, 758, 6, 189677245332718144int, 1000000000000000000int, 19);
        } else if l == 8 {
            reveal_with_fuel(power, 8);
            lemma_curve_at(8, 751, 7, 134734730815558692751int, 1000000000000000000000int, 13);
        } else if l == 9 {
            reveal_with_fuel(power, 9);
            lemma_curve_at(9, 744, 8, 93882248904212654063616int, 1000000000000000000000000int, 9);
        } else if l == 10 {
            reveal_with_fuel(power, 10);
            lemma_curve_at(10, 737, 9, 64151584959855749233617377int, 1000000000000000000000000000int, 6);
        } else if l == 11 {
            reveal_with_fuel(power, 11);
            lemma_curve_at(11, 730, 10, 42976258297035576490000000000int, 1000000000000000000000000000000int, 4);
        } else if l == 12 {
            reveal_with_fuel(power, 12);
            lemma_curve_at(12, 723, 11, 28217677801211610563561725861227int, 1000000000000000000000000000000000int, 3);
        } else if l == 13 {
            reveal_with_fuel(power, 13);
            lemma_curve_at(13, 716, 12, 18153328543517712024454970585645056int, 1000000000000000000000000000000000000int, 2);
        } else if l == 14 {
            reveal_with_fuel(power, 14);
            lemma_curve_at(14, 709, 13, 11439342346807364131408437171701785429int, 1000000000000000000000000000000000000000int, 1);
        } else if l == 15 {
            reveal_with_fuel(power, 15);
            lemma_curve_at(15, 702, 14, 7058616220934208192117801379822016937984int, 1000000000000000000000000000000000000000000int, 1);
        } else if l <= 115 {
            let e = (l - 1) as nat;
            let b = 807 - 7 * l;
            lemma_small_power(b, e);
            lemma_power_positive(1000, e);
            lemma_power_base_le(b, b, e);
            let pb = power(b, e);
            let pk = power(1000, e);
            assert((200 * pb + pk) / (2 * pk) == 0) by (nonlinear_arith)
                requires
                    200 * pb < pk,
                    pk > 0,
                    pb >= 0,
            ;
        }
    }
    t
}

} // verus!
