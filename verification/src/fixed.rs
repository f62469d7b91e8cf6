//! Fixed-point units and the wrap-around arithmetic shared by both kernels.
//!
//! Every real quantity of the simulation (a coordinate, a speed, an angle, an
//! intensity) is held as an integer number of millionths.

use vstd::prelude::*;
use vstd::arithmetic::div_mod::{
    lemma_add_mod_noop, lemma_fundamental_div_mod, lemma_fundamental_div_mod_converse,
    lemma_mod_add_multiples_vanish, lemma_mod_multiples_vanish, lemma_sub_mod_noop,
};

verus! {

/// One whole unit (one cell, one radian, full blend weight) in millionths.
pub const UNIT: u64 = 1_000_000;

/// One full turn of a heading, in millionths of a radian.
pub const FULL_TURN: u64 = 6_283_185;

/// The representative of `value` in `[0, modulus)`: coordinates and headings
/// live on a circle, so leaving at one end re-enters at the other.
pub open spec fn wrap(value: int, modulus: int) -> int {
    value % modulus
}

/// The signed distance covered along one axis when travelling `magnitude`
/// along a direction whose component on that axis is `component`, rounded
/// towards minus infinity.
pub open spec fn displacement(magnitude: int, component: int) -> int {
    (magnitude * component) / (UNIT as int)
}

/// Where a coordinate ends up on an axis of length `extent` after such a
/// displacement.
pub open spec fn travel(position: int, magnitude: int, component: int, extent: int) -> int {
    wrap(position + displacement(magnitude, component), extent)
}

/// A heading turned by `delta`, kept within one full turn.
pub open spec fn rotate(heading: int, delta: int) -> int {
    wrap(heading + delta, FULL_TURN as int)
}

proof fn lemma_floor_of_negative(p: int, d: int)
    requires
        p >= 0,
        d > 0,
    ensures
        (-p) / d == -((p + d - 1) / d),
{
    let q = (p + d - 1) / d;
    let r = (p + d - 1) % d;
    lemma_fundamental_div_mod(p + d - 1, d);
    assert(-p == (-q) * d + (d - 1 - r)) by (nonlinear_arith)
        requires
            p + d - 1 == d * q + r,
    ;
    lemma_fundamental_div_mod_converse(-p, d, -q, d - 1 - r);
}

/// Stepping to the next cell on a circle of `modulus` cells either moves one
/// up or, from the last cell, returns to the first.
pub proof fn lemma_wrap_successor(value: int, modulus: int)
    requires
        modulus > 0,
    ensures
        wrap(value + 1, modulus) == if wrap(value, modulus) + 1 == modulus {
            0
        } else {
            wrap(value, modulus) + 1
        },
{
    let q = value / modulus;
    let r = value % modulus;
    lemma_fundamental_div_mod(value, modulus);
    if r + 1 == modulus {
        assert(value + 1 == (q + 1) * modulus + 0) by (nonlinear_arith)
            requires
                value == modulus * q + r,
                r + 1 == modulus,
        ;
        lemma_fundamental_div_mod_converse(value + 1, modulus, q + 1, 0);
    } else {
        assert(value + 1 == q * modulus + (r + 1)) by (nonlinear_arith)
            requires
                value == modulus * q + r,
        ;
        lemma_fundamental_div_mod_converse(value + 1, modulus, q, r + 1);
    }
}

/// Wrapping is unchanged by whole turns around the circle.
pub proof fn lemma_wrap_periodic(value: int, turns: int, modulus: int)
    requires
        modulus > 0,
    ensures
        wrap(value + turns * modulus, modulus) == wrap(value, modulus),
{
    lemma_mod_multiples_vanish(turns, value, modulus);
    assert(modulus * turns + value == value + turns * modulus) by (nonlinear_arith);
}

/// The representative in `[0, modulus)` of a signed value.
pub fn wrap_signed(value: i64, modulus: u64) -> (wrapped: u64)
    requires
        modulus >= 1,
    ensures
        wrapped == wrap(value as int, modulus as int),
        wrapped < modulus,
{
    if value >= 0 {
        (value as u64) % modulus
    } else {
        let p: u64 = (-(value as i128)) as u64;
        let r: u64 = p % modulus;
        proof {
            let pi = p as int;
            let mi = modulus as int;
            lemma_fundamental_div_mod(pi, mi);
            if r == 0 {
                assert(-pi == (-(pi / mi)) * mi + 0) by (nonlinear_arith)
                    requires
                        pi == mi * (pi / mi) + 0,
                ;
                lemma_fundamental_div_mod_converse(-pi, mi, -(pi / mi), 0);
            } else {
                assert(-pi == (-(pi / mi) - 1) * mi + (mi - r as int)) by (nonlinear_arith)
                    requires
                        pi == mi * (pi / mi) + r as int,
                ;
                lemma_fundamental_div_mod_converse(-pi, mi, -(pi / mi) - 1, mi - r as int);
            }
        }
        if r == 0 {
            0
        } else {
            modulus - r
        }
    }
}

/// The cell of a circle of `modulus` cells that a signed index falls on.
pub fn wrap_index(value: i64, modulus: u32) -> (cell: u32)
    requires
        modulus >= 1,
    ensures
        cell == wrap(value as int, modulus as int),
        cell < modulus,
{
    wrap_signed(value, modulus as u64) as u32
}

/// Moves a coordinate on an axis of length `extent` by `magnitude` along a
/// direction component, wrapping around the ends of the axis. The
/// coordinate may start anywhere; it ends within the axis.
pub fn travel_coord(position: u64, magnitude: u64, component: i32, extent: u64) -> (moved: u64)
    requires
        extent > 0,
    ensures
        moved == travel(position as int, magnitude as int, component as int, extent as int),
        moved < extent,
{
    let wide_extent: u128 = extent as u128;
    if component >= 0 {
        let c: u128 = component as u128;
        assert((magnitude as u128) * c <= 0xffff_ffff_ffff_ffff * 0x8000_0000) by (nonlinear_arith)
            requires
                magnitude <= 0xffff_ffff_ffff_ffff,
                c <= 0x8000_0000,
        ;
        let product: u128 = (magnitude as u128) * c;
        let step: u128 = product / (UNIT as u128);
        let target: u128 = position as u128 + step;
        (target % wide_extent) as u64
    } else {
        let c: u128 = (-(component as i64)) as u128;
        assert((magnitude as u128) * c <= 0xffff_ffff_ffff_ffff * 0x8000_0000) by (nonlinear_arith)
            requires
                magnitude <= 0xffff_ffff_ffff_ffff,
                c <= 0x8000_0000,
        ;
        let product: u128 = (magnitude as u128) * c;
        let back: u128 = (product + (UNIT as u128 - 1)) / (UNIT as u128);
        let start: u128 = position as u128 % wide_extent;
        let reduced: u128 = back % wide_extent;
        let target: u128 = start + wide_extent - reduced;
        proof {
            let p = product as int;
            let e = extent as int;
            assert(magnitude as int * component as int == -p) by (nonlinear_arith)
                requires
                    p == magnitude as int * c as int,
                    c as int == -(component as int),
            ;
            lemma_floor_of_negative(p, UNIT as int);
            assert(displacement(magnitude as int, component as int) == -(back as int));
            lemma_sub_mod_noop(position as int, back as int, e);
            lemma_mod_add_multiples_vanish(start as int - reduced as int, e);
        }
        (target % wide_extent) as u64
    }
}

/// Turns a heading by `delta` towards larger angles, or towards smaller ones
/// when `clockwise` is false. The heading may start anywhere; it ends
/// within one full turn.
pub fn rotate_heading(heading: u64, delta: u64, clockwise: bool) -> (turned: u64)
    ensures
        turned == rotate(heading as int, if clockwise { delta as int } else { -(delta as int) }),
        turned < FULL_TURN,
{
    let start: u64 = heading % FULL_TURN;
    let reduced: u64 = delta % FULL_TURN;
    proof {
        let e = FULL_TURN as int;
        if clockwise {
            lemma_add_mod_noop(heading as int, delta as int, e);
        } else {
            lemma_sub_mod_noop(heading as int, delta as int, e);
            lemma_mod_add_multiples_vanish(start as int - reduced as int, e);
        }
    }
    if clockwise {
        (start + reduced) % FULL_TURN
    } else {
        (start + FULL_TURN - reduced) % FULL_TURN
    }
}

} // verus!
