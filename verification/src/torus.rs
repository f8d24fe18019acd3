//! Coordinates on a ring: the wrapping rule shared by every grid access.

use vstd::prelude::*;
use vstd::arithmetic::div_mod::{lemma_fundamental_div_mod_converse, lemma_fundamental_div_mod, lemma_mod_bound, lemma_small_mod, lemma_add_mod_noop, lemma_mod_multiples_vanish};

verus! {

/// The cell of a ring of `s` cells that the coordinate `c` names: the
/// mathematical modulus, which is never negative.
pub open spec fn wrap(c: int, s: int) -> int {
    c % s
}

/// The remainder of a division that rounds towards zero, as the machine
/// computes it for signed integers: it takes the sign of `c`.
pub open spec fn trunc_rem(c: int, s: int) -> int {
    if c >= 0 {
        c % s
    } else {
        -((-c) % s)
    }
}

/// A wrapped coordinate lies on the ring.
pub proof fn lemma_wrap_range(c: int, s: int)
    requires
        s > 0,
    ensures
        0 <= wrap(c, s) < s,
{
    lemma_mod_bound(c, s);
}

/// A coordinate that already lies on the ring names itself.
pub proof fn lemma_wrap_fixed(c: int, s: int)
    requires
        0 <= c < s,
    ensures
        wrap(c, s) == c,
{
    lemma_small_mod(c as nat, s as nat);
}

/// Going round the ring any number of times changes nothing.
pub proof fn lemma_wrap_turns(c: int, k: int, s: int)
    requires
        s > 0,
    ensures
        wrap(c + k * s, s) == wrap(c, s),
{
    lemma_mod_multiples_vanish(k, c, s);
    assert(s * k + c == c + k * s) by (nonlinear_arith);
}

/// Wrapping first and stepping afterwards is stepping first and wrapping
/// afterwards.
pub proof fn lemma_wrap_step(c: int, d: int, s: int)
    requires
        s > 0,
    ensures
        wrap(wrap(c, s) + d, s) == wrap(c + d, s),
        wrap(c + wrap(d, s), s) == wrap(c + d, s),
{
    lemma_add_mod_noop(c, d, s);
    lemma_add_mod_noop(c % s, d, s);
    lemma_add_mod_noop(c, d % s, s);
    lemma_mod_bound(c, s);
    lemma_mod_bound(d, s);
    lemma_small_mod((c % s) as nat, s as nat);
    lemma_small_mod((d % s) as nat, s as nat);
}

/// One step forward from the last cell of the ring leads to the first, and
/// one step back from the first leads to the last; every other step stays
/// beside the cell it started from.
pub proof fn lemma_wrap_beside(c: int, s: int)
    requires
        s > 0,
    ensures
        wrap(c + 1, s) == (if wrap(c, s) + 1 == s {
            0
        } else {
            wrap(c, s) + 1
        }),
        wrap(c - 1, s) == (if wrap(c, s) == 0 {
            s - 1
        } else {
            wrap(c, s) - 1
        }),
{
    let w = wrap(c, s);
    lemma_wrap_range(c, s);
    lemma_wrap_step(c, 1, s);
    lemma_wrap_step(c, -1, s);
    if w + 1 == s {
        lemma_wrap_turns(0, 1, s);
        lemma_wrap_fixed(0, s);
        assert(0 + 1 * s == w + 1);
    } else {
        lemma_wrap_fixed(w + 1, s);
    }
    if w == 0 {
        lemma_wrap_turns(-1, 1, s);
        lemma_wrap_fixed(s - 1, s);
        assert(-1 + 1 * s == s - 1);
    } else {
        lemma_wrap_fixed(w - 1, s);
    }
}

/// Two coordinates less than once round the ring apart name different
/// cells.
pub proof fn lemma_wrap_apart(c: int, d: int, s: int)
    requires
        s > 0,
        0 < d < s,
    ensures
        wrap(c + d, s) != wrap(c, s),
{
    let w = wrap(c, s);
    lemma_wrap_range(c, s);
    lemma_wrap_step(c, d, s);
    if w + d < s {
        lemma_wrap_fixed(w + d, s);
    } else {
        lemma_wrap_turns(w + d - s, 1, s);
        lemma_wrap_fixed(w + d - s, s);
        assert(w + d - s + 1 * s == w + d);
    }
}

/// A coordinate names the cell `a` of the ring exactly when it lies a whole
/// number of turns from `a`.
pub proof fn lemma_wrap_meets(c: int, a: int, s: int)
    requires
        s > 0,
        0 <= a < s,
    ensures
        wrap(c, s) == a <==> wrap(c - a, s) == 0,
{
    let w = wrap(c, s);
    lemma_wrap_range(c, s);
    lemma_wrap_step(c, -a, s);
    if w >= a {
        lemma_wrap_fixed(w - a, s);
    } else {
        lemma_wrap_turns(w - a, 1, s);
        lemma_wrap_fixed(w - a + s, s);
        assert(w - a + 1 * s == w - a + s);
    }
}

/// The wrapped coordinate is `((c rem s) + s) rem s`, where `rem` is the
/// remainder that takes the sign of `c`.
pub proof fn lemma_wrap_by_remainders(c: int, s: int)
    requires
        s > 0,
    ensures
        -s < trunc_rem(c, s) < s,
        wrap(c, s) == trunc_rem(trunc_rem(c, s) + s, s),
        wrap(c, s) == (trunc_rem(c, s) + s) % s,
{
    if c >= 0 {
        lemma_mod_bound(c, s);
        lemma_wrap_turns(c % s, 1, s);
        lemma_small_mod((c % s) as nat, s as nat);
    } else {
        let q = (-c) / s;
        let m = (-c) % s;
        lemma_mod_bound(-c, s);
        lemma_fundamental_div_mod(-c, s);
        // -c == s * q + m, so c == s * (-q) - m
        assert(s * (-q) == -(s * q)) by (nonlinear_arith);
        if m == 0 {
            lemma_fundamental_div_mod_converse(c, s, -q, 0);
            lemma_fundamental_div_mod_converse(s, s, 1, 0);
        } else {
            assert(s * (-q - 1) == s * (-q) - s) by (nonlinear_arith);
            lemma_fundamental_div_mod_converse(c, s, -q - 1, s - m);
            lemma_small_mod((s - m) as nat, s as nat);
        }
    }
}

/// Wraps the coordinate `c` onto a ring of `s` cells.
pub(crate) fn wrap_index(c: i64, s: usize) -> (r: usize)
    requires
        0 < s <= i32::MAX,
    ensures
        r == wrap(c as int, s as int),
        r < s,
{
    let m: i64 = s as i64;
    let t: i64 = c % m;
    proof {
        lemma_wrap_by_remainders(c as int, s as int);
    }
    let u: i64 = (t + m) % m;
    u as usize
}

} // verus!
