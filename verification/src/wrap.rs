use vstd::prelude::*;
use vstd::arithmetic::div_mod::{lemma_add_mod_noop, lemma_mod_add_multiples_vanish, lemma_mod_sub_multiples_vanish, lemma_mod_twice, lemma_small_mod, lemma_mod_bound};

verus! {

/// `x` wrapped into the range of an `i64`, as the arithmetic of an optimised build wraps
/// money that runs past either end of that range.
pub open spec fn wrapped(x: int) -> i64 {
    vstd::wrapping::i64_specs::signed_crop(x)
}

/// A wrapped number differs from the number by a whole number of turns of 2^64.
proof fn lemma_wrapped_mod(x: int)
    ensures
        (wrapped(x) as int) % 0x1_0000_0000_0000_0000 == x % 0x1_0000_0000_0000_0000,
{
    let r: int = 0x1_0000_0000_0000_0000;
    let m = x % r;
    lemma_mod_bound(x, r);
    lemma_mod_twice(x, r);
    if m > i64::MAX {
        lemma_mod_sub_multiples_vanish(m, r);
    }
}

/// Wrapping an `i64` leaves it as it is.
pub proof fn lemma_wrapped_small(a: int)
    requires
        i64::MIN <= a <= i64::MAX,
    ensures
        wrapped(a) == a,
{
    let r: int = 0x1_0000_0000_0000_0000;
    if a >= 0 {
        lemma_small_mod(a as nat, r as nat);
    } else {
        lemma_small_mod((a + r) as nat, r as nat);
        lemma_mod_add_multiples_vanish(a, r);
    }
}

/// Adding to a wrapped number and wrapping again is wrapping the whole sum.
pub proof fn lemma_wrapped_add(x: int, y: int)
    ensures
        wrapped(wrapped(x) + y) == wrapped(x + y),
{
    let r: int = 0x1_0000_0000_0000_0000;
    lemma_wrapped_mod(x);
    lemma_add_mod_noop(wrapped(x) as int, y, r);
    lemma_add_mod_noop(x, y, r);
}

/// `wrapping_add` and `wrapping_sub` on `i64` wrap the exact sum and difference.
pub proof fn lemma_wrapping_ops(a: i64, b: i64)
    ensures
        vstd::wrapping::i64_specs::wrapping_add(a, b) == wrapped(a + b),
        vstd::wrapping::i64_specs::wrapping_sub(a, b) == wrapped(a - b),
{
    let r: int = 0x1_0000_0000_0000_0000;
    let s = a + b;
    if s > i64::MAX {
        lemma_mod_sub_multiples_vanish(s, r);
        lemma_wrapped_small(s - r);
    } else if s < i64::MIN {
        lemma_mod_add_multiples_vanish(s, r);
        lemma_wrapped_small(s + r);
    } else {
        lemma_wrapped_small(s);
    }
    let d = a - b;
    if d > i64::MAX {
        lemma_mod_sub_multiples_vanish(d, r);
        lemma_wrapped_small(d - r);
    } else if d < i64::MIN {
        lemma_mod_add_multiples_vanish(d, r);
        lemma_wrapped_small(d + r);
    } else {
        lemma_wrapped_small(d);
    }
}

} // verus!
