//! Bit masks as sets of bit positions.

use vstd::prelude::*;

verus! {

/// Bit `i` of a 32-bit mask is set. False for positions outside the mask.
pub open spec fn has_bit(mask: u32, i: int) -> bool {
    0 <= i < 32 && mask & (1u32 << (i as u32)) != 0
}

/// The mask with only bit `i` set.
pub open spec fn one_bit(i: int) -> u32 {
    1u32 << (i as u32)
}

/// Bit `i` of a 16-bit field is set. False for positions outside the field.
pub open spec fn has_bit16(field: u16, i: int) -> bool {
    0 <= i < 16 && field & (1u16 << (i as u16)) != 0
}

/// How many of the bits below `n` are set.
pub open spec fn ones_below(mask: u32, n: nat) -> nat
    decreases n,
{
    if n == 0 {
        0
    } else {
        ones_below(mask, (n - 1) as nat) + if has_bit(mask, n - 1) {
            1nat
        } else {
            0nat
        }
    }
}

/// How many bits of the mask are set.
pub open spec fn ones(mask: u32) -> nat {
    ones_below(mask, 32)
}

/// Setting a bit adds exactly that position.
pub proof fn lemma_set_bit(mask: u32, k: int)
    requires
        0 <= k < 32,
    ensures
        forall|i: int| #[trigger] has_bit(mask | one_bit(k), i) <==> i == k || has_bit(mask, i),
{
    let kb = k as u32;
    assert forall|i: int| #[trigger]
        has_bit(mask | one_bit(k), i) <==> i == k || has_bit(mask, i) by {
        if 0 <= i < 32 {
            let ib = i as u32;
            assert(((mask | (1u32 << kb)) & (1u32 << ib) != 0) <==> (ib == kb || mask & (1u32 << ib)
                != 0)) by (bit_vector)
                requires
                    ib < 32,
                    kb < 32,
            ;
        }
    }
}

/// Clearing a bit removes exactly that position.
pub proof fn lemma_clear_bit(mask: u32, k: int)
    requires
        0 <= k < 32,
    ensures
        forall|i: int| #[trigger] has_bit(mask & !one_bit(k), i) <==> i != k && has_bit(mask, i),
{
    let kb = k as u32;
    assert forall|i: int| #[trigger]
        has_bit(mask & !one_bit(k), i) <==> i != k && has_bit(mask, i) by {
        if 0 <= i < 32 {
            let ib = i as u32;
            assert(((mask & !(1u32 << kb)) & (1u32 << ib) != 0) <==> (ib != kb && mask & (1u32
                << ib) != 0)) by (bit_vector)
                requires
                    ib < 32,
                    kb < 32,
            ;
        }
    }
}

/// Flipping a bit changes exactly that position.
pub proof fn lemma_flip_bit(mask: u32, k: int)
    requires
        0 <= k < 32,
    ensures
        forall|i: int| #[trigger]
            has_bit(mask ^ one_bit(k), i) <==> (if i == k {
                !has_bit(mask, i)
            } else {
                has_bit(mask, i)
            }),
        (mask ^ one_bit(k)) ^ one_bit(k) == mask,
{
    let kb = k as u32;
    assert((mask ^ (1u32 << kb)) ^ (1u32 << kb) == mask) by (bit_vector);
    assert forall|i: int| #[trigger]
        has_bit(mask ^ one_bit(k), i) <==> (if i == k {
            !has_bit(mask, i)
        } else {
            has_bit(mask, i)
        }) by {
        if 0 <= i < 32 {
            let ib = i as u32;
            assert(((mask ^ (1u32 << kb)) & (1u32 << ib) != 0) <==> (if ib == kb {
                mask & (1u32 << ib) == 0
            } else {
                mask & (1u32 << ib) != 0
            })) by (bit_vector)
                requires
                    ib < 32,
                    kb < 32,
            ;
        }
    }
}

/// The empty mask has no bit, the full mask has them all.
pub proof fn lemma_none_and_all()
    ensures
        forall|i: int| !#[trigger] has_bit(0u32, i),
        forall|i: int| 0 <= i < 32 ==> #[trigger] has_bit(u32::MAX, i),
{
    assert forall|i: int| !#[trigger] has_bit(0u32, i) by {
        let ib = i as u32;
        assert(0u32 & (1u32 << ib) == 0) by (bit_vector);
    }
    assert forall|i: int| 0 <= i < 32 implies #[trigger] has_bit(u32::MAX, i) by {
        let ib = i as u32;
        assert(0xFFFF_FFFFu32 & (1u32 << ib) != 0) by (bit_vector)
            requires
                ib < 32,
        ;
    }
}

/// Shifting a bit down to position zero tests the same bit.
proof fn lemma_shifted_bit(mask: u32, i: u32)
    requires
        i < 32,
    ensures
        (mask >> i) & 1u32 == 1u32 <==> has_bit(mask, i as int),
        (mask >> i) & 1u32 == 0u32 <==> !has_bit(mask, i as int),
{
    assert((mask >> i) & 1u32 == 1u32 <==> mask & (1u32 << i) != 0) by (bit_vector)
        requires
            i < 32,
    ;
    assert((mask >> i) & 1u32 == 0u32 <==> mask & (1u32 << i) == 0) by (bit_vector)
        requires
            i < 32,
    ;
}

/// The number of trailing ones is the position of the lowest clear bit.
pub proof fn lemma_trailing_ones(mask: u32, n: u32)
    requires
        n == vstd::std_specs::bits::u32_trailing_ones(mask),
    ensures
        n <= 32,
        forall|k: int| 0 <= k < n ==> #[trigger] has_bit(mask, k),
        n < 32 ==> !has_bit(mask, n as int),
{
    vstd::std_specs::bits::axiom_u32_trailing_ones(mask);
    assert forall|k: int| 0 <= k < n implies #[trigger] has_bit(mask, k) by {
        let j = k as u32;
        assert((mask >> j) & 1u32 == 1u32);
        lemma_shifted_bit(mask, j);
    }
    if n < 32 {
        lemma_shifted_bit(mask, n);
    }
}

/// The number of trailing zeros is the position of the lowest set bit.
pub proof fn lemma_trailing_zeros(mask: u32, n: u32)
    requires
        n == vstd::std_specs::bits::u32_trailing_zeros(mask),
    ensures
        n <= 32,
        n < 32 <==> mask != 0,
        n < 32 ==> has_bit(mask, n as int),
{
    vstd::std_specs::bits::axiom_u32_trailing_zeros(mask);
    if n < 32 {
        lemma_shifted_bit(mask, n);
    }
}

/// Two masks with the same bits are the same mask.
pub proof fn lemma_same_bits(a: u32, b: u32)
    requires
        forall|i: int| #[trigger] has_bit(a, i) == has_bit(b, i),
    ensures
        a == b,
{
    assert forall|i: u32| i < 32 implies (#[trigger] (a & (1u32 << i)) != 0) == (b & (1u32 << i)
        != 0) by {
        assert(has_bit(a, i as int) == has_bit(b, i as int));
    }
    let x = a ^ b;
    if x != 0 {
        let i = vstd::std_specs::bits::u32_trailing_zeros(x);
        vstd::std_specs::bits::axiom_u32_trailing_zeros(x);
        assert((a & (1u32 << i)) != 0 <==> (b & (1u32 << i)) != 0);
        assert(((a & (1u32 << i)) != 0) != ((b & (1u32 << i)) != 0)) by (bit_vector)
            requires
                i < 32,
                x == a ^ b,
                (x >> i) & 1u32 == 1u32,
        ;
    }
    assert(a ^ b == 0 ==> a == b) by (bit_vector);
}

/// A mask with exactly one bit is that bit's mask.
pub proof fn lemma_single_bit(mask: u32, k: int)
    requires
        0 <= k < 32,
        forall|i: int| #[trigger] has_bit(mask, i) <==> i == k,
    ensures
        mask == one_bit(k),
{
    lemma_set_bit(0u32, k);
    lemma_none_and_all();
    let kb = k as u32;
    assert(0u32 | (1u32 << kb) == 1u32 << kb) by (bit_vector);
    assert forall|i: int| #[trigger] has_bit(mask, i) == has_bit(one_bit(k), i) by {
        assert(has_bit(0u32 | one_bit(k), i) <==> i == k || has_bit(0u32, i));
    }
    lemma_same_bits(mask, one_bit(k));
}

/// A count of one singles out a bit.
pub proof fn lemma_ones_is_one(mask: u32, k: int, n: nat)
    requires
        n <= 32,
        0 <= k < n,
        has_bit(mask, k),
    ensures
        ones_below(mask, n) >= 1,
        ones_below(mask, n) == 1 <==> forall|i: int| 0 <= i < n && i != k ==> !#[trigger] has_bit(mask, i),
    decreases n,
{
    let m = (n - 1) as nat;
    if k == n - 1 {
        lemma_ones_zero(mask, m);
    } else {
        lemma_ones_is_one(mask, k, m);
    }
    assert((forall|i: int| 0 <= i < n && i != k ==> !#[trigger] has_bit(mask, i)) <==> ((forall|
        i: int,
    | 0 <= i < m && i != k ==> !#[trigger] has_bit(mask, i)) && (n - 1 != k ==> !has_bit(
        mask,
        n - 1,
    ))));
}

/// A count of zero means that no bit is set.
pub proof fn lemma_ones_zero(mask: u32, n: nat)
    requires
        n <= 32,
    ensures
        ones_below(mask, n) <= n,
        ones_below(mask, n) == 0 <==> forall|i: int| 0 <= i < n ==> !#[trigger] has_bit(mask, i),
    decreases n,
{
    if n > 0 {
        let m = (n - 1) as nat;
        lemma_ones_zero(mask, m);
        assert((forall|i: int| 0 <= i < n ==> !#[trigger] has_bit(mask, i)) <==> ((forall|i: int|
            0 <= i < m ==> !#[trigger] has_bit(mask, i)) && !has_bit(mask, n - 1)));
    }
}

/// Setting a bit that is clear counts one more, whatever else is set, and setting one that
/// is set counts no more.
pub proof fn lemma_each_bit_counts_once(mask: u32, k: int)
    requires
        0 <= k < 32,
    ensures
        mask & (1u32 << (k as u32)) == 0 ==> ones(mask | (1u32 << (k as u32))) == ones(mask) + 1,
        mask & (1u32 << (k as u32)) != 0 ==> ones(mask | (1u32 << (k as u32))) == ones(mask),
        ones(0u32) == 0,
{
    lemma_none_and_all();
    lemma_ones_zero(0u32, 32);
    lemma_one_more_below(mask, k, 32);
}

proof fn lemma_one_more_below(mask: u32, k: int, n: nat)
    requires
        0 <= k < 32,
    ensures
        ones_below(mask | one_bit(k), n) == ones_below(mask, n) + (if k < n && !has_bit(mask, k) {
            1int
        } else {
            0
        }),
    decreases n,
{
    lemma_set_bit(mask, k);
    if n > 0 {
        lemma_one_more_below(mask, k, (n - 1) as nat);
        assert(has_bit(mask | one_bit(k), n - 1) <==> n - 1 == k || has_bit(mask, n - 1));
    }
}

/// Tests one bit of a mask; positions past the mask are never set.
pub fn bit_is_set(mask: u32, i: u8) -> (set: bool)
    ensures
        set == has_bit(mask, i as int),
        set == (i < 32 && mask & (1u32 << (i as u32)) != 0),
{
    if i >= 32 {
        return false;
    }
    mask & (1u32 << (i as u32)) != 0
}

/// Counts the bits that are set.
pub fn count_ones(mask: u32) -> (n: u32)
    ensures
        n == ones(mask),
        n <= 32,
{
    let mut n: u32 = 0;
    let mut i: u8 = 0;
    while i < 32
        invariant
            i <= 32,
            n == ones_below(mask, i as nat),
            n <= i,
        decreases 32 - i,
    {
        if bit_is_set(mask, i) {
            n = n + 1;
        }
        i = i + 1;
    }
    n
}

} // verus!
