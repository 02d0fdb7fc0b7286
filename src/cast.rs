//! The layout descriptor: a color type whose memory is a fixed-size array of
//! one channel type.
use vstd::prelude::*;

verus! {

/// A color type whose values are laid out exactly as `Self::Array`, an array
/// of one channel type.
///
/// Implementations are produced by the layout analysis in
/// `crate::derive`, which checks the conditions that make the promise hold.
pub trait ArrayCast: Sized {
    /// The array type, `[Channel; N]`, that a value of `Self` is equivalent to.
    type Array;
}

/// The slot, in a flat array of channels, that channel `i` of element `j`
/// occupies when every element has `n` channels.
pub open spec fn channel_slot(j: int, i: int, n: int) -> int {
    j * n + i
}

/// A buffer of `k` elements of `n` channels each lines up with an array of
/// `k * n` channels: each channel of each element has a slot in the array, no
/// two of them share one, and each slot `s` belongs to channel `s % n` of
/// element `s / n`.
pub proof fn lemma_channel_slots(k: int, n: int)
    requires
        k >= 0,
        n >= 1,
    ensures
        forall|j: int, i: int|
            0 <= j < k && 0 <= i < n ==> 0 <= #[trigger] channel_slot(j, i, n) < k * n,
        forall|j1: int, i1: int, j2: int, i2: int|
            0 <= j1 < k && 0 <= i1 < n && 0 <= j2 < k && 0 <= i2 < n && #[trigger] channel_slot(
                j1,
                i1,
                n,
            ) == #[trigger] channel_slot(j2, i2, n) ==> j1 == j2 && i1 == i2,
        forall|s: int|
            0 <= s < k * n ==> 0 <= #[trigger] (s / n) < k && 0 <= s % n < n && channel_slot(
                s / n,
                s % n,
                n,
            ) == s,
{
    assert forall|j: int, i: int| 0 <= j < k && 0 <= i < n implies 0 <= #[trigger] channel_slot(
        j,
        i,
        n,
    ) < k * n by {
        assert(0 <= j * n + i < k * n) by (nonlinear_arith)
            requires
                0 <= j < k,
                0 <= i < n,
        ;
    }
    assert forall|j1: int, i1: int, j2: int, i2: int|
        0 <= j1 < k && 0 <= i1 < n && 0 <= j2 < k && 0 <= i2 < n && #[trigger] channel_slot(
            j1,
            i1,
            n,
        ) == #[trigger] channel_slot(j2, i2, n) implies j1 == j2 && i1 == i2 by {
        assert(j1 == j2) by (nonlinear_arith)
            requires
                0 <= i1 < n,
                0 <= i2 < n,
                j1 * n + i1 == j2 * n + i2,
        {
            if j1 < j2 {
                assert(j1 * n + n <= j2 * n);
            } else if j2 < j1 {
                assert(j2 * n + n <= j1 * n);
            }
        }
    }
    assert forall|s: int| 0 <= s < k * n implies 0 <= #[trigger] (s / n) < k && 0 <= s % n && s % n
        < n && channel_slot(s / n, s % n, n) == s by {
        assert(0 <= s / n < k && 0 <= s % n < n && (s / n) * n + s % n == s) by (nonlinear_arith)
            requires
                0 <= s < k * n,
                n >= 1,
        ;
    }
}

} // verus!
