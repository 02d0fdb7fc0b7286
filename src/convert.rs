//! Unclamped conversion between color types.
use vstd::prelude::*;

use crate::cast::ArrayCast;

verus! {

/// Conversion of one color from another, without checking that the result is
/// within the bounds of its color space.
pub trait FromColorUnclamped<T>: Sized {
    /// Holds when `output` is the unclamped conversion of `input`.
    spec fn converts(input: T, output: Self) -> bool;

    /// Converts from `val`. The result might be invalid in its color space.
    fn from_color_unclamped(val: T) -> (r: Self)
        ensures
            Self::converts(val, r),
    ;
}

/// Conversion of a color into another: the same conversion as
/// `FromColorUnclamped`, called from the other side.
pub trait IntoColorUnclamped<T: FromColorUnclamped<Self>>: Sized {
    /// Converts `self` into `T`. The result might be invalid in its color
    /// space.
    fn into_color_unclamped(self) -> (r: T)
        ensures
            T::converts(self, r),
    ;
}

impl<T, U: FromColorUnclamped<T>> IntoColorUnclamped<U> for T {
    fn into_color_unclamped(self) -> (r: U) {
        U::from_color_unclamped(self)
    }
}

impl<T, U> FromColorUnclamped<Vec<T>> for Vec<U> where
    T: ArrayCast,
    U: ArrayCast<Array = T::Array> + FromColorUnclamped<T>,
 {
    open spec fn converts(input: Vec<T>, output: Vec<U>) -> bool {
        &&& output@.len() == input@.len()
        &&& forall|i: int| 0 <= i < input@.len() ==> #[trigger] U::converts(input@[i], output@[i])
    }

    /// Converts every color of `color`, in order, into a vector of the same
    /// length.
    fn from_color_unclamped(color: Vec<T>) -> (r: Vec<U>) {
        let mut out: Vec<U> = Vec::with_capacity(color.len());
        for x in it: color.into_iter()
            invariant
                out@.len() == it.index(),
                forall|j: int| 0 <= j < it.index() ==> #[trigger] U::converts(it.seq()[j], out@[j]),
        {
            out.push(U::from_color_unclamped(x));
        }
        out
    }
}

impl<T, U> FromColorUnclamped<Box<[T]>> for Box<[U]> where
    T: ArrayCast,
    U: ArrayCast<Array = T::Array> + FromColorUnclamped<T>,
 {
    open spec fn converts(input: Box<[T]>, output: Box<[U]>) -> bool {
        &&& output@.len() == input@.len()
        &&& forall|i: int| 0 <= i < input@.len() ==> #[trigger] U::converts(input@[i], output@[i])
    }

    /// Converts every color of `color`, in order, into a slice of the same
    /// length.
    fn from_color_unclamped(color: Box<[T]>) -> (r: Box<[U]>) {
        let converted = Vec::<U>::from_color_unclamped(color.into_vec());
        boxed_slice(converted)
    }
}

/// Converting a vector of colors keeps its length, so an empty vector gives an
/// empty vector, and puts the conversion of each color at that color's index.
pub proof fn lemma_vec_conversion_shape<T, U>(input: Vec<T>, output: Vec<U>, i: int)
    where
        T: ArrayCast,
        U: ArrayCast<Array = T::Array> + FromColorUnclamped<T>,
    requires
        <Vec<U> as FromColorUnclamped<Vec<T>>>::converts(input, output),
    ensures
        output@.len() == input@.len(),
        input@.len() == 0 ==> output@.len() == 0,
        0 <= i < input@.len() ==> U::converts(input@[i], output@[i]),
{
}

/// Converting a boxed slice of colors keeps its length, so an empty slice
/// gives an empty slice, and puts the conversion of each color at that
/// color's index.
pub proof fn lemma_boxed_slice_conversion_shape<T, U>(input: Box<[T]>, output: Box<[U]>, i: int)
    where
        T: ArrayCast,
        U: ArrayCast<Array = T::Array> + FromColorUnclamped<T>,
    requires
        <Box<[U]> as FromColorUnclamped<Box<[T]>>>::converts(input, output),
    ensures
        output@.len() == input@.len(),
        input@.len() == 0 ==> output@.len() == 0,
        0 <= i < input@.len() ==> U::converts(input@[i], output@[i]),
{
}

/// Relies on `Vec::into_boxed_slice`: the boxed slice holds the vector's
/// elements, in order.
#[verifier::external_body]
fn boxed_slice<T>(v: Vec<T>) -> (r: Box<[T]>)
    ensures
        r@ == v@,
{
    v.into_boxed_slice()
}

} // verus!
