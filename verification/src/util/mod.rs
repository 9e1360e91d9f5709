//! Storage primitives: the component arena and the byte representation of the
//! values kept in it.

pub mod arena;
pub mod arena_laws;
pub mod arena_model;
pub mod codec;
pub mod decimal;

use vstd::prelude::*;

verus! {

/// One of two alternatives.
pub enum Either<T1, T2> {
    This(T1),
    That(T2),
}

/// A value with a fixed byte representation, which an arena can store.
///
/// An implementation must not give out anything but plain data: the arena
/// copies the bytes freely and never runs a destructor on them.
pub trait Byteable: Sized {
    /// The number of bytes every value of the type is written as.
    fn size() -> usize;

    /// Reads a value back; `None` when `bytes` is not the representation of one.
    fn from_bytes(bytes: &[u8]) -> Option<Self>;

    /// What [`Byteable::from_bytes`] reads from the bytes of `vec`.
    fn from_vec_bytes(vec: Vec<u8>) -> (r: Option<Self>)
        ensures
            exists|input: &[u8]|
                input@ == vec@ && #[trigger] call_ensures(Self::from_bytes, (input,), r),
    {
        Self::from_bytes(vec.as_slice())
    }

    /// The representation of the value.
    fn into_bytes(self) -> Vec<u8>;
}

/// `n` is a size that `T` reports for its values.
pub open spec fn sized<T: Byteable>(n: usize) -> bool {
    call_ensures(T::size, (), n)
}

/// `bytes` is a representation that `T` gives for `value`.
pub open spec fn encodes<T: Byteable>(value: T, bytes: Seq<u8>) -> bool {
    exists|out: Vec<u8>| out@ == bytes && #[trigger] call_ensures(T::into_bytes, (value,), out)
}

/// `r` is what `T` reads from `bytes`.
pub open spec fn decodes<T: Byteable>(bytes: Seq<u8>, r: Option<T>) -> bool {
    exists|input: &[u8]| input@ == bytes && #[trigger] call_ensures(T::from_bytes, (input,), r)
}

/// `r` is what reading `bytes` as an `A` or a `B` gives, the two told apart
/// by the length: an `A` when the length is that of `A`, else a `B` when it is
/// that of `B`, else nothing.
pub open spec fn decodes_either<A: Byteable, B: Byteable>(
    bytes: Seq<u8>,
    r: Option<Either<A, B>>,
) -> bool {
    exists|size_a: usize, size_b: usize|
        #![trigger sized::<A>(size_a), sized::<B>(size_b)]
        sized::<A>(size_a) && sized::<B>(size_b) && if bytes.len() == size_a {
            exists|a: Option<A>| #[trigger]
                decodes(bytes, a) && r == match a {
                    Some(value) => Some(Either::<A, B>::This(value)),
                    None => None,
                }
        } else if bytes.len() == size_b {
            exists|b: Option<B>| #[trigger]
                decodes(bytes, b) && r == match b {
                    Some(value) => Some(Either::<A, B>::That(value)),
                    None => None,
                }
        } else {
            r is None
        }
}

/// Reading gives back what was written: the law that makes a type fit for an
/// arena.
pub open spec fn round_trips<T: Byteable>() -> bool {
    forall|value: T, bytes: Seq<u8>, r: Option<T>|
        #![trigger encodes(value, bytes), decodes(bytes, r)]
        encodes(value, bytes) && decodes(bytes, r) ==> r == Some(value)
}

} // verus!
