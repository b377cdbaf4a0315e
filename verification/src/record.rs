//! What a type must offer to be kept in a table: an identifier, a byte form
//! of bounded length, and a reading of that form that undoes the writing.

use vstd::prelude::*;

verus! {

/// The most bytes that a table takes for one record.
pub const MAX_SIZE: usize = 1024;

/// A record that a table can hold.
///
/// The spec functions speak of a record's view. The proof functions are the
/// laws that every implementation proves; the executable functions compute
/// what the spec functions state.
pub trait Record: View + Sized {
    /// The word for this kind of record in the text of a failure.
    spec fn kind_text() -> Seq<char>;

    /// The identifier that the record carries.
    spec fn id_of(v: Self::V) -> u64;

    /// The record with its identifier replaced.
    spec fn stamped(v: Self::V, id: u64) -> Self::V;

    /// Whether the record can be written: every count in its byte form fits
    /// the width that the form gives it. Every executable record can.
    spec fn writable(v: Self::V) -> bool;

    /// The byte form of the record.
    spec fn encoding(v: Self::V) -> Seq<u8>;

    /// The record that the bytes are the form of, if they are one.
    spec fn decoding(bytes: Seq<u8>) -> Option<Self::V>;

    /// The greatest length of a byte form that is stored.
    spec fn size_limit() -> nat;

    /// Whether every byte form has exactly the length `size_limit()`.
    spec fn fixed_size() -> bool;

    /// Reading the byte form of a record gives the record back.
    proof fn lemma_round_trip(v: Self::V)
        requires
            Self::writable(v),
        ensures
            Self::decoding(Self::encoding(v)) == Some(v),
    ;

    /// Replacing the identifier sets it, and replacing it by itself changes
    /// nothing.
    proof fn lemma_stamped(v: Self::V, id: u64)
        ensures
            Self::id_of(Self::stamped(v, id)) == id,
            Self::stamped(v, Self::id_of(v)) == v,
    ;

    /// The limit is no more than a table takes, and a kind of fixed size
    /// always fills it.
    proof fn lemma_size(v: Self::V)
        ensures
            Self::size_limit() <= MAX_SIZE,
            Self::fixed_size() && Self::writable(v) ==> Self::encoding(v).len()
                == Self::size_limit(),
    ;

    /// The word for this kind of record.
    fn kind() -> (k: &'static str)
        ensures
            k@ == Self::kind_text(),
    ;

    /// The greatest length of a byte form that is stored.
    fn max_size() -> (n: usize)
        ensures
            n == Self::size_limit(),
    ;

    /// Whether every byte form has exactly the greatest length.
    fn is_fixed_size() -> (b: bool)
        ensures
            b == Self::fixed_size(),
    ;

    /// The identifier of the record.
    fn id(&self) -> (id: u64)
        ensures
            id == Self::id_of(self@),
    ;

    /// The record with the identifier `id` in place of its own.
    fn with_id(self, id: u64) -> (r: Self)
        ensures
            r@ == Self::stamped(self@, id),
    ;

    /// A copy of the record.
    fn duplicate(&self) -> (r: Self)
        ensures
            r@ == self@,
    ;

    /// The byte form of the record.
    fn encode(&self) -> (bytes: Vec<u8>)
        ensures
            Self::writable(self@),
            bytes@ == Self::encoding(self@),
    ;

    /// The record that `bytes` are the form of; `None` where they are the
    /// form of none.
    fn decode(bytes: &[u8]) -> (r: Option<Self>)
        ensures
            match Self::decoding(bytes@) {
                Some(v) => r.is_some() && r.unwrap()@ == v,
                None => r.is_none(),
            },
    ;
}

} // verus!
