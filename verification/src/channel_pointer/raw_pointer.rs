//! What the two pointer forms have in common.

use crate::aggregate::Codeplug;
use crate::cp_data::RawCPData;
use crate::error::{CodecError, ReferenceError};
use vstd::prelude::*;

verus! {

/// A pointer of fixed width that can be checked against a codeplug.
pub trait RawPointer: RawCPData {
    /// Number of bytes that a stored pointer takes.
    spec fn spec_sz() -> nat;

    /// Whether the pointer names a channel of the codeplug: `Ok`, or the
    /// dangling reference.
    spec fn spec_verify(v: Self::V, cp: &Codeplug) -> Result<(), ReferenceError>;

    /// Number of bytes that a stored pointer takes.
    fn sz() -> (r: usize)
        ensures
            r == Self::spec_sz(),
            0 < r <= 0xffff,
    ;

    /// A pointer that decoding gives back after encoding.
    spec fn spec_valid(v: Self::V) -> bool;

    /// Every stored pointer takes `spec_sz` bytes.
    proof fn lemma_store_len(v: Self::V)
        ensures
            Self::spec_store(v) matches Ok(b) ==> b.len() == Self::spec_sz(),
    ;

    /// The bytes of a valid pointer decode to the pointer, whatever follows
    /// them.
    proof fn lemma_load_stored(v: Self::V, rest: Seq<u8>)
        requires
            Self::spec_valid(v),
        ensures
            Self::spec_store(v) is Ok,
            Self::spec_load(Self::spec_store(v)->Ok_0 + rest) == Ok::<Self::V, CodecError>(v),
    ;

    /// Checks the pointer against the codeplug.
    fn verify(&self, cp: &Codeplug) -> (r: Result<(), ReferenceError>)
        ensures
            r == Self::spec_verify(self@, cp),
    ;
}

/// Whether every pointer of a list names a channel of the codeplug: `Ok`, or
/// the dangling reference of the first pointer that has one.
pub open spec fn verify_all<T: RawPointer>(ptrs: Seq<T::V>, cp: &Codeplug) -> Result<
    (),
    ReferenceError,
>
    decreases ptrs.len(),
{
    if ptrs.len() == 0 {
        Ok(())
    } else {
        match verify_all::<T>(ptrs.drop_last(), cp) {
            Err(e) => Err(e),
            Ok(_) => match T::spec_verify(ptrs.last(), cp) {
                Err(e) => Err(e),
                Ok(_) => Ok(()),
            },
        }
    }
}

/// Checks every pointer of a list against the codeplug.
pub fn verify_pointers<T: RawPointer>(ptrs: &Vec<T>, cp: &Codeplug) -> (r: Result<
    (),
    ReferenceError,
>)
    ensures
        r == verify_all::<T>(crate::cp_data::views(ptrs@), cp),
{
    let ghost all = crate::cp_data::views(ptrs@);
    let mut i: usize = 0;
    assert(all.subrange(0, 0) =~= Seq::<T::V>::empty());
    while i < ptrs.len()
        invariant
            i <= ptrs@.len(),
            all == crate::cp_data::views(ptrs@),
            verify_all::<T>(all.subrange(0, i as int), cp) == Ok::<(), ReferenceError>(()),
        decreases ptrs@.len() - i,
    {
        let ghost front = all.subrange(0, i as int);
        let ghost next = all.subrange(0, i + 1);
        assert(next.drop_last() =~= front);
        assert(next.last() == ptrs@[i as int]@);
        match ptrs[i].verify(cp) {
            Ok(_) => {},
            Err(e) => {
                proof {
                    lemma_verify_all_fails::<T>(all, cp, i + 1, e);
                }
                return Err(e);
            },
        }
        i += 1;
    }
    assert(all.subrange(0, i as int) =~= all);
    Ok(())
}

/// Once a pointer fails, the whole list fails in the same way.
pub proof fn lemma_verify_all_fails<T: RawPointer>(
    ptrs: Seq<T::V>,
    cp: &Codeplug,
    n: int,
    e: ReferenceError,
)
    requires
        0 <= n <= ptrs.len(),
        verify_all::<T>(ptrs.subrange(0, n), cp) == Err::<(), ReferenceError>(e),
    ensures
        verify_all::<T>(ptrs, cp) == Err::<(), ReferenceError>(e),
    decreases ptrs.len() - n,
{
    if n < ptrs.len() {
        let next = ptrs.subrange(0, n + 1);
        assert(next.drop_last() =~= ptrs.subrange(0, n));
        lemma_verify_all_fails::<T>(ptrs, cp, n + 1, e);
    } else {
        assert(ptrs.subrange(0, n) =~= ptrs);
    }
}

} // verus!
