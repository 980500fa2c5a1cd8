//! The small inline vector that holds the channel states seen by a non-blocking pass.

use smallvec::SmallVec;
use vstd::prelude::*;

verus! {

/// The most words a snapshot holds: their bytes stay far below `isize::MAX`, past which
/// growing the vector panics.
pub const MAX_WORDS: usize = 0x1000_0000;

/// Channel states, one word per handle, kept inline for a few handles.
#[verifier::external_body]
pub struct Snapshot {
    words: SmallVec<[usize; 4]>,
}

/// The words that a snapshot holds, in order.
pub uninterp spec fn words_of(v: Snapshot) -> Seq<usize>;

impl Snapshot {
    /// Relies on `SmallVec::with_capacity`: the new vector is empty. It panics only when
    /// the bytes for `n` words would pass `isize::MAX`.
    #[verifier::external_body]
    pub(crate) fn with_capacity(n: usize) -> (v: Snapshot)
        requires
            n <= MAX_WORDS,
        ensures
            words_of(v) == Seq::<usize>::empty(),
    {
        Snapshot { words: SmallVec::with_capacity(n) }
    }

    /// Relies on `SmallVec::push`: the word is appended at the end. It panics only when
    /// the grown capacity (the next power of two) would overflow or its bytes pass
    /// `isize::MAX`.
    #[verifier::external_body]
    pub(crate) fn push(&mut self, w: usize)
        requires
            words_of(*old(self)).len() < MAX_WORDS,
        ensures
            words_of(*final(self)) == words_of(*old(self)).push(w),
    {
        self.words.push(w);
    }

    /// Relies on `SmallVec`'s `Index`: the word at position `i`.
    #[verifier::external_body]
    pub(crate) fn get(&self, i: usize) -> (w: usize)
        requires
            i < words_of(*self).len(),
        ensures
            w == words_of(*self)[i as int],
    {
        self.words[i]
    }

    /// Relies on `SmallVec`'s `IndexMut`: the word at position `i` is replaced.
    #[verifier::external_body]
    pub(crate) fn set(&mut self, i: usize, w: usize)
        requires
            i < words_of(*old(self)).len(),
        ensures
            words_of(*final(self)) == words_of(*old(self)).update(i as int, w),
    {
        self.words[i] = w;
    }
}

} // verus!
