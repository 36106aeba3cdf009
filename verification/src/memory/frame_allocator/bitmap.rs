//! The frame bitmap store: one bit per physical frame, set exactly when the
//! frame is allocated or otherwise in use. Storage is an index-addressed
//! vector of 32-bit words.

use vstd::prelude::*;
use crate::memory::memmap::MAX_FRAME_COUNT;

verus! {

/// Whether bit `b` of word `w` is set.
pub open spec fn word_bit(w: u32, b: u32) -> bool {
    (w >> b) & 1 == 1
}

/// Translates a frame number to its place in the bitmap: the index of the
/// word that holds its bit, and the mask selecting that bit.
pub fn frame_idx_to_parts(idx: u64) -> (r: (usize, u32))
    requires
        idx < MAX_FRAME_COUNT,
    ensures
        r.0 == idx as int / 32,
        r.1 == 1u32 << (idx as u64 % 32),
{
    let word: usize = (idx / 32) as usize;
    let bit: u32 = (idx % 32) as u32;
    (word, 1u32 << bit)
}

/// One bit per frame number in `[0, frame_count)`; set means in use.
pub struct FrameBitmap {
    words: Vec<u32>,
    frame_count: u64,
}

impl FrameBitmap {
    /// The number of frames the bitmap covers.
    pub closed spec fn spec_frame_count(self) -> int {
        self.frame_count as int
    }

    /// The bitmap's contents as a sequence of booleans, frame order.
    pub closed spec fn bits(self) -> Seq<bool> {
        Seq::new(
            self.frame_count as nat,
            |i: int| word_bit(self.words@[i / 32], (i % 32) as u32),
        )
    }

    /// Storage matches the covered range: one word per 32 frames.
    pub closed spec fn wf(self) -> bool {
        &&& self.frame_count <= MAX_FRAME_COUNT
        &&& self.words@.len() == (self.frame_count as int + 31) / 32
    }

    /// The bitmap holds exactly one bit per covered frame.
    pub proof fn lemma_bits_len(self)
        ensures
            self.bits().len() == self.spec_frame_count(),
    {
    }

    /// A bitmap covering `frame_count` frames, all clear.
    pub fn new(frame_count: u64) -> (r: FrameBitmap)
        requires
            frame_count <= MAX_FRAME_COUNT,
        ensures
            r.wf(),
            r.spec_frame_count() == frame_count as int,
            r.bits() == Seq::new(frame_count as nat, |i: int| false),
    {
        let word_count: usize = ((frame_count + 31) / 32) as usize;
        let mut words: Vec<u32> = Vec::new();
        let mut k: usize = 0;
        while k < word_count
            invariant
                k <= word_count,
                words@.len() == k,
                forall|i: int| 0 <= i < k ==> words@[i] == 0u32,
            decreases word_count - k,
        {
            words.push(0u32);
            k = k + 1;
        }
        let r = FrameBitmap { words, frame_count };
        proof {
            assert forall|i: int| 0 <= i < frame_count as int implies !r.bits()[i] by {
                assert(r.words@[i / 32] == 0u32);
                let b = (i % 32) as u32;
                assert(!word_bit(0u32, b)) by (bit_vector);
            }
            assert(r.bits() =~= Seq::new(frame_count as nat, |i: int| false));
        }
        r
    }

    /// The number of frames the bitmap covers.
    pub fn frame_count(&self) -> (r: u64)
        ensures
            r as int == self.spec_frame_count(),
    {
        self.frame_count
    }

    /// Whether frame `idx` is marked in use.
    pub fn is_used(&self, idx: u64) -> (r: bool)
        requires
            self.wf(),
            idx < self.spec_frame_count(),
        ensures
            r == self.bits()[idx as int],
    {
        let (word, mask) = frame_idx_to_parts(idx);
        proof {
            lemma_mask_reads_bit(self.words@[word as int], (idx % 32) as u32);
        }
        self.words[word] & mask != 0
    }

    /// Marks frame `idx` as in use.
    pub fn mark_used(&mut self, idx: u64)
        requires
            old(self).wf(),
            idx < old(self).spec_frame_count(),
        ensures
            final(self).wf(),
            final(self).spec_frame_count() == old(self).spec_frame_count(),
            final(self).bits() == old(self).bits().update(idx as int, true),
    {
        let (word, mask) = frame_idx_to_parts(idx);
        let updated = self.words[word] | mask;
        proof {
            lemma_set_bit(self.words@[word as int], (idx % 32) as u32);
        }
        self.words.set(word, updated);
        proof {
            self.lemma_one_word_changed(*old(self), idx as int, true);
        }
    }

    /// Marks frame `idx` as free.
    pub fn mark_unused(&mut self, idx: u64)
        requires
            old(self).wf(),
            idx < old(self).spec_frame_count(),
        ensures
            final(self).wf(),
            final(self).spec_frame_count() == old(self).spec_frame_count(),
            final(self).bits() == old(self).bits().update(idx as int, false),
    {
        let (word, mask) = frame_idx_to_parts(idx);
        let updated = self.words[word] & !mask;
        proof {
            lemma_clear_bit(self.words@[word as int], (idx % 32) as u32);
        }
        self.words.set(word, updated);
        proof {
            self.lemma_one_word_changed(*old(self), idx as int, false);
        }
    }

    /// After rewriting only the word that holds frame `idx`, in a way that
    /// gives `idx`'s bit the value `v` and leaves the word's other bits
    /// alone, the bitmap as a whole changed only at `idx`.
    proof fn lemma_one_word_changed(self, prev: FrameBitmap, idx: int, v: bool)
        requires
            prev.wf(),
            0 <= idx < prev.spec_frame_count(),
            self.frame_count == prev.frame_count,
            self.words@.len() == prev.words@.len(),
            forall|w: int|
                0 <= w < prev.words@.len() && w != idx / 32 ==> self.words@[w] == prev.words@[w],
            word_bit(self.words@[idx / 32], (idx % 32) as u32) == v,
            forall|b: u32|
                b < 32 && b != (idx % 32) as u32 ==> #[trigger] word_bit(self.words@[idx / 32], b)
                    == word_bit(prev.words@[idx / 32], b),
        ensures
            self.bits() == prev.bits().update(idx, v),
    {
        assert forall|i: int| 0 <= i < self.spec_frame_count() implies self.bits()[i]
            == prev.bits().update(idx, v)[i] by {
            if i != idx {
                if i / 32 == idx / 32 {
                    assert((i % 32) as u32 != (idx % 32) as u32);
                }
            }
        }
        assert(self.bits() =~= prev.bits().update(idx, v));
    }
}

/// Reading a word through a one-bit mask sees exactly that bit.
proof fn lemma_mask_reads_bit(w: u32, b: u32)
    by (bit_vector)
    requires
        b < 32,
    ensures
        (w & (1u32 << b) != 0) == ((w >> b) & 1 == 1),
{
}

/// Or-ing a one-bit mask in sets that bit and leaves the others alone.
proof fn lemma_set_bit(w: u32, b: u32)
    by (bit_vector)
    requires
        b < 32,
    ensures
        ((w | (1u32 << b)) >> b) & 1 == 1,
        forall|b2: u32| b2 < 32 && b2 != b ==> ((w | (1u32 << b)) >> b2) & 1 == (w >> b2) & 1,
{
}

/// And-ing a one-bit mask out clears that bit and leaves the others alone.
proof fn lemma_clear_bit(w: u32, b: u32)
    by (bit_vector)
    requires
        b < 32,
    ensures
        ((w & !(1u32 << b)) >> b) & 1 == 0,
        forall|b2: u32| b2 < 32 && b2 != b ==> ((w & !(1u32 << b)) >> b2) & 1 == (w >> b2) & 1,
{
}

} // verus!
