//! Raw 8-bit PCM sources that play a sample at a fixed rate, once or in a
//! loop over the whole sample.

use vstd::prelude::*;

verus! {

/// A sample being played: its unsigned 8-bit data, rate, the number of
/// values played so far, whether it loops, the position of the next value
/// and its name.
#[derive(Clone)]
pub struct RawPcmSource {
    pub samples: Vec<u8>,
    pub sample_rate: u32,
    pub taken: u64,
    pub loop_it: bool,
    pub ptr: usize,
    pub name: String,
}

/// The position after skipping `bytes` values from `ptr` in a sample of `len`
/// values: past the end a looping source wraps around, any other stops at
/// the end.
pub open spec fn advanced(len: nat, loop_it: bool, ptr: nat, bytes: nat) -> nat {
    if len == 0 {
        ptr
    } else if ptr + bytes > len {
        if loop_it { (ptr + bytes) % len } else { len }
    } else {
        ptr + bytes
    }
}

/// Whether `next_byte` plays a value: the sample has data, and either the
/// position is inside it or the source loops.
pub open spec fn plays(len: nat, loop_it: bool, ptr: nat) -> bool {
    len > 0 && (ptr < len || loop_it)
}

impl RawPcmSource {
    /// Whether `next_byte` plays a value now.
    pub fn will_play(&self) -> (res: bool)
        ensures
            res == plays(self.samples@.len(), self.loop_it, self.ptr as nat),
    {
        self.samples.len() > 0 && (self.ptr < self.samples.len() || self.loop_it)
    }

    /// Skips `bytes` values.
    pub fn advance(&mut self, bytes: usize)
        requires
            old(self).ptr + bytes <= usize::MAX,
        ensures
            final(self).ptr == advanced(old(self).samples@.len(), old(self).loop_it, old(self).ptr as nat, bytes as nat),
            final(self).samples == old(self).samples,
            final(self).sample_rate == old(self).sample_rate,
            final(self).taken == old(self).taken,
            final(self).loop_it == old(self).loop_it,
            final(self).name == old(self).name,
    {
        if self.samples.len() == 0 {
            return;
        }
        if self.ptr + bytes > self.samples.len() {
            if self.loop_it {
                self.ptr = (self.ptr + bytes) % self.samples.len();
            } else {
                self.ptr = self.samples.len();
            }
        } else {
            self.ptr += bytes;
        }
    }

    /// Plays the next value: the byte at the position (after wrapping to
    /// the start, for a looping source at the end), counting it in `taken`.
    /// Gives `None`, and changes nothing, when the source has ended or has
    /// no data.
    pub fn next_byte(&mut self) -> (res: Option<u8>)
        requires
            plays(old(self).samples@.len(), old(self).loop_it, old(self).ptr as nat) ==> old(self).taken < u64::MAX,
        ensures
            final(self).samples == old(self).samples,
            final(self).sample_rate == old(self).sample_rate,
            final(self).loop_it == old(self).loop_it,
            final(self).name == old(self).name,
            !plays(old(self).samples@.len(), old(self).loop_it, old(self).ptr as nat) ==> res is None
                && final(self).ptr == old(self).ptr && final(self).taken == old(self).taken,
            plays(old(self).samples@.len(), old(self).loop_it, old(self).ptr as nat) ==> ({
                let at = if old(self).ptr < old(self).samples@.len() { old(self).ptr as int } else { 0 };
                &&& res == Some(old(self).samples@[at])
                &&& final(self).ptr == at + 1
                &&& final(self).taken == old(self).taken + 1
            }),
    {
        if self.samples.len() == 0 {
            return None;
        }
        if self.ptr >= self.samples.len() {
            if self.loop_it {
                self.ptr = 0;
            } else {
                return None;
            }
        }
        let sample_byte = self.samples[self.ptr];
        self.taken += 1;
        self.ptr += 1;
        Some(sample_byte)
    }
}

/// Skipping keeps the position inside the sample (or at its end).
pub proof fn lemma_advance_in_range(len: nat, loop_it: bool, ptr: nat, bytes: nat)
    requires
        len > 0,
        ptr <= len,
    ensures
        advanced(len, loop_it, ptr, bytes) <= len,
        loop_it && ptr + bytes > len ==> advanced(len, loop_it, ptr, bytes) < len,
{
}

} // verus!
