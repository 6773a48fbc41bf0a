//! Sample sources: the position logic of a playing sample.  A source plays
//! its sample once; a looping source, once it has been played all the way
//! through, jumps to the loop start and plays the loop (whose length counts
//! words, two bytes each) again and again.

use vstd::prelude::*;
use crate::effect::{zero_effect, Effect};
use crate::Error;

verus! {

/// A sample being played: its name, loop, position, period, data and effect.
/// `ptr` is the position of the next value and `sample_end` the position
/// where the current pass ends.
pub struct Source {
    pub name: String,
    pub loop_it: bool,
    pub loop_offset: usize,
    pub loop_length: usize,
    pub ptr: usize,
    pub period: u16,
    pub samples: Vec<u8>,
    pub effect: Effect,
    pub sample_end: usize,
}

/// The position state of a source: where the next value is and where the
/// current pass ends.
pub struct Cursor {
    pub ptr: nat,
    pub end: nat,
}

/// One step of a source of `len` values: the next state and the position of
/// the value it plays, if any.
pub open spec fn step(len: nat, loop_it: bool, loop_offset: nat, loop_length: nat, c: Cursor) -> (Cursor, Option<nat>) {
    if len == 0 {
        (c, None)
    } else if c.ptr >= c.end {
        if loop_it {
            (Cursor { ptr: loop_offset + 1, end: loop_offset + loop_length * 2 }, Some(loop_offset))
        } else {
            (c, None)
        }
    } else {
        (Cursor { ptr: c.ptr + 1, end: c.end }, Some(c.ptr))
    }
}

/// The state after `k` steps.
pub open spec fn steps(len: nat, loop_it: bool, loop_offset: nat, loop_length: nat, c: Cursor, k: nat) -> Cursor
    decreases k,
{
    if k == 0 {
        c
    } else {
        step(len, loop_it, loop_offset, loop_length, steps(len, loop_it, loop_offset, loop_length, c, (k - 1) as nat)).0
    }
}

impl Source {
    /// The position state of the source.
    pub open spec fn cursor(&self) -> Cursor {
        Cursor { ptr: self.ptr as nat, end: self.sample_end as nat }
    }

    /// An empty source: no data, no loop, no effect.
    pub fn zero() -> (res: Self)
        ensures
            res.name@ == Seq::<char>::empty(),
            res.samples@.len() == 0,
            !res.loop_it,
            res.loop_offset == 0,
            res.loop_length == 0,
            res.ptr == 0,
            res.period == 0,
            res.effect == zero_effect(),
            res.sample_end == 1,
    {
        Source {
            loop_it: false,
            loop_offset: 0,
            loop_length: 0,
            name: String::new(),
            ptr: 0,
            period: 0,
            samples: Vec::new(),
            effect: Effect::zero(),
            sample_end: 1,
        }
    }

    /// A source that plays `samples` at `period` with `effect`, from the
    /// start, looping as given.  An empty sample is allowed.
    pub fn new(
        name: String,
        samples: &[u8],
        period: u16,
        loop_it: bool,
        loop_offset: usize,
        loop_length: usize,
        effect: Effect,
    ) -> (res: Result<Self, Error>)
        ensures
            res matches Ok(s) && s.name == name && s.samples@ == samples@ && s.period == period
                && s.loop_it == loop_it && s.loop_offset == loop_offset && s.loop_length == loop_length
                && s.effect == effect && s.ptr == 0 && s.sample_end == samples@.len(),
    {
        let mut data: Vec<u8> = Vec::new();
        let mut i: usize = 0;
        while i < samples.len()
            invariant
                i <= samples@.len(),
                data@ == samples@.subrange(0, i as int),
            decreases samples@.len() - i,
        {
            data.push(samples[i]);
            i = i + 1;
            assert(data@ =~= samples@.subrange(0, i as int));
        }
        assert(data@ =~= samples@);
        Ok(Source {
            loop_it,
            loop_offset,
            loop_length,
            name,
            ptr: 0,
            period,
            samples: data,
            sample_end: samples.len(),
            effect,
        })
    }

    /// Moves to the next value and gives its position in `samples`, or
    /// `None` when the source has ended (or has no data).
    pub fn next_index(&mut self) -> (res: Option<usize>)
        requires
            old(self).loop_offset + 2 * old(self).loop_length < usize::MAX,
        ensures
            final(self).name == old(self).name,
            final(self).samples == old(self).samples,
            final(self).loop_it == old(self).loop_it,
            final(self).loop_offset == old(self).loop_offset,
            final(self).loop_length == old(self).loop_length,
            final(self).period == old(self).period,
            final(self).effect == old(self).effect,
            (final(self).cursor(), match res { Some(i) => Some(i as nat), None => None }) == step(
                old(self).samples@.len(),
                old(self).loop_it,
                old(self).loop_offset as nat,
                old(self).loop_length as nat,
                old(self).cursor(),
            ),
    {
        if self.samples.len() == 0 {
            return None;
        }
        if self.ptr >= self.sample_end {
            if self.loop_it {
                self.ptr = self.loop_offset;
                self.sample_end = self.loop_offset + self.loop_length * 2;
            } else {
                return None;
            }
        }
        self.ptr = self.ptr + 1;
        Some(self.ptr - 1)
    }
}

/// A source that does not loop plays its values in order, one per step, and
/// then ends: after `k < len` steps from the start the next value is the one
/// at `k`, and after `len` steps no value follows.
pub proof fn lemma_once_plays_in_order(len: nat, loop_offset: nat, loop_length: nat, k: nat)
    requires
        len > 0,
        k <= len,
    ensures
        steps(len, false, loop_offset, loop_length, Cursor { ptr: 0, end: len }, k) == (Cursor { ptr: k, end: len }),
        k < len ==> step(len, false, loop_offset, loop_length, Cursor { ptr: k, end: len }).1 == Some(k),
        k == len ==> step(len, false, loop_offset, loop_length, Cursor { ptr: k, end: len }) == (
        Cursor { ptr: k, end: len }, None::<nat>),
    decreases k,
{
    if k > 0 {
        lemma_once_plays_in_order(len, loop_offset, loop_length, (k - 1) as nat);
    }
}

/// A looping source with data never ends: every step, from any state,
/// plays a value.
pub proof fn lemma_loop_never_ends(len: nat, loop_offset: nat, loop_length: nat, c: Cursor, k: nat)
    requires
        len > 0,
    ensures
        step(len, true, loop_offset, loop_length, steps(len, true, loop_offset, loop_length, c, k)).1 is Some,
{
}

/// Once a looping source has jumped to its loop, it plays only positions of
/// the loop: from a state inside the loop (or at its end), the next value
/// lies in `loop_offset .. loop_offset + 2 * loop_length`, and the state stays
/// inside the loop.
pub proof fn lemma_loop_stays_in_loop(len: nat, loop_offset: nat, loop_length: nat, c: Cursor)
    requires
        len > 0,
        loop_length > 0,
        c.end == loop_offset + 2 * loop_length,
        loop_offset <= c.ptr <= c.end,
    ensures
        ({
            let (n, v) = step(len, true, loop_offset, loop_length, c);
            &&& v matches Some(i) && loop_offset <= i < loop_offset + 2 * loop_length
            &&& n.end == c.end
            &&& loop_offset <= n.ptr <= n.end
        }),
{
}

/// Every source with data, looping or not and whatever its loop, first plays
/// its whole sample once from the start, in order: after `k < len` steps from
/// the start the next value is the one at `k`.  After `len` steps a source
/// that does not loop ends, and a looping one jumps to its loop start.
pub proof fn lemma_first_pass_in_order(len: nat, loop_it: bool, loop_offset: nat, loop_length: nat, k: nat)
    requires
        len > 0,
        k <= len,
    ensures
        steps(len, loop_it, loop_offset, loop_length, Cursor { ptr: 0, end: len }, k) == (Cursor { ptr: k, end: len }),
        k < len ==> step(len, loop_it, loop_offset, loop_length, Cursor { ptr: k, end: len }) == (
        Cursor { ptr: k + 1, end: len }, Some(k)),
        k == len && !loop_it ==> step(len, loop_it, loop_offset, loop_length, Cursor { ptr: k, end: len }).1
            is None,
        k == len && loop_it ==> step(len, loop_it, loop_offset, loop_length, Cursor { ptr: k, end: len }) == (
        Cursor { ptr: loop_offset + 1, end: loop_offset + 2 * loop_length }, Some(loop_offset)),
    decreases k,
{
    if k > 0 {
        lemma_first_pass_in_order(len, loop_it, loop_offset, loop_length, (k - 1) as nat);
    }
}

} // verus!
