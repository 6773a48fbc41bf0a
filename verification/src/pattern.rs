//! Patterns: 64 rows of four channels, four bytes per cell.
//!
//! A cell `wwwwxxxx xxxxxxxx yyyyzzzz zzzzzzzz` holds the sample number
//! `wwwwyyyy`, the period `xxxxxxxxxxxx` and the effect word `zzzzzzzzzzzz`.

use vstd::prelude::*;
use crate::channel::Channel;
use crate::effect::{effect_of, Effect};
use crate::note::{from_period, known_period, note_text};

verus! {

/// The size of a pattern in bytes.
pub const PATTERN_SIZE: usize = 1024;

/// The size of a row in bytes: four cells of four bytes.
pub const ROW_SIZE: usize = 16;

/// A pattern and the position of the next row to decode.
#[derive(Debug)]
pub struct Pattern {
    pub data: [u8; 1024],
    pub ptr: usize,
}

/// The sample number of a cell: the high nibbles of its first and third byte.
pub open spec fn cell_sample(b0: u8, b2: u8) -> u8 {
    ((b0 / 16) * 16 + b2 / 16) as u8
}

/// The period of a cell: the low nibble of its first byte, then its second byte.
pub open spec fn cell_period(b0: u8, b1: u8) -> u16 {
    ((b0 % 16) * 256 + b1) as u16
}

/// The effect word of a cell: the low nibble of its third byte, then its fourth.
pub open spec fn cell_effect(b2: u8, b3: u8) -> u16 {
    ((b2 % 16) * 256 + b3) as u16
}

/// The period of cell `k` of the row that starts at byte `at`.
pub open spec fn period_at(data: Seq<u8>, at: int, k: int) -> u16 {
    cell_period(data[at + 4 * k], data[at + 4 * k + 1])
}

/// Whether the channel value `c` is the decoding of cell `k` of the row at `at`.
pub open spec fn decodes(c: Channel, data: Seq<u8>, at: int, k: int) -> bool {
    let b0 = data[at + 4 * k];
    let b1 = data[at + 4 * k + 1];
    let b2 = data[at + 4 * k + 2];
    let b3 = data[at + 4 * k + 3];
    &&& c.sample == cell_sample(b0, b2)
    &&& c.period == cell_period(b0, b1)
    &&& c.effect == effect_of(cell_effect(b2, b3))
    &&& c.note@ == note_text(cell_period(b0, b1))
}

/// Whether `next` can decode the row at `ptr` (or finish the pattern): the
/// row lies inside the pattern and every period in it has a note name.
pub open spec fn next_ok(data: Seq<u8>, ptr: usize) -> bool {
    ptr >= 1024 || (ptr + 16 <= 1024 && forall|k: int| 0 <= k < 4 ==> known_period(
        #[trigger] period_at(data, ptr as int, k),
    ))
}

/// The position after a call of `next` from position `ptr`: the next row,
/// or back to the first row once the pattern is over.
pub open spec fn after_next(ptr: usize) -> usize {
    if ptr >= 1024 { 0 } else { (ptr + 16) as usize }
}

/// The position after `k` calls of `next` from the first row.
pub open spec fn ptr_after(k: nat) -> usize
    decreases k,
{
    if k == 0 { 0 } else { after_next(ptr_after((k - 1) as nat)) }
}

/// Playing a pattern from its first row gives rows 0 to 63 in order, then
/// the end of the pattern, after which it stands at its first row again.
pub proof fn lemma_pattern_cycle(k: nat)
    requires
        k <= 65,
    ensures
        k <= 64 ==> ptr_after(k) == 16 * k,
        k < 64 ==> ptr_after(k) < 1024 && ptr_after(k) / 16 == k,
        k == 64 ==> ptr_after(k) >= 1024,
        k == 65 ==> ptr_after(k) == 0,
    decreases k,
{
    if k > 0 {
        lemma_pattern_cycle((k - 1) as nat);
    }
}

/// Playing a pattern is periodic: every 65 calls of `next` (64 rows and the
/// end) it stands at the same position again.  Since what `next` gives
/// depends only on the pattern's bytes and its position, calls 66 to 129
/// give the rows of calls 1 to 64 again, and so on.
pub proof fn lemma_pattern_replay(k: nat)
    ensures
        ptr_after(k + 65) == ptr_after(k),
    decreases k,
{
    if k == 0 {
        lemma_pattern_cycle(65);
    } else {
        lemma_pattern_replay((k - 1) as nat);
        assert(ptr_after(k + 65) == after_next(ptr_after((k - 1 + 65) as nat)));
    }
}

/// The effect commands of the first `n` cells of the row at `at` that the
/// player does not know (neither 0 nor 0xc), in cell order.
pub open spec fn unknown_in_row(data: Seq<u8>, at: int, n: int) -> Seq<u8>
    decreases n,
{
    if n <= 0 {
        Seq::empty()
    } else {
        let k = (data[at + 4 * (n - 1) + 2] % 16) as u8;
        if k != 0 && k != 0xc {
            unknown_in_row(data, at, n - 1).push(k)
        } else {
            unknown_in_row(data, at, n - 1)
        }
    }
}

/// What `next` gives for one cell: sample number, period, effect and
/// note name.
pub open spec fn cell_view(data: Seq<u8>, at: int, k: int) -> (u8, u16, Effect, Seq<char>) {
    let b0 = data[at + 4 * k];
    let b1 = data[at + 4 * k + 1];
    let b2 = data[at + 4 * k + 2];
    let b3 = data[at + 4 * k + 3];
    (cell_sample(b0, b2), cell_period(b0, b1), effect_of(cell_effect(b2, b3)), note_text(cell_period(b0, b1)))
}

/// What a call of `next` at position `ptr` gives: the end of the pattern,
/// or the row number and the four cells of the row there.
pub open spec fn next_view(data: Seq<u8>, ptr: usize) -> Option<(usize, Seq<(u8, u16, Effect, Seq<char>)>)> {
    if ptr >= 1024 {
        None
    } else {
        Some(((ptr / 16) as usize, Seq::new(4, |k: int| cell_view(data, ptr as int, k))))
    }
}

/// A result of `next` seen as values: the row number and, for each cell,
/// its sample number, period, effect and note name.
pub open spec fn items_view(res: Option<(usize, Vec<Channel>)>) -> Option<(usize, Seq<(u8, u16, Effect, Seq<char>)>)> {
    match res {
        Some((row, items)) => Some((row, items@.map_values(|c: Channel| (c.sample, c.period, c.effect, c.note@)))),
        None => None,
    }
}

/// A pattern replays its rows: from the first row, call `k` of `next` (for
/// `k` from 1 to 64) gives row `k - 1`, call 65 gives the end of the
/// pattern, and call `k + 65` gives exactly what call `k` gave.  (Call `j`
/// is made at position `ptr_after(j - 1)`, and what it gives is
/// `next_view` of the pattern's bytes there.)
pub proof fn lemma_pattern_replays_rows(data: Seq<u8>, k: nat)
    requires
        1 <= k <= 64,
    ensures
        next_view(data, ptr_after((k - 1) as nat)) matches Some((row, _)) && row == k - 1,
        next_view(data, ptr_after(64)) is None,
        next_view(data, ptr_after(k + 64)) == next_view(data, ptr_after((k - 1) as nat)),
{
    lemma_pattern_cycle((k - 1) as nat);
    lemma_pattern_cycle(64);
    lemma_pattern_replay((k - 1) as nat);
    assert((k - 1) as nat + 65 == k + 64);
}

impl Pattern {
    /// The effect commands of the next row that the player does not know,
    /// in cell order (none when the pattern is over).
    pub fn unknown_commands(&self) -> (res: Vec<u8>)
        requires
            self.ptr >= 1024 || self.ptr + 16 <= 1024,
        ensures
            self.ptr >= 1024 ==> res@.len() == 0,
            self.ptr < 1024 ==> res@ == unknown_in_row(self.data@, self.ptr as int, 4),
    {
        let mut out: Vec<u8> = Vec::new();
        if self.ptr >= PATTERN_SIZE {
            return out;
        }
        let mut k: usize = 0;
        while k < 4
            invariant
                k <= 4,
                self.ptr + 16 <= 1024,
                out@ == unknown_in_row(self.data@, self.ptr as int, k as int),
            decreases 4 - k,
        {
            let b = self.data[self.ptr + 4 * k + 2];
            let cmd = b & 0x0f;
            assert(b & 0x0fu8 == b % 16) by (bit_vector);
            if !crate::effect::Kind::known(cmd) {
                out.push(cmd);
            }
            k = k + 1;
        }
        out
    }

    /// A pattern positioned at its first row.
    pub fn new(data: [u8; 1024]) -> (res: Self)
        ensures
            res.data == data,
            res.ptr == 0,
    {
        Pattern { data, ptr: 0 }
    }

    /// Whether `next` can be called now.
    pub fn can_advance(&self) -> (res: bool)
        ensures
            res == next_ok(self.data@, self.ptr),
    {
        if self.ptr >= PATTERN_SIZE {
            return true;
        }
        if self.ptr > PATTERN_SIZE - ROW_SIZE {
            return false;
        }
        let mut k: usize = 0;
        while k < 4
            invariant
                self.ptr + 16 <= 1024,
                k <= 4,
                forall|j: int| 0 <= j < k ==> known_period(#[trigger] period_at(self.data@, self.ptr as int, j)),
            decreases 4 - k,
        {
            let i = self.ptr + 4 * k;
            let b0 = self.data[i];
            let b1 = self.data[i + 1];
            let period = ((b0 & 0x0f) as u16) << 8 | (b1 as u16);
            assert(((((b0 & 0x0fu8) as u16) << 8u16) | (b1 as u16)) == ((b0 % 16) * 256 + b1) as u16) by (bit_vector);
            assert(period == period_at(self.data@, self.ptr as int, k as int));
            match from_period(period) {
                Ok(_) => {},
                Err(_) => {
                    return false;
                },
            }
            k = k + 1;
        }
        true
    }

    /// Decodes the next row: its number and its four channels, and moves to
    /// the row after it.  At the end of the pattern it gives `None` and goes
    /// back to the first row, so that the pattern can be played again.
    pub fn next(&mut self) -> (res: Option<(usize, Vec<Channel>)>)
        requires
            next_ok(old(self).data@, old(self).ptr),
        ensures
            final(self).data == old(self).data,
            final(self).ptr == after_next(old(self).ptr),
            items_view(res) == next_view(old(self).data@, old(self).ptr),
            old(self).ptr >= 1024 ==> res is None && final(self).ptr == 0,
            old(self).ptr < 1024 ==> {
                &&& final(self).ptr == old(self).ptr + 16
                &&& res matches Some((row, items)) && row == old(self).ptr / 16
                    && items.len() == 4
                    && forall|k: int| 0 <= k < 4 ==> decodes(#[trigger] items@[k], old(self).data@, old(self).ptr as int, k)
            },
    {
        if self.ptr >= PATTERN_SIZE {
            self.ptr = 0;
            return None;
        }
        let mut items: Vec<Channel> = Vec::new();
        let row = self.ptr / ROW_SIZE;
        let mut k: usize = 0;
        while k < 4
            invariant
                self.ptr + 16 <= 1024,
                next_ok(self.data@, self.ptr),
                k <= 4,
                items.len() == k,
                forall|j: int| 0 <= j < k ==> decodes(#[trigger] items@[j], self.data@, self.ptr as int, j),
            decreases 4 - k,
        {
            let i = self.ptr + 4 * k;
            let b0 = self.data[i];
            let b1 = self.data[i + 1];
            let b2 = self.data[i + 2];
            let b3 = self.data[i + 3];
            let sample = (b0 & 0xF0) | ((b2 & 0xF0) >> 4);
            let period = ((b0 & 0x0F) as u16) << 8 | (b1 as u16);
            let effect = ((b2 & 0x0F) as u16) << 8 | (b3 as u16);
            assert(((((b0 & 0x0fu8) as u16) << 8u16) | (b1 as u16)) == ((b0 % 16) * 256 + b1) as u16) by (bit_vector);
            assert(((((b2 & 0x0fu8) as u16) << 8u16) | (b3 as u16)) == ((b2 % 16) * 256 + b3) as u16) by (bit_vector);
            assert(((b0 & 0xf0u8) | ((b2 & 0xf0u8) >> 4u8)) == ((b0 / 16) * 16 + b2 / 16) as u8) by (bit_vector);
            assert(period == period_at(self.data@, self.ptr as int, k as int));
            let note = match from_period(period) {
                Ok(s) => s,
                Err(_) => {
                    proof {
                        assert(known_period(period_at(self.data@, self.ptr as int, k as int)));
                    }
                    return None;
                },
            };
            items.push(Channel { note, sample, period, effect: Effect::parse(effect) });
            k = k + 1;
        }
        let ghost at = self.ptr as int;
        assert(items@.map_values(|c: Channel| (c.sample, c.period, c.effect, c.note@)) =~= Seq::new(
            4,
            |k: int| cell_view(self.data@, at, k),
        ));
        self.ptr = self.ptr + ROW_SIZE;
        Some((row, items))
    }
}

} // verus!
