//! The decisions of the player: the walk through the song, position by
//! position and row by row, and, for each row, which channels latch which
//! sample.

use vstd::prelude::*;
use crate::channel::Channel;
use crate::effect::Effect;
use crate::module::Module;
use crate::pattern::{next_ok, decodes, unknown_in_row, Pattern};
use crate::pcm::Source;
use crate::sample::Sample;

verus! {

/// Where the player stands in the song: the song position, and whether the
/// position has been entered (announced) yet.
pub struct Song {
    pub position: usize,
    pub entered: bool,
}

/// What one step of the song gives.
pub enum SongStep {
    /// The song moves to song position `index`, which plays `pattern`.
    Position { index: usize, pattern: u8 },
    /// Row `row` of the current pattern, decoded.
    /// `unknown_commands` are the effect commands of the row that the player
    /// does not know (and reads as no effect), in cell order.
    Row { row: usize, channels: Vec<Channel>, unknown_commands: Vec<u8> },
    /// The song is over.
    End,
}

/// Whether the next step can be taken: when a row is due, the current
/// song position names a pattern of the module whose next row decodes.
pub open spec fn step_ok(song: Song, m: Module) -> bool {
    song.entered && song.position < m.pattern_table.len() ==> {
        let q = m.pattern_table@[song.position as int] as int;
        &&& q < m.patterns.len()
        &&& next_ok(m.patterns@[q].data@, m.patterns@[q].ptr)
    }
}

/// Whether `new` is `old` with pattern `q` replaced by `p` (or unchanged
/// when `q` is out of range).
pub open spec fn same_but_pattern(old: Module, new: Module, q: int, p: Pattern) -> bool {
    &&& new.num_channels == old.num_channels
    &&& new.title == old.title
    &&& new.pattern_table == old.pattern_table
    &&& new.samples == old.samples
    &&& new.patterns@ == if 0 <= q < old.patterns.len() { old.patterns@.update(q, p) } else { old.patterns@ }
}

impl Song {
    /// The start of the song: before its first position.
    pub fn new() -> (res: Self)
        ensures
            res.position == 0,
            !res.entered,
    {
        Song { position: 0, entered: false }
    }

    /// Whether `step` can be called now.
    pub fn can_step(&self, module: &Module) -> (res: bool)
        ensures
            res == step_ok(*self, *module),
    {
        if self.entered && self.position < module.pattern_table.len() {
            let q = module.pattern_table[self.position] as usize;
            q < module.patterns.len() && module.patterns[q].can_advance()
        } else {
            true
        }
    }

    /// The next step of the song.  A position not yet entered is entered and
    /// announced.  In an entered position the next row of its pattern is
    /// decoded; when the pattern is over (and rewound), the song moves to
    /// the next position and announces it, or ends after the last.
    pub fn step(&mut self, module: &mut Module) -> (res: SongStep)
        requires
            step_ok(*old(self), *old(module)),
        ensures
            old(self).position >= old(module).pattern_table.len() ==> (res is End && *final(self) == *old(self)
                && *final(module) == *old(module)),
            old(self).position < old(module).pattern_table.len() && !old(self).entered ==> ({
                &&& res matches SongStep::Position { index, pattern } && index == old(self).position
                    && pattern == old(module).pattern_table@[index as int]
                &&& final(self).position == old(self).position && final(self).entered
                &&& *final(module) == *old(module)
            }),
            old(self).position < old(module).pattern_table.len() && old(self).entered ==> ({
                let q = old(module).pattern_table@[old(self).position as int] as int;
                let pat = old(module).patterns@[q];
                &&& pat.ptr < 1024 ==> {
                    &&& res matches SongStep::Row { row, channels, unknown_commands } && row == pat.ptr / 16
                        && unknown_commands@ == unknown_in_row(pat.data@, pat.ptr as int, 4) && channels.len() == 4
                        && forall|k: int| 0 <= k < 4 ==> decodes(#[trigger] channels@[k], pat.data@, pat.ptr as int, k)
                    &&& *final(self) == *old(self)
                    &&& same_but_pattern(*old(module), *final(module), q, Pattern { data: pat.data, ptr: (pat.ptr + 16) as usize })
                }
                &&& pat.ptr >= 1024 ==> {
                    &&& same_but_pattern(*old(module), *final(module), q, Pattern { data: pat.data, ptr: 0 })
                    &&& final(self).position == old(self).position + 1
                    &&& final(self).position < old(module).pattern_table.len() ==> (res matches SongStep::Position { index, pattern }
                        && index == final(self).position && pattern == old(module).pattern_table@[index as int]
                        && final(self).entered)
                    &&& final(self).position >= old(module).pattern_table.len() ==> !final(self).entered && res is End
                }
            }),
    {
        if self.position >= module.pattern_table.len() {
            return SongStep::End;
        }
        if !self.entered {
            self.entered = true;
            return SongStep::Position { index: self.position, pattern: module.pattern_table[self.position] };
        }
        let q = module.pattern_table[self.position] as usize;
        let mut pat = Pattern::new([0u8; 1024]);
        module.patterns.set_and_swap(q, &mut pat);
        let unknown_commands = pat.unknown_commands();
        let r = pat.next();
        let ghost new_pat = pat;
        module.patterns.set(q, pat);
        assert(module.patterns@ =~= old(module).patterns@.update(q as int, new_pat));
        match r {
            Some((row, channels)) => SongStep::Row { row, channels, unknown_commands },
            None => {
                self.position = self.position + 1;
                if self.position < module.pattern_table.len() {
                    SongStep::Position { index: self.position, pattern: module.pattern_table[self.position] }
                } else {
                    self.entered = false;
                    SongStep::End
                }
            },
        }
    }
}

/// A channel that takes a new source, and the sample number it now plays.
pub struct Latch {
    pub channel: usize,
    pub source: Source,
    pub source_id: usize,
}

/// The sample index a cell names: its sample number less one, or 0 when the
/// cell names no sample (number 0, "keep playing").
pub open spec fn sample_index(ch: Channel) -> int {
    if ch.sample == 0 { 0 } else { ch.sample - 1 }
}

/// The sample whose data a cell plays: the one it names, or, when it names
/// none, the one its channel plays.
pub open spec fn data_index(ch: Channel, current: usize) -> int {
    if ch.sample == 0 { current as int } else { ch.sample - 1 }
}

/// Whether channel `k` takes a new source in a row: it has a note (a period)
/// and it is one of the channels to play.
pub open spec fn latches(channels: Seq<Channel>, enabled: Seq<usize>, k: int) -> bool {
    channels[k].period != 0 && enabled.contains(k as usize)
}

/// The channels among the first `n` that take a new source, in order.
pub open spec fn latched(channels: Seq<Channel>, enabled: Seq<usize>, n: int) -> Seq<usize>
    decreases n,
{
    if n <= 0 {
        Seq::empty()
    } else if latches(channels, enabled, n - 1) {
        latched(channels, enabled, n - 1).push((n - 1) as usize)
    } else {
        latched(channels, enabled, n - 1)
    }
}

/// Whether the row can be planned: for every channel with a note, the
/// sample it plays (and the one whose name it carries) exists.
pub open spec fn row_ok(samples: Seq<Sample>, channels: Seq<Channel>, source_ids: Seq<usize>) -> bool {
    &&& samples.len() >= 1
    &&& channels.len() <= source_ids.len()
    &&& forall|k: int| 0 <= k < channels.len() && (#[trigger] channels[k]).period != 0 ==> {
        &&& sample_index(channels[k]) < samples.len()
        &&& data_index(channels[k], source_ids[k]) < samples.len()
    }
}

/// Whether `plan_row` can be called on this row.
pub fn can_plan_row(samples: &Vec<Sample>, channels: &Vec<Channel>, source_ids: &Vec<usize>) -> (res: bool)
    ensures
        res == row_ok(samples@, channels@, source_ids@),
{
    if samples.len() < 1 || channels.len() > source_ids.len() {
        return false;
    }
    let mut k: usize = 0;
    while k < channels.len()
        invariant
            k <= channels@.len(),
            samples@.len() >= 1,
            channels@.len() <= source_ids@.len(),
            forall|j: int| 0 <= j < k && (#[trigger] channels@[j]).period != 0 ==> {
                &&& sample_index(channels@[j]) < samples@.len()
                &&& data_index(channels@[j], source_ids@[j]) < samples@.len()
            },
        decreases channels@.len() - k,
    {
        let ch = &channels[k];
        if ch.period != 0 {
            let named: usize = if ch.sample == 0 { 0 } else { (ch.sample - 1) as usize };
            let data: usize = if ch.sample == 0 { source_ids[k] } else { named };
            if named >= samples.len() || data >= samples.len() {
                return false;
            }
        }
        k = k + 1;
    }
    true
}

/// Whether `l` is the latch of channel `k` of the row: a source named after
/// the sample the cell names, playing the data and loop of the sample it
/// plays, at the cell's period and with the cell's effect, from the start.
pub open spec fn latch_of(l: Latch, samples: Seq<Sample>, channels: Seq<Channel>, source_ids: Seq<usize>, k: int) -> bool {
    let ch = channels[k];
    let s = samples[data_index(ch, source_ids[k])];
    &&& l.channel == k
    &&& l.source_id == sample_index(ch)
    &&& l.source.name@ == samples[sample_index(ch)].name@
    &&& l.source.samples@ == s.data@
    &&& l.source.period == ch.period
    &&& l.source.loop_it == (s.loop_length > 1)
    &&& l.source.loop_offset == s.loop_offset
    &&& l.source.loop_length == s.loop_length
    &&& l.source.effect == ch.effect
    &&& l.source.ptr == 0
    &&& l.source.sample_end == s.data@.len()
}

/// Whether `v` holds `x`.
pub fn contains(v: &Vec<usize>, x: usize) -> (res: bool)
    ensures
        res == v@.contains(x),
{
    let mut i: usize = 0;
    while i < v.len()
        invariant
            i <= v@.len(),
            forall|j: int| 0 <= j < i ==> v@[j] != x,
        decreases v@.len() - i,
    {
        if v[i] == x {
            assert(v@[i as int] == x);
            return true;
        }
        i = i + 1;
    }
    false
}

/// Plans a row: for each channel with a note that is to be played, the
/// source it takes (the channels without a note keep playing).  Each latch
/// records, as the channel's sample, the sample the cell names (sample 0
/// when it names none), and `source_ids` is updated to match.
pub fn plan_row(samples: &Vec<Sample>, channels: &Vec<Channel>, source_ids: &mut Vec<usize>, enabled: &Vec<usize>) -> (res: Vec<Latch>)
    requires
        row_ok(samples@, channels@, old(source_ids)@),
    ensures
        final(source_ids).len() == old(source_ids).len(),
        res.len() == latched(channels@, enabled@, channels.len() as int).len(),
        forall|j: int| 0 <= j < res.len() ==> {
            let k = latched(channels@, enabled@, channels.len() as int)[j] as int;
            latch_of(#[trigger] res@[j], samples@, channels@, old(source_ids)@, k)
        },
        forall|k: int| 0 <= k < old(source_ids).len() ==> #[trigger] final(source_ids)@[k] == if k < channels.len()
            && latches(channels@, enabled@, k) { sample_index(channels@[k]) } else { old(source_ids)@[k] as int },
{
    let ghost ids0 = source_ids@;
    let mut out: Vec<Latch> = Vec::new();
    let mut k: usize = 0;
    while k < channels.len()
        invariant
            k <= channels.len(),
            row_ok(samples@, channels@, ids0),
            source_ids.len() == ids0.len(),
            out.len() == latched(channels@, enabled@, k as int).len(),
            forall|j: int| 0 <= j < out.len() ==> {
                let c = latched(channels@, enabled@, k as int)[j] as int;
                latch_of(#[trigger] out@[j], samples@, channels@, ids0, c)
            },
            forall|c: int| 0 <= c < ids0.len() ==> #[trigger] source_ids@[c] == if c < k && latches(channels@, enabled@, c) {
                sample_index(channels@[c])
            } else {
                ids0[c] as int
            },
        decreases channels.len() - k,
    {
        let ch = &channels[k];
        let sample_idx: usize = if ch.sample == 0 { 0 } else { (ch.sample - 1) as usize };
        if ch.period != 0 {
            assert(channels@[k as int].period != 0);
            let data_idx: usize = if ch.sample == 0 { source_ids[k] } else { sample_idx };
            let s = &samples[data_idx];
            let name = samples[sample_idx].name.clone();
            let source = match Source::new(name, s.data.as_slice(), ch.period, s.is_looped(), s.loop_offset as usize, s.loop_length as usize, ch.effect) {
                Ok(src) => src,
                Err(_) => {
                    return out;
                },
            };
            if contains(enabled, k) {
                out.push(Latch { channel: k, source, source_id: sample_idx });
                source_ids.set(k, sample_idx);
            }
        }
        k = k + 1;
    }
    out
}

} // verus!
