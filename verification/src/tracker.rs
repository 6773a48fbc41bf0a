//! A first reader of MOD headers: the title and sixteen sample headers,
//! with little-endian words.

use vstd::prelude::*;
use vstd::utf8::{decode_utf8, valid_utf8};
use crate::module::ReadError;
use crate::text::{sample_line, lemma_name_lines_hold_each, lossy_string, name_lines, push_name_line, push_str, utf8_lossy};

verus! {

/// The number of sample headers this reader takes.
pub const NUM_SAMPLES: usize = 16;

/// A sample header: name field, length, finetune, volume, loop start and
/// loop length.
pub struct Sample {
    pub name: [u8; 22],
    pub length: u16,
    pub finetune: u8,
    pub volume: u8,
    pub loop_offset: u16,
    pub loop_length: u16,
}

/// A title and the sample headers.
pub struct Module {
    pub title: String,
    pub samples: Vec<Sample>,
}

/// A little-endian 16-bit word.
pub open spec fn le16(lo: u8, hi: u8) -> nat {
    hi as nat * 256 + lo as nat
}

/// Whether `s` is what `from_bytes` makes of the header `h`.
pub open spec fn sample_of(s: Sample, h: Seq<u8>) -> bool {
    &&& s.name@ == h.subrange(0, 22)
    &&& s.length == le16(h[22], h[23])
    &&& s.finetune == h[24]
    &&& s.volume == h[25]
    &&& s.loop_offset == le16(h[26], h[27])
    &&& s.loop_length == le16(h[28], h[29])
}

/// Whether `m` is the module that `bytes` hold.
pub open spec fn module_of(m: Module, bytes: Seq<u8>) -> bool {
    &&& m.title@ == utf8_lossy(bytes.subrange(0, 20))
    &&& valid_utf8(bytes.subrange(0, 20)) ==> m.title@ == decode_utf8(bytes.subrange(0, 20))
    &&& m.samples.len() == 16
    &&& forall|i: int| 0 <= i < 16 ==> sample_of(#[trigger] m.samples@[i], bytes.subrange(20 + 30 * i, 50 + 30 * i))
}

/// A module as the player shows it: the title in brackets, then a line per
/// sample with the text of its name field.
pub open spec fn tracker_module_text(m: Module) -> Seq<char> {
    "title: ["@ + m.title@ + seq![']'] + name_lines(
        m.samples@.map_values(|s: Sample| utf8_lossy(s.name@)),
        m.samples.len() as int,
    )
}

impl Module {
    /// The module as the player shows it.
    pub fn to_string(&self) -> (res: String)
        ensures
            res@ == tracker_module_text(*self),
    {
        let ghost names = self.samples@.map_values(|s: Sample| utf8_lossy(s.name@));
        let mut out = String::new();
        push_str(&mut out, "title: [");
        push_str(&mut out, self.title.as_str());
        crate::text::push_char(&mut out, ']');
        let ghost head = out@;
        assert(head =~= "title: ["@ + self.title@ + seq![']']);
        let mut i: usize = 0;
        while i < self.samples.len()
            invariant
                i <= self.samples.len(),
                names == self.samples@.map_values(|s: Sample| utf8_lossy(s.name@)),
                out@ == head + name_lines(names, i as int),
            decreases self.samples.len() - i,
        {
            let name = lossy_string(self.samples[i].name.as_slice());
            push_name_line(&mut out, i, name.as_str());
            assert(out@ =~= head + name_lines(names, i + 1));
            i = i + 1;
        }
        out
    }
}

impl Sample {
    /// Decodes a header of 30 bytes (or more).
    pub fn from_bytes(bytes: &[u8]) -> (res: Self)
        requires
            bytes@.len() >= 30,
        ensures
            sample_of(res, bytes@),
    {
        let mut name = [0u8; 22];
        let mut i: usize = 0;
        while i < 22
            invariant
                i <= 22,
                bytes@.len() >= 30,
                name@.len() == 22,
                forall|k: int| 0 <= k < i ==> name@[k] == bytes@[k],
            decreases 22 - i,
        {
            name[i] = bytes[i];
            i = i + 1;
        }
        assert(name@ =~= bytes@.subrange(0, 22));
        Self {
            name,
            length: (bytes[23] as u16) * 256 + bytes[22] as u16,
            finetune: bytes[24],
            volume: bytes[25],
            loop_offset: (bytes[27] as u16) * 256 + bytes[26] as u16,
            loop_length: (bytes[29] as u16) * 256 + bytes[28] as u16,
        }
    }
}

/// Reads the title: the text of all 20 bytes.
fn read_title(bytes: &[u8]) -> (res: Result<String, ReadError>)
    ensures
        bytes@.len() < 20 ==> res matches Err(ReadError::UnexpectedEof),
        bytes@.len() >= 20 ==> (res matches Ok(t) && t@ == utf8_lossy(bytes@.subrange(0, 20)) && (valid_utf8(
            bytes@.subrange(0, 20),
        ) ==> t@ == decode_utf8(bytes@.subrange(0, 20)))),
{
    if bytes.len() < 20 {
        return Err(ReadError::UnexpectedEof);
    }
    Ok(lossy_string(&bytes[0..20]))
}

/// Reads the sixteen sample headers after the title.
fn read_samples(bytes: &[u8]) -> (res: Result<Vec<Sample>, ReadError>)
    ensures
        bytes@.len() < 500 ==> res matches Err(ReadError::UnexpectedEof),
        bytes@.len() >= 500 ==> (res matches Ok(v) && v.len() == 16 && forall|i: int|
            0 <= i < 16 ==> sample_of(#[trigger] v@[i], bytes@.subrange(20 + 30 * i, 50 + 30 * i))),
{
    let mut samples: Vec<Sample> = Vec::new();
    let mut i: usize = 0;
    while i < NUM_SAMPLES
        invariant
            i <= 16,
            samples.len() == i,
            i > 0 ==> 20 + 30 * i <= bytes@.len(),
            forall|k: int| 0 <= k < i ==> sample_of(#[trigger] samples@[k], bytes@.subrange(20 + 30 * k, 50 + 30 * k)),
        decreases 16 - i,
    {
        let at = 20 + 30 * i;
        if at > bytes.len() || bytes.len() - at < 30 {
            return Err(ReadError::UnexpectedEof);
        }
        samples.push(Sample::from_bytes(&bytes[at..at + 30]));
        i = i + 1;
    }
    Ok(samples)
}

/// Reads the title and the sixteen sample headers from the start of a file.
pub fn read_module(bytes: &[u8]) -> (res: Result<Module, ReadError>)
    ensures
        bytes@.len() < 500 <==> res is Err,
        res is Err ==> res matches Err(ReadError::UnexpectedEof),
        res matches Ok(m) ==> module_of(m, bytes@),
{
    let title = match read_title(bytes) {
        Ok(t) => t,
        Err(e) => return Err(e),
    };
    let samples = match read_samples(bytes) {
        Ok(s) => s,
        Err(e) => return Err(e),
    };
    Ok(Module { title, samples })
}

/// The listing has one line per sample of the module, in order: for every
/// sample `i`, the line `sample` `i` (two digits) with the text of its name field stands
/// in the text right after the title part and the lines of the samples
/// before it.
pub proof fn lemma_tracker_module_text_lists_every_sample(m: Module, i: int)
    requires
        0 <= i < m.samples.len(),
    ensures
        ({
            let head = "title: ["@ + m.title@ + seq![']'];
            let names = m.samples@.map_values(|s: Sample| utf8_lossy(s.name@));
            let p: int = head.len() + name_lines(names, i).len() as int;
            let line = sample_line(i as nat, utf8_lossy(m.samples@[i].name@));
            &&& p + line.len() <= tracker_module_text(m).len()
            &&& tracker_module_text(m).subrange(p, p + line.len() as int) == line
        }),
{
    let head = "title: ["@ + m.title@ + seq![']'];
    let names = m.samples@.map_values(|s: Sample| utf8_lossy(s.name@));
    let n = m.samples.len() as int;
    lemma_name_lines_hold_each(names, n, i);
    let all = name_lines(names, n);
    let p: int = head.len() + name_lines(names, i).len() as int;
    let line = sample_line(i as nat, utf8_lossy(m.samples@[i].name@));
    assert(names[i] == utf8_lossy(m.samples@[i].name@));
    assert(tracker_module_text(m) =~= head + all);
    assert(tracker_module_text(m).subrange(p, p + line.len() as int) =~= all.subrange(
        name_lines(names, i).len() as int,
        name_lines(names, i + 1).len() as int,
    ));
}

} // verus!
