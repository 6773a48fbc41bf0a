//! A second reader of MOD files: the whole file, with the pattern table
//! kept in full and the sample data made unsigned (without volume scaling).

use vstd::prelude::*;
use vstd::utf8::{decode_utf8, valid_utf8};
use crate::module::{
    check_magic_four, data_at, data_size, lemma_data_size_mono, lengths_fit, magic_ok, module_end,
    pattern_at, patterns_used, read_pattern_table, sample_size, unsigned_pcm, ReadError,
};
use crate::sample::be16;
use crate::text::{sample_line, lemma_name_lines_hold_each, lossy_string, name_lines, push_name_line, push_str, utf8_lossy};

verus! {

/// The number of samples of a module.
pub const NUM_SAMPLES: usize = 31;

/// A module: title, pattern table (all 128 entries), patterns and samples.
pub struct Module {
    pub title: String,
    pub pattern_table: Vec<u8>,
    pub patterns: Vec<Pattern>,
    pub samples: Vec<Sample>,
    pub pattern_ptr: usize,
}

/// The bytes of a pattern and a position in them.
pub struct Pattern {
    pub data: [u8; 1024],
    pub ptr: usize,
}

/// A sample header: the name field, the length in bytes, finetune, volume,
/// loop start and loop length.
pub struct SampleHeader {
    pub name: [u8; 22],
    pub length: u16,
    pub finetune: u8,
    pub volume: u8,
    pub loop_offset: u16,
    pub loop_length: u16,
}

/// A sample: header and unsigned 8-bit data.
pub struct Sample {
    pub header: SampleHeader,
    pub data: Vec<u8>,
}

/// Whether `s` is what `SampleHeader::from_bytes` makes of the header `h`.
pub open spec fn header_of(s: SampleHeader, h: Seq<u8>) -> bool {
    &&& s.name@ == h.subrange(0, 22)
    &&& s.length == 2 * be16(h[22], h[23])
    &&& s.finetune == h[24]
    &&& s.volume == h[25]
    &&& s.loop_offset == be16(h[26], h[27])
    &&& s.loop_length == be16(h[28], h[29])
}

/// The unsigned data of sample `i` of the file.
pub open spec fn track_data(bytes: Seq<u8>, i: int) -> Seq<u8> {
    let at = data_at(bytes) + data_size(bytes, i);
    Seq::new(sample_size(bytes, i), |j: int| unsigned_pcm(bytes[at + j]))
}

/// Whether the file ends before the module does.
pub open spec fn track_truncated(bytes: Seq<u8>) -> bool {
    bytes.len() < 1084 || (magic_ok(bytes) && bytes.len() < module_end(bytes))
}

/// Whether `m` is the module that `bytes` hold.
pub open spec fn track_module_of(m: Module, bytes: Seq<u8>) -> bool {
    &&& m.title@ == utf8_lossy(bytes.subrange(0, 20))
    &&& valid_utf8(bytes.subrange(0, 20)) ==> m.title@ == decode_utf8(bytes.subrange(0, 20))
    &&& m.samples.len() == 31
    &&& forall|i: int| 0 <= i < 31 ==> {
        &&& header_of((#[trigger] m.samples@[i]).header, bytes.subrange(20 + 30 * i, 50 + 30 * i))
        &&& m.samples@[i].data@ == track_data(bytes, i)
    }
    &&& m.pattern_table@ == bytes.subrange(952, 1080)
    &&& m.patterns.len() == patterns_used(bytes)
    &&& forall|p: int| 0 <= p < m.patterns.len() ==> {
        &&& (#[trigger] m.patterns@[p]).data@ == bytes.subrange(1084 + 1024 * p, 1084 + 1024 * (p + 1))
        &&& m.patterns@[p].ptr == 0
    }
    &&& m.pattern_ptr == 0
}

/// A module as the first line of the player shows it: the title in brackets,
/// then a line per sample with the text of its name field.
pub open spec fn track_module_text(m: Module) -> Seq<char> {
    "title: ["@ + m.title@ + seq![']'] + name_lines(
        m.samples@.map_values(|s: Sample| utf8_lossy(s.header.name@)),
        m.samples.len() as int,
    )
}

impl Module {
    /// The module as the player shows it.
    pub fn to_string(&self) -> (res: String)
        ensures
            res@ == track_module_text(*self),
    {
        let ghost names = self.samples@.map_values(|s: Sample| utf8_lossy(s.header.name@));
        let mut out = String::new();
        push_str(&mut out, "title: [");
        push_str(&mut out, self.title.as_str());
        crate::text::push_char(&mut out, ']');
        let ghost head = out@;
        assert(head =~= "title: ["@ + self.title@ + seq![']']);
        let mut i: usize = 0;
        while i < self.samples.len()
            invariant
                i <= self.samples.len(),
                names == self.samples@.map_values(|s: Sample| utf8_lossy(s.header.name@)),
                out@ == head + name_lines(names, i as int),
            decreases self.samples.len() - i,
        {
            let name = lossy_string(self.samples[i].header.name.as_slice());
            push_name_line(&mut out, i, name.as_str());
            assert(out@ =~= head + name_lines(names, i + 1));
            i = i + 1;
        }
        out
    }
}

impl SampleHeader {
    /// Decodes a header of 30 bytes (or more); the length word counts words.
    pub fn from_bytes(bytes: &[u8]) -> (res: Self)
        requires
            bytes@.len() >= 30,
            bytes@[22] < 128,
        ensures
            header_of(res, bytes@),
    {
        let mut name = [0u8; 22];
        let mut i: usize = 0;
        while i < 22
            invariant
                i <= 22,
                bytes@.len() >= 30,
                name@.len() == 22,
                forall|k: int| 0 <= k < i ==> name@[k] == bytes@[k],
            decreases 22 - i,
        {
            name[i] = bytes[i];
            i = i + 1;
        }
        assert(name@ =~= bytes@.subrange(0, 22));
        let words = (bytes[22] as u16) * 256 + bytes[23] as u16;
        Self {
            name,
            length: 2 * words,
            finetune: bytes[24],
            volume: bytes[25],
            loop_offset: (bytes[26] as u16) * 256 + bytes[27] as u16,
            loop_length: (bytes[28] as u16) * 256 + bytes[29] as u16,
        }
    }
}

/// Reads the title: the text of all 20 bytes.
fn read_title(bytes: &[u8]) -> (res: Result<String, ReadError>)
    ensures
        bytes@.len() < 20 ==> res matches Err(ReadError::UnexpectedEof),
        bytes@.len() >= 20 ==> (res matches Ok(t) && t@ == utf8_lossy(bytes@.subrange(0, 20)) && (valid_utf8(
            bytes@.subrange(0, 20),
        ) ==> t@ == decode_utf8(bytes@.subrange(0, 20)))),
{
    if bytes.len() < 20 {
        return Err(ReadError::UnexpectedEof);
    }
    Ok(lossy_string(&bytes[0..20]))
}

/// Reads the sample headers, the pattern table, the marker, the patterns
/// and the sample data.
fn read_samples(bytes: &[u8]) -> (res: Result<(Vec<u8>, Vec<Pattern>, Vec<Sample>), ReadError>)
    requires
        lengths_fit(bytes@),
        bytes@.len() >= 20,
        !(bytes@.len() >= 1084 && magic_ok(bytes@) && bytes@.len() > module_end(bytes@)),
    ensures
        track_truncated(bytes@) <==> res matches Err(ReadError::UnexpectedEof),
        (bytes@.len() >= 1084 && !magic_ok(bytes@)) <==> res is Err && res->Err_0 is MissingMagic,
        res is Err ==> res->Err_0 is UnexpectedEof || res->Err_0 is MissingMagic,
        res matches Ok((table, patterns, samples)) ==> ({
            &&& samples.len() == 31
            &&& forall|i: int| 0 <= i < 31 ==> {
                &&& header_of((#[trigger] samples@[i]).header, bytes@.subrange(20 + 30 * i, 50 + 30 * i))
                &&& samples@[i].data@ == track_data(bytes@, i)
            }
            &&& table@ == bytes@.subrange(952, 1080)
            &&& patterns.len() == patterns_used(bytes@)
            &&& forall|p: int| 0 <= p < patterns.len() ==> {
                &&& (#[trigger] patterns@[p]).data@ == bytes@.subrange(1084 + 1024 * p, 1084 + 1024 * (p + 1))
                &&& patterns@[p].ptr == 0
            }
        }),
{
    let mut headers: Vec<SampleHeader> = Vec::new();
    let mut i: usize = 0;
    while i < NUM_SAMPLES
        invariant
            i <= 31,
            headers.len() == i,
            lengths_fit(bytes@),
            i > 0 ==> 20 + 30 * i <= bytes@.len(),
            forall|k: int| 0 <= k < i ==> header_of(#[trigger] headers@[k], bytes@.subrange(20 + 30 * k, 50 + 30 * k)),
        decreases 31 - i,
    {
        let at = 20 + 30 * i;
        if at > bytes.len() || bytes.len() - at < 30 {
            return Err(ReadError::UnexpectedEof);
        }
        assert(bytes@[20 + 30 * i + 22] < 128);
        headers.push(SampleHeader::from_bytes(&bytes[at..at + 30]));
        i = i + 1;
    }
    if bytes.len() < 952 {
        return Err(ReadError::UnexpectedEof);
    }
    let (pattern_table, num_patterns) = match read_pattern_table(bytes, 128) {
        Ok(r) => r,
        Err(e) => return Err(e),
    };
    match check_magic_four(bytes) {
        Ok(()) => {},
        Err(e) => return Err(e),
    }
    let mut patterns: Vec<Pattern> = Vec::new();
    let mut p: usize = 0;
    while p < num_patterns
        invariant
            p <= num_patterns,
            num_patterns == patterns_used(bytes@),
            num_patterns <= 256,
            patterns.len() == p,
            bytes@.len() >= 1084 + 1024 * p,
            magic_ok(bytes@),
            forall|q: int| 0 <= q < p ==> {
                &&& (#[trigger] patterns@[q]).data@ == bytes@.subrange(1084 + 1024 * q, 1084 + 1024 * (q + 1))
                &&& patterns@[q].ptr == 0
            },
        decreases num_patterns - p,
    {
        let at = 1084 + 1024 * p;
        if bytes.len() - at < 1024 {
            proof {
                lemma_data_size_mono(bytes@, 0, 31);
            }
            return Err(ReadError::UnexpectedEof);
        }
        let pat = pattern_at(bytes, at);
        patterns.push(Pattern { data: pat.data, ptr: 0 });
        p = p + 1;
    }
    let mut samples: Vec<Sample> = Vec::new();
    let mut pos: usize = 1084 + 1024 * num_patterns;
    let mut i: usize = 0;
    while i < NUM_SAMPLES
        invariant
            i <= 31,
            headers.len() == 31,
            samples.len() == i,
            bytes@.len() >= 1084,
            magic_ok(bytes@),
            pos == data_at(bytes@) + data_size(bytes@, i as int),
            pos <= bytes@.len(),
            forall|k: int| 0 <= k < 31 ==> header_of(#[trigger] headers@[k], bytes@.subrange(20 + 30 * k, 50 + 30 * k)),
            forall|k: int| 0 <= k < i ==> {
                &&& header_of((#[trigger] samples@[k]).header, bytes@.subrange(20 + 30 * k, 50 + 30 * k))
                &&& samples@[k].data@ == track_data(bytes@, k)
            },
        decreases 31 - i,
    {
        let h = &headers[i];
        let len = h.length as usize;
        assert(len == sample_size(bytes@, i as int));
        if bytes.len() - pos < len {
            proof {
                lemma_data_size_mono(bytes@, i + 1, 31);
            }
            return Err(ReadError::UnexpectedEof);
        }
        let mut data: Vec<u8> = Vec::new();
        let mut j: usize = 0;
        while j < len
            invariant
                j <= len,
                pos + len <= bytes.len(),
                data.len() == j,
                forall|k: int| 0 <= k < j ==> data@[k] == unsigned_pcm(#[trigger] bytes@[pos + k]),
            decreases len - j,
        {
            let b = bytes[pos + j];
            assert((((b as u16 + 128) as u16) & 255u16) as u8 == ((b as int + 128) % 256) as u8) by (bit_vector);
            data.push(((b as u16 + 128) & 255) as u8);
            j = j + 1;
        }
        assert(data@ =~= track_data(bytes@, i as int));
        let header = SampleHeader {
            name: h.name,
            length: h.length,
            finetune: h.finetune,
            volume: h.volume,
            loop_offset: h.loop_offset,
            loop_length: h.loop_length,
        };
        samples.push(Sample { header, data });
        pos = pos + len;
        i = i + 1;
    }
    Ok((pattern_table, patterns, samples))
}

/// Reads a module from the bytes of a MOD file; the file must not go on
/// after the sample data.
pub fn read_module(bytes: &[u8]) -> (res: Result<Module, ReadError>)
    requires
        lengths_fit(bytes@),
        !(bytes@.len() >= 1084 && magic_ok(bytes@) && bytes@.len() > module_end(bytes@)),
    ensures
        track_truncated(bytes@) <==> res matches Err(ReadError::UnexpectedEof),
        (bytes@.len() >= 1084 && !magic_ok(bytes@)) <==> res is Err && res->Err_0 is MissingMagic,
        res is Ok <==> !track_truncated(bytes@) && !(bytes@.len() >= 1084 && !magic_ok(bytes@)),
        res matches Ok(m) ==> track_module_of(m, bytes@),
{
    let title = match read_title(bytes) {
        Ok(t) => t,
        Err(e) => return Err(e),
    };
    let (pattern_table, patterns, samples) = match read_samples(bytes) {
        Ok(r) => r,
        Err(e) => return Err(e),
    };
    Ok(Module { title, samples, pattern_table, patterns, pattern_ptr: 0 })
}

/// The listing has one line per sample of the module, in order: for every
/// sample `i`, the line `sample` `i` (two digits) with the text of its name field stands
/// in the text right after the title part and the lines of the samples
/// before it.
pub proof fn lemma_track_module_text_lists_every_sample(m: Module, i: int)
    requires
        0 <= i < m.samples.len(),
    ensures
        ({
            let head = "title: ["@ + m.title@ + seq![']'];
            let names = m.samples@.map_values(|s: Sample| utf8_lossy(s.header.name@));
            let p: int = head.len() + name_lines(names, i).len() as int;
            let line = sample_line(i as nat, utf8_lossy(m.samples@[i].header.name@));
            &&& p + line.len() <= track_module_text(m).len()
            &&& track_module_text(m).subrange(p, p + line.len() as int) == line
        }),
{
    let head = "title: ["@ + m.title@ + seq![']'];
    let names = m.samples@.map_values(|s: Sample| utf8_lossy(s.header.name@));
    let n = m.samples.len() as int;
    lemma_name_lines_hold_each(names, n, i);
    let all = name_lines(names, n);
    let p: int = head.len() + name_lines(names, i).len() as int;
    let line = sample_line(i as nat, utf8_lossy(m.samples@[i].header.name@));
    assert(names[i] == utf8_lossy(m.samples@[i].header.name@));
    assert(track_module_text(m) =~= head + all);
    assert(track_module_text(m).subrange(p, p + line.len() as int) =~= all.subrange(
        name_lines(names, i).len() as int,
        name_lines(names, i + 1).len() as int,
    ));
}

} // verus!
