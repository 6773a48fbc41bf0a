//! The MOD file layout and its reader.
//!
//! A file holds, in this order: the title (20 bytes), 31 sample headers of
//! 30 bytes, the number of song positions and a byte that is ignored, the
//! pattern table (128 bytes), the marker `M.K.`, the patterns (1024 bytes
//! each, as many as the highest number in the pattern table plus one) and
//! the sample data, one sample after the other.

use vstd::prelude::*;
use vstd::utf8::{decode_utf8, valid_utf8};
use crate::pattern::Pattern;
use crate::sample::{Sample, sample_from_header, text_end, text_len, be16, HEADER_SIZE};
use crate::text::{sample_line, lemma_name_lines_hold_each, lossy_string, name_lines, push_digits, push_name_line, push_str, utf8_lossy, decimal};
use vstd::utf8::encode_utf8;

verus! {

/// The size of the title field.
pub const TITLE_SIZE: usize = 20;
/// The number of samples of a module.
pub const NUM_SAMPLES: usize = 31;
/// Where the song length byte stands.
pub const POSITIONS_AT: usize = 950;
/// Where the pattern table starts.
pub const TABLE_AT: usize = 952;
/// The size of the pattern table.
pub const TABLE_SIZE: usize = 128;
/// Where the marker stands.
pub const MAGIC_AT: usize = 1080;
/// Where the patterns start.
pub const PATTERNS_AT: usize = 1084;

/// A module: its channels, title, song (the pattern numbers to play, in
/// order), patterns and samples.
pub struct Module {
    pub num_channels: usize,
    pub title: String,
    pub pattern_table: Vec<u8>,
    pub patterns: Vec<Pattern>,
    pub samples: Vec<Sample>,
}

/// Why a file could not be read.
#[derive(Debug)]
pub enum ReadError {
    /// The file ends before the part that its header announces.
    UnexpectedEof,
    /// The four bytes after the pattern table are not `M.K.`; they are given.
    MissingMagic(Vec<u8>),
    /// The file goes on after the sample data: `expected` is the file's
    /// length and `got` the position where the module ends.
    LengthMismatch { expected: usize, got: usize },
}

/// The bytes of sample header `i`.
pub open spec fn header(bytes: Seq<u8>, i: int) -> Seq<u8> {
    bytes.subrange(20 + 30 * i, 20 + 30 * i + 30)
}

/// The length in bytes that sample header `i` announces.
pub open spec fn sample_size(bytes: Seq<u8>, i: int) -> nat {
    2 * be16(bytes[20 + 30 * i + 22], bytes[20 + 30 * i + 23])
}

/// Whether every length word of the headers that the file holds in full
/// fits in 15 bits, so that the length in bytes fits in 16 bits.
pub open spec fn lengths_fit(bytes: Seq<u8>) -> bool {
    forall|i: int| 0 <= i < 31 && 20 + 30 * (i + 1) <= bytes.len() ==> #[trigger] bytes[20 + 30 * i + 22] < 128
}

/// The highest of the first `n` entries of `table`, or 0.
pub open spec fn max_entry(table: Seq<u8>, n: int) -> nat
    decreases n,
{
    if n <= 0 {
        0
    } else {
        let m = max_entry(table, n - 1);
        if table[n - 1] as nat > m { table[n - 1] as nat } else { m }
    }
}

/// The number of patterns the file holds: the highest number in the whole
/// pattern table, plus one.
pub open spec fn patterns_used(bytes: Seq<u8>) -> nat {
    max_entry(bytes.subrange(952, 1080), 128) + 1
}

/// The total length of the first `n` samples.
pub open spec fn data_size(bytes: Seq<u8>, n: int) -> nat
    decreases n,
{
    if n <= 0 { 0 } else { data_size(bytes, n - 1) + sample_size(bytes, n - 1) }
}

/// Where the sample data starts.
pub open spec fn data_at(bytes: Seq<u8>) -> nat {
    1084 + patterns_used(bytes) * 1024
}

/// Where the module ends: after the data of the last sample.
pub open spec fn module_end(bytes: Seq<u8>) -> nat {
    data_at(bytes) + data_size(bytes, 31)
}

/// Whether the four bytes after the pattern table read `M.K.`.
pub open spec fn magic_ok(bytes: Seq<u8>) -> bool {
    bytes[1080] == 0x4d && bytes[1081] == 0x2e && bytes[1082] == 0x4b && bytes[1083] == 0x2e
}

/// Whether the file ends before the module does.
pub open spec fn truncated(bytes: Seq<u8>) -> bool {
    bytes.len() < 1084 || (magic_ok(bytes) && bytes.len() < module_end(bytes))
}

/// Whether the marker is missing (from a file long enough to hold it).
pub open spec fn bad_magic(bytes: Seq<u8>) -> bool {
    bytes.len() >= 1084 && !magic_ok(bytes)
}

/// Whether the file is longer than the module, when its length is checked.
pub open spec fn too_long(bytes: Seq<u8>, check_length: bool) -> bool {
    !truncated(bytes) && !bad_magic(bytes) && check_length && bytes.len() != module_end(bytes)
}

/// The unsigned form of a signed 8-bit PCM value.
pub open spec fn unsigned_pcm(b: u8) -> u8 {
    ((b as int + 128) % 256) as u8
}

/// A PCM value scaled by a volume (64 is full volume), cut off at 255.
pub open spec fn scaled(u: u8, volume: u8) -> u8 {
    let v = u as int * volume as int / 64;
    if v > 255 { 255 } else { v as u8 }
}

/// The sample data that the file holds for sample `i`, as the reader makes it.
pub open spec fn sample_data(bytes: Seq<u8>, i: int) -> Seq<u8> {
    let at = data_at(bytes) + data_size(bytes, i);
    let volume = bytes[20 + 30 * i + 25];
    Seq::new(sample_size(bytes, i), |j: int| scaled(unsigned_pcm(bytes[at + j]), volume))
}

/// Whether `m` is the module that `bytes` hold.
pub open spec fn module_of(m: Module, bytes: Seq<u8>) -> bool {
    &&& bytes.len() >= module_end(bytes)
    &&& m.num_channels == 4
    &&& m.title@ == utf8_lossy(bytes.subrange(0, text_end(bytes.subrange(0, 20))))
    &&& valid_utf8(bytes.subrange(0, text_end(bytes.subrange(0, 20)))) ==> m.title@ == decode_utf8(
        bytes.subrange(0, text_end(bytes.subrange(0, 20))),
    )
    &&& m.samples.len() == 31
    &&& forall|i: int| 0 <= i < 31 ==> {
        &&& sample_from_header_but_data(#[trigger] m.samples@[i], header(bytes, i))
        &&& m.samples@[i].data@ == sample_data(bytes, i)
    }
    &&& m.pattern_table@ == bytes.subrange(952, 952 + if bytes[950] < 128 { bytes[950] as int } else { 128 })
    &&& m.patterns.len() == patterns_used(bytes)
    &&& forall|p: int| 0 <= p < m.patterns.len() ==> {
        &&& (#[trigger] m.patterns@[p]).data@ == bytes.subrange(1084 + 1024 * p, 1084 + 1024 * (p + 1))
        &&& m.patterns@[p].ptr == 0
    }
}

/// Whether `s` carries the header fields of `h` (whatever its data).
pub open spec fn sample_from_header_but_data(s: Sample, h: Seq<u8>) -> bool {
    &&& s.name@ == utf8_lossy(h.subrange(0, text_end(h)))
    &&& valid_utf8(h.subrange(0, text_end(h))) ==> s.name@ == decode_utf8(h.subrange(0, text_end(h)))
    &&& s.length == 2 * be16(h[22], h[23])
    &&& s.finetune == h[24]
    &&& s.volume == h[25]
    &&& s.loop_offset == be16(h[26], h[27])
    &&& s.loop_length == be16(h[28], h[29])
}

/// A module as the player shows it: the title in brackets with its length
/// in bytes, then a line per sample with its name.
pub open spec fn module_text(m: Module) -> Seq<char> {
    "title: ["@ + m.title@ + seq![']', ' ', '('] + decimal(encode_utf8(m.title@).len()) + seq![')'] + name_lines(
        m.samples@.map_values(|s: Sample| s.name@),
        m.samples.len() as int,
    )
}

impl Module {
    /// The module as the player shows it.
    pub fn to_string(&self) -> (res: String)
        ensures
            res@ == module_text(*self),
    {
        let ghost names = self.samples@.map_values(|s: Sample| s.name@);
        let mut out = String::new();
        push_str(&mut out, "title: [");
        let title = self.title.as_str();
        push_str(&mut out, title);
        push_str(&mut out, "] (");
        push_digits(&mut out, title.as_bytes().len() as u64, 10);
        crate::text::push_char(&mut out, ')');
        proof {
            reveal_strlit("] (");
        }
        let ghost head = out@;
        assert(head =~= "title: ["@ + self.title@ + seq![']', ' ', '('] + decimal(encode_utf8(self.title@).len()) + seq![')']);
        let mut i: usize = 0;
        while i < self.samples.len()
            invariant
                i <= self.samples.len(),
                names == self.samples@.map_values(|s: Sample| s.name@),
                out@ == head + name_lines(names, i as int),
            decreases self.samples.len() - i,
        {
            push_name_line(&mut out, i, self.samples[i].name.as_str());
            assert(names[i as int] == self.samples@[i as int].name@);
            assert(out@ =~= head + name_lines(names, i + 1));
            i = i + 1;
        }
        out
    }

    /// A four-channel module of the given parts.
    pub fn new(title: String, samples: Vec<Sample>, pattern_table: Vec<u8>, patterns: Vec<Pattern>) -> (res: Self)
        ensures
            res.num_channels == 4,
            res.title == title,
            res.samples == samples,
            res.pattern_table == pattern_table,
            res.patterns == patterns,
    {
        Module { num_channels: 4, title, samples, pattern_table, patterns }
    }
}

/// The highest of the first `n` entries is an entry and no entry is higher.
proof fn lemma_max_entry(table: Seq<u8>, n: int)
    requires
        0 <= n <= table.len(),
    ensures
        max_entry(table, n) <= 255,
        forall|j: int| 0 <= j < n ==> table[j] <= max_entry(table, n),
    decreases n,
{
    if n > 0 {
        lemma_max_entry(table, n - 1);
    }
}

/// The data of the first `n` samples is no longer than that of all of them.
pub(crate) proof fn lemma_data_size_mono(bytes: Seq<u8>, n: int, m: int)
    requires
        0 <= n <= m,
    ensures
        data_size(bytes, n) <= data_size(bytes, m),
    decreases m - n,
{
    if n < m {
        lemma_data_size_mono(bytes, n, m - 1);
    }
}

/// Every entry of the song of a module read from a file names one of its
/// patterns.
pub proof fn lemma_song_in_range(m: Module, bytes: Seq<u8>)
    requires
        module_of(m, bytes),
    ensures
        forall|i: int| 0 <= i < m.pattern_table.len() ==> (#[trigger] m.pattern_table@[i]) < m.patterns.len(),
{
    let table = bytes.subrange(952, 1080);
    lemma_max_entry(table, 128);
    assert forall|i: int| 0 <= i < m.pattern_table.len() implies (#[trigger] m.pattern_table@[i]) < m.patterns.len() by {
        assert(m.pattern_table@[i] == table[i]);
    }
}

/// Reads the title: the text of the first 20 bytes, up to the first zero.
fn read_title(bytes: &[u8]) -> (res: Result<String, ReadError>)
    ensures
        bytes@.len() < 20 ==> res matches Err(ReadError::UnexpectedEof),
        bytes@.len() >= 20 ==> (res matches Ok(t) && t@ == utf8_lossy(
            bytes@.subrange(0, text_end(bytes@.subrange(0, 20))),
        ) && (valid_utf8(bytes@.subrange(0, text_end(bytes@.subrange(0, 20)))) ==> t@ == decode_utf8(
            bytes@.subrange(0, text_end(bytes@.subrange(0, 20))),
        ))),
{
    if bytes.len() < TITLE_SIZE {
        return Err(ReadError::UnexpectedEof);
    }
    let field = &bytes[0..TITLE_SIZE];
    let end = text_len(field);
    let t = lossy_string(&field[0..end]);
    assert(field@.subrange(0, end as int) =~= bytes@.subrange(0, text_end(bytes@.subrange(0, 20))));
    Ok(t)
}

/// Reads the 31 sample headers.
fn read_sample_headers(bytes: &[u8]) -> (res: Result<Vec<Sample>, ReadError>)
    requires
        lengths_fit(bytes@),
    ensures
        bytes@.len() < 950 ==> res matches Err(ReadError::UnexpectedEof),
        bytes@.len() >= 950 ==> (res matches Ok(v) && v.len() == 31 && forall|i: int|
            0 <= i < 31 ==> sample_from_header(#[trigger] v@[i], header(bytes@, i))),
{
    let mut samples: Vec<Sample> = Vec::new();
    let mut i: usize = 0;
    while i < NUM_SAMPLES
        invariant
            i <= 31,
            samples.len() == i,
            lengths_fit(bytes@),
            i > 0 ==> 20 + 30 * i <= bytes@.len(),
            forall|k: int| 0 <= k < i ==> sample_from_header(#[trigger] samples@[k], header(bytes@, k)),
        decreases 31 - i,
    {
        let at = TITLE_SIZE + HEADER_SIZE * i;
        if at > bytes.len() || bytes.len() - at < HEADER_SIZE {
            return Err(ReadError::UnexpectedEof);
        }
        let h = &bytes[at..at + HEADER_SIZE];
        assert(h@ =~= header(bytes@, i as int));
        assert(bytes@[20 + 30 * i + 22] < 128);
        samples.push(Sample::from_bytes(h));
        i = i + 1;
    }
    Ok(samples)
}

/// Reads the pattern table, gives the song (its first `num_positions`
/// entries) and the number of patterns (the highest entry plus one).
pub(crate) fn read_pattern_table(bytes: &[u8], num_positions: usize) -> (res: Result<(Vec<u8>, usize), ReadError>)
    requires
        bytes@.len() >= 952,
    ensures
        bytes@.len() < 1080 ==> res matches Err(ReadError::UnexpectedEof),
        bytes@.len() >= 1080 ==> (res matches Ok((table, n)) && n == patterns_used(bytes@) && n <= 256
            && table@ == bytes@.subrange(952, 952 + if num_positions < 128 { num_positions as int } else { 128 })),
{
    if bytes.len() < TABLE_AT + TABLE_SIZE {
        return Err(ReadError::UnexpectedEof);
    }
    let ghost table = bytes@.subrange(952, 1080);
    let mut pattern_table: Vec<u8> = Vec::new();
    let mut used: usize = 0;
    let mut i: usize = 0;
    while i < TABLE_SIZE
        invariant
            i <= 128,
            bytes@.len() >= 1080,
            table == bytes@.subrange(952, 1080),
            used == max_entry(table, i as int),
            pattern_table@ == bytes@.subrange(952, 952 + i),
        decreases 128 - i,
    {
        let p = bytes[TABLE_AT + i];
        assert(table[i as int] == p);
        if p as usize > used {
            used = p as usize;
        }
        pattern_table.push(p);
        assert(pattern_table@ =~= bytes@.subrange(952, 952 + i + 1));
        i = i + 1;
    }
    proof {
        lemma_max_entry(table, 128);
    }
    used = used + 1;
    pattern_table.truncate(num_positions);
    assert(pattern_table@ =~= bytes@.subrange(952, 952 + if num_positions < 128 { num_positions as int } else { 128 }));
    Ok((pattern_table, used))
}

/// Checks the marker `M.K.` after the pattern table.
pub(crate) fn check_magic_four(bytes: &[u8]) -> (res: Result<(), ReadError>)
    requires
        bytes@.len() >= 1080,
    ensures
        bytes@.len() < 1084 ==> res matches Err(ReadError::UnexpectedEof),
        bytes@.len() >= 1084 && magic_ok(bytes@) ==> res is Ok,
        bytes@.len() >= 1084 && !magic_ok(bytes@) ==> (res matches Err(ReadError::MissingMagic(m))
            && m@ == bytes@.subrange(1080, 1084)),
{
    if bytes.len() < PATTERNS_AT {
        return Err(ReadError::UnexpectedEof);
    }
    if bytes[1080] == 0x4d && bytes[1081] == 0x2e && bytes[1082] == 0x4b && bytes[1083] == 0x2e {
        Ok(())
    } else {
        let mut m: Vec<u8> = Vec::new();
        m.push(bytes[1080]);
        m.push(bytes[1081]);
        m.push(bytes[1082]);
        m.push(bytes[1083]);
        assert(m@ =~= bytes@.subrange(1080, 1084));
        Err(ReadError::MissingMagic(m))
    }
}

/// Copies one pattern out of the file.
pub(crate) fn pattern_at(bytes: &[u8], at: usize) -> (res: Pattern)
    requires
        at + 1024 <= bytes@.len(),
    ensures
        res.data@ == bytes@.subrange(at as int, at + 1024),
        res.ptr == 0,
{
    let mut data = [0u8; 1024];
    let mut j: usize = 0;
    while j < 1024
        invariant
            j <= 1024,
            at + 1024 <= bytes.len(),
            data@.len() == 1024,
            forall|k: int| 0 <= k < j ==> data@[k] == bytes@[at + k],
        decreases 1024 - j,
    {
        data[j] = bytes[at + j];
        j = j + 1;
    }
    assert(data@ =~= bytes@.subrange(at as int, at + 1024));
    Pattern::new(data)
}

/// Reads `num_patterns` patterns after the marker.
fn read_patterns(bytes: &[u8], num_patterns: usize) -> (res: Result<Vec<Pattern>, ReadError>)
    requires
        num_patterns <= 256,
        bytes@.len() >= 1084,
    ensures
        bytes@.len() < 1084 + 1024 * num_patterns ==> res matches Err(ReadError::UnexpectedEof),
        bytes@.len() >= 1084 + 1024 * num_patterns ==> (res matches Ok(v) && v.len() == num_patterns
            && forall|p: int| 0 <= p < num_patterns ==> {
                &&& (#[trigger] v@[p]).data@ == bytes@.subrange(1084 + 1024 * p, 1084 + 1024 * (p + 1))
                &&& v@[p].ptr == 0
            }),
{
    let mut patterns: Vec<Pattern> = Vec::new();
    let mut p: usize = 0;
    while p < num_patterns
        invariant
            p <= num_patterns <= 256,
            patterns.len() == p,
            bytes@.len() >= 1084 + 1024 * p,
            forall|q: int| 0 <= q < p ==> {
                &&& (#[trigger] patterns@[q]).data@ == bytes@.subrange(1084 + 1024 * q, 1084 + 1024 * (q + 1))
                &&& patterns@[q].ptr == 0
            },
        decreases num_patterns - p,
    {
        let at = PATTERNS_AT + 1024 * p;
        if bytes.len() - at < 1024 {
            return Err(ReadError::UnexpectedEof);
        }
        patterns.push(pattern_at(bytes, at));
        p = p + 1;
    }
    Ok(patterns)
}

/// The PCM value that the reader stores for the file byte `b` of a sample
/// at volume `volume`: the signed byte made unsigned, then scaled by the
/// volume over 64 and cut off at 255.  (In 32-bit floating point this
/// product is exact, so the integer formula gives the same value.)
pub fn pcm_byte(b: u8, volume: u8) -> (res: u8)
    ensures
        res == scaled(unsigned_pcm(b), volume),
{
    let u = ((b as u16 + 128) & 255) as u8;
    assert((((b as u16 + 128) as u16) & 255u16) as u8 == ((b as int + 128) % 256) as u8) by (bit_vector);
    assert(u as u32 * volume as u32 <= 65025) by (nonlinear_arith)
        requires
            u <= 255,
            volume <= 255,
    ;
    let v = (u as u32 * volume as u32) / 64;
    if v > 255 { 255 } else { v as u8 }
}

/// Whether the file holds the data of the first `n` samples in full.
pub open spec fn data_fits(bytes: Seq<u8>, n: int) -> bool {
    data_at(bytes) + data_size(bytes, n) <= bytes.len()
}

/// Whether `s` is sample `i` of the file with its data filled in.
pub open spec fn sample_filled(s: Sample, bytes: Seq<u8>, i: int) -> bool {
    &&& sample_from_header_but_data(s, header(bytes, i))
    &&& s.data@ == sample_data(bytes, i)
}

/// Reads the data of every sample, in order, after the patterns that start
/// at `at`, filling in each sample as soon as its data is read, and gives
/// the position after the last sample.  When the file ends inside the data
/// of a sample, that sample and the ones after it are left as they were.
fn read_sample_data(bytes: &[u8], at: usize, samples: &mut Vec<Sample>) -> (res: Result<usize, ReadError>)
    requires
        old(samples).len() == 31,
        bytes@.len() >= 1084,
        at == data_at(bytes@),
        at <= bytes@.len(),
        forall|i: int| 0 <= i < 31 ==> sample_from_header(#[trigger] old(samples)@[i], header(bytes@, i)),
    ensures
        final(samples).len() == 31,
        bytes@.len() < module_end(bytes@) ==> res matches Err(ReadError::UnexpectedEof),
        bytes@.len() >= module_end(bytes@) ==> (res matches Ok(end) && end == module_end(bytes@)),
        res is Ok ==> forall|i: int| 0 <= i < 31 ==> sample_filled(#[trigger] final(samples)@[i], bytes@, i),
        forall|i: int| 0 <= i < 31 ==> {
            &&& data_fits(bytes@, i + 1) ==> sample_filled(#[trigger] final(samples)@[i], bytes@, i)
            &&& !data_fits(bytes@, i + 1) ==> final(samples)@[i] == old(samples)@[i]
        },
{
    let ghost start = samples@;
    let mut pos: usize = at;
    let mut i: usize = 0;
    while i < NUM_SAMPLES
        invariant
            i <= 31,
            samples.len() == 31,
            bytes@.len() >= 1084,
            at == data_at(bytes@),
            pos == at + data_size(bytes@, i as int),
            pos <= bytes@.len(),
            start == old(samples)@,
            forall|k: int| 0 <= k < 31 ==> sample_from_header(#[trigger] start[k], header(bytes@, k)),
            forall|k: int| 0 <= k < i ==> sample_filled(#[trigger] samples@[k], bytes@, k),
            forall|k: int| i <= k < 31 ==> #[trigger] samples@[k] == start[k],
        decreases 31 - i,
    {
        let s = &samples[i];
        let len = s.length as usize;
        assert(s == start[i as int]);
        assert(header(bytes@, i as int)[22] == bytes@[20 + 30 * i + 22]);
        assert(header(bytes@, i as int)[23] == bytes@[20 + 30 * i + 23]);
        assert(header(bytes@, i as int)[25] == bytes@[20 + 30 * i + 25]);
        assert(len == sample_size(bytes@, i as int));
        if bytes.len() - pos < len {
            proof {
                lemma_data_size_mono(bytes@, i + 1, 31);
                assert forall|k: int| 0 <= k < 31 implies {
                    &&& data_fits(bytes@, k + 1) ==> sample_filled(#[trigger] samples@[k], bytes@, k)
                    &&& !data_fits(bytes@, k + 1) ==> samples@[k] == start[k]
                } by {
                    if k < i {
                        lemma_data_size_mono(bytes@, k + 1, i as int);
                    } else {
                        lemma_data_size_mono(bytes@, i + 1, k + 1);
                    }
                }
            }
            return Err(ReadError::UnexpectedEof);
        }
        let mut data: Vec<u8> = Vec::new();
        let mut j: usize = 0;
        while j < len
            invariant
                j <= len,
                pos + len <= bytes.len(),
                data.len() == j,
                forall|k: int| 0 <= k < j ==> data@[k] == scaled(unsigned_pcm(#[trigger] bytes@[pos + k]), s.volume),
            decreases len - j,
        {
            data.push(pcm_byte(bytes[pos + j], s.volume));
            j = j + 1;
        }
        assert(data@ =~= sample_data(bytes@, i as int));
        let filled = Sample {
            name: s.name.clone(),
            length: s.length,
            finetune: s.finetune,
            volume: s.volume,
            loop_offset: s.loop_offset,
            loop_length: s.loop_length,
            data,
        };
        samples.set(i, filled);
        pos = pos + len;
        i = i + 1;
    }
    proof {
        assert forall|k: int| 0 <= k < 31 implies data_fits(bytes@, k + 1) && sample_filled(
            #[trigger] samples@[k],
            bytes@,
            k,
        ) by {
            lemma_data_size_mono(bytes@, k + 1, 31);
        }
    }
    Ok(pos)
}

/// Checks that the module ends where the file does, when asked to.
fn check_length(bytes: &[u8], pos: usize, check: bool) -> (res: Result<(), ReadError>)
    ensures
        (check && pos != bytes@.len()) ==> (res matches Err(ReadError::LengthMismatch { expected, got })
            && expected == bytes@.len() && got == pos),
        !(check && pos != bytes@.len()) ==> res is Ok,
{
    if check && pos != bytes.len() {
        return Err(ReadError::LengthMismatch { expected: bytes.len(), got: pos });
    }
    Ok(())
}

/// Whether every sample header that the file holds in full has a length
/// word below 32768, so that the length in bytes (twice the word) fits in
/// 16 bits.
pub fn header_lengths_fit(bytes: &[u8]) -> (res: bool)
    ensures
        res == lengths_fit(bytes@),
{
    let mut i: usize = 0;
    while i < NUM_SAMPLES
        invariant
            i <= 31,
            forall|k: int| 0 <= k < i && 20 + 30 * (k + 1) <= bytes@.len() ==> #[trigger] bytes@[20 + 30 * k + 22] < 128,
        decreases 31 - i,
    {
        let at = TITLE_SIZE + HEADER_SIZE * i;
        if at + HEADER_SIZE <= bytes.len() && bytes[at + 22] >= 128 {
            return false;
        }
        i = i + 1;
    }
    true
}

/// Where the module that a file of at least 1084 bytes announces ends: after
/// its patterns and the data of all its samples.
pub fn module_size(bytes: &[u8]) -> (res: Option<usize>)
    requires
        lengths_fit(bytes@),
    ensures
        bytes@.len() < 1084 ==> res is None,
        bytes@.len() >= 1084 ==> res == Some(module_end(bytes@) as usize) && module_end(bytes@) <= usize::MAX,
{
    if bytes.len() < PATTERNS_AT {
        return None;
    }
    let ghost table = bytes@.subrange(952, 1080);
    let mut used: usize = 0;
    let mut i: usize = 0;
    while i < TABLE_SIZE
        invariant
            i <= 128,
            bytes@.len() >= 1084,
            table == bytes@.subrange(952, 1080),
            used == max_entry(table, i as int),
        decreases 128 - i,
    {
        let p = bytes[TABLE_AT + i];
        assert(table[i as int] == p);
        if p as usize > used {
            used = p as usize;
        }
        i = i + 1;
    }
    proof {
        lemma_max_entry(table, 128);
    }
    let mut end: usize = PATTERNS_AT + 1024 * (used + 1);
    let mut k: usize = 0;
    while k < NUM_SAMPLES
        invariant
            k <= 31,
            bytes@.len() >= 1084,
            lengths_fit(bytes@),
            end == data_at(bytes@) + data_size(bytes@, k as int),
            end <= 1084 + 256 * 1024 + k * 65536,
        decreases 31 - k,
    {
        let at = TITLE_SIZE + HEADER_SIZE * k;
        assert(bytes@[20 + 30 * k + 22] < 128);
        let words = (bytes[at + 22] as usize) * 256 + bytes[at + 23] as usize;
        end = end + 2 * words;
        k = k + 1;
    }
    Some(end)
}

/// Reads a module from the bytes of a MOD file.  The
/// file must end where the module does (with `check` set).
pub fn read(bytes: &[u8], check: bool) -> (res: Result<Module, ReadError>)
    requires
        lengths_fit(bytes@),
    ensures
        truncated(bytes@) <==> res matches Err(ReadError::UnexpectedEof),
        bad_magic(bytes@) <==> res is Err && res->Err_0 is MissingMagic,
        bad_magic(bytes@) ==> (res matches Err(ReadError::MissingMagic(m)) && m@ == bytes@.subrange(1080, 1084)),
        too_long(bytes@, check) <==> res is Err && res->Err_0 is LengthMismatch,
        too_long(bytes@, check) ==> (res matches Err(ReadError::LengthMismatch { expected, got })
            && expected == bytes@.len() && got == module_end(bytes@)),
        res is Ok <==> !truncated(bytes@) && !bad_magic(bytes@) && !too_long(bytes@, check),
        res matches Ok(m) ==> module_of(m, bytes@),
{
    let title = match read_title(bytes) {
        Ok(t) => t,
        Err(e) => return Err(e),
    };
    let mut samples = match read_sample_headers(bytes) {
        Ok(s) => s,
        Err(e) => return Err(e),
    };
    if bytes.len() < TABLE_AT {
        return Err(ReadError::UnexpectedEof);
    }
    let num_positions = bytes[POSITIONS_AT] as usize;
    let (pattern_table, num_patterns) = match read_pattern_table(bytes, num_positions) {
        Ok(r) => r,
        Err(e) => return Err(e),
    };
    match check_magic_four(bytes) {
        Ok(()) => {},
        Err(e) => return Err(e),
    }
    let patterns = match read_patterns(bytes, num_patterns) {
        Ok(p) => p,
        Err(e) => {
            proof {
                lemma_data_size_mono(bytes@, 0, 31);
            }
            return Err(e);
        },
    };
    let end = match read_sample_data(bytes, PATTERNS_AT + 1024 * num_patterns, &mut samples) {
        Ok(end) => end,
        Err(e) => return Err(e),
    };
    match check_length(bytes, end, check) {
        Ok(()) => {},
        Err(e) => return Err(e),
    }
    let m = Module::new(title, samples, pattern_table, patterns);
    proof {
        assert forall|i: int| 0 <= i < 31 implies sample_from_header_but_data(#[trigger] m.samples@[i], header(bytes@, i)) by {}
    }
    Ok(m)
}

/// The listing has one line per sample of the module, in order: for every
/// sample `i`, the line `sample` `i` (two digits) with the sample's name stands
/// in the text right after the title part and the lines of the samples
/// before it.
pub proof fn lemma_module_text_lists_every_sample(m: Module, i: int)
    requires
        0 <= i < m.samples.len(),
    ensures
        ({
            let head = "title: ["@ + m.title@ + seq![']', ' ', '('] + decimal(encode_utf8(m.title@).len()) + seq![')'];
            let names = m.samples@.map_values(|s: Sample| s.name@);
            let p: int = head.len() + name_lines(names, i).len() as int;
            let line = sample_line(i as nat, m.samples@[i].name@);
            &&& p + line.len() <= module_text(m).len()
            &&& module_text(m).subrange(p, p + line.len() as int) == line
        }),
{
    let head = "title: ["@ + m.title@ + seq![']', ' ', '('] + decimal(encode_utf8(m.title@).len()) + seq![')'];
    let names = m.samples@.map_values(|s: Sample| s.name@);
    let n = m.samples.len() as int;
    lemma_name_lines_hold_each(names, n, i);
    let all = name_lines(names, n);
    let p: int = head.len() + name_lines(names, i).len() as int;
    let line = sample_line(i as nat, m.samples@[i].name@);
    assert(names[i] == m.samples@[i].name@);
    assert(module_text(m) =~= head + all);
    assert(module_text(m).subrange(p, p + line.len() as int) =~= all.subrange(
        name_lines(names, i).len() as int,
        name_lines(names, i + 1).len() as int,
    ));
}

} // verus!
