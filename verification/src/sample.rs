//! Samples: the 30-byte sample header of a MOD file and the sample data.

use vstd::prelude::*;
use vstd::utf8::{decode_utf8, valid_utf8};
use crate::text::{decimal, lossy_string, push_digits, push_str, utf8_lossy};
use vstd::utf8::encode_utf8;

verus! {

/// The size of a sample header in bytes.
pub const HEADER_SIZE: usize = 30;

/// A sample: name, length in bytes, finetune, volume, loop start and loop
/// length (in words), and the 8-bit PCM data.
#[derive(Debug)]
pub struct Sample {
    pub name: String,
    pub length: u16,
    pub finetune: u8,
    pub volume: u8,
    pub loop_offset: u16,
    pub loop_length: u16,
    pub data: Vec<u8>,
}

/// The first position at or after `i` that holds a zero byte, or the length
/// of `s` when there is none.
pub open spec fn zero_from(s: Seq<u8>, i: int) -> int
    decreases s.len() - i,
{
    if i < 0 || i >= s.len() {
        s.len() as int
    } else if s[i] == 0 {
        i
    } else {
        zero_from(s, i + 1)
    }
}

/// The length of the text of a zero-terminated byte field.
pub open spec fn text_end(s: Seq<u8>) -> int {
    zero_from(s, 0)
}

/// A big-endian 16-bit word.
pub open spec fn be16(hi: u8, lo: u8) -> nat {
    hi as nat * 256 + lo as nat
}

/// Whether the sample `s` is what `from_bytes` makes of the header `h`.
pub open spec fn sample_from_header(s: Sample, h: Seq<u8>) -> bool {
    &&& s.name@ == utf8_lossy(h.subrange(0, text_end(h)))
    &&& valid_utf8(h.subrange(0, text_end(h))) ==> s.name@ == decode_utf8(h.subrange(0, text_end(h)))
    &&& s.length == 2 * be16(h[22], h[23])
    &&& s.finetune == h[24]
    &&& s.volume == h[25]
    &&& s.loop_offset == be16(h[26], h[27])
    &&& s.loop_length == be16(h[28], h[29])
    &&& s.data@.len() == 0
}

/// The position of the first zero byte of `bytes`, or their length.
pub fn text_len(bytes: &[u8]) -> (res: usize)
    ensures
        res == text_end(bytes@),
        res <= bytes@.len(),
        forall|j: int| 0 <= j < res ==> bytes@[j] != 0,
{
    let mut i: usize = 0;
    while i < bytes.len()
        invariant
            i <= bytes@.len(),
            zero_from(bytes@, 0) == zero_from(bytes@, i as int),
            forall|j: int| 0 <= j < i ==> bytes@[j] != 0,
        decreases bytes@.len() - i,
    {
        if bytes[i] == 0 {
            return i;
        }
        i = i + 1;
    }
    i
}

/// `label`, then `[`, `n` in decimal, `]` and a line break.
pub open spec fn field_line(label: Seq<char>, n: nat) -> Seq<char> {
    label + seq!['['] + decimal(n) + seq![']', '\n']
}

/// A sample header as the player shows it: the name in brackets with its
/// length in bytes, then length, finetune, volume, loop start and loop
/// length, one per line.
pub open spec fn sample_text(s: Sample) -> Seq<char> {
    seq!['n', 'a', 'm', 'e', ':', ' ', '['] + s.name@ + seq![']', ' ', '('] + decimal(encode_utf8(s.name@).len())
        + seq![')', '\n'] + field_line("  length:      "@, s.length as nat) + field_line(
        "  finetune:    "@,
        s.finetune as nat,
    ) + field_line("  volume:      "@, s.volume as nat) + field_line("  loop offset: "@, s.loop_offset as nat)
        + field_line("  loop length: "@, s.loop_length as nat)
}

/// Appends a field line.
fn push_field(out: &mut String, label: &str, n: u64)
    ensures
        final(out)@ == old(out)@ + field_line(label@, n as nat),
{
    push_str(out, label);
    crate::text::push_char(out, '[');
    push_digits(out, n, 10);
    crate::text::push_char(out, ']');
    crate::text::push_char(out, '\n');
    assert(out@ =~= old(out)@ + field_line(label@, n as nat));
}

impl Sample {
    /// The header as the player shows it.
    pub fn to_string(&self) -> (res: String)
        ensures
            res@ == sample_text(*self),
    {
        proof {
            reveal_strlit("name: [");
            reveal_strlit("] (");
            reveal_strlit(")\n");
        }
        let mut out = String::new();
        push_str(&mut out, "name: [");
        let name = self.name.as_str();
        push_str(&mut out, name);
        push_str(&mut out, "] (");
        let n = name.as_bytes().len();
        push_digits(&mut out, n as u64, 10);
        push_str(&mut out, ")\n");
        let ghost head = out@;
        assert(head =~= seq!['n', 'a', 'm', 'e', ':', ' ', '['] + self.name@ + seq![']', ' ', '(']
            + decimal(encode_utf8(self.name@).len()) + seq![')', '\n']);
        push_field(&mut out, "  length:      ", self.length as u64);
        push_field(&mut out, "  finetune:    ", self.finetune as u64);
        push_field(&mut out, "  volume:      ", self.volume as u64);
        push_field(&mut out, "  loop offset: ", self.loop_offset as u64);
        push_field(&mut out, "  loop length: ", self.loop_length as u64);
        assert(out@ =~= sample_text(*self));
        out
    }

    /// Decodes a sample header.  The name runs up to the first zero byte of
    /// the header (or its end); the length word counts words, so the length
    /// in bytes is twice it.  The data is left empty.
    pub fn from_bytes(bytes: &[u8]) -> (res: Self)
        requires
            bytes@.len() >= 30,
            bytes@[22] < 128,
        ensures
            sample_from_header(res, bytes@),
    {
        let end = text_len(bytes);
        let name = lossy_string(&bytes[0..end]);
        let words = (bytes[22] as u16) * 256 + bytes[23] as u16;
        Self {
            name,
            length: 2 * words,
            finetune: bytes[24],
            volume: bytes[25],
            loop_offset: (bytes[26] as u16) * 256 + bytes[27] as u16,
            loop_length: (bytes[28] as u16) * 256 + bytes[29] as u16,
            data: Vec::new(),
        }
    }

    /// Whether the sample repeats: its loop is longer than one word.
    pub fn is_looped(&self) -> (res: bool)
        ensures
            res == (self.loop_length > 1),
    {
        self.loop_length > 1
    }
}

} // verus!
