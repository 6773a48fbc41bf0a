//! Hex dumps: each byte as `0x..`, and after every seventeen bytes the
//! printable text of them.

use vstd::prelude::*;
use crate::text::{padded, push_char, push_padded, push_str};

verus! {

/// After how many bytes a text line is due (it comes once more bytes than
/// this have been dumped).
pub const LINELEN: usize = 16;

/// Whether a byte is a printable ASCII character (space to `~`).
pub open spec fn printable(byte: u8) -> bool {
    32 <= byte <= 126
}

/// The text line of the pending bytes: two blanks, each byte as its
/// character or `.` when it is not printable, and a line break.
pub open spec fn text_line(text: Seq<u8>) -> Seq<char> {
    seq![' ', ' '] + Seq::new(text.len(), |i: int| if printable(text[i]) { text[i] as char } else { '.' })
        + seq!['\n']
}

/// The dump of one byte: `0x`, two lower-case hex digits and a blank.
pub open spec fn byte_text(b: u8) -> Seq<char> {
    seq!['0', 'x'] + padded(b as nat, 16, 2) + seq![' ']
}

/// The output, pending bytes and count after dumping the first `k` bytes of
/// `chunk`, from the pending bytes `text` and count `c`.
pub open spec fn dump(chunk: Seq<u8>, k: int, text: Seq<u8>, c: nat) -> (Seq<char>, Seq<u8>, nat)
    decreases k,
{
    if k <= 0 {
        (Seq::empty(), text, c)
    } else {
        let (out, t, n) = dump(chunk, k - 1, text, c);
        let b = chunk[k - 1];
        let out1 = out + byte_text(b);
        let t1 = t.push(b);
        if n + 1 > 16 {
            (out1 + text_line(t1), Seq::empty(), 0)
        } else {
            (out1, t1, n + 1)
        }
    }
}

/// Whether a byte is a printable ASCII character.
pub fn is_printable_ascii(byte: u8) -> (res: bool)
    ensures
        res == printable(byte),
{
    32 <= byte && byte <= 126
}

/// The text line of the pending bytes; clears them and the count.
pub fn print_text(text: &mut Vec<u8>, c: &mut usize) -> (line: String)
    ensures
        line@ == text_line(old(text)@),
        final(text)@.len() == 0,
        *final(c) == 0,
{
    let mut line = String::new();
    push_str(&mut line, "  ");
    proof {
        reveal_strlit("  ");
    }
    let mut i: usize = 0;
    while i < text.len()
        invariant
            i <= text@.len(),
            line@ =~= seq![' ', ' '] + Seq::new(i as nat, |j: int| if printable(text@[j]) { text@[j] as char } else { '.' }),
        decreases text@.len() - i,
    {
        let ch = text[i];
        if is_printable_ascii(ch) {
            push_char(&mut line, ch as char);
        } else {
            push_char(&mut line, '.');
        }
        i = i + 1;
    }
    push_char(&mut line, '\n');
    assert(line@ =~= text_line(text@));
    *c = 0;
    text.clear();
    line
}

/// Dumps a chunk: appends each byte to the pending bytes and counts it, and
/// gives out the text line whenever the count passes `LINELEN`.  Gives the
/// output.
pub fn hex_dump_buffer(chunk: &Vec<u8>, text: &mut Vec<u8>, c: &mut usize) -> (out: String)
    requires
        *old(c) < usize::MAX,
    ensures
        (out@, final(text)@, *final(c) as nat) == dump(chunk@, chunk@.len() as int, old(text)@, *old(c) as nat),
{
    let mut out = String::new();
    let mut i: usize = 0;
    while i < chunk.len()
        invariant
            i <= chunk@.len(),
            *c < usize::MAX,
            (out@, text@, *c as nat) == dump(chunk@, i as int, old(text)@, *old(c) as nat),
        decreases chunk@.len() - i,
    {
        let b = chunk[i];
        push_str(&mut out, "0x");
        push_padded(&mut out, b as u64, 16, 2);
        push_char(&mut out, ' ');
        proof {
            reveal_strlit("0x");
        }
        text.push(b);
        *c += 1;
        if *c > LINELEN {
            let line = print_text(text, c);
            push_str(&mut out, line.as_str());
        }
        i = i + 1;
        proof {
            let (o, t, n) = dump(chunk@, i - 1, old(text)@, *old(c) as nat);
            assert(o + seq!['0', 'x'] + padded(b as nat, 16, 2) + seq![' '] =~= o + byte_text(b));
        }
        assert((out@, text@, *c as nat) == dump(chunk@, i as int, old(text)@, *old(c) as nat));
    }
    out
}

/// The pending bytes never number more than `LINELEN`, and the count is
/// their number, when this held before the chunk.
pub proof fn lemma_pending_bounded(chunk: Seq<u8>, k: int, text: Seq<u8>, c: nat)
    requires
        0 <= k <= chunk.len(),
        text.len() == c,
        c <= 16,
    ensures
        dump(chunk, k, text, c).1.len() == dump(chunk, k, text, c).2,
        dump(chunk, k, text, c).2 <= 16,
    decreases k,
{
    if k > 0 {
        lemma_pending_bounded(chunk, k - 1, text, c);
    }
}

/// The count after a chunk is the count before it plus the chunk's length,
/// modulo `LINELEN + 1`, and the pending bytes are that many last bytes of
/// what was pending followed by the chunk (when the pending bytes matched the
/// count before).
pub proof fn lemma_pending_are_last_bytes(chunk: Seq<u8>, k: int, text: Seq<u8>, c: nat)
    requires
        0 <= k <= chunk.len(),
        text.len() == c,
        c <= 16,
    ensures
        dump(chunk, k, text, c).2 == (c + k) % 17,
        dump(chunk, k, text, c).1 == (text + chunk.subrange(0, k)).subrange(
            (text + chunk.subrange(0, k)).len() - dump(chunk, k, text, c).2,
            (text + chunk.subrange(0, k)).len() as int,
        ),
    decreases k,
{
    let all = text + chunk.subrange(0, k);
    if k == 0 {
        assert(all =~= text);
        assert(text.subrange(0, text.len() as int) =~= text);
    } else {
        lemma_pending_are_last_bytes(chunk, k - 1, text, c);
        lemma_pending_bounded(chunk, k - 1, text, c);
        let prev = text + chunk.subrange(0, k - 1);
        let (out, t, n) = dump(chunk, k - 1, text, c);
        assert(all =~= prev.push(chunk[k - 1]));
        if n + 1 > 16 {
            assert(all.subrange(all.len() as int, all.len() as int) =~= Seq::<u8>::empty());
        } else {
            assert(t.push(chunk[k - 1]) =~= all.subrange(all.len() - (n + 1), all.len() as int));
        }
    }
}

/// The text line shows every byte from space (32) to `~` (126), digits and
/// punctuation included, as its own character, and every other byte as
/// `.`; it starts with two blanks and ends with a line break.
pub proof fn lemma_text_line_chars(text: Seq<u8>)
    ensures
        text_line(text).len() == text.len() + 3,
        text_line(text)[0] == ' ',
        text_line(text)[1] == ' ',
        text_line(text)[text.len() + 2int] == '\n',
        forall|i: int| 0 <= i < text.len() ==> #[trigger] text_line(text)[i + 2] == if 32 <= text[i] <= 126 {
            text[i] as char
        } else {
            '.'
        },
{
    assert forall|i: int| 0 <= i < text.len() implies #[trigger] text_line(text)[i + 2] == if 32 <= text[i]
        <= 126 {
        text[i] as char
    } else {
        '.'
    } by {}
}

/// A byte is printable exactly when it lies in 32 ..= 126.
pub proof fn lemma_printable_range(byte: u8)
    ensures
        printable(byte) <==> 32 <= byte <= 126,
{
}

/// The dumps of the bytes, one after the other.
pub open spec fn byte_texts(bytes: Seq<u8>) -> Seq<char>
    decreases bytes.len(),
{
    if bytes.len() == 0 {
        Seq::empty()
    } else {
        byte_texts(bytes.drop_last()) + byte_text(bytes.last())
    }
}

/// From nothing pending, the first sixteen bytes are only dumped and kept
/// pending; the seventeenth is dumped and then the text line of all
/// seventeen follows, and nothing stays pending.
pub proof fn lemma_first_line(chunk: Seq<u8>, k: int)
    requires
        0 <= k <= chunk.len(),
        k <= 17,
    ensures
        k <= 16 ==> dump(chunk, k, Seq::empty(), 0) == (byte_texts(chunk.take(k)), chunk.take(k), k as nat),
        k == 17 ==> dump(chunk, k, Seq::empty(), 0) == (
        byte_texts(chunk.take(17)) + text_line(chunk.take(17)), Seq::<u8>::empty(), 0nat),
    decreases k,
{
    if k > 0 {
        lemma_first_line(chunk, k - 1);
        assert(chunk.take(k).drop_last() =~= chunk.take(k - 1));
        assert(chunk.take(k - 1).push(chunk[k - 1]) =~= chunk.take(k));
    }
}

} // verus!
