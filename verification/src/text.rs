//! Text helpers: decimal and hexadecimal rendering of numbers, and the two
//! std calls through which the crate builds strings.

use vstd::prelude::*;
use vstd::utf8::{decode_utf8, valid_utf8};

verus! {

/// The lower-case digit character of the value `d` (below 16).
pub open spec fn digit(d: nat) -> char {
    if d < 10 {
        (48 + d) as char
    } else {
        (87 + d) as char
    }
}

/// The digits of `n` in base `base` (10 or 16), most significant first,
/// without leading zeros; zero is the single digit `0`.
pub open spec fn digits(n: nat, base: nat) -> Seq<char>
    decreases n,
{
    if base < 2 || n < base {
        seq![digit(n)]
    } else {
        proof {
            lemma_div_smaller(n, base);
        }
        digits(n / base, base).push(digit(n % base))
    }
}

/// Dividing a number at least `base` by `base` (at least 2) makes it
/// smaller, but not zero.
pub proof fn lemma_div_smaller(n: nat, base: nat)
    requires
        base >= 2,
        n >= base,
    ensures
        n / base < n,
        n / base >= 1,
{
    assert(n / base < n && n / base >= 1) by (nonlinear_arith)
        requires
            base >= 2,
            n >= base,
    ;
}

/// `n` in base `base`, left-padded with `0` to at least `width` characters,
/// as `format!("{:0width$}")` and `format!("{:0width$x}")` write it.
pub open spec fn padded(n: nat, base: nat, width: nat) -> Seq<char> {
    let d = digits(n, base);
    if d.len() < width {
        Seq::new((width - d.len()) as nat, |i: int| '0') + d
    } else {
        d
    }
}

/// `n` in decimal, as `format!("{}")` writes it.
pub open spec fn decimal(n: nat) -> Seq<char> {
    digits(n, 10)
}

/// The lines that list the first `n` names: for each, a line break, two
/// blanks, `sample`, its number (from 0, two digits), `: [`, the name and `]`.
pub open spec fn name_lines(names: Seq<Seq<char>>, n: int) -> Seq<char>
    decreases n,
{
    if n <= 0 {
        Seq::empty()
    } else {
        name_lines(names, n - 1) + "\n  sample "@ + padded((n - 1) as nat, 10, 2) + seq![':', ' ', '['] + names[n - 1]
            + seq![']']
    }
}

/// The line that lists name number `i`: a line break, two blanks,
/// `sample`, the number in two digits, `: [`, the name and `]`.
pub open spec fn sample_line(i: nat, name: Seq<char>) -> Seq<char> {
    "\n  sample "@ + padded(i, 10, 2) + seq![':', ' ', '['] + name + seq![']']
}

/// The listing of the first `n` names holds one line per name, in order:
/// line `i` (for each `i < n`) stands right after the lines before it.
pub proof fn lemma_name_lines_hold_each(names: Seq<Seq<char>>, n: int, i: int)
    requires
        0 <= i < n,
    ensures
        name_lines(names, i + 1) == name_lines(names, i) + sample_line(i as nat, names[i]),
        name_lines(names, i + 1).len() <= name_lines(names, n).len(),
        name_lines(names, n).subrange(name_lines(names, i).len() as int, name_lines(names, i + 1).len() as int)
            == sample_line(i as nat, names[i]),
    decreases n,
{
    let a = name_lines(names, i);
    let b = name_lines(names, i + 1);
    assert(b =~= a + sample_line(i as nat, names[i]));
    if i == n - 1 {
        assert(b.subrange(a.len() as int, b.len() as int) =~= sample_line(i as nat, names[i]));
    } else {
        lemma_name_lines_hold_each(names, n - 1, i);
        let c = name_lines(names, n - 1);
        let d = name_lines(names, n);
        assert(d =~= c + (d.subrange(c.len() as int, d.len() as int)));
        assert(d.subrange(a.len() as int, b.len() as int) =~= c.subrange(a.len() as int, b.len() as int));
    }
}

/// Appends the line of name number `i`.
pub fn push_name_line(out: &mut String, i: usize, name: &str)
    ensures
        final(out)@ == old(out)@ + "\n  sample "@ + padded(i as nat, 10, 2) + seq![':', ' ', '['] + name@ + seq![']'],
{
    push_str(out, "\n  sample ");
    push_padded(out, i as u64, 10, 2);
    push_str(out, ": [");
    push_str(out, name);
    push_char(out, ']');
    proof {
        reveal_strlit(": [");
    }
    assert(out@ =~= old(out)@ + "\n  sample "@ + padded(i as nat, 10, 2) + seq![':', ' ', '['] + name@ + seq![']']);
}

/// What `String::from_utf8_lossy` makes of a byte sequence.
pub uninterp spec fn utf8_lossy(bytes: Seq<u8>) -> Seq<char>;

/// `String::from_utf8_lossy`, made an owned `String`.
///
/// Trusted: the result is the named function `utf8_lossy` of the bytes, and
/// when the bytes are valid UTF-8 it is their decoding, as std documents.
/// What replaces invalid sequences is left unsaid.
#[verifier::external_body]
pub fn lossy_string(bytes: &[u8]) -> (res: String)
    ensures
        res@ == utf8_lossy(bytes@),
        valid_utf8(bytes@) ==> res@ == decode_utf8(bytes@),
{
    String::from_utf8_lossy(bytes).into_owned()
}

/// `String::push`.
///
/// Trusted: the character is appended at the end, as std documents.
#[verifier::external_body]
pub fn push_char(s: &mut String, c: char)
    ensures
        final(s)@ == old(s)@.push(c),
{
    s.push(c);
}

/// Appends a string.
pub fn push_str(s: &mut String, t: &str)
    ensures
        final(s)@ == old(s)@ + t@,
{
    s.append(t);
}

/// The character of a digit value below 16.
pub fn digit_char(d: u8) -> (c: char)
    requires
        d < 16,
    ensures
        c == digit(d as nat),
{
    if d < 10 {
        (48 + d) as char
    } else {
        (87 + d) as char
    }
}

/// Appends the digits of `n` in base `base` (10 or 16).
pub fn push_digits(s: &mut String, n: u64, base: u64)
    requires
        base == 10 || base == 16,
    ensures
        final(s)@ == old(s)@ + digits(n as nat, base as nat),
    decreases n,
{
    if n >= base {
        push_digits(s, n / base, base);
    }
    push_char(s, digit_char((n % base) as u8));
    proof {
        assert(old(s)@ + digits(n as nat, base as nat) =~= if n >= base {
            old(s)@ + digits((n / base) as nat, base as nat)
        } else {
            old(s)@
        }.push(digit((n % base) as nat)));
    }
}

/// The number of digits of `n` in base `base` (10 or 16).
pub fn digit_count(n: u64, base: u64) -> (res: u64)
    requires
        base == 10 || base == 16,
    ensures
        res == digits(n as nat, base as nat).len(),
    decreases n,
{
    proof {
        lemma_digits_len(n as nat, base as nat);
    }
    if n >= base {
        let r = digit_count(n / base, base);
        proof {
            lemma_div_smaller(n as nat, base as nat);
            lemma_digits_len((n / base) as nat, base as nat);
        }
        r + 1
    } else {
        1
    }
}

proof fn lemma_digits_len(n: nat, base: nat)
    requires
        base == 10 || base == 16,
    ensures
        1 <= digits(n, base).len() <= n + 1,
    decreases n,
{
    if n >= base {
        lemma_div_smaller(n, base);
        lemma_digits_len(n / base, base);
    }
}

/// Appends `n` in base `base` (10 or 16), zero-padded to `width` characters.
pub fn push_padded(s: &mut String, n: u64, base: u64, width: u64)
    requires
        base == 10 || base == 16,
    ensures
        final(s)@ == old(s)@ + padded(n as nat, base as nat, width as nat),
{
    let count = digit_count(n, base);
    let ghost start = s@;
    if count < width {
        let mut i: u64 = 0;
        while i < width - count
            invariant
                count < width,
                i <= width - count,
                s@ =~= start + Seq::new(i as nat, |j: int| '0'),
            decreases width - count - i,
        {
            push_char(s, '0');
            i = i + 1;
        }
    }
    push_digits(s, n, base);
    assert(s@ =~= start + padded(n as nat, base as nat, width as nat));
}

} // verus!
