//! The player's settings as they are given in text: the channels to play,
//! a comma-separated list of numbers, and the tick multiplier.

use vstd::prelude::*;
use vstd::string::StrSliceExecFns;

verus! {

/// Whether `c` is a decimal digit.
pub open spec fn is_digit(c: char) -> bool {
    '0' <= c <= '9'
}

/// The value of a decimal digit character.
pub open spec fn digit_value(c: char) -> nat {
    (c as nat - 48) as nat
}

/// The value of a string of decimal digits (0 for the empty string).
pub open spec fn digits_value(d: Seq<char>) -> nat
    decreases d.len(),
{
    if d.len() == 0 {
        0
    } else {
        digits_value(d.drop_last()) * 10 + digit_value(d.last())
    }
}

/// The digits of a number text: without its leading `+`, if it has one.
pub open spec fn unsigned_digits(t: Seq<char>) -> Seq<char> {
    if t.len() > 0 && t[0] == '+' { t.subrange(1, t.len() as int) } else { t }
}

/// The number a text denotes, as `str::parse` reads an unsigned integer of
/// at most `limit`: an optional `+`, then one or more decimal digits and
/// nothing else, with a value of at most `limit`; otherwise none.
pub open spec fn number_of(t: Seq<char>, limit: nat) -> Option<nat> {
    number_of_digits(unsigned_digits(t), limit)
}

/// Whether every character of `d` is a decimal digit.
pub open spec fn all_digits(d: Seq<char>) -> bool {
    forall|i: int| 0 <= i < d.len() ==> is_digit(#[trigger] d[i])
}

/// The value of a non-empty string of digits of at most `limit`, or none.
pub open spec fn number_of_digits(d: Seq<char>, limit: nat) -> Option<nat> {
    if d.len() > 0 && all_digits(d) && digits_value(d) <= limit {
        Some(digits_value(d))
    } else {
        None
    }
}

/// The pieces of the first `n` characters of `s` between commas, as
/// `str::split(',')` gives them (there is always at least one piece).
pub open spec fn pieces(s: Seq<char>, n: int) -> Seq<Seq<char>>
    decreases n,
{
    if n <= 0 {
        seq![Seq::empty()]
    } else {
        let p = pieces(s, n - 1);
        if s[n - 1] == ',' {
            p.push(Seq::empty())
        } else {
            p.update(p.len() - 1, p.last().push(s[n - 1]))
        }
    }
}

/// The numbers among the first `n` pieces, in order; pieces that are not
/// numbers (of at most `usize::MAX`) are left out.
pub open spec fn numbers(ps: Seq<Seq<char>>, n: int) -> Seq<usize>
    decreases n,
{
    if n <= 0 {
        Seq::empty()
    } else {
        match number_of(ps[n - 1], usize::MAX as nat) {
            Some(v) => numbers(ps, n - 1).push(v as usize),
            None => numbers(ps, n - 1),
        }
    }
}

/// The channel numbers a comma-separated list names.
pub open spec fn channel_list(s: Seq<char>) -> Seq<usize> {
    numbers(pieces(s, s.len() as int), pieces(s, s.len() as int).len() as int)
}

/// The value of a prefix of digits is at most that of all of them.
proof fn lemma_prefix_value(d: Seq<char>, k: int)
    requires
        0 <= k <= d.len(),
    ensures
        digits_value(d.subrange(0, k)) <= digits_value(d),
    decreases d.len() - k,
{
    if k < d.len() {
        lemma_prefix_value(d, k + 1);
        assert(d.subrange(0, k + 1).drop_last() =~= d.subrange(0, k));
    } else {
        assert(d.subrange(0, k) =~= d);
    }
}

/// Reads the number that `t` denotes, of at most `limit`.
fn number_in(t: &Vec<char>, limit: u64) -> (res: Option<u64>)
    ensures
        match res {
            Some(v) => number_of(t@, limit as nat) == Some(v as nat),
            None => number_of(t@, limit as nat) is None,
        },
{
    let ghost d = unsigned_digits(t@);
    let start: usize = if t.len() > 0 && t[0] == '+' { 1 } else { 0 };
    assert(d =~= t@.subrange(start as int, t@.len() as int));
    if start >= t.len() {
        return None;
    }
    let mut acc: u64 = 0;
    let mut i: usize = start;
    while i < t.len()
        invariant
            start <= i <= t@.len(),
            d == t@.subrange(start as int, t@.len() as int),
            d == unsigned_digits(t@),
            forall|j: int| 0 <= j < i - start ==> is_digit(#[trigger] d[j]),
            acc == digits_value(d.subrange(0, i - start)),
            acc <= limit,
        decreases t@.len() - i,
    {
        let c = t[i];
        assert(c == d[i - start]);
        if !('0' <= c && c <= '9') {
            assert(!is_digit(d[i - start]));
            assert(!all_digits(d));
            return None;
        }
        let v = (c as u32 - 48) as u64;
        assert(d.subrange(0, i - start + 1).drop_last() =~= d.subrange(0, i - start));
        if v > limit || acc > (limit - v) / 10 {
            proof {
                lemma_prefix_value(d, i - start + 1);
                assert(digits_value(d.subrange(0, i - start + 1)) == acc * 10 + v);
                assert(digits_value(d) > limit);
            }
            return None;
        }
        acc = acc * 10 + v;
        i = i + 1;
    }
    assert(d.subrange(0, d.len() as int) =~= d);
    Some(acc)
}

/// The characters of a string.
fn chars_of(text: &str) -> (res: Vec<char>)
    ensures
        res@ == text@,
{
    let n = text.unicode_len();
    let mut out: Vec<char> = Vec::new();
    let mut i: usize = 0;
    while i < n
        invariant
            n == text@.len(),
            i <= n,
            out@ == text@.subrange(0, i as int),
        decreases n - i,
    {
        out.push(text.get_char(i));
        i = i + 1;
        assert(out@ =~= text@.subrange(0, i as int));
    }
    assert(out@ =~= text@);
    out
}

/// Reads an unsigned 64-bit number as `str::parse::<u64>` does: an optional
/// `+` and decimal digits only; `None` otherwise or when it is too large.
pub fn parse_u64(text: &str) -> (res: Option<u64>)
    ensures
        match res {
            Some(v) => number_of(text@, u64::MAX as nat) == Some(v as nat),
            None => number_of(text@, u64::MAX as nat) is None,
        },
{
    let cs = chars_of(text);
    number_in(&cs, u64::MAX)
}

/// Reads a `usize` as `str::parse::<usize>` does.
pub fn parse_usize(text: &str) -> (res: Option<usize>)
    ensures
        match res {
            Some(v) => number_of(text@, usize::MAX as nat) == Some(v as nat),
            None => number_of(text@, usize::MAX as nat) is None,
        },
{
    let cs = chars_of(text);
    match number_in(&cs, usize::MAX as u64) {
        Some(v) => Some(v as usize),
        None => None,
    }
}

/// The channel numbers of a comma-separated list, in order; the pieces
/// that are not numbers are skipped.
pub fn parse_channels(text: &str) -> (res: Vec<usize>)
    ensures
        res@ == channel_list(text@),
{
    let cs = chars_of(text);
    let ghost s = text@;
    let mut out: Vec<usize> = Vec::new();
    let mut cur: Vec<char> = Vec::new();
    let mut i: usize = 0;
    while i < cs.len()
        invariant
            cs@ == s,
            i <= s.len(),
            pieces(s, i as int).len() >= 1,
            cur@ == pieces(s, i as int).last(),
            out@ == numbers(pieces(s, i as int), pieces(s, i as int).len() - 1),
        decreases s.len() - i,
    {
        let ghost p = pieces(s, i as int);
        let c = cs[i];
        if c == ',' {
            match number_in(&cur, usize::MAX as u64) {
                Some(v) => out.push(v as usize),
                None => {},
            }
            cur = Vec::new();
            proof {
                let q = pieces(s, i + 1);
                assert(q == p.push(Seq::empty()));
                assert forall|k: int| 0 <= k < p.len() implies q[k] == p[k] by {}
                lemma_numbers_prefix(p, q, p.len() as int);
                assert(cur@ =~= q.last());
            }
        } else {
            cur.push(c);
            proof {
                let q = pieces(s, i + 1);
                assert(q == p.update(p.len() - 1, p.last().push(c)));
                assert forall|k: int| 0 <= k < p.len() - 1 implies q[k] == p[k] by {}
                lemma_numbers_prefix(p, q, p.len() - 1);
            }
        }
        i = i + 1;
    }
    let ghost p = pieces(s, s.len() as int);
    match number_in(&cur, usize::MAX as u64) {
        Some(v) => out.push(v as usize),
        None => {},
    }
    out
}

/// The numbers of the first `n` pieces depend on those pieces only.
proof fn lemma_numbers_prefix(p: Seq<Seq<char>>, q: Seq<Seq<char>>, n: int)
    requires
        0 <= n <= p.len(),
        n <= q.len(),
        forall|k: int| 0 <= k < n ==> q[k] == p[k],
    ensures
        numbers(q, n) == numbers(p, n),
    decreases n,
{
    if n > 0 {
        lemma_numbers_prefix(p, q, n - 1);
    }
}

/// The channels to play: those that the setting lists, or all four when
/// there is no setting.
pub fn player_channels(setting: Option<&str>) -> (res: Vec<usize>)
    ensures
        setting is None ==> res@ == seq![0usize, 1, 2, 3],
        setting matches Some(t) ==> res@ == channel_list(t@),
{
    match setting {
        Some(t) => parse_channels(t),
        None => {
            let mut v: Vec<usize> = Vec::new();
            v.push(0);
            v.push(1);
            v.push(2);
            v.push(3);
            assert(v@ =~= seq![0usize, 1, 2, 3]);
            v
        },
    }
}

/// The tick interval in milliseconds: six times the tick multiplier.
pub fn interval_millis(multiplier: u64) -> (res: u64)
    requires
        multiplier * 6 <= u64::MAX,
    ensures
        res == 6 * multiplier,
{
    6 * multiplier
}

} // verus!
