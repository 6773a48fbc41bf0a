//! The text of the rows that the player shows while it plays.

use vstd::prelude::*;
use colored::Colorize;
use crate::channel::Channel;
use crate::effect::packed;
use crate::module::Module;
use crate::text::{padded, push_char, push_padded, push_str};

verus! {

/// Formats rows: remembers the position in the song as the prefix of the
/// rows to come.
pub struct RowFormatter {
    pub pattern_table_len: usize,
    pub prefix: String,
}

/// The prefix of the rows of song position `row_idx` (of `last + 1`
/// positions), which plays pattern `pattern_idx`: `"007/041 P12"`.
pub open spec fn prefix_text(row_idx: nat, last: nat, pattern_idx: nat) -> Seq<char> {
    padded(row_idx, 10, 3) + seq!['/'] + padded(last, 10, 3) + seq![' ', 'P'] + padded(pattern_idx, 10, 2)
}

/// The escape character that starts a terminal colour sequence.
pub open spec fn esc() -> char {
    '\u{1b}'
}

/// The sequence that ends every colouring: `ESC [ 0 m`.
pub open spec fn reset() -> Seq<char> {
    seq![esc(), '[', '0', 'm']
}

/// The sequence that starts a colouring with SGR code `code`: `ESC [ code m`.
pub open spec fn style(code: Seq<char>) -> Seq<char> {
    seq![esc(), '['] + code + seq!['m']
}

/// `t` with `st` put back after each reset sequence in it, so that text
/// coloured inside `t` returns to the outer colour after its own colouring.
pub open spec fn restyle(t: Seq<char>, st: Seq<char>) -> Seq<char>
    decreases t.len(),
{
    if t.len() == 0 {
        t
    } else if t.len() >= 4 && t.subrange(0, 4) == reset() {
        reset() + st + restyle(t.subrange(4, t.len() as int), st)
    } else {
        seq![t[0]] + restyle(t.subrange(1, t.len() as int), st)
    }
}

/// `t` coloured with SGR code `code`, as the colored crate writes it when
/// colouring is on.
pub open spec fn painted(code: Seq<char>, t: Seq<char>) -> Seq<char> {
    style(code) + restyle(t, style(code)) + reset()
}

/// `t`, coloured when `on`.
#[verifier::opaque]
pub open spec fn paint_if(on: bool, code: Seq<char>, t: Seq<char>) -> Seq<char> {
    if on { painted(code, t) } else { t }
}

/// What the colored crate showed is the text, coloured exactly when it
/// differs from the text.
proof fn lemma_shown(r: Seq<char>, code: Seq<char>, t: Seq<char>)
    requires
        shown(r, code, t),
    ensures
        r == paint_if(r != t, code, t),
{
    reveal(paint_if);
}

/// Whether `r` is `t` as the colored crate shows it with code `code`: plain
/// when colouring is off (by the environment), coloured when it is on.
pub open spec fn shown(r: Seq<char>, code: Seq<char>, t: Seq<char>) -> bool {
    r == t || r == painted(code, t)
}

/// The SGR codes of the colours and styles the rows use.
pub open spec fn code_red() -> Seq<char> { seq!['3', '1'] }
/// Green.
pub open spec fn code_green() -> Seq<char> { seq!['3', '2'] }
/// Blue.
pub open spec fn code_blue() -> Seq<char> { seq!['3', '4'] }
/// Cyan.
pub open spec fn code_cyan() -> Seq<char> { seq!['3', '6'] }
/// White.
pub open spec fn code_white() -> Seq<char> { seq!['3', '7'] }
/// Bright yellow.
pub open spec fn code_bright_yellow() -> Seq<char> { seq!['9', '3'] }
/// Dimmed.
pub open spec fn code_dimmed() -> Seq<char> { seq!['2'] }

/// `Colorize::red`, shown as a string.
///
/// Trusted: the colored crate gives the text unchanged when colouring is off
/// (by the environment or the terminal), and otherwise wraps it in the
/// style and reset sequences, putting the style back after each reset
/// inside the text.
#[verifier::external_body]
fn red(s: &str) -> (res: String)
    ensures
        shown(res@, code_red(), s@),
{
    s.red().to_string()
}

/// `Colorize::green`, shown as a string; trusted as `red` is.
#[verifier::external_body]
fn green(s: &str) -> (res: String)
    ensures
        shown(res@, code_green(), s@),
{
    s.green().to_string()
}

/// `Colorize::blue`, shown as a string; trusted as `red` is.
#[verifier::external_body]
fn blue(s: &str) -> (res: String)
    ensures
        shown(res@, code_blue(), s@),
{
    s.blue().to_string()
}

/// `Colorize::cyan`, shown as a string; trusted as `red` is.
#[verifier::external_body]
fn cyan(s: &str) -> (res: String)
    ensures
        shown(res@, code_cyan(), s@),
{
    s.cyan().to_string()
}

/// `Colorize::white`, shown as a string; trusted as `red` is.
#[verifier::external_body]
fn white(s: &str) -> (res: String)
    ensures
        shown(res@, code_white(), s@),
{
    s.white().to_string()
}

/// `Colorize::bright_yellow`, shown as a string; trusted as `red` is.
#[verifier::external_body]
fn bright_yellow(s: &str) -> (res: String)
    ensures
        shown(res@, code_bright_yellow(), s@),
{
    s.bright_yellow().to_string()
}

/// `Colorize::dimmed`, shown as a string; trusted as `red` is.
#[verifier::external_body]
fn dimmed(s: &str) -> (res: String)
    ensures
        shown(res@, code_dimmed(), s@),
{
    s.dimmed().to_string()
}

/// The sample column of a cell: blank, or the sample number as two hex
/// digits and `h`.
pub open spec fn sample_text(ch: Channel) -> Seq<char> {
    if ch.sample == 0 { seq![' ', ' ', ' '] } else { padded(ch.sample as nat, 16, 2) + seq!['h'] }
}

/// The period column of a cell: blank, or the period as three decimal digits.
pub open spec fn period_text(ch: Channel) -> Seq<char> {
    if ch.period == 0 { seq![' ', ' ', ' '] } else { padded(ch.period as nat, 10, 3) }
}

/// The colour of the period column: dimmed when blank, else white.
pub open spec fn period_code(ch: Channel) -> Seq<char> {
    if ch.period == 0 { code_dimmed() } else { code_white() }
}

/// The effect column of a cell: blank when the effect word is 0, or the
/// effect word as four hex digits and `h`.
pub open spec fn effect_text(ch: Channel) -> Seq<char> {
    if packed(ch.effect) == 0 { seq![' ', ' ', ' ', ' ', ' '] } else { padded(packed(ch.effect) as nat, 16, 4) + seq!['h'] }
}

/// The text of a cell, with its five parts coloured as `on` says: a red bar,
/// the note in bright yellow, the sample in cyan, the period and the effect
/// in green.
pub open spec fn cell_text(ch: Channel, on: Seq<bool>) -> Seq<char> {
    paint_if(on[0], code_red(), seq!['|']) + paint_if(on[1], code_bright_yellow(), ch.note@) + seq![' ']
        + paint_if(on[2], code_cyan(), sample_text(ch)) + seq![' '] + paint_if(on[3], period_code(ch), period_text(ch))
        + seq![' '] + paint_if(on[4], code_green(), effect_text(ch))
}

/// The body of a row: `R` and the row number in two digits, `:`, and the
/// first `n` cells, cell `k` coloured as `on[5k .. 5k + 5]` says.
pub open spec fn row_body(row: nat, chs: Seq<Channel>, on: Seq<bool>, n: int) -> Seq<char>
    decreases n,
{
    if n <= 0 {
        seq!['R'] + padded(row, 10, 2) + seq![':']
    } else {
        row_body(row, chs, on, n - 1) + cell_text(chs[n - 1], on.subrange(5 * (n - 1), 5 * n))
    }
}

/// A whole row: the dimmed prefix, a blank, the body in blue and a red bar,
/// coloured as `on` says (the first three flags for these, the rest for the
/// cells).
pub open spec fn row_text(prefix: Seq<char>, row: nat, chs: Seq<Channel>, on: Seq<bool>) -> Seq<char> {
    paint_if(on[0], code_dimmed(), prefix) + seq![' '] + paint_if(
        on[1],
        code_blue(),
        row_body(row, chs, on.subrange(3, on.len() as int), chs.len() as int),
    ) + paint_if(on[2], code_red(), seq!['|'])
}

impl RowFormatter {
    /// A formatter for a module whose song is not empty; it keeps the number
    /// of the last song position.
    pub fn new(module: &Module) -> (res: Self)
        requires
            module.pattern_table.len() >= 1,
        ensures
            res.pattern_table_len == module.pattern_table.len() - 1,
            res.prefix@ == Seq::<char>::empty(),
    {
        RowFormatter { pattern_table_len: module.pattern_table.len() - 1, prefix: String::new() }
    }

    /// Sets the prefix for song position `row_idx`, which plays pattern
    /// `pattern_idx`.
    pub fn set_prefix(&mut self, row_idx: usize, pattern_idx: u8)
        ensures
            final(self).pattern_table_len == old(self).pattern_table_len,
            final(self).prefix@ == prefix_text(row_idx as nat, old(self).pattern_table_len as nat, pattern_idx as nat),
    {
        let mut s = String::new();
        push_padded(&mut s, row_idx as u64, 10, 3);
        push_char(&mut s, '/');
        push_padded(&mut s, self.pattern_table_len as u64, 10, 3);
        push_char(&mut s, ' ');
        push_char(&mut s, 'P');
        push_padded(&mut s, pattern_idx as u64, 10, 2);
        assert(s@ =~= prefix_text(row_idx as nat, self.pattern_table_len as nat, pattern_idx as nat));
        self.prefix = s;
    }
}

impl RowFormatter {
    /// One row, coloured for the terminal: prefix, row number and cells.
    /// Whether each part is coloured is up to the environment.
    pub fn format_row(&mut self, row: usize, channels: &[Channel]) -> (res: String)
        ensures
            *final(self) == *old(self),
            exists|on: Seq<bool>| on.len() == 3 + 5 * channels@.len() && res@ == #[trigger] row_text(
                old(self).prefix@,
                row as nat,
                channels@,
                on,
            ),
    {
        let mut row_str = String::new();
        push_char(&mut row_str, 'R');
        push_padded(&mut row_str, row as u64, 10, 2);
        push_char(&mut row_str, ':');
        let ghost mut on: Seq<bool> = Seq::empty();
        let mut k: usize = 0;
        while k < channels.len()
            invariant
                k <= channels@.len(),
                on.len() == 5 * k,
                row_str@ == row_body(row as nat, channels@, on, k as int),
            decreases channels@.len() - k,
        {
            let (cell, Ghost(f)) = Self::format_channel(&channels[k]);
            push_str(&mut row_str, cell.as_str());
            proof {
                let on2 = on + f;
                assert(on2.subrange(5 * k as int, 5 * (k + 1)) =~= f);
                assert(on2.subrange(0, on.len() as int) =~= on);
                assert forall|n: int| 0 <= n <= k implies row_body(row as nat, channels@, on2, n)
                    == row_body(row as nat, channels@, on, n) by {
                    lemma_row_body_prefix(row as nat, channels@, on, on2, n);
                }
                on = on2;
            }
            k = k + 1;
        }
        let p = dimmed(self.prefix.as_str());
        let b = blue(row_str.as_str());
        let bar = red("|");
        let mut res = String::new();
        push_str(&mut res, p.as_str());
        push_char(&mut res, ' ');
        push_str(&mut res, b.as_str());
        push_str(&mut res, bar.as_str());
        proof {
            reveal_strlit("|");
            assert("|"@ =~= seq!['|']);
            lemma_shown(p@, code_dimmed(), self.prefix@);
            lemma_shown(b@, code_blue(), row_str@);
            lemma_shown(bar@, code_red(), seq!['|']);
            let all = seq![p@ != self.prefix@, b@ != row_str@, bar@ != "|"@] + on;
            assert(all.subrange(3, all.len() as int) =~= on);
            assert(res@ =~= row_text(self.prefix@, row as nat, channels@, all));
        }
        res
    }

    /// One cell, coloured for the terminal, and which of its five parts the
    /// environment let be coloured.
    fn format_channel(ch: &Channel) -> (res: (String, Ghost<Seq<bool>>))
        ensures
            res.1@.len() == 5,
            res.0@ == cell_text(*ch, res.1@),
    {
        proof {
            reveal_strlit("|");
        }
        let bar = red("|");
        let note = bright_yellow(ch.note.as_str());
        let sample_s = sample_column(ch);
        let sample = cyan(sample_s.as_str());
        let period_s = period_column(ch);
        let period = if ch.period == 0 { dimmed(period_s.as_str()) } else { white(period_s.as_str()) };
        let effect_s = effect_column(ch);
        let effect = green(effect_s.as_str());
        let mut res = String::new();
        push_str(&mut res, bar.as_str());
        push_str(&mut res, note.as_str());
        push_char(&mut res, ' ');
        push_str(&mut res, sample.as_str());
        push_char(&mut res, ' ');
        push_str(&mut res, period.as_str());
        push_char(&mut res, ' ');
        push_str(&mut res, effect.as_str());
        let ghost on = seq![bar@ != "|"@, note@ != ch.note@, sample@ != sample_s@, period@ != period_s@, effect@ != effect_s@];
        proof {
            assert("|"@ =~= seq!['|']);
            lemma_shown(bar@, code_red(), seq!['|']);
            lemma_shown(note@, code_bright_yellow(), ch.note@);
            lemma_shown(sample@, code_cyan(), sample_s@);
            lemma_shown(period@, period_code(*ch), period_s@);
            lemma_shown(effect@, code_green(), effect_s@);
            assert(res@ =~= cell_text(*ch, on));
        }
        (res, Ghost(on))
    }
}

/// The sample column of a cell.
fn sample_column(ch: &Channel) -> (res: String)
    ensures
        res@ == sample_text(*ch),
{
    let mut s = String::new();
    if ch.sample == 0 {
        push_str(&mut s, "   ");
        proof {
            reveal_strlit("   ");
        }
    } else {
        push_padded(&mut s, ch.sample as u64, 16, 2);
        push_char(&mut s, 'h');
    }
    assert(s@ =~= sample_text(*ch));
    s
}

/// The period column of a cell.
fn period_column(ch: &Channel) -> (res: String)
    ensures
        res@ == period_text(*ch),
{
    let mut s = String::new();
    if ch.period == 0 {
        push_str(&mut s, "   ");
        proof {
            reveal_strlit("   ");
        }
    } else {
        push_padded(&mut s, ch.period as u64, 10, 3);
    }
    assert(s@ =~= period_text(*ch));
    s
}

/// The effect column of a cell.
fn effect_column(ch: &Channel) -> (res: String)
    ensures
        res@ == effect_text(*ch),
{
    let word = ch.effect.pack();
    let mut s = String::new();
    if word == 0 {
        push_str(&mut s, "     ");
        proof {
            reveal_strlit("     ");
        }
    } else {
        push_padded(&mut s, word as u64, 16, 4);
        push_char(&mut s, 'h');
    }
    assert(s@ =~= effect_text(*ch));
    s
}

/// The body of a row is made of its cells in order: extending the colour
/// flags leaves the body of the first cells unchanged.
proof fn lemma_row_body_prefix(row: nat, chs: Seq<Channel>, on: Seq<bool>, on2: Seq<bool>, n: int)
    requires
        0 <= n,
        5 * n <= on.len() <= on2.len(),
        on2.subrange(0, on.len() as int) == on,
    ensures
        row_body(row, chs, on2, n) == row_body(row, chs, on, n),
    decreases n,
{
    if n > 0 {
        lemma_row_body_prefix(row, chs, on, on2, n - 1);
        assert(on2.subrange(5 * (n - 1), 5 * n) =~= on.subrange(5 * (n - 1), 5 * n));
    }
}

} // verus!
