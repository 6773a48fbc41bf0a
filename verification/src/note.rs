//! Note names of Amiga periods: the three octaves of the ProTracker period
//! table, named C-4 up to B-6.

use vstd::prelude::*;
use crate::text::{decimal, digit, push_char, push_digits, push_str};

verus! {

/// The number of periods in the table: three octaves of twelve notes.
pub const TABLE_LEN: usize = 36;

/// The period of table entry `i`: C, C#, D, ..., B of the first octave,
/// then of the second, then of the third.
pub open spec fn table_period(i: int) -> u16 {
    if i == 0 { 856 } else if i == 1 { 808 } else if i == 2 { 762 }
    else if i == 3 { 720 } else if i == 4 { 678 } else if i == 5 { 640 }
    else if i == 6 { 604 } else if i == 7 { 570 } else if i == 8 { 538 }
    else if i == 9 { 508 } else if i == 10 { 480 } else if i == 11 { 453 }
    else if i == 12 { 428 } else if i == 13 { 404 } else if i == 14 { 381 }
    else if i == 15 { 360 } else if i == 16 { 339 } else if i == 17 { 320 }
    else if i == 18 { 302 } else if i == 19 { 285 } else if i == 20 { 269 }
    else if i == 21 { 254 } else if i == 22 { 240 } else if i == 23 { 226 }
    else if i == 24 { 214 } else if i == 25 { 202 } else if i == 26 { 190 }
    else if i == 27 { 180 } else if i == 28 { 170 } else if i == 29 { 160 }
    else if i == 30 { 151 } else if i == 31 { 143 } else if i == 32 { 135 }
    else if i == 33 { 127 } else if i == 34 { 120 } else { 113 }
}

/// The letter of note `n` (0 = C, ..., 11 = B) of an octave.
pub open spec fn note_letter(n: int) -> char {
    if n <= 1 { 'C' } else if n <= 3 { 'D' } else if n == 4 { 'E' }
    else if n <= 6 { 'F' } else if n <= 8 { 'G' } else if n <= 10 { 'A' }
    else { 'B' }
}

/// The sharp sign of note `n` of an octave, or `-` for a natural note.
pub open spec fn note_sign(n: int) -> char {
    if n == 1 || n == 3 || n == 6 || n == 8 || n == 10 { '#' } else { '-' }
}

/// The name of table entry `i`: letter, sign and octave number (4, 5 or 6).
pub open spec fn entry_name(i: int) -> Seq<char> {
    seq![note_letter(i % 12), note_sign(i % 12), digit((4 + i / 12) as nat)]
}

/// Whether `period` stands in the table.
pub open spec fn in_table(period: u16) -> bool {
    exists|i: int| 0 <= i < 36 && table_period(i) == period
}

/// The text `from_period` gives for a period it knows: three blanks for
/// period 0 (no note), else the name of the table entry with that period.
pub open spec fn note_text(period: u16) -> Seq<char> {
    if period == 0 {
        seq![' ', ' ', ' ']
    } else {
        entry_name(choose|i: int| 0 <= i < 36 && table_period(i) == period)
    }
}

/// Whether `from_period` knows `period`.
pub open spec fn known_period(period: u16) -> bool {
    period == 0 || in_table(period)
}

fn entry_period(i: usize) -> (p: u16)
    requires
        i < 36,
    ensures
        p == table_period(i as int),
{
    let ps: [u16; 36] = [
        856, 808, 762, 720, 678, 640, 604, 570, 538, 508, 480, 453,
        428, 404, 381, 360, 339, 320, 302, 285, 269, 254, 240, 226,
        214, 202, 190, 180, 170, 160, 151, 143, 135, 127, 120, 113,
    ];
    ps[i]
}

fn letter(n: usize) -> (c: char)
    ensures
        c == note_letter(n as int),
{
    if n <= 1 { 'C' } else if n <= 3 { 'D' } else if n == 4 { 'E' }
    else if n <= 6 { 'F' } else if n <= 8 { 'G' } else if n <= 10 { 'A' }
    else { 'B' }
}

fn sign(n: usize) -> (c: char)
    ensures
        c == note_sign(n as int),
{
    if n == 1 || n == 3 || n == 6 || n == 8 || n == 10 { '#' } else { '-' }
}

/// The periods of the table are pairwise different.
pub proof fn lemma_table_distinct(i: int, j: int)
    requires
        0 <= i < 36,
        0 <= j < 36,
        table_period(i) == table_period(j),
    ensures
        i == j,
{
}

/// Every period of the table is above zero.
pub proof fn lemma_table_positive(i: int)
    requires
        0 <= i < 36,
    ensures
        table_period(i) > 0,
{
}

/// The name of a note: `"   "` for period 0, `"C-4"` for period 856,
/// ..., `"B-6"` for period 113; an error naming the period for any other.
pub fn from_period(period: u16) -> (res: Result<String, String>)
    ensures
        match res {
            Ok(s) => known_period(period) && s@ == note_text(period),
            Err(e) => !known_period(period) && e@ == "unknown period: "@ + decimal(period as nat),
        },
{
    if period == 0 {
        let mut s = String::new();
        push_char(&mut s, ' ');
        push_char(&mut s, ' ');
        push_char(&mut s, ' ');
        assert(s@ =~= seq![' ', ' ', ' ']);
        return Ok(s);
    }
    let mut i: usize = 0;
    while i < TABLE_LEN
        invariant
            i <= 36,
            period != 0,
            forall|j: int| 0 <= j < i ==> table_period(j) != period,
        decreases 36 - i,
    {
        if entry_period(i) == period {
            let mut s = String::new();
            push_char(&mut s, letter(i % 12));
            push_char(&mut s, sign(i % 12));
            push_char(&mut s, crate::text::digit_char((4 + i / 12) as u8));
            proof {
                let c = choose|k: int| 0 <= k < 36 && table_period(k) == period;
                lemma_table_distinct(c, i as int);
                assert(s@ =~= entry_name(i as int));
            }
            return Ok(s);
        }
        i = i + 1;
    }
    let mut e = String::new();
    push_str(&mut e, "unknown period: ");
    push_digits(&mut e, period as u64, 10);
    assert(e@ =~= "unknown period: "@ + decimal(period as nat));
    Err(e)
}

/// The twelve note names of an octave, in rising order, as the tracker
/// writes them: letter, then `#` for a sharp or `-` for a natural note.
pub open spec fn chromatic_names() -> Seq<Seq<char>> {
    seq![
        seq!['C', '-'], seq!['C', '#'], seq!['D', '-'], seq!['D', '#'],
        seq!['E', '-'], seq!['F', '-'], seq!['F', '#'], seq!['G', '-'],
        seq!['G', '#'], seq!['A', '-'], seq!['A', '#'], seq!['B', '-'],
    ]
}

/// Entry `i` of the period table is named after note `i % 12` of the
/// chromatic scale C, C#, D, ..., B, followed by its octave `4 + i / 12`:
/// the first octave is C-4 .. B-4, the second C-5 .. B-5, the third
/// C-6 .. B-6.
pub proof fn lemma_note_names(i: int)
    requires
        0 <= i < 36,
    ensures
        known_period(table_period(i)),
        note_text(table_period(i)) == chromatic_names()[i % 12] + seq![digit((4 + i / 12) as nat)],
{
    let p = table_period(i);
    lemma_table_positive(i);
    assert(in_table(p));
    let k = choose|k: int| 0 <= k < 36 && table_period(k) == p;
    lemma_table_distinct(k, i);
    let n = i % 12;
    let names = chromatic_names();
    assert(names.len() == 12);
    if n == 0 { assert(names[0] == seq!['C', '-']); }
    else if n == 1 { assert(names[1] == seq!['C', '#']); }
    else if n == 2 { assert(names[2] == seq!['D', '-']); }
    else if n == 3 { assert(names[3] == seq!['D', '#']); }
    else if n == 4 { assert(names[4] == seq!['E', '-']); }
    else if n == 5 { assert(names[5] == seq!['F', '-']); }
    else if n == 6 { assert(names[6] == seq!['F', '#']); }
    else if n == 7 { assert(names[7] == seq!['G', '-']); }
    else if n == 8 { assert(names[8] == seq!['G', '#']); }
    else if n == 9 { assert(names[9] == seq!['A', '-']); }
    else if n == 10 { assert(names[10] == seq!['A', '#']); }
    else { assert(names[11] == seq!['B', '-']); }
    assert(entry_name(i) =~= names[n] + seq![digit((4 + i / 12) as nat)]);
}

/// Two of the names: period 640 is F-4 and period 508 is A-4.
pub proof fn lemma_f4_and_a4()
    ensures
        note_text(640) == seq!['F', '-', '4'],
        note_text(508) == seq!['A', '-', '4'],
{
    lemma_note_names(5);
    lemma_note_names(9);
    assert(chromatic_names()[5] + seq![digit(4)] =~= seq!['F', '-', '4']);
    assert(chromatic_names()[9] + seq![digit(4)] =~= seq!['A', '-', '4']);
}

/// Different known periods have different names.
pub proof fn lemma_names_distinct(p: u16, q: u16)
    requires
        known_period(p),
        known_period(q),
        p != q,
    ensures
        note_text(p) != note_text(q),
{
    if p != 0 && q != 0 {
        let i = choose|k: int| 0 <= k < 36 && table_period(k) == p;
        let j = choose|k: int| 0 <= k < 36 && table_period(k) == q;
        assert(i != j);
        let a = entry_name(i);
        let b = entry_name(j);
        if a == b {
            assert(a[0] == b[0] && a[1] == b[1] && a[2] == b[2]);
            assert(i % 12 == j % 12);
            assert(i / 12 == j / 12);
            assert(false);
        }
    } else if p == 0 {
        let j = choose|k: int| 0 <= k < 36 && table_period(k) == q;
        assert(note_text(q)[0] != ' ');
    } else {
        let i = choose|k: int| 0 <= k < 36 && table_period(k) == p;
        assert(note_text(p)[0] != ' ');
    }
}

} // verus!
