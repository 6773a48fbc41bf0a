//! Effect commands of a pattern cell: the 12-bit effect word `kxy` of the
//! MOD format, split into its command, its two parameter nibbles and its
//! parameter byte.

use vstd::prelude::*;
use crate::text::{decimal, push_digits, push_str};

verus! {

/// The effect commands that the player knows.
#[derive(Clone, Copy, Debug, PartialEq, Eq, Structural)]
pub enum Kind {
    NoEffect,
    Arp,
    SetVolume,
}

/// The command that a command byte `k` with parameter byte `xy` denotes:
/// command 0 is an arpeggio unless its parameter is 0 (then it is no effect),
/// command 0xc sets the volume, and every other command is not handled.
pub open spec fn kind_of(k: u8, xy: u8) -> Kind {
    if k == 0 {
        if xy == 0 { Kind::NoEffect } else { Kind::Arp }
    } else if k == 0xc {
        Kind::SetVolume
    } else {
        Kind::NoEffect
    }
}

/// The number that `pack` writes for a command, its position in `Kind`.
pub open spec fn kind_code(k: Kind) -> u16 {
    match k {
        Kind::NoEffect => 0,
        Kind::Arp => 1,
        Kind::SetVolume => 2,
    }
}

impl Kind {
    /// Decodes the command byte `k` of an effect whose parameter byte is `xy`.
    pub fn parse(k: u8, xy: u8) -> (res: Self)
        ensures
            res == kind_of(k, xy),
    {
        match k {
            0 => match xy {
                0 => Kind::NoEffect,
                _ => Kind::Arp,
            },
            0xc => Kind::SetVolume,
            _ => Kind::NoEffect,
        }
    }

    /// The number of the command, as `pack` writes it.
    pub fn code(&self) -> (res: u16)
        ensures
            res == kind_code(*self),
    {
        match self {
            Kind::NoEffect => 0,
            Kind::Arp => 1,
            Kind::SetVolume => 2,
        }
    }
}

/// A decoded effect: its command and its parameter, as two nibbles `x`, `y`
/// and as the byte `xy`.
#[derive(Clone, Copy, Debug, PartialEq, Eq, Structural)]
pub struct Effect {
    pub kind: Kind,
    pub x: u8,
    pub y: u8,
    pub xy: u8,
}

/// The effect that the word `e` encodes (only its low 12 bits carry meaning
/// in a pattern, but every bit above the parameter byte is read as command).
pub open spec fn effect_of(e: u16) -> Effect {
    Effect {
        kind: kind_of((e / 256) as u8, (e % 256) as u8),
        x: ((e / 16) % 16) as u8,
        y: (e % 16) as u8,
        xy: (e % 256) as u8,
    }
}

/// The word that `pack` makes of an effect: the command number in the high
/// byte, `x` shifted by four and `y` or-ed into the low bits.
pub open spec fn packed(eff: Effect) -> u16 {
    (kind_code(eff.kind) << 8u16) | ((eff.x as u16) << 4u16) | (eff.y as u16)
}

/// No effect, with a zero parameter.
pub open spec fn zero_effect() -> Effect {
    Effect { kind: Kind::NoEffect, x: 0, y: 0, xy: 0 }
}

impl Effect {
    /// No effect, with a zero parameter.
    pub fn zero() -> (res: Self)
        ensures
            res == zero_effect(),
    {
        Self { kind: Kind::NoEffect, x: 0, y: 0, xy: 0 }
    }

    /// Decodes an effect word.
    pub fn parse(e: u16) -> (res: Self)
        ensures
            res == effect_of(e),
            res.x < 16,
            res.y < 16,
            res.xy == res.x * 16 + res.y,
    {
        let x = ((e >> 4) & 0xf) as u8;
        let y = (e & 0xf) as u8;
        let xy = (e & 0xff) as u8;
        let k = ((e >> 8) & 0xff) as u8;
        assert(((e >> 4u16) & 0xfu16) == (e / 16) % 16 && (e & 0xfu16) == e % 16 && (e & 0xffu16) == e
            % 256 && ((e >> 8u16) & 0xffu16) == e / 256) by (bit_vector);
        Self { kind: Kind::parse(k, xy), x, y, xy }
    }

    /// Encodes the effect as a word: command number, then `x`, then `y`.
    pub fn pack(&self) -> (res: u16)
        ensures
            res == packed(*self),
            self.x < 16 && self.y < 16 ==> res == kind_code(self.kind) * 256 + self.x * 16 + self.y,
    {
        let mut u: u16 = 0;
        u |= self.kind.code() << 8;
        u |= (self.x as u16) << 4;
        u |= self.y as u16;
        let ghost c = kind_code(self.kind);
        let ghost x = self.x;
        let ghost y = self.y;
        assert(0u16 | (c << 8u16) == (c << 8u16)) by (bit_vector);
        assert(c <= 2 && x < 16 && y < 16 ==> ((c << 8u16) | ((x as u16) << 4u16) | (y as u16)) == c
            * 256 + x * 16 + y) by (bit_vector);
        u
    }
}

/// The name of a command, as the player shows it: `Arp` for an arpeggio,
/// `None` for anything else.
pub open spec fn kind_text(k: Kind) -> Seq<char> {
    if k == Kind::Arp { seq!['A', 'r', 'p'] } else { seq!['N', 'o', 'n', 'e'] }
}

/// An effect as the player shows it: its command name, a blank and its
/// parameter byte in decimal.
pub open spec fn effect_text(e: Effect) -> Seq<char> {
    kind_text(e.kind) + seq![' '] + decimal(e.xy as nat)
}

impl Kind {
    /// The name of the command.
    pub fn to_string(&self) -> (res: String)
        ensures
            res@ == kind_text(*self),
    {
        let mut s = String::new();
        match self {
            Kind::Arp => {
                push_str(&mut s, "Arp");
                proof {
                    reveal_strlit("Arp");
                }
            },
            _ => {
                push_str(&mut s, "None");
                proof {
                    reveal_strlit("None");
                }
            },
        }
        assert(s@ =~= kind_text(*self));
        s
    }

    /// Whether the player knows the command byte `k` (0, arpeggio or
    /// nothing, and 0xc, set volume); any other command is read as no
    /// effect.
    pub fn known(k: u8) -> (res: bool)
        ensures
            res == (k == 0 || k == 0xc),
    {
        k == 0 || k == 0xc
    }
}

impl Effect {
    /// The effect as the player shows it.
    pub fn to_string(&self) -> (res: String)
        ensures
            res@ == effect_text(*self),
    {
        let mut s = self.kind.to_string();
        crate::text::push_char(&mut s, ' ');
        push_digits(&mut s, self.xy as u64, 10);
        assert(s@ =~= effect_text(*self));
        s
    }
}

/// Decoding keeps the parameter byte of the word, and packing a decoded
/// word gives back that parameter byte in the low eight bits, with the
/// command number above it.
pub proof fn lemma_pack_parse(e: u16)
    ensures
        packed(effect_of(e)) % 256 == e % 256,
        packed(effect_of(e)) / 256 == kind_code(effect_of(e).kind),
{
    let k = kind_code(effect_of(e).kind);
    let x = ((e / 16) % 16) as u8;
    let y = (e % 16) as u8;
    assert(k <= 2 && x < 16 && y < 16 && x == (e / 16) % 16 && y == e % 16 ==> ((k << 8u16) | ((x as u16)
        << 4u16) | (y as u16)) % 256 == e % 256 && ((k << 8u16) | ((x as u16) << 4u16) | (y as u16)) / 256
        == k) by (bit_vector);
}

/// Packing an effect whose nibbles are in range and decoding the word gives
/// back both nibbles, and the parameter byte made of them.
pub proof fn lemma_parse_pack(eff: Effect)
    requires
        eff.x < 16,
        eff.y < 16,
    ensures
        effect_of(packed(eff)).x == eff.x,
        effect_of(packed(eff)).y == eff.y,
        effect_of(packed(eff)).xy == eff.x * 16 + eff.y,
{
    let k = kind_code(eff.kind);
    let x = eff.x;
    let y = eff.y;
    assert(k <= 2 && x < 16 && y < 16 ==> ((k << 8u16) | ((x as u16) << 4u16) | (y as u16)) == k * 256
        + x * 16 + y) by (bit_vector);
}

/// What each command byte means, whatever its parameter: command 0xc always
/// sets the volume (to 0 as well, which mutes the note), command 0 is an
/// arpeggio exactly when its parameter is not 0, and every other command is
/// no effect.  A decoded word takes its command from the byte above the
/// parameter byte.
pub proof fn lemma_commands(k: u8, xy: u8, e: u16)
    ensures
        k == 0xc ==> kind_of(k, xy) == Kind::SetVolume,
        k == 0 && xy == 0 ==> kind_of(k, xy) == Kind::NoEffect,
        k == 0 && xy != 0 ==> kind_of(k, xy) == Kind::Arp,
        k != 0 && k != 0xc ==> kind_of(k, xy) == Kind::NoEffect,
        e / 256 == 0xc ==> effect_of(e).kind == Kind::SetVolume,
        e / 256 == 0 && e % 256 != 0 ==> effect_of(e).kind == Kind::Arp,
        e / 256 == 0 && e % 256 == 0 ==> effect_of(e).kind == Kind::NoEffect,
        effect_of(e).xy == e % 256,
{
}

} // verus!
