use modcon2::effect::{Effect, Kind};
use modcon2::note::from_period;

#[test]
fn kind_parse_commands() {
    assert_eq!(Kind::parse(0, 0), Kind::NoEffect);
    assert_eq!(Kind::parse(0, 0x37), Kind::Arp);
    assert_eq!(Kind::parse(0xc, 0x40), Kind::SetVolume);
    assert_eq!(Kind::parse(0xf, 0x06), Kind::NoEffect);
    assert_eq!(Kind::parse(0x1, 0), Kind::NoEffect);
}

#[test]
fn effect_parse_set_volume() {
    let e = Effect::parse(0x0c40);
    assert_eq!(e.kind, Kind::SetVolume);
    assert_eq!(e.x, 4);
    assert_eq!(e.y, 0);
    assert_eq!(e.xy, 0x40);
}

#[test]
fn effect_parse_arpeggio() {
    let e = Effect::parse(0x0037);
    assert_eq!(e.kind, Kind::Arp);
    assert_eq!((e.x, e.y, e.xy), (3, 7, 0x37));
}

#[test]
fn effect_parse_zero_and_unknown() {
    assert_eq!(Effect::parse(0), Effect::zero());
    let e = Effect::parse(0x0f06);
    assert_eq!(e.kind, Kind::NoEffect);
    assert_eq!(e.xy, 6);
}

#[test]
fn effect_zero_is_plain() {
    let z = Effect::zero();
    assert_eq!(z.kind, Kind::NoEffect);
    assert_eq!((z.x, z.y, z.xy), (0, 0, 0));
    assert_eq!(z.pack(), 0);
}

#[test]
fn effect_pack_writes_command_number() {
    assert_eq!(Effect::parse(0x0037).pack(), 0x0137);
    assert_eq!(Effect::parse(0x0c40).pack(), 0x0240);
    assert_eq!(Kind::Arp.code(), 1);
    assert_eq!(Kind::SetVolume.code(), 2);
}

#[test]
fn law_pack_keeps_parameter_byte() {
    for e in [0u16, 0x0037, 0x0c40, 0x0f06, 0x0aff, 0xffff] {
        let p = Effect::parse(e).pack();
        assert_eq!(p & 0xff, e & 0xff);
        assert_eq!(p >> 8, Effect::parse(e).kind.code());
    }
}

#[test]
fn law_parse_pack_keeps_nibbles() {
    let eff = Effect { kind: Kind::SetVolume, x: 9, y: 14, xy: 0 };
    let back = Effect::parse(eff.pack());
    assert_eq!((back.x, back.y, back.xy), (9, 14, 0x9e));
}

#[test]
fn note_of_period_zero_is_blank() {
    assert_eq!(from_period(0).unwrap(), "   ");
}

#[test]
fn note_names_of_the_table() {
    assert_eq!(from_period(856).unwrap(), "C-4");
    assert_eq!(from_period(808).unwrap(), "C#4");
    assert_eq!(from_period(453).unwrap(), "B-4");
    assert_eq!(from_period(428).unwrap(), "C-5");
    assert_eq!(from_period(360).unwrap(), "D#5");
    assert_eq!(from_period(214).unwrap(), "C-6");
    assert_eq!(from_period(143).unwrap(), "G-6");
    assert_eq!(from_period(113).unwrap(), "B-6");
}

#[test]
fn note_of_unknown_period_is_an_error() {
    assert_eq!(from_period(100).unwrap_err(), "unknown period: 100");
    assert_eq!(from_period(857).unwrap_err(), "unknown period: 857");
    assert_eq!(from_period(4095).unwrap_err(), "unknown period: 4095");
}

#[test]
fn law_known_periods_have_distinct_names() {
    let mut names = Vec::new();
    for p in 0..4096u16 {
        if let Ok(n) = from_period(p) {
            assert!(!names.contains(&n));
            names.push(n);
        }
    }
    assert_eq!(names.len(), 37);
}
