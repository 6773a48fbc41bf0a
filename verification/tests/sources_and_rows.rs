use modcon2::channel::Channel;
use modcon2::effect::Effect;
use modcon2::formatter::RowFormatter;
use modcon2::module::Module;
use modcon2::pcm::Source;
use modcon2::sound::RawPcmSource;
use modcon2::track;
use modcon2::tracker;

fn plays(s: &mut Source, n: usize) -> Vec<Option<usize>> {
    (0..n).map(|_| s.next_index()).collect()
}

#[test]
fn law_source_once_plays_in_order_then_ends() {
    let mut s = Source::new(String::from("x"), &[10, 20, 30], 428, false, 0, 0, Effect::zero()).unwrap();
    assert_eq!(s.sample_end, 3);
    assert_eq!(plays(&mut s, 5), vec![Some(0), Some(1), Some(2), None, None]);
}

#[test]
fn law_looping_source_repeats_its_loop() {
    // loop from position 2, one word (two values) long
    let mut s = Source::new(String::from("x"), &[1, 2, 3, 4, 5, 6], 428, true, 2, 1, Effect::zero()).unwrap();
    assert_eq!(
        plays(&mut s, 12),
        vec![Some(0), Some(1), Some(2), Some(3), Some(4), Some(5), Some(2), Some(3), Some(2), Some(3), Some(2), Some(3)]
    );
    assert_eq!(s.sample_end, 4);
}

#[test]
fn empty_source_plays_nothing() {
    let mut z = Source::zero();
    assert_eq!(z.sample_end, 1);
    assert!(z.name.is_empty());
    assert_eq!(plays(&mut z, 2), vec![None, None]);
    let mut e = Source::new(String::new(), &[], 100, true, 0, 4, Effect::zero()).unwrap();
    assert_eq!(plays(&mut e, 2), vec![None, None]);
}

fn raw(data: Vec<u8>, loop_it: bool, ptr: usize) -> RawPcmSource {
    RawPcmSource { samples: data, sample_rate: 8287, taken: 0, loop_it, ptr, name: String::from("r") }
}

#[test]
fn raw_source_plays_once() {
    let mut r = raw(vec![5, 6], false, 0);
    assert_eq!(r.next_byte(), Some(5));
    assert_eq!(r.next_byte(), Some(6));
    assert_eq!(r.next_byte(), None);
    assert_eq!(r.taken, 2);
    assert_eq!(r.ptr, 2);
}

#[test]
fn law_looping_raw_source_never_ends() {
    let mut r = raw(vec![5, 6, 7], true, 0);
    let got: Vec<Option<u8>> = (0..7).map(|_| r.next_byte()).collect();
    assert_eq!(got, vec![Some(5), Some(6), Some(7), Some(5), Some(6), Some(7), Some(5)]);
    assert_eq!(r.taken, 7);
    let mut e = raw(Vec::new(), true, 0);
    assert_eq!(e.next_byte(), None);
}

#[test]
fn raw_source_advance_wraps_or_stops() {
    let mut r = raw(vec![0; 10], true, 7);
    r.advance(5);
    assert_eq!(r.ptr, 2);
    let mut s = raw(vec![0; 10], false, 7);
    s.advance(5);
    assert_eq!(s.ptr, 10);
    let mut t = raw(vec![0; 10], false, 2);
    t.advance(8);
    assert_eq!(t.ptr, 10);
    let mut u = raw(Vec::new(), true, 3);
    u.advance(100);
    assert_eq!(u.ptr, 3);
}

fn module_with_song(len: usize) -> Module {
    Module::new(String::from("m"), Vec::new(), vec![0; len], Vec::new())
}

#[test]
fn row_prefix_names_position_and_pattern() {
    let m = module_with_song(42);
    let mut f = RowFormatter::new(&m);
    assert_eq!(f.pattern_table_len, 41);
    assert!(f.prefix.is_empty());
    f.set_prefix(7, 12);
    assert_eq!(f.prefix, "007/041 P12");
    f.set_prefix(1234, 3);
    assert_eq!(f.prefix, "1234/041 P03");
}

fn channel(note: &str, sample: u8, period: u16, effect: u16) -> Channel {
    Channel { note: String::from(note), sample, period, effect: Effect::parse(effect) }
}

#[test]
fn rows_with_and_without_colours() {
    colored::control::set_override(false);
    let m = module_with_song(3);
    let mut f = RowFormatter::new(&m);
    f.set_prefix(1, 2);
    let chans = vec![channel("C-5", 0x1f, 428, 0x0c20), channel("   ", 0, 0, 0)];
    let row = f.format_row(5, &chans);
    let expected = format!("001/002 P02 R05:|C-5 1fh 428 0220h|{}|", " ".repeat(17));
    assert_eq!(row, expected);

    colored::control::set_override(true);
    let m = module_with_song(1);
    let mut f = RowFormatter::new(&m);
    f.set_prefix(0, 0);
    let row = f.format_row(0, &[channel("   ", 0, 0, 0)]);
    let cell = "\u{1b}[31m|\u{1b}[0m\u{1b}[93m   \u{1b}[0m \u{1b}[36m   \u{1b}[0m \u{1b}[2m   \u{1b}[0m \u{1b}[32m     \u{1b}[0m";
    let blue_cell = cell.replace("\u{1b}[0m", "\u{1b}[0m\u{1b}[34m");
    let expected = format!(
        "\u{1b}[2m000/000 P00\u{1b}[0m \u{1b}[34mR00:{}\u{1b}[0m\u{1b}[31m|\u{1b}[0m",
        blue_cell
    );
    colored::control::unset_override();
    assert_eq!(row, expected);
}

fn tracker_bytes() -> Vec<u8> {
    let mut b = b"little endian title!".to_vec();
    for i in 0..16u8 {
        let mut h = vec![0u8; 30];
        h[0] = b'a' + i;
        h[22] = 0x34;
        h[23] = 0x12;
        h[24] = i;
        h[25] = 64;
        h[26] = 1;
        h[28] = 2;
        b.extend(h);
    }
    b
}

#[test]
fn tracker_reads_little_endian_headers() {
    let bytes = tracker_bytes();
    let m = tracker::read_module(&bytes).unwrap();
    assert_eq!(m.title, "little endian title!");
    assert_eq!(m.samples.len(), 16);
    assert_eq!(m.samples[3].name[0], b'd');
    assert_eq!(m.samples[3].length, 0x1234);
    assert_eq!(m.samples[3].finetune, 3);
    assert_eq!(m.samples[3].loop_offset, 1);
    assert_eq!(m.samples[3].loop_length, 2);
    assert!(tracker::read_module(&bytes[..499]).is_err());
}

#[test]
fn track_reads_whole_file() {
    let mut b = vec![b'T'; 20];
    for i in 0..31 {
        let mut h = vec![0u8; 30];
        if i == 0 {
            h[23] = 2;
            h[25] = 10;
        }
        b.extend(h);
    }
    b.push(1);
    b.push(0);
    b.extend_from_slice(&vec![0u8; 128]);
    b.extend_from_slice(b"M.K.");
    b.extend_from_slice(&vec![0u8; 1024]);
    b.extend_from_slice(&[0x00, 0x7f, 0x80, 0xff]);
    let m = track::read_module(&b).unwrap();
    assert_eq!(m.title, "TTTTTTTTTTTTTTTTTTTT");
    assert_eq!(m.pattern_table.len(), 128);
    assert_eq!(m.patterns.len(), 1);
    assert_eq!(m.samples[0].header.length, 4);
    assert_eq!(m.samples[0].header.volume, 10);
    // no volume scaling here
    assert_eq!(m.samples[0].data, vec![128, 255, 0, 127]);
    assert!(track::read_module(&b[..b.len() - 1]).is_err());
    let mut bad = b.clone();
    bad[1081] = b'X';
    assert!(matches!(track::read_module(&bad), Err(modcon2::module::ReadError::MissingMagic(_))));
}

#[test]
fn track_header_from_bytes() {
    let mut h = vec![0u8; 30];
    h[0] = b'n';
    h[22] = 0x01;
    h[23] = 0x02;
    h[26] = 0x03;
    h[29] = 0x04;
    let s = track::SampleHeader::from_bytes(&h);
    assert_eq!(s.name[0], b'n');
    assert_eq!(s.length, 0x0204);
    assert_eq!(s.loop_offset, 0x0300);
    assert_eq!(s.loop_length, 4);
}
