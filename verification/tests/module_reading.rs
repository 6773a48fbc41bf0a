use modcon2::module::{header_lengths_fit, module_size, read, Module, ReadError};
use modcon2::sample::Sample;

/// A header: name, length word, finetune, volume, loop start and loop length words.
fn header(name: &[u8], words: u16, finetune: u8, volume: u8, loop_start: u16, loop_len: u16) -> Vec<u8> {
    let mut h = vec![0u8; 30];
    h[..name.len()].copy_from_slice(name);
    h[22..24].copy_from_slice(&words.to_be_bytes());
    h[24] = finetune;
    h[25] = volume;
    h[26..28].copy_from_slice(&loop_start.to_be_bytes());
    h[28..30].copy_from_slice(&loop_len.to_be_bytes());
    h
}

/// A file with two patterns (table 0, 1, 0, song of 3 positions), sample 1
/// of 2 words at volume 64 and sample 2 of 1 word at volume 32.
fn small_mod() -> Vec<u8> {
    let mut b = Vec::new();
    let mut title = b"test song".to_vec();
    title.resize(20, 0);
    b.extend_from_slice(&title);
    b.extend(header(b"kick", 2, 0, 64, 0, 1));
    b.extend(header(b"snare", 1, 3, 32, 0, 2));
    for _ in 2..31 {
        b.extend(header(b"", 0, 0, 0, 0, 0));
    }
    b.push(3);
    b.push(127);
    let mut table = vec![0u8; 128];
    table[1] = 1;
    b.extend_from_slice(&table);
    b.extend_from_slice(b"M.K.");
    let mut p0 = vec![0u8; 1024];
    // row 0, channel 0: sample 1, period 428 (0x1ac), effect 0c40
    p0[0] = 0x01;
    p0[1] = 0xac;
    p0[2] = 0x1c;
    p0[3] = 0x40;
    b.extend_from_slice(&p0);
    b.extend_from_slice(&vec![0u8; 1024]);
    // sample 1 data: 4 bytes, sample 2 data: 2 bytes
    b.extend_from_slice(&[0x00, 0x7f, 0x80, 0xff]);
    b.extend_from_slice(&[0x00, 0x40]);
    b
}

fn read_ok(bytes: &[u8], check: bool) -> Module {
    match read(bytes, check) {
        Ok(m) => m,
        Err(e) => panic!("unexpected error {:?}", e),
    }
}

#[test]
fn read_small_module() {
    let bytes = small_mod();
    assert!(header_lengths_fit(&bytes));
    let m = read_ok(&bytes, true);
    assert_eq!(m.num_channels, 4);
    assert_eq!(m.title, "test song");
    assert_eq!(m.samples.len(), 31);
    assert_eq!(m.pattern_table, vec![0, 1, 0]);
    assert_eq!(m.patterns.len(), 2);
    assert_eq!(m.patterns[0].data[0..4], [0x01, 0xac, 0x1c, 0x40]);
    assert_eq!(m.patterns[1].ptr, 0);
    let s = &m.samples[0];
    assert_eq!(s.name, "kick");
    assert_eq!(s.length, 4);
    assert_eq!(s.volume, 64);
    assert_eq!(s.loop_length, 1);
    assert!(!s.is_looped());
    assert_eq!(s.data, vec![128, 255, 0, 127]);
    let s2 = &m.samples[1];
    assert_eq!(s2.name, "snare");
    assert_eq!(s2.finetune, 3);
    assert!(s2.is_looped());
    // unsigned 128 and 192, halved by volume 32
    assert_eq!(s2.data, vec![64, 96]);
    assert!(m.samples[5].data.is_empty());
}

#[test]
fn law_song_names_existing_patterns() {
    let m = read_ok(&small_mod(), true);
    for &p in &m.pattern_table {
        assert!((p as usize) < m.patterns.len());
    }
}

#[test]
fn module_size_of_small_module() {
    let bytes = small_mod();
    assert_eq!(module_size(&bytes), Some(bytes.len()));
    assert_eq!(module_size(&bytes[..1000]), None);
}

#[test]
fn truncated_file_is_unexpected_eof() {
    let bytes = small_mod();
    for cut in [0, 19, 20, 500, 950, 951, 1079, 1083, 1084, 2000, bytes.len() - 1] {
        match read(&bytes[..cut], true) {
            Err(ReadError::UnexpectedEof) => {},
            other => panic!("cut {}: {:?}", cut, other.err()),
        }
    }
}

#[test]
fn missing_marker_is_reported_with_its_bytes() {
    let mut bytes = small_mod();
    bytes[1080..1084].copy_from_slice(b"FLT4");
    match read(&bytes, true) {
        Err(ReadError::MissingMagic(m)) => assert_eq!(m, b"FLT4".to_vec()),
        other => panic!("{:?}", other.err()),
    }
    // the marker is checked before the patterns are read
    match read(&bytes[..1090], true) {
        Err(ReadError::MissingMagic(m)) => assert_eq!(m, b"FLT4".to_vec()),
        other => panic!("{:?}", other.err()),
    }
}

#[test]
fn extra_bytes_are_a_length_mismatch_when_checked() {
    let mut bytes = small_mod();
    let end = bytes.len();
    bytes.extend_from_slice(&[1, 2, 3]);
    match read(&bytes, true) {
        Err(ReadError::LengthMismatch { expected, got }) => {
            assert_eq!(expected, end + 3);
            assert_eq!(got, end);
        },
        other => panic!("{:?}", other.err()),
    }
    let m = read_ok(&bytes, false);
    assert_eq!(m.samples[1].data, vec![64, 96]);
}

#[test]
fn song_length_is_cut_at_the_table_size() {
    let mut bytes = small_mod();
    bytes[950] = 200;
    let m = read_ok(&bytes, true);
    assert_eq!(m.pattern_table.len(), 128);
}

#[test]
fn oversized_length_word_is_detected() {
    let mut bytes = small_mod();
    bytes[20 + 30 * 3 + 22] = 0x80;
    assert!(!header_lengths_fit(&bytes));
    assert!(header_lengths_fit(&bytes[..20 + 30 * 3 + 29]));
}

#[test]
fn sample_from_header_bytes() {
    let h = header(b"lead", 0x1234, 5, 48, 0x0010, 0x0020);
    let s = Sample::from_bytes(&h);
    assert_eq!(s.name, "lead");
    assert_eq!(s.length, 0x2468);
    assert_eq!(s.finetune, 5);
    assert_eq!(s.volume, 48);
    assert_eq!(s.loop_offset, 0x10);
    assert_eq!(s.loop_length, 0x20);
    assert!(s.is_looped());
    assert!(s.data.is_empty());
}

#[test]
fn sample_name_without_terminator_runs_into_the_header() {
    let mut h = header(b"", 1, 0x41, 0x42, 0, 0);
    for i in 0..22 {
        h[i] = b'x';
    }
    h[22] = 0;
    let s = Sample::from_bytes(&h);
    assert_eq!(s.name, "x".repeat(22));
    let mut h2 = vec![b'y'; 30];
    h2[22] = 1;
    let s2 = Sample::from_bytes(&h2);
    assert_eq!(s2.name.len(), 30);
}

#[test]
fn non_utf8_title_is_decoded_lossily() {
    let mut bytes = small_mod();
    bytes[0] = 0xff;
    let m = read_ok(&bytes, true);
    assert_eq!(m.title, "\u{fffd}est song");
}

#[test]
fn module_new_has_four_channels() {
    let m = Module::new(String::from("t"), Vec::new(), vec![1], Vec::new());
    assert_eq!(m.num_channels, 4);
    assert_eq!(m.pattern_table, vec![1]);
}
