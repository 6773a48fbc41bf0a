use modcon2::config::{interval_millis, parse_channels, parse_u64, parse_usize, player_channels};
use modcon2::effect::{Effect, Kind};
use modcon2::hexdump::hex_dump_buffer;
use modcon2::module::Module;
use modcon2::pattern::Pattern;
use modcon2::player::{Song, SongStep};
use modcon2::sample::Sample;
use modcon2::{track, tracker};

#[test]
fn kind_and_effect_texts() {
    assert_eq!(Kind::Arp.to_string(), "Arp");
    assert_eq!(Kind::NoEffect.to_string(), "None");
    assert_eq!(Kind::SetVolume.to_string(), "None");
    assert_eq!(Effect::parse(0x0037).to_string(), "Arp 55");
    assert_eq!(Effect::parse(0x0c40).to_string(), "None 64");
    assert!(Kind::known(0));
    assert!(Kind::known(0xc));
    assert!(!Kind::known(0xf));
}

fn sample(name: &str) -> Sample {
    Sample { name: String::from(name), length: 12, finetune: 1, volume: 64, loop_offset: 2, loop_length: 3, data: Vec::new() }
}

#[test]
fn sample_text_lists_the_header() {
    assert_eq!(
        sample("kick").to_string(),
        "name: [kick] (4)\n  length:      [12]\n  finetune:    [1]\n  volume:      [64]\n  loop offset: [2]\n  loop length: [3]\n"
    );
    // the length counts bytes
    assert!(sample("é").to_string().starts_with("name: [é] (2)\n"));
}

#[test]
fn module_text_lists_the_samples() {
    let m = Module::new(String::from("song"), vec![sample("a"), sample("bb")], vec![0], Vec::new());
    assert_eq!(m.to_string(), "title: [song] (4)\n  sample 00: [a]\n  sample 01: [bb]");
}

#[test]
fn other_module_texts() {
    let mut name = [0u8; 22];
    name[0] = b'z';
    let t = tracker::Module {
        title: String::from("t"),
        samples: vec![tracker::Sample { name, length: 0, finetune: 0, volume: 0, loop_offset: 0, loop_length: 0 }],
    };
    assert_eq!(t.to_string(), format!("title: [t]\n  sample 00: [z{}]", "\0".repeat(21)));
    let h = track::SampleHeader { name, length: 0, finetune: 0, volume: 0, loop_offset: 0, loop_length: 0 };
    let m = track::Module {
        title: String::from("u"),
        pattern_table: Vec::new(),
        patterns: Vec::new(),
        samples: vec![track::Sample { header: h, data: Vec::new() }],
        pattern_ptr: 0,
    };
    assert_eq!(m.to_string(), format!("title: [u]\n  sample 00: [z{}]", "\0".repeat(21)));
}

#[test]
fn numbers_as_parse_reads_them() {
    assert_eq!(parse_u64("20"), Some(20));
    assert_eq!(parse_u64("+7"), Some(7));
    assert_eq!(parse_u64("007"), Some(7));
    assert_eq!(parse_u64("18446744073709551615"), Some(u64::MAX));
    assert_eq!(parse_u64("18446744073709551616"), None);
    assert_eq!(parse_u64(""), None);
    assert_eq!(parse_u64("+"), None);
    assert_eq!(parse_u64("-1"), None);
    assert_eq!(parse_u64(" 1"), None);
    assert_eq!(parse_u64("1x"), None);
    assert_eq!(parse_usize("3"), Some(3));
    for t in ["0", "+12", "99999999999999999999", "a", "", "4 ", "١"] {
        assert_eq!(parse_u64(t), t.parse::<u64>().ok());
        assert_eq!(parse_usize(t), t.parse::<usize>().ok());
    }
}

#[test]
fn channel_lists() {
    assert_eq!(parse_channels("0,2"), vec![0, 2]);
    assert_eq!(parse_channels("1,,x,3,"), vec![1, 3]);
    assert_eq!(parse_channels(""), Vec::<usize>::new());
    assert_eq!(player_channels(None), vec![0, 1, 2, 3]);
    assert_eq!(player_channels(Some("3")), vec![3]);
    for t in ["0,1", " 1,2", "+1,-2,3", ",,,", "9,8,7,6,5"] {
        let expected: Vec<usize> = t.split(',').filter_map(|s| s.parse::<usize>().ok()).collect();
        assert_eq!(parse_channels(t), expected);
    }
}

#[test]
fn interval_is_six_ticks() {
    assert_eq!(interval_millis(20), 120);
    assert_eq!(interval_millis(0), 0);
}

#[test]
fn law_pattern_replays_its_rows() {
    let mut data = [0u8; 1024];
    for i in 0..64 {
        // row i, channel 0: sample i % 16 + 1, period 428
        data[i * 16] = 0x01;
        data[i * 16 + 1] = 0xac;
        data[i * 16 + 2] = (((i % 16) as u8 + 1) & 0x0f) << 4;
    }
    let mut p = Pattern::new(data);
    let mut first = Vec::new();
    for _ in 0..64 {
        let (row, chans) = p.next().unwrap();
        first.push((row, chans[0].sample, chans[0].note.clone()));
    }
    assert!(p.next().is_none());
    for k in 0..64 {
        let (row, chans) = p.next().unwrap();
        assert_eq!((row, chans[0].sample, chans[0].note.clone()), first[k]);
    }
    assert!(p.next().is_none());
}

#[test]
fn unknown_commands_of_a_row() {
    let mut data = [0u8; 1024];
    data[2] = 0x0f;
    data[6] = 0x0c;
    data[14] = 0x03;
    let p = Pattern::new(data);
    assert_eq!(p.unknown_commands(), vec![0x0f, 0x03]);
    let mut q = Pattern::new(data);
    q.ptr = 1024;
    assert!(q.unknown_commands().is_empty());
}

#[test]
fn song_rows_report_unknown_commands() {
    let mut data = [0u8; 1024];
    data[2] = 0x0a;
    let mut m = Module::new(String::from("m"), Vec::new(), vec![0], vec![Pattern::new(data)]);
    let mut song = Song::new();
    assert!(matches!(song.step(&mut m), SongStep::Position { index: 0, pattern: 0 }));
    match song.step(&mut m) {
        SongStep::Row { row, unknown_commands, .. } => {
            assert_eq!(row, 0);
            assert_eq!(unknown_commands, vec![0x0a]);
        },
        _ => panic!("expected a row"),
    }
}

#[test]
fn law_hex_dump_count_is_modulo_seventeen() {
    let chunk: Vec<u8> = (0..40u8).collect();
    let mut text = vec![100u8, 101];
    let mut c = 2usize;
    hex_dump_buffer(&chunk, &mut text, &mut c);
    assert_eq!(c, (2 + 40) % 17);
    let mut all = vec![100u8, 101];
    all.extend_from_slice(&chunk);
    assert_eq!(text, all[all.len() - c..].to_vec());
}
