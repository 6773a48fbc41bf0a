use modcon2::channel::Channel;
use modcon2::effect::{Effect, Kind};
use modcon2::module::{read, Module};
use modcon2::pattern::Pattern;
use modcon2::player::{can_plan_row, contains, plan_row, Song, SongStep};
use modcon2::sample::Sample;

fn cell(sample: u8, period: u16, effect: u16) -> [u8; 4] {
    [
        (sample & 0xf0) | ((period >> 8) as u8 & 0x0f),
        (period & 0xff) as u8,
        ((sample & 0x0f) << 4) | ((effect >> 8) as u8 & 0x0f),
        (effect & 0xff) as u8,
    ]
}

fn pattern_with(cells: &[(usize, usize, [u8; 4])]) -> Pattern {
    let mut data = [0u8; 1024];
    for (row, ch, c) in cells {
        let at = row * 16 + ch * 4;
        data[at..at + 4].copy_from_slice(c);
    }
    Pattern::new(data)
}

#[test]
fn pattern_decodes_a_row() {
    let mut p = pattern_with(&[(0, 0, cell(0x1f, 428, 0x0c20)), (0, 3, cell(2, 856, 0x0037))]);
    assert!(p.can_advance());
    let (row, chans) = p.next().unwrap();
    assert_eq!(row, 0);
    assert_eq!(chans.len(), 4);
    assert_eq!(chans[0].sample, 0x1f);
    assert_eq!(chans[0].period, 428);
    assert_eq!(chans[0].note, "C-5");
    assert_eq!(chans[0].effect.kind, Kind::SetVolume);
    assert_eq!(chans[0].effect.xy, 0x20);
    assert_eq!(chans[1].note, "   ");
    assert_eq!(chans[1].sample, 0);
    assert_eq!(chans[3].sample, 2);
    assert_eq!(chans[3].note, "C-4");
    assert_eq!(chans[3].effect.kind, Kind::Arp);
    assert_eq!(p.ptr, 16);
}

#[test]
fn law_pattern_plays_sixty_four_rows_then_rewinds() {
    let mut p = pattern_with(&[(63, 1, cell(1, 214, 0))]);
    for k in 0..64 {
        let (row, chans) = p.next().unwrap();
        assert_eq!(row, k);
        if k == 63 {
            assert_eq!(chans[1].note, "C-6");
        }
    }
    assert!(p.next().is_none());
    assert_eq!(p.ptr, 0);
    assert_eq!(p.next().unwrap().0, 0);
}

#[test]
fn unknown_period_stops_the_pattern() {
    let p = pattern_with(&[(0, 2, cell(1, 100, 0))]);
    assert!(!p.can_advance());
    let mut q = pattern_with(&[]);
    q.ptr = 1010;
    assert!(!q.can_advance());
    q.ptr = 2000;
    assert!(q.can_advance());
    assert!(q.next().is_none());
    assert_eq!(q.ptr, 0);
}

fn sample(name: &str, data: Vec<u8>, loop_offset: u16, loop_length: u16) -> Sample {
    Sample {
        name: String::from(name),
        length: data.len() as u16,
        finetune: 0,
        volume: 64,
        loop_offset,
        loop_length,
        data,
    }
}

fn chan(sample: u8, period: u16) -> Channel {
    Channel { note: String::from("..."), sample, period, effect: Effect::zero() }
}

#[test]
fn plan_row_latches_named_samples() {
    let samples = vec![sample("a", vec![1, 2], 0, 0), sample("b", vec![3, 4, 5], 1, 2)];
    let channels = vec![chan(2, 428), chan(0, 0), chan(1, 214), chan(2, 113)];
    let mut ids = vec![0usize; 4];
    let enabled = vec![0, 1, 2];
    assert!(can_plan_row(&samples, &channels, &ids));
    let latches = plan_row(&samples, &channels, &mut ids, &enabled);
    assert_eq!(latches.len(), 2);
    assert_eq!(latches[0].channel, 0);
    assert_eq!(latches[0].source_id, 1);
    assert_eq!(latches[0].source.name, "b");
    assert_eq!(latches[0].source.samples, vec![3, 4, 5]);
    assert!(latches[0].source.loop_it);
    assert_eq!(latches[0].source.loop_offset, 1);
    assert_eq!(latches[0].source.loop_length, 2);
    assert_eq!(latches[0].source.period, 428);
    assert_eq!(latches[1].channel, 2);
    assert_eq!(latches[1].source.name, "a");
    assert!(!latches[1].source.loop_it);
    // channel 3 is not enabled, channel 1 has no note
    assert_eq!(ids, vec![1, 0, 0, 0]);
}

#[test]
fn plan_row_continues_the_playing_sample() {
    let samples = vec![sample("a", vec![1], 0, 0), sample("b", vec![7, 8], 0, 0)];
    let channels = vec![chan(0, 856)];
    let mut ids = vec![1usize, 0, 0, 0];
    let latches = plan_row(&samples, &channels, &mut ids, &vec![0]);
    assert_eq!(latches.len(), 1);
    // the data of the playing sample, the name of sample 0
    assert_eq!(latches[0].source.samples, vec![7, 8]);
    assert_eq!(latches[0].source.name, "a");
    assert_eq!(latches[0].source_id, 0);
    assert_eq!(ids[0], 0);
}

#[test]
fn plan_row_needs_existing_samples() {
    let samples = vec![sample("a", vec![1], 0, 0)];
    let ids = vec![0usize; 4];
    assert!(!can_plan_row(&samples, &vec![chan(5, 428)], &ids));
    assert!(can_plan_row(&samples, &vec![chan(5, 0)], &ids));
    assert!(!can_plan_row(&Vec::new(), &vec![chan(0, 0)], &ids));
    let five: Vec<Channel> = (0..5).map(|_| chan(0, 0)).collect();
    assert!(!can_plan_row(&samples, &five, &ids));
}

#[test]
fn contains_finds_values() {
    assert!(contains(&vec![3, 1, 2], 1));
    assert!(!contains(&vec![3, 1, 2], 0));
    assert!(!contains(&Vec::new(), 0));
}

fn two_pattern_module() -> Module {
    let mut b = Vec::new();
    b.extend_from_slice(&[b'x'; 20]);
    for _ in 0..31 {
        b.extend_from_slice(&[0u8; 30]);
    }
    b.push(2);
    b.push(0);
    let mut table = vec![0u8; 128];
    table[0] = 1;
    table[1] = 0;
    b.extend_from_slice(&table);
    b.extend_from_slice(b"M.K.");
    b.extend_from_slice(&vec![0u8; 2048]);
    match read(&b, true) {
        Ok(m) => m,
        Err(e) => panic!("{:?}", e),
    }
}

#[test]
fn song_walks_positions_and_rows() {
    let mut m = two_pattern_module();
    let mut song = Song::new();
    let mut steps = Vec::new();
    loop {
        assert!(song.can_step(&m));
        match song.step(&mut m) {
            SongStep::Position { index, pattern } => steps.push(format!("P{}:{}", index, pattern)),
            SongStep::Row { row, channels, .. } => {
                assert_eq!(channels.len(), 4);
                if row == 0 || row == 63 {
                    steps.push(format!("R{}", row));
                }
            },
            SongStep::End => break,
        }
    }
    assert_eq!(steps, vec!["P0:1", "R0", "R63", "P1:0", "R0", "R63"]);
    assert!(matches!(song.step(&mut m), SongStep::End));
    assert_eq!(m.patterns[0].ptr, 0);
    assert_eq!(m.patterns[1].ptr, 0);
}
