use beatmap::read_aligned_str;
use beatmap::write_aligned_str;
use beatmap::Beatmap;
use beatmap::Difficulties;
use beatmap::Difficulty;
use beatmap::Pointer;
use beatmap::ReadError;

fn sample_pointer(file: i32, path: i64) -> Pointer {
    Pointer { file, path }
}

fn sample_difficulty(seed: i32) -> Difficulty {
    Difficulty {
        difficulty: seed,
        rank: seed + 1,
        note_jump: 0x41200000, // bit pattern of the 32-bit float 10.0
        note_jump_offset: -seed,
        beatmap: sample_pointer(seed, (seed as i64) << 33),
    }
}

fn sample_beatmap() -> Beatmap {
    Beatmap {
        game_obj: sample_pointer(1, 2),
        enabled: 1,
        script: sample_pointer(3, -4),
        name: String::from("BeatmapLevel!"),
        id: String::from("custom_level_x"),
        song_name: String::from("Song!"),
        song_sub_name: String::from("(live)"),
        song_author_name: String::from("Artist!"),
        author: String::from("Mapper!"),
        audio_clip: sample_pointer(-5, 6),
        bpm: 0x43160000,          // 150.0
        time_offset: 0,           // 0.0
        shuffle: 0x3f000000,      // 0.5
        shuffle_period: 0x3f000000,
        preview_start: 0x41400000, // 12.0
        preview_len: 0x41200000,   // 10.0
        cover: sample_pointer(7, 8),
        environment: sample_pointer(9, 10),
        difficulties: Difficulties { vec: vec![sample_difficulty(1), sample_difficulty(2)], size: 2 },
    }
}

#[test]
fn aligned_str_short_string_layout() {
    let mut out: Vec<u8> = Vec::new();
    write_aligned_str(&mut out, "abc");
    assert_eq!(out, vec![3, 0, 0, 0, b'a', b'b', b'c', 0]);
}

#[test]
fn aligned_str_exact_multiple_gets_full_pad() {
    let mut out: Vec<u8> = Vec::new();
    write_aligned_str(&mut out, "abcd");
    assert_eq!(out, vec![4, 0, 0, 0, b'a', b'b', b'c', b'd', 0, 0, 0, 0]);
}

#[test]
fn aligned_str_empty_string_is_eight_zero_bytes() {
    let mut out: Vec<u8> = Vec::new();
    write_aligned_str(&mut out, "");
    assert_eq!(out, vec![0u8; 8]);
}

#[test]
fn aligned_str_total_length_is_multiple_of_four() {
    for s in ["", "a", "ab", "abc", "abcd", "abcde", "déjà vu"] {
        let mut out: Vec<u8> = Vec::new();
        write_aligned_str(&mut out, s);
        assert_eq!(out.len() % 4, 0, "length {} for {:?}", out.len(), s);
    }
}

#[test]
fn aligned_str_round_trip() {
    for s in ["", "a", "ab", "abc", "abcd", "hello", "déjà vu", "ナイト"] {
        let mut out: Vec<u8> = Vec::new();
        write_aligned_str(&mut out, s);
        let (back, _end) = read_aligned_str(&out, 0).expect("read back");
        assert_eq!(back, s);
    }
}

#[test]
fn aligned_str_reader_skips_nothing_on_exact_multiple() {
    let mut out: Vec<u8> = Vec::new();
    write_aligned_str(&mut out, "abcd");
    // The writer emitted 12 bytes, but the reader stops after the content:
    // it never skips padding when the length is a multiple of four.
    let (back, end) = read_aligned_str(&out, 0).expect("read back");
    assert_eq!(back, "abcd");
    assert_eq!(end, 8);
    assert_eq!(out.len(), 12);
}

#[test]
fn aligned_str_reader_tolerates_missing_padding() {
    // One content byte and no padding at all: the reader ignores the
    // truncated padding and still returns the string.
    let data = [1u8, 0, 0, 0, b'a'];
    let (back, end) = read_aligned_str(&data, 0).expect("read back");
    assert_eq!(back, "a");
    assert_eq!(end, 5);
}

#[test]
fn aligned_str_invalid_utf8_is_invalid_data() {
    let data = [2u8, 0, 0, 0, 0xff, 0xfe, 0, 0];
    assert!(matches!(read_aligned_str(&data, 0), Err(ReadError::InvalidData)));
}

#[test]
fn aligned_str_truncated_content_is_truncated() {
    let data = [5u8, 0, 0, 0, b'a'];
    assert!(matches!(read_aligned_str(&data, 0), Err(ReadError::Truncated)));
}

#[test]
fn aligned_str_truncated_prefix_is_truncated() {
    let data = [5u8, 0];
    assert!(matches!(read_aligned_str(&data, 0), Err(ReadError::Truncated)));
}

#[test]
fn pointer_wire_layout_is_little_endian() {
    let p = sample_pointer(1, 2);
    let mut out: Vec<u8> = Vec::new();
    p.write(&mut out);
    assert_eq!(out, vec![1, 0, 0, 0, 2, 0, 0, 0, 0, 0, 0, 0]);
}

#[test]
fn pointer_round_trip() {
    for p in [
        sample_pointer(0, 0),
        sample_pointer(-1, -1),
        sample_pointer(i32::MIN, i64::MIN),
        sample_pointer(i32::MAX, i64::MAX),
        sample_pointer(123, -456789),
    ] {
        let mut out: Vec<u8> = Vec::new();
        p.write(&mut out);
        assert_eq!(out.len(), 12);
        let (back, end) = Pointer::read(&out, 0).expect("read back");
        assert_eq!(back, p);
        assert_eq!(end, 12);
    }
}

#[test]
fn pointer_truncated_is_truncated() {
    let data = [0u8; 11];
    assert!(matches!(Pointer::read(&data, 0), Err(ReadError::Truncated)));
}

#[test]
fn difficulty_round_trip() {
    let d = sample_difficulty(3);
    let mut out: Vec<u8> = Vec::new();
    d.write(&mut out);
    assert_eq!(out.len(), 28);
    let (back, end) = Difficulty::read(&out, 0).expect("read back");
    assert_eq!(back, d);
    assert_eq!(end, 28);
}

#[test]
fn difficulties_round_trip() {
    let ds = Difficulties { vec: vec![sample_difficulty(1), sample_difficulty(9)], size: 2 };
    let mut out: Vec<u8> = Vec::new();
    ds.write(&mut out);
    assert_eq!(out.len(), 4 + 2 * 28);
    let (back, end) = Difficulties::read(&out, 0).expect("read back");
    assert_eq!(back, ds);
    assert_eq!(end, out.len());
}

#[test]
fn difficulties_read_trusts_stored_count() {
    // A stored count of three with only two records present: the reader
    // believes the stream and fails on the missing third record.
    let ds = Difficulties { vec: vec![sample_difficulty(1), sample_difficulty(2)], size: 3 };
    let mut out: Vec<u8> = Vec::new();
    ds.write(&mut out);
    assert!(matches!(Difficulties::read(&out, 0), Err(ReadError::Truncated)));
}

#[test]
fn beatmap_round_trip() {
    let b = sample_beatmap();
    let bytes = b.to_bytes().expect("all strings fit");
    let (back, end) = Beatmap::read(&bytes, 0).expect("read back");
    assert_eq!(back, b);
    assert_eq!(end, bytes.len());
}

#[test]
fn beatmap_round_trip_at_offset() {
    let b = sample_beatmap();
    let mut data = vec![0xAAu8; 7];
    let bytes = b.to_bytes().expect("all strings fit");
    data.extend_from_slice(&bytes);
    data.extend_from_slice(&[0xBB, 0xCC]);
    let (back, end) = Beatmap::read(&data, 7).expect("read back");
    assert_eq!(back, b);
    assert_eq!(end, 7 + bytes.len());
}

#[test]
fn beatmap_byte_layout_prefix() {
    let b = sample_beatmap();
    let bytes = b.to_bytes().expect("all strings fit");
    // game_obj pointer, enabled flag, script pointer, then the first
    // string's length prefix.
    assert_eq!(&bytes[0..4], &[1, 0, 0, 0]);
    assert_eq!(&bytes[12..16], &[1, 0, 0, 0]);
    assert_eq!(&bytes[16..20], &[3, 0, 0, 0]);
    assert_eq!(&bytes[28..32], &[13, 0, 0, 0]); // "BeatmapLevel!" has 13 bytes
}

#[test]
fn beatmap_invalid_utf8_string_is_invalid_data() {
    let b = sample_beatmap();
    let mut bytes = b.to_bytes().expect("all strings fit");
    // Corrupt the first byte of the name's content.
    bytes[32] = 0xff;
    assert!(matches!(Beatmap::read(&bytes, 0), Err(ReadError::InvalidData)));
}

#[test]
fn beatmap_truncated_is_truncated() {
    let b = sample_beatmap();
    let bytes = b.to_bytes().expect("all strings fit");
    let cut = &bytes[0..bytes.len() - 1];
    assert!(matches!(Beatmap::read(cut, 0), Err(ReadError::Truncated)));
}

#[test]
fn beatmap_multiple_of_four_string_desynchronizes_reader() {
    // A string whose byte length is a multiple of four is written with a
    // full 4-byte pad that the reader does not skip, so the rest of the
    // record goes out of step: the reader does not get the record back.
    let mut b = sample_beatmap();
    b.name = String::from("abcd");
    let bytes = b.to_bytes().expect("all strings fit");
    match Beatmap::read(&bytes, 0) {
        Ok((back, _)) => assert_ne!(back, b),
        Err(_) => {}
    }
}
