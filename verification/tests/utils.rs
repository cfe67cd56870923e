use organum::utau::{decode_pitchbend, decode_utau_char, note_to_midi, XorShift32};

#[test]
fn test_note_to_midi() {
    assert_eq!(note_to_midi("C4"), 60);
    assert_eq!(note_to_midi("A4"), 69);
    assert_eq!(note_to_midi("C#4"), 61);
    assert_eq!(note_to_midi("Bb4"), 70);
    assert_eq!(note_to_midi("G-1"), 7);
    assert_eq!(note_to_midi(" "), 60); // empty fallback
}

#[test]
fn note_to_midi_trims_defaults_octave_and_falls_back() {
    assert_eq!(note_to_midi("  a#3\t"), 58);
    assert_eq!(note_to_midi("c"), 60);
    assert_eq!(note_to_midi("a"), 69);
    assert_eq!(note_to_midi("Ab"), 68);
    // Names that do not parse give middle C.
    assert_eq!(note_to_midi("X5"), 60);
    assert_eq!(note_to_midi("X"), 60);
    assert_eq!(note_to_midi("C--4"), 60);
    assert_eq!(note_to_midi("D4-"), 60);
    assert_eq!(note_to_midi(""), 60);
}

#[test]
fn decode_utau_char_covers_alphabet() {
    assert_eq!(decode_utau_char('A'), 0);
    assert_eq!(decode_utau_char('Z'), 25);
    assert_eq!(decode_utau_char('a'), 26);
    assert_eq!(decode_utau_char('z'), 51);
    assert_eq!(decode_utau_char('0'), 52);
    assert_eq!(decode_utau_char('9'), 61);
    assert_eq!(decode_utau_char('+'), 62);
    assert_eq!(decode_utau_char('/'), 63);
    assert_eq!(decode_utau_char('#'), -1);
}

#[test]
fn decode_pitchbend_pairs_and_runs() {
    // "AA" = 0, "AB" = 1, "//" = 4095 -> -1, "gA" = 32 * 64 = 2048 -> -2048
    assert_eq!(decode_pitchbend("AAAB//gA"), vec![0, 1, -1, -2048]);
    // "#3#" repeats the last value so that it occurs three times in all
    assert_eq!(decode_pitchbend("AB#3#AC"), vec![1, 1, 1, 2]);
    // a run length before any value repeats nothing
    assert_eq!(decode_pitchbend("#4#AB"), vec![1]);
    // "#0#" and "#1#" add nothing
    assert_eq!(decode_pitchbend("AB#0#AB#1#"), vec![1, 1]);
    // an unterminated run marker is read as a pair that does not decode
    assert_eq!(decode_pitchbend("AB#5"), vec![1]);
    assert_eq!(decode_pitchbend(""), Vec::<i16>::new());
    // a lone trailing character is ignored
    assert_eq!(decode_pitchbend("ABC"), vec![1]);
}

#[test]
fn xorshift32_follows_the_shift_triple() {
    let mut rng = XorShift32::new(0x12345678);
    let mut x: u32 = 0x12345678;
    for _ in 0..100 {
        x ^= x << 13;
        x ^= x >> 17;
        x ^= x << 5;
        assert_eq!(rng.next_u32(), x);
        assert_eq!(rng.0, x);
    }
}

#[test]
fn decoded_pitch_bend_stays_in_twelve_bits() {
    let alphabet: Vec<char> = ('A'..='Z')
        .chain('a'..='z')
        .chain('0'..='9')
        .chain(['+', '/', '#', '7', '#'])
        .collect();
    let mut text = String::new();
    let mut rng = XorShift32::new(2463534242);
    for _ in 0..4000 {
        let i = (rng.next_u32() as usize) % alphabet.len();
        text.push(alphabet[i]);
    }
    let values = decode_pitchbend(&text);
    assert!(!values.is_empty());
    assert!(values.iter().all(|&v| (-2048..=2047).contains(&v)));
    assert_eq!(decode_pitchbend("//"), vec![-1]);
    assert_eq!(decode_pitchbend("f/"), vec![2047]);
    assert_eq!(decode_pitchbend("gA"), vec![-2048]);
}

#[test]
fn xorshift32_never_reaches_zero_from_a_non_zero_seed() {
    let mut zero = XorShift32::new(0);
    assert_eq!(zero.next_u32(), 0);
    assert_eq!(zero.next_u32(), 0);
    let mut rng = XorShift32::new(1);
    for _ in 0..100_000 {
        assert_ne!(rng.next_u32(), 0);
    }
}
