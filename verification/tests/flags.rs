use organum::flags::{flag_field, scan_flags, unknown_flag_letters, FlagField};

struct Flags {
    g: f64,
    b: f64,
    m: f64,
    t: f64,
    a: f64,
    p: f64,
    c: f64,
    h: f64,
    d: f64,
    f: f64,
}

// Numbers are read from each scanned value as the resampler reads them.
fn parse_flags(s: &str) -> Flags {
    let mut flags = Flags {
        g: 0.0,
        b: 50.0,
        m: 0.0,
        t: 0.0,
        a: 100.0,
        p: 0.0,
        c: 0.0,
        h: 0.0,
        d: 0.0,
        f: 0.0,
    };
    for token in scan_flags(s) {
        let text: String = token.value.iter().collect();
        if let Ok(val) = text.parse::<f64>() {
            match flag_field(token.letter) {
                Some(FlagField::G) => flags.g = val,
                Some(FlagField::B) => flags.b = val,
                Some(FlagField::M) => flags.m = val,
                Some(FlagField::T) => flags.t = val,
                Some(FlagField::A) => flags.a = val,
                Some(FlagField::P) => flags.p = val,
                Some(FlagField::C) => flags.c = val,
                Some(FlagField::H) => flags.h = val,
                Some(FlagField::D) => flags.d = val,
                Some(FlagField::F) => flags.f = val,
                None => {}
            }
        }
    }
    flags
}

#[test]
fn test_parse_flags() {
    let flags = parse_flags("g10BB50M2.5t-12.5A2.0p1c50");
    assert_eq!(flags.g, 10.0);
    assert_eq!(flags.b, 50.0);
    assert_eq!(flags.m, 2.5);
    assert_eq!(flags.t, -12.5);
    assert_eq!(flags.a, 2.0);
    assert_eq!(flags.p, 1.0);
    assert_eq!(flags.c, 50.0);

    let overrides = parse_flags("H100 d-10 F+12");
    assert_eq!(overrides.h, 100.0);
    assert_eq!(overrides.d, -10.0);
    assert_eq!(overrides.f, 12.0);

    // Test default
    let def = parse_flags("unknown stuff");
    assert_eq!(def.b, 50.0);
    assert_eq!(def.a, 100.0);
}

#[test]
fn scan_flags_splits_letters_signs_and_values() {
    let tokens = scan_flags("g-10B60xA1.5.2+3");
    let got: Vec<(char, String)> = tokens
        .iter()
        .map(|t| (t.letter, t.value.iter().collect()))
        .collect();
    assert_eq!(
        got,
        vec![
            ('g', "-10".to_string()),
            ('B', "60".to_string()),
            ('x', String::new()),
            ('A', "1.5.2".to_string()),
        ]
    );
    // A letter takes at most one sign; a second one ends its value.
    let tokens = scan_flags("t+-5");
    assert_eq!(tokens.len(), 1);
    assert_eq!(tokens[0].value, vec!['+']);
    assert!(scan_flags("").is_empty());
    assert!(scan_flags("123 +-.").is_empty());
}

#[test]
fn flag_letters_map_to_fields() {
    assert_eq!(flag_field('g'), Some(FlagField::G));
    assert_eq!(flag_field('b'), Some(FlagField::B));
    assert_eq!(flag_field('M'), Some(FlagField::M));
    assert_eq!(flag_field('m'), None);
    assert_eq!(flag_field('Y'), Some(FlagField::P));
    assert_eq!(flag_field('y'), Some(FlagField::P));
    assert_eq!(flag_field('f'), Some(FlagField::F));
    assert_eq!(flag_field('z'), None);
}

#[test]
fn unknown_flag_letters_are_reported_in_order() {
    assert_eq!(unknown_flag_letters("g10zB5Qe"), vec!['z', 'Q', 'e']);
    assert_eq!(unknown_flag_letters("gBMtAPCHDFYm"), Vec::<char>::new());
    assert_eq!(unknown_flag_letters("12 +-"), Vec::<char>::new());
}
