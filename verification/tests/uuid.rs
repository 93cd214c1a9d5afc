use taskchampion_swift::uuid::{parse_uuid, uuid_from_draws, uuid_v4};

#[test]
fn create_uuid() {
    let uuid = uuid_v4();
    assert!(uuid.v[0] != 0);
}

#[test]
fn uuid_v4_sets_version_and_variant() {
    let uuid = uuid_v4();
    assert_eq!(uuid.v[6] >> 4, 4);
    assert_eq!(uuid.v[8] >> 6, 2);
}

#[test]
fn uuid_text_is_hyphenated_lower_case() {
    let u = parse_uuid("67E55044-10B1-426F-9247-BB680E5FE0C8").unwrap();
    assert_eq!(u.to_string(), "67e55044-10b1-426f-9247-bb680e5fe0c8");
    assert_eq!(u.v[0], 0x67);
    assert_eq!(u.v[15], 0xc8);
}

#[test]
fn uuid_parses_all_forms() {
    let h = parse_uuid("67e55044-10b1-426f-9247-bb680e5fe0c8").unwrap();
    let s = parse_uuid("67e5504410b1426f9247bb680e5fe0c8").unwrap();
    let b = parse_uuid("{67e55044-10b1-426f-9247-bb680e5fe0c8}").unwrap();
    let n = parse_uuid("URN:uuid:67e55044-10b1-426f-9247-bb680e5fe0c8").unwrap();
    assert_eq!(h.v, s.v);
    assert_eq!(h.v, b.v);
    assert_eq!(h.v, n.v);
}

#[test]
fn uuid_rejects_bad_text() {
    assert!(parse_uuid("").is_none());
    assert!(parse_uuid("67e55044-10b1-426f-9247-bb680e5fe0c").is_none());
    assert!(parse_uuid("67e55044_10b1_426f_9247_bb680e5fe0c8").is_none());
    assert!(parse_uuid("g7e5504410b1426f9247bb680e5fe0c8").is_none());
    assert!(parse_uuid("urx:uuid:67e55044-10b1-426f-9247-bb680e5fe0c8").is_none());
}

#[test]
fn uuid_text_round_trip() {
    let u = uuid_v4();
    let back = parse_uuid(&u.to_string()).unwrap();
    assert_eq!(back.v, u.v);
}

#[test]
fn kept_draw_is_first_with_nonzero_first_byte() {
    let mut zero = [0u8; 16];
    zero[6] = 0x4a;
    zero[8] = 0x9b;
    let mut good = zero;
    good[0] = 0x33;
    good[15] = 7;
    assert_eq!(uuid_from_draws(&vec![good]).v, good);
    assert_eq!(uuid_from_draws(&vec![zero, zero, good, zero]).v, good);
    let mut patched = zero;
    patched[0] = 1;
    assert_eq!(uuid_from_draws(&vec![zero]).v, patched);
    let mut last = zero;
    last[3] = 9;
    let mut last_patched = last;
    last_patched[0] = 1;
    assert_eq!(uuid_from_draws(&vec![zero, last]).v, last_patched);
}
