use arch_demo::pubkey::Pubkey;

fn sample(seed: u8) -> [u8; 32] {
    let mut bytes = [0u8; 32];
    for (i, b) in bytes.iter_mut().enumerate() {
        *b = seed.wrapping_mul(31).wrapping_add((i as u8).wrapping_mul(7));
    }
    bytes
}

#[test]
fn serialize_gives_the_bytes() {
    let bytes = sample(3);
    assert_eq!(Pubkey(bytes).serialize(), bytes);
}

#[test]
fn from_slice_round_trips_32_bytes() {
    for seed in 0..=255u8 {
        let key = Pubkey::from(sample(seed));
        let back = Pubkey::from_slice(&key.serialize());
        assert_eq!(key, back);
    }
}

#[test]
fn from_slice_pads_short_input_with_zeros() {
    let key = Pubkey::from_slice(&[9, 8, 7]);
    let mut expected = [0u8; 32];
    expected[0] = 9;
    expected[1] = 8;
    expected[2] = 7;
    assert_eq!(key.serialize(), expected);
    assert_eq!(Pubkey::from_slice(&[]).serialize(), [0u8; 32]);
}

#[test]
fn from_slice_keeps_the_first_32_bytes_of_long_input() {
    let mut long = [0u8; 40];
    for (i, b) in long.iter_mut().enumerate() {
        *b = i as u8 + 1;
    }
    let key = Pubkey::from_slice(&long);
    let mut expected = [0u8; 32];
    expected.copy_from_slice(&long[..32]);
    assert_eq!(key.serialize(), expected);
}

#[test]
fn system_program_is_zeros_and_a_final_one() {
    let key = Pubkey::system_program();
    let mut expected = [0u8; 32];
    expected[31] = 1;
    assert_eq!(key.serialize(), expected);
    assert!(key.is_system_program());
}

#[test]
fn other_identifiers_are_not_the_system_program() {
    assert!(!Pubkey::default().is_system_program());
    assert!(!Pubkey([1u8; 32]).is_system_program());
    let mut nearly = [0u8; 32];
    nearly[31] = 2;
    assert!(!Pubkey(nearly).is_system_program());
    let mut front = [0u8; 32];
    front[0] = 1;
    front[31] = 1;
    assert!(!Pubkey(front).is_system_program());
    assert!(!Pubkey(sample(5)).is_system_program());
}

#[test]
fn default_is_all_zeros() {
    assert_eq!(Pubkey::default().serialize(), [0u8; 32]);
}

#[test]
fn new_unique_writes_the_counter_big_endian() {
    let mut counter: u64 = 0x0102_0304_0506_0708;
    let key = Pubkey::new_unique(&mut counter);
    let mut expected = [0u8; 32];
    expected[..8].copy_from_slice(&[1, 2, 3, 4, 5, 6, 7, 8]);
    assert_eq!(key.serialize(), expected);
    assert_eq!(counter, 0x0102_0304_0506_0709);
}

#[test]
fn new_unique_starts_at_the_counter() {
    let mut counter: u64 = 1;
    let first = Pubkey::new_unique(&mut counter);
    let mut expected = [0u8; 32];
    expected[7] = 1;
    assert_eq!(first.serialize(), expected);
    assert_eq!(counter, 2);
}

#[test]
fn new_unique_rises_and_never_repeats() {
    let mut counter: u64 = 1;
    let mut keys = Vec::new();
    for _ in 0..600 {
        keys.push(Pubkey::new_unique(&mut counter));
    }
    for pair in keys.windows(2) {
        assert!(pair[0] < pair[1]);
        assert_ne!(pair[0], pair[1]);
        assert!(pair[0].serialize() < pair[1].serialize());
    }
}

#[test]
fn new_unique_rises_across_byte_borders() {
    for start in [0xffu64, 0xffff, 0xff_ffff, 0xffff_ffff, 0xff_ffff_ffff_ffff] {
        let mut counter = start;
        let low = Pubkey::new_unique(&mut counter);
        let high = Pubkey::new_unique(&mut counter);
        assert!(low < high);
        assert_eq!(counter, start + 2);
    }
}

#[test]
fn new_unique_wraps_after_the_highest_value() {
    let mut counter = u64::MAX;
    let key = Pubkey::new_unique(&mut counter);
    let mut expected = [0u8; 32];
    expected[..8].copy_from_slice(&[0xff; 8]);
    assert_eq!(key.serialize(), expected);
    assert_eq!(counter, 0);
}

#[test]
fn order_is_that_of_the_bytes() {
    let mut a = [0u8; 32];
    let mut b = [0u8; 32];
    a[0] = 1;
    b[31] = 255;
    assert!(Pubkey(b) < Pubkey(a));
    assert!(Pubkey(a) > Pubkey(b));
    assert!(Pubkey(a) >= Pubkey(a));
    assert_eq!(Pubkey(a).partial_cmp(&Pubkey(b)), Some(std::cmp::Ordering::Greater));
    assert_eq!(Pubkey(a).partial_cmp(&Pubkey(a)), Some(std::cmp::Ordering::Equal));
    assert_eq!(Pubkey(a).cmp(&Pubkey(b)), std::cmp::Ordering::Greater);
    for x in 0..40u8 {
        for y in 0..40u8 {
            let (p, q) = (sample(x), sample(y));
            assert_eq!(Pubkey(p).partial_cmp(&Pubkey(q)), Some(p.cmp(&q)));
            assert_eq!(Pubkey(p).cmp(&Pubkey(q)), p.cmp(&q));
            assert_eq!(Pubkey(p) == Pubkey(q), p == q);
        }
    }
}

#[test]
fn to_hex_is_lower_case_two_digits_a_byte() {
    let mut bytes = [0u8; 32];
    bytes[0] = 0xab;
    bytes[1] = 0x0f;
    bytes[31] = 0xf0;
    let hex = Pubkey(bytes).to_hex();
    assert_eq!(hex.len(), 64);
    assert_eq!(
        hex,
        "ab0f0000000000000000000000000000000000000000000000000000000000f0"
    );
    assert_eq!(
        Pubkey::system_program().to_hex(),
        "0000000000000000000000000000000000000000000000000000000000000001"
    );
}

#[test]
fn to_string_lists_the_bytes() {
    let mut bytes = [0u8; 32];
    bytes[0] = 255;
    bytes[1] = 10;
    bytes[31] = 7;
    assert_eq!(Pubkey(bytes).to_string(), format!("{:?}", bytes));
    assert_eq!(
        Pubkey::system_program().to_string(),
        "[0, 0, 0, 0, 0, 0, 0, 0, 0, 0, 0, 0, 0, 0, 0, 0, 0, 0, 0, 0, 0, 0, 0, 0, 0, 0, 0, 0, 0, 0, 0, 1]"
    );
}

#[test]
fn from_array_keeps_the_bytes() {
    let bytes = sample(77);
    let key: Pubkey = bytes.into();
    assert_eq!(key.0, bytes);
}

#[test]
fn as_ref_gives_the_bytes() {
    let key = Pubkey(sample(12));
    let bytes: &[u8] = key.as_ref();
    assert_eq!(bytes, &sample(12)[..]);
    assert_eq!(bytes.len(), 32);
}

#[test]
fn as_mut_changes_the_bytes() {
    let mut key = Pubkey([0u8; 32]);
    key.as_mut()[31] = 1;
    assert!(key.is_system_program());
    key.as_mut()[0] = 9;
    assert_eq!(key.serialize()[0], 9);
}

#[test]
fn equal_identifiers_hash_alike() {
    let mut set = std::collections::HashSet::new();
    assert!(set.insert(Pubkey(sample(1))));
    assert!(!set.insert(Pubkey::from_slice(&sample(1))));
    assert!(set.insert(Pubkey(sample(2))));
}

#[test]
fn new_unique_is_never_the_system_program() {
    for start in [0u64, 1, 2, 255, 256, 1 << 56, u64::MAX - 1, u64::MAX] {
        let mut counter = start;
        assert!(!Pubkey::new_unique(&mut counter).is_system_program());
    }
}

#[test]
fn the_first_unique_identifier_counts_from_one() {
    let mut counter = arch_demo::pubkey::FIRST_UNIQUE;
    assert_eq!(counter, 1);
    let first = Pubkey::new_unique(&mut counter);
    assert_eq!(first.serialize()[..8], 1u64.to_be_bytes());
    assert_eq!(first.serialize()[8..], [0u8; 24]);
    assert_ne!(first, Pubkey::default());
}
