use fasttq::ident::Id;

#[test]
fn id_text_of_zero() {
    assert_eq!(
        Id::new(0).to_string(),
        "00000000-0000-0000-0000-000000000000"
    );
}

#[test]
fn id_text_puts_the_most_significant_digit_first() {
    let id = Id::new(0x123e4567_e89b_12d3_a456_426614174000);
    assert_eq!(id.to_string(), "123e4567-e89b-12d3-a456-426614174000");
    let id = Id::new(0xa1a2a3a4_b1b2_c1c2_d1d2_d3d4d5d6d7d8);
    assert_eq!(id.to_string(), "a1a2a3a4-b1b2-c1c2-d1d2-d3d4d5d6d7d8");
    assert_eq!(
        Id::new(u128::MAX).to_string(),
        "ffffffff-ffff-ffff-ffff-ffffffffffff"
    );
    assert_eq!(
        Id::new(1).to_string(),
        "00000000-0000-0000-0000-000000000001"
    );
}

#[test]
fn id_text_agrees_with_uuid() {
    let outside = uuid::Uuid::parse_str("123e4567-e89b-12d3-a456-426614174000").unwrap();
    let id = Id::new(outside.as_u128());
    assert_eq!(id.to_string(), outside.to_string());
}

#[test]
fn random_id_has_version_and_variant() {
    for _ in 0..64 {
        let id = Id::random();
        assert_eq!((id.value >> 76) & 0xf, 4);
        assert_eq!((id.value >> 62) & 0x3, 2);
        assert_eq!(
            id.value & 0x0000_0000_0000_f000_c000_0000_0000_0000,
            0x0000_0000_0000_4000_8000_0000_0000_0000
        );
    }
}

#[test]
fn random_ids_differ() {
    assert_ne!(Id::random(), Id::random());
}
