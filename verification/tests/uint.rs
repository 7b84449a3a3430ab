use eth_rpc::uint::U256;

#[test]
fn add_carries_into_the_high_half() {
    let a = U256 { hi: 0, lo: u128::MAX };
    let (sum, overflow) = a.overflowing_add(U256::one());
    assert_eq!(sum, U256 { hi: 1, lo: 0 });
    assert!(!overflow);
    assert_eq!(a.checked_add(U256::from_u64(2)), Some(U256 { hi: 1, lo: 1 }));
}

#[test]
fn add_reports_overflow() {
    let (sum, overflow) = U256::max_value().overflowing_add(U256::one());
    assert_eq!(sum, U256::zero());
    assert!(overflow);
    assert_eq!(U256::max_value().checked_add(U256::one()), None);
    let (sum, overflow) = U256::max_value().overflowing_add(U256::max_value());
    assert_eq!(sum, U256 { hi: u128::MAX, lo: u128::MAX - 1 });
    assert!(overflow);
}

#[test]
fn sub_borrows_and_wraps() {
    let a = U256 { hi: 1, lo: 0 };
    assert_eq!(a.wrapping_sub(U256::one()), U256 { hi: 0, lo: u128::MAX });
    assert_eq!(U256::zero().wrapping_sub(U256::one()), U256::max_value());
    assert_eq!(U256::from_u64(7).wrapping_sub(U256::from_u64(5)), U256::from_u64(2));
}

#[test]
fn comparisons_go_by_the_high_half_first() {
    let small = U256 { hi: 0, lo: u128::MAX };
    let large = U256 { hi: 1, lo: 0 };
    assert!(small.lt(&large));
    assert!(!large.lt(&small));
    assert!(small.le(&small));
    assert!(!small.lt(&small));
    assert!(U256::zero().is_zero());
    assert!(!large.is_zero());
}

#[test]
fn division_gives_quotient_and_remainder() {
    let (q, r) = U256::from_u64(100).div_rem(U256::from_u64(7));
    assert_eq!(q, U256::from_u64(14));
    assert_eq!(r, U256::from_u64(2));

    let (q, r) = U256::max_value().div_rem(U256::one());
    assert_eq!(q, U256::max_value());
    assert_eq!(r, U256::zero());

    let (q, r) = U256::from_u64(5).div_rem(U256::max_value());
    assert_eq!(q, U256::zero());
    assert_eq!(r, U256::from_u64(5));

    // 2^255 / 3 = 0x2aaa...aaaa, remainder 2
    let (q, r) = U256 { hi: 1 << 127, lo: 0 }.div_rem(U256::from_u64(3));
    assert_eq!(
        q,
        U256 { hi: 0x2aaa_aaaa_aaaa_aaaa_aaaa_aaaa_aaaa_aaaa, lo: 0xaaaa_aaaa_aaaa_aaaa_aaaa_aaaa_aaaa_aaaa }
    );
    assert_eq!(r, U256::from_u64(2));

    // (2^256 - 1) / (2^128 + 1) = 2^128 - 1
    let (q, r) = U256::max_value().div_rem(U256 { hi: 1, lo: 1 });
    assert_eq!(q, U256 { hi: 0, lo: u128::MAX });
    assert_eq!(r, U256::zero());

    // a divisor with its top bit set
    let (q, r) = U256::max_value().div_rem(U256 { hi: 1 << 127, lo: 5 });
    assert_eq!(q, U256::one());
    assert_eq!(r, U256 { hi: (1 << 127) - 1, lo: u128::MAX - 5 });
}

#[test]
fn bytes_stand_for_numbers_most_significant_first() {
    assert_eq!(U256::from_be_bytes(&[]), Some(U256::zero()));
    assert_eq!(U256::from_be_bytes(&[0x01, 0x00]), Some(U256::from_u64(256)));
    assert_eq!(U256::from_be_bytes(&[0x00, 0x00, 0x07]), Some(U256::from_u64(7)));
    let mut bytes = [0u8; 32];
    bytes[0] = 0x80;
    bytes[15] = 0x01;
    bytes[16] = 0x02;
    bytes[31] = 0x03;
    let number = U256 { hi: (1 << 127) + 1, lo: (2 << 120) + 3 };
    assert_eq!(U256::from_be_bytes(&bytes), Some(number));
    assert_eq!(number.to_be_bytes(), bytes);
    assert_eq!(U256::from_be_bytes(&[0xff; 32]), Some(U256::max_value()));
    assert_eq!(U256::from_be_bytes(&[0x00; 33]), None);
    assert_eq!(U256::from_be_bytes(&[0x01; 17]), Some(U256 { hi: 1, lo: 0x0101_0101_0101_0101_0101_0101_0101_0101 }));
}

#[test]
fn numbers_are_written_as_32_bytes() {
    assert_eq!(U256::zero().to_be_bytes(), [0u8; 32]);
    assert_eq!(U256::max_value().to_be_bytes(), [0xffu8; 32]);
    let mut bytes = [0u8; 32];
    bytes[30] = 0x01;
    bytes[31] = 0x02;
    assert_eq!(U256::from_u64(258).to_be_bytes(), bytes);
    assert_eq!(U256::from_usize(258), U256::from_u64(258));
}
