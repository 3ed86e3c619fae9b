use pure_random::uint256::U256;
use stylus_sdk::alloy_primitives::U256 as SdkU256;

const SAMPLES: [[u64; 4]; 8] = [
    [0, 0, 0, 0],
    [1, 0, 0, 0],
    [u64::MAX, 0, 0, 0],
    [0, 1, 0, 0],
    [0x0123_4567_89ab_cdef, 0xfedc_ba98_7654_3210, 0x0f1e_2d3c_4b5a_6978, 0x8796_a5b4_c3d2_e1f0],
    [u64::MAX, u64::MAX, u64::MAX, 0],
    [0, 0, 0, 0x8000_0000_0000_0000],
    [u64::MAX, u64::MAX, u64::MAX, u64::MAX],
];

fn to_sdk(value: U256) -> SdkU256 {
    SdkU256::from_limbs(value.into_limbs())
}

#[test]
fn from_u64_fills_the_lowest_limb() {
    assert_eq!(U256::from_u64(0).into_limbs(), [0, 0, 0, 0]);
    assert_eq!(U256::from_u64(1).into_limbs(), [1, 0, 0, 0]);
    assert_eq!(U256::from_u64(u64::MAX).into_limbs(), [u64::MAX, 0, 0, 0]);
    assert_eq!(to_sdk(U256::from_u64(1_700_000_000)), SdkU256::from(1_700_000_000u64));
}

#[test]
fn limbs_round_trip() {
    for limbs in SAMPLES {
        assert_eq!(U256::from_limbs(limbs).into_limbs(), limbs);
    }
}

#[test]
fn checked_add_of_small_values() {
    let sum = U256::from_u64(2).checked_add(U256::from_u64(3));
    assert_eq!(sum, Some(U256::from_u64(5)));
}

#[test]
fn checked_add_carries_through_every_limb() {
    let sum = U256::from_limbs([u64::MAX, u64::MAX, u64::MAX, 0]).checked_add(U256::from_u64(1));
    assert_eq!(sum, Some(U256::from_limbs([0, 0, 0, 1])));

    let sum = U256::from_limbs([u64::MAX, 1, 0, 0]).checked_add(U256::from_limbs([2, u64::MAX, 0, 5]));
    assert_eq!(sum, Some(U256::from_limbs([1, 1, 1, 5])));
}

#[test]
fn checked_add_reports_overflow() {
    let top = U256::from_limbs([u64::MAX, u64::MAX, u64::MAX, u64::MAX]);
    assert_eq!(top.checked_add(U256::from_u64(1)), None);
    assert_eq!(U256::from_u64(1).checked_add(top), None);
    assert_eq!(top.checked_add(top), None);
    assert_eq!(top.checked_add(U256::from_u64(0)), Some(top));
    let half = U256::from_limbs([0, 0, 0, 0x8000_0000_0000_0000]);
    assert_eq!(half.checked_add(half), None);
}

#[test]
fn checked_add_agrees_with_the_sdk_integer() {
    for a in SAMPLES {
        for b in SAMPLES {
            let ours = U256::from_limbs(a).checked_add(U256::from_limbs(b));
            let theirs = SdkU256::from_limbs(a).checked_add(SdkU256::from_limbs(b));
            assert_eq!(ours.map(to_sdk), theirs);
        }
    }
}

#[test]
fn to_le_bytes_puts_the_least_significant_byte_first() {
    let mut expected = [0u8; 32];
    expected[0] = 0x02;
    expected[1] = 0x01;
    assert_eq!(U256::from_u64(0x0102).to_le_bytes(), expected);

    let bytes = U256::from_limbs([0x0807_0605_0403_0201, 0x100f_0e0d_0c0b_0a09, 0, 0xff00_0000_0000_0000])
        .to_le_bytes();
    let mut expected = [0u8; 32];
    let mut i: usize = 0;
    while i < 16 {
        expected[i] = (i + 1) as u8;
        i += 1;
    }
    expected[31] = 0xff;
    assert_eq!(bytes, expected);
}

#[test]
fn to_le_bytes_pads_a_timestamp_with_zeros() {
    let bytes = U256::from_u64(0x6543_2100).to_le_bytes();
    assert_eq!(&bytes[..4], &[0x00, 0x21, 0x43, 0x65]);
    assert!(bytes[4..].iter().all(|byte| *byte == 0));
}

#[test]
fn to_le_bytes_agrees_with_the_sdk_integer() {
    for limbs in SAMPLES {
        let ours = U256::from_limbs(limbs).to_le_bytes();
        let theirs: [u8; 32] = SdkU256::from_limbs(limbs).to_le_bytes::<32>();
        assert_eq!(ours, theirs);
    }
}

#[test]
fn from_be_bytes_puts_the_most_significant_byte_first() {
    let mut bytes = [0u8; 32];
    bytes[30] = 0x01;
    bytes[31] = 0x02;
    assert_eq!(U256::from_be_bytes(bytes), U256::from_u64(0x0102));

    let mut bytes = [0u8; 32];
    bytes[0] = 0x80;
    bytes[23] = 0x01;
    assert_eq!(U256::from_be_bytes(bytes).into_limbs(), [0, 1, 0, 0x8000_0000_0000_0000]);

    assert_eq!(U256::from_be_bytes([0u8; 32]), U256::from_u64(0));
    assert_eq!(U256::from_be_bytes([0xffu8; 32]).into_limbs(), [u64::MAX; 4]);
}

#[test]
fn from_be_bytes_agrees_with_the_sdk_integer() {
    for limbs in SAMPLES {
        let bytes: [u8; 32] = SdkU256::from_limbs(limbs).to_be_bytes::<32>();
        assert_eq!(U256::from_be_bytes(bytes).into_limbs(), limbs);
        assert_eq!(to_sdk(U256::from_be_bytes(bytes)), SdkU256::from_be_bytes(bytes));
    }
}

#[test]
fn byte_orders_mirror_each_other() {
    for limbs in SAMPLES {
        let value = U256::from_limbs(limbs);
        let mut bytes = value.to_le_bytes();
        bytes.reverse();
        assert_eq!(U256::from_be_bytes(bytes), value);
    }
}
