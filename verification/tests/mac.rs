use telemetry_node::mac::{efuse_mac, hostname};

#[test]
fn efuse_mac_puts_the_first_byte_lowest() {
    assert_eq!(efuse_mac(&[0, 0, 0, 0, 0, 0]), 0);
    assert_eq!(efuse_mac(&[1, 0, 0, 0, 0, 0]), 1);
    assert_eq!(efuse_mac(&[0, 1, 0, 0, 0, 0]), 0x100);
    assert_eq!(efuse_mac(&[0x12, 0x34, 0x56, 0x78, 0x9A, 0xBC]), 0xBC9A_7856_3412);
    assert_eq!(efuse_mac(&[0xFF; 6]), 0xFFFF_FFFF_FFFF);
}

#[test]
fn efuse_mac_agrees_with_little_endian_bytes() {
    let raw = [0x24, 0x6F, 0x28, 0xAB, 0xCD, 0xEF];
    let mut wide = [0u8; 8];
    wide[..6].copy_from_slice(&raw);
    assert_eq!(efuse_mac(&raw), u64::from_le_bytes(wide));
}

#[test]
fn hostname_is_prefix_and_upper_hex() {
    assert_eq!(hostname(0), "ESP_0");
    assert_eq!(hostname(9), "ESP_9");
    assert_eq!(hostname(10), "ESP_A");
    assert_eq!(hostname(15), "ESP_F");
    assert_eq!(hostname(16), "ESP_10");
    assert_eq!(hostname(0xBC9A_7856_3412), "ESP_BC9A78563412");
    assert_eq!(hostname(u64::MAX), "ESP_FFFFFFFFFFFFFFFF");
    assert_eq!(hostname(0x0123_4567_89AB_CDEF), "ESP_123456789ABCDEF");
}

#[test]
fn hostname_agrees_with_std_formatting() {
    let mut mac: u64 = 1;
    for _ in 0..200 {
        assert_eq!(hostname(mac), format!("ESP_{:X}", mac));
        mac = mac.wrapping_mul(6364136223846793005).wrapping_add(1442695040888963407);
    }
}
