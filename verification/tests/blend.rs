use baam_3ds::blend::{blend_rgb565, pack_565, pack_565_u16, unpack_565, unpack_565_u16};

#[test]
fn unpack_splits_channels() {
    assert_eq!(unpack_565_u16(0xffff), (31, 63, 31));
    assert_eq!(unpack_565_u16(0x17e9), (2, 63, 9));
    assert_eq!(unpack_565(0x8410), (16, 32, 16));
}

#[test]
fn pack_joins_channels() {
    assert_eq!(pack_565_u16((31, 63, 31)), 0xffff);
    assert_eq!(pack_565((2, 63, 9)), 0x17e9);
    assert_eq!(pack_565((0, 0, 0)), 0);
}

#[test]
fn pack_unpack_roundtrip() {
    for p in [0u16, 1, 0x17e9, 0x7bcf, 0xf800, 0x07e0, 0x001f, 0xffff] {
        assert_eq!(pack_565_u16(unpack_565_u16(p)), p);
    }
}

#[test]
fn blend_extremes_and_midpoint() {
    assert_eq!(blend_rgb565(0x1234, 0xabcd, 255), 0xabcd);
    assert_eq!(blend_rgb565(0x1234, 0xabcd, 0), 0x1234);
    assert_eq!(blend_rgb565(0x7bcf, 0x7bcf, 77), 0x7bcf);
    assert_eq!(blend_rgb565(0x0000, 0xffff, 0x80), 0x7bef);
}
