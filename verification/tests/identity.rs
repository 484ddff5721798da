use aegis_core::capabilities::{Rp2350Family, Rp2350Package};
use aegis_core::identity::{
    chip_id_hex, chip_part, chip_revision, BoardIdentity, McuIdentity, MAX_BOARD_IDENTITY_LEN,
};

#[test]
fn formats_nibbles_most_significant_first() {
    assert_eq!(chip_id_hex(0), *b"0000000000000000");
    assert_eq!(chip_id_hex(0x0123_4567_89AB_CDEF), *b"0123456789abcdef");
    assert_eq!(chip_id_hex(u64::MAX), *b"ffffffffffffffff");
}

#[test]
fn output_is_always_ascii_hex() {
    let formatted = chip_id_hex(0xDEAD_BEEF_CAFE_1234);
    assert_eq!(&formatted, b"deadbeefcafe1234");
    assert!(formatted.iter().all(u8::is_ascii_hexdigit));
}

#[test]
fn chip_id_fields_match_the_jedec_layout() {
    // REVISION=0x3 (bits 31:28), PART=0x0004 (bits 27:12),
    // MANUFACTURER=0x493 (bits 11:1), STOP=1 (bit 0).
    let chip_id = 0x3000_4927;
    assert_eq!(chip_revision(chip_id), 0x3);
    assert_eq!(chip_part(chip_id), 0x0004);
}

#[test]
fn chip_id_field_extraction_masks_to_the_field_width() {
    assert_eq!(chip_revision(0xFFFF_FFFF), 0xF);
    assert_eq!(chip_part(0xFFFF_FFFF), 0xFFFF);
    assert_eq!(chip_revision(0), 0);
    assert_eq!(chip_part(0), 0);
}

#[test]
fn board_identity_carries_fields_verbatim() {
    let identity = BoardIdentity::new(
        "Waveshare",
        "RP2350 FIDO Token",
        "RP2350-Zero",
        2,
        0x2E8A,
        0x10B0,
    );
    assert_eq!(identity.manufacturer, "Waveshare");
    assert_eq!(identity.product, "RP2350 FIDO Token");
    assert_eq!(identity.board, "RP2350-Zero");
    assert_eq!(identity.revision, 2);
    assert_eq!(identity.vendor_id, 0x2E8A);
    assert_eq!(identity.product_id, 0x10B0);
    assert!(identity.manufacturer.len() <= MAX_BOARD_IDENTITY_LEN);
    assert!(identity.product.len() <= MAX_BOARD_IDENTITY_LEN);
}

#[test]
fn mcu_identity_formats_unique_id() {
    let mcu = McuIdentity::new(
        Rp2350Family::Rp2350,
        Rp2350Package::Qfn60,
        3,
        0x0123_4567_89AB_CDEF,
    );
    assert_eq!(mcu.unique_id_hex(), *b"0123456789abcdef");
    assert_eq!(mcu.family, Rp2350Family::Rp2350);
    assert_eq!(mcu.package, Rp2350Package::Qfn60);
    assert_eq!(mcu.revision, 3);
}
