use aegis_core::capabilities::{DeviceCapabilities, Rp2350Package};

#[test]
fn gpio_counts_match_packages() {
    assert_eq!(Rp2350Package::Qfn60.gpio_count(), 30);
    assert_eq!(Rp2350Package::Qfn80.gpio_count(), 48);
    assert_eq!(DeviceCapabilities::rp2350a().gpio_count, 30);
    assert_eq!(DeviceCapabilities::rp2350b().gpio_count, 48);
}

#[test]
fn flash_kind_tracks_family() {
    let a = DeviceCapabilities::rp2350a();
    assert!(a.flash.external && !a.flash.internal);

    let b = DeviceCapabilities::rp2354b();
    assert!(!b.flash.external && b.flash.internal);
    assert_eq!(b.package, Rp2350Package::Qfn80);
}

#[test]
fn capabilities_usb_always_declares_both_hid_interfaces() {
    let c = DeviceCapabilities::rp2350a();
    assert!(c.usb.device && c.usb.fido_hid && c.usb.management_hid);
}
