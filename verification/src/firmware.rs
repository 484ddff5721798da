//! Build-time and boot-time decisions of the firmware.
pub mod selftest;
pub mod vendor_key;
