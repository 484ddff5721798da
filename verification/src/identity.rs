//! Device identity.
//!
//! Identity is split into three independent entities so none of them leaks into
//! the others:
//!
//! - **Board Identity** ([`BoardIdentity`]): the vendor, product, board model,
//!   hardware revision and USB `vendor_id`/`product_id` a carrier board
//!   declares. It changes with the board and product.
//! - **MCU Identity** ([`McuIdentity`]): the RP2350 variant (family, package,
//!   silicon revision) and the unique 64-bit `CHIPID` fused into OTP. It comes
//!   from the chip installed on the board, so replacing or resourcing the board
//!   never confuses which chip is which.
//! - **Board Hardware Profile** ([`crate::hardware_profile`]): the LED,
//!   presence and flash wiring, which varies per board without touching the
//!   firmware core.
use vstd::prelude::*;
use crate::capabilities::{Rp2350Family, Rp2350Package};

verus! {

/// Number of lowercase hex digits in a formatted chip identifier.
pub const CHIP_ID_HEX_LEN: usize = 16;

/// Chip identifier used when OTP is not readable (e.g. locked by the boot
/// process).
///
/// A single constant keeps the MCU identity reported to the host and the USB
/// serial number derived from it consistent.
pub const FALLBACK_UNIQUE_ID: u64 = 0;

/// Maximum length, in bytes, of a board identity string.
pub const MAX_BOARD_IDENTITY_LEN: usize = 64;

/// Identity declared by a carrier board and the product built around it.
///
/// This is the **Board Identity**: vendor, product, board model, hardware
/// revision and the USB `vendor_id`/`product_id` presented to the host. It
/// changes with the carrier board, whereas the MCU identity ([`McuIdentity`])
/// comes from the RP2350 installed on it.
#[derive(Debug, Clone, Copy, PartialEq, Eq)]
pub struct BoardIdentity {
    /// Board/product manufacturer (USB `iManufacturer`).
    pub manufacturer: &'static str,
    /// Product string (USB `iProduct`).
    pub product: &'static str,
    /// Carrier board model (e.g. `RP2350-Zero`, `Pico 2`).
    pub board: &'static str,
    /// Hardware revision of the carrier board.
    pub revision: u8,
    /// USB vendor identifier presented to the host.
    pub vendor_id: u16,
    /// USB product identifier presented to the host.
    pub product_id: u16,
}

impl BoardIdentity {
    /// Build a board identity from its strings, board revision and USB IDs.
    #[must_use]
    pub fn new(
        manufacturer: &'static str,
        product: &'static str,
        board: &'static str,
        revision: u8,
        vendor_id: u16,
        product_id: u16,
    ) -> (r: Self)
        ensures
            r == (BoardIdentity { manufacturer, product, board, revision, vendor_id, product_id }),
    {
        Self { manufacturer, product, board, revision, vendor_id, product_id }
    }
}

/// Identity of the MCU the firmware is running on, discovered from the chip.
#[derive(Debug, Clone, Copy, PartialEq, Eq, Structural)]
pub struct McuIdentity {
    /// Die family (RP2350 or RP2354).
    pub family: Rp2350Family,
    /// Physical package, from `SYSINFO.PACKAGE_SEL`.
    pub package: Rp2350Package,
    /// Silicon revision, from `SYSINFO.CHIP_ID.REVISION`.
    pub revision: u8,
    /// Unique 64-bit `CHIPID` fused into OTP.
    ///
    /// Highly likely, though not guaranteed, to be unique; it is an
    /// identifier, never a cryptographic secret.
    pub unique_id: u64,
}

impl McuIdentity {
    /// Build an MCU identity from the discovered chip facts.
    #[must_use]
    pub fn new(
        family: Rp2350Family,
        package: Rp2350Package,
        revision: u8,
        unique_id: u64,
    ) -> (r: Self)
        ensures
            r == (McuIdentity { family, package, revision, unique_id }),
    {
        Self { family, package, revision, unique_id }
    }

    /// The unique chip identifier as 16 lowercase hex digits, MSB first.
    #[must_use]
    pub fn unique_id_hex(&self) -> (r: [u8; CHIP_ID_HEX_LEN])
        ensures
            r@ == hex_digits(self.unique_id as nat, 16),
    {
        chip_id_hex(self.unique_id)
    }
}

/// The lowercase ASCII digit of `n`, for `n` below 16.
pub open spec fn hex_digit(n: nat) -> u8 {
    if n < 10 {
        (0x30 + n) as u8
    } else {
        (0x57 + n) as u8
    }
}

/// The `width` low hexadecimal digits of `x`, most significant first.
pub open spec fn hex_digits(x: nat, width: nat) -> Seq<u8>
    decreases width,
{
    if width == 0 {
        Seq::empty()
    } else {
        hex_digits(x / 16, (width - 1) as nat).push(hex_digit(x % 16))
    }
}

/// Format a unique 64-bit chip identifier as 16 lowercase hex digits, most
/// significant nibble first.
#[must_use]
pub fn chip_id_hex(chip_id: u64) -> (r: [u8; CHIP_ID_HEX_LEN])
    ensures
        r@ == hex_digits(chip_id as nat, 16),
{
    let mut out: [u8; CHIP_ID_HEX_LEN] = [0x30; CHIP_ID_HEX_LEN];
    let mut left: usize = CHIP_ID_HEX_LEN;
    let mut x: u64 = chip_id;
    assert(out@.subrange(16, 16) =~= Seq::<u8>::empty());
    assert(hex_digits(x as nat, 16) + Seq::<u8>::empty() =~= hex_digits(x as nat, 16));
    while left > 0
        invariant
            left <= 16,
            hex_digits(chip_id as nat, 16) == hex_digits(x as nat, left as nat) + out@.subrange(
                left as int,
                16,
            ),
        decreases left,
    {
        let digit: u8 = (x % 16) as u8;
        let ghost tail = out@.subrange(left as int, 16);
        out[left - 1] = if digit < 10 { 0x30 + digit } else { 0x57 + digit };
        left -= 1;
        proof {
            assert(out@.subrange(left as int, 16) =~= seq![hex_digit(digit as nat)] + tail);
            let high = hex_digits((x / 16) as nat, left as nat);
            assert(high.push(hex_digit(digit as nat)) + tail =~= high + out@.subrange(
                left as int,
                16,
            ));
        }
        x = x / 16;
    }
    assert(out@.subrange(0, 16) =~= out@);
    out
}

/// The silicon revision in a `SYSINFO.CHIP_ID` value: its bits 31:28.
pub open spec fn revision_of(chip_id: u32) -> int {
    chip_id as int / 0x1000_0000
}

/// The JEDEC part number in a `SYSINFO.CHIP_ID` value: its bits 27:12.
pub open spec fn part_of(chip_id: u32) -> int {
    chip_id as int / 0x1000 % 0x1_0000
}

/// Extract the silicon revision from a raw `SYSINFO.CHIP_ID` value.
///
/// `REVISION` occupies bits 31:28 of the JEDEC JEP-106 register.
#[must_use]
pub fn chip_revision(chip_id: u32) -> (r: u8)
    ensures
        r == revision_of(chip_id),
{
    (chip_id / 0x1000_0000) as u8
}

/// Extract the JEDEC part number from a raw `SYSINFO.CHIP_ID` value.
///
/// `PART` occupies bits 27:12 of the JEDEC JEP-106 register.
#[must_use]
pub fn chip_part(chip_id: u32) -> (r: u16)
    ensures
        r == part_of(chip_id),
{
    (chip_id / 0x1000 % 0x1_0000) as u16
}

/// The hexadecimal form has as many digits as asked for, and two identifiers
/// of at most that many digits with one form are the same identifier.
pub proof fn hex_form_identifies(a: nat, b: nat, width: nat)
    ensures
        hex_digits(a, width).len() == width,
        a < pow16(width) && b < pow16(width) && hex_digits(a, width) == hex_digits(b, width) ==> a
            == b,
    decreases width,
{
    if width > 0 {
        hex_form_identifies(a / 16, b / 16, (width - 1) as nat);
        if hex_digits(a, width) == hex_digits(b, width) {
            let m = (width - 1) as nat;
            assert(hex_digits(a, width).last() == hex_digits(b, width).last());
            assert(hex_digits(a, width).drop_last() =~= hex_digits(a / 16, m));
            assert(hex_digits(b, width).drop_last() =~= hex_digits(b / 16, m));
        }
    }
}

/// `16` to the power of `n`.
pub open spec fn pow16(n: nat) -> nat
    decreases n,
{
    if n == 0 {
        1
    } else {
        16 * pow16((n - 1) as nat)
    }
}

} // verus!
