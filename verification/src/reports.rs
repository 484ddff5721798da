//! Reports of the management interface and their CBOR form.
//!
//! Every report is a map from small integers to values. An absent optional
//! value is left out of the map.
use vstd::prelude::*;
use vstd::utf8::encode_utf8;
use crate::bytes::regroup;
use crate::capabilities::DeviceCapabilities;
use crate::cbor::{
    after, bool_item, bool_round_trip, head, head_is_short, int_item, int_round_trip, map_head,
    map_round_trip, put_bool, put_i64, put_map_head, put_text, put_u64, read_bool, read_i64,
    read_text, read_u16, read_u32, read_u64, read_u8, skip_item, take_any, take_bool, take_int,
    take_text, take_uint, take_uint_up_to, text_item, text_round_trip, uint_item, uint_round_trip,
};
use crate::codec::{CodecError, Decode, Encode};
use crate::configuration::{FixedString, CONFIG_VERSION};
use crate::identity::{BoardIdentity, MAX_BOARD_IDENTITY_LEN};
use crate::lifecycle::LifecycleState;
use crate::record::{one_entry, read_open_record, take_entries, take_open_record, Record};
use crate::version::{numbers_of, version_numbers};
use crate::VERSION;

verus! {

/// An optional small number: null, or a number of at most 255.
pub open spec fn take_optional(s: Seq<u8>) -> Option<(Option<u8>, Seq<u8>)> {
    if s.len() > 0 && s[0] == 0xf6 {
        Some((None, after(s, 1)))
    } else {
        match take_uint_up_to(s, 0xff) {
            Some((n, rest)) => Some((Some(n as u8), rest)),
            None => None,
        }
    }
}

fn read_optional(input: &[u8]) -> (r: Option<(Option<u8>, &[u8])>)
    ensures
        r matches Some((value, rest)) ==> take_optional(input@) == Some((value, rest@))
            && rest@.len() < input@.len(),
        r is None ==> take_optional(input@) is None,
{
    if input.len() > 0 && input[0] == 0xf6 {
        return Some((None, &input[1..input.len()]));
    }
    match read_u8(input) {
        Some((n, rest)) => Some((Some(n), rest)),
        None => None,
    }
}

/// The entry of an optional value: left out where there is none.
pub open spec fn optional_form(key: int, value: Option<u8>) -> Seq<u8> {
    match value {
        Some(n) => int_item(key) + uint_item(n as nat),
        None => Seq::empty(),
    }
}

/// How many entries an optional value takes.
pub open spec fn optional_count(value: Option<u8>) -> nat {
    if value is Some {
        1
    } else {
        0
    }
}

fn put_optional(out: &mut Vec<u8>, key: i64, value: Option<u8>)
    ensures
        final(out)@ == old(out)@ + optional_form(key as int, value),
{
    if let Some(n) = value {
        put_i64(out, key);
        put_u64(out, n as u64);
    }
    assert(out@ =~= old(out)@ + optional_form(key as int, value));
}

proof fn heads_are_short()
    ensures
        forall|major: u8, n: nat| 1 <= (#[trigger] head(major, n)).len() <= 9,
{
    assert forall|major: u8, n: nat| 1 <= (#[trigger] head(major, n)).len() <= 9 by {
        head_is_short(major, n);
    }
}

/// Device identity reported to the host.
///
/// The manufacturer and product come from the board identity declared by the
/// board profile, so the same firmware presents the correct identity on
/// different carrier boards.
#[derive(Debug, Clone, PartialEq, Eq)]
pub struct DeviceInfo {
    /// USB product string for the board/product.
    pub product: FixedString<MAX_BOARD_IDENTITY_LEN>,
    /// Firmware family: 0 = RP2350, 1 = RP2354.
    pub family: u8,
    /// Firmware major version.
    pub version_major: u8,
    /// Firmware minor version.
    pub version_minor: u8,
    /// Firmware patch version.
    pub version_patch: u8,
    /// Active configuration schema version.
    pub config_version: u16,
    /// Board/product manufacturer.
    pub manufacturer: FixedString<MAX_BOARD_IDENTITY_LEN>,
}

/// What this report says.
pub struct DeviceInfoView {
    /// USB product string for the board/product.
    pub product: Seq<char>,
    /// Firmware family: 0 = RP2350, 1 = RP2354.
    pub family: u8,
    /// Firmware major version.
    pub version_major: u8,
    /// Firmware minor version.
    pub version_minor: u8,
    /// Firmware patch version.
    pub version_patch: u8,
    /// Active configuration schema version.
    pub config_version: u16,
    /// Board/product manufacturer.
    pub manufacturer: Seq<char>,
}

impl View for DeviceInfo {
    type V = DeviceInfoView;

    open spec fn view(&self) -> DeviceInfoView {
        DeviceInfoView {
            product: self.product@,
            family: self.family,
            version_major: self.version_major,
            version_minor: self.version_minor,
            version_patch: self.version_patch,
            config_version: self.config_version,
            manufacturer: self.manufacturer@,
        }
    }
}

impl DeviceInfoView {
    /// The entry of `product`.
    #[verifier::opaque]
    pub open spec fn product_form(self) -> Seq<u8> {
        int_item(0) + text_item(self.product)
    }

    /// The entries `family` to `config_version`.
    #[verifier::opaque]
    pub open spec fn firmware_form(self) -> Seq<u8> {
        int_item(1) + uint_item(self.family as nat) + int_item(2)
            + uint_item(self.version_major as nat) + int_item(3)
            + uint_item(self.version_minor as nat) + int_item(4)
            + uint_item(self.version_patch as nat) + int_item(5)
            + uint_item(self.config_version as nat)
    }

    /// The entry of `manufacturer`.
    #[verifier::opaque]
    pub open spec fn manufacturer_form(self) -> Seq<u8> {
        int_item(6) + text_item(self.manufacturer)
    }

    /// The number of entries.
    pub open spec fn entry_count(self) -> nat {
        7
    }

    /// The CBOR form.
    pub open spec fn cbor_form(self) -> Seq<u8> {
        map_head(self.entry_count()) + self.product_form() + self.firmware_form()
            + self.manufacturer_form()
    }
}

impl DeviceInfo {
    fn put_product(&self, out: &mut Vec<u8>)
        ensures
            final(out)@ == old(out)@ + self@.product_form(),
    {
        proof {
            reveal(DeviceInfoView::product_form);
        }
        put_i64(out, 0);
        put_text(out, self.product.as_str());
        assert(out@ =~= old(out)@ + self@.product_form());
    }

    fn put_firmware(&self, out: &mut Vec<u8>)
        ensures
            final(out)@ == old(out)@ + self@.firmware_form(),
    {
        proof {
            reveal(DeviceInfoView::firmware_form);
        }
        put_i64(out, 1);
        put_u64(out, self.family as u64);
        put_i64(out, 2);
        put_u64(out, self.version_major as u64);
        put_i64(out, 3);
        put_u64(out, self.version_minor as u64);
        put_i64(out, 4);
        put_u64(out, self.version_patch as u64);
        put_i64(out, 5);
        put_u64(out, self.config_version as u64);
        assert(out@ =~= old(out)@ + self@.firmware_form());
    }

    fn put_manufacturer(&self, out: &mut Vec<u8>)
        ensures
            final(out)@ == old(out)@ + self@.manufacturer_form(),
    {
        proof {
            reveal(DeviceInfoView::manufacturer_form);
        }
        put_i64(out, 6);
        put_text(out, self.manufacturer.as_str());
        assert(out@ =~= old(out)@ + self@.manufacturer_form());
    }
}

impl Encode for DeviceInfo {
    open spec fn cbor(&self) -> Seq<u8> {
        self@.cbor_form()
    }

    fn encode_cbor(&self, out: &mut Vec<u8>) {
        let count: u64 = 7;
        put_map_head(out, count);
        self.put_product(out);
        self.put_firmware(out);
        self.put_manufacturer(out);
        assert(out@ =~= old(out)@ + self@.cbor_form());
    }
}

/// The entries of this report read so far.
pub struct DeviceInfoFields {
    product: Option<FixedString<MAX_BOARD_IDENTITY_LEN>>,
    family: Option<u8>,
    version_major: Option<u8>,
    version_minor: Option<u8>,
    version_patch: Option<u8>,
    config_version: Option<u16>,
    manufacturer: Option<FixedString<MAX_BOARD_IDENTITY_LEN>>,
}

/// The entries of this report read so far.
pub struct DeviceInfoFieldsView {
    /// USB product string for the board/product.
    pub product: Option<Seq<char>>,
    /// Firmware family: 0 = RP2350, 1 = RP2354.
    pub family: Option<u8>,
    /// Firmware major version.
    pub version_major: Option<u8>,
    /// Firmware minor version.
    pub version_minor: Option<u8>,
    /// Firmware patch version.
    pub version_patch: Option<u8>,
    /// Active configuration schema version.
    pub config_version: Option<u16>,
    /// Board/product manufacturer.
    pub manufacturer: Option<Seq<char>>,
}

impl View for DeviceInfoFields {
    type V = DeviceInfoFieldsView;

    closed spec fn view(&self) -> DeviceInfoFieldsView {
        DeviceInfoFieldsView {
            product: match self.product {
                Some(text) => Some(text@),
                None => None,
            },
            family: self.family,
            version_major: self.version_major,
            version_minor: self.version_minor,
            version_patch: self.version_patch,
            config_version: self.config_version,
            manufacturer: match self.manufacturer {
                Some(text) => Some(text@),
                None => None,
            },
        }
    }
}

/// What the entry at the front of the input adds to the report.
#[verifier::opaque]
pub open spec fn device_info_entry(
    s: Seq<u8>,
    acc: DeviceInfoFieldsView,
) -> Result<(DeviceInfoFieldsView, Seq<u8>), CodecError> {
    match take_int(s) {
        None => Err(CodecError::Decode),
        Some((key, value)) => if key == 0 {
                match take_text(value) {
                    Some((n, rest)) => if encode_utf8(n).len() <= 64 {
                        Ok((DeviceInfoFieldsView { product: Some(n), ..acc }, rest))
                    } else {
                        Err(CodecError::Decode)
                    },
                    None => Err(CodecError::Decode),
                }
            } else if key == 1 {
                match take_uint_up_to(value, 0xff) {
                    Some((n, rest)) => Ok(
                        (DeviceInfoFieldsView { family: Some(n as u8), ..acc }, rest),
                    ),
                    None => Err(CodecError::Decode),
                }
            } else if key == 2 {
                match take_uint_up_to(value, 0xff) {
                    Some((n, rest)) => Ok(
                        (DeviceInfoFieldsView { version_major: Some(n as u8), ..acc }, rest),
                    ),
                    None => Err(CodecError::Decode),
                }
            } else if key == 3 {
                match take_uint_up_to(value, 0xff) {
                    Some((n, rest)) => Ok(
                        (DeviceInfoFieldsView { version_minor: Some(n as u8), ..acc }, rest),
                    ),
                    None => Err(CodecError::Decode),
                }
            } else if key == 4 {
                match take_uint_up_to(value, 0xff) {
                    Some((n, rest)) => Ok(
                        (DeviceInfoFieldsView { version_patch: Some(n as u8), ..acc }, rest),
                    ),
                    None => Err(CodecError::Decode),
                }
            } else if key == 5 {
                match take_uint_up_to(value, 0xffff) {
                    Some((n, rest)) => Ok(
                        (DeviceInfoFieldsView { config_version: Some(n as u16), ..acc }, rest),
                    ),
                    None => Err(CodecError::Decode),
                }
            } else if key == 6 {
                match take_text(value) {
                    Some((n, rest)) => if encode_utf8(n).len() <= 64 {
                        Ok((DeviceInfoFieldsView { manufacturer: Some(n), ..acc }, rest))
                    } else {
                        Err(CodecError::Decode)
                    },
                    None => Err(CodecError::Decode),
                }
            } else {
                match take_any(value) {
                    Some(rest) => Ok((acc, rest)),
                    None => Err(CodecError::Decode),
                }
            },
        }
}

impl Record for DeviceInfoFields {
    type Error = CodecError;

    open spec fn blank() -> DeviceInfoFieldsView {
        DeviceInfoFieldsView {
            product: None,
            family: None,
            version_major: None,
            version_minor: None,
            version_patch: None,
            config_version: None,
            manufacturer: None,
        }
    }

    open spec fn malformed() -> CodecError {
        CodecError::Decode
    }

    open spec fn entry(
        s: Seq<u8>,
        acc: DeviceInfoFieldsView,
    ) -> Result<(DeviceInfoFieldsView, Seq<u8>), CodecError> {
        device_info_entry(s, acc)
    }

    fn new_blank() -> (r: Self) {
        DeviceInfoFields {
            product: None,
            family: None,
            version_major: None,
            version_minor: None,
            version_patch: None,
            config_version: None,
            manufacturer: None,
        }
    }

    fn malformed_error() -> (r: CodecError) {
        CodecError::Decode
    }

    fn read_entry<'a>(&mut self, input: &'a [u8]) -> (r: Result<&'a [u8], CodecError>) {
        proof {
            reveal(device_info_entry);
        }
        let (key, value) = match read_i64(input) {
            Some(pair) => pair,
            None => return Err(CodecError::Decode),
        };
        if key == 0 {
            if let Some((t, rest)) = read_text(value) {
                if let Ok(text) = FixedString::new(t) {
                    self.product = Some(text);
                    return Ok(rest);
                }
            }
        } else if key == 1 {
            if let Some((n, rest)) = read_u8(value) {
                self.family = Some(n);
                return Ok(rest);
            }
        } else if key == 2 {
            if let Some((n, rest)) = read_u8(value) {
                self.version_major = Some(n);
                return Ok(rest);
            }
        } else if key == 3 {
            if let Some((n, rest)) = read_u8(value) {
                self.version_minor = Some(n);
                return Ok(rest);
            }
        } else if key == 4 {
            if let Some((n, rest)) = read_u8(value) {
                self.version_patch = Some(n);
                return Ok(rest);
            }
        } else if key == 5 {
            if let Some((n, rest)) = read_u16(value) {
                self.config_version = Some(n);
                return Ok(rest);
            }
        } else if key == 6 {
            if let Some((t, rest)) = read_text(value) {
                if let Ok(text) = FixedString::new(t) {
                    self.manufacturer = Some(text);
                    return Ok(rest);
                }
            }
        } else if let Some(rest) = skip_item(value) {
            return Ok(rest);
        }
        Err(CodecError::Decode)
    }
}

impl DeviceInfoFieldsView {
    /// The report, where every entry that it needs was read.
    #[verifier::opaque]
    pub open spec fn report(self) -> Option<DeviceInfoView> {
        if self.product is Some && self.family is Some && self.version_major is Some
            && self.version_minor is Some && self.version_patch is Some
            && self.config_version is Some && self.manufacturer is Some {
            Some(
                DeviceInfoView {
                    product: self.product->0,
                    family: self.family->0,
                    version_major: self.version_major->0,
                    version_minor: self.version_minor->0,
                    version_patch: self.version_patch->0,
                    config_version: self.config_version->0,
                    manufacturer: self.manufacturer->0,
                },
            )
        } else {
            None
        }
    }
}

impl DeviceInfoFields {
    fn into_report(self) -> (r: Option<DeviceInfo>)
        ensures
            match r {
                Some(report) => self@.report() == Some(report@),
                None => self@.report() is None,
            },
    {
        proof {
            reveal(DeviceInfoFieldsView::report);
        }
        let product: FixedString<MAX_BOARD_IDENTITY_LEN> = match self.product {
            Some(product) => product,
            None => return None,
        };
        let family: u8 = match self.family {
            Some(family) => family,
            None => return None,
        };
        let version_major: u8 = match self.version_major {
            Some(version_major) => version_major,
            None => return None,
        };
        let version_minor: u8 = match self.version_minor {
            Some(version_minor) => version_minor,
            None => return None,
        };
        let version_patch: u8 = match self.version_patch {
            Some(version_patch) => version_patch,
            None => return None,
        };
        let config_version: u16 = match self.config_version {
            Some(config_version) => config_version,
            None => return None,
        };
        let manufacturer: FixedString<MAX_BOARD_IDENTITY_LEN> = match self.manufacturer {
            Some(manufacturer) => manufacturer,
            None => return None,
        };
        Some(
            DeviceInfo {
                product,
                family,
                version_major,
                version_minor,
                version_patch,
                config_version,
                manufacturer,
            },
        )
    }
}

impl Decode for DeviceInfo {
    open spec fn take(s: Seq<u8>) -> Option<(DeviceInfoView, Seq<u8>)> {
        match take_open_record::<DeviceInfoFields>(s) {
            Ok((f, rest)) => match f.report() {
                Some(report) => Some((report, rest)),
                None => None,
            },
            Err(_) => None,
        }
    }

    fn decode_cbor(input: &[u8]) -> (r: Option<(Self, &[u8])>) {
        match read_open_record::<DeviceInfoFields>(input) {
            Ok((f, rest)) => match f.into_report() {
                Some(report) => Some((report, rest)),
                None => None,
            },
            Err(_) => None,
        }
    }
}

proof fn device_info_product_is_read(value: Seq<char>, acc: DeviceInfoFieldsView, rest: Seq<u8>)
    requires
        encode_utf8(value).len() <= 64,
    ensures
        DeviceInfoFields::entry(
            int_item(0) + (text_item(value) + rest),
            acc,
        ) == Ok::<(DeviceInfoFieldsView, Seq<u8>), CodecError>(
            (DeviceInfoFieldsView { product: Some(value), ..acc }, rest),
        ),
{
    reveal(device_info_entry);
    int_round_trip(0, text_item(value) + rest);
    text_round_trip(value, rest);
}

proof fn device_info_family_is_read(value: u8, acc: DeviceInfoFieldsView, rest: Seq<u8>)
    ensures
        DeviceInfoFields::entry(
            int_item(1) + (uint_item(value as nat) + rest),
            acc,
        ) == Ok::<(DeviceInfoFieldsView, Seq<u8>), CodecError>(
            (DeviceInfoFieldsView { family: Some(value), ..acc }, rest),
        ),
{
    reveal(device_info_entry);
    int_round_trip(1, uint_item(value as nat) + rest);
    uint_round_trip(value as nat, 0xff, rest);
}

proof fn device_info_version_major_is_read(value: u8, acc: DeviceInfoFieldsView, rest: Seq<u8>)
    ensures
        DeviceInfoFields::entry(
            int_item(2) + (uint_item(value as nat) + rest),
            acc,
        ) == Ok::<(DeviceInfoFieldsView, Seq<u8>), CodecError>(
            (DeviceInfoFieldsView { version_major: Some(value), ..acc }, rest),
        ),
{
    reveal(device_info_entry);
    int_round_trip(2, uint_item(value as nat) + rest);
    uint_round_trip(value as nat, 0xff, rest);
}

proof fn device_info_version_minor_is_read(value: u8, acc: DeviceInfoFieldsView, rest: Seq<u8>)
    ensures
        DeviceInfoFields::entry(
            int_item(3) + (uint_item(value as nat) + rest),
            acc,
        ) == Ok::<(DeviceInfoFieldsView, Seq<u8>), CodecError>(
            (DeviceInfoFieldsView { version_minor: Some(value), ..acc }, rest),
        ),
{
    reveal(device_info_entry);
    int_round_trip(3, uint_item(value as nat) + rest);
    uint_round_trip(value as nat, 0xff, rest);
}

proof fn device_info_version_patch_is_read(value: u8, acc: DeviceInfoFieldsView, rest: Seq<u8>)
    ensures
        DeviceInfoFields::entry(
            int_item(4) + (uint_item(value as nat) + rest),
            acc,
        ) == Ok::<(DeviceInfoFieldsView, Seq<u8>), CodecError>(
            (DeviceInfoFieldsView { version_patch: Some(value), ..acc }, rest),
        ),
{
    reveal(device_info_entry);
    int_round_trip(4, uint_item(value as nat) + rest);
    uint_round_trip(value as nat, 0xff, rest);
}

proof fn device_info_config_version_is_read(value: u16, acc: DeviceInfoFieldsView, rest: Seq<u8>)
    ensures
        DeviceInfoFields::entry(
            int_item(5) + (uint_item(value as nat) + rest),
            acc,
        ) == Ok::<(DeviceInfoFieldsView, Seq<u8>), CodecError>(
            (DeviceInfoFieldsView { config_version: Some(value), ..acc }, rest),
        ),
{
    reveal(device_info_entry);
    int_round_trip(5, uint_item(value as nat) + rest);
    uint_round_trip(value as nat, 0xffff, rest);
}

proof fn device_info_manufacturer_is_read(
    value: Seq<char>,
    acc: DeviceInfoFieldsView,
    rest: Seq<u8>,
)
    requires
        encode_utf8(value).len() <= 64,
    ensures
        DeviceInfoFields::entry(
            int_item(6) + (text_item(value) + rest),
            acc,
        ) == Ok::<(DeviceInfoFieldsView, Seq<u8>), CodecError>(
            (DeviceInfoFieldsView { manufacturer: Some(value), ..acc }, rest),
        ),
{
    reveal(device_info_entry);
    int_round_trip(6, text_item(value) + rest);
    text_round_trip(value, rest);
}

proof fn device_info_product_round_trips(
    v: DeviceInfoView,
    acc: DeviceInfoFieldsView,
    left: nat,
    rest: Seq<u8>,
)
    requires
        encode_utf8(v.product).len() <= 64,
    ensures
        take_entries::<DeviceInfoFields>(
            v.product_form() + rest,
            Some(left + 1),
            acc,
        ) == take_entries::<DeviceInfoFields>(
            rest,
            Some(left),
            DeviceInfoFieldsView { product: Some(v.product), ..acc },
        ),
{
    reveal(DeviceInfoView::product_form);
    let i0 = text_item(v.product);
    let r0 = int_item(0) + (i0 + rest);
    let q0 = int_item(0);
    regroup(q0, i0, rest);
    let f1 = DeviceInfoFieldsView { product: Some(v.product), ..acc };
    device_info_product_is_read(v.product, acc, rest);
    one_entry::<DeviceInfoFields>(r0, left + 1, acc, f1, rest);
}

proof fn device_info_firmware_round_trips(
    v: DeviceInfoView,
    acc: DeviceInfoFieldsView,
    left: nat,
    rest: Seq<u8>,
)
    ensures
        take_entries::<DeviceInfoFields>(
            v.firmware_form() + rest,
            Some(left + 5),
            acc,
        ) == take_entries::<DeviceInfoFields>(
            rest,
            Some(left),
            DeviceInfoFieldsView {
                family: Some(v.family),
                version_major: Some(v.version_major),
                version_minor: Some(v.version_minor),
                version_patch: Some(v.version_patch),
                config_version: Some(v.config_version),
                ..acc
            },
        ),
{
    reveal(DeviceInfoView::firmware_form);
    let i0 = uint_item(v.family as nat);
    let i1 = uint_item(v.version_major as nat);
    let i2 = uint_item(v.version_minor as nat);
    let i3 = uint_item(v.version_patch as nat);
    let i4 = uint_item(v.config_version as nat);
    let r4 = int_item(5) + (i4 + rest);
    let r3 = int_item(4) + (i3 + r4);
    let r2 = int_item(3) + (i2 + r3);
    let r1 = int_item(2) + (i1 + r2);
    let r0 = int_item(1) + (i0 + r1);
    let q0 = int_item(1);
    let p1 = q0 + i0;
    let q1 = p1 + int_item(2);
    let p2 = q1 + i1;
    let q2 = p2 + int_item(3);
    let p3 = q2 + i2;
    let q3 = p3 + int_item(4);
    let p4 = q3 + i3;
    let q4 = p4 + int_item(5);
    regroup(q4, i4, rest);
    regroup(p4, int_item(5), i4 + rest);
    regroup(q3, i3, r4);
    regroup(p3, int_item(4), i3 + r4);
    regroup(q2, i2, r3);
    regroup(p2, int_item(3), i2 + r3);
    regroup(q1, i1, r2);
    regroup(p1, int_item(2), i1 + r2);
    regroup(q0, i0, r1);
    let f1 = DeviceInfoFieldsView { family: Some(v.family), ..acc };
    let f2 = DeviceInfoFieldsView { version_major: Some(v.version_major), ..f1 };
    let f3 = DeviceInfoFieldsView { version_minor: Some(v.version_minor), ..f2 };
    let f4 = DeviceInfoFieldsView { version_patch: Some(v.version_patch), ..f3 };
    let f5 = DeviceInfoFieldsView { config_version: Some(v.config_version), ..f4 };
    device_info_family_is_read(v.family, acc, r1);
    one_entry::<DeviceInfoFields>(r0, left + 5, acc, f1, r1);
    device_info_version_major_is_read(v.version_major, f1, r2);
    one_entry::<DeviceInfoFields>(r1, left + 4, f1, f2, r2);
    device_info_version_minor_is_read(v.version_minor, f2, r3);
    one_entry::<DeviceInfoFields>(r2, left + 3, f2, f3, r3);
    device_info_version_patch_is_read(v.version_patch, f3, r4);
    one_entry::<DeviceInfoFields>(r3, left + 2, f3, f4, r4);
    device_info_config_version_is_read(v.config_version, f4, rest);
    one_entry::<DeviceInfoFields>(r4, left + 1, f4, f5, rest);
}

proof fn device_info_manufacturer_round_trips(
    v: DeviceInfoView,
    acc: DeviceInfoFieldsView,
    left: nat,
    rest: Seq<u8>,
)
    requires
        encode_utf8(v.manufacturer).len() <= 64,
    ensures
        take_entries::<DeviceInfoFields>(
            v.manufacturer_form() + rest,
            Some(left + 1),
            acc,
        ) == take_entries::<DeviceInfoFields>(
            rest,
            Some(left),
            DeviceInfoFieldsView { manufacturer: Some(v.manufacturer), ..acc },
        ),
{
    reveal(DeviceInfoView::manufacturer_form);
    let i0 = text_item(v.manufacturer);
    let r0 = int_item(6) + (i0 + rest);
    let q0 = int_item(6);
    regroup(q0, i0, rest);
    let f1 = DeviceInfoFieldsView { manufacturer: Some(v.manufacturer), ..acc };
    device_info_manufacturer_is_read(v.manufacturer, acc, rest);
    one_entry::<DeviceInfoFields>(r0, left + 1, acc, f1, rest);
}

proof fn device_info_form_splits(v: DeviceInfoView, rest: Seq<u8>)
    ensures
        v.cbor_form() + rest == map_head(v.entry_count())
            + (v.product_form() + (v.firmware_form() + (v.manufacturer_form() + rest))),
{
    let g0 = v.product_form();
    let g1 = v.firmware_form();
    let g2 = v.manufacturer_form();
    let r2 = g2 + rest;
    let r1 = g1 + r2;
    let p0 = map_head(v.entry_count());
    let p1 = p0 + g0;
    let p2 = p1 + g1;
    regroup(p2, g2, rest);
    regroup(p1, g1, r2);
    regroup(p0, g0, r1);
}

/// Decoding the CBOR form of this report, whatever follows it, gives the report
/// back.
pub proof fn device_info_round_trips(v: DeviceInfoView, rest: Seq<u8>)
    requires
        encode_utf8(v.product).len() <= 64,
        encode_utf8(v.manufacturer).len() <= 64,
    ensures
        DeviceInfo::take(v.cbor_form() + rest) == Some((v, rest)),
{
    device_info_form_splits(v, rest);
    map_round_trip(
        v.entry_count(),
        v.product_form() + (v.firmware_form() + (v.manufacturer_form() + rest)),
    );
    reveal(DeviceInfoFieldsView::report);
    let g0 = v.product_form();
    let g1 = v.firmware_form();
    let g2 = v.manufacturer_form();
    let r2 = g2 + rest;
    let r1 = g1 + r2;
    let r0 = g0 + r1;
    let f0 = DeviceInfoFields::blank();
    let n3: nat = 0;
    let n2: nat = n3 + 1;
    let n1: nat = n2 + 5;
    let n0: nat = n1 + 1;
    let f1 = DeviceInfoFieldsView { product: Some(v.product), ..f0 };
    let f2 = DeviceInfoFieldsView {
        family: Some(v.family),
        version_major: Some(v.version_major),
        version_minor: Some(v.version_minor),
        version_patch: Some(v.version_patch),
        config_version: Some(v.config_version),
        ..f1
    };
    let f3 = DeviceInfoFieldsView { manufacturer: Some(v.manufacturer), ..f2 };
    device_info_product_round_trips(v, f0, n1, r1);
    device_info_firmware_round_trips(v, f1, n2, r2);
    device_info_manufacturer_round_trips(v, f2, n3, rest);
}

/// The CBOR form of this report fits a management response.
pub proof fn device_info_fits(v: DeviceInfoView)
    requires
        encode_utf8(v.product).len() <= 64,
        encode_utf8(v.manufacturer).len() <= 64,
    ensures
        1 <= v.cbor_form().len() <= 512,
{
    heads_are_short();
    reveal(DeviceInfoView::product_form);
    reveal(DeviceInfoView::firmware_form);
    reveal(DeviceInfoView::manufacturer_form);
}

/// Serializable view of the discovered capabilities.
#[derive(Debug, Clone, Copy, PartialEq, Eq, Structural)]
pub struct CapabilityReport {
    /// Die family.
    pub family: u8,
    /// Package.
    pub package: u8,
    /// Addressable GPIO count.
    pub gpio_count: u8,
    /// External flash present.
    pub flash_external: bool,
    /// In-package flash present.
    pub flash_internal: bool,
    /// Flash capacity in bytes.
    pub flash_size_bytes: u32,
    /// USB device present.
    pub usb_device: bool,
    /// FIDO HID available.
    pub usb_fido_hid: bool,
    /// Management HID available.
    pub usb_management_hid: bool,
    /// Maximum USB product string length.
    pub usb_max_product_string_len: u8,
    /// LED present.
    pub led_available: bool,
    /// LED GPIO configurable.
    pub led_configurable_gpio: bool,
    /// LED dimmable.
    pub led_brightness: bool,
    /// GPIO LED driver present.
    pub led_driver_gpio: bool,
    /// PWM LED driver present.
    pub led_driver_pwm: bool,
    /// Addressable LED driver present.
    pub led_driver_ws2812: bool,
    /// Default LED GPIO.
    pub led_default_gpio: Option<u8>,
    /// Default LED brightness.
    pub led_default_brightness: u8,
    /// BOOTSEL can source presence.
    pub presence_bootsel: bool,
    /// External button present.
    pub presence_external_button: bool,
    /// External button GPIO.
    pub presence_external_button_gpio: Option<u8>,
    /// Bitmask of GPIOs configuration may select for the LED.
    pub led_candidate_gpio_mask: u64,
}

impl View for CapabilityReport {
    type V = CapabilityReport;

    open spec fn view(&self) -> CapabilityReport {
        *self
    }
}

impl CapabilityReport {
    /// The entries `family` to `gpio_count`.
    #[verifier::opaque]
    pub open spec fn chip_form(self) -> Seq<u8> {
        int_item(0) + uint_item(self.family as nat) + int_item(1) + uint_item(self.package as nat)
            + int_item(2) + uint_item(self.gpio_count as nat)
    }

    /// The entries `flash_external` to `flash_size_bytes`.
    #[verifier::opaque]
    pub open spec fn flash_form(self) -> Seq<u8> {
        int_item(3) + bool_item(self.flash_external) + int_item(4) + bool_item(self.flash_internal)
            + int_item(5) + uint_item(self.flash_size_bytes as nat)
    }

    /// The entries `usb_device` to `usb_max_product_string_len`.
    #[verifier::opaque]
    pub open spec fn usb_form(self) -> Seq<u8> {
        int_item(6) + bool_item(self.usb_device) + int_item(7) + bool_item(self.usb_fido_hid)
            + int_item(8) + bool_item(self.usb_management_hid) + int_item(9)
            + uint_item(self.usb_max_product_string_len as nat)
    }

    /// The entries `led_available` to `led_brightness`.
    #[verifier::opaque]
    pub open spec fn led_form(self) -> Seq<u8> {
        int_item(10) + bool_item(self.led_available) + int_item(11)
            + bool_item(self.led_configurable_gpio) + int_item(12) + bool_item(self.led_brightness)
    }

    /// The entries `led_driver_gpio` to `led_driver_ws2812`.
    #[verifier::opaque]
    pub open spec fn drivers_form(self) -> Seq<u8> {
        int_item(13) + bool_item(self.led_driver_gpio) + int_item(14)
            + bool_item(self.led_driver_pwm) + int_item(15) + bool_item(self.led_driver_ws2812)
    }

    /// The entry of `led_default_gpio`.
    pub open spec fn default_gpio_form(self) -> Seq<u8> {
        optional_form(16, self.led_default_gpio)
    }

    /// The entries `led_default_brightness` to `presence_external_button`.
    #[verifier::opaque]
    pub open spec fn presence_form(self) -> Seq<u8> {
        int_item(17) + uint_item(self.led_default_brightness as nat) + int_item(18)
            + bool_item(self.presence_bootsel) + int_item(19)
            + bool_item(self.presence_external_button)
    }

    /// The entry of `presence_external_button_gpio`.
    pub open spec fn button_gpio_form(self) -> Seq<u8> {
        optional_form(20, self.presence_external_button_gpio)
    }

    /// The entry of `led_candidate_gpio_mask`.
    #[verifier::opaque]
    pub open spec fn mask_form(self) -> Seq<u8> {
        int_item(21) + uint_item(self.led_candidate_gpio_mask as nat)
    }

    /// The number of entries.
    pub open spec fn entry_count(self) -> nat {
        20 + optional_count(self.led_default_gpio)
            + optional_count(self.presence_external_button_gpio)
    }

    /// The CBOR form.
    pub open spec fn cbor_form(self) -> Seq<u8> {
        map_head(self.entry_count()) + self.chip_form() + self.flash_form() + self.usb_form()
            + self.led_form() + self.drivers_form() + self.default_gpio_form()
            + self.presence_form() + self.button_gpio_form() + self.mask_form()
    }
}

impl CapabilityReport {
    fn put_chip(&self, out: &mut Vec<u8>)
        ensures
            final(out)@ == old(out)@ + self.chip_form(),
    {
        proof {
            reveal(CapabilityReport::chip_form);
        }
        put_i64(out, 0);
        put_u64(out, self.family as u64);
        put_i64(out, 1);
        put_u64(out, self.package as u64);
        put_i64(out, 2);
        put_u64(out, self.gpio_count as u64);
        assert(out@ =~= old(out)@ + self.chip_form());
    }

    fn put_flash(&self, out: &mut Vec<u8>)
        ensures
            final(out)@ == old(out)@ + self.flash_form(),
    {
        proof {
            reveal(CapabilityReport::flash_form);
        }
        put_i64(out, 3);
        put_bool(out, self.flash_external);
        put_i64(out, 4);
        put_bool(out, self.flash_internal);
        put_i64(out, 5);
        put_u64(out, self.flash_size_bytes as u64);
        assert(out@ =~= old(out)@ + self.flash_form());
    }

    fn put_usb(&self, out: &mut Vec<u8>)
        ensures
            final(out)@ == old(out)@ + self.usb_form(),
    {
        proof {
            reveal(CapabilityReport::usb_form);
        }
        put_i64(out, 6);
        put_bool(out, self.usb_device);
        put_i64(out, 7);
        put_bool(out, self.usb_fido_hid);
        put_i64(out, 8);
        put_bool(out, self.usb_management_hid);
        put_i64(out, 9);
        put_u64(out, self.usb_max_product_string_len as u64);
        assert(out@ =~= old(out)@ + self.usb_form());
    }

    fn put_led(&self, out: &mut Vec<u8>)
        ensures
            final(out)@ == old(out)@ + self.led_form(),
    {
        proof {
            reveal(CapabilityReport::led_form);
        }
        put_i64(out, 10);
        put_bool(out, self.led_available);
        put_i64(out, 11);
        put_bool(out, self.led_configurable_gpio);
        put_i64(out, 12);
        put_bool(out, self.led_brightness);
        assert(out@ =~= old(out)@ + self.led_form());
    }

    fn put_drivers(&self, out: &mut Vec<u8>)
        ensures
            final(out)@ == old(out)@ + self.drivers_form(),
    {
        proof {
            reveal(CapabilityReport::drivers_form);
        }
        put_i64(out, 13);
        put_bool(out, self.led_driver_gpio);
        put_i64(out, 14);
        put_bool(out, self.led_driver_pwm);
        put_i64(out, 15);
        put_bool(out, self.led_driver_ws2812);
        assert(out@ =~= old(out)@ + self.drivers_form());
    }

    fn put_default_gpio(&self, out: &mut Vec<u8>)
        ensures
            final(out)@ == old(out)@ + self.default_gpio_form(),
    {
        put_optional(out, 16, self.led_default_gpio);
    }

    fn put_presence(&self, out: &mut Vec<u8>)
        ensures
            final(out)@ == old(out)@ + self.presence_form(),
    {
        proof {
            reveal(CapabilityReport::presence_form);
        }
        put_i64(out, 17);
        put_u64(out, self.led_default_brightness as u64);
        put_i64(out, 18);
        put_bool(out, self.presence_bootsel);
        put_i64(out, 19);
        put_bool(out, self.presence_external_button);
        assert(out@ =~= old(out)@ + self.presence_form());
    }

    fn put_button_gpio(&self, out: &mut Vec<u8>)
        ensures
            final(out)@ == old(out)@ + self.button_gpio_form(),
    {
        put_optional(out, 20, self.presence_external_button_gpio);
    }

    fn put_mask(&self, out: &mut Vec<u8>)
        ensures
            final(out)@ == old(out)@ + self.mask_form(),
    {
        proof {
            reveal(CapabilityReport::mask_form);
        }
        put_i64(out, 21);
        put_u64(out, self.led_candidate_gpio_mask);
        assert(out@ =~= old(out)@ + self.mask_form());
    }
}

impl Encode for CapabilityReport {
    open spec fn cbor(&self) -> Seq<u8> {
        self.cbor_form()
    }

    fn encode_cbor(&self, out: &mut Vec<u8>) {
        let count: u64 = 20 + if self.led_default_gpio.is_some() { 1 } else { 0 }
            + if self.presence_external_button_gpio.is_some() { 1 } else { 0 };
        put_map_head(out, count);
        self.put_chip(out);
        self.put_flash(out);
        self.put_usb(out);
        self.put_led(out);
        self.put_drivers(out);
        self.put_default_gpio(out);
        self.put_presence(out);
        self.put_button_gpio(out);
        self.put_mask(out);
        assert(out@ =~= old(out)@ + self.cbor_form());
    }
}

/// The entries of this report read so far.
#[derive(Clone, Copy)]
pub struct CapabilityReportFields {
    /// Die family.
    pub family: Option<u8>,
    /// Package.
    pub package: Option<u8>,
    /// Addressable GPIO count.
    pub gpio_count: Option<u8>,
    /// External flash present.
    pub flash_external: Option<bool>,
    /// In-package flash present.
    pub flash_internal: Option<bool>,
    /// Flash capacity in bytes.
    pub flash_size_bytes: Option<u32>,
    /// USB device present.
    pub usb_device: Option<bool>,
    /// FIDO HID available.
    pub usb_fido_hid: Option<bool>,
    /// Management HID available.
    pub usb_management_hid: Option<bool>,
    /// Maximum USB product string length.
    pub usb_max_product_string_len: Option<u8>,
    /// LED present.
    pub led_available: Option<bool>,
    /// LED GPIO configurable.
    pub led_configurable_gpio: Option<bool>,
    /// LED dimmable.
    pub led_brightness: Option<bool>,
    /// GPIO LED driver present.
    pub led_driver_gpio: Option<bool>,
    /// PWM LED driver present.
    pub led_driver_pwm: Option<bool>,
    /// Addressable LED driver present.
    pub led_driver_ws2812: Option<bool>,
    /// Default LED GPIO.
    pub led_default_gpio: Option<u8>,
    /// Default LED brightness.
    pub led_default_brightness: Option<u8>,
    /// BOOTSEL can source presence.
    pub presence_bootsel: Option<bool>,
    /// External button present.
    pub presence_external_button: Option<bool>,
    /// External button GPIO.
    pub presence_external_button_gpio: Option<u8>,
    /// Bitmask of GPIOs configuration may select for the LED.
    pub led_candidate_gpio_mask: Option<u64>,
}

impl View for CapabilityReportFields {
    type V = CapabilityReportFields;

    open spec fn view(&self) -> CapabilityReportFields {
        *self
    }
}

/// What the entry at the front of the input adds to the report.
#[verifier::opaque]
pub open spec fn capability_report_entry(
    s: Seq<u8>,
    acc: CapabilityReportFields,
) -> Result<(CapabilityReportFields, Seq<u8>), CodecError> {
    match take_int(s) {
        None => Err(CodecError::Decode),
        Some((key, value)) => if key == 0 {
                match take_uint_up_to(value, 0xff) {
                    Some((n, rest)) => Ok(
                        (CapabilityReportFields { family: Some(n as u8), ..acc }, rest),
                    ),
                    None => Err(CodecError::Decode),
                }
            } else if key == 1 {
                match take_uint_up_to(value, 0xff) {
                    Some((n, rest)) => Ok(
                        (CapabilityReportFields { package: Some(n as u8), ..acc }, rest),
                    ),
                    None => Err(CodecError::Decode),
                }
            } else if key == 2 {
                match take_uint_up_to(value, 0xff) {
                    Some((n, rest)) => Ok(
                        (CapabilityReportFields { gpio_count: Some(n as u8), ..acc }, rest),
                    ),
                    None => Err(CodecError::Decode),
                }
            } else if key == 3 {
                match take_bool(value) {
                    Some((n, rest)) => Ok(
                        (CapabilityReportFields { flash_external: Some(n), ..acc }, rest),
                    ),
                    None => Err(CodecError::Decode),
                }
            } else if key == 4 {
                match take_bool(value) {
                    Some((n, rest)) => Ok(
                        (CapabilityReportFields { flash_internal: Some(n), ..acc }, rest),
                    ),
                    None => Err(CodecError::Decode),
                }
            } else if key == 5 {
                match take_uint_up_to(value, 0xffff_ffff) {
                    Some((n, rest)) => Ok(
                        (CapabilityReportFields { flash_size_bytes: Some(n as u32), ..acc }, rest),
                    ),
                    None => Err(CodecError::Decode),
                }
            } else if key == 6 {
                match take_bool(value) {
                    Some((n, rest)) => Ok(
                        (CapabilityReportFields { usb_device: Some(n), ..acc }, rest),
                    ),
                    None => Err(CodecError::Decode),
                }
            } else if key == 7 {
                match take_bool(value) {
                    Some((n, rest)) => Ok(
                        (CapabilityReportFields { usb_fido_hid: Some(n), ..acc }, rest),
                    ),
                    None => Err(CodecError::Decode),
                }
            } else if key == 8 {
                match take_bool(value) {
                    Some((n, rest)) => Ok(
                        (CapabilityReportFields { usb_management_hid: Some(n), ..acc }, rest),
                    ),
                    None => Err(CodecError::Decode),
                }
            } else if key == 9 {
                match take_uint_up_to(value, 0xff) {
                    Some((n, rest)) => Ok(
                        (
                            CapabilityReportFields {
                                usb_max_product_string_len: Some(n as u8),
                                ..acc
                            },
                            rest,
                        ),
                    ),
                    None => Err(CodecError::Decode),
                }
            } else if key == 10 {
                match take_bool(value) {
                    Some((n, rest)) => Ok(
                        (CapabilityReportFields { led_available: Some(n), ..acc }, rest),
                    ),
                    None => Err(CodecError::Decode),
                }
            } else if key == 11 {
                match take_bool(value) {
                    Some((n, rest)) => Ok(
                        (CapabilityReportFields { led_configurable_gpio: Some(n), ..acc }, rest),
                    ),
                    None => Err(CodecError::Decode),
                }
            } else if key == 12 {
                match take_bool(value) {
                    Some((n, rest)) => Ok(
                        (CapabilityReportFields { led_brightness: Some(n), ..acc }, rest),
                    ),
                    None => Err(CodecError::Decode),
                }
            } else if key == 13 {
                match take_bool(value) {
                    Some((n, rest)) => Ok(
                        (CapabilityReportFields { led_driver_gpio: Some(n), ..acc }, rest),
                    ),
                    None => Err(CodecError::Decode),
                }
            } else if key == 14 {
                match take_bool(value) {
                    Some((n, rest)) => Ok(
                        (CapabilityReportFields { led_driver_pwm: Some(n), ..acc }, rest),
                    ),
                    None => Err(CodecError::Decode),
                }
            } else if key == 15 {
                match take_bool(value) {
                    Some((n, rest)) => Ok(
                        (CapabilityReportFields { led_driver_ws2812: Some(n), ..acc }, rest),
                    ),
                    None => Err(CodecError::Decode),
                }
            } else if key == 16 {
                match take_optional(value) {
                    Some((n, rest)) => Ok(
                        (CapabilityReportFields { led_default_gpio: n, ..acc }, rest),
                    ),
                    None => Err(CodecError::Decode),
                }
            } else if key == 17 {
                match take_uint_up_to(value, 0xff) {
                    Some((n, rest)) => Ok(
                        (
                            CapabilityReportFields { led_default_brightness: Some(n as u8), ..acc },
                            rest,
                        ),
                    ),
                    None => Err(CodecError::Decode),
                }
            } else if key == 18 {
                match take_bool(value) {
                    Some((n, rest)) => Ok(
                        (CapabilityReportFields { presence_bootsel: Some(n), ..acc }, rest),
                    ),
                    None => Err(CodecError::Decode),
                }
            } else if key == 19 {
                match take_bool(value) {
                    Some((n, rest)) => Ok(
                        (CapabilityReportFields { presence_external_button: Some(n), ..acc }, rest),
                    ),
                    None => Err(CodecError::Decode),
                }
            } else if key == 20 {
                match take_optional(value) {
                    Some((n, rest)) => Ok(
                        (CapabilityReportFields { presence_external_button_gpio: n, ..acc }, rest),
                    ),
                    None => Err(CodecError::Decode),
                }
            } else if key == 21 {
                match take_uint(value) {
                    Some((n, rest)) => Ok(
                        (
                            CapabilityReportFields {
                                led_candidate_gpio_mask: Some(n as u64),
                                ..acc
                            },
                            rest,
                        ),
                    ),
                    None => Err(CodecError::Decode),
                }
            } else {
                match take_any(value) {
                    Some(rest) => Ok((acc, rest)),
                    None => Err(CodecError::Decode),
                }
            },
        }
}

impl Record for CapabilityReportFields {
    type Error = CodecError;

    open spec fn blank() -> CapabilityReportFields {
        CapabilityReportFields {
            family: None,
            package: None,
            gpio_count: None,
            flash_external: None,
            flash_internal: None,
            flash_size_bytes: None,
            usb_device: None,
            usb_fido_hid: None,
            usb_management_hid: None,
            usb_max_product_string_len: None,
            led_available: None,
            led_configurable_gpio: None,
            led_brightness: None,
            led_driver_gpio: None,
            led_driver_pwm: None,
            led_driver_ws2812: None,
            led_default_gpio: None,
            led_default_brightness: None,
            presence_bootsel: None,
            presence_external_button: None,
            presence_external_button_gpio: None,
            led_candidate_gpio_mask: None,
        }
    }

    open spec fn malformed() -> CodecError {
        CodecError::Decode
    }

    open spec fn entry(
        s: Seq<u8>,
        acc: CapabilityReportFields,
    ) -> Result<(CapabilityReportFields, Seq<u8>), CodecError> {
        capability_report_entry(s, acc)
    }

    fn new_blank() -> (r: Self) {
        CapabilityReportFields {
            family: None,
            package: None,
            gpio_count: None,
            flash_external: None,
            flash_internal: None,
            flash_size_bytes: None,
            usb_device: None,
            usb_fido_hid: None,
            usb_management_hid: None,
            usb_max_product_string_len: None,
            led_available: None,
            led_configurable_gpio: None,
            led_brightness: None,
            led_driver_gpio: None,
            led_driver_pwm: None,
            led_driver_ws2812: None,
            led_default_gpio: None,
            led_default_brightness: None,
            presence_bootsel: None,
            presence_external_button: None,
            presence_external_button_gpio: None,
            led_candidate_gpio_mask: None,
        }
    }

    fn malformed_error() -> (r: CodecError) {
        CodecError::Decode
    }

    fn read_entry<'a>(&mut self, input: &'a [u8]) -> (r: Result<&'a [u8], CodecError>) {
        proof {
            reveal(capability_report_entry);
        }
        let (key, value) = match read_i64(input) {
            Some(pair) => pair,
            None => return Err(CodecError::Decode),
        };
        if key == 0 {
            if let Some((n, rest)) = read_u8(value) {
                self.family = Some(n);
                return Ok(rest);
            }
        } else if key == 1 {
            if let Some((n, rest)) = read_u8(value) {
                self.package = Some(n);
                return Ok(rest);
            }
        } else if key == 2 {
            if let Some((n, rest)) = read_u8(value) {
                self.gpio_count = Some(n);
                return Ok(rest);
            }
        } else if key == 3 {
            if let Some((n, rest)) = read_bool(value) {
                self.flash_external = Some(n);
                return Ok(rest);
            }
        } else if key == 4 {
            if let Some((n, rest)) = read_bool(value) {
                self.flash_internal = Some(n);
                return Ok(rest);
            }
        } else if key == 5 {
            if let Some((n, rest)) = read_u32(value) {
                self.flash_size_bytes = Some(n);
                return Ok(rest);
            }
        } else if key == 6 {
            if let Some((n, rest)) = read_bool(value) {
                self.usb_device = Some(n);
                return Ok(rest);
            }
        } else if key == 7 {
            if let Some((n, rest)) = read_bool(value) {
                self.usb_fido_hid = Some(n);
                return Ok(rest);
            }
        } else if key == 8 {
            if let Some((n, rest)) = read_bool(value) {
                self.usb_management_hid = Some(n);
                return Ok(rest);
            }
        } else if key == 9 {
            if let Some((n, rest)) = read_u8(value) {
                self.usb_max_product_string_len = Some(n);
                return Ok(rest);
            }
        } else if key == 10 {
            if let Some((n, rest)) = read_bool(value) {
                self.led_available = Some(n);
                return Ok(rest);
            }
        } else if key == 11 {
            if let Some((n, rest)) = read_bool(value) {
                self.led_configurable_gpio = Some(n);
                return Ok(rest);
            }
        } else if key == 12 {
            if let Some((n, rest)) = read_bool(value) {
                self.led_brightness = Some(n);
                return Ok(rest);
            }
        } else if key == 13 {
            if let Some((n, rest)) = read_bool(value) {
                self.led_driver_gpio = Some(n);
                return Ok(rest);
            }
        } else if key == 14 {
            if let Some((n, rest)) = read_bool(value) {
                self.led_driver_pwm = Some(n);
                return Ok(rest);
            }
        } else if key == 15 {
            if let Some((n, rest)) = read_bool(value) {
                self.led_driver_ws2812 = Some(n);
                return Ok(rest);
            }
        } else if key == 16 {
            if let Some((n, rest)) = read_optional(value) {
                self.led_default_gpio = n;
                return Ok(rest);
            }
        } else if key == 17 {
            if let Some((n, rest)) = read_u8(value) {
                self.led_default_brightness = Some(n);
                return Ok(rest);
            }
        } else if key == 18 {
            if let Some((n, rest)) = read_bool(value) {
                self.presence_bootsel = Some(n);
                return Ok(rest);
            }
        } else if key == 19 {
            if let Some((n, rest)) = read_bool(value) {
                self.presence_external_button = Some(n);
                return Ok(rest);
            }
        } else if key == 20 {
            if let Some((n, rest)) = read_optional(value) {
                self.presence_external_button_gpio = n;
                return Ok(rest);
            }
        } else if key == 21 {
            if let Some((n, rest)) = read_u64(value) {
                self.led_candidate_gpio_mask = Some(n);
                return Ok(rest);
            }
        } else if let Some(rest) = skip_item(value) {
            return Ok(rest);
        }
        Err(CodecError::Decode)
    }
}

impl CapabilityReportFields {
    /// The report, where every entry that it needs was read.
    #[verifier::opaque]
    pub open spec fn report(self) -> Option<CapabilityReport> {
        if self.family is Some && self.package is Some && self.gpio_count is Some
            && self.flash_external is Some && self.flash_internal is Some
            && self.flash_size_bytes is Some && self.usb_device is Some && self.usb_fido_hid is Some
            && self.usb_management_hid is Some && self.usb_max_product_string_len is Some
            && self.led_available is Some && self.led_configurable_gpio is Some
            && self.led_brightness is Some && self.led_driver_gpio is Some
            && self.led_driver_pwm is Some && self.led_driver_ws2812 is Some
            && self.led_default_brightness is Some && self.presence_bootsel is Some
            && self.presence_external_button is Some && self.led_candidate_gpio_mask is Some {
            Some(
                CapabilityReport {
                    family: self.family->0,
                    package: self.package->0,
                    gpio_count: self.gpio_count->0,
                    flash_external: self.flash_external->0,
                    flash_internal: self.flash_internal->0,
                    flash_size_bytes: self.flash_size_bytes->0,
                    usb_device: self.usb_device->0,
                    usb_fido_hid: self.usb_fido_hid->0,
                    usb_management_hid: self.usb_management_hid->0,
                    usb_max_product_string_len: self.usb_max_product_string_len->0,
                    led_available: self.led_available->0,
                    led_configurable_gpio: self.led_configurable_gpio->0,
                    led_brightness: self.led_brightness->0,
                    led_driver_gpio: self.led_driver_gpio->0,
                    led_driver_pwm: self.led_driver_pwm->0,
                    led_driver_ws2812: self.led_driver_ws2812->0,
                    led_default_gpio: self.led_default_gpio,
                    led_default_brightness: self.led_default_brightness->0,
                    presence_bootsel: self.presence_bootsel->0,
                    presence_external_button: self.presence_external_button->0,
                    presence_external_button_gpio: self.presence_external_button_gpio,
                    led_candidate_gpio_mask: self.led_candidate_gpio_mask->0,
                },
            )
        } else {
            None
        }
    }
}

impl CapabilityReportFields {
    fn into_report(self) -> (r: Option<CapabilityReport>)
        ensures
            r == self.report(),
    {
        proof {
            reveal(CapabilityReportFields::report);
        }
        let family: u8 = match self.family {
            Some(family) => family,
            None => return None,
        };
        let package: u8 = match self.package {
            Some(package) => package,
            None => return None,
        };
        let gpio_count: u8 = match self.gpio_count {
            Some(gpio_count) => gpio_count,
            None => return None,
        };
        let flash_external: bool = match self.flash_external {
            Some(flash_external) => flash_external,
            None => return None,
        };
        let flash_internal: bool = match self.flash_internal {
            Some(flash_internal) => flash_internal,
            None => return None,
        };
        let flash_size_bytes: u32 = match self.flash_size_bytes {
            Some(flash_size_bytes) => flash_size_bytes,
            None => return None,
        };
        let usb_device: bool = match self.usb_device {
            Some(usb_device) => usb_device,
            None => return None,
        };
        let usb_fido_hid: bool = match self.usb_fido_hid {
            Some(usb_fido_hid) => usb_fido_hid,
            None => return None,
        };
        let usb_management_hid: bool = match self.usb_management_hid {
            Some(usb_management_hid) => usb_management_hid,
            None => return None,
        };
        let usb_max_product_string_len: u8 = match self.usb_max_product_string_len {
            Some(usb_max_product_string_len) => usb_max_product_string_len,
            None => return None,
        };
        let led_available: bool = match self.led_available {
            Some(led_available) => led_available,
            None => return None,
        };
        let led_configurable_gpio: bool = match self.led_configurable_gpio {
            Some(led_configurable_gpio) => led_configurable_gpio,
            None => return None,
        };
        let led_brightness: bool = match self.led_brightness {
            Some(led_brightness) => led_brightness,
            None => return None,
        };
        let led_driver_gpio: bool = match self.led_driver_gpio {
            Some(led_driver_gpio) => led_driver_gpio,
            None => return None,
        };
        let led_driver_pwm: bool = match self.led_driver_pwm {
            Some(led_driver_pwm) => led_driver_pwm,
            None => return None,
        };
        let led_driver_ws2812: bool = match self.led_driver_ws2812 {
            Some(led_driver_ws2812) => led_driver_ws2812,
            None => return None,
        };
        let led_default_brightness: u8 = match self.led_default_brightness {
            Some(led_default_brightness) => led_default_brightness,
            None => return None,
        };
        let presence_bootsel: bool = match self.presence_bootsel {
            Some(presence_bootsel) => presence_bootsel,
            None => return None,
        };
        let presence_external_button: bool = match self.presence_external_button {
            Some(presence_external_button) => presence_external_button,
            None => return None,
        };
        let led_candidate_gpio_mask: u64 = match self.led_candidate_gpio_mask {
            Some(led_candidate_gpio_mask) => led_candidate_gpio_mask,
            None => return None,
        };
        let led_default_gpio: Option<u8> = self.led_default_gpio;
        let presence_external_button_gpio: Option<u8> = self.presence_external_button_gpio;
        Some(
            CapabilityReport {
                family,
                package,
                gpio_count,
                flash_external,
                flash_internal,
                flash_size_bytes,
                usb_device,
                usb_fido_hid,
                usb_management_hid,
                usb_max_product_string_len,
                led_available,
                led_configurable_gpio,
                led_brightness,
                led_driver_gpio,
                led_driver_pwm,
                led_driver_ws2812,
                led_default_gpio,
                led_default_brightness,
                presence_bootsel,
                presence_external_button,
                presence_external_button_gpio,
                led_candidate_gpio_mask,
            },
        )
    }
}

impl Decode for CapabilityReport {
    open spec fn take(s: Seq<u8>) -> Option<(CapabilityReport, Seq<u8>)> {
        match take_open_record::<CapabilityReportFields>(s) {
            Ok((f, rest)) => match f.report() {
                Some(report) => Some((report, rest)),
                None => None,
            },
            Err(_) => None,
        }
    }

    fn decode_cbor(input: &[u8]) -> (r: Option<(Self, &[u8])>) {
        match read_open_record::<CapabilityReportFields>(input) {
            Ok((f, rest)) => match f.into_report() {
                Some(report) => Some((report, rest)),
                None => None,
            },
            Err(_) => None,
        }
    }
}

proof fn capability_report_family_is_read(value: u8, acc: CapabilityReportFields, rest: Seq<u8>)
    ensures
        CapabilityReportFields::entry(
            int_item(0) + (uint_item(value as nat) + rest),
            acc,
        ) == Ok::<(CapabilityReportFields, Seq<u8>), CodecError>(
            (CapabilityReportFields { family: Some(value), ..acc }, rest),
        ),
{
    reveal(capability_report_entry);
    int_round_trip(0, uint_item(value as nat) + rest);
    uint_round_trip(value as nat, 0xff, rest);
}

proof fn capability_report_package_is_read(value: u8, acc: CapabilityReportFields, rest: Seq<u8>)
    ensures
        CapabilityReportFields::entry(
            int_item(1) + (uint_item(value as nat) + rest),
            acc,
        ) == Ok::<(CapabilityReportFields, Seq<u8>), CodecError>(
            (CapabilityReportFields { package: Some(value), ..acc }, rest),
        ),
{
    reveal(capability_report_entry);
    int_round_trip(1, uint_item(value as nat) + rest);
    uint_round_trip(value as nat, 0xff, rest);
}

proof fn capability_report_gpio_count_is_read(value: u8, acc: CapabilityReportFields, rest: Seq<u8>)
    ensures
        CapabilityReportFields::entry(
            int_item(2) + (uint_item(value as nat) + rest),
            acc,
        ) == Ok::<(CapabilityReportFields, Seq<u8>), CodecError>(
            (CapabilityReportFields { gpio_count: Some(value), ..acc }, rest),
        ),
{
    reveal(capability_report_entry);
    int_round_trip(2, uint_item(value as nat) + rest);
    uint_round_trip(value as nat, 0xff, rest);
}

proof fn capability_report_flash_external_is_read(
    value: bool,
    acc: CapabilityReportFields,
    rest: Seq<u8>,
)
    ensures
        CapabilityReportFields::entry(
            int_item(3) + (bool_item(value) + rest),
            acc,
        ) == Ok::<(CapabilityReportFields, Seq<u8>), CodecError>(
            (CapabilityReportFields { flash_external: Some(value), ..acc }, rest),
        ),
{
    reveal(capability_report_entry);
    int_round_trip(3, bool_item(value) + rest);
    bool_round_trip(value, rest);
}

proof fn capability_report_flash_internal_is_read(
    value: bool,
    acc: CapabilityReportFields,
    rest: Seq<u8>,
)
    ensures
        CapabilityReportFields::entry(
            int_item(4) + (bool_item(value) + rest),
            acc,
        ) == Ok::<(CapabilityReportFields, Seq<u8>), CodecError>(
            (CapabilityReportFields { flash_internal: Some(value), ..acc }, rest),
        ),
{
    reveal(capability_report_entry);
    int_round_trip(4, bool_item(value) + rest);
    bool_round_trip(value, rest);
}

proof fn capability_report_flash_size_bytes_is_read(
    value: u32,
    acc: CapabilityReportFields,
    rest: Seq<u8>,
)
    ensures
        CapabilityReportFields::entry(
            int_item(5) + (uint_item(value as nat) + rest),
            acc,
        ) == Ok::<(CapabilityReportFields, Seq<u8>), CodecError>(
            (CapabilityReportFields { flash_size_bytes: Some(value), ..acc }, rest),
        ),
{
    reveal(capability_report_entry);
    int_round_trip(5, uint_item(value as nat) + rest);
    uint_round_trip(value as nat, 0xffff_ffff, rest);
}

proof fn capability_report_usb_device_is_read(
    value: bool,
    acc: CapabilityReportFields,
    rest: Seq<u8>,
)
    ensures
        CapabilityReportFields::entry(
            int_item(6) + (bool_item(value) + rest),
            acc,
        ) == Ok::<(CapabilityReportFields, Seq<u8>), CodecError>(
            (CapabilityReportFields { usb_device: Some(value), ..acc }, rest),
        ),
{
    reveal(capability_report_entry);
    int_round_trip(6, bool_item(value) + rest);
    bool_round_trip(value, rest);
}

proof fn capability_report_usb_fido_hid_is_read(
    value: bool,
    acc: CapabilityReportFields,
    rest: Seq<u8>,
)
    ensures
        CapabilityReportFields::entry(
            int_item(7) + (bool_item(value) + rest),
            acc,
        ) == Ok::<(CapabilityReportFields, Seq<u8>), CodecError>(
            (CapabilityReportFields { usb_fido_hid: Some(value), ..acc }, rest),
        ),
{
    reveal(capability_report_entry);
    int_round_trip(7, bool_item(value) + rest);
    bool_round_trip(value, rest);
}

proof fn capability_report_usb_management_hid_is_read(
    value: bool,
    acc: CapabilityReportFields,
    rest: Seq<u8>,
)
    ensures
        CapabilityReportFields::entry(
            int_item(8) + (bool_item(value) + rest),
            acc,
        ) == Ok::<(CapabilityReportFields, Seq<u8>), CodecError>(
            (CapabilityReportFields { usb_management_hid: Some(value), ..acc }, rest),
        ),
{
    reveal(capability_report_entry);
    int_round_trip(8, bool_item(value) + rest);
    bool_round_trip(value, rest);
}

proof fn capability_report_usb_max_product_string_len_is_read(
    value: u8,
    acc: CapabilityReportFields,
    rest: Seq<u8>,
)
    ensures
        CapabilityReportFields::entry(
            int_item(9) + (uint_item(value as nat) + rest),
            acc,
        ) == Ok::<(CapabilityReportFields, Seq<u8>), CodecError>(
            (CapabilityReportFields { usb_max_product_string_len: Some(value), ..acc }, rest),
        ),
{
    reveal(capability_report_entry);
    int_round_trip(9, uint_item(value as nat) + rest);
    uint_round_trip(value as nat, 0xff, rest);
}

proof fn capability_report_led_available_is_read(
    value: bool,
    acc: CapabilityReportFields,
    rest: Seq<u8>,
)
    ensures
        CapabilityReportFields::entry(
            int_item(10) + (bool_item(value) + rest),
            acc,
        ) == Ok::<(CapabilityReportFields, Seq<u8>), CodecError>(
            (CapabilityReportFields { led_available: Some(value), ..acc }, rest),
        ),
{
    reveal(capability_report_entry);
    int_round_trip(10, bool_item(value) + rest);
    bool_round_trip(value, rest);
}

proof fn capability_report_led_configurable_gpio_is_read(
    value: bool,
    acc: CapabilityReportFields,
    rest: Seq<u8>,
)
    ensures
        CapabilityReportFields::entry(
            int_item(11) + (bool_item(value) + rest),
            acc,
        ) == Ok::<(CapabilityReportFields, Seq<u8>), CodecError>(
            (CapabilityReportFields { led_configurable_gpio: Some(value), ..acc }, rest),
        ),
{
    reveal(capability_report_entry);
    int_round_trip(11, bool_item(value) + rest);
    bool_round_trip(value, rest);
}

proof fn capability_report_led_brightness_is_read(
    value: bool,
    acc: CapabilityReportFields,
    rest: Seq<u8>,
)
    ensures
        CapabilityReportFields::entry(
            int_item(12) + (bool_item(value) + rest),
            acc,
        ) == Ok::<(CapabilityReportFields, Seq<u8>), CodecError>(
            (CapabilityReportFields { led_brightness: Some(value), ..acc }, rest),
        ),
{
    reveal(capability_report_entry);
    int_round_trip(12, bool_item(value) + rest);
    bool_round_trip(value, rest);
}

proof fn capability_report_led_driver_gpio_is_read(
    value: bool,
    acc: CapabilityReportFields,
    rest: Seq<u8>,
)
    ensures
        CapabilityReportFields::entry(
            int_item(13) + (bool_item(value) + rest),
            acc,
        ) == Ok::<(CapabilityReportFields, Seq<u8>), CodecError>(
            (CapabilityReportFields { led_driver_gpio: Some(value), ..acc }, rest),
        ),
{
    reveal(capability_report_entry);
    int_round_trip(13, bool_item(value) + rest);
    bool_round_trip(value, rest);
}

proof fn capability_report_led_driver_pwm_is_read(
    value: bool,
    acc: CapabilityReportFields,
    rest: Seq<u8>,
)
    ensures
        CapabilityReportFields::entry(
            int_item(14) + (bool_item(value) + rest),
            acc,
        ) == Ok::<(CapabilityReportFields, Seq<u8>), CodecError>(
            (CapabilityReportFields { led_driver_pwm: Some(value), ..acc }, rest),
        ),
{
    reveal(capability_report_entry);
    int_round_trip(14, bool_item(value) + rest);
    bool_round_trip(value, rest);
}

proof fn capability_report_led_driver_ws2812_is_read(
    value: bool,
    acc: CapabilityReportFields,
    rest: Seq<u8>,
)
    ensures
        CapabilityReportFields::entry(
            int_item(15) + (bool_item(value) + rest),
            acc,
        ) == Ok::<(CapabilityReportFields, Seq<u8>), CodecError>(
            (CapabilityReportFields { led_driver_ws2812: Some(value), ..acc }, rest),
        ),
{
    reveal(capability_report_entry);
    int_round_trip(15, bool_item(value) + rest);
    bool_round_trip(value, rest);
}

proof fn capability_report_led_default_gpio_is_read(
    value: Option<u8>,
    acc: CapabilityReportFields,
    left: nat,
    rest: Seq<u8>,
)
    requires
        acc.led_default_gpio is None,
    ensures
        take_entries::<CapabilityReportFields>(
            optional_form(16, value) + rest,
            Some(left + optional_count(value)),
            acc,
        ) == take_entries::<CapabilityReportFields>(
            rest,
            Some(left),
            CapabilityReportFields { led_default_gpio: value, ..acc },
        ),
{
    match value {
        Some(n) => {
            let item = uint_item(n as nat);
            regroup(int_item(16), item, rest);
            reveal(capability_report_entry);
            int_round_trip(16, item + rest);
            uint_round_trip(n as nat, 0xff, rest);
            crate::cbor::head_round_trip(crate::cbor::UNSIGNED, n as nat, rest);
            one_entry::<CapabilityReportFields>(
                int_item(16) + (item + rest),
                left + 1,
                acc,
                CapabilityReportFields { led_default_gpio: value, ..acc },
                rest,
            );
        },
        None => {
            assert(Seq::<u8>::empty() + rest =~= rest);
        },
    }
}

proof fn capability_report_led_default_brightness_is_read(
    value: u8,
    acc: CapabilityReportFields,
    rest: Seq<u8>,
)
    ensures
        CapabilityReportFields::entry(
            int_item(17) + (uint_item(value as nat) + rest),
            acc,
        ) == Ok::<(CapabilityReportFields, Seq<u8>), CodecError>(
            (CapabilityReportFields { led_default_brightness: Some(value), ..acc }, rest),
        ),
{
    reveal(capability_report_entry);
    int_round_trip(17, uint_item(value as nat) + rest);
    uint_round_trip(value as nat, 0xff, rest);
}

proof fn capability_report_presence_bootsel_is_read(
    value: bool,
    acc: CapabilityReportFields,
    rest: Seq<u8>,
)
    ensures
        CapabilityReportFields::entry(
            int_item(18) + (bool_item(value) + rest),
            acc,
        ) == Ok::<(CapabilityReportFields, Seq<u8>), CodecError>(
            (CapabilityReportFields { presence_bootsel: Some(value), ..acc }, rest),
        ),
{
    reveal(capability_report_entry);
    int_round_trip(18, bool_item(value) + rest);
    bool_round_trip(value, rest);
}

proof fn capability_report_presence_external_button_is_read(
    value: bool,
    acc: CapabilityReportFields,
    rest: Seq<u8>,
)
    ensures
        CapabilityReportFields::entry(
            int_item(19) + (bool_item(value) + rest),
            acc,
        ) == Ok::<(CapabilityReportFields, Seq<u8>), CodecError>(
            (CapabilityReportFields { presence_external_button: Some(value), ..acc }, rest),
        ),
{
    reveal(capability_report_entry);
    int_round_trip(19, bool_item(value) + rest);
    bool_round_trip(value, rest);
}

proof fn capability_report_presence_external_button_gpio_is_read(
    value: Option<u8>,
    acc: CapabilityReportFields,
    left: nat,
    rest: Seq<u8>,
)
    requires
        acc.presence_external_button_gpio is None,
    ensures
        take_entries::<CapabilityReportFields>(
            optional_form(20, value) + rest,
            Some(left + optional_count(value)),
            acc,
        ) == take_entries::<CapabilityReportFields>(
            rest,
            Some(left),
            CapabilityReportFields { presence_external_button_gpio: value, ..acc },
        ),
{
    match value {
        Some(n) => {
            let item = uint_item(n as nat);
            regroup(int_item(20), item, rest);
            reveal(capability_report_entry);
            int_round_trip(20, item + rest);
            uint_round_trip(n as nat, 0xff, rest);
            crate::cbor::head_round_trip(crate::cbor::UNSIGNED, n as nat, rest);
            one_entry::<CapabilityReportFields>(
                int_item(20) + (item + rest),
                left + 1,
                acc,
                CapabilityReportFields { presence_external_button_gpio: value, ..acc },
                rest,
            );
        },
        None => {
            assert(Seq::<u8>::empty() + rest =~= rest);
        },
    }
}

proof fn capability_report_led_candidate_gpio_mask_is_read(
    value: u64,
    acc: CapabilityReportFields,
    rest: Seq<u8>,
)
    ensures
        CapabilityReportFields::entry(
            int_item(21) + (uint_item(value as nat) + rest),
            acc,
        ) == Ok::<(CapabilityReportFields, Seq<u8>), CodecError>(
            (CapabilityReportFields { led_candidate_gpio_mask: Some(value), ..acc }, rest),
        ),
{
    reveal(capability_report_entry);
    int_round_trip(21, uint_item(value as nat) + rest);
    uint_round_trip(value as nat, value as nat, rest);
}

proof fn capability_report_chip_round_trips(
    v: CapabilityReport,
    acc: CapabilityReportFields,
    left: nat,
    rest: Seq<u8>,
)
    ensures
        take_entries::<CapabilityReportFields>(
            v.chip_form() + rest,
            Some(left + 3),
            acc,
        ) == take_entries::<CapabilityReportFields>(
            rest,
            Some(left),
            CapabilityReportFields {
                family: Some(v.family),
                package: Some(v.package),
                gpio_count: Some(v.gpio_count),
                ..acc
            },
        ),
{
    reveal(CapabilityReport::chip_form);
    let i0 = uint_item(v.family as nat);
    let i1 = uint_item(v.package as nat);
    let i2 = uint_item(v.gpio_count as nat);
    let r2 = int_item(2) + (i2 + rest);
    let r1 = int_item(1) + (i1 + r2);
    let r0 = int_item(0) + (i0 + r1);
    let q0 = int_item(0);
    let p1 = q0 + i0;
    let q1 = p1 + int_item(1);
    let p2 = q1 + i1;
    let q2 = p2 + int_item(2);
    regroup(q2, i2, rest);
    regroup(p2, int_item(2), i2 + rest);
    regroup(q1, i1, r2);
    regroup(p1, int_item(1), i1 + r2);
    regroup(q0, i0, r1);
    let f1 = CapabilityReportFields { family: Some(v.family), ..acc };
    let f2 = CapabilityReportFields { package: Some(v.package), ..f1 };
    let f3 = CapabilityReportFields { gpio_count: Some(v.gpio_count), ..f2 };
    capability_report_family_is_read(v.family, acc, r1);
    one_entry::<CapabilityReportFields>(r0, left + 3, acc, f1, r1);
    capability_report_package_is_read(v.package, f1, r2);
    one_entry::<CapabilityReportFields>(r1, left + 2, f1, f2, r2);
    capability_report_gpio_count_is_read(v.gpio_count, f2, rest);
    one_entry::<CapabilityReportFields>(r2, left + 1, f2, f3, rest);
}

proof fn capability_report_flash_round_trips(
    v: CapabilityReport,
    acc: CapabilityReportFields,
    left: nat,
    rest: Seq<u8>,
)
    ensures
        take_entries::<CapabilityReportFields>(
            v.flash_form() + rest,
            Some(left + 3),
            acc,
        ) == take_entries::<CapabilityReportFields>(
            rest,
            Some(left),
            CapabilityReportFields {
                flash_external: Some(v.flash_external),
                flash_internal: Some(v.flash_internal),
                flash_size_bytes: Some(v.flash_size_bytes),
                ..acc
            },
        ),
{
    reveal(CapabilityReport::flash_form);
    let i0 = bool_item(v.flash_external);
    let i1 = bool_item(v.flash_internal);
    let i2 = uint_item(v.flash_size_bytes as nat);
    let r2 = int_item(5) + (i2 + rest);
    let r1 = int_item(4) + (i1 + r2);
    let r0 = int_item(3) + (i0 + r1);
    let q0 = int_item(3);
    let p1 = q0 + i0;
    let q1 = p1 + int_item(4);
    let p2 = q1 + i1;
    let q2 = p2 + int_item(5);
    regroup(q2, i2, rest);
    regroup(p2, int_item(5), i2 + rest);
    regroup(q1, i1, r2);
    regroup(p1, int_item(4), i1 + r2);
    regroup(q0, i0, r1);
    let f1 = CapabilityReportFields { flash_external: Some(v.flash_external), ..acc };
    let f2 = CapabilityReportFields { flash_internal: Some(v.flash_internal), ..f1 };
    let f3 = CapabilityReportFields { flash_size_bytes: Some(v.flash_size_bytes), ..f2 };
    capability_report_flash_external_is_read(v.flash_external, acc, r1);
    one_entry::<CapabilityReportFields>(r0, left + 3, acc, f1, r1);
    capability_report_flash_internal_is_read(v.flash_internal, f1, r2);
    one_entry::<CapabilityReportFields>(r1, left + 2, f1, f2, r2);
    capability_report_flash_size_bytes_is_read(v.flash_size_bytes, f2, rest);
    one_entry::<CapabilityReportFields>(r2, left + 1, f2, f3, rest);
}

proof fn capability_report_usb_round_trips(
    v: CapabilityReport,
    acc: CapabilityReportFields,
    left: nat,
    rest: Seq<u8>,
)
    ensures
        take_entries::<CapabilityReportFields>(
            v.usb_form() + rest,
            Some(left + 4),
            acc,
        ) == take_entries::<CapabilityReportFields>(
            rest,
            Some(left),
            CapabilityReportFields {
                usb_device: Some(v.usb_device),
                usb_fido_hid: Some(v.usb_fido_hid),
                usb_management_hid: Some(v.usb_management_hid),
                usb_max_product_string_len: Some(v.usb_max_product_string_len),
                ..acc
            },
        ),
{
    reveal(CapabilityReport::usb_form);
    let i0 = bool_item(v.usb_device);
    let i1 = bool_item(v.usb_fido_hid);
    let i2 = bool_item(v.usb_management_hid);
    let i3 = uint_item(v.usb_max_product_string_len as nat);
    let r3 = int_item(9) + (i3 + rest);
    let r2 = int_item(8) + (i2 + r3);
    let r1 = int_item(7) + (i1 + r2);
    let r0 = int_item(6) + (i0 + r1);
    let q0 = int_item(6);
    let p1 = q0 + i0;
    let q1 = p1 + int_item(7);
    let p2 = q1 + i1;
    let q2 = p2 + int_item(8);
    let p3 = q2 + i2;
    let q3 = p3 + int_item(9);
    regroup(q3, i3, rest);
    regroup(p3, int_item(9), i3 + rest);
    regroup(q2, i2, r3);
    regroup(p2, int_item(8), i2 + r3);
    regroup(q1, i1, r2);
    regroup(p1, int_item(7), i1 + r2);
    regroup(q0, i0, r1);
    let f1 = CapabilityReportFields { usb_device: Some(v.usb_device), ..acc };
    let f2 = CapabilityReportFields { usb_fido_hid: Some(v.usb_fido_hid), ..f1 };
    let f3 = CapabilityReportFields { usb_management_hid: Some(v.usb_management_hid), ..f2 };
    let f4 = CapabilityReportFields {
        usb_max_product_string_len: Some(v.usb_max_product_string_len),
        ..f3
    };
    capability_report_usb_device_is_read(v.usb_device, acc, r1);
    one_entry::<CapabilityReportFields>(r0, left + 4, acc, f1, r1);
    capability_report_usb_fido_hid_is_read(v.usb_fido_hid, f1, r2);
    one_entry::<CapabilityReportFields>(r1, left + 3, f1, f2, r2);
    capability_report_usb_management_hid_is_read(v.usb_management_hid, f2, r3);
    one_entry::<CapabilityReportFields>(r2, left + 2, f2, f3, r3);
    capability_report_usb_max_product_string_len_is_read(v.usb_max_product_string_len, f3, rest);
    one_entry::<CapabilityReportFields>(r3, left + 1, f3, f4, rest);
}

proof fn capability_report_led_round_trips(
    v: CapabilityReport,
    acc: CapabilityReportFields,
    left: nat,
    rest: Seq<u8>,
)
    ensures
        take_entries::<CapabilityReportFields>(
            v.led_form() + rest,
            Some(left + 3),
            acc,
        ) == take_entries::<CapabilityReportFields>(
            rest,
            Some(left),
            CapabilityReportFields {
                led_available: Some(v.led_available),
                led_configurable_gpio: Some(v.led_configurable_gpio),
                led_brightness: Some(v.led_brightness),
                ..acc
            },
        ),
{
    reveal(CapabilityReport::led_form);
    let i0 = bool_item(v.led_available);
    let i1 = bool_item(v.led_configurable_gpio);
    let i2 = bool_item(v.led_brightness);
    let r2 = int_item(12) + (i2 + rest);
    let r1 = int_item(11) + (i1 + r2);
    let r0 = int_item(10) + (i0 + r1);
    let q0 = int_item(10);
    let p1 = q0 + i0;
    let q1 = p1 + int_item(11);
    let p2 = q1 + i1;
    let q2 = p2 + int_item(12);
    regroup(q2, i2, rest);
    regroup(p2, int_item(12), i2 + rest);
    regroup(q1, i1, r2);
    regroup(p1, int_item(11), i1 + r2);
    regroup(q0, i0, r1);
    let f1 = CapabilityReportFields { led_available: Some(v.led_available), ..acc };
    let f2 = CapabilityReportFields { led_configurable_gpio: Some(v.led_configurable_gpio), ..f1 };
    let f3 = CapabilityReportFields { led_brightness: Some(v.led_brightness), ..f2 };
    capability_report_led_available_is_read(v.led_available, acc, r1);
    one_entry::<CapabilityReportFields>(r0, left + 3, acc, f1, r1);
    capability_report_led_configurable_gpio_is_read(v.led_configurable_gpio, f1, r2);
    one_entry::<CapabilityReportFields>(r1, left + 2, f1, f2, r2);
    capability_report_led_brightness_is_read(v.led_brightness, f2, rest);
    one_entry::<CapabilityReportFields>(r2, left + 1, f2, f3, rest);
}

proof fn capability_report_drivers_round_trips(
    v: CapabilityReport,
    acc: CapabilityReportFields,
    left: nat,
    rest: Seq<u8>,
)
    ensures
        take_entries::<CapabilityReportFields>(
            v.drivers_form() + rest,
            Some(left + 3),
            acc,
        ) == take_entries::<CapabilityReportFields>(
            rest,
            Some(left),
            CapabilityReportFields {
                led_driver_gpio: Some(v.led_driver_gpio),
                led_driver_pwm: Some(v.led_driver_pwm),
                led_driver_ws2812: Some(v.led_driver_ws2812),
                ..acc
            },
        ),
{
    reveal(CapabilityReport::drivers_form);
    let i0 = bool_item(v.led_driver_gpio);
    let i1 = bool_item(v.led_driver_pwm);
    let i2 = bool_item(v.led_driver_ws2812);
    let r2 = int_item(15) + (i2 + rest);
    let r1 = int_item(14) + (i1 + r2);
    let r0 = int_item(13) + (i0 + r1);
    let q0 = int_item(13);
    let p1 = q0 + i0;
    let q1 = p1 + int_item(14);
    let p2 = q1 + i1;
    let q2 = p2 + int_item(15);
    regroup(q2, i2, rest);
    regroup(p2, int_item(15), i2 + rest);
    regroup(q1, i1, r2);
    regroup(p1, int_item(14), i1 + r2);
    regroup(q0, i0, r1);
    let f1 = CapabilityReportFields { led_driver_gpio: Some(v.led_driver_gpio), ..acc };
    let f2 = CapabilityReportFields { led_driver_pwm: Some(v.led_driver_pwm), ..f1 };
    let f3 = CapabilityReportFields { led_driver_ws2812: Some(v.led_driver_ws2812), ..f2 };
    capability_report_led_driver_gpio_is_read(v.led_driver_gpio, acc, r1);
    one_entry::<CapabilityReportFields>(r0, left + 3, acc, f1, r1);
    capability_report_led_driver_pwm_is_read(v.led_driver_pwm, f1, r2);
    one_entry::<CapabilityReportFields>(r1, left + 2, f1, f2, r2);
    capability_report_led_driver_ws2812_is_read(v.led_driver_ws2812, f2, rest);
    one_entry::<CapabilityReportFields>(r2, left + 1, f2, f3, rest);
}

proof fn capability_report_presence_round_trips(
    v: CapabilityReport,
    acc: CapabilityReportFields,
    left: nat,
    rest: Seq<u8>,
)
    ensures
        take_entries::<CapabilityReportFields>(
            v.presence_form() + rest,
            Some(left + 3),
            acc,
        ) == take_entries::<CapabilityReportFields>(
            rest,
            Some(left),
            CapabilityReportFields {
                led_default_brightness: Some(v.led_default_brightness),
                presence_bootsel: Some(v.presence_bootsel),
                presence_external_button: Some(v.presence_external_button),
                ..acc
            },
        ),
{
    reveal(CapabilityReport::presence_form);
    let i0 = uint_item(v.led_default_brightness as nat);
    let i1 = bool_item(v.presence_bootsel);
    let i2 = bool_item(v.presence_external_button);
    let r2 = int_item(19) + (i2 + rest);
    let r1 = int_item(18) + (i1 + r2);
    let r0 = int_item(17) + (i0 + r1);
    let q0 = int_item(17);
    let p1 = q0 + i0;
    let q1 = p1 + int_item(18);
    let p2 = q1 + i1;
    let q2 = p2 + int_item(19);
    regroup(q2, i2, rest);
    regroup(p2, int_item(19), i2 + rest);
    regroup(q1, i1, r2);
    regroup(p1, int_item(18), i1 + r2);
    regroup(q0, i0, r1);
    let f1 = CapabilityReportFields {
        led_default_brightness: Some(v.led_default_brightness),
        ..acc
    };
    let f2 = CapabilityReportFields { presence_bootsel: Some(v.presence_bootsel), ..f1 };
    let f3 = CapabilityReportFields {
        presence_external_button: Some(v.presence_external_button),
        ..f2
    };
    capability_report_led_default_brightness_is_read(v.led_default_brightness, acc, r1);
    one_entry::<CapabilityReportFields>(r0, left + 3, acc, f1, r1);
    capability_report_presence_bootsel_is_read(v.presence_bootsel, f1, r2);
    one_entry::<CapabilityReportFields>(r1, left + 2, f1, f2, r2);
    capability_report_presence_external_button_is_read(v.presence_external_button, f2, rest);
    one_entry::<CapabilityReportFields>(r2, left + 1, f2, f3, rest);
}

proof fn capability_report_mask_round_trips(
    v: CapabilityReport,
    acc: CapabilityReportFields,
    left: nat,
    rest: Seq<u8>,
)
    ensures
        take_entries::<CapabilityReportFields>(
            v.mask_form() + rest,
            Some(left + 1),
            acc,
        ) == take_entries::<CapabilityReportFields>(
            rest,
            Some(left),
            CapabilityReportFields {
                led_candidate_gpio_mask: Some(v.led_candidate_gpio_mask),
                ..acc
            },
        ),
{
    reveal(CapabilityReport::mask_form);
    let i0 = uint_item(v.led_candidate_gpio_mask as nat);
    let r0 = int_item(21) + (i0 + rest);
    let q0 = int_item(21);
    regroup(q0, i0, rest);
    let f1 = CapabilityReportFields {
        led_candidate_gpio_mask: Some(v.led_candidate_gpio_mask),
        ..acc
    };
    capability_report_led_candidate_gpio_mask_is_read(v.led_candidate_gpio_mask, acc, rest);
    one_entry::<CapabilityReportFields>(r0, left + 1, acc, f1, rest);
}

proof fn capability_report_first_entries(v: CapabilityReport, left: nat, rest: Seq<u8>)
    ensures
        take_entries::<CapabilityReportFields>(
            v.chip_form() + (
                v.flash_form() + (v.usb_form() + (v.led_form() + (v.drivers_form() + rest)))
            ),
            Some(left + 3 + 3 + 4 + 3 + 3),
            CapabilityReportFields {
                family: None,
                package: None,
                gpio_count: None,
                flash_external: None,
                flash_internal: None,
                flash_size_bytes: None,
                usb_device: None,
                usb_fido_hid: None,
                usb_management_hid: None,
                usb_max_product_string_len: None,
                led_available: None,
                led_configurable_gpio: None,
                led_brightness: None,
                led_driver_gpio: None,
                led_driver_pwm: None,
                led_driver_ws2812: None,
                led_default_gpio: None,
                led_default_brightness: None,
                presence_bootsel: None,
                presence_external_button: None,
                presence_external_button_gpio: None,
                led_candidate_gpio_mask: None,
            },
        ) == take_entries::<CapabilityReportFields>(
            rest,
            Some(left),
            CapabilityReportFields {
                family: Some(v.family),
                package: Some(v.package),
                gpio_count: Some(v.gpio_count),
                flash_external: Some(v.flash_external),
                flash_internal: Some(v.flash_internal),
                flash_size_bytes: Some(v.flash_size_bytes),
                usb_device: Some(v.usb_device),
                usb_fido_hid: Some(v.usb_fido_hid),
                usb_management_hid: Some(v.usb_management_hid),
                usb_max_product_string_len: Some(v.usb_max_product_string_len),
                led_available: Some(v.led_available),
                led_configurable_gpio: Some(v.led_configurable_gpio),
                led_brightness: Some(v.led_brightness),
                led_driver_gpio: Some(v.led_driver_gpio),
                led_driver_pwm: Some(v.led_driver_pwm),
                led_driver_ws2812: Some(v.led_driver_ws2812),
                led_default_gpio: None,
                led_default_brightness: None,
                presence_bootsel: None,
                presence_external_button: None,
                presence_external_button_gpio: None,
                led_candidate_gpio_mask: None,
            },
        ),
{
    let g0 = v.chip_form();
    let g1 = v.flash_form();
    let g2 = v.usb_form();
    let g3 = v.led_form();
    let g4 = v.drivers_form();
    let r4 = g4 + rest;
    let r3 = g3 + r4;
    let r2 = g2 + r3;
    let r1 = g1 + r2;
    let r0 = g0 + r1;
    let f0 = CapabilityReportFields {
        family: None,
        package: None,
        gpio_count: None,
        flash_external: None,
        flash_internal: None,
        flash_size_bytes: None,
        usb_device: None,
        usb_fido_hid: None,
        usb_management_hid: None,
        usb_max_product_string_len: None,
        led_available: None,
        led_configurable_gpio: None,
        led_brightness: None,
        led_driver_gpio: None,
        led_driver_pwm: None,
        led_driver_ws2812: None,
        led_default_gpio: None,
        led_default_brightness: None,
        presence_bootsel: None,
        presence_external_button: None,
        presence_external_button_gpio: None,
        led_candidate_gpio_mask: None,
    };
    let n5: nat = left;
    let n4: nat = n5 + 3;
    let n3: nat = n4 + 3;
    let n2: nat = n3 + 4;
    let n1: nat = n2 + 3;
    let n0: nat = n1 + 3;
    let f1 = CapabilityReportFields {
        family: Some(v.family),
        package: Some(v.package),
        gpio_count: Some(v.gpio_count),
        ..f0
    };
    let f2 = CapabilityReportFields {
        flash_external: Some(v.flash_external),
        flash_internal: Some(v.flash_internal),
        flash_size_bytes: Some(v.flash_size_bytes),
        ..f1
    };
    let f3 = CapabilityReportFields {
        usb_device: Some(v.usb_device),
        usb_fido_hid: Some(v.usb_fido_hid),
        usb_management_hid: Some(v.usb_management_hid),
        usb_max_product_string_len: Some(v.usb_max_product_string_len),
        ..f2
    };
    let f4 = CapabilityReportFields {
        led_available: Some(v.led_available),
        led_configurable_gpio: Some(v.led_configurable_gpio),
        led_brightness: Some(v.led_brightness),
        ..f3
    };
    let f5 = CapabilityReportFields {
        led_driver_gpio: Some(v.led_driver_gpio),
        led_driver_pwm: Some(v.led_driver_pwm),
        led_driver_ws2812: Some(v.led_driver_ws2812),
        ..f4
    };
    capability_report_chip_round_trips(v, f0, n1, r1);
    capability_report_flash_round_trips(v, f1, n2, r2);
    capability_report_usb_round_trips(v, f2, n3, r3);
    capability_report_led_round_trips(v, f3, n4, r4);
    capability_report_drivers_round_trips(v, f4, n5, rest);
}

proof fn capability_report_last_entries(v: CapabilityReport, left: nat, rest: Seq<u8>)
    ensures
        take_entries::<CapabilityReportFields>(
            v.default_gpio_form() + (
                v.presence_form() + (v.button_gpio_form() + (v.mask_form() + rest))
            ),
            Some(
                left + optional_count(v.led_default_gpio) + 3
                    + optional_count(v.presence_external_button_gpio) + 1,
            ),
            CapabilityReportFields {
                family: Some(v.family),
                package: Some(v.package),
                gpio_count: Some(v.gpio_count),
                flash_external: Some(v.flash_external),
                flash_internal: Some(v.flash_internal),
                flash_size_bytes: Some(v.flash_size_bytes),
                usb_device: Some(v.usb_device),
                usb_fido_hid: Some(v.usb_fido_hid),
                usb_management_hid: Some(v.usb_management_hid),
                usb_max_product_string_len: Some(v.usb_max_product_string_len),
                led_available: Some(v.led_available),
                led_configurable_gpio: Some(v.led_configurable_gpio),
                led_brightness: Some(v.led_brightness),
                led_driver_gpio: Some(v.led_driver_gpio),
                led_driver_pwm: Some(v.led_driver_pwm),
                led_driver_ws2812: Some(v.led_driver_ws2812),
                led_default_gpio: None,
                led_default_brightness: None,
                presence_bootsel: None,
                presence_external_button: None,
                presence_external_button_gpio: None,
                led_candidate_gpio_mask: None,
            },
        ) == take_entries::<CapabilityReportFields>(
            rest,
            Some(left),
            CapabilityReportFields {
                family: Some(v.family),
                package: Some(v.package),
                gpio_count: Some(v.gpio_count),
                flash_external: Some(v.flash_external),
                flash_internal: Some(v.flash_internal),
                flash_size_bytes: Some(v.flash_size_bytes),
                usb_device: Some(v.usb_device),
                usb_fido_hid: Some(v.usb_fido_hid),
                usb_management_hid: Some(v.usb_management_hid),
                usb_max_product_string_len: Some(v.usb_max_product_string_len),
                led_available: Some(v.led_available),
                led_configurable_gpio: Some(v.led_configurable_gpio),
                led_brightness: Some(v.led_brightness),
                led_driver_gpio: Some(v.led_driver_gpio),
                led_driver_pwm: Some(v.led_driver_pwm),
                led_driver_ws2812: Some(v.led_driver_ws2812),
                led_default_gpio: v.led_default_gpio,
                led_default_brightness: Some(v.led_default_brightness),
                presence_bootsel: Some(v.presence_bootsel),
                presence_external_button: Some(v.presence_external_button),
                presence_external_button_gpio: v.presence_external_button_gpio,
                led_candidate_gpio_mask: Some(v.led_candidate_gpio_mask),
            },
        ),
{
    let g5 = v.default_gpio_form();
    let g6 = v.presence_form();
    let g7 = v.button_gpio_form();
    let g8 = v.mask_form();
    let r8 = g8 + rest;
    let r7 = g7 + r8;
    let r6 = g6 + r7;
    let r5 = g5 + r6;
    let f5 = CapabilityReportFields {
        family: Some(v.family),
        package: Some(v.package),
        gpio_count: Some(v.gpio_count),
        flash_external: Some(v.flash_external),
        flash_internal: Some(v.flash_internal),
        flash_size_bytes: Some(v.flash_size_bytes),
        usb_device: Some(v.usb_device),
        usb_fido_hid: Some(v.usb_fido_hid),
        usb_management_hid: Some(v.usb_management_hid),
        usb_max_product_string_len: Some(v.usb_max_product_string_len),
        led_available: Some(v.led_available),
        led_configurable_gpio: Some(v.led_configurable_gpio),
        led_brightness: Some(v.led_brightness),
        led_driver_gpio: Some(v.led_driver_gpio),
        led_driver_pwm: Some(v.led_driver_pwm),
        led_driver_ws2812: Some(v.led_driver_ws2812),
        led_default_gpio: None,
        led_default_brightness: None,
        presence_bootsel: None,
        presence_external_button: None,
        presence_external_button_gpio: None,
        led_candidate_gpio_mask: None,
    };
    let n9: nat = left;
    let n8: nat = n9 + 1;
    let n7: nat = n8 + optional_count(v.presence_external_button_gpio);
    let n6: nat = n7 + 3;
    let n5: nat = n6 + optional_count(v.led_default_gpio);
    let f6 = CapabilityReportFields { led_default_gpio: v.led_default_gpio, ..f5 };
    let f7 = CapabilityReportFields {
        led_default_brightness: Some(v.led_default_brightness),
        presence_bootsel: Some(v.presence_bootsel),
        presence_external_button: Some(v.presence_external_button),
        ..f6
    };
    let f8 = CapabilityReportFields {
        presence_external_button_gpio: v.presence_external_button_gpio,
        ..f7
    };
    let f9 = CapabilityReportFields {
        led_candidate_gpio_mask: Some(v.led_candidate_gpio_mask),
        ..f8
    };
    capability_report_led_default_gpio_is_read(v.led_default_gpio, f5, n6, r6);
    capability_report_presence_round_trips(v, f6, n7, r7);
    capability_report_presence_external_button_gpio_is_read(
        v.presence_external_button_gpio,
        f7,
        n8,
        r8,
    );
    capability_report_mask_round_trips(v, f8, n9, rest);
}

proof fn capability_report_is_complete(v: CapabilityReport)
    ensures
        (
            CapabilityReportFields {
                family: Some(v.family),
                package: Some(v.package),
                gpio_count: Some(v.gpio_count),
                flash_external: Some(v.flash_external),
                flash_internal: Some(v.flash_internal),
                flash_size_bytes: Some(v.flash_size_bytes),
                usb_device: Some(v.usb_device),
                usb_fido_hid: Some(v.usb_fido_hid),
                usb_management_hid: Some(v.usb_management_hid),
                usb_max_product_string_len: Some(v.usb_max_product_string_len),
                led_available: Some(v.led_available),
                led_configurable_gpio: Some(v.led_configurable_gpio),
                led_brightness: Some(v.led_brightness),
                led_driver_gpio: Some(v.led_driver_gpio),
                led_driver_pwm: Some(v.led_driver_pwm),
                led_driver_ws2812: Some(v.led_driver_ws2812),
                led_default_gpio: v.led_default_gpio,
                led_default_brightness: Some(v.led_default_brightness),
                presence_bootsel: Some(v.presence_bootsel),
                presence_external_button: Some(v.presence_external_button),
                presence_external_button_gpio: v.presence_external_button_gpio,
                led_candidate_gpio_mask: Some(v.led_candidate_gpio_mask),
            }
        ).report() == Some(v),
{
    reveal(CapabilityReportFields::report);
}

proof fn capability_report_all_entries(v: CapabilityReport, rest: Seq<u8>)
    ensures
        ({
            let full = CapabilityReportFields {
                family: Some(v.family),
                package: Some(v.package),
                gpio_count: Some(v.gpio_count),
                flash_external: Some(v.flash_external),
                flash_internal: Some(v.flash_internal),
                flash_size_bytes: Some(v.flash_size_bytes),
                usb_device: Some(v.usb_device),
                usb_fido_hid: Some(v.usb_fido_hid),
                usb_management_hid: Some(v.usb_management_hid),
                usb_max_product_string_len: Some(v.usb_max_product_string_len),
                led_available: Some(v.led_available),
                led_configurable_gpio: Some(v.led_configurable_gpio),
                led_brightness: Some(v.led_brightness),
                led_driver_gpio: Some(v.led_driver_gpio),
                led_driver_pwm: Some(v.led_driver_pwm),
                led_driver_ws2812: Some(v.led_driver_ws2812),
                led_default_gpio: v.led_default_gpio,
                led_default_brightness: Some(v.led_default_brightness),
                presence_bootsel: Some(v.presence_bootsel),
                presence_external_button: Some(v.presence_external_button),
                presence_external_button_gpio: v.presence_external_button_gpio,
                led_candidate_gpio_mask: Some(v.led_candidate_gpio_mask),
            };
            &&& take_entries::<CapabilityReportFields>(
                v.chip_form() + (
                    v.flash_form() + (
                        v.usb_form() + (
                            v.led_form() + (
                                v.drivers_form() + (
                                    v.default_gpio_form() + (
                                        v.presence_form() + (
                                            v.button_gpio_form() + (v.mask_form() + rest)
                                        )
                                    )
                                )
                            )
                        )
                    )
                ),
                Some(v.entry_count()),
                CapabilityReportFields::blank(),
            ) == Ok::<(CapabilityReportFields, Seq<u8>), CodecError>((full, rest))
            &&& full.report() == Some(v)
        }),
{
    let tail = v.default_gpio_form() + (
        v.presence_form() + (v.button_gpio_form() + (v.mask_form() + rest))
    );
    capability_report_first_entries(
        v,
        optional_count(v.led_default_gpio) + 3 + optional_count(v.presence_external_button_gpio)
            + 1,
        tail,
    );
    capability_report_last_entries(v, 0, rest);
    capability_report_is_complete(v);
}

proof fn capability_report_form_splits(v: CapabilityReport, rest: Seq<u8>)
    ensures
        v.cbor_form() + rest == map_head(v.entry_count())
            + (
                v.chip_form() + (
                    v.flash_form() + (
                        v.usb_form() + (
                            v.led_form() + (
                                v.drivers_form() + (
                                    v.default_gpio_form() + (
                                        v.presence_form() + (
                                            v.button_gpio_form() + (v.mask_form() + rest)
                                        )
                                    )
                                )
                            )
                        )
                    )
                )
            ),
{
    let g0 = v.chip_form();
    let g1 = v.flash_form();
    let g2 = v.usb_form();
    let g3 = v.led_form();
    let g4 = v.drivers_form();
    let g5 = v.default_gpio_form();
    let g6 = v.presence_form();
    let g7 = v.button_gpio_form();
    let g8 = v.mask_form();
    let r8 = g8 + rest;
    let r7 = g7 + r8;
    let r6 = g6 + r7;
    let r5 = g5 + r6;
    let r4 = g4 + r5;
    let r3 = g3 + r4;
    let r2 = g2 + r3;
    let r1 = g1 + r2;
    let p0 = map_head(v.entry_count());
    let p1 = p0 + g0;
    let p2 = p1 + g1;
    let p3 = p2 + g2;
    let p4 = p3 + g3;
    let p5 = p4 + g4;
    let p6 = p5 + g5;
    let p7 = p6 + g6;
    let p8 = p7 + g7;
    regroup(p8, g8, rest);
    regroup(p7, g7, r8);
    regroup(p6, g6, r7);
    regroup(p5, g5, r6);
    regroup(p4, g4, r5);
    regroup(p3, g3, r4);
    regroup(p2, g2, r3);
    regroup(p1, g1, r2);
    regroup(p0, g0, r1);
}

/// Decoding the CBOR form of this report, whatever follows it, gives the report
/// back.
pub proof fn capability_report_round_trips(v: CapabilityReport, rest: Seq<u8>)
    ensures
        CapabilityReport::take(v.cbor_form() + rest) == Some((v, rest)),
{
    capability_report_form_splits(v, rest);
    map_round_trip(
        v.entry_count(),
        v.chip_form() + (
            v.flash_form() + (
                v.usb_form() + (
                    v.led_form() + (
                        v.drivers_form() + (
                            v.default_gpio_form() + (
                                v.presence_form() + (v.button_gpio_form() + (v.mask_form() + rest))
                            )
                        )
                    )
                )
            )
        ),
    );
    capability_report_all_entries(v, rest);
}

/// The CBOR form of this report fits a management response.
pub proof fn capability_report_fits(v: CapabilityReport)
    ensures
        1 <= v.cbor_form().len() <= 512,
{
    heads_are_short();
    reveal(CapabilityReport::chip_form);
    reveal(CapabilityReport::flash_form);
    reveal(CapabilityReport::usb_form);
    reveal(CapabilityReport::led_form);
    reveal(CapabilityReport::drivers_form);
    reveal(CapabilityReport::presence_form);
    reveal(CapabilityReport::mask_form);
}

/// Lifecycle report.
#[derive(Debug, Clone, Copy, PartialEq, Eq, Structural)]
pub struct LifecycleReport {
    /// Lifecycle state code.
    pub state: u8,
}

impl View for LifecycleReport {
    type V = LifecycleReport;

    open spec fn view(&self) -> LifecycleReport {
        *self
    }
}

impl LifecycleReport {
    /// The entry of `state`.
    #[verifier::opaque]
    pub open spec fn state_form(self) -> Seq<u8> {
        int_item(0) + uint_item(self.state as nat)
    }

    /// The number of entries.
    pub open spec fn entry_count(self) -> nat {
        1
    }

    /// The CBOR form.
    pub open spec fn cbor_form(self) -> Seq<u8> {
        map_head(self.entry_count()) + self.state_form()
    }
}

impl LifecycleReport {
    fn put_state(&self, out: &mut Vec<u8>)
        ensures
            final(out)@ == old(out)@ + self.state_form(),
    {
        proof {
            reveal(LifecycleReport::state_form);
        }
        put_i64(out, 0);
        put_u64(out, self.state as u64);
        assert(out@ =~= old(out)@ + self.state_form());
    }
}

impl Encode for LifecycleReport {
    open spec fn cbor(&self) -> Seq<u8> {
        self.cbor_form()
    }

    fn encode_cbor(&self, out: &mut Vec<u8>) {
        let count: u64 = 1;
        put_map_head(out, count);
        self.put_state(out);
        assert(out@ =~= old(out)@ + self.cbor_form());
    }
}

/// The entries of this report read so far.
#[derive(Clone, Copy)]
pub struct LifecycleReportFields {
    /// Lifecycle state code.
    pub state: Option<u8>,
}

impl View for LifecycleReportFields {
    type V = LifecycleReportFields;

    open spec fn view(&self) -> LifecycleReportFields {
        *self
    }
}

/// What the entry at the front of the input adds to the report.
#[verifier::opaque]
pub open spec fn lifecycle_report_entry(
    s: Seq<u8>,
    acc: LifecycleReportFields,
) -> Result<(LifecycleReportFields, Seq<u8>), CodecError> {
    match take_int(s) {
        None => Err(CodecError::Decode),
        Some((key, value)) => if key == 0 {
                match take_uint_up_to(value, 0xff) {
                    Some((n, rest)) => Ok(
                        (LifecycleReportFields { state: Some(n as u8), ..acc }, rest),
                    ),
                    None => Err(CodecError::Decode),
                }
            } else {
                match take_any(value) {
                    Some(rest) => Ok((acc, rest)),
                    None => Err(CodecError::Decode),
                }
            },
        }
}

impl Record for LifecycleReportFields {
    type Error = CodecError;

    open spec fn blank() -> LifecycleReportFields {
        LifecycleReportFields { state: None }
    }

    open spec fn malformed() -> CodecError {
        CodecError::Decode
    }

    open spec fn entry(
        s: Seq<u8>,
        acc: LifecycleReportFields,
    ) -> Result<(LifecycleReportFields, Seq<u8>), CodecError> {
        lifecycle_report_entry(s, acc)
    }

    fn new_blank() -> (r: Self) {
        LifecycleReportFields { state: None }
    }

    fn malformed_error() -> (r: CodecError) {
        CodecError::Decode
    }

    fn read_entry<'a>(&mut self, input: &'a [u8]) -> (r: Result<&'a [u8], CodecError>) {
        proof {
            reveal(lifecycle_report_entry);
        }
        let (key, value) = match read_i64(input) {
            Some(pair) => pair,
            None => return Err(CodecError::Decode),
        };
        if key == 0 {
            if let Some((n, rest)) = read_u8(value) {
                self.state = Some(n);
                return Ok(rest);
            }
        } else if let Some(rest) = skip_item(value) {
            return Ok(rest);
        }
        Err(CodecError::Decode)
    }
}

impl LifecycleReportFields {
    /// The report, where every entry that it needs was read.
    #[verifier::opaque]
    pub open spec fn report(self) -> Option<LifecycleReport> {
        if self.state is Some {
            Some(LifecycleReport { state: self.state->0 })
        } else {
            None
        }
    }
}

impl LifecycleReportFields {
    fn into_report(self) -> (r: Option<LifecycleReport>)
        ensures
            r == self.report(),
    {
        proof {
            reveal(LifecycleReportFields::report);
        }
        let state: u8 = match self.state {
            Some(state) => state,
            None => return None,
        };
        Some(LifecycleReport { state })
    }
}

impl Decode for LifecycleReport {
    open spec fn take(s: Seq<u8>) -> Option<(LifecycleReport, Seq<u8>)> {
        match take_open_record::<LifecycleReportFields>(s) {
            Ok((f, rest)) => match f.report() {
                Some(report) => Some((report, rest)),
                None => None,
            },
            Err(_) => None,
        }
    }

    fn decode_cbor(input: &[u8]) -> (r: Option<(Self, &[u8])>) {
        match read_open_record::<LifecycleReportFields>(input) {
            Ok((f, rest)) => match f.into_report() {
                Some(report) => Some((report, rest)),
                None => None,
            },
            Err(_) => None,
        }
    }
}

proof fn lifecycle_report_state_is_read(value: u8, acc: LifecycleReportFields, rest: Seq<u8>)
    ensures
        LifecycleReportFields::entry(
            int_item(0) + (uint_item(value as nat) + rest),
            acc,
        ) == Ok::<(LifecycleReportFields, Seq<u8>), CodecError>(
            (LifecycleReportFields { state: Some(value), ..acc }, rest),
        ),
{
    reveal(lifecycle_report_entry);
    int_round_trip(0, uint_item(value as nat) + rest);
    uint_round_trip(value as nat, 0xff, rest);
}

proof fn lifecycle_report_state_round_trips(
    v: LifecycleReport,
    acc: LifecycleReportFields,
    left: nat,
    rest: Seq<u8>,
)
    ensures
        take_entries::<LifecycleReportFields>(
            v.state_form() + rest,
            Some(left + 1),
            acc,
        ) == take_entries::<LifecycleReportFields>(
            rest,
            Some(left),
            LifecycleReportFields { state: Some(v.state), ..acc },
        ),
{
    reveal(LifecycleReport::state_form);
    let i0 = uint_item(v.state as nat);
    let r0 = int_item(0) + (i0 + rest);
    let q0 = int_item(0);
    regroup(q0, i0, rest);
    let f1 = LifecycleReportFields { state: Some(v.state), ..acc };
    lifecycle_report_state_is_read(v.state, acc, rest);
    one_entry::<LifecycleReportFields>(r0, left + 1, acc, f1, rest);
}

proof fn lifecycle_report_form_splits(v: LifecycleReport, rest: Seq<u8>)
    ensures
        v.cbor_form() + rest == map_head(v.entry_count()) + (v.state_form() + rest),
{
    let g0 = v.state_form();
    let p0 = map_head(v.entry_count());
    regroup(p0, g0, rest);
}

/// Decoding the CBOR form of this report, whatever follows it, gives the report
/// back.
pub proof fn lifecycle_report_round_trips(v: LifecycleReport, rest: Seq<u8>)
    ensures
        LifecycleReport::take(v.cbor_form() + rest) == Some((v, rest)),
{
    lifecycle_report_form_splits(v, rest);
    map_round_trip(v.entry_count(), v.state_form() + rest);
    reveal(LifecycleReportFields::report);
    let g0 = v.state_form();
    let r0 = g0 + rest;
    let f0 = LifecycleReportFields::blank();
    let n1: nat = 0;
    let n0: nat = n1 + 1;
    let f1 = LifecycleReportFields { state: Some(v.state), ..f0 };
    lifecycle_report_state_round_trips(v, f0, n1, rest);
}

/// The CBOR form of this report fits a management response.
pub proof fn lifecycle_report_fits(v: LifecycleReport)
    ensures
        1 <= v.cbor_form().len() <= 512,
{
    heads_are_short();
    reveal(LifecycleReport::state_form);
}

/// Compact device status.
#[derive(Debug, Clone, Copy, PartialEq, Eq, Structural)]
pub struct StatusReport {
    /// Lifecycle state code.
    pub lifecycle: u8,
    /// Active configuration schema version.
    pub config_version: u16,
    /// Whether a configuration is staged and awaiting commit.
    pub staged: bool,
}

impl View for StatusReport {
    type V = StatusReport;

    open spec fn view(&self) -> StatusReport {
        *self
    }
}

impl StatusReport {
    /// The entries `lifecycle` to `staged`.
    #[verifier::opaque]
    pub open spec fn status_form(self) -> Seq<u8> {
        int_item(0) + uint_item(self.lifecycle as nat) + int_item(1)
            + uint_item(self.config_version as nat) + int_item(2) + bool_item(self.staged)
    }

    /// The number of entries.
    pub open spec fn entry_count(self) -> nat {
        3
    }

    /// The CBOR form.
    pub open spec fn cbor_form(self) -> Seq<u8> {
        map_head(self.entry_count()) + self.status_form()
    }
}

impl StatusReport {
    fn put_status(&self, out: &mut Vec<u8>)
        ensures
            final(out)@ == old(out)@ + self.status_form(),
    {
        proof {
            reveal(StatusReport::status_form);
        }
        put_i64(out, 0);
        put_u64(out, self.lifecycle as u64);
        put_i64(out, 1);
        put_u64(out, self.config_version as u64);
        put_i64(out, 2);
        put_bool(out, self.staged);
        assert(out@ =~= old(out)@ + self.status_form());
    }
}

impl Encode for StatusReport {
    open spec fn cbor(&self) -> Seq<u8> {
        self.cbor_form()
    }

    fn encode_cbor(&self, out: &mut Vec<u8>) {
        let count: u64 = 3;
        put_map_head(out, count);
        self.put_status(out);
        assert(out@ =~= old(out)@ + self.cbor_form());
    }
}

/// The entries of this report read so far.
#[derive(Clone, Copy)]
pub struct StatusReportFields {
    /// Lifecycle state code.
    pub lifecycle: Option<u8>,
    /// Active configuration schema version.
    pub config_version: Option<u16>,
    /// Whether a configuration is staged and awaiting commit.
    pub staged: Option<bool>,
}

impl View for StatusReportFields {
    type V = StatusReportFields;

    open spec fn view(&self) -> StatusReportFields {
        *self
    }
}

/// What the entry at the front of the input adds to the report.
#[verifier::opaque]
pub open spec fn status_report_entry(
    s: Seq<u8>,
    acc: StatusReportFields,
) -> Result<(StatusReportFields, Seq<u8>), CodecError> {
    match take_int(s) {
        None => Err(CodecError::Decode),
        Some((key, value)) => if key == 0 {
                match take_uint_up_to(value, 0xff) {
                    Some((n, rest)) => Ok(
                        (StatusReportFields { lifecycle: Some(n as u8), ..acc }, rest),
                    ),
                    None => Err(CodecError::Decode),
                }
            } else if key == 1 {
                match take_uint_up_to(value, 0xffff) {
                    Some((n, rest)) => Ok(
                        (StatusReportFields { config_version: Some(n as u16), ..acc }, rest),
                    ),
                    None => Err(CodecError::Decode),
                }
            } else if key == 2 {
                match take_bool(value) {
                    Some((n, rest)) => Ok((StatusReportFields { staged: Some(n), ..acc }, rest)),
                    None => Err(CodecError::Decode),
                }
            } else {
                match take_any(value) {
                    Some(rest) => Ok((acc, rest)),
                    None => Err(CodecError::Decode),
                }
            },
        }
}

impl Record for StatusReportFields {
    type Error = CodecError;

    open spec fn blank() -> StatusReportFields {
        StatusReportFields { lifecycle: None, config_version: None, staged: None }
    }

    open spec fn malformed() -> CodecError {
        CodecError::Decode
    }

    open spec fn entry(
        s: Seq<u8>,
        acc: StatusReportFields,
    ) -> Result<(StatusReportFields, Seq<u8>), CodecError> {
        status_report_entry(s, acc)
    }

    fn new_blank() -> (r: Self) {
        StatusReportFields { lifecycle: None, config_version: None, staged: None }
    }

    fn malformed_error() -> (r: CodecError) {
        CodecError::Decode
    }

    fn read_entry<'a>(&mut self, input: &'a [u8]) -> (r: Result<&'a [u8], CodecError>) {
        proof {
            reveal(status_report_entry);
        }
        let (key, value) = match read_i64(input) {
            Some(pair) => pair,
            None => return Err(CodecError::Decode),
        };
        if key == 0 {
            if let Some((n, rest)) = read_u8(value) {
                self.lifecycle = Some(n);
                return Ok(rest);
            }
        } else if key == 1 {
            if let Some((n, rest)) = read_u16(value) {
                self.config_version = Some(n);
                return Ok(rest);
            }
        } else if key == 2 {
            if let Some((n, rest)) = read_bool(value) {
                self.staged = Some(n);
                return Ok(rest);
            }
        } else if let Some(rest) = skip_item(value) {
            return Ok(rest);
        }
        Err(CodecError::Decode)
    }
}

impl StatusReportFields {
    /// The report, where every entry that it needs was read.
    #[verifier::opaque]
    pub open spec fn report(self) -> Option<StatusReport> {
        if self.lifecycle is Some && self.config_version is Some && self.staged is Some {
            Some(
                StatusReport {
                    lifecycle: self.lifecycle->0,
                    config_version: self.config_version->0,
                    staged: self.staged->0,
                },
            )
        } else {
            None
        }
    }
}

impl StatusReportFields {
    fn into_report(self) -> (r: Option<StatusReport>)
        ensures
            r == self.report(),
    {
        proof {
            reveal(StatusReportFields::report);
        }
        let lifecycle: u8 = match self.lifecycle {
            Some(lifecycle) => lifecycle,
            None => return None,
        };
        let config_version: u16 = match self.config_version {
            Some(config_version) => config_version,
            None => return None,
        };
        let staged: bool = match self.staged {
            Some(staged) => staged,
            None => return None,
        };
        Some(StatusReport { lifecycle, config_version, staged })
    }
}

impl Decode for StatusReport {
    open spec fn take(s: Seq<u8>) -> Option<(StatusReport, Seq<u8>)> {
        match take_open_record::<StatusReportFields>(s) {
            Ok((f, rest)) => match f.report() {
                Some(report) => Some((report, rest)),
                None => None,
            },
            Err(_) => None,
        }
    }

    fn decode_cbor(input: &[u8]) -> (r: Option<(Self, &[u8])>) {
        match read_open_record::<StatusReportFields>(input) {
            Ok((f, rest)) => match f.into_report() {
                Some(report) => Some((report, rest)),
                None => None,
            },
            Err(_) => None,
        }
    }
}

proof fn status_report_lifecycle_is_read(value: u8, acc: StatusReportFields, rest: Seq<u8>)
    ensures
        StatusReportFields::entry(
            int_item(0) + (uint_item(value as nat) + rest),
            acc,
        ) == Ok::<(StatusReportFields, Seq<u8>), CodecError>(
            (StatusReportFields { lifecycle: Some(value), ..acc }, rest),
        ),
{
    reveal(status_report_entry);
    int_round_trip(0, uint_item(value as nat) + rest);
    uint_round_trip(value as nat, 0xff, rest);
}

proof fn status_report_config_version_is_read(value: u16, acc: StatusReportFields, rest: Seq<u8>)
    ensures
        StatusReportFields::entry(
            int_item(1) + (uint_item(value as nat) + rest),
            acc,
        ) == Ok::<(StatusReportFields, Seq<u8>), CodecError>(
            (StatusReportFields { config_version: Some(value), ..acc }, rest),
        ),
{
    reveal(status_report_entry);
    int_round_trip(1, uint_item(value as nat) + rest);
    uint_round_trip(value as nat, 0xffff, rest);
}

proof fn status_report_staged_is_read(value: bool, acc: StatusReportFields, rest: Seq<u8>)
    ensures
        StatusReportFields::entry(
            int_item(2) + (bool_item(value) + rest),
            acc,
        ) == Ok::<(StatusReportFields, Seq<u8>), CodecError>(
            (StatusReportFields { staged: Some(value), ..acc }, rest),
        ),
{
    reveal(status_report_entry);
    int_round_trip(2, bool_item(value) + rest);
    bool_round_trip(value, rest);
}

proof fn status_report_status_round_trips(
    v: StatusReport,
    acc: StatusReportFields,
    left: nat,
    rest: Seq<u8>,
)
    ensures
        take_entries::<StatusReportFields>(
            v.status_form() + rest,
            Some(left + 3),
            acc,
        ) == take_entries::<StatusReportFields>(
            rest,
            Some(left),
            StatusReportFields {
                lifecycle: Some(v.lifecycle),
                config_version: Some(v.config_version),
                staged: Some(v.staged),
                ..acc
            },
        ),
{
    reveal(StatusReport::status_form);
    let i0 = uint_item(v.lifecycle as nat);
    let i1 = uint_item(v.config_version as nat);
    let i2 = bool_item(v.staged);
    let r2 = int_item(2) + (i2 + rest);
    let r1 = int_item(1) + (i1 + r2);
    let r0 = int_item(0) + (i0 + r1);
    let q0 = int_item(0);
    let p1 = q0 + i0;
    let q1 = p1 + int_item(1);
    let p2 = q1 + i1;
    let q2 = p2 + int_item(2);
    regroup(q2, i2, rest);
    regroup(p2, int_item(2), i2 + rest);
    regroup(q1, i1, r2);
    regroup(p1, int_item(1), i1 + r2);
    regroup(q0, i0, r1);
    let f1 = StatusReportFields { lifecycle: Some(v.lifecycle), ..acc };
    let f2 = StatusReportFields { config_version: Some(v.config_version), ..f1 };
    let f3 = StatusReportFields { staged: Some(v.staged), ..f2 };
    status_report_lifecycle_is_read(v.lifecycle, acc, r1);
    one_entry::<StatusReportFields>(r0, left + 3, acc, f1, r1);
    status_report_config_version_is_read(v.config_version, f1, r2);
    one_entry::<StatusReportFields>(r1, left + 2, f1, f2, r2);
    status_report_staged_is_read(v.staged, f2, rest);
    one_entry::<StatusReportFields>(r2, left + 1, f2, f3, rest);
}

proof fn status_report_form_splits(v: StatusReport, rest: Seq<u8>)
    ensures
        v.cbor_form() + rest == map_head(v.entry_count()) + (v.status_form() + rest),
{
    let g0 = v.status_form();
    let p0 = map_head(v.entry_count());
    regroup(p0, g0, rest);
}

/// Decoding the CBOR form of this report, whatever follows it, gives the report
/// back.
pub proof fn status_report_round_trips(v: StatusReport, rest: Seq<u8>)
    ensures
        StatusReport::take(v.cbor_form() + rest) == Some((v, rest)),
{
    status_report_form_splits(v, rest);
    map_round_trip(v.entry_count(), v.status_form() + rest);
    reveal(StatusReportFields::report);
    let g0 = v.status_form();
    let r0 = g0 + rest;
    let f0 = StatusReportFields::blank();
    let n1: nat = 0;
    let n0: nat = n1 + 3;
    let f1 = StatusReportFields {
        lifecycle: Some(v.lifecycle),
        config_version: Some(v.config_version),
        staged: Some(v.staged),
        ..f0
    };
    status_report_status_round_trips(v, f0, n1, rest);
}

/// The CBOR form of this report fits a management response.
pub proof fn status_report_fits(v: StatusReport)
    ensures
        1 <= v.cbor_form().len() <= 512,
{
    heads_are_short();
    reveal(StatusReport::status_form);
}

/// Diagnostics report.
#[derive(Debug, Clone, Copy, PartialEq, Eq, Structural)]
pub struct DiagnosticsReport {
    /// Firmware major version.
    pub version_major: u8,
    /// Firmware minor version.
    pub version_minor: u8,
    /// Firmware patch version.
    pub version_patch: u8,
    /// Lifecycle state code.
    pub lifecycle: u8,
    /// Active configuration schema version.
    pub config_version: u16,
    /// Whether a configuration is staged.
    pub staged: bool,
    /// Addressable GPIO count.
    pub gpio_count: u8,
    /// Flash capacity in bytes.
    pub flash_size_bytes: u32,
}

impl View for DiagnosticsReport {
    type V = DiagnosticsReport;

    open spec fn view(&self) -> DiagnosticsReport {
        *self
    }
}

impl DiagnosticsReport {
    /// The entries `version_major` to `version_patch`.
    #[verifier::opaque]
    pub open spec fn firmware_form(self) -> Seq<u8> {
        int_item(0) + uint_item(self.version_major as nat) + int_item(1)
            + uint_item(self.version_minor as nat) + int_item(2)
            + uint_item(self.version_patch as nat)
    }

    /// The entries `lifecycle` to `staged`.
    #[verifier::opaque]
    pub open spec fn state_form(self) -> Seq<u8> {
        int_item(3) + uint_item(self.lifecycle as nat) + int_item(4)
            + uint_item(self.config_version as nat) + int_item(5) + bool_item(self.staged)
    }

    /// The entries `gpio_count` to `flash_size_bytes`.
    #[verifier::opaque]
    pub open spec fn hardware_form(self) -> Seq<u8> {
        int_item(6) + uint_item(self.gpio_count as nat) + int_item(7)
            + uint_item(self.flash_size_bytes as nat)
    }

    /// The number of entries.
    pub open spec fn entry_count(self) -> nat {
        8
    }

    /// The CBOR form.
    pub open spec fn cbor_form(self) -> Seq<u8> {
        map_head(self.entry_count()) + self.firmware_form() + self.state_form()
            + self.hardware_form()
    }
}

impl DiagnosticsReport {
    fn put_firmware(&self, out: &mut Vec<u8>)
        ensures
            final(out)@ == old(out)@ + self.firmware_form(),
    {
        proof {
            reveal(DiagnosticsReport::firmware_form);
        }
        put_i64(out, 0);
        put_u64(out, self.version_major as u64);
        put_i64(out, 1);
        put_u64(out, self.version_minor as u64);
        put_i64(out, 2);
        put_u64(out, self.version_patch as u64);
        assert(out@ =~= old(out)@ + self.firmware_form());
    }

    fn put_state(&self, out: &mut Vec<u8>)
        ensures
            final(out)@ == old(out)@ + self.state_form(),
    {
        proof {
            reveal(DiagnosticsReport::state_form);
        }
        put_i64(out, 3);
        put_u64(out, self.lifecycle as u64);
        put_i64(out, 4);
        put_u64(out, self.config_version as u64);
        put_i64(out, 5);
        put_bool(out, self.staged);
        assert(out@ =~= old(out)@ + self.state_form());
    }

    fn put_hardware(&self, out: &mut Vec<u8>)
        ensures
            final(out)@ == old(out)@ + self.hardware_form(),
    {
        proof {
            reveal(DiagnosticsReport::hardware_form);
        }
        put_i64(out, 6);
        put_u64(out, self.gpio_count as u64);
        put_i64(out, 7);
        put_u64(out, self.flash_size_bytes as u64);
        assert(out@ =~= old(out)@ + self.hardware_form());
    }
}

impl Encode for DiagnosticsReport {
    open spec fn cbor(&self) -> Seq<u8> {
        self.cbor_form()
    }

    fn encode_cbor(&self, out: &mut Vec<u8>) {
        let count: u64 = 8;
        put_map_head(out, count);
        self.put_firmware(out);
        self.put_state(out);
        self.put_hardware(out);
        assert(out@ =~= old(out)@ + self.cbor_form());
    }
}

/// The entries of this report read so far.
#[derive(Clone, Copy)]
pub struct DiagnosticsReportFields {
    /// Firmware major version.
    pub version_major: Option<u8>,
    /// Firmware minor version.
    pub version_minor: Option<u8>,
    /// Firmware patch version.
    pub version_patch: Option<u8>,
    /// Lifecycle state code.
    pub lifecycle: Option<u8>,
    /// Active configuration schema version.
    pub config_version: Option<u16>,
    /// Whether a configuration is staged.
    pub staged: Option<bool>,
    /// Addressable GPIO count.
    pub gpio_count: Option<u8>,
    /// Flash capacity in bytes.
    pub flash_size_bytes: Option<u32>,
}

impl View for DiagnosticsReportFields {
    type V = DiagnosticsReportFields;

    open spec fn view(&self) -> DiagnosticsReportFields {
        *self
    }
}

/// What the entry at the front of the input adds to the report.
#[verifier::opaque]
pub open spec fn diagnostics_report_entry(
    s: Seq<u8>,
    acc: DiagnosticsReportFields,
) -> Result<(DiagnosticsReportFields, Seq<u8>), CodecError> {
    match take_int(s) {
        None => Err(CodecError::Decode),
        Some((key, value)) => if key == 0 {
                match take_uint_up_to(value, 0xff) {
                    Some((n, rest)) => Ok(
                        (DiagnosticsReportFields { version_major: Some(n as u8), ..acc }, rest),
                    ),
                    None => Err(CodecError::Decode),
                }
            } else if key == 1 {
                match take_uint_up_to(value, 0xff) {
                    Some((n, rest)) => Ok(
                        (DiagnosticsReportFields { version_minor: Some(n as u8), ..acc }, rest),
                    ),
                    None => Err(CodecError::Decode),
                }
            } else if key == 2 {
                match take_uint_up_to(value, 0xff) {
                    Some((n, rest)) => Ok(
                        (DiagnosticsReportFields { version_patch: Some(n as u8), ..acc }, rest),
                    ),
                    None => Err(CodecError::Decode),
                }
            } else if key == 3 {
                match take_uint_up_to(value, 0xff) {
                    Some((n, rest)) => Ok(
                        (DiagnosticsReportFields { lifecycle: Some(n as u8), ..acc }, rest),
                    ),
                    None => Err(CodecError::Decode),
                }
            } else if key == 4 {
                match take_uint_up_to(value, 0xffff) {
                    Some((n, rest)) => Ok(
                        (DiagnosticsReportFields { config_version: Some(n as u16), ..acc }, rest),
                    ),
                    None => Err(CodecError::Decode),
                }
            } else if key == 5 {
                match take_bool(value) {
                    Some((n, rest)) => Ok(
                        (DiagnosticsReportFields { staged: Some(n), ..acc }, rest),
                    ),
                    None => Err(CodecError::Decode),
                }
            } else if key == 6 {
                match take_uint_up_to(value, 0xff) {
                    Some((n, rest)) => Ok(
                        (DiagnosticsReportFields { gpio_count: Some(n as u8), ..acc }, rest),
                    ),
                    None => Err(CodecError::Decode),
                }
            } else if key == 7 {
                match take_uint_up_to(value, 0xffff_ffff) {
                    Some((n, rest)) => Ok(
                        (DiagnosticsReportFields { flash_size_bytes: Some(n as u32), ..acc }, rest),
                    ),
                    None => Err(CodecError::Decode),
                }
            } else {
                match take_any(value) {
                    Some(rest) => Ok((acc, rest)),
                    None => Err(CodecError::Decode),
                }
            },
        }
}

impl Record for DiagnosticsReportFields {
    type Error = CodecError;

    open spec fn blank() -> DiagnosticsReportFields {
        DiagnosticsReportFields {
            version_major: None,
            version_minor: None,
            version_patch: None,
            lifecycle: None,
            config_version: None,
            staged: None,
            gpio_count: None,
            flash_size_bytes: None,
        }
    }

    open spec fn malformed() -> CodecError {
        CodecError::Decode
    }

    open spec fn entry(
        s: Seq<u8>,
        acc: DiagnosticsReportFields,
    ) -> Result<(DiagnosticsReportFields, Seq<u8>), CodecError> {
        diagnostics_report_entry(s, acc)
    }

    fn new_blank() -> (r: Self) {
        DiagnosticsReportFields {
            version_major: None,
            version_minor: None,
            version_patch: None,
            lifecycle: None,
            config_version: None,
            staged: None,
            gpio_count: None,
            flash_size_bytes: None,
        }
    }

    fn malformed_error() -> (r: CodecError) {
        CodecError::Decode
    }

    fn read_entry<'a>(&mut self, input: &'a [u8]) -> (r: Result<&'a [u8], CodecError>) {
        proof {
            reveal(diagnostics_report_entry);
        }
        let (key, value) = match read_i64(input) {
            Some(pair) => pair,
            None => return Err(CodecError::Decode),
        };
        if key == 0 {
            if let Some((n, rest)) = read_u8(value) {
                self.version_major = Some(n);
                return Ok(rest);
            }
        } else if key == 1 {
            if let Some((n, rest)) = read_u8(value) {
                self.version_minor = Some(n);
                return Ok(rest);
            }
        } else if key == 2 {
            if let Some((n, rest)) = read_u8(value) {
                self.version_patch = Some(n);
                return Ok(rest);
            }
        } else if key == 3 {
            if let Some((n, rest)) = read_u8(value) {
                self.lifecycle = Some(n);
                return Ok(rest);
            }
        } else if key == 4 {
            if let Some((n, rest)) = read_u16(value) {
                self.config_version = Some(n);
                return Ok(rest);
            }
        } else if key == 5 {
            if let Some((n, rest)) = read_bool(value) {
                self.staged = Some(n);
                return Ok(rest);
            }
        } else if key == 6 {
            if let Some((n, rest)) = read_u8(value) {
                self.gpio_count = Some(n);
                return Ok(rest);
            }
        } else if key == 7 {
            if let Some((n, rest)) = read_u32(value) {
                self.flash_size_bytes = Some(n);
                return Ok(rest);
            }
        } else if let Some(rest) = skip_item(value) {
            return Ok(rest);
        }
        Err(CodecError::Decode)
    }
}

impl DiagnosticsReportFields {
    /// The report, where every entry that it needs was read.
    #[verifier::opaque]
    pub open spec fn report(self) -> Option<DiagnosticsReport> {
        if self.version_major is Some && self.version_minor is Some && self.version_patch is Some
            && self.lifecycle is Some && self.config_version is Some && self.staged is Some
            && self.gpio_count is Some && self.flash_size_bytes is Some {
            Some(
                DiagnosticsReport {
                    version_major: self.version_major->0,
                    version_minor: self.version_minor->0,
                    version_patch: self.version_patch->0,
                    lifecycle: self.lifecycle->0,
                    config_version: self.config_version->0,
                    staged: self.staged->0,
                    gpio_count: self.gpio_count->0,
                    flash_size_bytes: self.flash_size_bytes->0,
                },
            )
        } else {
            None
        }
    }
}

impl DiagnosticsReportFields {
    fn into_report(self) -> (r: Option<DiagnosticsReport>)
        ensures
            r == self.report(),
    {
        proof {
            reveal(DiagnosticsReportFields::report);
        }
        let version_major: u8 = match self.version_major {
            Some(version_major) => version_major,
            None => return None,
        };
        let version_minor: u8 = match self.version_minor {
            Some(version_minor) => version_minor,
            None => return None,
        };
        let version_patch: u8 = match self.version_patch {
            Some(version_patch) => version_patch,
            None => return None,
        };
        let lifecycle: u8 = match self.lifecycle {
            Some(lifecycle) => lifecycle,
            None => return None,
        };
        let config_version: u16 = match self.config_version {
            Some(config_version) => config_version,
            None => return None,
        };
        let staged: bool = match self.staged {
            Some(staged) => staged,
            None => return None,
        };
        let gpio_count: u8 = match self.gpio_count {
            Some(gpio_count) => gpio_count,
            None => return None,
        };
        let flash_size_bytes: u32 = match self.flash_size_bytes {
            Some(flash_size_bytes) => flash_size_bytes,
            None => return None,
        };
        Some(
            DiagnosticsReport {
                version_major,
                version_minor,
                version_patch,
                lifecycle,
                config_version,
                staged,
                gpio_count,
                flash_size_bytes,
            },
        )
    }
}

impl Decode for DiagnosticsReport {
    open spec fn take(s: Seq<u8>) -> Option<(DiagnosticsReport, Seq<u8>)> {
        match take_open_record::<DiagnosticsReportFields>(s) {
            Ok((f, rest)) => match f.report() {
                Some(report) => Some((report, rest)),
                None => None,
            },
            Err(_) => None,
        }
    }

    fn decode_cbor(input: &[u8]) -> (r: Option<(Self, &[u8])>) {
        match read_open_record::<DiagnosticsReportFields>(input) {
            Ok((f, rest)) => match f.into_report() {
                Some(report) => Some((report, rest)),
                None => None,
            },
            Err(_) => None,
        }
    }
}

proof fn diagnostics_report_version_major_is_read(
    value: u8,
    acc: DiagnosticsReportFields,
    rest: Seq<u8>,
)
    ensures
        DiagnosticsReportFields::entry(
            int_item(0) + (uint_item(value as nat) + rest),
            acc,
        ) == Ok::<(DiagnosticsReportFields, Seq<u8>), CodecError>(
            (DiagnosticsReportFields { version_major: Some(value), ..acc }, rest),
        ),
{
    reveal(diagnostics_report_entry);
    int_round_trip(0, uint_item(value as nat) + rest);
    uint_round_trip(value as nat, 0xff, rest);
}

proof fn diagnostics_report_version_minor_is_read(
    value: u8,
    acc: DiagnosticsReportFields,
    rest: Seq<u8>,
)
    ensures
        DiagnosticsReportFields::entry(
            int_item(1) + (uint_item(value as nat) + rest),
            acc,
        ) == Ok::<(DiagnosticsReportFields, Seq<u8>), CodecError>(
            (DiagnosticsReportFields { version_minor: Some(value), ..acc }, rest),
        ),
{
    reveal(diagnostics_report_entry);
    int_round_trip(1, uint_item(value as nat) + rest);
    uint_round_trip(value as nat, 0xff, rest);
}

proof fn diagnostics_report_version_patch_is_read(
    value: u8,
    acc: DiagnosticsReportFields,
    rest: Seq<u8>,
)
    ensures
        DiagnosticsReportFields::entry(
            int_item(2) + (uint_item(value as nat) + rest),
            acc,
        ) == Ok::<(DiagnosticsReportFields, Seq<u8>), CodecError>(
            (DiagnosticsReportFields { version_patch: Some(value), ..acc }, rest),
        ),
{
    reveal(diagnostics_report_entry);
    int_round_trip(2, uint_item(value as nat) + rest);
    uint_round_trip(value as nat, 0xff, rest);
}

proof fn diagnostics_report_lifecycle_is_read(
    value: u8,
    acc: DiagnosticsReportFields,
    rest: Seq<u8>,
)
    ensures
        DiagnosticsReportFields::entry(
            int_item(3) + (uint_item(value as nat) + rest),
            acc,
        ) == Ok::<(DiagnosticsReportFields, Seq<u8>), CodecError>(
            (DiagnosticsReportFields { lifecycle: Some(value), ..acc }, rest),
        ),
{
    reveal(diagnostics_report_entry);
    int_round_trip(3, uint_item(value as nat) + rest);
    uint_round_trip(value as nat, 0xff, rest);
}

proof fn diagnostics_report_config_version_is_read(
    value: u16,
    acc: DiagnosticsReportFields,
    rest: Seq<u8>,
)
    ensures
        DiagnosticsReportFields::entry(
            int_item(4) + (uint_item(value as nat) + rest),
            acc,
        ) == Ok::<(DiagnosticsReportFields, Seq<u8>), CodecError>(
            (DiagnosticsReportFields { config_version: Some(value), ..acc }, rest),
        ),
{
    reveal(diagnostics_report_entry);
    int_round_trip(4, uint_item(value as nat) + rest);
    uint_round_trip(value as nat, 0xffff, rest);
}

proof fn diagnostics_report_staged_is_read(value: bool, acc: DiagnosticsReportFields, rest: Seq<u8>)
    ensures
        DiagnosticsReportFields::entry(
            int_item(5) + (bool_item(value) + rest),
            acc,
        ) == Ok::<(DiagnosticsReportFields, Seq<u8>), CodecError>(
            (DiagnosticsReportFields { staged: Some(value), ..acc }, rest),
        ),
{
    reveal(diagnostics_report_entry);
    int_round_trip(5, bool_item(value) + rest);
    bool_round_trip(value, rest);
}

proof fn diagnostics_report_gpio_count_is_read(
    value: u8,
    acc: DiagnosticsReportFields,
    rest: Seq<u8>,
)
    ensures
        DiagnosticsReportFields::entry(
            int_item(6) + (uint_item(value as nat) + rest),
            acc,
        ) == Ok::<(DiagnosticsReportFields, Seq<u8>), CodecError>(
            (DiagnosticsReportFields { gpio_count: Some(value), ..acc }, rest),
        ),
{
    reveal(diagnostics_report_entry);
    int_round_trip(6, uint_item(value as nat) + rest);
    uint_round_trip(value as nat, 0xff, rest);
}

proof fn diagnostics_report_flash_size_bytes_is_read(
    value: u32,
    acc: DiagnosticsReportFields,
    rest: Seq<u8>,
)
    ensures
        DiagnosticsReportFields::entry(
            int_item(7) + (uint_item(value as nat) + rest),
            acc,
        ) == Ok::<(DiagnosticsReportFields, Seq<u8>), CodecError>(
            (DiagnosticsReportFields { flash_size_bytes: Some(value), ..acc }, rest),
        ),
{
    reveal(diagnostics_report_entry);
    int_round_trip(7, uint_item(value as nat) + rest);
    uint_round_trip(value as nat, 0xffff_ffff, rest);
}

proof fn diagnostics_report_firmware_round_trips(
    v: DiagnosticsReport,
    acc: DiagnosticsReportFields,
    left: nat,
    rest: Seq<u8>,
)
    ensures
        take_entries::<DiagnosticsReportFields>(
            v.firmware_form() + rest,
            Some(left + 3),
            acc,
        ) == take_entries::<DiagnosticsReportFields>(
            rest,
            Some(left),
            DiagnosticsReportFields {
                version_major: Some(v.version_major),
                version_minor: Some(v.version_minor),
                version_patch: Some(v.version_patch),
                ..acc
            },
        ),
{
    reveal(DiagnosticsReport::firmware_form);
    let i0 = uint_item(v.version_major as nat);
    let i1 = uint_item(v.version_minor as nat);
    let i2 = uint_item(v.version_patch as nat);
    let r2 = int_item(2) + (i2 + rest);
    let r1 = int_item(1) + (i1 + r2);
    let r0 = int_item(0) + (i0 + r1);
    let q0 = int_item(0);
    let p1 = q0 + i0;
    let q1 = p1 + int_item(1);
    let p2 = q1 + i1;
    let q2 = p2 + int_item(2);
    regroup(q2, i2, rest);
    regroup(p2, int_item(2), i2 + rest);
    regroup(q1, i1, r2);
    regroup(p1, int_item(1), i1 + r2);
    regroup(q0, i0, r1);
    let f1 = DiagnosticsReportFields { version_major: Some(v.version_major), ..acc };
    let f2 = DiagnosticsReportFields { version_minor: Some(v.version_minor), ..f1 };
    let f3 = DiagnosticsReportFields { version_patch: Some(v.version_patch), ..f2 };
    diagnostics_report_version_major_is_read(v.version_major, acc, r1);
    one_entry::<DiagnosticsReportFields>(r0, left + 3, acc, f1, r1);
    diagnostics_report_version_minor_is_read(v.version_minor, f1, r2);
    one_entry::<DiagnosticsReportFields>(r1, left + 2, f1, f2, r2);
    diagnostics_report_version_patch_is_read(v.version_patch, f2, rest);
    one_entry::<DiagnosticsReportFields>(r2, left + 1, f2, f3, rest);
}

proof fn diagnostics_report_state_round_trips(
    v: DiagnosticsReport,
    acc: DiagnosticsReportFields,
    left: nat,
    rest: Seq<u8>,
)
    ensures
        take_entries::<DiagnosticsReportFields>(
            v.state_form() + rest,
            Some(left + 3),
            acc,
        ) == take_entries::<DiagnosticsReportFields>(
            rest,
            Some(left),
            DiagnosticsReportFields {
                lifecycle: Some(v.lifecycle),
                config_version: Some(v.config_version),
                staged: Some(v.staged),
                ..acc
            },
        ),
{
    reveal(DiagnosticsReport::state_form);
    let i0 = uint_item(v.lifecycle as nat);
    let i1 = uint_item(v.config_version as nat);
    let i2 = bool_item(v.staged);
    let r2 = int_item(5) + (i2 + rest);
    let r1 = int_item(4) + (i1 + r2);
    let r0 = int_item(3) + (i0 + r1);
    let q0 = int_item(3);
    let p1 = q0 + i0;
    let q1 = p1 + int_item(4);
    let p2 = q1 + i1;
    let q2 = p2 + int_item(5);
    regroup(q2, i2, rest);
    regroup(p2, int_item(5), i2 + rest);
    regroup(q1, i1, r2);
    regroup(p1, int_item(4), i1 + r2);
    regroup(q0, i0, r1);
    let f1 = DiagnosticsReportFields { lifecycle: Some(v.lifecycle), ..acc };
    let f2 = DiagnosticsReportFields { config_version: Some(v.config_version), ..f1 };
    let f3 = DiagnosticsReportFields { staged: Some(v.staged), ..f2 };
    diagnostics_report_lifecycle_is_read(v.lifecycle, acc, r1);
    one_entry::<DiagnosticsReportFields>(r0, left + 3, acc, f1, r1);
    diagnostics_report_config_version_is_read(v.config_version, f1, r2);
    one_entry::<DiagnosticsReportFields>(r1, left + 2, f1, f2, r2);
    diagnostics_report_staged_is_read(v.staged, f2, rest);
    one_entry::<DiagnosticsReportFields>(r2, left + 1, f2, f3, rest);
}

proof fn diagnostics_report_hardware_round_trips(
    v: DiagnosticsReport,
    acc: DiagnosticsReportFields,
    left: nat,
    rest: Seq<u8>,
)
    ensures
        take_entries::<DiagnosticsReportFields>(
            v.hardware_form() + rest,
            Some(left + 2),
            acc,
        ) == take_entries::<DiagnosticsReportFields>(
            rest,
            Some(left),
            DiagnosticsReportFields {
                gpio_count: Some(v.gpio_count),
                flash_size_bytes: Some(v.flash_size_bytes),
                ..acc
            },
        ),
{
    reveal(DiagnosticsReport::hardware_form);
    let i0 = uint_item(v.gpio_count as nat);
    let i1 = uint_item(v.flash_size_bytes as nat);
    let r1 = int_item(7) + (i1 + rest);
    let r0 = int_item(6) + (i0 + r1);
    let q0 = int_item(6);
    let p1 = q0 + i0;
    let q1 = p1 + int_item(7);
    regroup(q1, i1, rest);
    regroup(p1, int_item(7), i1 + rest);
    regroup(q0, i0, r1);
    let f1 = DiagnosticsReportFields { gpio_count: Some(v.gpio_count), ..acc };
    let f2 = DiagnosticsReportFields { flash_size_bytes: Some(v.flash_size_bytes), ..f1 };
    diagnostics_report_gpio_count_is_read(v.gpio_count, acc, r1);
    one_entry::<DiagnosticsReportFields>(r0, left + 2, acc, f1, r1);
    diagnostics_report_flash_size_bytes_is_read(v.flash_size_bytes, f1, rest);
    one_entry::<DiagnosticsReportFields>(r1, left + 1, f1, f2, rest);
}

proof fn diagnostics_report_form_splits(v: DiagnosticsReport, rest: Seq<u8>)
    ensures
        v.cbor_form() + rest == map_head(v.entry_count())
            + (v.firmware_form() + (v.state_form() + (v.hardware_form() + rest))),
{
    let g0 = v.firmware_form();
    let g1 = v.state_form();
    let g2 = v.hardware_form();
    let r2 = g2 + rest;
    let r1 = g1 + r2;
    let p0 = map_head(v.entry_count());
    let p1 = p0 + g0;
    let p2 = p1 + g1;
    regroup(p2, g2, rest);
    regroup(p1, g1, r2);
    regroup(p0, g0, r1);
}

/// Decoding the CBOR form of this report, whatever follows it, gives the report
/// back.
pub proof fn diagnostics_report_round_trips(v: DiagnosticsReport, rest: Seq<u8>)
    ensures
        DiagnosticsReport::take(v.cbor_form() + rest) == Some((v, rest)),
{
    diagnostics_report_form_splits(v, rest);
    map_round_trip(
        v.entry_count(),
        v.firmware_form() + (v.state_form() + (v.hardware_form() + rest)),
    );
    reveal(DiagnosticsReportFields::report);
    let g0 = v.firmware_form();
    let g1 = v.state_form();
    let g2 = v.hardware_form();
    let r2 = g2 + rest;
    let r1 = g1 + r2;
    let r0 = g0 + r1;
    let f0 = DiagnosticsReportFields::blank();
    let n3: nat = 0;
    let n2: nat = n3 + 2;
    let n1: nat = n2 + 3;
    let n0: nat = n1 + 3;
    let f1 = DiagnosticsReportFields {
        version_major: Some(v.version_major),
        version_minor: Some(v.version_minor),
        version_patch: Some(v.version_patch),
        ..f0
    };
    let f2 = DiagnosticsReportFields {
        lifecycle: Some(v.lifecycle),
        config_version: Some(v.config_version),
        staged: Some(v.staged),
        ..f1
    };
    let f3 = DiagnosticsReportFields {
        gpio_count: Some(v.gpio_count),
        flash_size_bytes: Some(v.flash_size_bytes),
        ..f2
    };
    diagnostics_report_firmware_round_trips(v, f0, n1, r1);
    diagnostics_report_state_round_trips(v, f1, n2, r2);
    diagnostics_report_hardware_round_trips(v, f2, n3, rest);
}

/// The CBOR form of this report fits a management response.
pub proof fn diagnostics_report_fits(v: DiagnosticsReport)
    ensures
        1 <= v.cbor_form().len() <= 512,
{
    heads_are_short();
    reveal(DiagnosticsReport::firmware_form);
    reveal(DiagnosticsReport::state_form);
    reveal(DiagnosticsReport::hardware_form);
}

impl DeviceInfoView {
    /// The device identity of a board with the given capabilities.
    pub open spec fn of(
        identity: BoardIdentity,
        capabilities: DeviceCapabilities,
    ) -> DeviceInfoView {
        let (version_major, version_minor, version_patch) = numbers_of(VERSION@);
        DeviceInfoView {
            product: identity.product@,
            family: capabilities.family.spec_code(),
            version_major,
            version_minor,
            version_patch,
            config_version: CONFIG_VERSION,
            manufacturer: identity.manufacturer@,
        }
    }
}

impl DeviceInfo {
    /// Build the device identity for these capabilities and board identity.
    #[must_use]
    pub fn current(identity: &BoardIdentity, capabilities: &DeviceCapabilities) -> (r: Self)
        requires
            encode_utf8(identity.product@).len() <= MAX_BOARD_IDENTITY_LEN,
            encode_utf8(identity.manufacturer@).len() <= MAX_BOARD_IDENTITY_LEN,
        ensures
            r@ == DeviceInfoView::of(*identity, *capabilities),
    {
        let (version_major, version_minor, version_patch) = version_numbers(VERSION);
        let product = FixedString::new(identity.product);
        let manufacturer = FixedString::new(identity.manufacturer);
        Self {
            product: product.unwrap(),
            family: capabilities.family.code(),
            version_major,
            version_minor,
            version_patch,
            config_version: CONFIG_VERSION,
            manufacturer: manufacturer.unwrap(),
        }
    }
}

impl CapabilityReport {
    /// The report of a capability set.
    pub open spec fn of(caps: DeviceCapabilities) -> CapabilityReport {
        CapabilityReport {
            family: caps.family.spec_code(),
            package: caps.package.spec_code(),
            gpio_count: caps.gpio_count,
            flash_external: caps.flash.external,
            flash_internal: caps.flash.internal,
            flash_size_bytes: caps.flash.size_bytes,
            usb_device: caps.usb.device,
            usb_fido_hid: caps.usb.fido_hid,
            usb_management_hid: caps.usb.management_hid,
            usb_max_product_string_len: caps.usb.max_product_string_len,
            led_available: caps.led.available,
            led_configurable_gpio: caps.led.configurable_gpio,
            led_brightness: caps.led.brightness,
            led_driver_gpio: caps.led.drivers.gpio,
            led_driver_pwm: caps.led.drivers.pwm,
            led_driver_ws2812: caps.led.drivers.ws2812,
            led_default_gpio: caps.led.default_gpio,
            led_default_brightness: caps.led.default_brightness,
            presence_bootsel: caps.presence.bootsel,
            presence_external_button: caps.presence.external_button,
            presence_external_button_gpio: caps.presence.external_button_gpio,
            led_candidate_gpio_mask: caps.led.candidate_gpio_mask,
        }
    }
}

impl From<&DeviceCapabilities> for CapabilityReport {
    fn from(caps: &DeviceCapabilities) -> (r: Self) {
        Self {
            family: caps.family.code(),
            package: caps.package.code(),
            gpio_count: caps.gpio_count,
            flash_external: caps.flash.external,
            flash_internal: caps.flash.internal,
            flash_size_bytes: caps.flash.size_bytes,
            usb_device: caps.usb.device,
            usb_fido_hid: caps.usb.fido_hid,
            usb_management_hid: caps.usb.management_hid,
            usb_max_product_string_len: caps.usb.max_product_string_len,
            led_available: caps.led.available,
            led_configurable_gpio: caps.led.configurable_gpio,
            led_brightness: caps.led.brightness,
            led_driver_gpio: caps.led.drivers.gpio,
            led_driver_pwm: caps.led.drivers.pwm,
            led_driver_ws2812: caps.led.drivers.ws2812,
            led_default_gpio: caps.led.default_gpio,
            led_default_brightness: caps.led.default_brightness,
            presence_bootsel: caps.presence.bootsel,
            presence_external_button: caps.presence.external_button,
            presence_external_button_gpio: caps.presence.external_button_gpio,
            led_candidate_gpio_mask: caps.led.candidate_gpio_mask,
        }
    }
}

impl vstd::std_specs::convert::FromSpecImpl<&DeviceCapabilities> for CapabilityReport {
    open spec fn obeys_from_spec() -> bool {
        true
    }

    open spec fn from_spec(caps: &DeviceCapabilities) -> CapabilityReport {
        CapabilityReport::of(*caps)
    }
}

impl From<LifecycleState> for LifecycleReport {
    fn from(state: LifecycleState) -> (r: Self) {
        Self { state: state.code() }
    }
}

impl vstd::std_specs::convert::FromSpecImpl<LifecycleState> for LifecycleReport {
    open spec fn obeys_from_spec() -> bool {
        true
    }

    open spec fn from_spec(state: LifecycleState) -> LifecycleReport {
        LifecycleReport { state: state.spec_code() }
    }
}

impl DiagnosticsReport {
    /// The report of a device state.
    pub open spec fn of(
        lifecycle: LifecycleState,
        config_version: u16,
        staged: bool,
        capabilities: DeviceCapabilities,
    ) -> DiagnosticsReport {
        let (version_major, version_minor, version_patch) = numbers_of(VERSION@);
        DiagnosticsReport {
            version_major,
            version_minor,
            version_patch,
            lifecycle: lifecycle.spec_code(),
            config_version,
            staged,
            gpio_count: capabilities.gpio_count,
            flash_size_bytes: capabilities.flash.size_bytes,
        }
    }

    /// Build a report from the current device state.
    #[must_use]
    pub fn current(
        lifecycle: LifecycleState,
        config_version: u16,
        staged: bool,
        capabilities: &DeviceCapabilities,
    ) -> (r: Self)
        ensures
            r == DiagnosticsReport::of(lifecycle, config_version, staged, *capabilities),
    {
        let (version_major, version_minor, version_patch) = version_numbers(VERSION);
        Self {
            version_major,
            version_minor,
            version_patch,
            lifecycle: lifecycle.code(),
            config_version,
            staged,
            gpio_count: capabilities.gpio_count,
            flash_size_bytes: capabilities.flash.size_bytes,
        }
    }
}

} // verus!
