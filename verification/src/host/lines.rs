//! The lines that the host tool prints.
use vstd::prelude::*;
use super::cli::{
    ctap_status_name, ctap_status_text, status_name, status_text, Options,
};
use super::harness::{Detail, DetailView, Outcome, OutcomeView};
use super::transport::HID_CLASS;
use crate::text::{
    decimal, hex_text, push_decimal, push_hex_byte, push_three_digits, three_digits,
};

verus! {

/// An interface setting of a listed device.
#[derive(Debug, Clone, Copy, PartialEq, Eq, Structural)]
pub struct ListedSetting {
    /// Interface class.
    pub class_code: u8,
    /// Interface number.
    pub number: u8,
    /// Number of endpoints.
    pub endpoints: u8,
}

/// A USB device on the bus.
#[derive(Debug)]
pub struct ListedDevice {
    /// Bus number.
    pub bus: u8,
    /// Device address.
    pub address: u8,
    /// USB vendor identifier.
    pub vid: u16,
    /// USB product identifier.
    pub pid: u16,
    /// The interface settings of the active configuration; none where it could
    /// not be read.
    pub settings: Vec<ListedSetting>,
}

/// The four hexadecimal digits of an identifier.
pub open spec fn identifier_text(id: u16) -> Seq<char> {
    hex_text(seq![(id / 256) as u8]) + hex_text(seq![(id % 256) as u8])
}

fn push_identifier(out: &mut String, id: u16)
    ensures
        final(out)@ == old(out)@ + identifier_text(id),
{
    push_hex_byte(out, (id / 256) as u8);
    push_hex_byte(out, (id % 256) as u8);
    assert(out@ =~= old(out)@ + identifier_text(id));
}

/// A vendor and product identifier, as they are shown.
pub open spec fn identity_text(vid: u16, pid: u16) -> Seq<char> {
    identifier_text(vid) + ":"@ + identifier_text(pid)
}

fn push_identity(out: &mut String, vid: u16, pid: u16)
    ensures
        final(out)@ == old(out)@ + identity_text(vid, pid),
{
    push_identifier(out, vid);
    out.append(":");
    push_identifier(out, pid);
    assert(out@ =~= old(out)@ + identity_text(vid, pid));
}

/// The complaint that no device matches.
pub open spec fn no_device_text(vid: u16, pid: u16) -> Seq<char> {
    "no AegisToken device with VID "@ + identity_text(vid, pid) + " found"@
}

/// Complaint that no device matches.
#[must_use]
pub fn no_device_line(vid: u16, pid: u16) -> (r: String)
    ensures
        r@ == no_device_text(vid, pid),
{
    let mut out: String = String::from_str("no AegisToken device with VID ");
    push_identity(&mut out, vid, pid);
    out.append(" found");
    out
}

/// The line of a device.
pub open spec fn device_text(device: ListedDevice) -> Seq<char> {
    "bus "@ + three_digits(device.bus) + " address "@ + three_digits(device.address) + " VID "@
        + identity_text(device.vid, device.pid)
}

fn device_line(device: &ListedDevice) -> (r: String)
    ensures
        r@ == device_text(*device),
{
    let mut out: String = String::from_str("bus ");
    push_three_digits(&mut out, device.bus);
    out.append(" address ");
    push_three_digits(&mut out, device.address);
    out.append(" VID ");
    push_identity(&mut out, device.vid, device.pid);
    out
}

/// The line of an interface setting.
pub open spec fn setting_text(setting: ListedSetting) -> Seq<char> {
    "  interface "@ + decimal(setting.number as nat) + " (HID, "@ + decimal(
        setting.endpoints as nat,
    ) + " endpoints)"@
}

fn setting_line(setting: &ListedSetting) -> (r: String)
    ensures
        r@ == setting_text(*setting),
{
    let mut out: String = String::from_str("  interface ");
    push_decimal(&mut out, setting.number as usize);
    out.append(" (HID, ");
    push_decimal(&mut out, setting.endpoints as usize);
    out.append(" endpoints)");
    out
}

/// The lines of the HID settings among the first ones.
pub open spec fn setting_texts(settings: Seq<ListedSetting>) -> Seq<Seq<char>>
    decreases settings.len(),
{
    if settings.len() == 0 {
        Seq::empty()
    } else {
        let before = setting_texts(settings.drop_last());
        if settings.last().class_code == HID_CLASS {
            before.push(setting_text(settings.last()))
        } else {
            before
        }
    }
}

/// The lines of a list of devices: of those that match the options, each with its
/// HID interfaces.
pub open spec fn list_texts(devices: Seq<ListedDevice>, options: Options) -> Seq<Seq<char>>
    decreases devices.len(),
{
    if devices.len() == 0 {
        Seq::empty()
    } else {
        let before = list_texts(devices.drop_last(), options);
        let device = devices.last();
        if device.vid == options.vid && device.pid == options.pid {
            before.push(device_text(device)) + setting_texts(device.settings@)
        } else {
            before
        }
    }
}

/// The texts of a list of lines.
pub open spec fn line_texts(lines: Seq<String>) -> Seq<Seq<char>> {
    Seq::new(lines.len(), |i: int| lines[i]@)
}

fn push_settings(lines: &mut Vec<String>, settings: &[ListedSetting])
    ensures
        line_texts(final(lines)@) == line_texts(old(lines)@) + setting_texts(settings@),
{
    let ghost before = line_texts(lines@);
    let mut i: usize = 0;
    assert(line_texts(lines@) =~= before + setting_texts(settings@.subrange(0, 0)));
    while i < settings.len()
        invariant
            i <= settings@.len(),
            line_texts(lines@) == before + setting_texts(settings@.subrange(0, i as int)),
        decreases settings@.len() - i,
    {
        let ghost held = lines@;
        proof {
            assert(settings@.subrange(0, i + 1).drop_last() =~= settings@.subrange(0, i as int));
        }
        if settings[i].class_code == HID_CLASS {
            lines.push(setting_line(&settings[i]));
            assert(line_texts(lines@) =~= line_texts(held).push(setting_text(settings@[i as int])));
            assert(line_texts(lines@) =~= before + setting_texts(settings@.subrange(0, i + 1)));
        }
        i += 1;
    }
    assert(settings@.subrange(0, i as int) =~= settings@);
}

/// List matching USB devices and their HID interfaces.
#[must_use]
pub fn describe(devices: &[ListedDevice], options: &Options) -> (r: Vec<String>)
    ensures
        line_texts(r@) == list_texts(devices@, *options),
{
    let mut lines: Vec<String> = Vec::new();
    let mut i: usize = 0;
    assert(line_texts(lines@) =~= list_texts(devices@.subrange(0, 0), *options));
    while i < devices.len()
        invariant
            i <= devices@.len(),
            line_texts(lines@) == list_texts(devices@.subrange(0, i as int), *options),
        decreases devices@.len() - i,
    {
        let ghost held = lines@;
        proof {
            assert(devices@.subrange(0, i + 1).drop_last() =~= devices@.subrange(0, i as int));
        }
        let device: &ListedDevice = &devices[i];
        if device.vid == options.vid && device.pid == options.pid {
            lines.push(device_line(device));
            assert(line_texts(lines@) =~= line_texts(held).push(device_text(*device)));
            push_settings(&mut lines, device.settings.as_slice());
        }
        i += 1;
    }
    assert(devices@.subrange(0, i as int) =~= devices@);
    lines
}

/// The line of a failed operation.
#[must_use]
pub fn failure_line(status: u8) -> (r: String)
    ensures
        r@ == "status: 0x"@ + hex_text(seq![status]) + " ("@ + status_text(status) + ")"@,
{
    let mut out: String = String::from_str("status: 0x");
    push_hex_byte(&mut out, status);
    out.append(" (");
    out.append(status_name(status));
    out.append(")");
    out
}

/// The line of the last FIDO command.
#[must_use]
pub fn last_fido_line(command: u8, status: u8) -> (r: String)
    ensures
        r@ == "last FIDO command=0x"@ + hex_text(seq![command]) + " status=0x"@ + hex_text(
            seq![status],
        ) + " ("@ + ctap_status_text(status) + ")"@,
{
    let mut out: String = String::from_str("last FIDO command=0x");
    push_hex_byte(&mut out, command);
    out.append(" status=0x");
    push_hex_byte(&mut out, status);
    out.append(" (");
    out.append(ctap_status_name(status));
    out.append(")");
    out
}

/// The text of what is said beside an outcome.
pub open spec fn detail_text(detail: DetailView) -> Seq<char> {
    match detail {
        DetailView::Nothing => ""@,
        DetailView::HidBackend(true) => "HID backend available"@,
        DetailView::HidBackend(
            false,
        ) => "HID backend unavailable; a WinUSB driver would be required"@,
        DetailView::Interface(number) => "interface "@ + decimal(number as nat),
        DetailView::Status(status) => "status="@ + decimal(status as nat),
        DetailView::SetCommit(set, commit) => "set="@ + decimal(set as nat) + " commit="@ + decimal(
            commit as nat,
        ),
        DetailView::GpioCount(count) => "gpio_count="@ + decimal(count as nat),
        DetailView::Failure(error) => error,
    }
}

fn detail_line(detail: &Detail) -> (r: String)
    ensures
        r@ == detail_text(detail@),
{
    match detail {
        Detail::Nothing => String::from_str(""),
        Detail::HidBackend(available) => if *available {
            String::from_str("HID backend available")
        } else {
            String::from_str("HID backend unavailable; a WinUSB driver would be required")
        },
        Detail::Interface(number) => {
            let mut out: String = String::from_str("interface ");
            push_decimal(&mut out, *number as usize);
            out
        },
        Detail::Status(status) => {
            let mut out: String = String::from_str("status=");
            push_decimal(&mut out, *status as usize);
            out
        },
        Detail::SetCommit(set, commit) => {
            let mut out: String = String::from_str("set=");
            push_decimal(&mut out, *set as usize);
            out.append(" commit=");
            push_decimal(&mut out, *commit as usize);
            out
        },
        Detail::GpioCount(count) => {
            let mut out: String = String::from_str("gpio_count=");
            push_decimal(&mut out, *count as usize);
            out
        },
        Detail::Failure(error) => error.clone(),
    }
}

/// The line of an outcome: a flag, the name of the check, and what is said beside
/// it where there is anything.
pub open spec fn outcome_text(outcome: OutcomeView) -> Seq<char> {
    let flag = if outcome.passed {
        "[PASS] "@
    } else {
        "[FAIL] "@
    };
    let detail = detail_text(outcome.detail);
    if detail.len() == 0 {
        flag + outcome.check.spec_name()
    } else {
        flag + outcome.check.spec_name() + " \u{2014} "@ + detail
    }
}

/// Line of an outcome.
#[must_use]
pub fn outcome_line(outcome: &Outcome) -> (r: String)
    ensures
        r@ == outcome_text(outcome@),
{
    let mut out: String = if outcome.passed {
        String::from_str("[PASS] ")
    } else {
        String::from_str("[FAIL] ")
    };
    out.append(outcome.check.name());
    let detail: String = detail_line(&outcome.detail);
    if detail.as_str().unicode_len() > 0 {
        out.append(" \u{2014} ");
        out.append(detail.as_str());
    }
    out
}

/// The line that sums a run up.
#[must_use]
pub fn summary_line(passed: usize, total: usize) -> (r: String)
    ensures
        r@ == decimal(passed as nat) + "/"@ + decimal(total as nat) + " checks passed"@,
{
    let mut out: String = String::new();
    push_decimal(&mut out, passed);
    out.append("/");
    push_decimal(&mut out, total);
    out.append(" checks passed");
    assert(out@ =~= decimal(passed as nat) + "/"@ + decimal(total as nat) + " checks passed"@);
    out
}

} // verus!
