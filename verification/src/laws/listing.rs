//! What the host shows: devices, states and outcomes.
use vstd::prelude::*;
use crate::ctap2::Ctap2Status;
use crate::codec::Decode;
use crate::configuration::DeviceConfig;
use crate::host::cli::{ctap_status_text, shown, status_text, Options, ShownView};
use crate::host::framing::ResponseView;
use crate::host::harness::{DetailView, OutcomeView};
use crate::host::lines::{
    detail_text, device_text, identifier_text, identity_text, list_texts, no_device_text,
    outcome_text, setting_text, setting_texts, ListedDevice, ListedSetting,
};
use crate::laws::text::{
    bytes_are_shown_in_order, digit_char, written, numbers_are_shown_in_decimal,
};
use crate::reports::{
    CapabilityReport, DeviceInfo, DiagnosticsReport, LifecycleReport, StatusReport,
};
use crate::text::{hex_text, three_digits};

verus! {

/// The listings of two lists of devices stand one behind the other. A device that matches
/// gives its line and those of its interfaces, and any other gives none.
pub proof fn matching_devices_are_listed(
    a: Seq<ListedDevice>,
    b: Seq<ListedDevice>,
    device: ListedDevice,
    options: Options,
)
    ensures
        list_texts(a + b, options) == list_texts(a, options) + list_texts(b, options),
        device.vid == options.vid && device.pid == options.pid ==> list_texts(
            seq![device],
            options,
        ) == seq![device_text(device)] + setting_texts(device.settings@),
        device.vid != options.vid || device.pid != options.pid ==> list_texts(
            seq![device],
            options,
        ) == Seq::<Seq<char>>::empty(),
    decreases b.len(),
{
    let none = Seq::<Seq<char>>::empty();
    assert(seq![device].drop_last() =~= Seq::<ListedDevice>::empty());
    assert(list_texts(seq![device].drop_last(), options) == none);
    assert(none.push(device_text(device)) =~= seq![device_text(device)]);
    if b.len() == 0 {
        assert(a + b =~= a);
        assert(list_texts(a, options) + list_texts(b, options) =~= list_texts(a, options));
    } else {
        matching_devices_are_listed(a, b.drop_last(), device, options);
        assert((a + b).drop_last() =~= a + b.drop_last());
        assert((a + b).last() == b.last());
        assert(list_texts(a + b, options) =~= list_texts(a, options) + list_texts(b, options));
    }
}

/// The lines of two lists of settings stand one behind the other. A HID setting gives a
/// line, and any other gives none.
pub proof fn hid_settings_are_listed(
    a: Seq<ListedSetting>,
    b: Seq<ListedSetting>,
    setting: ListedSetting,
)
    ensures
        setting_texts(a + b) == setting_texts(a) + setting_texts(b),
        setting.class_code == 3 ==> setting_texts(seq![setting]) == seq![setting_text(setting)],
        setting.class_code != 3 ==> setting_texts(seq![setting]) == Seq::<Seq<char>>::empty(),
    decreases b.len(),
{
    let none = Seq::<Seq<char>>::empty();
    assert(seq![setting].drop_last() =~= Seq::<ListedSetting>::empty());
    assert(setting_texts(seq![setting].drop_last()) == none);
    assert(none.push(setting_text(setting)) =~= seq![setting_text(setting)]);
    if b.len() == 0 {
        assert(a + b =~= a);
        assert(setting_texts(a) + setting_texts(b) =~= setting_texts(a));
    } else {
        hid_settings_are_listed(a, b.drop_last(), setting);
        assert((a + b).drop_last() =~= a + b.drop_last());
        assert((a + b).last() == b.last());
        assert(setting_texts(a + b) =~= setting_texts(a) + setting_texts(b));
    }
}

/// An identifier is shown with four digits, the most significant first.
pub proof fn identifiers_have_four_digits(id: u16)
    ensures
        identifier_text(id) == seq![
            digit_char((id / 4096) as nat, false),
            digit_char((id / 256 % 16) as nat, false),
            digit_char((id / 16 % 16) as nat, false),
            digit_char((id % 16) as nat, false),
        ],
{
    let high = seq![(id / 256) as u8];
    let low = seq![(id % 256) as u8];
    bytes_are_shown_in_order(high, 0);
    bytes_are_shown_in_order(low, 0);
    assert(id / 256 / 16 == id / 4096 && id % 256 / 16 == id / 16 % 16 && id % 256 % 16 == id % 16);
    assert(hex_text(high)[0] == digit_char((id / 4096) as nat, false));
    assert(hex_text(high)[1] == digit_char((id / 256 % 16) as nat, false));
    assert(hex_text(low)[0] == digit_char((id / 16 % 16) as nat, false));
    assert(hex_text(low)[1] == digit_char((id % 16) as nat, false));
}

/// Where a device sits on the bus is shown with three digits each, and its identifiers
/// with a colon between them.
pub proof fn devices_are_shown_so(device: ListedDevice)
    ensures
        three_digits(device.bus) == seq![
            digit_char((device.bus / 100) as nat, false),
            digit_char((device.bus / 10 % 10) as nat, false),
            digit_char((device.bus % 10) as nat, false),
        ],
        identity_text(device.vid, device.pid) == identifier_text(device.vid) + ":"@
            + identifier_text(device.pid),
        device_text(device) == "bus "@ + three_digits(device.bus) + " address "@ + three_digits(
            device.address,
        ) + " VID "@ + identity_text(device.vid, device.pid),
        no_device_text(device.vid, device.pid) == "no AegisToken device with VID "@ + identity_text(
            device.vid,
            device.pid,
        ) + " found"@,
{
}

/// An interface is shown with its number and how many endpoints it has.
pub proof fn interfaces_are_shown_so(setting: ListedSetting)
    ensures
        setting_text(setting) == "  interface "@ + written(setting.number as nat, 10, false)
            + " (HID, "@ + written(setting.endpoints as nat, 10, false) + " endpoints)"@,
{
    numbers_are_shown_in_decimal(setting.number as nat);
    numbers_are_shown_in_decimal(setting.endpoints as nat);
}

/// An outcome is shown with its flag and the name of the check, and with what is said
/// beside it where anything is.
pub proof fn outcomes_are_shown_so(outcome: OutcomeView)
    ensures
        ({
            let head = (if outcome.passed { "[PASS] "@ } else { "[FAIL] "@ })
                + outcome.check.spec_name();
            let detail = detail_text(outcome.detail);
            &&& detail == Seq::<char>::empty() ==> outcome_text(outcome) == head
            &&& detail != Seq::<char>::empty() ==> outcome_text(outcome) == head + " \u{2014} "@
                + detail
        }),
{
    assert(detail_text(outcome.detail).len() == 0 ==> detail_text(outcome.detail) =~= Seq::<
        char,
    >::empty());
}

/// What is said beside an outcome.
pub proof fn details_are_shown_so(n: u8, set: u8, commit: u8, error: Seq<char>)
    ensures
        detail_text(DetailView::Nothing) == ""@,
        detail_text(DetailView::Interface(n)) == "interface "@ + written(n as nat, 10, false),
        detail_text(DetailView::Status(n)) == "status="@ + written(n as nat, 10, false),
        detail_text(DetailView::GpioCount(n)) == "gpio_count="@ + written(n as nat, 10, false),
        detail_text(DetailView::SetCommit(set, commit)) == "set="@ + written(set as nat, 10, false)
            + " commit="@ + written(commit as nat, 10, false),
        detail_text(DetailView::Failure(error)) == error,
        detail_text(DetailView::HidBackend(true)) == "HID backend available"@,
        detail_text(DetailView::HidBackend(false))
            == "HID backend unavailable; a WinUSB driver would be required"@,
{
    numbers_are_shown_in_decimal(n as nat);
    numbers_are_shown_in_decimal(set as nat);
    numbers_are_shown_in_decimal(commit as nat);
}

/// The statuses that the host knows by name.
pub proof fn statuses_are_named_so(code: u8)
    ensures
        ctap_status_text(Ctap2Status::Success.spec_code()) == "CTAP2_OK"@,
        ctap_status_text(Ctap2Status::InvalidCommand.spec_code()) == "ERR_INVALID_COMMAND"@,
        ctap_status_text(Ctap2Status::InvalidParameter.spec_code()) == "ERR_INVALID_PARAMETER"@,
        ctap_status_text(Ctap2Status::InvalidLength.spec_code()) == "ERR_INVALID_LENGTH"@,
        ctap_status_text(Ctap2Status::NoCredentials.spec_code()) == "CTAP2_ERR_NO_CREDENTIALS"@,
        ctap_status_text(Ctap2Status::PinAuthInvalid.spec_code()) == "CTAP2_ERR_PIN_AUTH_INVALID"@,
        ctap_status_text(Ctap2Status::PinAuthBlocked.spec_code()) == "CTAP2_ERR_PIN_AUTH_BLOCKED"@,
        ctap_status_text(Ctap2Status::PinRequired.spec_code()) == "CTAP2_ERR_PIN_REQUIRED"@,
        ctap_status_text(0x0A) == "ERR_TIMEOUT"@,
        ctap_status_text(0x39) == "CTAP2_ERR_OPERATION_DENIED"@,
        ctap_status_text(0x3B) == "CTAP2_ERR_UP_REQUIRED"@,
        ctap_status_text(0x3D) == "CTAP2_ERR_PIN_AUTH_REQUIRED"@,
        3 < code < 0x0A || 0x0A < code < 0x2E || code == 0x2F || code > 0x3D ==> ctap_status_text(
            code,
        ) == "unknown"@,
        code == 0 || code > 0x0A ==> status_text(code) == "unknown status"@,
        status_text(0x01) == "invalid command"@ && status_text(0x02) == "unsupported command"@,
        status_text(0x03) == "invalid capability"@ && status_text(0x04) == "invalid configuration"@,
        status_text(0x05) == "invalid state"@ && status_text(0x06) == "unauthorized"@,
        status_text(0x07) == "storage error"@ && status_text(0x08) == "crypto error"@,
        status_text(0x09) == "firmware error"@ && status_text(0x0A) == "protocol error"@,
{
}

/// A response is shown by what it answers: a failure as such, nothing as done, a report as
/// what it says, the last FIDO command under code 0x14, and any other body in hexadecimal.
pub proof fn responses_are_shown_so(code: u8, status: u8, body: Seq<u8>, command: u8)
    ensures
        ({
            let r = shown(code, ResponseView { command, status, body });
            let read = status == 0 && body.len() > 0;
            &&& status != 0 ==> r == ShownView::Failure(status)
            &&& status == 0 && body.len() == 0 ==> r == ShownView::Done
            &&& read && code == 0x01 ==> (DeviceInfo::take(body) matches Some((v, _)) ==> r
                == ShownView::Info(v))
            &&& read && code == 0x02 ==> (CapabilityReport::take(body) matches Some((v, _)) ==> r
                == ShownView::Capabilities(v))
            &&& read && code == 0x03 ==> (DeviceConfig::take(body) matches Some((v, _)) ==> r
                == ShownView::Config(v))
            &&& read && code == 0x07 ==> (LifecycleReport::take(body) matches Some((v, _)) ==> r
                == ShownView::Lifecycle(v))
            &&& read && code == 0x09 ==> (StatusReport::take(body) matches Some((v, _)) ==> r
                == ShownView::Status(v))
            &&& read && code == 0x0A ==> (DiagnosticsReport::take(body) matches Some((v, _)) ==> r
                == ShownView::Diagnostics(v))
            &&& read && code == 0x14 && body.len() >= 2 ==> r == ShownView::LastFido(
                body[0],
                body[1],
            )
            &&& read && code == 0x14 && body.len() < 2 ==> r == ShownView::Hex(hex_text(body))
            &&& read && code != 0x01 && code != 0x02 && code != 0x03 && code != 0x07 && code != 0x09
                && code != 0x0A && code != 0x14 ==> r == ShownView::Hex(hex_text(body))
            &&& read && code == 0x03 && DeviceConfig::take(body) is None ==> r == ShownView::Hex(
                hex_text(body),
            )
        }),
{
}

} // verus!
