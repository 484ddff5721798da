use aegis_core::host::cli::Options;
use aegis_core::host::harness::{Check, Detail, Outcome};
use aegis_core::host::lines::{
    describe, failure_line, last_fido_line, no_device_line, outcome_line, summary_line,
    ListedDevice, ListedSetting,
};

fn device(bus: u8, vid: u16, pid: u16) -> ListedDevice {
    ListedDevice {
        bus,
        address: 7,
        vid,
        pid,
        settings: vec![
            ListedSetting {
                class_code: 3,
                number: 1,
                endpoints: 2,
            },
            ListedSetting {
                class_code: 0x0B,
                number: 3,
                endpoints: 2,
            },
            ListedSetting {
                class_code: 3,
                number: 2,
                endpoints: 1,
            },
        ],
    }
}

#[test]
fn matching_devices_are_listed_with_their_hid_interfaces() {
    let devices = vec![
        device(1, 0x1209, 0x0001),
        device(2, 0x1209, 0x0002),
        device(12, 0x1209, 0x0001),
    ];
    let options = Options {
        vid: 0x1209,
        pid: 0x0001,
        interface: None,
        timeout_ms: 2000,
    };
    assert_eq!(
        describe(&devices, &options),
        vec![
            "bus 001 address 007 VID 1209:0001",
            "  interface 1 (HID, 2 endpoints)",
            "  interface 2 (HID, 1 endpoints)",
            "bus 012 address 007 VID 1209:0001",
            "  interface 1 (HID, 2 endpoints)",
            "  interface 2 (HID, 1 endpoints)",
        ]
    );
    assert!(describe(&devices, &Options { vid: 1, ..options }).is_empty());
}

#[test]
fn lines_are_spelled_out() {
    assert_eq!(
        no_device_line(0x1209, 0x00ab),
        "no AegisToken device with VID 1209:00ab found"
    );
    assert_eq!(failure_line(0x05), "status: 0x05 (invalid state)");
    assert_eq!(
        last_fido_line(0x02, 0x2e),
        "last FIDO command=0x02 status=0x2e (CTAP2_ERR_NO_CREDENTIALS)"
    );
    assert_eq!(summary_line(9, 12), "9/12 checks passed");
    assert_eq!(summary_line(0, 0), "0/0 checks passed");
}

fn outcome(check: Check, passed: bool, detail: Detail) -> Outcome {
    Outcome {
        check,
        passed,
        detail,
    }
}

#[test]
fn outcomes_say_what_was_checked() {
    assert_eq!(
        outcome_line(&outcome(Check::Enumeration, true, Detail::Interface(2))),
        "[PASS] AC-003 Management HID enumeration \u{2014} interface 2"
    );
    assert_eq!(
        outcome_line(&outcome(Check::Interfaces, false, Detail::Nothing)),
        "[FAIL] capabilities advertise both HID interfaces"
    );
    assert_eq!(
        outcome_line(&outcome(Check::Applied, false, Detail::SetCommit(4, 105))),
        "[FAIL] AC-006 valid configuration applied \u{2014} set=4 commit=105"
    );
    assert_eq!(
        outcome_line(&outcome(Check::Discovery, true, Detail::GpioCount(48))),
        "[PASS] AC-009 automatic discovery \u{2014} gpio_count=48"
    );
    assert_eq!(
        outcome_line(&outcome(
            Check::Status,
            false,
            Detail::Failure(String::from("timed out"))
        )),
        "[FAIL] GET_STATUS \u{2014} timed out"
    );
    assert_eq!(
        outcome_line(&outcome(Check::Status, false, Detail::Failure(String::new()))),
        "[FAIL] GET_STATUS"
    );
    assert_eq!(
        outcome_line(&outcome(
            Check::DriverlessAccess,
            true,
            Detail::HidBackend(true)
        )),
        "[PASS] Windows driverless access (libusb HID backend, no WinUSB) \u{2014} HID backend available"
    );
    assert_eq!(
        outcome_line(&outcome(Check::Lifecycle, true, Detail::Status(0))),
        "[PASS] GET_LIFECYCLE \u{2014} status=0"
    );
}
