use aegis_core::board::usb;
use aegis_core::host::transport::{
    select_interface, EndpointSetting, Endpoints, InterfaceSetting,
};

fn endpoint(address: u8, interrupt: bool, input: bool) -> EndpointSetting {
    EndpointSetting {
        address,
        interrupt,
        input,
    }
}

fn setting(class_code: u8, number: u8, name: Option<&str>) -> InterfaceSetting {
    InterfaceSetting {
        class_code,
        number,
        name: name.map(String::from),
        endpoints: vec![
            endpoint(0x80 | number, true, true),
            endpoint(number, true, false),
        ],
    }
}

#[test]
fn the_management_interface_is_found_by_name() {
    let settings = vec![
        setting(3, 0, None),
        setting(3, 1, Some(usb::FIDO_INTERFACE_NAME)),
        setting(0x0B, 2, Some(usb::MANAGEMENT_INTERFACE_NAME)),
        setting(3, 3, Some("AegisToken HID Management v2")),
    ];
    assert_eq!(
        select_interface(&settings, None),
        Some(Endpoints {
            interface: 3,
            endpoint_in: 0x83,
            endpoint_out: 3
        })
    );
    assert_eq!(select_interface(&settings[..3], None), None);
}

#[test]
fn an_interface_can_be_asked_for_by_number() {
    let settings = vec![setting(3, 0, None), setting(3, 1, None)];
    assert_eq!(
        select_interface(&settings, Some(1)),
        Some(Endpoints {
            interface: 1,
            endpoint_in: 0x81,
            endpoint_out: 1
        })
    );
    assert_eq!(select_interface(&settings, Some(9)), None);
}

#[test]
fn both_interrupt_endpoints_are_needed_and_the_last_counts() {
    let mut lacking = setting(3, 1, Some("HID Management"));
    lacking.endpoints.pop();
    lacking.endpoints.push(endpoint(0x01, false, false));
    let mut full = setting(3, 1, Some("HID Management"));
    full.endpoints.push(endpoint(0x8A, true, true));
    assert_eq!(lacking.endpoints_of(), None);
    assert_eq!(
        select_interface(&[lacking, full], None),
        Some(Endpoints {
            interface: 1,
            endpoint_in: 0x8A,
            endpoint_out: 1
        })
    );
}
