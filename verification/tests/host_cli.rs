use aegis_core::codec::{encode_into, Encode};
use aegis_core::configuration::DeviceConfig;
use aegis_core::error::CoreError;
use aegis_core::host::cli::{
    ctap_status_name, parse, present, request_code, request_payload, split_option, status_name,
    Action, Cli, Options, PayloadSource, Shown,
};
use aegis_core::host::framing::Response;
use aegis_core::management_protocol::{LifecycleReport, StatusReport};

fn strings(args: &[&str]) -> Vec<String> {
    args.iter().map(|arg| String::from(*arg)).collect()
}

fn parsed(args: &[&str]) -> Cli {
    parse(strings(args)).unwrap()
}

fn failed(args: &[&str]) -> String {
    match parse(strings(args)) {
        Ok(_) => panic!("expected a complaint"),
        Err(message) => message,
    }
}

#[test]
fn no_arguments_mean_the_defaults() {
    let cli = parsed(&[]);
    assert_eq!(
        cli.options,
        Options {
            vid: 0x1209,
            pid: 0x0001,
            interface: None,
            timeout_ms: 2000
        }
    );
    assert_eq!(cli.command, None);
    assert!(cli.positional.is_empty());
    assert_eq!(cli.action(), Action::ShowHelp);
}

#[test]
fn options_take_values_inline_or_next() {
    let cli = parsed(&[
        "--vid=0x2E8A",
        "--pid",
        "0x10B0",
        "-i",
        "2",
        "--timeout=0",
        "send",
        "0x14",
        "a0",
    ]);
    assert_eq!(
        cli.options,
        Options {
            vid: 0x2E8A,
            pid: 0x10B0,
            interface: Some(2),
            timeout_ms: 1
        }
    );
    assert_eq!(cli.command.as_deref(), Some("send"));
    assert_eq!(cli.positional, vec!["0x14", "a0"]);
    assert_eq!(cli.action(), Action::Request);
}

#[test]
fn bad_options_are_complained_of() {
    assert_eq!(failed(&["--vid"]), "option --vid requires a value");
    assert_eq!(failed(&["--frob"]), "unknown option: --frob");
    assert_eq!(failed(&["--frob=1"]), "unknown option: --frob=1");
    assert_eq!(failed(&["-x=1"]), "unknown option: -x=1");
    assert_eq!(failed(&["--vid", "70000"]), "value out of range: 70000");
    assert_eq!(failed(&["--interface=x"]), "invalid number: x");
}

#[test]
fn a_lone_dash_is_an_argument() {
    let cli = parsed(&["-"]);
    assert_eq!(cli.command.as_deref(), Some("-"));
    assert_eq!(failed(&["--"]), "unknown option: --");
}

#[test]
fn options_are_split_at_the_first_equals_sign() {
    assert_eq!(split_option("--a=b=c"), ("--a", Some("b=c")));
    assert_eq!(split_option("--a="), ("--a", Some("")));
    assert_eq!(split_option("-a=b"), ("-a=b", None));
    assert_eq!(split_option("plain"), ("plain", None));
}

#[test]
fn version_wins_over_help_and_help_over_commands() {
    assert_eq!(parsed(&["-V", "-h", "list"]).action(), Action::ShowVersion);
    assert_eq!(parsed(&["--help", "list"]).action(), Action::ShowHelp);
    assert_eq!(parsed(&["help"]).action(), Action::ShowHelp);
    assert_eq!(parsed(&["list"]).action(), Action::List);
    assert_eq!(parsed(&["validate"]).action(), Action::Validate);
}

#[test]
fn commands_name_operations() {
    let expected = [
        ("info", 0x01),
        ("capabilities", 0x02),
        ("config", 0x03),
        ("get-configuration", 0x03),
        ("commit", 0x06),
        ("commit-configuration", 0x06),
        ("lifecycle", 0x07),
        ("commission", 0x08),
        ("status", 0x09),
        ("diagnostics", 0x0A),
        ("decommission", 0x0B),
        ("factory-reset", 0x0C),
        ("soft-detach", 0x0D),
        ("last-fido", 0x14),
    ];
    for (command, code) in expected {
        assert_eq!(request_code(command, &[]), Ok(code));
        match request_payload(command, &[]) {
            Ok(PayloadSource::Bytes(bytes)) => assert!(bytes.is_empty()),
            other => panic!("{command}: {other:?}"),
        }
    }
}

#[test]
fn proposals_carry_a_payload() {
    for (command, code) in [
        ("set-config", 0x04),
        ("set-configuration", 0x04),
        ("validate-config", 0x05),
        ("validate-configuration", 0x05),
    ] {
        let given = strings(&["a0"]);
        assert_eq!(request_code(command, &given), Ok(code));
        match request_payload(command, &given) {
            Ok(PayloadSource::Bytes(bytes)) => assert_eq!(bytes, vec![0xa0]),
            other => panic!("{other:?}"),
        }
        match request_payload(command, &strings(&["@config.cbor"])) {
            Ok(PayloadSource::File(path)) => assert_eq!(path, "config.cbor"),
            other => panic!("{other:?}"),
        }
        match request_payload(command, &[]) {
            Err(message) => assert_eq!(message, "command requires a hex payload or @file"),
            other => panic!("{other:?}"),
        }
    }
}

#[test]
fn raw_commands_take_their_code() {
    assert_eq!(request_code("send", &strings(&["0x14"])), Ok(0x14));
    assert_eq!(
        request_code("send", &strings(&["300"])),
        Err(String::from("value out of range: 300"))
    );
    assert_eq!(
        request_code("send", &[]),
        Err(String::from("send requires a command code"))
    );
    match request_payload("send", &strings(&["1", "beef"])) {
        Ok(PayloadSource::Bytes(bytes)) => assert_eq!(bytes, vec![0xbe, 0xef]),
        other => panic!("{other:?}"),
    }
}

#[test]
fn unknown_commands_are_named() {
    assert_eq!(
        request_code("frob", &[]),
        Err(String::from("unknown command: frob"))
    );
    match request_payload("frob", &[]) {
        Err(message) => assert_eq!(message, "unknown command: frob"),
        other => panic!("{other:?}"),
    }
}

fn response(status: u8, body: &[u8]) -> Response {
    Response {
        command: 0x81,
        status,
        body: body.to_vec(),
    }
}

fn body_of<T: Encode>(value: &T) -> Vec<u8> {
    let mut buf = [0u8; 512];
    let len = encode_into(value, &mut buf).unwrap();
    buf[..len].to_vec()
}

#[test]
fn responses_are_shown_by_operation() {
    assert!(matches!(present(0x09, &response(5, &[1])), Shown::Failure(5)));
    assert!(matches!(present(0x06, &response(0, &[])), Shown::Done));

    let status = StatusReport {
        lifecycle: 5,
        config_version: 1,
        staged: true,
    };
    match present(0x09, &response(0, &body_of(&status))) {
        Shown::Status(shown) => assert_eq!(shown, status),
        other => panic!("{other:?}"),
    }
    match present(0x07, &response(0, &body_of(&LifecycleReport { state: 2 }))) {
        Shown::Lifecycle(shown) => assert_eq!(shown.state, 2),
        other => panic!("{other:?}"),
    }
    match present(0x03, &response(0, &body_of(&DeviceConfig::official_defaults()))) {
        Shown::Config(config) => assert_eq!(config, DeviceConfig::official_defaults()),
        other => panic!("{other:?}"),
    }
    assert!(matches!(
        present(0x14, &response(0, &[0x02, 0x2E])),
        Shown::LastFido(0x02, 0x2E)
    ));
}

#[test]
fn bodies_that_do_not_decode_are_shown_in_hex() {
    for code in [0x01, 0x02, 0x03, 0x07, 0x09, 0x0A, 0x14, 0x42] {
        match present(code, &response(0, &[0xff])) {
            Shown::Hex(text) => assert_eq!(text, "ff"),
            other => panic!("{other:?}"),
        }
    }
}

#[test]
fn the_host_names_what_the_device_reports() {
    for error in [
        CoreError::InvalidCommand,
        CoreError::UnsupportedCommand,
        CoreError::InvalidCapability,
        CoreError::InvalidConfiguration,
        CoreError::InvalidState,
        CoreError::Unauthorized,
        CoreError::StorageError,
        CoreError::CryptoError,
        CoreError::FirmwareError,
        CoreError::ProtocolError,
    ] {
        assert_eq!(status_name(error.code()), error.as_str());
    }
    assert_eq!(status_name(0x0B), "unknown status");
    assert_eq!(ctap_status_name(0x00), "CTAP2_OK");
    assert_eq!(ctap_status_name(0x2E), "CTAP2_ERR_NO_CREDENTIALS");
    assert_eq!(ctap_status_name(0x3D), "CTAP2_ERR_PIN_AUTH_REQUIRED");
    assert_eq!(ctap_status_name(0x77), "unknown");
}
