//! Command-line arguments of the host tool and what they ask for.
use vstd::prelude::*;
use super::framing::{Response, ResponseView};
use crate::cbor::same_text;
use crate::codec::{decode_from, Decode};
use crate::configuration::{DeviceConfig, DeviceConfigView, DEFAULT_PRODUCT_ID, DEFAULT_VENDOR_ID};
use crate::error::CoreError;
use crate::management_protocol::{CapabilityReport, DeviceInfo, LifecycleReport, StatusReport};
use crate::recovery::DiagnosticsReport;
use crate::reports::DeviceInfoView;
use crate::text::{
    chars_of, complaint, hex_payload, hex_text, number_up_to, parse_hex, parse_u16, parse_u64,
    parse_u8, to_hex,
};

verus! {

/// `GET_LAST_FIDO_STATUS`, a diagnostics-only extension command.
pub const GET_LAST_FIDO_STATUS: u8 = 0x14;

/// Connection options resolved from the command line.
#[derive(Debug, Clone, Copy, PartialEq, Eq, Structural)]
pub struct Options {
    /// Expected USB vendor id.
    pub vid: u16,
    /// Expected USB product id.
    pub pid: u16,
    /// Explicit interface number, bypassing string-based discovery.
    pub interface: Option<u8>,
    /// Per-transfer timeout, in milliseconds.
    pub timeout_ms: u64,
}

impl Options {
    /// The options where the command line says nothing.
    pub open spec fn initial() -> Options {
        Options {
            vid: DEFAULT_VENDOR_ID,
            pid: DEFAULT_PRODUCT_ID,
            interface: None,
            timeout_ms: 2000,
        }
    }
}

impl Default for Options {
    fn default() -> (r: Self)
        ensures
            r == Options::initial(),
    {
        Self {
            vid: DEFAULT_VENDOR_ID,
            pid: DEFAULT_PRODUCT_ID,
            interface: None,
            timeout_ms: 2000,
        }
    }
}

/// Parsed command line.
#[derive(Debug)]
pub struct Cli {
    /// Connection options.
    pub options: Options,
    /// The command, if one was given.
    pub command: Option<String>,
    /// Arguments after the command.
    pub positional: Vec<String>,
    /// Whether help was asked for.
    pub help: bool,
    /// Whether the version was asked for.
    pub version: bool,
}

/// What a parsed command line says.
pub struct CliView {
    /// Connection options.
    pub options: Options,
    /// The command, if one was given.
    pub command: Option<Seq<char>>,
    /// Arguments after the command.
    pub positional: Seq<Seq<char>>,
    /// Whether help was asked for.
    pub help: bool,
    /// Whether the version was asked for.
    pub version: bool,
}

/// The texts of a list of strings.
pub open spec fn texts(strings: Seq<String>) -> Seq<Seq<char>> {
    Seq::new(strings.len(), |i: int| strings[i]@)
}

impl View for Cli {
    type V = CliView;

    open spec fn view(&self) -> CliView {
        CliView {
            options: self.options,
            command: match self.command {
                Some(command) => Some(command@),
                None => None,
            },
            positional: texts(self.positional@),
            help: self.help,
            version: self.version,
        }
    }
}

/// Where the first equals sign is, or the length where there is none.
pub open spec fn first_equals(s: Seq<char>) -> int
    decreases s.len(),
{
    if s.len() == 0 || s[0] == '=' {
        0
    } else {
        1 + first_equals(s.drop_first())
    }
}

/// An argument taken apart: `--opt=value` gives the option and its value.
pub open spec fn option_parts(arg: Seq<char>) -> (Seq<char>, Option<Seq<char>>) {
    let at = first_equals(arg);
    if at < arg.len() && at >= 2 && arg[0] == '-' && arg[1] == '-' {
        (arg.subrange(0, at), Some(arg.subrange(at + 1, arg.len() as int)))
    } else {
        (arg, None)
    }
}

proof fn first_equals_is(s: Seq<char>, i: int)
    requires
        0 <= i <= s.len(),
        forall|j: int| 0 <= j < i ==> s[j] != '=',
        i < s.len() ==> s[i] == '=',
    ensures
        first_equals(s) == i,
    decreases i,
{
    if i > 0 {
        assert forall|j: int| 0 <= j < i - 1 implies s.drop_first()[j] != '=' by {
            assert(s.drop_first()[j] == s[j + 1]);
        }
        first_equals_is(s.drop_first(), i - 1);
    }
}

/// Split `--opt=value` into `("--opt", Some("value"))`.
pub fn split_option(arg: &str) -> (r: (&str, Option<&str>))
    ensures
        option_parts(arg@) == (
            r.0@,
            match r.1 {
                Some(value) => Some(value@),
                None => None,
            },
        ),
{
    let chars: Vec<char> = chars_of(arg);
    let mut at: usize = 0;
    while at < chars.len() && chars[at] != '='
        invariant
            at <= chars@.len(),
            chars@ == arg@,
            forall|j: int| 0 <= j < at ==> arg@[j] != '=',
        decreases chars@.len() - at,
    {
        at += 1;
    }
    proof {
        first_equals_is(arg@, at as int);
    }
    if at < chars.len() && at >= 2 && chars[0] == '-' && chars[1] == '-' {
        (arg.substring_char(0, at), Some(arg.substring_char(at + 1, chars.len())))
    } else {
        (arg, None)
    }
}

/// What an option of the command line sets.
#[derive(Debug, Clone, Copy, PartialEq, Eq, Structural)]
pub enum Setting {
    /// Show the help.
    Help,
    /// Show the version.
    Version,
    /// The USB vendor id.
    Vid,
    /// The USB product id.
    Pid,
    /// The interface number.
    Interface,
    /// The transfer timeout.
    Timeout,
}

/// The setting that an option names.
pub open spec fn setting_named(name: Seq<char>) -> Option<Setting> {
    if name == "--help"@ || name == "-h"@ {
        Some(Setting::Help)
    } else if name == "--version"@ || name == "-V"@ {
        Some(Setting::Version)
    } else if name == "--vid"@ {
        Some(Setting::Vid)
    } else if name == "--pid"@ {
        Some(Setting::Pid)
    } else if name == "--interface"@ || name == "-i"@ {
        Some(Setting::Interface)
    } else if name == "--timeout"@ {
        Some(Setting::Timeout)
    } else {
        None
    }
}

fn setting_of(name: &str) -> (r: Option<Setting>)
    ensures
        r == setting_named(name@),
{
    if same_text(name, "--help") || same_text(name, "-h") {
        Some(Setting::Help)
    } else if same_text(name, "--version") || same_text(name, "-V") {
        Some(Setting::Version)
    } else if same_text(name, "--vid") {
        Some(Setting::Vid)
    } else if same_text(name, "--pid") {
        Some(Setting::Pid)
    } else if same_text(name, "--interface") || same_text(name, "-i") {
        Some(Setting::Interface)
    } else if same_text(name, "--timeout") {
        Some(Setting::Timeout)
    } else {
        None
    }
}

/// The options with one value set, or the complaint about the value.
pub open spec fn with_value(options: Options, setting: Setting, value: Seq<char>) -> Result<
    Options,
    Seq<char>,
> {
    match setting {
        Setting::Vid => match number_up_to(value, 0xFFFF) {
            Ok(n) => Ok(Options { vid: n as u16, ..options }),
            Err(e) => Err(e),
        },
        Setting::Pid => match number_up_to(value, 0xFFFF) {
            Ok(n) => Ok(Options { pid: n as u16, ..options }),
            Err(e) => Err(e),
        },
        Setting::Interface => match number_up_to(value, 0xFF) {
            Ok(n) => Ok(Options { interface: Some(n as u8), ..options }),
            Err(e) => Err(e),
        },
        Setting::Timeout => match number_up_to(value, u64::MAX as nat) {
            Ok(n) => Ok(
                Options {
                    timeout_ms: if n == 0 {
                        1
                    } else {
                        n as u64
                    },
                    ..options
                },
            ),
            Err(e) => Err(e),
        },
        _ => Ok(options),
    }
}

fn set_value(options: Options, setting: Setting, value: &str) -> (r: Result<Options, String>)
    ensures
        match r {
            Ok(o) => with_value(options, setting, value@) == Ok::<Options, Seq<char>>(o),
            Err(e) => with_value(options, setting, value@) == Err::<Options, Seq<char>>(e@),
        },
{
    match setting {
        Setting::Vid => match parse_u16(value) {
            Ok(vid) => Ok(Options { vid, ..options }),
            Err(e) => Err(e),
        },
        Setting::Pid => match parse_u16(value) {
            Ok(pid) => Ok(Options { pid, ..options }),
            Err(e) => Err(e),
        },
        Setting::Interface => match parse_u8(value) {
            Ok(number) => Ok(Options { interface: Some(number), ..options }),
            Err(e) => Err(e),
        },
        Setting::Timeout => match parse_u64(value) {
            Ok(millis) => Ok(
                Options {
                    timeout_ms: if millis == 0 {
                        1
                    } else {
                        millis
                    },
                    ..options
                },
            ),
            Err(e) => Err(e),
        },
        _ => Ok(options),
    }
}

/// What is parsed from the arguments, on top of what was parsed before them, or
/// the complaint about the first bad one.
pub open spec fn parsed(args: Seq<Seq<char>>, so_far: CliView) -> Result<CliView, Seq<char>>
    decreases args.len(),
{
    if args.len() == 0 {
        Ok(so_far)
    } else {
        let arg = args[0];
        let (name, inline) = option_parts(arg);
        match setting_named(name) {
            Some(Setting::Help) => parsed(args.skip(1), CliView { help: true, ..so_far }),
            Some(Setting::Version) => parsed(args.skip(1), CliView { version: true, ..so_far }),
            Some(setting) => match inline {
                Some(value) => match with_value(so_far.options, setting, value) {
                    Ok(options) => parsed(args.skip(1), CliView { options, ..so_far }),
                    Err(e) => Err(e),
                },
                None => if args.len() < 2 {
                    Err("option "@ + name + " requires a value"@)
                } else {
                    match with_value(so_far.options, setting, args[1]) {
                        Ok(options) => parsed(args.skip(2), CliView { options, ..so_far }),
                        Err(e) => Err(e),
                    }
                },
            },
            None => if arg.len() > 1 && arg[0] == '-' {
                Err("unknown option: "@ + arg)
            } else if so_far.command is None {
                parsed(args.skip(1), CliView { command: Some(arg), ..so_far })
            } else {
                parsed(
                    args.skip(1),
                    CliView { positional: so_far.positional.push(arg), ..so_far },
                )
            },
        }
    }
}

/// The command line without arguments.
pub open spec fn no_arguments() -> CliView {
    CliView {
        options: Options::initial(),
        command: None,
        positional: Seq::empty(),
        help: false,
        version: false,
    }
}

fn is_dashed(arg: &str) -> (r: bool)
    ensures
        r == (arg@.len() > 1 && arg@[0] == '-'),
{
    arg.unicode_len() > 1 && arg.get_char(0) == '-'
}

fn missing_value(name: &str) -> (r: String)
    ensures
        r@ == "option "@ + name@ + " requires a value"@,
{
    let mut r: String = complaint("option ", name);
    r.append(" requires a value");
    r
}

/// Parse the arguments of the command line.
pub fn parse(args: Vec<String>) -> (r: Result<Cli, String>)
    ensures
        match r {
            Ok(cli) => parsed(texts(args@), no_arguments()) == Ok::<CliView, Seq<char>>(cli@),
            Err(e) => parsed(texts(args@), no_arguments()) == Err::<CliView, Seq<char>>(e@),
        },
{
    let mut cli = Cli {
        options: Options::default(),
        command: None,
        positional: Vec::new(),
        help: false,
        version: false,
    };
    let mut i: usize = 0;
    proof {
        assert(texts(args@).skip(0) =~= texts(args@));
        assert(cli@.positional =~= Seq::<Seq<char>>::empty());
    }
    while i < args.len()
        invariant
            i <= args@.len(),
            parsed(texts(args@), no_arguments()) == parsed(texts(args@).skip(i as int), cli@),
        decreases args@.len() - i,
    {
        let ghost rest = texts(args@).skip(i as int);
        proof {
            assert(rest[0] == args@[i as int]@);
            assert(rest.skip(1) =~= texts(args@).skip(i + 1));
            if i + 1 < args@.len() {
                assert(rest[1] == args@[i + 1]@);
                assert(rest.skip(2) =~= texts(args@).skip(i + 2));
            }
        }
        let arg: &str = args[i].as_str();
        let (name, inline) = split_option(arg);
        match setting_of(name) {
            Some(Setting::Help) => {
                cli.help = true;
            },
            Some(Setting::Version) => {
                cli.version = true;
            },
            Some(setting) => {
                let value: &str = match inline {
                    Some(value) => value,
                    None => {
                        if i + 1 >= args.len() {
                            return Err(missing_value(name));
                        }
                        i += 1;
                        args[i].as_str()
                    },
                };
                match set_value(cli.options, setting, value) {
                    Ok(options) => {
                        cli.options = options;
                    },
                    Err(e) => return Err(e),
                }
            },
            None => {
                if is_dashed(arg) {
                    return Err(complaint("unknown option: ", arg));
                }
                if cli.command.is_none() {
                    cli.command = Some(String::from_str(arg));
                } else {
                    let ghost before = cli.positional@;
                    cli.positional.push(String::from_str(arg));
                    assert(texts(cli.positional@) =~= texts(before).push(arg@));
                }
            },
        }
        i += 1;
    }
    assert(texts(args@).skip(i as int) =~= Seq::<Seq<char>>::empty());
    Ok(cli)
}

/// What a command line asks the tool to do.
#[derive(Debug, Clone, Copy, PartialEq, Eq, Structural)]
pub enum Action {
    /// Show the version.
    ShowVersion,
    /// Show the help.
    ShowHelp,
    /// List the matching devices.
    List,
    /// Run the acceptance checks.
    Validate,
    /// Send one command.
    Request,
}

impl CliView {
    /// What the command line asks for. The version wins over help, and help over
    /// every command.
    pub open spec fn action(self) -> Action {
        if self.version {
            Action::ShowVersion
        } else {
            match self.command {
                None => Action::ShowHelp,
                Some(command) => if self.help || command == "help"@ {
                    Action::ShowHelp
                } else if command == "list"@ {
                    Action::List
                } else if command == "validate"@ {
                    Action::Validate
                } else {
                    Action::Request
                },
            }
        }
    }
}

impl Cli {
    /// What the command line asks for.
    #[must_use]
    pub fn action(&self) -> (r: Action)
        ensures
            r == self@.action(),
    {
        if self.version {
            return Action::ShowVersion;
        }
        match &self.command {
            None => Action::ShowHelp,
            Some(command) => {
                let command: &str = command.as_str();
                if self.help || same_text(command, "help") {
                    Action::ShowHelp
                } else if same_text(command, "list") {
                    Action::List
                } else if same_text(command, "validate") {
                    Action::Validate
                } else {
                    Action::Request
                }
            },
        }
    }
}

/// A management operation that a command names.
#[derive(Debug, Clone, Copy, PartialEq, Eq, Structural)]
pub enum Operation {
    /// An operation without a payload.
    Plain(u8),
    /// An operation that proposes a configuration.
    Proposal(u8),
    /// A raw operation, whose code is an argument.
    Raw,
}

/// The operation that a command names.
pub open spec fn operation_named(command: Seq<char>) -> Option<Operation> {
    if command == "info"@ {
        Some(Operation::Plain(0x01))
    } else if command == "capabilities"@ {
        Some(Operation::Plain(0x02))
    } else if command == "config"@ || command == "get-configuration"@ {
        Some(Operation::Plain(0x03))
    } else if command == "set-config"@ || command == "set-configuration"@ {
        Some(Operation::Proposal(0x04))
    } else if command == "validate-config"@ || command == "validate-configuration"@ {
        Some(Operation::Proposal(0x05))
    } else if command == "commit"@ || command == "commit-configuration"@ {
        Some(Operation::Plain(0x06))
    } else if command == "lifecycle"@ {
        Some(Operation::Plain(0x07))
    } else if command == "commission"@ {
        Some(Operation::Plain(0x08))
    } else if command == "status"@ {
        Some(Operation::Plain(0x09))
    } else if command == "diagnostics"@ {
        Some(Operation::Plain(0x0A))
    } else if command == "decommission"@ {
        Some(Operation::Plain(0x0B))
    } else if command == "factory-reset"@ {
        Some(Operation::Plain(0x0C))
    } else if command == "soft-detach"@ {
        Some(Operation::Plain(0x0D))
    } else if command == "last-fido"@ {
        Some(Operation::Plain(GET_LAST_FIDO_STATUS))
    } else if command == "send"@ {
        Some(Operation::Raw)
    } else {
        None
    }
}

fn operation_of(command: &str) -> (r: Option<Operation>)
    ensures
        r == operation_named(command@),
{
    if same_text(command, "info") {
        Some(Operation::Plain(0x01))
    } else if same_text(command, "capabilities") {
        Some(Operation::Plain(0x02))
    } else if same_text(command, "config") || same_text(command, "get-configuration") {
        Some(Operation::Plain(0x03))
    } else if same_text(command, "set-config") || same_text(command, "set-configuration") {
        Some(Operation::Proposal(0x04))
    } else if same_text(command, "validate-config") || same_text(command, "validate-configuration") {
        Some(Operation::Proposal(0x05))
    } else if same_text(command, "commit") || same_text(command, "commit-configuration") {
        Some(Operation::Plain(0x06))
    } else if same_text(command, "lifecycle") {
        Some(Operation::Plain(0x07))
    } else if same_text(command, "commission") {
        Some(Operation::Plain(0x08))
    } else if same_text(command, "status") {
        Some(Operation::Plain(0x09))
    } else if same_text(command, "diagnostics") {
        Some(Operation::Plain(0x0A))
    } else if same_text(command, "decommission") {
        Some(Operation::Plain(0x0B))
    } else if same_text(command, "factory-reset") {
        Some(Operation::Plain(0x0C))
    } else if same_text(command, "soft-detach") {
        Some(Operation::Plain(0x0D))
    } else if same_text(command, "last-fido") {
        Some(Operation::Plain(GET_LAST_FIDO_STATUS))
    } else if same_text(command, "send") {
        Some(Operation::Raw)
    } else {
        None
    }
}

/// Where the payload of a request comes from.
#[derive(Debug)]
pub enum PayloadSource {
    /// The bytes themselves.
    Bytes(Vec<u8>),
    /// A file that holds them.
    File(String),
}

/// Where the payload of a request comes from.
pub enum PayloadSourceView {
    /// The bytes themselves.
    Bytes(Seq<u8>),
    /// A file that holds them.
    File(Seq<char>),
}

impl View for PayloadSource {
    type V = PayloadSourceView;

    open spec fn view(&self) -> PayloadSourceView {
        match self {
            PayloadSource::Bytes(bytes) => PayloadSourceView::Bytes(bytes@),
            PayloadSource::File(path) => PayloadSourceView::File(path@),
        }
    }
}

/// What a payload argument gives: `@file` names a file, all else is hexadecimal.
pub open spec fn payload_given(value: Seq<char>) -> Result<PayloadSourceView, Seq<char>> {
    if value.len() > 0 && value[0] == '@' {
        Ok(PayloadSourceView::File(value.subrange(1, value.len() as int)))
    } else {
        match hex_payload(value) {
            Ok(bytes) => Ok(PayloadSourceView::Bytes(bytes)),
            Err(e) => Err(e),
        }
    }
}

/// The payload of a command with its arguments, or the complaint.
pub open spec fn payload_of(command: Seq<char>, positional: Seq<Seq<char>>) -> Result<
    PayloadSourceView,
    Seq<char>,
> {
    match operation_named(command) {
        Some(Operation::Plain(_)) => Ok(PayloadSourceView::Bytes(Seq::empty())),
        Some(Operation::Proposal(_)) => if positional.len() > 0 {
            payload_given(positional[0])
        } else {
            Err("command requires a hex payload or @file"@)
        },
        Some(Operation::Raw) => if positional.len() == 0 {
            Err("send requires a command code"@)
        } else if positional.len() == 1 {
            Ok(PayloadSourceView::Bytes(Seq::empty()))
        } else {
            payload_given(positional[1])
        },
        None => Err("unknown command: "@ + command),
    }
}

/// The operation code of a command with its arguments, or the complaint.
pub open spec fn code_of(command: Seq<char>, positional: Seq<Seq<char>>) -> Result<u8, Seq<char>> {
    match operation_named(command) {
        Some(Operation::Plain(code)) => Ok(code),
        Some(Operation::Proposal(code)) => Ok(code),
        Some(Operation::Raw) => if positional.len() == 0 {
            Err("send requires a command code"@)
        } else {
            match number_up_to(positional[0], 0xFF) {
                Ok(n) => Ok(n as u8),
                Err(e) => Err(e),
            }
        },
        None => Err("unknown command: "@ + command),
    }
}

fn payload_from(value: &str) -> (r: Result<PayloadSource, String>)
    ensures
        match r {
            Ok(source) => payload_given(value@) == Ok::<PayloadSourceView, Seq<char>>(source@),
            Err(e) => payload_given(value@) == Err::<PayloadSourceView, Seq<char>>(e@),
        },
{
    let n: usize = value.unicode_len();
    if n > 0 && value.get_char(0) == '@' {
        return Ok(PayloadSource::File(String::from_str(value.substring_char(1, n))));
    }
    match parse_hex(value) {
        Ok(bytes) => Ok(PayloadSource::Bytes(bytes)),
        Err(e) => Err(e),
    }
}

/// Where the payload of a command comes from. This is settled, and a file read,
/// before [`request_code`] is asked.
pub fn request_payload(command: &str, positional: &[String]) -> (r: Result<PayloadSource, String>)
    ensures
        match r {
            Ok(source) => payload_of(command@, texts(positional@)) == Ok::<
                PayloadSourceView,
                Seq<char>,
            >(source@),
            Err(e) => payload_of(command@, texts(positional@)) == Err::<
                PayloadSourceView,
                Seq<char>,
            >(e@),
        },
{
    match operation_of(command) {
        Some(Operation::Plain(_)) => {
            let none: Vec<u8> = Vec::new();
            assert(none@ =~= Seq::<u8>::empty());
            Ok(PayloadSource::Bytes(none))
        },
        Some(Operation::Proposal(_)) => if positional.len() > 0 {
            payload_from(positional[0].as_str())
        } else {
            Err(String::from_str("command requires a hex payload or @file"))
        },
        Some(Operation::Raw) => if positional.len() == 0 {
            Err(String::from_str("send requires a command code"))
        } else if positional.len() == 1 {
            let none: Vec<u8> = Vec::new();
            assert(none@ =~= Seq::<u8>::empty());
            Ok(PayloadSource::Bytes(none))
        } else {
            payload_from(positional[1].as_str())
        },
        None => Err(complaint("unknown command: ", command)),
    }
}

/// The operation code of a command.
pub fn request_code(command: &str, positional: &[String]) -> (r: Result<u8, String>)
    ensures
        match r {
            Ok(code) => code_of(command@, texts(positional@)) == Ok::<u8, Seq<char>>(code),
            Err(e) => code_of(command@, texts(positional@)) == Err::<u8, Seq<char>>(e@),
        },
{
    match operation_of(command) {
        Some(Operation::Plain(code)) => Ok(code),
        Some(Operation::Proposal(code)) => Ok(code),
        Some(Operation::Raw) => if positional.len() == 0 {
            Err(String::from_str("send requires a command code"))
        } else {
            parse_u8(positional[0].as_str())
        },
        None => Err(complaint("unknown command: ", command)),
    }
}

/// What is shown of a response.
#[derive(Debug)]
pub enum Shown {
    /// The operation failed with this status.
    Failure(u8),
    /// The operation succeeded without a body.
    Done,
    /// Device identity.
    Info(DeviceInfo),
    /// Capabilities.
    Capabilities(CapabilityReport),
    /// Configuration.
    Config(DeviceConfig),
    /// Lifecycle.
    Lifecycle(LifecycleReport),
    /// Status summary.
    Status(StatusReport),
    /// Diagnostics.
    Diagnostics(DiagnosticsReport),
    /// The last FIDO command and its status.
    LastFido(u8, u8),
    /// Any other body, in hexadecimal.
    Hex(String),
}

/// What is shown of a response.
pub enum ShownView {
    /// The operation failed with this status.
    Failure(u8),
    /// The operation succeeded without a body.
    Done,
    /// Device identity.
    Info(DeviceInfoView),
    /// Capabilities.
    Capabilities(CapabilityReport),
    /// Configuration.
    Config(DeviceConfigView),
    /// Lifecycle.
    Lifecycle(LifecycleReport),
    /// Status summary.
    Status(StatusReport),
    /// Diagnostics.
    Diagnostics(DiagnosticsReport),
    /// The last FIDO command and its status.
    LastFido(u8, u8),
    /// Any other body, in hexadecimal.
    Hex(Seq<char>),
}

impl View for Shown {
    type V = ShownView;

    open spec fn view(&self) -> ShownView {
        match self {
            Shown::Failure(status) => ShownView::Failure(*status),
            Shown::Done => ShownView::Done,
            Shown::Info(info) => ShownView::Info(info@),
            Shown::Capabilities(report) => ShownView::Capabilities(*report),
            Shown::Config(config) => ShownView::Config(config@),
            Shown::Lifecycle(report) => ShownView::Lifecycle(*report),
            Shown::Status(report) => ShownView::Status(*report),
            Shown::Diagnostics(report) => ShownView::Diagnostics(*report),
            Shown::LastFido(command, status) => ShownView::LastFido(*command, *status),
            Shown::Hex(text) => ShownView::Hex(text@),
        }
    }
}

/// What is shown of a body that answers an operation; a body that does not decode
/// is shown in hexadecimal.
pub open spec fn body_shown(code: u8, body: Seq<u8>) -> ShownView {
    if code == 0x01 && DeviceInfo::take(body) is Some {
        ShownView::Info((DeviceInfo::take(body)->0).0)
    } else if code == 0x02 && CapabilityReport::take(body) is Some {
        ShownView::Capabilities((CapabilityReport::take(body)->0).0)
    } else if code == 0x03 && DeviceConfig::take(body) is Some {
        ShownView::Config((DeviceConfig::take(body)->0).0)
    } else if code == 0x07 && LifecycleReport::take(body) is Some {
        ShownView::Lifecycle((LifecycleReport::take(body)->0).0)
    } else if code == 0x09 && StatusReport::take(body) is Some {
        ShownView::Status((StatusReport::take(body)->0).0)
    } else if code == 0x0A && DiagnosticsReport::take(body) is Some {
        ShownView::Diagnostics((DiagnosticsReport::take(body)->0).0)
    } else if code == GET_LAST_FIDO_STATUS && body.len() >= 2 {
        ShownView::LastFido(body[0], body[1])
    } else {
        ShownView::Hex(hex_text(body))
    }
}

/// What is shown of a response to an operation.
pub open spec fn shown(code: u8, response: ResponseView) -> ShownView {
    if response.status != 0 {
        ShownView::Failure(response.status)
    } else if response.body.len() == 0 {
        ShownView::Done
    } else {
        body_shown(code, response.body)
    }
}

fn show_body(code: u8, body: &[u8]) -> (r: Shown)
    ensures
        r@ == body_shown(code, body@),
{
    if code == 0x01 {
        if let Ok(info) = decode_from::<DeviceInfo>(body) {
            return Shown::Info(info);
        }
    } else if code == 0x02 {
        if let Ok(report) = decode_from::<CapabilityReport>(body) {
            return Shown::Capabilities(report);
        }
    } else if code == 0x03 {
        if let Ok(config) = decode_from::<DeviceConfig>(body) {
            return Shown::Config(config);
        }
    } else if code == 0x07 {
        if let Ok(report) = decode_from::<LifecycleReport>(body) {
            return Shown::Lifecycle(report);
        }
    } else if code == 0x09 {
        if let Ok(report) = decode_from::<StatusReport>(body) {
            return Shown::Status(report);
        }
    } else if code == 0x0A {
        if let Ok(report) = decode_from::<DiagnosticsReport>(body) {
            return Shown::Diagnostics(report);
        }
    } else if code == GET_LAST_FIDO_STATUS {
        if body.len() >= 2 {
            return Shown::LastFido(body[0], body[1]);
        }
    }
    Shown::Hex(to_hex(body))
}

/// What to show of the response to operation `code`. The tool succeeds unless
/// this is a failure.
#[must_use]
pub fn present(code: u8, response: &Response) -> (r: Shown)
    ensures
        r@ == shown(code, response@),
{
    if response.status != 0 {
        return Shown::Failure(response.status);
    }
    if response.body.len() == 0 {
        return Shown::Done;
    }
    show_body(code, response.body.as_slice())
}

/// The name of a management status.
pub open spec fn status_text(code: u8) -> Seq<char> {
    if code == 0x01 {
        "invalid command"@
    } else if code == 0x02 {
        "unsupported command"@
    } else if code == 0x03 {
        "invalid capability"@
    } else if code == 0x04 {
        "invalid configuration"@
    } else if code == 0x05 {
        "invalid state"@
    } else if code == 0x06 {
        "unauthorized"@
    } else if code == 0x07 {
        "storage error"@
    } else if code == 0x08 {
        "crypto error"@
    } else if code == 0x09 {
        "firmware error"@
    } else if code == 0x0A {
        "protocol error"@
    } else {
        "unknown status"@
    }
}

/// Name of a management status code.
#[must_use]
pub fn status_name(code: u8) -> (r: &'static str)
    ensures
        r@ == status_text(code),
{
    match code {
        0x01 => "invalid command",
        0x02 => "unsupported command",
        0x03 => "invalid capability",
        0x04 => "invalid configuration",
        0x05 => "invalid state",
        0x06 => "unauthorized",
        0x07 => "storage error",
        0x08 => "crypto error",
        0x09 => "firmware error",
        0x0A => "protocol error",
        _ => "unknown status",
    }
}

/// The name of a CTAP status.
pub open spec fn ctap_status_text(code: u8) -> Seq<char> {
    if code == 0x00 {
        "CTAP2_OK"@
    } else if code == 0x01 {
        "ERR_INVALID_COMMAND"@
    } else if code == 0x02 {
        "ERR_INVALID_PARAMETER"@
    } else if code == 0x03 {
        "ERR_INVALID_LENGTH"@
    } else if code == 0x0A {
        "ERR_TIMEOUT"@
    } else if code == 0x2E {
        "CTAP2_ERR_NO_CREDENTIALS"@
    } else if code == 0x33 {
        "CTAP2_ERR_PIN_AUTH_INVALID"@
    } else if code == 0x34 {
        "CTAP2_ERR_PIN_AUTH_BLOCKED"@
    } else if code == 0x36 {
        "CTAP2_ERR_PIN_REQUIRED"@
    } else if code == 0x39 {
        "CTAP2_ERR_OPERATION_DENIED"@
    } else if code == 0x3B {
        "CTAP2_ERR_UP_REQUIRED"@
    } else if code == 0x3D {
        "CTAP2_ERR_PIN_AUTH_REQUIRED"@
    } else {
        "unknown"@
    }
}

/// Name of a CTAP status code.
#[must_use]
pub fn ctap_status_name(code: u8) -> (r: &'static str)
    ensures
        r@ == ctap_status_text(code),
{
    match code {
        0x00 => "CTAP2_OK",
        0x01 => "ERR_INVALID_COMMAND",
        0x02 => "ERR_INVALID_PARAMETER",
        0x03 => "ERR_INVALID_LENGTH",
        0x0A => "ERR_TIMEOUT",
        0x2E => "CTAP2_ERR_NO_CREDENTIALS",
        0x33 => "CTAP2_ERR_PIN_AUTH_INVALID",
        0x34 => "CTAP2_ERR_PIN_AUTH_BLOCKED",
        0x36 => "CTAP2_ERR_PIN_REQUIRED",
        0x39 => "CTAP2_ERR_OPERATION_DENIED",
        0x3B => "CTAP2_ERR_UP_REQUIRED",
        0x3D => "CTAP2_ERR_PIN_AUTH_REQUIRED",
        _ => "unknown",
    }
}

/// The host names every error that a device reports as the device does.
pub proof fn host_and_device_name_errors_alike(error: CoreError)
    ensures
        status_text(error.spec_code()) == error.spec_name(),
{
}

/// An unknown command gives neither a payload nor a code: both complain of it.
pub proof fn unknown_commands_have_no_request(command: Seq<char>, positional: Seq<Seq<char>>)
    requires
        operation_named(command) is None,
    ensures
        payload_of(command, positional) == Err::<PayloadSourceView, Seq<char>>(
            "unknown command: "@ + command,
        ),
        code_of(command, positional) == Err::<u8, Seq<char>>("unknown command: "@ + command),
{
}

} // verus!
