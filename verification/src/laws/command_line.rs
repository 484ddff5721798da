//! The host tool: what a command line asks for, and what the device is asked.
use vstd::prelude::*;
use crate::host::cli::{
    body_shown, code_of, first_equals, no_arguments, operation_named, option_parts, parsed,
    payload_of, setting_named, shown, with_value, Action, CliView, Operation, Options,
    PayloadSourceView, Setting, ShownView,
};
use crate::host::framing::ResponseView;
use crate::host::transport::{
    first_wanted, last_interrupt, EndpointSetting, Endpoints, InterfaceSetting,
};
use crate::management_protocol::ManagementCommand;
use crate::text::{hex_payload, number_up_to};

verus! {

/// The option names of the tool that take a value.
pub open spec fn takes_a_value(name: Seq<char>) -> bool {
    name == "--vid"@ || name == "--pid"@ || name == "--interface"@ || name == "-i"@ || name
        == "--timeout"@
}

proof fn names_are_spelled()
    ensures
        "--vid"@ =~= seq!['-', '-', 'v', 'i', 'd'],
        "--pid"@ =~= seq!['-', '-', 'p', 'i', 'd'],
        "--interface"@ =~= seq!['-', '-', 'i', 'n', 't', 'e', 'r', 'f', 'a', 'c', 'e'],
        "-i"@ =~= seq!['-', 'i'],
        "--timeout"@ =~= seq!['-', '-', 't', 'i', 'm', 'e', 'o', 'u', 't'],
        "--help"@ =~= seq!['-', '-', 'h', 'e', 'l', 'p'],
        "-h"@ =~= seq!['-', 'h'],
        "--version"@ =~= seq!['-', '-', 'v', 'e', 'r', 's', 'i', 'o', 'n'],
        "-V"@ =~= seq!['-', 'V'],
{
    reveal_strlit("--vid");
    reveal_strlit("--pid");
    reveal_strlit("--interface");
    reveal_strlit("-i");
    reveal_strlit("--timeout");
    reveal_strlit("--help");
    reveal_strlit("-h");
    reveal_strlit("--version");
    reveal_strlit("-V");
}

/// Each option sets what its name says: the ids up to `0xFFFF`, the interface up to `0xFF`,
/// and the timeout, of at least one millisecond. A value that is no such number is refused.
pub proof fn options_set_what_they_name(options: Options, value: Seq<char>)
    ensures
        setting_named("--vid"@) == Some(Setting::Vid),
        setting_named("--pid"@) == Some(Setting::Pid),
        setting_named("--interface"@) == Some(Setting::Interface),
        setting_named("-i"@) == Some(Setting::Interface),
        setting_named("--timeout"@) == Some(Setting::Timeout),
        setting_named("--help"@) == Some(Setting::Help),
        setting_named("-h"@) == Some(Setting::Help),
        setting_named("--version"@) == Some(Setting::Version),
        setting_named("-V"@) == Some(Setting::Version),
        match number_up_to(value, 0xFFFF) {
            Ok(n) => {
                &&& with_value(options, Setting::Vid, value) == Ok::<Options, Seq<char>>(
                    Options { vid: n as u16, ..options },
                )
                &&& with_value(options, Setting::Pid, value) == Ok::<Options, Seq<char>>(
                    Options { pid: n as u16, ..options },
                )
            },
            Err(e) => {
                &&& with_value(options, Setting::Vid, value) == Err::<Options, Seq<char>>(e)
                &&& with_value(options, Setting::Pid, value) == Err::<Options, Seq<char>>(e)
            },
        },
        match number_up_to(value, 0xFF) {
            Ok(n) => with_value(options, Setting::Interface, value) == Ok::<Options, Seq<char>>(
                Options { interface: Some(n as u8), ..options },
            ),
            Err(e) => with_value(options, Setting::Interface, value)
                == Err::<Options, Seq<char>>(e),
        },
        match number_up_to(value, 0xFFFF_FFFF_FFFF_FFFF) {
            Ok(n) => with_value(options, Setting::Timeout, value) == Ok::<Options, Seq<char>>(
                Options {
                    timeout_ms: if n == 0 {
                        1
                    } else {
                        n as u64
                    },
                    ..options
                },
            ),
            Err(e) => with_value(options, Setting::Timeout, value) == Err::<Options, Seq<char>>(e),
        },
{
    names_are_spelled();
    distinct_names();
}

proof fn distinct_names()
    ensures
        "--vid"@ != "--pid"@,
        "--vid"@ != "--help"@,
        "--vid"@ != "-h"@,
        "--vid"@ != "--version"@,
        "--vid"@ != "-V"@,
        "--pid"@ != "--help"@,
        "--pid"@ != "-h"@,
        "--pid"@ != "--version"@,
        "--pid"@ != "-V"@,
        "--interface"@ != "--help"@,
        "--interface"@ != "-h"@,
        "--interface"@ != "--version"@,
        "--interface"@ != "-V"@,
        "--interface"@ != "--vid"@,
        "--interface"@ != "--pid"@,
        "-i"@ != "--help"@,
        "-i"@ != "-h"@,
        "-i"@ != "--version"@,
        "-i"@ != "-V"@,
        "-i"@ != "--vid"@,
        "-i"@ != "--pid"@,
        "--timeout"@ != "--help"@,
        "--timeout"@ != "-h"@,
        "--timeout"@ != "--version"@,
        "--timeout"@ != "-V"@,
        "--timeout"@ != "--vid"@,
        "--timeout"@ != "--pid"@,
        "--timeout"@ != "--interface"@,
        "--timeout"@ != "-i"@,
        "--version"@ != "--help"@,
        "--version"@ != "-h"@,
        "-V"@ != "--help"@,
        "-V"@ != "-h"@,
{
    names_are_spelled();
    assert("--vid"@[2] == 'v' && "--pid"@[2] == 'p' && "--help"@[2] == 'h' && "--version"@[2] == 'v'
        && "--interface"@[2] == 'i' && "--timeout"@[2] == 't');
    assert("-h"@[1] == 'h' && "-V"@[1] == 'V' && "-i"@[1] == 'i');
    assert("--vid"@.len() == 5 && "--version"@.len() == 9 && "--timeout"@.len() == 9);
}

proof fn equals_is_found(name: Seq<char>, value: Seq<char>)
    requires
        forall|j: int| 0 <= j < name.len() ==> #[trigger] name[j] != '=',
    ensures
        first_equals(name + (seq!['='] + value)) == name.len(),
        first_equals(name) == name.len(),
    decreases name.len(),
{
    let s = name + (seq!['='] + value);
    if name.len() > 0 {
        assert(s[0] == name[0]);
        assert(s.drop_first() =~= name.drop_first() + (seq!['='] + value));
        assert forall|j: int| 0 <= j < name.drop_first().len() implies #[trigger] name.drop_first()[j]
            != '=' by {
            assert(name.drop_first()[j] == name[j + 1]);
        }
        equals_is_found(name.drop_first(), value);
    } else {
        assert(s[0] == '=');
    }
}

/// A value may follow its option behind an equals sign or as the next argument: both say the
/// same, whatever the value is.
pub proof fn values_may_be_given_either_way(
    name: Seq<char>,
    value: Seq<char>,
    rest: Seq<Seq<char>>,
    so_far: CliView,
)
    requires
        name == "--vid"@ || name == "--pid"@ || name == "--interface"@ || name == "--timeout"@,
    ensures
        parsed(seq![name + (seq!['='] + value)] + rest, so_far) == parsed(
            seq![name, value] + rest,
            so_far,
        ),
{
    names_are_spelled();
    options_set_what_they_name(so_far.options, value);
    assert forall|j: int| 0 <= j < name.len() implies #[trigger] name[j] != '=' by {}
    equals_is_found(name, value);
    let arg = name + (seq!['='] + value);
    assert(arg[0] == '-' && arg[1] == '-');
    assert(arg.subrange(0, name.len() as int) =~= name);
    assert(arg.subrange(name.len() as int + 1, arg.len() as int) =~= value);
    assert(option_parts(arg) == (name, Some(value)));
    assert(option_parts(name) == (name, None::<Seq<char>>));
    let a = seq![arg] + rest;
    let b = seq![name, value] + rest;
    assert(a[0] == arg);
    assert(b[0] == name && b[1] == value);
    assert(a.skip(1) =~= rest);
    assert(b.skip(2) =~= rest);
}

/// An option with its value, and then the rest of the line: the value is set, and the rest is
/// parsed on top of it; a bad value ends the parsing with its complaint.
pub proof fn option_with_its_value_is_parsed(
    name: Seq<char>,
    setting: Setting,
    value: Seq<char>,
    rest: Seq<Seq<char>>,
    so_far: CliView,
)
    requires
        takes_a_value(name),
        setting_named(name) == Some(setting),
    ensures
        match with_value(so_far.options, setting, value) {
            Ok(options) => parsed(seq![name, value] + rest, so_far) == parsed(
                rest,
                CliView { options, ..so_far },
            ),
            Err(e) => parsed(seq![name, value] + rest, so_far) == Err::<CliView, Seq<char>>(e),
        },
        parsed(seq![name], so_far) == Err::<CliView, Seq<char>>(
            "option "@ + name + " requires a value"@,
        ),
{
    names_are_spelled();
    options_set_what_they_name(so_far.options, value);
    assert forall|j: int| 0 <= j < name.len() implies #[trigger] name[j] != '=' by {}
    equals_is_found(name, value);
    assert(option_parts(name) == (name, None::<Seq<char>>));
    let b = seq![name, value] + rest;
    assert(b[0] == name && b[1] == value);
    assert(b.skip(2) =~= rest);
    assert(seq![name][0] == name);
}

/// Whether an argument is no option: it does not begin with a dash, or is one.
pub open spec fn plain_argument(arg: Seq<char>) -> bool {
    arg.len() <= 1 || arg[0] != '-'
}

proof fn plain_argument_names_nothing(arg: Seq<char>)
    requires
        plain_argument(arg),
    ensures
        setting_named(option_parts(arg).0) is None,
{
    names_are_spelled();
    let (name, _inline) = option_parts(arg);
    assert(name == arg);
    if arg.len() > 0 {
        assert("--vid"@[0] == '-' && "--pid"@[0] == '-' && "--interface"@[0] == '-' && "-i"@[0]
            == '-'
            && "--timeout"@[0] == '-' && "--help"@[0] == '-' && "-h"@[0] == '-' && "--version"@[0]
            == '-' && "-V"@[0] == '-');
        assert("--vid"@.len() > 1 && "--pid"@.len() > 1 && "--interface"@.len() > 1
            && "-i"@.len() > 1
            && "--timeout"@.len() > 1 && "--help"@.len() > 1 && "-h"@.len() > 1
            && "--version"@.len()
            > 1 && "-V"@.len() > 1);
    }
}

proof fn further_arguments_are_positional(args: Seq<Seq<char>>, so_far: CliView)
    requires
        forall|i: int| 0 <= i < args.len() ==> plain_argument(#[trigger] args[i]),
        so_far.command is Some,
    ensures
        parsed(args, so_far) == Ok::<CliView, Seq<char>>(
            CliView { positional: so_far.positional + args, ..so_far },
        ),
    decreases args.len(),
{
    if args.len() == 0 {
        assert(so_far.positional + args =~= so_far.positional);
    } else {
        plain_argument_names_nothing(args[0]);
        let next = CliView { positional: so_far.positional.push(args[0]), ..so_far };
        assert forall|i: int| 0 <= i < args.skip(1).len() implies plain_argument(
            #[trigger] args.skip(1)[i],
        ) by {
            assert(args.skip(1)[i] == args[i + 1]);
        }
        further_arguments_are_positional(args.skip(1), next);
        assert(next.positional + args.skip(1) =~= so_far.positional + args);
    }
}

/// Arguments that are no options are the command and, in order, what it is given.
pub proof fn plain_arguments_are_the_command_and_its_own(command: Seq<char>, args: Seq<Seq<char>>)
    requires
        plain_argument(command),
        forall|i: int| 0 <= i < args.len() ==> plain_argument(#[trigger] args[i]),
    ensures
        parsed(seq![command] + args, no_arguments()) == Ok::<CliView, Seq<char>>(
            CliView {
                options: Options { vid: 0x1209, pid: 0x0001, interface: None, timeout_ms: 2000 },
                command: Some(command),
                positional: args,
                help: false,
                version: false,
            },
        ),
{
    plain_argument_names_nothing(command);
    let line = seq![command] + args;
    assert(line[0] == command);
    assert(line.skip(1) =~= args);
    let named = CliView { command: Some(command), ..no_arguments() };
    further_arguments_are_positional(args, named);
    assert(Seq::<Seq<char>>::empty() + args =~= args);
}

/// An option that is not known ends the parsing with a complaint about it.
pub proof fn unknown_options_are_refused(arg: Seq<char>, rest: Seq<Seq<char>>, so_far: CliView)
    requires
        !plain_argument(arg),
        setting_named(option_parts(arg).0) is None,
    ensures
        parsed(seq![arg] + rest, so_far) == Err::<CliView, Seq<char>>("unknown option: "@ + arg),
{
    assert((seq![arg] + rest)[0] == arg);
}

/// What a line asks for: the version above all, help without a command or where it is asked
/// for, the two commands of the tool itself, and a request for any other.
pub proof fn lines_ask_for_this(line: CliView)
    ensures
        line.version <==> line.action() == Action::ShowVersion,
        !line.version && line.command is None ==> line.action() == Action::ShowHelp,
        !line.version && line.help ==> line.action() == Action::ShowHelp,
        line.command matches Some(command) ==> !line.version && !line.help ==> {
            &&& command == "help"@ ==> line.action() == Action::ShowHelp
            &&& line.action() == Action::List <==> command == "list"@
            &&& line.action() == Action::Validate <==> command == "validate"@
            &&& command != "help"@ && command != "list"@ && command != "validate"@ ==> line.action()
                == Action::Request
        },
{
    reveal_strlit("help");
    reveal_strlit("list");
    reveal_strlit("validate");
    assert("help"@[0] == 'h' && "list"@[0] == 'l' && "validate"@[0] == 'v');
}

/// The command of the tool for each operation of the device asks for that operation, with
/// nothing else to say; the two that propose a configuration send what they are given.
pub proof fn commands_ask_for_their_operations(positional: Seq<Seq<char>>)
    ensures
        code_of("info"@, positional) == Ok::<u8, Seq<char>>(
            ManagementCommand::GetDeviceInfo.spec_code(),
        ),
        code_of("capabilities"@, positional) == Ok::<u8, Seq<char>>(
            ManagementCommand::GetCapabilities.spec_code(),
        ),
        code_of("config"@, positional) == Ok::<u8, Seq<char>>(
            ManagementCommand::GetConfiguration.spec_code(),
        ),
        code_of("get-configuration"@, positional) == code_of("config"@, positional),
        code_of("set-config"@, positional) == Ok::<u8, Seq<char>>(
            ManagementCommand::SetConfiguration.spec_code(),
        ),
        code_of("set-configuration"@, positional) == code_of("set-config"@, positional),
        code_of("validate-config"@, positional) == Ok::<u8, Seq<char>>(
            ManagementCommand::ValidateConfiguration.spec_code(),
        ),
        code_of("validate-configuration"@, positional) == code_of("validate-config"@, positional),
        code_of("commit"@, positional) == Ok::<u8, Seq<char>>(
            ManagementCommand::CommitConfiguration.spec_code(),
        ),
        code_of("commit-configuration"@, positional) == code_of("commit"@, positional),
        code_of("lifecycle"@, positional) == Ok::<u8, Seq<char>>(
            ManagementCommand::GetLifecycle.spec_code(),
        ),
        code_of("commission"@, positional) == Ok::<u8, Seq<char>>(
            ManagementCommand::CommissionDevice.spec_code(),
        ),
        code_of("status"@, positional) == Ok::<u8, Seq<char>>(
            ManagementCommand::GetStatus.spec_code(),
        ),
        code_of("diagnostics"@, positional) == Ok::<u8, Seq<char>>(
            ManagementCommand::GetDiagnostics.spec_code(),
        ),
        code_of("decommission"@, positional) == Ok::<u8, Seq<char>>(
            ManagementCommand::DecommissionDevice.spec_code(),
        ),
        code_of("factory-reset"@, positional) == Ok::<u8, Seq<char>>(
            ManagementCommand::FactoryReset.spec_code(),
        ),
        code_of("soft-detach"@, positional) == Ok::<u8, Seq<char>>(
            ManagementCommand::SoftDetach.spec_code(),
        ),
        code_of("last-fido"@, positional) == Ok::<u8, Seq<char>>(0x14u8),
{
    commands_are_told_apart();
}

proof fn commands_are_told_apart()
    ensures
        operation_named("info"@) == Some(Operation::Plain(0x01)),
        operation_named("capabilities"@) == Some(Operation::Plain(0x02)),
        operation_named("config"@) == Some(Operation::Plain(0x03)),
        operation_named("get-configuration"@) == Some(Operation::Plain(0x03)),
        operation_named("set-config"@) == Some(Operation::Proposal(0x04)),
        operation_named("set-configuration"@) == Some(Operation::Proposal(0x04)),
        operation_named("validate-config"@) == Some(Operation::Proposal(0x05)),
        operation_named("validate-configuration"@) == Some(Operation::Proposal(0x05)),
        operation_named("commit"@) == Some(Operation::Plain(0x06)),
        operation_named("commit-configuration"@) == Some(Operation::Plain(0x06)),
        operation_named("lifecycle"@) == Some(Operation::Plain(0x07)),
        operation_named("commission"@) == Some(Operation::Plain(0x08)),
        operation_named("status"@) == Some(Operation::Plain(0x09)),
        operation_named("diagnostics"@) == Some(Operation::Plain(0x0A)),
        operation_named("decommission"@) == Some(Operation::Plain(0x0B)),
        operation_named("factory-reset"@) == Some(Operation::Plain(0x0C)),
        operation_named("soft-detach"@) == Some(Operation::Plain(0x0D)),
        operation_named("last-fido"@) == Some(Operation::Plain(0x14)),
        operation_named("send"@) == Some(Operation::Raw),
{
    reveal_strlit("info");
    reveal_strlit("capabilities");
    reveal_strlit("config");
    reveal_strlit("get-configuration");
    reveal_strlit("set-config");
    reveal_strlit("set-configuration");
    reveal_strlit("validate-config");
    reveal_strlit("validate-configuration");
    reveal_strlit("commit");
    reveal_strlit("commit-configuration");
    reveal_strlit("lifecycle");
    reveal_strlit("commission");
    reveal_strlit("status");
    reveal_strlit("diagnostics");
    reveal_strlit("decommission");
    reveal_strlit("factory-reset");
    reveal_strlit("soft-detach");
    reveal_strlit("last-fido");
    reveal_strlit("send");
    // Lengths tell most names apart, and a first or third letter the others.
    assert("info"@.len() == 4 && "send"@.len() == 4 && "config"@.len() == 6 && "commit"@.len() == 6
        && "status"@.len() == 6 && "lifecycle"@.len() == 9 && "last-fido"@.len() == 9
        && "set-config"@.len() == 10 && "commission"@.len() == 10 && "diagnostics"@.len() == 11
        && "soft-detach"@.len() == 11 && "capabilities"@.len() == 12 && "decommission"@.len() == 12
        && "factory-reset"@.len() == 13 && "validate-config"@.len() == 15
        && "get-configuration"@.len() == 17 && "set-configuration"@.len() == 17
        && "commit-configuration"@.len() == 20 && "validate-configuration"@.len() == 22);
    assert("info"@[0] == 'i' && "send"@[0] == 's');
    assert("config"@[2] == 'n' && "commit"@[2] == 'm' && "status"@[2] == 'a');
    assert("lifecycle"@[1] == 'i' && "last-fido"@[1] == 'a');
    assert("set-config"@[0] == 's' && "commission"@[0] == 'c');
    assert("diagnostics"@[0] == 'd' && "soft-detach"@[0] == 's');
    assert("capabilities"@[0] == 'c' && "decommission"@[0] == 'd');
    assert("get-configuration"@[0] == 'g' && "set-configuration"@[0] == 's');
}

/// What a request carries: nothing for an operation without a payload; for a proposal its
/// first argument, and for a raw operation its second, if any; bytes in hexadecimal, or a
/// file behind an at sign.
pub proof fn requests_carry_what_they_are_given(positional: Seq<Seq<char>>)
    ensures
        payload_of("info"@, positional) == Ok::<PayloadSourceView, Seq<char>>(
            PayloadSourceView::Bytes(Seq::empty()),
        ),
        payload_of("commit"@, positional) == payload_of("info"@, positional),
        payload_of("factory-reset"@, positional) == payload_of("info"@, positional),
        positional.len() == 0 ==> payload_of("set-config"@, positional) is Err && payload_of(
            "validate-config"@,
            positional,
        ) is Err && payload_of("send"@, positional) is Err && code_of("send"@, positional) is Err,
        positional.len() > 0 ==> {
            let given = positional[0];
            &&& payload_of("set-config"@, positional) == payload_of("validate-config"@, positional)
            &&& given.len() > 0 && given[0] == '@' ==> payload_of("set-config"@, positional)
            == Ok::<
                PayloadSourceView,
                Seq<char>,
            >(PayloadSourceView::File(given.skip(1)))
            &&& given.len() == 0 || given[0] != '@' ==> (payload_of("set-config"@, positional)
                == match hex_payload(given) {
                Ok(bytes) => Ok::<PayloadSourceView, Seq<char>>(PayloadSourceView::Bytes(bytes)),
                Err(e) => Err::<PayloadSourceView, Seq<char>>(e),
            })
            &&& number_up_to(given, 0xFF) matches Ok(n) ==> code_of("send"@, positional) == Ok::<
                u8,
                Seq<char>,
            >(n as u8)
            &&& number_up_to(given, 0xFF) is Err ==> code_of("send"@, positional) is Err
        },
        positional.len() == 1 ==> payload_of("send"@, positional)
            == payload_of("info"@, positional),
        positional.len() > 1 ==> payload_of("send"@, positional) == payload_of(
            "set-config"@,
            positional.skip(1),
        ),
{
    commands_are_told_apart();
    if positional.len() > 0 {
        let given = positional[0];
        if given.len() > 0 {
            assert(given.skip(1) =~= given.subrange(1, given.len() as int));
        }
    }
    if positional.len() > 1 {
        assert(positional.skip(1)[0] == positional[1]);
    }
}

/// A failed operation is shown as its failure; one without a body as done; a body that is
/// none of the known reports in hexadecimal.
pub proof fn responses_are_shown(code: u8, response: ResponseView)
    ensures
        shown(code, response) == ShownView::Failure(response.status) <==> response.status != 0,
        response.status == 0 && response.body.len() == 0 ==> shown(code, response)
            == ShownView::Done,
        response.status == 0 && response.body.len() > 0 ==> shown(code, response) == body_shown(
            code,
            response.body,
        ),
        code == 0x14 && response.body.len() >= 2 ==> body_shown(code, response.body)
            == ShownView::LastFido(response.body[0], response.body[1]),
        !set![0x01u8, 0x02, 0x03, 0x07, 0x09, 0x0A, 0x14].contains(code) ==> body_shown(
            code,
            response.body,
        ) == ShownView::Hex(crate::text::hex_text(response.body)),
{
}

/// The endpoint of a direction that is used is the last interrupt endpoint that there is.
pub proof fn last_interrupt_endpoint_is_used(endpoints: Seq<EndpointSetting>, input: bool, i: int)
    requires
        0 <= i < endpoints.len(),
        endpoints[i].interrupt,
        endpoints[i].input == input,
        forall|j: int|
            i < j < endpoints.len() ==> !((#[trigger] endpoints[j]).interrupt && endpoints[j].input
                == input),
    ensures
        last_interrupt(endpoints, input) == Some(endpoints[i].address),
    decreases endpoints.len(),
{
    if i < endpoints.len() - 1 {
        assert(!(endpoints[endpoints.len() - 1].interrupt && endpoints[endpoints.len() - 1].input
            == input));
        last_interrupt_endpoint_is_used(endpoints.drop_last(), input, i);
    }
}

/// The interface that is used is the first HID interface that has the requested number, or
/// the name of the management function where none is requested, and an interrupt endpoint
/// of each direction.
pub proof fn first_fitting_interface_is_used(
    settings: Seq<InterfaceSetting>,
    requested: Option<u8>,
    i: int,
)
    requires
        0 <= i < settings.len(),
        settings[i].class_code == 0x03,
        requested matches Some(number) ==> settings[i].number == number,
        requested is None ==> (settings[i].name matches Some(name) && (exists|at: int|
            0 <= at <= name@.len() - 14 && #[trigger] name@.subrange(at, at + 14)
                == "HID Management"@)),
        last_interrupt(settings[i].endpoints@, true) is Some,
        last_interrupt(settings[i].endpoints@, false) is Some,
        forall|j: int|
            0 <= j < i ==> !((#[trigger] settings[j]).wanted(requested)
                && settings[j].interrupt_endpoints() is Some),
    ensures
        first_wanted(settings, requested) == Some(
            Endpoints {
                interface: settings[i].number,
                endpoint_in: last_interrupt(settings[i].endpoints@, true)->0,
                endpoint_out: last_interrupt(settings[i].endpoints@, false)->0,
            },
        ),
    decreases i,
{
    reveal_strlit("HID Management");
    assert("HID Management"@.len() == 14);
    if i > 0 {
        assert(!(settings[0].wanted(requested) && settings[0].interrupt_endpoints() is Some));
        let rest = settings.drop_first();
        assert(rest[i - 1] == settings[i]);
        assert forall|j: int| 0 <= j < i - 1 implies !((#[trigger] rest[j]).wanted(requested)
            && rest[j].interrupt_endpoints() is Some) by {
            assert(rest[j] == settings[j + 1]);
        }
        first_fitting_interface_is_used(rest, requested, i - 1);
    }
}

} // verus!
