//! Choice of the management interface among those of a device.
//!
//! An interface is found by its string descriptor, or by its number where the
//! command line gives one.
use vstd::prelude::*;
use crate::text::chars_of;
use crate::board::usb;

verus! {

/// USB interface class code for HID.
pub const HID_CLASS: u8 = 0x03;

/// Interface string descriptor used to locate the management interface.
pub const MANAGEMENT_INTERFACE_NAME: &'static str = "HID Management";

/// An endpoint of an interface setting.
#[derive(Debug, Clone, Copy, PartialEq, Eq, Structural)]
pub struct EndpointSetting {
    /// Endpoint address.
    pub address: u8,
    /// Whether it is an interrupt endpoint.
    pub interrupt: bool,
    /// Whether it carries data to the host.
    pub input: bool,
}

/// One setting of an interface.
#[derive(Debug)]
pub struct InterfaceSetting {
    /// Interface class.
    pub class_code: u8,
    /// Interface number.
    pub number: u8,
    /// The text of its string descriptor, where it could be read.
    pub name: Option<String>,
    /// Its endpoints.
    pub endpoints: Vec<EndpointSetting>,
}

/// Interrupt endpoints of the selected interface.
#[derive(Debug, Clone, Copy, PartialEq, Eq, Structural)]
pub struct Endpoints {
    /// Interface number.
    pub interface: u8,
    /// Address of the endpoint to the host.
    pub endpoint_in: u8,
    /// Address of the endpoint to the device.
    pub endpoint_out: u8,
}

/// The address of the last interrupt endpoint of a direction.
pub open spec fn last_interrupt(endpoints: Seq<EndpointSetting>, input: bool) -> Option<u8>
    decreases endpoints.len(),
{
    if endpoints.len() == 0 {
        None
    } else if endpoints.last().interrupt && endpoints.last().input == input {
        Some(endpoints.last().address)
    } else {
        last_interrupt(endpoints.drop_last(), input)
    }
}

/// Whether `needle` stands somewhere in `text`.
pub open spec fn contains_text(text: Seq<char>, needle: Seq<char>) -> bool {
    exists|at: int|
        0 <= at <= text.len() - needle.len() && #[trigger] text.subrange(at, at + needle.len())
            == needle
}

impl InterfaceSetting {
    /// The interrupt endpoints, where there is one of each direction.
    pub open spec fn interrupt_endpoints(self) -> Option<Endpoints> {
        match (last_interrupt(self.endpoints@, true), last_interrupt(self.endpoints@, false)) {
            (Some(endpoint_in), Some(endpoint_out)) => Some(
                Endpoints { interface: self.number, endpoint_in, endpoint_out },
            ),
            _ => None,
        }
    }

    /// Whether this is the interface that is looked for: the one of the requested
    /// number, or else one whose name is that of the management function.
    pub open spec fn wanted(self, requested: Option<u8>) -> bool {
        self.class_code == HID_CLASS && match requested {
            Some(number) => self.number == number,
            None => self.name matches Some(name) && contains_text(
                name@,
                MANAGEMENT_INTERFACE_NAME@,
            ),
        }
    }
}

/// The endpoints of the first wanted setting that has both.
pub open spec fn first_wanted(settings: Seq<InterfaceSetting>, requested: Option<u8>) -> Option<
    Endpoints,
>
    decreases settings.len(),
{
    if settings.len() == 0 {
        None
    } else if settings[0].wanted(requested) && settings[0].interrupt_endpoints() is Some {
        settings[0].interrupt_endpoints()
    } else {
        first_wanted(settings.drop_first(), requested)
    }
}

fn stands_at(text: &[char], at: usize, needle: &[char]) -> (r: bool)
    requires
        at + needle@.len() <= text@.len(),
    ensures
        r == (text@.subrange(at as int, at + needle@.len()) == needle@),
{
    let total: usize = text.len();
    let mut i: usize = 0;
    while i < needle.len()
        invariant
            i <= needle@.len(),
            total == text@.len(),
            at + needle@.len() <= total,
            forall|j: int| 0 <= j < i ==> text@[at + j] == needle@[j],
        decreases needle@.len() - i,
    {
        if text[at + i] != needle[i] {
            assert(text@.subrange(at as int, at + needle@.len())[i as int] != needle@[i as int]);
            return false;
        }
        i += 1;
    }
    assert(text@.subrange(at as int, at + needle@.len()) =~= needle@);
    true
}

fn has_text(text: &str, needle: &str) -> (r: bool)
    ensures
        r == contains_text(text@, needle@),
{
    let hay: Vec<char> = chars_of(text);
    let sought: Vec<char> = chars_of(needle);
    if sought.len() > hay.len() {
        return false;
    }
    let last: usize = hay.len() - sought.len();
    let mut at: usize = 0;
    while at <= last
        invariant
            hay@ == text@,
            sought@ == needle@,
            last == hay@.len() - sought@.len(),
            at <= last,
            forall|j: int|
                0 <= j < at ==> #[trigger] text@.subrange(j, j + needle@.len()) != needle@,
        decreases last - at,
    {
        if stands_at(hay.as_slice(), at, sought.as_slice()) {
            assert(text@.subrange(at as int, at + needle@.len()) == needle@);
            return true;
        }
        if at == last {
            return false;
        }
        at += 1;
    }
    false
}

impl InterfaceSetting {
    /// Collect the interrupt endpoints of this setting.
    #[must_use]
    pub fn endpoints_of(&self) -> (r: Option<Endpoints>)
        ensures
            r == self.interrupt_endpoints(),
    {
        let mut endpoint_in: Option<u8> = None;
        let mut endpoint_out: Option<u8> = None;
        let mut i: usize = 0;
        while i < self.endpoints.len()
            invariant
                i <= self.endpoints@.len(),
                endpoint_in == last_interrupt(self.endpoints@.subrange(0, i as int), true),
                endpoint_out == last_interrupt(self.endpoints@.subrange(0, i as int), false),
            decreases self.endpoints@.len() - i,
        {
            assert(self.endpoints@.subrange(0, i + 1).drop_last() =~= self.endpoints@.subrange(
                0,
                i as int,
            ));
            let endpoint: EndpointSetting = self.endpoints[i];
            if endpoint.interrupt {
                if endpoint.input {
                    endpoint_in = Some(endpoint.address);
                } else {
                    endpoint_out = Some(endpoint.address);
                }
            }
            i += 1;
        }
        assert(self.endpoints@.subrange(0, i as int) =~= self.endpoints@);
        match (endpoint_in, endpoint_out) {
            (Some(endpoint_in), Some(endpoint_out)) => Some(
                Endpoints { interface: self.number, endpoint_in, endpoint_out },
            ),
            _ => None,
        }
    }

    fn is_wanted(&self, requested: Option<u8>) -> (r: bool)
        ensures
            r == self.wanted(requested),
    {
        if self.class_code != HID_CLASS {
            return false;
        }
        match requested {
            Some(number) => self.number == number,
            None => match &self.name {
                Some(name) => has_text(name.as_str(), MANAGEMENT_INTERFACE_NAME),
                None => false,
            },
        }
    }
}

/// Pick the management interface and its interrupt endpoints.
///
/// When `requested` is set, the interface is chosen by number; otherwise the
/// interface whose string descriptor names the management function is used.
#[must_use]
pub fn select_interface(settings: &[InterfaceSetting], requested: Option<u8>) -> (r: Option<
    Endpoints,
>)
    ensures
        r == first_wanted(settings@, requested),
{
    let mut i: usize = 0;
    assert(settings@.skip(0) =~= settings@);
    while i < settings.len()
        invariant
            i <= settings@.len(),
            first_wanted(settings@, requested) == first_wanted(settings@.skip(i as int), requested),
        decreases settings@.len() - i,
    {
        assert(settings@.skip(i as int).drop_first() =~= settings@.skip(i + 1));
        if settings[i].is_wanted(requested) {
            if let Some(endpoints) = settings[i].endpoints_of() {
                return Some(endpoints);
            }
        }
        i += 1;
    }
    None
}

/// The name that the device gives its management interface is the one that the
/// host looks for, and the name of the FIDO interface is not.
pub proof fn interface_names_tell_the_functions_apart()
    ensures
        contains_text(usb::MANAGEMENT_INTERFACE_NAME@, MANAGEMENT_INTERFACE_NAME@),
        !contains_text(usb::FIDO_INTERFACE_NAME@, MANAGEMENT_INTERFACE_NAME@),
{
    let name = usb::MANAGEMENT_INTERFACE_NAME@;
    let fido = usb::FIDO_INTERFACE_NAME@;
    let sought = MANAGEMENT_INTERFACE_NAME@;
    reveal_strlit("HID Management");
    reveal_strlit("HID FIDO Authenticator");
    let at: int = 0;
    assert(name.subrange(at, at + sought.len()) =~= sought);
    assert forall|at: int| 0 <= at <= fido.len() - sought.len() implies #[trigger] fido.subrange(
        at,
        at + sought.len(),
    ) != sought by {
        assert(fido.subrange(at, at + sought.len())[4] == fido[at + 4]);
    }
}

/// What is selected is an interface of the device that is wanted and has both
/// endpoints, and nothing is selected only where there is no such interface.
pub proof fn selection_is_a_wanted_interface(
    settings: Seq<InterfaceSetting>,
    requested: Option<u8>,
)
    ensures
        first_wanted(settings, requested) matches Some(endpoints) ==> exists|i: int|
            0 <= i < settings.len() && (#[trigger] settings[i]).wanted(requested)
                && settings[i].interrupt_endpoints() == Some(endpoints),
        first_wanted(settings, requested) is None ==> forall|i: int|
            0 <= i < settings.len() ==> !((#[trigger] settings[i]).wanted(requested)
                && settings[i].interrupt_endpoints() is Some),
    decreases settings.len(),
{
    if settings.len() > 0 {
        let rest = settings.drop_first();
        selection_is_a_wanted_interface(rest, requested);
        if settings[0].wanted(requested) && settings[0].interrupt_endpoints() is Some {
        } else {
            match first_wanted(rest, requested) {
                Some(endpoints) => {
                    let i = choose|i: int|
                        0 <= i < rest.len() && (#[trigger] rest[i]).wanted(requested)
                            && rest[i].interrupt_endpoints() == Some(endpoints);
                    assert(settings[i + 1] == rest[i]);
                },
                None => {
                    assert forall|i: int| 0 <= i < settings.len() implies !((
                    #[trigger] settings[i]).wanted(requested)
                        && settings[i].interrupt_endpoints() is Some) by {
                        if i > 0 {
                            assert(rest[i - 1] == settings[i]);
                        }
                    }
                },
            }
        }
    }
}

} // verus!
