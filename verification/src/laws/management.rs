//! The management interface: what each operation reports and changes.
use vstd::prelude::*;
use vstd::utf8::encode_utf8;
use crate::capabilities::{DeviceCapabilities, Rp2350Family, Rp2350Package};
use crate::codec::Decode;
use crate::configuration::{DeviceConfig, DeviceConfigView};
use crate::error::CoreError;
use crate::laws::configuration::config_form;
use crate::lifecycle::LifecycleState;
use crate::management_protocol::{ManagementCommand, ResponseStatus, ResponseView, ServiceState};
use crate::reports::{CapabilityReport, DeviceInfoView};
use crate::version::numbers_of;
use crate::VERSION;

verus! {

/// Whether a response says that the operation was done, with nothing else to say.
pub open spec fn plainly_done(r: ResponseView) -> bool {
    r.status == ResponseStatus::Success && r.payload.len() == 0
}

/// Whether a response says that the operation failed, and with what.
pub open spec fn plainly_failed(r: ResponseView, e: CoreError) -> bool {
    r.status == ResponseStatus::Error(e) && r.payload.len() == 0
}

/// Setting a configuration stages what decodes and is valid, leaves the active one alone,
/// and refuses anything else with the reason.
pub proof fn set_stages_a_valid_configuration(
    state: ServiceState,
    config: DeviceConfigView,
    rest: Seq<u8>,
)
    requires
        encode_utf8(config.usb.product_string).len() <= 64,
    ensures
        ({
            let payload = config_form(config) + rest;
            let r = state.response(ManagementCommand::SetConfiguration, payload);
            let after = state.after(ManagementCommand::SetConfiguration, payload);
            match config.verdict(state.capabilities, state.lifecycle) {
                Ok(()) => {
                    &&& plainly_done(r)
                    &&& after.staged == Some(config)
                    &&& after.config == state.config
                    &&& after.lifecycle == state.lifecycle
                },
                Err(e) => plainly_failed(r, e) && after == state,
            }
        }),
{
    crate::laws::configuration::configuration_on_the_wire(config, rest);
}

/// What does not decode is an invalid configuration, and changes nothing.
pub proof fn garbage_is_no_configuration(state: ServiceState, payload: Seq<u8>)
    requires
        DeviceConfig::take(payload) is None,
    ensures
        plainly_failed(
            state.response(ManagementCommand::SetConfiguration, payload),
            CoreError::InvalidConfiguration,
        ),
        plainly_failed(
            state.response(ManagementCommand::ValidateConfiguration, payload),
            CoreError::InvalidConfiguration,
        ),
        state.after(ManagementCommand::SetConfiguration, payload) == state,
{
}

/// Committing makes exactly what is staged active, once, where it is still valid; with
/// nothing staged there is nothing to commit.
pub proof fn commit_activates_what_is_staged(state: ServiceState, payload: Seq<u8>)
    ensures
        ({
            let r = state.response(ManagementCommand::CommitConfiguration, payload);
            let after = state.after(ManagementCommand::CommitConfiguration, payload);
            match state.staged {
                None => plainly_failed(r, CoreError::InvalidState) && after == state,
                Some(config) => match config.verdict(state.capabilities, state.lifecycle) {
                    Ok(()) => {
                        &&& plainly_done(r)
                        &&& after.config == config
                        &&& after.staged is None
                        &&& after.lifecycle == state.lifecycle
                        &&& plainly_failed(
                            after.response(ManagementCommand::CommitConfiguration, payload),
                            CoreError::InvalidState,
                        )
                    },
                    Err(e) => plainly_failed(r, e) && after == state,
                },
            }
        }),
{
}

/// The operations on the lifecycle, state by state. Commissioning begins on a fresh device
/// and may be repeated; an operating, suspended or retired device is retired; a retired or
/// fresh device is reset to the defaults of its board. Elsewhere each is refused and
/// nothing changes.
pub proof fn lifecycle_operations_do_this(state: ServiceState, payload: Seq<u8>)
    ensures
        ({
            let r = state.response(ManagementCommand::CommissionDevice, payload);
            let after = state.after(ManagementCommand::CommissionDevice, payload);
            if state.lifecycle == LifecycleState::Factory || state.lifecycle
                == LifecycleState::Commissioning {
                plainly_done(r) && after == (ServiceState {
                    lifecycle: LifecycleState::Commissioning,
                    ..state
                })
            } else {
                plainly_failed(r, CoreError::InvalidState) && after == state
            }
        }),
        ({
            let r = state.response(ManagementCommand::DecommissionDevice, payload);
            let after = state.after(ManagementCommand::DecommissionDevice, payload);
            if state.lifecycle == LifecycleState::Active || state.lifecycle
                == LifecycleState::Suspended || state.lifecycle == LifecycleState::Decommissioned {
                plainly_done(r) && after == (ServiceState {
                    lifecycle: LifecycleState::Decommissioned,
                    ..state
                })
            } else {
                plainly_failed(r, CoreError::InvalidState) && after == state
            }
        }),
        ({
            let r = state.response(ManagementCommand::FactoryReset, payload);
            let after = state.after(ManagementCommand::FactoryReset, payload);
            if state.lifecycle == LifecycleState::Decommissioned || state.lifecycle
                == LifecycleState::Factory {
                &&& plainly_done(r)
                &&& after.lifecycle == LifecycleState::Factory
                &&& after.staged is None
                &&& after.config == DeviceConfigView::for_board(state.identity, state.capabilities)
                &&& after.identity == state.identity
                &&& after.capabilities == state.capabilities
            } else {
                plainly_failed(r, CoreError::InvalidState) && after == state
            }
        }),
{
}

/// Detaching is acknowledged and changes nothing; an operation that is not known is not
/// supported.
pub proof fn other_operations_change_nothing(state: ServiceState, code: u8, payload: Seq<u8>)
    ensures
        plainly_done(state.response(ManagementCommand::SoftDetach, payload)),
        state.after(ManagementCommand::SoftDetach, payload) == state,
        plainly_failed(
            state.response(ManagementCommand::Unknown(code), payload),
            CoreError::UnsupportedCommand,
        ),
        state.after(ManagementCommand::Unknown(code), payload) == state,
{
}

/// A body of at most 512 bytes is carried as it is; a longer one is a failure.
pub proof fn bodies_are_carried_whole(body: Seq<u8>)
    ensures
        body.len() <= 512 ==> ResponseView::carrying(body).status == ResponseStatus::Success
            && ResponseView::carrying(body).payload == body,
        body.len() > 512 ==> plainly_failed(ResponseView::carrying(body), CoreError::ProtocolError),
{
}

/// A capability report says of a board what it has, field by field.
pub proof fn capability_report_says_what_the_board_has(caps: DeviceCapabilities)
    ensures
        ({
            let r = CapabilityReport::of(caps);
            &&& r.family == if caps.family == Rp2350Family::Rp2350 {
                0u8
            } else {
                1
            }
            &&& r.package == if caps.package == Rp2350Package::Qfn60 {
                0u8
            } else {
                1
            }
            &&& r.gpio_count == caps.gpio_count
            &&& r.flash_external == caps.flash.external
            &&& r.flash_internal == caps.flash.internal
            &&& r.flash_size_bytes == caps.flash.size_bytes
            &&& r.usb_device == caps.usb.device
            &&& r.usb_fido_hid == caps.usb.fido_hid
            &&& r.usb_management_hid == caps.usb.management_hid
            &&& r.usb_max_product_string_len == caps.usb.max_product_string_len
            &&& r.led_available == caps.led.available
            &&& r.led_configurable_gpio == caps.led.configurable_gpio
            &&& r.led_brightness == caps.led.brightness
            &&& r.led_driver_gpio == caps.led.drivers.gpio
            &&& r.led_driver_pwm == caps.led.drivers.pwm
            &&& r.led_driver_ws2812 == caps.led.drivers.ws2812
            &&& r.led_default_gpio == caps.led.default_gpio
            &&& r.led_default_brightness == caps.led.default_brightness
            &&& r.presence_bootsel == caps.presence.bootsel
            &&& r.presence_external_button == caps.presence.external_button
            &&& r.presence_external_button_gpio == caps.presence.external_button_gpio
            &&& r.led_candidate_gpio_mask == caps.led.candidate_gpio_mask
        }),
{
}

/// The device information, the diagnostics and the status say what the device is.
pub proof fn device_reports_say_what_the_device_is(state: ServiceState)
    ensures
        ({
            let info = DeviceInfoView::of(state.identity, state.capabilities);
            &&& info.product == state.identity.product@
            &&& info.manufacturer == state.identity.manufacturer@
            &&& info.family == if state.capabilities.family == Rp2350Family::Rp2350 {
                0u8
            } else {
                1
            }
            &&& (info.version_major, info.version_minor, info.version_patch) == numbers_of(VERSION@)
            &&& info.config_version == 1
        }),
        ({
            let report = state.diagnostics();
            &&& report.lifecycle == state.lifecycle.spec_code()
            &&& report.config_version == state.config.version
            &&& report.staged == (state.staged is Some)
            &&& report.gpio_count == state.capabilities.gpio_count
            &&& report.flash_size_bytes == state.capabilities.flash.size_bytes
            &&& (report.version_major, report.version_minor, report.version_patch) == numbers_of(
                VERSION@,
            )
        }),
        state.status().lifecycle == state.lifecycle.spec_code(),
        state.status().config_version == state.config.version,
        state.status().staged == (state.staged is Some),
{
}

} // verus!
