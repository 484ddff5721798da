use aegis_core::capabilities::DeviceCapabilities;
use aegis_core::configuration::LedBehavior;
use aegis_core::error::CoreError;
use aegis_core::presence::{PresenceError, UserPresence};
use aegis_core::traits::{Led, Rp2350Hardware, Storage};

struct MockPresence;

impl UserPresence for MockPresence {
    fn wait_for_presence(&mut self) -> Result<(), PresenceError> {
        Ok(())
    }
}

struct MockLed;

impl Led for MockLed {
    fn set_brightness(&mut self, _brightness: u8) -> Result<(), CoreError> {
        Ok(())
    }
    fn set_behavior(&mut self, _behavior: LedBehavior) -> Result<(), CoreError> {
        Ok(())
    }
}

struct MockStorage;

impl Storage for MockStorage {
    fn read(&mut self, _offset: u32, _buf: &mut [u8]) -> Result<(), CoreError> {
        Ok(())
    }
    fn write(&mut self, _offset: u32, _data: &[u8]) -> Result<(), CoreError> {
        Ok(())
    }
    fn erase(&mut self, _offset: u32, _len: u32) -> Result<(), CoreError> {
        Ok(())
    }
}

struct MockHardware {
    presence: MockPresence,
    led: MockLed,
    storage: MockStorage,
}

impl Rp2350Hardware for MockHardware {
    type Presence = MockPresence;
    type StatusLed = MockLed;
    type Flash = MockStorage;

    fn capabilities(&self) -> DeviceCapabilities {
        DeviceCapabilities::rp2350a()
    }
    fn user_presence(&mut self) -> &mut MockPresence {
        &mut self.presence
    }
    fn led(&mut self) -> Option<&mut MockLed> {
        Some(&mut self.led)
    }
    fn storage(&mut self) -> &mut MockStorage {
        &mut self.storage
    }
}

#[test]
fn traits_are_object_safe_and_usable() {
    let mut hw = MockHardware {
        presence: MockPresence,
        led: MockLed,
        storage: MockStorage,
    };
    assert_eq!(hw.capabilities().gpio_count, 30);
    assert!(hw.led().is_some());
    hw.storage().write(0, &[1, 2, 3]).unwrap();
    hw.user_presence().wait_for_presence().unwrap();
}
