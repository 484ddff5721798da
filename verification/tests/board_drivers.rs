use aegis_core::board::ccid;
use aegis_core::board::control::{packets, ControlRequest, Recipient, RequestType};
use aegis_core::board::flash::RegionStorage;
use aegis_core::board::hid::{
    control_in, control_out, hid_descriptor, requested_descriptor_type, zlp_needed, EndpointFault,
    HidReply, ReadError, ReportReading,
};
use aegis_core::board::led::{LedChange, LedState};
use aegis_core::board::otp::{read_root_key, ROOT_KEY_ROW, ROOT_KEY_WORDS};
use aegis_core::board::presence::{bootsel_pressed, Button, ButtonPresence, PresenceWait};
use aegis_core::configuration::{LedBehavior, LedConfig, LedDriver};
use aegis_core::error::CoreError;
use aegis_core::presence::{PresenceError, PresenceTiming};
use aegis_core::traits::Storage;

fn request(
    request_type: RequestType,
    recipient: Recipient,
    request: u8,
    value: u16,
    index: u16,
) -> ControlRequest {
    ControlRequest {
        request_type,
        recipient,
        request,
        value,
        index,
    }
}

#[test]
fn the_hid_descriptor_tells_the_report_descriptor_length() {
    assert_eq!(
        hid_descriptor(34),
        [9, 0x21, 0x10, 0x01, 0, 1, 0x22, 34, 0]
    );
    assert_eq!(hid_descriptor(0x1_0203)[7..], [0x03, 0x02]);
    assert_eq!(requested_descriptor_type(0x2201), 0x22);
}

#[test]
fn hid_control_requests_are_answered() {
    let standard = |code, value, index| {
        request(
            RequestType::Standard,
            Recipient::Interface,
            code,
            value,
            index,
        )
    };
    let class = |code, index| request(RequestType::Class, Recipient::Interface, code, 0, index);
    assert_eq!(
        control_in(1, &standard(6, 0x2200, 1)),
        Some(HidReply::ReportDescriptor)
    );
    assert_eq!(
        control_in(1, &standard(6, 0x2100, 1)),
        Some(HidReply::HidDescriptor)
    );
    assert_eq!(
        control_in(1, &standard(6, 0x0100, 1)),
        Some(HidReply::Rejected)
    );
    assert_eq!(control_in(1, &standard(0, 0, 1)), Some(HidReply::Rejected));
    assert_eq!(control_in(1, &standard(6, 0x2200, 2)), None);
    assert_eq!(control_in(1, &class(3, 1)), Some(HidReply::Byte(1)));
    assert_eq!(control_in(1, &class(2, 1)), Some(HidReply::Byte(0)));
    assert_eq!(control_in(1, &class(1, 1)), Some(HidReply::Rejected));
    assert_eq!(
        control_in(
            1,
            &request(RequestType::Vendor, Recipient::Interface, 3, 0, 1)
        ),
        None
    );
    assert_eq!(control_out(1, &class(0x0a, 1)), Some(true));
    assert_eq!(control_out(1, &class(0x0b, 1)), Some(true));
    assert_eq!(control_out(1, &class(0x09, 1)), Some(false));
    assert_eq!(control_out(1, &class(0x0a, 2)), None);
    assert_eq!(control_out(1, &standard(0x0a, 0, 1)), None);
}

#[test]
fn transfers_are_cut_into_packets() {
    assert_eq!(packets(0, 64), vec![]);
    assert_eq!(packets(64, 64), vec![(0, 64)]);
    assert_eq!(packets(130, 64), vec![(0, 64), (64, 128), (128, 130)]);
    assert!(zlp_needed(0, 64, 64));
    assert!(zlp_needed(64, 128, 64));
    assert!(!zlp_needed(64, 64, 64));
    assert!(!zlp_needed(63, 64, 64));
}

#[test]
fn a_report_is_read_packet_by_packet() {
    let mut reading = ReportReading::new(100, 64);
    reading.begin();
    assert_eq!(reading.next_range(), (0, 64));
    assert_eq!(reading.packet_read(Ok(64)), None);
    assert_eq!(reading.next_range(), (64, 100));
    assert_eq!(reading.packet_read(Ok(36)), Some(Ok(100)));

    reading.begin();
    assert_eq!(reading.packet_read(Ok(0)), None);
    assert_eq!(reading.next_range(), (0, 64));
    assert_eq!(reading.packet_read(Ok(10)), Some(Ok(10)));
}

#[test]
fn a_dropped_reading_resumes_and_says_so() {
    let mut reading = ReportReading::new(100, 64);
    reading.begin();
    assert_eq!(reading.packet_read(Ok(64)), None);
    reading.begin();
    assert_eq!(reading.next_range(), (64, 100));
    assert_eq!(
        reading.packet_read(Ok(36)),
        Some(Err(ReadError::Sync(64..100)))
    );
    reading.begin();
    assert_eq!(reading.next_range(), (0, 64));
}

#[test]
fn a_fault_ends_the_reading() {
    let mut reading = ReportReading::new(64, 64);
    reading.begin();
    assert_eq!(
        reading.packet_read(Err(EndpointFault::Disabled)),
        Some(Err(ReadError::Disabled))
    );
    reading.begin();
    assert_eq!(
        reading.packet_read(Err(EndpointFault::BufferOverflow)),
        Some(Err(ReadError::BufferOverflow))
    );
}

#[test]
fn ccid_answers_its_only_clock_and_rate() {
    let class = |code, index| request(RequestType::Class, Recipient::Interface, code, 0, index);
    assert_eq!(ccid::control_in(2, &class(2, 2)), Some(Some(4_000)));
    assert_eq!(ccid::control_in(2, &class(3, 2)), Some(Some(115_200)));
    assert_eq!(ccid::control_in(2, &class(9, 2)), Some(None));
    assert_eq!(ccid::control_in(2, &class(2, 3)), None);
    assert_eq!(ccid::control_out(2, &class(1, 2)), Some(true));
    assert_eq!(ccid::control_out(2, &class(2, 2)), Some(false));
    assert_eq!(ccid::control_out(1, &class(1, 2)), None);

    let mut table = [0xEE; 10];
    assert!(ccid::frequency_table(&mut table, 115_200));
    assert_eq!(table, [0x00, 0xC2, 0x01, 0x00, 0, 0, 0, 0, 0xEE, 0xEE]);
    let mut short = [0xEE; 7];
    assert!(!ccid::frequency_table(&mut short, 1));
    assert_eq!(short, [0xEE; 7]);
    assert_eq!(usize::from(ccid::CCID_DESCRIPTOR[0]), ccid::CCID_DESCRIPTOR.len());
    assert_eq!(ccid::CCID_DESCRIPTOR[19..23], table[..4]);
}

fn led_config(gpio: u8, enabled: bool, behavior: LedBehavior) -> LedConfig {
    LedConfig {
        enabled,
        gpio,
        brightness: 200,
        driver: LedDriver::Gpio,
        behavior,
    }
}

#[test]
fn the_led_moves_among_its_candidates_only() {
    let mut led = LedState::new(25, true, &[6, 25]);
    assert_eq!(
        led.configure(&led_config(6, true, LedBehavior::Solid)),
        Ok(LedChange {
            moved_to: Some(6),
            high: false
        })
    );
    assert_eq!(led.gpio, 6);
    assert_eq!(led.brightness(), 200);
    assert_eq!(
        led.configure(&led_config(7, true, LedBehavior::Blink)),
        Err(CoreError::InvalidCapability)
    );
    assert_eq!(led.behavior(), LedBehavior::Solid);
    assert_eq!(
        led.configure(&led_config(6, false, LedBehavior::Blink)),
        Ok(LedChange {
            moved_to: None,
            high: true
        })
    );
    assert_eq!(led.behavior(), LedBehavior::Off);
}

#[test]
fn the_led_is_dark_without_brightness_or_behavior() {
    let mut led = LedState::new(25, false, &[]);
    assert!(!led.set_brightness(255));
    assert!(led.set_behavior(LedBehavior::Activity));
    assert!(!led.set_brightness(0));
    assert!(LedState::level(true, false));
    assert_eq!(
        led.configure(&led_config(25, true, LedBehavior::Solid)),
        Ok(LedChange {
            moved_to: None,
            high: true
        })
    );
}

struct RamStorage {
    data: Vec<u8>,
}

impl Storage for RamStorage {
    fn read(&mut self, offset: u32, buf: &mut [u8]) -> Result<(), CoreError> {
        let start = offset as usize;
        let Some(source) = self.data.get(start..start + buf.len()) else {
            return Err(CoreError::StorageError);
        };
        buf.copy_from_slice(source);
        Ok(())
    }

    fn write(&mut self, offset: u32, data: &[u8]) -> Result<(), CoreError> {
        let start = offset as usize;
        let Some(target) = self.data.get_mut(start..start + data.len()) else {
            return Err(CoreError::StorageError);
        };
        target.copy_from_slice(data);
        Ok(())
    }

    fn erase(&mut self, offset: u32, len: u32) -> Result<(), CoreError> {
        let start = offset as usize;
        let Some(target) = self.data.get_mut(start..start + len as usize) else {
            return Err(CoreError::StorageError);
        };
        target.fill(0xFF);
        Ok(())
    }
}

#[test]
fn a_region_is_a_window_into_the_flash() {
    let mut flash = RamStorage { data: vec![0; 64] };
    {
        let mut region = RegionStorage::new(&mut flash, 16);
        region.write(4, &[1, 2, 3]).unwrap();
        region.erase(8, 2).unwrap();
        let mut back = [0u8; 3];
        region.read(4, &mut back).unwrap();
        assert_eq!(back, [1, 2, 3]);
        assert_eq!(region.write(47, &[1, 2]), Err(CoreError::StorageError));
        assert_eq!(region.erase(u32::MAX, 1), Err(CoreError::StorageError));
        assert_eq!(
            region.read(u32::MAX - 15, &mut back),
            Err(CoreError::StorageError)
        );
    }
    assert_eq!(&flash.data[20..23], &[1, 2, 3]);
    assert_eq!(&flash.data[24..26], &[0xFF, 0xFF]);
    assert!(flash.data[..20].iter().all(|byte| *byte == 0));
}

#[derive(Clone, Copy)]
struct Blank;

impl Storage for Blank {
    fn read(&mut self, offset: u32, buf: &mut [u8]) -> Result<(), CoreError> {
        for (index, byte) in buf.iter_mut().enumerate() {
            *byte = (offset as usize + index) as u8;
        }
        Ok(())
    }

    fn write(&mut self, _offset: u32, _data: &[u8]) -> Result<(), CoreError> {
        Err(CoreError::StorageError)
    }

    fn erase(&mut self, _offset: u32, _len: u32) -> Result<(), CoreError> {
        Err(CoreError::StorageError)
    }
}

#[test]
fn a_region_has_regions() {
    let region = RegionStorage::new(Blank, 0x20);
    let mut inner = region.at(0x10);
    let mut back = [0u8; 2];
    inner.read(1, &mut back).unwrap();
    assert_eq!(back, [0x31, 0x32]);
    assert_eq!(inner.write(0, &[]), Err(CoreError::StorageError));
}

#[test]
fn the_root_key_is_read_little_endian() {
    let mut words = [Some(0x0201u16); ROOT_KEY_WORDS];
    words[15] = Some(0xFFEE);
    let key = read_root_key(4096, &words).unwrap();
    assert_eq!(&key[..4], &[0x01, 0x02, 0x01, 0x02]);
    assert_eq!(&key[30..], &[0xEE, 0xFF]);
}

#[test]
fn an_absent_root_key_fails_closed() {
    let fault = Err(CoreError::StorageError);
    assert_eq!(read_root_key(4096, &[Some(0); ROOT_KEY_WORDS]), fault);
    assert_eq!(read_root_key(4096, &[Some(0xFFFF); ROOT_KEY_WORDS]), fault);
    let mut words = [Some(1u16); ROOT_KEY_WORDS];
    assert_eq!(read_root_key(ROOT_KEY_ROW + 15, &words), fault);
    words[7] = None;
    assert_eq!(read_root_key(4096, &words), fault);
}

#[test]
fn bootsel_is_active_low() {
    assert!(bootsel_pressed(0));
    assert!(!bootsel_pressed(1 << 17));
    assert!(bootsel_pressed(!(1 << 17)));
}

const TIMING: PresenceTiming = PresenceTiming {
    debounce_ms: 20,
    timeout_ms: 100,
};

#[test]
fn a_wait_is_answered_by_a_press_or_the_timeout() {
    let mut wait = PresenceWait::new(TIMING);
    wait.begin(1).unwrap();
    let mut steps = 0;
    while wait.step(true).is_none() {
        steps += 1;
    }
    assert_eq!(steps, 20);

    let mut idle = PresenceWait::new(TIMING);
    idle.begin(2).unwrap();
    for _ in 0..100 {
        assert_eq!(idle.step(false), None);
    }
    assert_eq!(idle.step(false), Some(Err(PresenceError::Timeout)));
}

struct Scripted {
    levels: Vec<bool>,
}

impl Button for Scripted {
    fn is_pressed(&mut self) -> bool {
        if self.levels.is_empty() {
            false
        } else {
            self.levels.remove(0)
        }
    }
}

#[test]
fn a_button_confirms_each_operation_anew() {
    let mut levels = vec![true; 21];
    levels.extend(vec![true; 200]);
    let mut presence = ButtonPresence::new(Scripted { levels }, TIMING);
    presence.begin().unwrap();
    let first = loop {
        if let Some(answer) = presence.step() {
            break answer;
        }
    };
    assert_eq!(first, Ok(()));

    // The button stays down: the press of the first operation is not replayed.
    presence.begin().unwrap();
    let second = loop {
        if let Some(answer) = presence.step() {
            break answer;
        }
    };
    assert_eq!(second, Err(PresenceError::Timeout));
    assert!(presence.is_pressed());
}
