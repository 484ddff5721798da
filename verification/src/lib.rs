//! Core logic of the AegisToken Universal RP2350 Firmware, verified.
//!
//! The crate owns the deterministic domain of the token: execution and
//! lifecycle state machines, device capabilities, the configuration model with
//! validation and integrity-protected records, contextual User Presence, the
//! CTAP2, U2F and management protocols, the sealed credential store and the
//! update slot.
use vstd::prelude::*;

pub mod authenticator;
pub mod board;
pub mod bounded;
pub mod bytes;
pub mod capabilities;
pub mod cbor;
pub mod codec;
pub mod configuration;
pub mod crc;
pub mod crypto;
pub mod credential;
pub mod credential_store;
pub mod ctap2;
pub mod ctaphid;
pub mod discovery;
pub mod error;
pub mod firmware;
pub mod hardware_profile;
pub mod host;
pub mod identity;
pub mod laws;
pub mod lifecycle;
pub mod management;
pub mod management_protocol;
pub mod pin;
pub mod presence;
pub mod record;
pub mod recovery;
pub mod reports;
pub mod secret;
pub mod state;
pub mod storage;
pub mod text;
pub mod traits;
pub mod u2f;
pub mod update;
pub mod version;

pub use capabilities::DeviceCapabilities;
pub use configuration::DeviceConfig;
pub use error::{CoreError, CoreResult};
pub use lifecycle::LifecycleState;
pub use state::ExecutionState;

verus! {

/// Firmware semantic version.
pub const VERSION: &'static str = "0.2.1";

/// Official USB product string.
pub const PRODUCT_USB_STRING: &'static str = "AegisToken FIDO2 USB Authenticator";

/// Official firmware family name.
pub const FIRMWARE_FAMILY: &'static str = "Universal RP2350 Firmware";

/// Release artifact name.
pub const RELEASE_ARTIFACT: &'static str = "rp2350-universal.uf2";

} // verus!
