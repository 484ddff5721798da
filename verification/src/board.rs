//! Board side of the token: the catalog of carrier boards, what is derived from
//! the wiring of a board, and the decisions of its drivers.
pub mod capabilities;
pub mod ccid;
pub mod control;
pub mod flash;
pub mod hardware;
pub mod hid;
pub mod led;
pub mod otp;
pub mod presence;
pub mod usb;
