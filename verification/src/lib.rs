//! Verified core of the Air96 V2 keyboard firmware: the NRF UART protocol,
//! HID report framing, sleep handling, keymap resolution, LED rendering,
//! the emulated-EEPROM config layout and the VIA command handler.

pub mod wireless;
pub mod bounded;
pub mod keyboard;
pub mod led;
pub mod config;
pub mod via;
pub mod device;
pub mod usb;
pub mod control;
