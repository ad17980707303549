pub mod eeprom;
pub mod hardware;
