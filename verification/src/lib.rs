//! Verified logic of a small RP2040 bus-analyzer / EEPROM-emulator toolkit:
//! the byte framing shared by the capture firmware and the desktop decoder,
//! the decoder's record layout and report line, the EEPROM emulator's reply
//! rule and its self-test bookkeeping, and the LED dimming used by the clock.
pub mod bytes;
pub mod record;
pub mod report;
pub mod capture;
pub mod led;
pub mod eeprom;

