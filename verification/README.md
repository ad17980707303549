# air96

Firmware logic for the NuPhy Air96 V2 keyboard (STM32F072, NRF52832 radio
module, two IS31FL3733 LED drivers), written in Verus: every function of the
library carries a contract that Verus proves.

## Layout

- `src/` — the verified library
  - `wireless/` — the UART protocol to the radio module (frame encoding and
    parsing, command dispatch, the NKRO report diff), the HID report frames
    and the sleep state machine
  - `keyboard/` — the keymap layers and their resolution, and the matrix
    debounce (per-key eager debounce with a lockout)
  - `led/` — the RGB matrix buffer and PWM images, the 50 animation effects,
    and the side LED modes and indicators
  - `config/` — the layout of the settings page in flash, worked on as a
    page image
  - `via.rs` — the VIA (RAW HID) command handler and the dynamic keymap
  - `device.rs` — key events: layers, modifiers, six-key state, custom
    keycodes, and the reports and frames they produce
  - `control.rs` — the main loop's decisions: bootloader entry, dial
    switches, long presses, light sequences, the chunked LED flush, the radio
    status sync
  - `usb.rs` — boot keyboard reports, the NKRO-to-boot-keys collapse and the
    suspend edge latches
- `tests/` — tests of the library on concrete values
- `app/` — the firmware around the library: board bring-up, pin and flash
  access, UART, I2C and USB I/O, and the main loop that performs what the
  library decides
