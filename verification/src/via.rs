//! VIA configurator protocol (version 12) over 32-byte RAW HID reports.
//!
//! The dynamic keymap lives in the config page image, right after the
//! config block; channel 3 reads and writes the live RGB matrix settings.
use vstd::prelude::*;
use crate::config::eeprom::{
    self, byte_at, default_keymap_byte, CONFIG_PAGE_SIZE, KEYMAP_BLOCK_ADDR, KEYMAP_BLOCK_SIZE,
};
use crate::keyboard::keymap::{self, keycode_at};
use crate::led::rgb::RgbMatrix;

verus! {

/// RAW HID descriptor for VIA (vendor-defined usage page 0xFF60).
/// 32-byte IN/OUT reports.
pub const RAW_HID_DESC: [u8; 34] = [
    0x06, 0x60, 0xFF,  // USAGE_PAGE (Vendor Defined 0xFF60)
    0x09, 0x61,  // USAGE (0x61)
    0xA1, 0x01,  // COLLECTION (Application)
    0x09, 0x62,  //   USAGE (0x62)
    0x15, 0x00,  //   LOGICAL_MINIMUM (0)
    0x26, 0xFF, 0x00,  //   LOGICAL_MAXIMUM (255)
    0x95, 0x20,  //   REPORT_COUNT (32)
    0x75, 0x08,  //   REPORT_SIZE (8)
    0x81, 0x02,  //   INPUT (Data,Var,Abs)
    0x09, 0x63,  //   USAGE (0x63)
    0x15, 0x00,  //   LOGICAL_MINIMUM (0)
    0x26, 0xFF, 0x00,  //   LOGICAL_MAXIMUM (255)
    0x95, 0x20,  //   REPORT_COUNT (32)
    0x75, 0x08,  //   REPORT_SIZE (8)
    0x91, 0x02,  //   OUTPUT (Data,Var,Abs)
    0xC0,  // END_COLLECTION
];

/// VIA protocol version 12
pub const VIA_PROTOCOL_VERSION: u16 = 0x000C;

/// Firmware version as major << 16 | minor << 8 | patch.
pub const FIRMWARE_VERSION: u32 = (4 << 16) | (7 << 8) | 8;

// VIA command IDs
pub const ID_GET_PROTOCOL_VERSION: u8 = 0x01;

pub const ID_GET_KEYBOARD_VALUE: u8 = 0x02;

pub const ID_SET_KEYBOARD_VALUE: u8 = 0x03;

pub const ID_DYNAMIC_KEYMAP_GET_KEYCODE: u8 = 0x04;

pub const ID_DYNAMIC_KEYMAP_SET_KEYCODE: u8 = 0x05;

pub const ID_DYNAMIC_KEYMAP_RESET: u8 = 0x06;

pub const ID_CUSTOM_SET_VALUE: u8 = 0x07;

pub const ID_CUSTOM_GET_VALUE: u8 = 0x08;

pub const ID_CUSTOM_SAVE: u8 = 0x09;

pub const ID_EEPROM_RESET: u8 = 0x0A;

pub const ID_BOOTLOADER_JUMP: u8 = 0x0B;

pub const ID_DYNAMIC_KEYMAP_MACRO_GET_COUNT: u8 = 0x0C;

pub const ID_DYNAMIC_KEYMAP_MACRO_GET_BUFFER_SIZE: u8 = 0x0D;

pub const ID_DYNAMIC_KEYMAP_MACRO_GET_BUFFER: u8 = 0x0E;

pub const ID_DYNAMIC_KEYMAP_MACRO_SET_BUFFER: u8 = 0x0F;

pub const ID_DYNAMIC_KEYMAP_MACRO_RESET: u8 = 0x10;

pub const ID_DYNAMIC_KEYMAP_GET_LAYER_COUNT: u8 = 0x11;

pub const ID_DYNAMIC_KEYMAP_GET_BUFFER: u8 = 0x12;

pub const ID_DYNAMIC_KEYMAP_SET_BUFFER: u8 = 0x13;

// Keyboard value IDs
pub const ID_UPTIME: u8 = 0x01;

pub const ID_LAYOUT_OPTIONS: u8 = 0x02;

pub const ID_SWITCH_MATRIX_STATE: u8 = 0x03;

pub const ID_FIRMWARE_VERSION: u8 = 0x04;

/// The RGB matrix's custom value channel
pub const CHANNEL_RGB_MATRIX: u8 = 3;

// RGB Matrix value IDs
pub const RGB_MATRIX_BRIGHTNESS: u8 = 1;

pub const RGB_MATRIX_EFFECT: u8 = 2;

pub const RGB_MATRIX_EFFECT_SPEED: u8 = 3;

pub const RGB_MATRIX_COLOR: u8 = 4;

/// Number of layers for dynamic keymap
pub const DYNAMIC_KEYMAP_LAYER_COUNT: usize = 8;

/// Matrix dimensions
pub const VIA_MATRIX_ROWS: usize = 6;

pub const VIA_MATRIX_COLS: usize = 21;

/// Macro count and buffer size
pub const DYNAMIC_KEYMAP_MACRO_COUNT: usize = 0;

pub const DYNAMIC_KEYMAP_MACRO_BUFFER_SIZE: usize = 0;

/// The dynamic keymap starts right after the 16-byte config block.
pub const DYNAMIC_KEYMAP_EEPROM_ADDR: usize = 16;

/// What to do after a VIA command.
#[derive(Debug, Clone, Copy, PartialEq, Eq, Structural)]
pub enum ViaReply {
    /// Send the (rewritten) report back.
    Send,
    /// Enter the ROM bootloader.
    EnterBootloader,
}


/// `data` with bytes `from..to` cleared.
pub open spec fn cleared(data: Seq<u8>, from: int, to: int) -> Seq<u8> {
    Seq::new(data.len(), |i: int| if from <= i < to { 0u8 } else { data[i] })
}

/// A report marked unhandled.
pub open spec fn unhandled(data: Seq<u8>) -> Seq<u8> {
    data.update(0, 0xFF)
}

/// Reply to "get keyboard value": uptime and layout options read 0, the
/// firmware version is big-endian in bytes 2..6, the switch matrix state
/// clears bytes 2..32; other values are unhandled.
pub open spec fn keyboard_value_reply(data: Seq<u8>) -> Seq<u8> {
    let value_id = data[1];
    if value_id == ID_UPTIME || value_id == ID_LAYOUT_OPTIONS {
        cleared(data, 2, 6)
    } else if value_id == ID_FIRMWARE_VERSION {
        data.update(2, ((FIRMWARE_VERSION >> 24) & 0xFF) as u8).update(
            3,
            ((FIRMWARE_VERSION >> 16) & 0xFF) as u8,
        ).update(4, ((FIRMWARE_VERSION >> 8) & 0xFF) as u8).update(5, (FIRMWARE_VERSION & 0xFF) as u8)
    } else if value_id == ID_SWITCH_MATRIX_STATE {
        cleared(data, 2, 32)
    } else {
        unhandled(data)
    }
}

/// Page offset of the high byte of a key of the dynamic keymap.
pub open spec fn key_addr(layer: int, row: int, col: int) -> int {
    DYNAMIC_KEYMAP_EEPROM_ADDR + layer * 252 + row * 42 + col * 2
}

/// Whether a layer, row and column name a key of the dynamic keymap.
pub open spec fn key_in_range(layer: int, row: int, col: int) -> bool {
    layer < DYNAMIC_KEYMAP_LAYER_COUNT && row < VIA_MATRIX_ROWS && col < VIA_MATRIX_COLS
}

/// The keycode the page holds for a key; an erased slot (0xFFFF) gives the
/// compiled keymap, a key out of range KC_NO.
pub open spec fn dynamic_keycode_of(page: Seq<u8>, layer: int, row: int, col: int) -> u16 {
    if !(0 <= layer && 0 <= row && 0 <= col && key_in_range(layer, row, col)) {
        0
    } else {
        let addr = key_addr(layer, row, col);
        let kc = ((byte_at(page, addr) as u16) << 8) | (byte_at(page, addr + 1) as u16);
        if kc == 0xFFFF {
            keycode_at(layer, row, col)
        } else {
            kc
        }
    }
}

/// `page` with `bytes` written into the keymap block from `offset`.
pub open spec fn block_written(page: Seq<u8>, offset: int, bytes: Seq<u8>) -> Seq<u8> {
    Seq::new(
        page.len(),
        |a: int|
            if DYNAMIC_KEYMAP_EEPROM_ADDR + offset <= a < DYNAMIC_KEYMAP_EEPROM_ADDR + offset + bytes.len() {
                bytes[a - DYNAMIC_KEYMAP_EEPROM_ADDR - offset]
            } else {
                page[a]
            },
    )
}

/// The page after a dynamic keymap reset: the compiled layers, KC_NO on the
/// layers past them.
pub open spec fn keymap_reset_page(page: Seq<u8>) -> Seq<u8> {
    Seq::new(
        page.len(),
        |a: int|
            if KEYMAP_BLOCK_ADDR <= a < KEYMAP_BLOCK_ADDR + KEYMAP_BLOCK_SIZE {
                default_keymap_byte(a - KEYMAP_BLOCK_ADDR)
            } else {
                page[a]
            },
    )
}

/// Reply to "get keycode": the key's two bytes in 4 and 5, or unhandled for
/// a key out of range.
pub open spec fn get_keycode_reply(data: Seq<u8>, page: Seq<u8>) -> Seq<u8> {
    if !key_in_range(data[1] as int, data[2] as int, data[3] as int) {
        unhandled(data)
    } else {
        let addr = key_addr(data[1] as int, data[2] as int, data[3] as int);
        data.update(4, byte_at(page, addr)).update(5, byte_at(page, addr + 1))
    }
}

/// The page after "set keycode": bytes 4 and 5 of the report go to the key.
pub open spec fn set_keycode_page(data: Seq<u8>, page: Seq<u8>) -> Seq<u8> {
    if !key_in_range(data[1] as int, data[2] as int, data[3] as int) {
        page
    } else {
        let off = key_addr(data[1] as int, data[2] as int, data[3] as int) - DYNAMIC_KEYMAP_EEPROM_ADDR;
        block_written(page, off, seq![data[4], data[5]])
    }
}

/// The keymap block offset a buffer command names (bytes 1 and 2, big-endian).
pub open spec fn buffer_offset(data: Seq<u8>) -> int {
    data[1] * 256 + data[2]
}

/// Whether a buffer command's range lies in the keymap block and fits the
/// report.
pub open spec fn buffer_ok(data: Seq<u8>) -> bool {
    buffer_offset(data) + data[3] <= KEYMAP_BLOCK_SIZE && data[3] <= 28
}

/// Reply to "get buffer": the block's bytes from the offset in 4.., or
/// unhandled when the range is not valid.
pub open spec fn get_buffer_reply(data: Seq<u8>, page: Seq<u8>) -> Seq<u8> {
    if !buffer_ok(data) {
        unhandled(data)
    } else {
        Seq::new(
            data.len(),
            |i: int|
                if 4 <= i < 4 + data[3] {
                    byte_at(page, DYNAMIC_KEYMAP_EEPROM_ADDR + buffer_offset(data) + i - 4)
                } else {
                    data[i]
                },
        )
    }
}

/// The page after "set buffer": the report's bytes from 4 go to the block.
pub open spec fn set_buffer_page(data: Seq<u8>, page: Seq<u8>) -> Seq<u8> {
    if !buffer_ok(data) {
        page
    } else {
        block_written(page, buffer_offset(data), data.subrange(4, 4 + data[3] as int))
    }
}

/// Reply to "custom get value" on the RGB matrix channel.
pub open spec fn custom_get_reply(data: Seq<u8>, rgb: RgbMatrix) -> Seq<u8> {
    if data[1] != CHANNEL_RGB_MATRIX {
        unhandled(data)
    } else if data[2] == RGB_MATRIX_BRIGHTNESS {
        data.update(3, rgb.val)
    } else if data[2] == RGB_MATRIX_EFFECT {
        data.update(3, rgb.mode)
    } else if data[2] == RGB_MATRIX_EFFECT_SPEED {
        data.update(3, rgb.speed)
    } else if data[2] == RGB_MATRIX_COLOR {
        data.update(3, rgb.hue).update(4, rgb.sat)
    } else {
        unhandled(data)
    }
}

/// Whether "custom set value" names a value of the RGB matrix channel.
pub open spec fn custom_set_known(data: Seq<u8>) -> bool {
    data[1] == CHANNEL_RGB_MATRIX && (data[2] == RGB_MATRIX_BRIGHTNESS || data[2] == RGB_MATRIX_EFFECT
        || data[2] == RGB_MATRIX_EFFECT_SPEED || data[2] == RGB_MATRIX_COLOR)
}

/// The RGB matrix after "custom set value".
pub open spec fn custom_set_rgb(data: Seq<u8>, rgb: RgbMatrix) -> RgbMatrix {
    if data[1] != CHANNEL_RGB_MATRIX {
        rgb
    } else if data[2] == RGB_MATRIX_BRIGHTNESS {
        RgbMatrix { val: data[3], ..rgb }
    } else if data[2] == RGB_MATRIX_EFFECT {
        RgbMatrix { mode: data[3], ..rgb }
    } else if data[2] == RGB_MATRIX_EFFECT_SPEED {
        RgbMatrix { speed: data[3], ..rgb }
    } else if data[2] == RGB_MATRIX_COLOR {
        RgbMatrix { hue: data[3], sat: data[4], ..rgb }
    } else {
        rgb
    }
}

/// The report after a VIA command.
pub open spec fn via_data(data: Seq<u8>, rgb: RgbMatrix, page: Seq<u8>) -> Seq<u8> {
    let cmd = data[0];
    if cmd == ID_GET_PROTOCOL_VERSION {
        data.update(1, (VIA_PROTOCOL_VERSION >> 8) as u8).update(2, (VIA_PROTOCOL_VERSION & 0xFF) as u8)
    } else if cmd == ID_GET_KEYBOARD_VALUE {
        keyboard_value_reply(data)
    } else if cmd == ID_SET_KEYBOARD_VALUE {
        if data[1] == ID_LAYOUT_OPTIONS {
            data
        } else {
            unhandled(data)
        }
    } else if cmd == ID_DYNAMIC_KEYMAP_GET_KEYCODE {
        get_keycode_reply(data, page)
    } else if cmd == ID_DYNAMIC_KEYMAP_SET_KEYCODE {
        if key_in_range(data[1] as int, data[2] as int, data[3] as int) {
            data
        } else {
            unhandled(data)
        }
    } else if cmd == ID_DYNAMIC_KEYMAP_GET_LAYER_COUNT {
        data.update(1, DYNAMIC_KEYMAP_LAYER_COUNT as u8)
    } else if cmd == ID_DYNAMIC_KEYMAP_GET_BUFFER {
        get_buffer_reply(data, page)
    } else if cmd == ID_DYNAMIC_KEYMAP_SET_BUFFER {
        if buffer_ok(data) {
            data
        } else {
            unhandled(data)
        }
    } else if cmd == ID_DYNAMIC_KEYMAP_MACRO_GET_COUNT {
        data.update(1, DYNAMIC_KEYMAP_MACRO_COUNT as u8)
    } else if cmd == ID_DYNAMIC_KEYMAP_MACRO_GET_BUFFER_SIZE {
        data.update(1, (DYNAMIC_KEYMAP_MACRO_BUFFER_SIZE >> 8) as u8).update(
            2,
            (DYNAMIC_KEYMAP_MACRO_BUFFER_SIZE & 0xFF) as u8,
        )
    } else if cmd == ID_CUSTOM_GET_VALUE {
        custom_get_reply(data, rgb)
    } else if cmd == ID_CUSTOM_SET_VALUE {
        if custom_set_known(data) {
            data
        } else {
            unhandled(data)
        }
    } else if cmd == ID_DYNAMIC_KEYMAP_RESET || cmd == ID_EEPROM_RESET || cmd == ID_BOOTLOADER_JUMP
        || cmd == ID_CUSTOM_SAVE {
        data
    } else {
        unhandled(data)
    }
}

/// The config page after a VIA command.
pub open spec fn via_page(data: Seq<u8>, page: Seq<u8>) -> Seq<u8> {
    let cmd = data[0];
    if cmd == ID_DYNAMIC_KEYMAP_SET_KEYCODE {
        set_keycode_page(data, page)
    } else if cmd == ID_DYNAMIC_KEYMAP_SET_BUFFER {
        set_buffer_page(data, page)
    } else if cmd == ID_DYNAMIC_KEYMAP_RESET {
        keymap_reset_page(page)
    } else if cmd == ID_EEPROM_RESET {
        keymap_reset_page(eeprom::reset_page())
    } else {
        page
    }
}

/// Handle a VIA command: the 32-byte report is rewritten in place into the
/// reply, the dynamic keymap lives in `page` (the config page image), channel
/// 3 reads and writes the live RGB matrix settings, and "custom save" sets
/// `save_pending` for the main loop's deferred flash write.
pub fn via_command(
    data: &mut [u8; 32],
    rgb: &mut RgbMatrix,
    save_pending: &mut bool,
    page: &mut [u8; CONFIG_PAGE_SIZE],
) -> (reply: ViaReply)
    ensures
        final(data)@ == via_data(old(data)@, *old(rgb), old(page)@),
        final(page)@ == via_page(old(data)@, old(page)@),
        *final(rgb) == (if old(data)@[0] == ID_CUSTOM_SET_VALUE {
            custom_set_rgb(old(data)@, *old(rgb))
        } else {
            *old(rgb)
        }),
        *final(save_pending) == (*old(save_pending) || old(data)@[0] == ID_CUSTOM_SAVE),
        reply == (if old(data)@[0] == ID_BOOTLOADER_JUMP {
            ViaReply::EnterBootloader
        } else {
            ViaReply::Send
        }),
{
    let cmd = data[0];
    if cmd == ID_GET_PROTOCOL_VERSION {
        data[1] = (VIA_PROTOCOL_VERSION >> 8) as u8;
        data[2] = (VIA_PROTOCOL_VERSION & 0xFF) as u8;
        ViaReply::Send
    } else if cmd == ID_GET_KEYBOARD_VALUE {
        via_get_keyboard_value(data);
        ViaReply::Send
    } else if cmd == ID_SET_KEYBOARD_VALUE {
        via_set_keyboard_value(data);
        ViaReply::Send
    } else if cmd == ID_DYNAMIC_KEYMAP_GET_KEYCODE {
        via_dynamic_keymap_get_keycode(data, page);
        ViaReply::Send
    } else if cmd == ID_DYNAMIC_KEYMAP_SET_KEYCODE {
        via_dynamic_keymap_set_keycode(data, page);
        ViaReply::Send
    } else if cmd == ID_DYNAMIC_KEYMAP_RESET {
        via_dynamic_keymap_reset(page);
        ViaReply::Send
    } else if cmd == ID_DYNAMIC_KEYMAP_GET_LAYER_COUNT {
        data[1] = DYNAMIC_KEYMAP_LAYER_COUNT as u8;
        ViaReply::Send
    } else if cmd == ID_DYNAMIC_KEYMAP_GET_BUFFER {
        via_dynamic_keymap_get_buffer(data, page);
        ViaReply::Send
    } else if cmd == ID_DYNAMIC_KEYMAP_SET_BUFFER {
        via_dynamic_keymap_set_buffer(data, page);
        ViaReply::Send
    } else if cmd == ID_DYNAMIC_KEYMAP_MACRO_GET_COUNT {
        data[1] = DYNAMIC_KEYMAP_MACRO_COUNT as u8;
        ViaReply::Send
    } else if cmd == ID_DYNAMIC_KEYMAP_MACRO_GET_BUFFER_SIZE {
        data[1] = (DYNAMIC_KEYMAP_MACRO_BUFFER_SIZE >> 8) as u8;
        data[2] = (DYNAMIC_KEYMAP_MACRO_BUFFER_SIZE & 0xFF) as u8;
        ViaReply::Send
    } else if cmd == ID_EEPROM_RESET {
        eeprom::reset_to_defaults(page);
        via_dynamic_keymap_reset(page);
        ViaReply::Send
    } else if cmd == ID_BOOTLOADER_JUMP {
        ViaReply::EnterBootloader
    } else if cmd == ID_CUSTOM_GET_VALUE {
        via_custom_get_value(data, rgb);
        ViaReply::Send
    } else if cmd == ID_CUSTOM_SET_VALUE {
        via_custom_set_value(data, rgb);
        ViaReply::Send
    } else if cmd == ID_CUSTOM_SAVE {
        *save_pending = true;
        ViaReply::Send
    } else {
        data[0] = 0xFF;
        ViaReply::Send
    }
}

/// "Get keyboard value".
fn via_get_keyboard_value(data: &mut [u8; 32])
    ensures
        final(data)@ == keyboard_value_reply(old(data)@),
{
    let value_id = data[1];
    if value_id == ID_UPTIME || value_id == ID_LAYOUT_OPTIONS {
        data[2] = 0;
        data[3] = 0;
        data[4] = 0;
        data[5] = 0;
        assert(data@ =~= cleared(old(data)@, 2, 6));
    } else if value_id == ID_FIRMWARE_VERSION {
        let ver: u32 = FIRMWARE_VERSION;
        data[2] = ((ver >> 24) & 0xFF) as u8;
        data[3] = ((ver >> 16) & 0xFF) as u8;
        data[4] = ((ver >> 8) & 0xFF) as u8;
        data[5] = (ver & 0xFF) as u8;
    } else if value_id == ID_SWITCH_MATRIX_STATE {
        let mut i: usize = 2;
        while i < 32
            invariant
                2 <= i <= 32,
                data@ == cleared(old(data)@, 2, i as int),
            decreases 32 - i,
        {
            data[i] = 0;
            i = i + 1;
            assert(data@ =~= cleared(old(data)@, 2, i as int));
        }
    } else {
        data[0] = 0xFF;
    }
}

/// "Set keyboard value": layout options are accepted (and not applied).
fn via_set_keyboard_value(data: &mut [u8; 32])
    ensures
        final(data)@ == (if old(data)@[1] == ID_LAYOUT_OPTIONS { old(data)@ } else { unhandled(old(data)@) }),
{
    if data[1] != ID_LAYOUT_OPTIONS {
        data[0] = 0xFF;
    }
}

/// Page offset of the high byte of a key of the dynamic keymap.
fn eeprom_addr_for_key(layer: usize, row: usize, col: usize) -> (a: usize)
    requires
        key_in_range(layer as int, row as int, col as int),
    ensures
        a == key_addr(layer as int, row as int, col as int),
        a + 1 < KEYMAP_BLOCK_ADDR + KEYMAP_BLOCK_SIZE,
{
    DYNAMIC_KEYMAP_EEPROM_ADDR + layer * VIA_MATRIX_ROWS * VIA_MATRIX_COLS * 2 + row * VIA_MATRIX_COLS * 2
        + col * 2
}

/// Writes `bytes` into the dynamic keymap block from `offset`: the block is
/// read, patched and saved back whole.
fn write_keymap_block(page: &mut [u8; CONFIG_PAGE_SIZE], offset: usize, bytes: &[u8])
    requires
        offset + bytes@.len() <= KEYMAP_BLOCK_SIZE,
    ensures
        final(page)@ == block_written(old(page)@, offset as int, bytes@),
{
    let mut buf = [0xFFu8; KEYMAP_BLOCK_SIZE];
    let mut i: usize = 0;
    while i < KEYMAP_BLOCK_SIZE
        invariant
            i <= KEYMAP_BLOCK_SIZE,
            page@.len() == CONFIG_PAGE_SIZE,
            buf@.len() == KEYMAP_BLOCK_SIZE,
            forall|k: int| 0 <= k < i ==> #[trigger] buf@[k] == page@[DYNAMIC_KEYMAP_EEPROM_ADDR + k],
        decreases KEYMAP_BLOCK_SIZE - i,
    {
        buf[i] = eeprom::read_byte(page, DYNAMIC_KEYMAP_EEPROM_ADDR + i);
        i = i + 1;
    }
    let mut j: usize = 0;
    while j < bytes.len()
        invariant
            j <= bytes@.len(),
            offset + bytes@.len() <= KEYMAP_BLOCK_SIZE,
            page@.len() == CONFIG_PAGE_SIZE,
            buf@.len() == KEYMAP_BLOCK_SIZE,
            forall|k: int|
                0 <= k < KEYMAP_BLOCK_SIZE ==> #[trigger] buf@[k] == (if offset <= k < offset + j {
                    bytes@[k - offset]
                } else {
                    page@[DYNAMIC_KEYMAP_EEPROM_ADDR + k]
                }),
        decreases bytes@.len() - j,
    {
        buf[offset + j] = bytes[j];
        j = j + 1;
    }
    eeprom::save_keymap(page, &buf);
    assert(page@ =~= block_written(old(page)@, offset as int, bytes@));
}

/// "Get keycode".
fn via_dynamic_keymap_get_keycode(data: &mut [u8; 32], page: &[u8; CONFIG_PAGE_SIZE])
    ensures
        final(data)@ == get_keycode_reply(old(data)@, page@),
{
    let layer = data[1] as usize;
    let row = data[2] as usize;
    let col = data[3] as usize;
    if layer >= DYNAMIC_KEYMAP_LAYER_COUNT || row >= VIA_MATRIX_ROWS || col >= VIA_MATRIX_COLS {
        data[0] = 0xFF;
        return;
    }
    let addr = eeprom_addr_for_key(layer, row, col);
    let kc_hi = eeprom::read_byte(page, addr);
    let kc_lo = eeprom::read_byte(page, addr + 1);
    data[4] = kc_hi;
    data[5] = kc_lo;
}

/// "Set keycode".
fn via_dynamic_keymap_set_keycode(data: &mut [u8; 32], page: &mut [u8; CONFIG_PAGE_SIZE])
    ensures
        final(data)@ == (if key_in_range(old(data)@[1] as int, old(data)@[2] as int, old(data)@[3] as int) {
            old(data)@
        } else {
            unhandled(old(data)@)
        }),
        final(page)@ == set_keycode_page(old(data)@, old(page)@),
{
    let layer = data[1] as usize;
    let row = data[2] as usize;
    let col = data[3] as usize;
    let kc_hi = data[4];
    let kc_lo = data[5];
    if layer >= DYNAMIC_KEYMAP_LAYER_COUNT || row >= VIA_MATRIX_ROWS || col >= VIA_MATRIX_COLS {
        data[0] = 0xFF;
        return;
    }
    let off = eeprom_addr_for_key(layer, row, col) - DYNAMIC_KEYMAP_EEPROM_ADDR;
    let bytes = [kc_hi, kc_lo];
    assert(bytes@ =~= seq![old(data)@[4], old(data)@[5]]);
    write_keymap_block(page, off, &bytes);
}

/// "Get buffer".
fn via_dynamic_keymap_get_buffer(data: &mut [u8; 32], page: &[u8; CONFIG_PAGE_SIZE])
    ensures
        final(data)@ == get_buffer_reply(old(data)@, page@),
{
    let offset = ((data[1] as usize) << 8) | (data[2] as usize);
    let size = data[3] as usize;
    let total = DYNAMIC_KEYMAP_LAYER_COUNT * VIA_MATRIX_ROWS * VIA_MATRIX_COLS * 2;
    let d1 = data[1];
    let d2 = data[2];
    assert(((d1 as usize) << 8) | (d2 as usize) == d1 * 256 + d2) by (bit_vector)
        requires d1 <= 255, d2 <= 255;
    if offset + size > total || size > 28 {
        data[0] = 0xFF;
        return;
    }
    let mut i: usize = 0;
    while i < size
        invariant
            i <= size,
            size == old(data)@[3],
            offset == buffer_offset(old(data)@),
            buffer_ok(old(data)@),
            data@ == Seq::new(
                32,
                |k: int|
                    if 4 <= k < 4 + i {
                        byte_at(page@, DYNAMIC_KEYMAP_EEPROM_ADDR + offset + k - 4)
                    } else {
                        old(data)@[k]
                    },
            ),
        decreases size - i,
    {
        data[4 + i] = eeprom::read_byte(page, DYNAMIC_KEYMAP_EEPROM_ADDR + offset + i);
        i = i + 1;
        assert(data@ =~= Seq::new(
            32,
            |k: int|
                if 4 <= k < 4 + i {
                    byte_at(page@, DYNAMIC_KEYMAP_EEPROM_ADDR + offset + k - 4)
                } else {
                    old(data)@[k]
                },
        ));
    }
    assert(data@ =~= get_buffer_reply(old(data)@, page@));
}

/// "Set buffer".
fn via_dynamic_keymap_set_buffer(data: &mut [u8; 32], page: &mut [u8; CONFIG_PAGE_SIZE])
    ensures
        final(data)@ == (if buffer_ok(old(data)@) { old(data)@ } else { unhandled(old(data)@) }),
        final(page)@ == set_buffer_page(old(data)@, old(page)@),
{
    let offset = ((data[1] as usize) << 8) | (data[2] as usize);
    let size = data[3] as usize;
    let total = DYNAMIC_KEYMAP_LAYER_COUNT * VIA_MATRIX_ROWS * VIA_MATRIX_COLS * 2;
    let d1 = data[1];
    let d2 = data[2];
    assert(((d1 as usize) << 8) | (d2 as usize) == d1 * 256 + d2) by (bit_vector)
        requires d1 <= 255, d2 <= 255;
    if offset + size > total || size > 28 {
        data[0] = 0xFF;
        return;
    }
    let bytes = vstd::slice::slice_subrange(data.as_slice(), 4, 4 + size);
    write_keymap_block(page, offset, bytes);
}

/// Writes the compiled keymap into the dynamic keymap block, KC_NO on the
/// layers past the compiled ones.
fn via_dynamic_keymap_reset(page: &mut [u8; CONFIG_PAGE_SIZE])
    ensures
        final(page)@ == keymap_reset_page(old(page)@),
{
    let mut buf = [0x00u8; KEYMAP_BLOCK_SIZE];
    let mut k: usize = 0;
    while k < 1008
        invariant
            k <= 1008,
            buf@.len() == KEYMAP_BLOCK_SIZE,
            forall|o: int|
                0 <= o < KEYMAP_BLOCK_SIZE ==> #[trigger] buf@[o] == (if o < 2 * k {
                    default_keymap_byte(o)
                } else {
                    0u8
                }),
        decreases 1008 - k,
    {
        let layer = k / 126;
        let row = (k % 126) / 21;
        let col = k % 21;
        let kc = keymap::get_keycode(layer, row, col);
        assert(default_keymap_byte(2 * k as int) == (kc >> 8) as u8);
        assert(default_keymap_byte(2 * k + 1) == (kc & 0xFF) as u8);
        buf[2 * k] = (kc >> 8) as u8;
        buf[2 * k + 1] = (kc & 0xFF) as u8;
        k = k + 1;
    }
    eeprom::save_keymap(page, &buf);
    assert(page@ =~= keymap_reset_page(old(page)@));
}

/// The keycode the dynamic keymap holds for a key; an erased slot (0xFFFF)
/// falls back to the compiled keymap.
pub fn dynamic_keymap_get_keycode(page: &[u8; CONFIG_PAGE_SIZE], layer: usize, row: usize, col: usize) -> (kc: u16)
    ensures
        kc == dynamic_keycode_of(page@, layer as int, row as int, col as int),
{
    if layer >= DYNAMIC_KEYMAP_LAYER_COUNT || row >= VIA_MATRIX_ROWS || col >= VIA_MATRIX_COLS {
        return 0;
    }
    let addr = eeprom_addr_for_key(layer, row, col);
    let hi = eeprom::read_byte(page, addr);
    let lo = eeprom::read_byte(page, addr + 1);
    let kc = ((hi as u16) << 8) | (lo as u16);
    if kc == 0xFFFF {
        return keymap::get_keycode(layer, row, col);
    }
    kc
}

/// "Custom get value" (RGB matrix channel).
fn via_custom_get_value(data: &mut [u8; 32], rgb: &RgbMatrix)
    ensures
        final(data)@ == custom_get_reply(old(data)@, *rgb),
{
    let channel = data[1];
    let value_id = data[2];
    if channel == CHANNEL_RGB_MATRIX {
        if value_id == RGB_MATRIX_BRIGHTNESS {
            data[3] = rgb.val;
        } else if value_id == RGB_MATRIX_EFFECT {
            data[3] = rgb.mode;
        } else if value_id == RGB_MATRIX_EFFECT_SPEED {
            data[3] = rgb.speed;
        } else if value_id == RGB_MATRIX_COLOR {
            data[3] = rgb.hue;
            data[4] = rgb.sat;
        } else {
            data[0] = 0xFF;
        }
    } else {
        data[0] = 0xFF;
    }
}

/// "Custom set value" (RGB matrix channel).
fn via_custom_set_value(data: &mut [u8; 32], rgb: &mut RgbMatrix)
    ensures
        final(data)@ == (if custom_set_known(old(data)@) { old(data)@ } else { unhandled(old(data)@) }),
        *final(rgb) == custom_set_rgb(old(data)@, *old(rgb)),
{
    let channel = data[1];
    let value_id = data[2];
    if channel == CHANNEL_RGB_MATRIX {
        if value_id == RGB_MATRIX_BRIGHTNESS {
            rgb.val = data[3];
        } else if value_id == RGB_MATRIX_EFFECT {
            rgb.mode = data[3];
        } else if value_id == RGB_MATRIX_EFFECT_SPEED {
            rgb.speed = data[3];
        } else if value_id == RGB_MATRIX_COLOR {
            rgb.hue = data[3];
            rgb.sat = data[4];
        } else {
            data[0] = 0xFF;
        }
    } else {
        data[0] = 0xFF;
    }
}

/// A dynamic keymap reset restores the compiled keymap: every key of the
/// dynamic keymap then reads as the compiled keymap's (KC_NO past its
/// layers).
pub proof fn lemma_keymap_reset_restores(page: Seq<u8>, layer: int, row: int, col: int)
    requires
        page.len() == CONFIG_PAGE_SIZE,
        0 <= layer < DYNAMIC_KEYMAP_LAYER_COUNT,
        0 <= row < VIA_MATRIX_ROWS,
        0 <= col < VIA_MATRIX_COLS,
    ensures
        dynamic_keycode_of(keymap_reset_page(page), layer, row, col) == keycode_at(layer, row, col),
{
    let p = keymap_reset_page(page);
    let k = layer * 126 + row * 21 + col;
    let addr = key_addr(layer, row, col);
    assert(addr == KEYMAP_BLOCK_ADDR + 2 * k);
    assert(k / 126 == layer && (k % 126) / 21 == row && k % 21 == col);
    let kc = keycode_at(layer, row, col);
    assert(byte_at(p, addr) == (kc >> 8) as u8);
    assert(byte_at(p, addr + 1) == (kc & 0xFF) as u8);
    assert((((kc >> 8) as u8 as u16) << 8) | ((kc & 0xFF) as u8 as u16) == kc) by (bit_vector);
}

/// A keycode set through VIA reads back through VIA.
pub proof fn lemma_set_then_get_keycode(data: Seq<u8>, page: Seq<u8>, query: Seq<u8>, rgb: RgbMatrix)
    requires
        data.len() == 32,
        query.len() == 32,
        page.len() == CONFIG_PAGE_SIZE,
        data[0] == ID_DYNAMIC_KEYMAP_SET_KEYCODE,
        query[0] == ID_DYNAMIC_KEYMAP_GET_KEYCODE,
        key_in_range(data[1] as int, data[2] as int, data[3] as int),
        query[1] == data[1] && query[2] == data[2] && query[3] == data[3],
    ensures
        via_data(query, rgb, via_page(data, page))[4] == data[4],
        via_data(query, rgb, via_page(data, page))[5] == data[5],
{
}

/// Bytes written through "set buffer" read back through "get buffer" of
/// the same range.
pub proof fn lemma_set_then_get_buffer(data: Seq<u8>, page: Seq<u8>, query: Seq<u8>, rgb: RgbMatrix, i: int)
    requires
        data.len() == 32,
        query.len() == 32,
        page.len() == CONFIG_PAGE_SIZE,
        data[0] == ID_DYNAMIC_KEYMAP_SET_BUFFER,
        query[0] == ID_DYNAMIC_KEYMAP_GET_BUFFER,
        buffer_ok(data),
        query[1] == data[1] && query[2] == data[2] && query[3] == data[3],
        4 <= i < 4 + data[3],
    ensures
        via_data(query, rgb, via_page(data, page))[i] == data[i],
{
    let p = via_page(data, page);
    let a = DYNAMIC_KEYMAP_EEPROM_ADDR + buffer_offset(data) + i - 4;
    assert(0 <= a < CONFIG_PAGE_SIZE);
    assert(p[a] == data.subrange(4, 4 + data[3] as int)[i - 4]);
}

/// An RGB matrix value set through VIA's custom channel reads back through
/// it: brightness, effect and speed in byte 3, the colour's hue and
/// saturation in bytes 3 and 4.
pub proof fn lemma_custom_set_then_get(data: Seq<u8>, query: Seq<u8>, rgb: RgbMatrix, page: Seq<u8>)
    requires
        data.len() == 32,
        query.len() == 32,
        data[0] == ID_CUSTOM_SET_VALUE,
        query[0] == ID_CUSTOM_GET_VALUE,
        custom_set_known(data),
        query[1] == data[1] && query[2] == data[2],
    ensures
        via_data(query, custom_set_rgb(data, rgb), page)[3] == data[3],
        data[2] == RGB_MATRIX_COLOR ==> via_data(query, custom_set_rgb(data, rgb), page)[4] == data[4],
{
}

/// "Set keycode" (0x05) takes the keycode big-endian, high byte in report
/// byte 4 and low byte in byte 5: afterwards the dynamic keymap holds that
/// keycode for the key (an all-ones code stands for an erased slot).
pub proof fn lemma_set_keycode_stores(data: Seq<u8>, page: Seq<u8>)
    requires
        data.len() == 32,
        page.len() == CONFIG_PAGE_SIZE,
        data[0] == 0x05,
        key_in_range(data[1] as int, data[2] as int, data[3] as int),
        data[4] as int * 256 + data[5] as int != 0xFFFF,
    ensures
        dynamic_keycode_of(via_page(data, page), data[1] as int, data[2] as int, data[3] as int) == data[4] as int
            * 256 + data[5] as int,
{
    let p = via_page(data, page);
    let addr = key_addr(data[1] as int, data[2] as int, data[3] as int);
    assert(0 <= addr && addr + 1 < CONFIG_PAGE_SIZE);
    assert(p[addr] == data[4] && p[addr + 1] == data[5]);
    let hi = data[4];
    let lo = data[5];
    assert(((hi as u16) << 8) | (lo as u16) == hi as u16 * 256 + lo as u16) by (bit_vector);
}

/// VIA's RGB matrix channel (3) by value id: 1 is the brightness (value),
/// 2 the effect, 3 the effect speed, 4 the colour with the hue in report
/// byte 3 and the saturation in byte 4. "Custom set value" (0x07) writes
/// exactly the named matrix fields from those bytes and leaves the rest;
/// "custom get value" (0x08) answers with those fields in those bytes.
pub proof fn lemma_custom_value_fields(data: Seq<u8>, rgb: RgbMatrix, page: Seq<u8>)
    requires
        data.len() == 32,
        data[1] == 3,
    ensures
        data[2] == 1 ==> custom_set_rgb(data, rgb) == (RgbMatrix { val: data[3], ..rgb }),
        data[2] == 2 ==> custom_set_rgb(data, rgb) == (RgbMatrix { mode: data[3], ..rgb }),
        data[2] == 3 ==> custom_set_rgb(data, rgb) == (RgbMatrix { speed: data[3], ..rgb }),
        data[2] == 4 ==> custom_set_rgb(data, rgb) == (RgbMatrix { hue: data[3], sat: data[4], ..rgb }),
        data[0] == 0x08 && data[2] == 1 ==> via_data(data, rgb, page)[3] == rgb.val,
        data[0] == 0x08 && data[2] == 2 ==> via_data(data, rgb, page)[3] == rgb.mode,
        data[0] == 0x08 && data[2] == 3 ==> via_data(data, rgb, page)[3] == rgb.speed,
        data[0] == 0x08 && data[2] == 4 ==> via_data(data, rgb, page)[3] == rgb.hue && via_data(data, rgb, page)[4]
            == rgb.sat,
{
}

/// After a full reset (`reset_to_defaults`) every key of the dynamic
/// keymap reads as the compiled keymap's.
pub proof fn lemma_defaults_read_back(layer: int, row: int, col: int)
    requires
        0 <= layer < DYNAMIC_KEYMAP_LAYER_COUNT,
        0 <= row < VIA_MATRIX_ROWS,
        0 <= col < VIA_MATRIX_COLS,
    ensures
        dynamic_keycode_of(eeprom::reset_page(), layer, row, col) == keycode_at(layer, row, col),
{
    assert(keymap_reset_page(eeprom::reset_page()) =~= eeprom::reset_page());
    lemma_keymap_reset_restores(eeprom::reset_page(), layer, row, col);
}

} // verus!
