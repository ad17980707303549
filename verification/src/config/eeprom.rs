//! Emulated EEPROM in the last page of STM32F072 flash memory.
//!
//! The last 2KB flash page (page 63, address 0x0801F800) holds a small user
//! config block. The functions here work on an image of that page: `load`
//! decodes it, `save`, `write_byte`, `save_keymap` and `reset_to_defaults`
//! give the page contents that programming the flash leaves behind.
//!
//! Config layout (16 bytes at offset 0):
//!   [0] = magic flag (0xA8 = valid v4: RGB defaults, max speed; 0xA5 = v1)
//!   [1] = side_mode
//!   [2] = side_brightness
//!   [3] = side_speed
//!   [4] = side_colour
//!   [5] = side_rgb (bool)
//!   [6] = sleep_enable (bool)
//!   [7] = rgb_mode (u8)
//!   [8] = rgb_hue (u8)
//!   [9] = rgb_sat (u8)
//!   [10] = rgb_val (u8)
//!   [11] = rgb_speed (u8)
//!   [12] = rgb_enabled (bool)
//!   [13..15] = reserved / padding
use vstd::prelude::*;
use crate::keyboard::keymap::{self, keycode_at};

verus! {

/// Config page address: last 2KB page (page 63 of 64, 128K flash)
pub const CONFIG_PAGE_ADDR: u32 = 0x0801_F800;

pub const CONFIG_PAGE_SIZE: usize = 2048;

pub const MAGIC_VALID_V1: u8 = 0xA5;

pub const MAGIC_VALID_V4: u8 = 0xA8;

/// Offset of the dynamic keymap block, right after the config block.
pub const KEYMAP_BLOCK_ADDR: usize = 16;

/// Size of the dynamic keymap block: 8 layers × 6 rows × 21 columns × 2 bytes.
pub const KEYMAP_BLOCK_SIZE: usize = 2016;

/// User config stored in flash
#[derive(Debug, Clone, Copy)]
pub struct UserConfig {
    pub side_mode: u8,
    pub side_brightness: u8,
    pub side_speed: u8,
    pub side_colour: u8,
    pub side_rgb: bool,
    pub sleep_enable: bool,
    // ── Main RGB matrix settings ──────────────────────────────────────
    pub rgb_mode: u8,
    pub rgb_hue: u8,
    pub rgb_sat: u8,
    pub rgb_val: u8,
    pub rgb_speed: u8,
    pub rgb_enabled: bool,
}

/// The default config: side wave mode at brightness 3, speed 2, red, rainbow
/// on, sleep on; RGB matrix cycling left-right (mode 4) at hue 0, full
/// saturation, value and speed.
pub open spec fn default_config() -> UserConfig {
    UserConfig {
        side_mode: 0,
        side_brightness: 3,
        side_speed: 2,
        side_colour: 0,
        side_rgb: true,
        sleep_enable: true,
        rgb_mode: 4,
        rgb_hue: 0,
        rgb_sat: 255,
        rgb_val: 255,
        rgb_speed: 255,
        rgb_enabled: true,
    }
}

impl Default for UserConfig {
    fn default() -> (c: Self)
        ensures
            c == default_config(),
    {
        Self {
            side_mode: 0,
            side_brightness: 3,
            side_speed: 2,
            side_colour: 0,
            side_rgb: true,
            sleep_enable: true,
            rgb_mode: 4,  // CYCLE_LEFT_RIGHT
            rgb_hue: 0,  // RGB_MATRIX_DEFAULT_HUE
            rgb_sat: 255,  // RGB_MATRIX_DEFAULT_SAT
            rgb_val: 255,  // RGB_MATRIX_DEFAULT_VAL
            rgb_speed: 255,  // max speed (default)
            rgb_enabled: true,
        }
    }
}

/// A flag stored as a byte.
pub open spec fn flag_byte(b: bool) -> u8 {
    if b {
        1
    } else {
        0
    }
}

/// The 16-byte config block: the v4 magic, the twelve fields in layout
/// order, three zero bytes.
pub open spec fn config_block_of(c: UserConfig) -> Seq<u8> {
    seq![
        MAGIC_VALID_V4,
        c.side_mode,
        c.side_brightness,
        c.side_speed,
        c.side_colour,
        flag_byte(c.side_rgb),
        flag_byte(c.sleep_enable),
        c.rgb_mode,
        c.rgb_hue,
        c.rgb_sat,
        c.rgb_val,
        c.rgb_speed,
        flag_byte(c.rgb_enabled),
        0u8,
        0u8,
        0u8,
    ]
}

/// The config a page holds: all fields under the v4 magic, the side fields
/// (and defaults for the rest) under the v1 magic, none otherwise. A flag
/// byte is set when it is not zero.
pub open spec fn config_in(page: Seq<u8>) -> Option<UserConfig> {
    if page[0] == MAGIC_VALID_V4 {
        Some(
            UserConfig {
                side_mode: page[1],
                side_brightness: page[2],
                side_speed: page[3],
                side_colour: page[4],
                side_rgb: page[5] != 0,
                sleep_enable: page[6] != 0,
                rgb_mode: page[7],
                rgb_hue: page[8],
                rgb_sat: page[9],
                rgb_val: page[10],
                rgb_speed: page[11],
                rgb_enabled: page[12] != 0,
            },
        )
    } else if page[0] == MAGIC_VALID_V1 {
        Some(
            UserConfig {
                side_mode: page[1],
                side_brightness: page[2],
                side_speed: page[3],
                side_colour: page[4],
                side_rgb: page[5] != 0,
                sleep_enable: page[6] != 0,
                ..default_config()
            },
        )
    } else {
        None
    }
}

/// The page after `save`: erased (all 0xFF) but for the config block.
pub open spec fn saved_page(c: UserConfig) -> Seq<u8> {
    Seq::new(CONFIG_PAGE_SIZE as nat, |a: int| if a < 16 { config_block_of(c)[a] } else { 0xFFu8 })
}

/// A byte read from the page; offsets past the page read as erased flash.
pub open spec fn byte_at(page: Seq<u8>, offset: int) -> u8 {
    if 0 <= offset < CONFIG_PAGE_SIZE {
        page[offset]
    } else {
        0xFF
    }
}

/// The page after writing `value` at `offset`; offsets past the page are
/// ignored.
pub open spec fn page_written(page: Seq<u8>, offset: int, value: u8) -> Seq<u8> {
    if 0 <= offset < CONFIG_PAGE_SIZE {
        page.update(offset, value)
    } else {
        page
    }
}

/// Byte `o` of the default keymap layout: keys in layer, row, column order,
/// two bytes each (high byte first); layers past the compiled ones are KC_NO.
pub open spec fn default_keymap_byte(o: int) -> u8 {
    let k = o / 2;
    let kc = keycode_at(k / 126, (k % 126) / 21, k % 21);
    if o % 2 == 0 {
        (kc >> 8) as u8
    } else {
        (kc & 0xFF) as u8
    }
}

/// The page after `reset_to_defaults`: the default config block, the
/// default keymap in the keymap block (where the dynamic keymap is read),
/// and erased bytes after it.
pub open spec fn reset_page() -> Seq<u8> {
    Seq::new(
        CONFIG_PAGE_SIZE as nat,
        |a: int|
            if a < KEYMAP_BLOCK_ADDR {
                config_block_of(default_config())[a]
            } else if a < KEYMAP_BLOCK_ADDR + KEYMAP_BLOCK_SIZE {
                default_keymap_byte(a - KEYMAP_BLOCK_ADDR)
            } else {
                0xFFu8
            },
    )
}

/// The keycode word the keymap block holds for a key: two bytes, high byte
/// first, at the key's place in layer, row, column order.
pub open spec fn keymap_word(page: Seq<u8>, layer: int, row: int, col: int) -> u16 {
    let a = KEYMAP_BLOCK_ADDR + 2 * (layer * 126 + row * 21 + col);
    ((page[a] as u16) << 8) | (page[a + 1] as u16)
}

/// After a reset every key of the keymap block reads back as the compiled
/// keymap's (KC_NO past its layers).
pub proof fn lemma_reset_keymap_reads_back(layer: int, row: int, col: int)
    requires
        0 <= layer < 8,
        0 <= row < 6,
        0 <= col < 21,
    ensures
        keymap_word(reset_page(), layer, row, col) == keycode_at(layer, row, col),
{
    let k = layer * 126 + row * 21 + col;
    assert(k / 126 == layer && (k % 126) / 21 == row && k % 21 == col);
    let kc = keycode_at(layer, row, col);
    let p = reset_page();
    assert(p[KEYMAP_BLOCK_ADDR + 2 * k] == (kc >> 8) as u8);
    assert(p[KEYMAP_BLOCK_ADDR + 2 * k + 1] == (kc & 0xFF) as u8);
    assert((((kc >> 8) as u8 as u16) << 8) | ((kc & 0xFF) as u8 as u16) == kc) by (bit_vector);
}

/// The config block for `cfg`.
pub fn config_block(cfg: &UserConfig) -> (b: [u8; 16])
    ensures
        b@ == config_block_of(*cfg),
{
    let b = [
        MAGIC_VALID_V4,
        cfg.side_mode,
        cfg.side_brightness,
        cfg.side_speed,
        cfg.side_colour,
        if cfg.side_rgb { 1 } else { 0 },
        if cfg.sleep_enable { 1 } else { 0 },
        cfg.rgb_mode,
        cfg.rgb_hue,
        cfg.rgb_sat,
        cfg.rgb_val,
        cfg.rgb_speed,
        if cfg.rgb_enabled { 1 } else { 0 },
        0,
        0,
        0,
    ];
    assert(b@ =~= config_block_of(*cfg));
    b
}

/// Load the user config from the page.
/// Returns None if the page holds no valid config.
pub fn load(page: &[u8; CONFIG_PAGE_SIZE]) -> (c: Option<UserConfig>)
    ensures
        c == config_in(page@),
{
    let magic = page[0];
    if magic == MAGIC_VALID_V4 {
        Some(
            UserConfig {
                side_mode: page[1],
                side_brightness: page[2],
                side_speed: page[3],
                side_colour: page[4],
                side_rgb: page[5] != 0,
                sleep_enable: page[6] != 0,
                rgb_mode: page[7],
                rgb_hue: page[8],
                rgb_sat: page[9],
                rgb_val: page[10],
                rgb_speed: page[11],
                rgb_enabled: page[12] != 0,
            },
        )
    } else if magic == MAGIC_VALID_V1 {
        let d = UserConfig::default();
        Some(
            UserConfig {
                side_mode: page[1],
                side_brightness: page[2],
                side_speed: page[3],
                side_colour: page[4],
                side_rgb: page[5] != 0,
                sleep_enable: page[6] != 0,
                ..d
            },
        )
    } else {
        None
    }
}

/// Save the user config: the page is erased, then the 16-byte block is
/// programmed at its start.
pub fn save(cfg: &UserConfig, page: &mut [u8; CONFIG_PAGE_SIZE])
    ensures
        final(page)@ == saved_page(*cfg),
{
    let block = config_block(cfg);
    let mut erased = [0xFFu8; CONFIG_PAGE_SIZE];
    let mut i: usize = 0;
    while i < 16
        invariant
            i <= 16,
            block@ == config_block_of(*cfg),
            erased@.len() == CONFIG_PAGE_SIZE,
            forall|a: int|
                0 <= a < CONFIG_PAGE_SIZE ==> #[trigger] erased@[a] == (if a < i { block@[a] } else { 0xFFu8 }),
        decreases 16 - i,
    {
        erased[i] = block[i];
        i = i + 1;
    }
    assert(erased@ =~= saved_page(*cfg));
    *page = erased;
}

/// Read a byte from the config page at the given offset.
pub fn read_byte(page: &[u8; CONFIG_PAGE_SIZE], offset: usize) -> (b: u8)
    ensures
        b == byte_at(page@, offset as int),
{
    if offset >= CONFIG_PAGE_SIZE {
        return 0xFF;
    }
    page[offset]
}

/// Write a byte to the config page at the given offset (a read, erase and
/// rewrite of the whole page).
pub fn write_byte(page: &mut [u8; CONFIG_PAGE_SIZE], offset: usize, value: u8)
    ensures
        final(page)@ == page_written(old(page)@, offset as int, value),
{
    if offset >= CONFIG_PAGE_SIZE {
        return;
    }
    page[offset] = value;
}

/// Write the dynamic keymap block after the config block; the rest of the
/// page is kept.
pub fn save_keymap(page: &mut [u8; CONFIG_PAGE_SIZE], keymap_block: &[u8; KEYMAP_BLOCK_SIZE])
    ensures
        final(page)@ == Seq::new(
            CONFIG_PAGE_SIZE as nat,
            |a: int|
                if KEYMAP_BLOCK_ADDR <= a < KEYMAP_BLOCK_ADDR + KEYMAP_BLOCK_SIZE {
                    keymap_block@[a - KEYMAP_BLOCK_ADDR]
                } else {
                    old(page)@[a]
                },
        ),
{
    let mut i: usize = 0;
    while i < KEYMAP_BLOCK_SIZE
        invariant
            i <= KEYMAP_BLOCK_SIZE,
            page@.len() == CONFIG_PAGE_SIZE,
            forall|a: int|
                0 <= a < CONFIG_PAGE_SIZE ==> #[trigger] page@[a] == (if KEYMAP_BLOCK_ADDR <= a
                    < KEYMAP_BLOCK_ADDR + i {
                    keymap_block@[a - KEYMAP_BLOCK_ADDR]
                } else {
                    old(page)@[a]
                }),
        decreases KEYMAP_BLOCK_SIZE - i,
    {
        page[KEYMAP_BLOCK_ADDR + i] = keymap_block[i];
        i = i + 1;
    }
    assert(page@ =~= Seq::new(
        CONFIG_PAGE_SIZE as nat,
        |a: int|
            if KEYMAP_BLOCK_ADDR <= a < KEYMAP_BLOCK_ADDR + KEYMAP_BLOCK_SIZE {
                keymap_block@[a - KEYMAP_BLOCK_ADDR]
            } else {
                old(page)@[a]
            },
    ));
}

/// Reset the user config to defaults and lay out the default keymap in the
/// keymap block, byte by byte.
pub fn reset_to_defaults(page: &mut [u8; CONFIG_PAGE_SIZE])
    ensures
        final(page)@ == reset_page(),
        config_in(final(page)@) == Some(default_config()),
        forall|layer: int, row: int, col: int|
            0 <= layer < 8 && 0 <= row < 6 && 0 <= col < 21 ==> #[trigger] keymap_word(final(page)@, layer, row, col)
                == keycode_at(layer, row, col),
{
    save(&UserConfig::default(), page);
    let mut k: usize = 0;
    while k < 1008
        invariant
            k <= 1008,
            page@.len() == CONFIG_PAGE_SIZE,
            forall|a: int|
                0 <= a < CONFIG_PAGE_SIZE ==> #[trigger] page@[a] == (if a < KEYMAP_BLOCK_ADDR + 2 * k {
                    reset_page()[a]
                } else {
                    0xFFu8
                }),
        decreases 1008 - k,
    {
        let layer = k / 126;
        let row = (k % 126) / 21;
        let col = k % 21;
        let kc = keymap::get_keycode(layer, row, col);
        let addr = KEYMAP_BLOCK_ADDR + 2 * k;
        assert(default_keymap_byte(2 * k as int) == (kc >> 8) as u8);
        assert(default_keymap_byte(2 * k + 1) == (kc & 0xFF) as u8);
        write_byte(page, addr, (kc >> 8) as u8);
        write_byte(page, addr + 1, (kc & 0xFF) as u8);
        k = k + 1;
    }
    assert(page@ =~= reset_page());
    proof {
        lemma_reset_loads_defaults();
        assert forall|layer: int, row: int, col: int|
            0 <= layer < 8 && 0 <= row < 6 && 0 <= col < 21 implies #[trigger] keymap_word(page@, layer, row, col)
                == keycode_at(layer, row, col) by {
            lemma_reset_keymap_reads_back(layer, row, col);
        }
    }
}

/// A saved config loads back as it was.
pub proof fn lemma_save_load_roundtrip(c: UserConfig)
    ensures
        config_in(saved_page(c)) == Some(c),
{
    let p = saved_page(c);
    assert(p[0] == MAGIC_VALID_V4);
    assert(config_in(p).unwrap() == c);
}

/// A byte written within the page reads back; other offsets keep theirs.
pub proof fn lemma_write_read(page: Seq<u8>, offset: int, value: u8, other: int)
    requires
        page.len() == CONFIG_PAGE_SIZE,
        0 <= offset < CONFIG_PAGE_SIZE,
        other != offset,
    ensures
        byte_at(page_written(page, offset, value), offset) == value,
        byte_at(page_written(page, offset, value), other) == byte_at(page, other),
{
}

/// After a reset the page loads the default config.
pub proof fn lemma_reset_loads_defaults()
    ensures
        config_in(reset_page()) == Some(default_config()),
{
    let p = reset_page();
    assert(p[0] == MAGIC_VALID_V4);
    assert(config_in(p).unwrap() == default_config());
}

} // verus!
