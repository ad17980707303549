//! IS31FL3733 RGB matrix driver state.
//!
//! Two IS31FL3733 chips on I2C bus 1 (1 MHz Fast-mode Plus):
//!   DRIVER_1: 0x50 (AD connected to GND) — driver 0 in the LED map
//!   DRIVER_2: 0x53 (AD connected to VCC) — driver 1 in the LED map
//!
//! Each LED uses 3 channels (R, G, B); the LED map gives each channel's PWM
//! register (0x00..0xBF) on its chip.
use vstd::prelude::*;
use crate::led::animation::{self, LED_POSITIONS};

verus! {

pub const DRIVER_ADDR_1: u8 = 0x50;

pub const DRIVER_ADDR_2: u8 = 0x53;

pub const LED_COUNT: usize = 110;

// IS31FL3733 registers (function page)
pub const REG_SHUTDOWN: u8 = 0x0A;

pub const REG_CONFIG: u8 = 0x00;

pub const CONFIG_NORMAL: u8 = 0x01;

/// Single LED channel mapping.
#[derive(Debug, Clone, Copy)]
pub struct LedMapping {
    /// 0 = DRIVER_1, 1 = DRIVER_2
    pub driver: u8,
    /// PWM register offset for red
    pub r: u8,
    /// PWM register offset for green
    pub g: u8,
    /// PWM register offset for blue
    pub b: u8,
}

/// LED channel map as (driver, red register, green register, blue register).
/// Driver 0 = 0x50 (GND), driver 1 = 0x53 (VCC).
pub const LED_MAP: [(u8, u8, u8, u8); LED_COUNT] = [
    // ── Indices 0–9 ─────────────────────────────────────────────────
    (0, 0x0F, 0x1F, 0x2F),
    (0, 0x0E, 0x1E, 0x2E),
    (0, 0x0D, 0x1D, 0x2D),
    (0, 0x0C, 0x1C, 0x2C),
    (0, 0x0B, 0x1B, 0x2B),
    (0, 0x3F, 0x4F, 0x5F),
    (0, 0x3E, 0x4E, 0x5E),
    (0, 0x3D, 0x4D, 0x5D),
    (0, 0x3C, 0x4C, 0x5C),
    (0, 0x3B, 0x4B, 0x5B),
    // ── Indices 10–19 ───────────────────────────────────────────────
    (1, 0x3F, 0x4F, 0x5F),
    (1, 0x3E, 0x4E, 0x5E),
    (1, 0x3D, 0x4D, 0x5D),
    (1, 0x3C, 0x4C, 0x5C),
    (1, 0x63, 0x73, 0x83),
    (1, 0x34, 0x44, 0x54),
    (1, 0x64, 0x74, 0x84),
    (1, 0x35, 0x45, 0x55),
    (1, 0x65, 0x75, 0x85),
    (0, 0x00, 0x10, 0x20),
    // ── Indices 20–29 ───────────────────────────────────────────────
    (0, 0x01, 0x11, 0x21),
    (0, 0x02, 0x12, 0x22),
    (0, 0x03, 0x13, 0x23),
    (0, 0x04, 0x14, 0x24),
    (0, 0x05, 0x15, 0x25),
    (0, 0x06, 0x16, 0x26),
    (0, 0x07, 0x17, 0x27),
    (0, 0x08, 0x18, 0x28),
    (0, 0x09, 0x19, 0x29),
    (0, 0x0A, 0x1A, 0x2A),
    // ── Indices 30–37 ───────────────────────────────────────────────
    (1, 0x30, 0x40, 0x50),
    (1, 0x31, 0x41, 0x51),
    (1, 0x32, 0x42, 0x52),
    (1, 0x36, 0x46, 0x56),
    (1, 0x37, 0x47, 0x57),
    (1, 0x38, 0x48, 0x58),
    (1, 0x39, 0x49, 0x59),
    (0, 0x30, 0x40, 0x50),
    // ── Indices 38–47 ───────────────────────────────────────────────
    (0, 0x31, 0x41, 0x51),
    (0, 0x32, 0x42, 0x52),
    (0, 0x33, 0x43, 0x53),
    (0, 0x34, 0x44, 0x54),
    (0, 0x35, 0x45, 0x55),
    (0, 0x36, 0x46, 0x56),
    (0, 0x37, 0x47, 0x57),
    (0, 0x38, 0x48, 0x58),
    (0, 0x39, 0x49, 0x59),
    (0, 0x3A, 0x4A, 0x5A),
    // ── Indices 48–55 ───────────────────────────────────────────────
    (1, 0x60, 0x70, 0x80),
    (1, 0x61, 0x71, 0x81),
    (1, 0x62, 0x72, 0x82),
    (1, 0x66, 0x76, 0x86),
    (1, 0x67, 0x77, 0x87),
    (1, 0x68, 0x78, 0x88),
    (1, 0x69, 0x79, 0x89),
    (0, 0x60, 0x70, 0x80),
    // ── Indices 56–65 ───────────────────────────────────────────────
    (0, 0x61, 0x71, 0x81),
    (0, 0x62, 0x72, 0x82),
    (0, 0x63, 0x73, 0x83),
    (0, 0x64, 0x74, 0x84),
    (0, 0x65, 0x75, 0x85),
    (0, 0x66, 0x76, 0x86),
    (0, 0x67, 0x77, 0x87),
    (0, 0x68, 0x78, 0x88),
    (0, 0x69, 0x79, 0x89),
    (0, 0x6A, 0x7A, 0x8A),
    // ── Indices 66–70 ───────────────────────────────────────────────
    (1, 0x6F, 0x7F, 0x8F),
    (1, 0x6D, 0x7D, 0x8D),
    (1, 0x6C, 0x7C, 0x8C),
    (1, 0x6B, 0x7B, 0x8B),
    (1, 0x6A, 0x7A, 0x8A),
    // ── Indices 71–80 ───────────────────────────────────────────────
    (0, 0x90, 0xA0, 0xB0),
    (0, 0x92, 0xA2, 0xB2),
    (0, 0x93, 0xA3, 0xB3),
    (0, 0x94, 0xA4, 0xB4),
    (0, 0x95, 0xA5, 0xB5),
    (0, 0x96, 0xA6, 0xB6),
    (0, 0x97, 0xA7, 0xB7),
    (0, 0x98, 0xA8, 0xB8),
    (0, 0x99, 0xA9, 0xB9),
    (0, 0x9A, 0xAA, 0xBA),
    // ── Indices 81–87 ───────────────────────────────────────────────
    (1, 0x90, 0xA0, 0xB0),
    (1, 0x92, 0xA2, 0xB2),
    (1, 0x93, 0xA3, 0xB3),
    (1, 0x94, 0xA4, 0xB4),
    (1, 0x95, 0xA5, 0xB5),
    (1, 0x96, 0xA6, 0xB6),
    (1, 0x97, 0xA7, 0xB7),
    // ── Indices 88–92 ───────────────────────────────────────────────
    (0, 0x9F, 0xAF, 0xBF),
    (0, 0x9E, 0xAE, 0xBE),
    (0, 0x9D, 0xAD, 0xBD),
    (0, 0x9C, 0xAC, 0xBC),
    (0, 0x9B, 0xAB, 0xBB),
    // ── Indices 93–99 ───────────────────────────────────────────────
    (1, 0x9F, 0xAF, 0xBF),
    (1, 0x9D, 0xAD, 0xBD),
    (1, 0x9C, 0xAC, 0xBC),
    (1, 0x9B, 0xAB, 0xBB),
    (1, 0x9A, 0xAA, 0xBA),
    (1, 0x99, 0xA9, 0xB9),
    (1, 0x98, 0xA8, 0xB8),
    // ── Indices 100–104: Side LEDs LEFT ──────────────────────────────
    (1, 0x04, 0x14, 0x24),
    (1, 0x03, 0x13, 0x23),
    (1, 0x02, 0x12, 0x22),
    (1, 0x01, 0x11, 0x21),
    (1, 0x00, 0x10, 0x20),
    // ── Indices 105–109: Side LEDs RIGHT ─────────────────────────────
    (1, 0x05, 0x15, 0x25),
    (1, 0x06, 0x16, 0x26),
    (1, 0x07, 0x17, 0x27),
    (1, 0x08, 0x18, 0x28),
    (1, 0x09, 0x19, 0x29),
];

/// The LED map as a struct: the channel mapping of LED `index`.
pub fn led_mapping(index: usize) -> (m: LedMapping)
    requires
        index < LED_COUNT,
    ensures
        m.driver == LED_MAP@[index as int].0,
        m.r == LED_MAP@[index as int].1,
        m.g == LED_MAP@[index as int].2,
        m.b == LED_MAP@[index as int].3,
{
    let (driver, r, g, b) = LED_MAP[index];
    LedMapping { driver, r, g, b }
}

/// Every PWM register in the LED map lies below 0xC0.
pub proof fn lemma_led_map_registers()
    ensures
        forall|i: int|
            0 <= i < LED_COUNT ==> LED_MAP@[i].1 < 192 && LED_MAP@[i].2 < 192 && LED_MAP@[i].3 < 192,
{
}

pub type Rgb = (u8, u8, u8);

pub struct RgbMatrix {
    /// Colour of each LED
    pub buffer: [(u8, u8, u8); LED_COUNT],
    /// Dirty flags for each driver chip
    pub dirty1: bool,
    pub dirty2: bool,
    /// Current mode
    pub mode: u8,
    /// Animation tick counter
    pub anim_tick: u16,
    /// Current hue (0-255)
    pub hue: u8,
    /// Current saturation (0-255)
    pub sat: u8,
    /// Current brightness (value, 0-255)
    pub val: u8,
    /// Animation speed (0-255, higher = faster)
    pub speed: u8,
    /// Enabled flag
    pub enabled: bool,
    /// Suspend state
    pub suspended: bool,
    // ── Reactive hit tracking (20-entry ring buffer) ──────────────
    pub hit_count: u8,
    pub hit_index: [u8; 20],
    pub hit_x: [u8; 20],
    pub hit_y: [u8; 20],
    pub hit_tick: [u16; 20],
    // ── Framebuffer for matrix effects (digital_rain, typing_heatmap) ─
    pub frame_buffer: [[u8; 19]; 6],
    // ── Digital rain state ────────────────────────────────────────
    pub digital_rain_drop: u8,
    pub digital_rain_decay: u8,
    // ── Pixel flow state ──────────────────────────────────────────
    pub pixel_flow_state: [(u8, u8, u8); LED_COUNT],
    pub pixel_flow_wait_timer: u32,
    // ── Pixel fractal state ───────────────────────────────────────
    pub pixel_fractal_state: [[bool; 9]; 6],
    pub pixel_fractal_timer: u32,
    // ── Pixel rain timer ──────────────────────────────────────────
    pub pixel_rain_timer: u32,
    // ── Typing heatmap state ──────────────────────────────────────
    pub heatmap_decrease_timer: u16,
    pub decrease_heatmap: bool,
    /// State of the animations' 16-bit pseudo-random generator
    pub rand16_seed: u16,
}

/// The driver chip LED `i` is on (0 for the first chip).
pub open spec fn led_driver(i: int) -> u8 {
    LED_MAP@[i].0
}

/// `after` is `before` with LED `index` set to `c` by `set_color`: a change
/// marks the LED's driver chip dirty.
pub open spec fn color_set(before: RgbMatrix, after: RgbMatrix, index: int, c: Rgb) -> bool {
    if 0 <= index < LED_COUNT {
        let changed = before.buffer@[index] != c;
        &&& after.buffer@ == before.buffer@.update(index, c)
        &&& after.dirty1 == (before.dirty1 || (changed && led_driver(index) == 0))
        &&& after.dirty2 == (before.dirty2 || (changed && led_driver(index) != 0))
        &&& after == (RgbMatrix { buffer: after.buffer, dirty1: after.dirty1, dirty2: after.dirty2, ..before })
    } else {
        after == before
    }
}

/// Some LED on driver `first ? 0 : other` changes from `old_buf` to `colors`.
pub open spec fn driver_changed(old_buf: Seq<Rgb>, colors: Seq<Rgb>, first: bool, n: int) -> bool {
    exists|j: int|
        0 <= j < n && (led_driver(j) == 0) == first && #[trigger] old_buf[j] != colors[j]
}

/// `after` is `before` with every LED set, in index order, to `colors`.
pub open spec fn painted(before: RgbMatrix, after: RgbMatrix, colors: Seq<Rgb>) -> bool {
    &&& after.buffer@ == colors
    &&& after.dirty1 == (before.dirty1 || driver_changed(before.buffer@, colors, true, LED_COUNT as int))
    &&& after.dirty2 == (before.dirty2 || driver_changed(before.buffer@, colors, false, LED_COUNT as int))
    &&& after == (RgbMatrix { buffer: after.buffer, dirty1: after.dirty1, dirty2: after.dirty2, ..before })
}

/// `after` is `before` with every LED set to `c` and both chips marked dirty.
pub open spec fn all_set(before: RgbMatrix, after: RgbMatrix, c: Rgb) -> bool {
    &&& after.buffer@ == Seq::new(LED_COUNT as nat, |_i: int| c)
    &&& after == (RgbMatrix { buffer: after.buffer, dirty1: true, dirty2: true, ..before })
}

/// HSV to RGB (integer region/remainder algorithm).
pub open spec fn hsv_to_rgb_of(h: u8, s: u8, v: u8) -> Rgb {
    if s == 0 {
        (v, v, v)
    } else {
        let region = (h * 6) / 256;
        let rem = (h * 6) % 256;
        let p = ((v * (255 - s)) / 255) as u8;
        let q = ((v * (255 - (s * rem) / 256)) / 255) as u8;
        let t = ((v * (255 - (s * (255 - rem)) / 256)) / 255) as u8;
        if region == 0 {
            (v, t, p)
        } else if region == 1 {
            (q, v, p)
        } else if region == 2 {
            (p, v, t)
        } else if region == 3 {
            (p, q, v)
        } else if region == 4 {
            (t, p, v)
        } else {
            (v, p, q)
        }
    }
}

/// The bounds of the HSV channels: every channel lies between the floor
/// `v * (255 - s) / 255` and the value `v`, and the in-between ramps
/// (`s * rem / 256` and `s * (255 - rem) / 256` taken off) do too.
proof fn lemma_hsv_ramp(v: u8, s: u8, x: int)
    requires
        0 <= x <= 255,
    ensures
        ((v * (255 - s)) / 255) <= (v * (255 - (s * x) / 256)) / 255 <= v,
        (v * (255 - s)) / 255 <= v,
{
    assert((s * x) / 256 <= s) by (nonlinear_arith)
        requires
            0 <= x <= 255,
            0 <= s <= 255,
    ;
    assert(0 <= (s * x) / 256) by (nonlinear_arith)
        requires
            0 <= x,
            0 <= s,
    ;
    let d = (s * x) / 256;
    assert((v * (255 - s)) / 255 <= (v * (255 - d)) / 255 <= v) by (nonlinear_arith)
        requires
            0 <= d <= s,
            s <= 255,
            0 <= v <= 255,
    ;
    assert((v * (255 - s)) / 255 <= v) by (nonlinear_arith)
        requires
            0 <= s <= 255,
            0 <= v <= 255,
    ;
}

/// HSV colour sectors: with saturation 0 the colour is grey at `v`.
/// Otherwise the hue circle splits in six: for hues 0..=42 and 214..=255 red
/// is at full value, for 43..=127 green, for 128..=213 blue; in each sector
/// one other channel sits at the floor `v * (255 - s) / 255` (blue in
/// 0..=85, red in 86..=170, green in 171..=255) and the third lies between.
pub proof fn lemma_hsv_sectors(h: u8, s: u8, v: u8)
    ensures
        ({
            let c = hsv_to_rgb_of(h, s, v);
            let lo = (v * (255 - s)) / 255;
            &&& s == 0 ==> c == (v, v, v)
            &&& s != 0 && h <= 42 ==> c.0 == v && c.2 == lo && lo <= c.1 <= v
            &&& s != 0 && 43 <= h <= 85 ==> c.1 == v && c.2 == lo && lo <= c.0 <= v
            &&& s != 0 && 86 <= h <= 127 ==> c.1 == v && c.0 == lo && lo <= c.2 <= v
            &&& s != 0 && 128 <= h <= 170 ==> c.2 == v && c.0 == lo && lo <= c.1 <= v
            &&& s != 0 && 171 <= h <= 213 ==> c.2 == v && c.1 == lo && lo <= c.0 <= v
            &&& s != 0 && 214 <= h ==> c.0 == v && c.1 == lo && lo <= c.2 <= v
        }),
{
    if s != 0 {
        let rem = (h * 6) % 256;
        lemma_hsv_ramp(v, s, rem);
        lemma_hsv_ramp(v, s, 255 - rem);
        lemma_hsv_ramp(v, s, 255);
        assert((s * 255) / 256 < s + 1) by (nonlinear_arith)
            requires
                0 <= s <= 255,
        ;
    }
}

/// Taking more off lowers a ramp channel.
proof fn lemma_ramp_mono(v: u8, s: u8, x1: int, x2: int)
    requires
        0 <= x1 <= x2 <= 255,
    ensures
        (v * (255 - (s * x2) / 256)) / 255 <= (v * (255 - (s * x1) / 256)) / 255,
{
    assert((s * x1) / 256 <= (s * x2) / 256) by (nonlinear_arith)
        requires
            0 <= x1 <= x2,
            0 <= s,
    ;
    assert((s * x2) / 256 <= s) by (nonlinear_arith)
        requires
            x2 <= 255,
            0 <= s <= 255,
    ;
    let d1 = (s * x1) / 256;
    let d2 = (s * x2) / 256;
    assert((v * (255 - d2)) / 255 <= (v * (255 - d1)) / 255) by (nonlinear_arith)
        requires
            d1 <= d2 <= 255,
            0 <= v,
    ;
}

/// Moving along the hue circle within one sector, the in-between channel
/// rises in the sectors that start at a primary (green in 0..=42, blue in
/// 86..=127, red in 171..=213) and falls in the others (red in 43..=85,
/// green in 128..=170, blue in 214..=255).
pub proof fn lemma_hsv_hue_direction(h1: u8, h2: u8, s: u8, v: u8)
    requires
        h1 <= h2,
        s != 0,
    ensures
        ({
            let c1 = hsv_to_rgb_of(h1, s, v);
            let c2 = hsv_to_rgb_of(h2, s, v);
            &&& h2 <= 42 ==> c1.1 <= c2.1
            &&& 43 <= h1 && h2 <= 85 ==> c1.0 >= c2.0
            &&& 86 <= h1 && h2 <= 127 ==> c1.2 <= c2.2
            &&& 128 <= h1 && h2 <= 170 ==> c1.1 >= c2.1
            &&& 171 <= h1 && h2 <= 213 ==> c1.0 <= c2.0
            &&& 214 <= h1 ==> c1.2 >= c2.2
        }),
{
    let r1 = (h1 * 6) % 256;
    let r2 = (h2 * 6) % 256;
    let g1 = (h1 * 6) / 256;
    let g2 = (h2 * 6) / 256;
    lemma_hsv_ramp(v, s, r1);
    lemma_hsv_ramp(v, s, r2);
    lemma_hsv_ramp(v, s, 255 - r1);
    lemma_hsv_ramp(v, s, 255 - r2);
    if g1 == g2 {
        assert(r1 <= r2);
        lemma_ramp_mono(v, s, r1, r2);
        lemma_ramp_mono(v, s, 255 - r2, 255 - r1);
    }
}

/// HSV → RGB conversion.
pub fn hsv_to_rgb(h: u8, s: u8, v: u8) -> (c: (u8, u8, u8))
    ensures
        c == hsv_to_rgb_of(h, s, v),
{
    if s == 0 {
        return (v, v, v);
    }
    let region = (h as u16 * 6) / 256;
    let remainder = ((h as u16 * 6) % 256) as u8;
    assert(v * (255 - s) <= 255 * 255) by (nonlinear_arith)
        requires v <= 255, s <= 255;
    assert(s * remainder <= 255 * 255) by (nonlinear_arith)
        requires remainder <= 255, s <= 255;
    assert(s * (255 - remainder) <= 255 * 255) by (nonlinear_arith)
        requires remainder <= 255, s <= 255;
    let sr = s as u16 * remainder as u16 / 256;
    let sn = s as u16 * (255 - remainder as u16) / 256;
    assert(v * (255 - sr) <= 255 * 255) by (nonlinear_arith)
        requires v <= 255, sr <= 255;
    assert(v * (255 - sn) <= 255 * 255) by (nonlinear_arith)
        requires v <= 255, sn <= 255;
    let p = ((v as u16 * (255 - s as u16)) / 255) as u8;
    let q = ((v as u16 * (255 - sr)) / 255) as u8;
    let t = ((v as u16 * (255 - sn)) / 255) as u8;
    if region == 0 {
        (v, t, p)
    } else if region == 1 {
        (q, v, p)
    } else if region == 2 {
        (p, v, t)
    } else if region == 3 {
        (p, q, v)
    } else if region == 4 {
        (t, p, v)
    } else {
        (v, p, q)
    }
}

/// PWM register image of one driver chip after writing the first `n` LEDs
/// of `buf` (LEDs of chip 0 when `first`, of chip 1 otherwise).
pub open spec fn pwm_image(buf: Seq<Rgb>, first: bool, n: int) -> Seq<u8>
    decreases n,
{
    if n <= 0 {
        Seq::new(192, |_k: int| 0u8)
    } else {
        let prev = pwm_image(buf, first, n - 1);
        let i = n - 1;
        if (led_driver(i) == 0) == first {
            prev.update(LED_MAP@[i].1 as int, buf[i].0).update(LED_MAP@[i].2 as int, buf[i].1).update(
                LED_MAP@[i].3 as int,
                buf[i].2,
            )
        } else {
            prev
        }
    }
}

/// `after` is `before` with a key hit at LED `led_index` recorded (at
/// animation tick `tick`) in ring slot `hit_count % 20`; indices past the
/// last LED leave it as it was.
pub open spec fn hit_registered(before: RgbMatrix, after: RgbMatrix, led_index: u8, tick: u16) -> bool {
    if (led_index as int) < LED_COUNT {
        let slot = (before.hit_count % 20) as int;
        let pos = LED_POSITIONS@[led_index as int];
        &&& after.hit_index@ == before.hit_index@.update(slot, led_index)
        &&& after.hit_x@ == before.hit_x@.update(slot, pos.0)
        &&& after.hit_y@ == before.hit_y@.update(slot, pos.1)
        &&& after.hit_tick@ == before.hit_tick@.update(slot, tick)
        &&& after == (RgbMatrix {
            hit_index: after.hit_index,
            hit_x: after.hit_x,
            hit_y: after.hit_y,
            hit_tick: after.hit_tick,
            hit_count: ((before.hit_count + 1) % 256) as u8,
            ..before
        })
    } else {
        after == before
    }
}

/// The RGB matrix at power-up: all LEDs dark and both chips to be written,
/// mode 0 at hue 255, full saturation, value and speed 223, no hits, empty
/// effect state, the PRNG at its seed.
pub open spec fn matrix_initial(r: RgbMatrix) -> bool {
    &&& r.buffer@ == Seq::new(LED_COUNT as nat, |_i: int| (0u8, 0u8, 0u8))
    &&& r.dirty1
    &&& r.dirty2
    &&& r.mode == 0
    &&& r.anim_tick == 0
    &&& r.hue == 255
    &&& r.sat == 255
    &&& r.val == 223
    &&& r.speed == 223
    &&& r.enabled
    &&& !r.suspended
    &&& r.hit_count == 0
    &&& r.hit_index@ == Seq::new(20, |_i: int| 0u8)
    &&& r.hit_x@ == Seq::new(20, |_i: int| 0u8)
    &&& r.hit_y@ == Seq::new(20, |_i: int| 0u8)
    &&& r.hit_tick@ == Seq::new(20, |_i: int| 0u16)
    &&& forall|i: int, j: int| 0 <= i < 6 && 0 <= j < 19 ==> r.frame_buffer@[i]@[j] == 0
    &&& r.digital_rain_drop == 0
    &&& r.digital_rain_decay == 0
    &&& r.pixel_flow_state@ == Seq::new(LED_COUNT as nat, |_i: int| (0u8, 0u8, 0u8))
    &&& r.pixel_flow_wait_timer == 0
    &&& forall|i: int, j: int| 0 <= i < 6 && 0 <= j < 9 ==> !r.pixel_fractal_state@[i]@[j]
    &&& r.pixel_fractal_timer == 0
    &&& r.pixel_rain_timer == 0
    &&& r.heatmap_decrease_timer == 0
    &&& !r.decrease_heatmap
    &&& r.rand16_seed == animation::RAND16_SEED_INIT
}

impl RgbMatrix {
    pub fn new() -> (r: Self)
        ensures
            matrix_initial(r),
    {
        let r = RgbMatrix {
            buffer: [(0u8, 0u8, 0u8); LED_COUNT],
            dirty1: true,
            dirty2: true,
            mode: 0,
            anim_tick: 0,
            hue: 255,
            sat: 255,
            val: 223,
            speed: 223,
            enabled: true,
            suspended: false,
            hit_count: 0,
            hit_index: [0u8; 20],
            hit_x: [0u8; 20],
            hit_y: [0u8; 20],
            hit_tick: [0u16; 20],
            frame_buffer: [[0u8; 19]; 6],
            digital_rain_drop: 0,
            digital_rain_decay: 0,
            pixel_flow_state: [(0u8, 0u8, 0u8); LED_COUNT],
            pixel_flow_wait_timer: 0,
            pixel_fractal_state: [[false; 9]; 6],
            pixel_fractal_timer: 0,
            pixel_rain_timer: 0,
            heatmap_decrease_timer: 0,
            decrease_heatmap: false,
            rand16_seed: animation::RAND16_SEED_INIT,
        };
        assert(r.buffer@ =~= Seq::new(LED_COUNT as nat, |_i: int| (0u8, 0u8, 0u8)));
        assert(r.pixel_flow_state@ =~= Seq::new(LED_COUNT as nat, |_i: int| (0u8, 0u8, 0u8)));
        assert(r.hit_index@ =~= Seq::new(20, |_i: int| 0u8));
        assert(r.hit_x@ =~= Seq::new(20, |_i: int| 0u8));
        assert(r.hit_y@ =~= Seq::new(20, |_i: int| 0u8));
        assert(r.hit_tick@ =~= Seq::new(20, |_i: int| 0u16));
        r
    }

    /// Sets a single LED; a changed colour marks its driver chip dirty.
    /// Indices past the last LED are ignored.
    pub fn set_color(&mut self, index: usize, r: u8, g: u8, b: u8)
        ensures
            color_set(*old(self), *final(self), index as int, (r, g, b)),
    {
        if index < LED_COUNT {
            let prev = self.buffer[index];
            let changed = prev.0 != r || prev.1 != g || prev.2 != b;
            let on_first = LED_MAP[index].0 == 0;
            let d1 = self.dirty1 || (changed && on_first);
            let d2 = self.dirty2 || (changed && !on_first);
            self.buffer[index] = (r, g, b);
            self.dirty1 = d1;
            self.dirty2 = d2;
        }
    }

    /// Sets every LED, in index order, to `colors`.
    pub fn paint(&mut self, colors: &Vec<(u8, u8, u8)>)
        requires
            colors@.len() == LED_COUNT,
        ensures
            painted(*old(self), *final(self), colors@),
    {
        let mut i: usize = 0;
        while i < LED_COUNT
            invariant
                i <= LED_COUNT,
                colors@.len() == LED_COUNT,
                self.buffer@ == colors@.take(i as int) + old(self).buffer@.skip(i as int),
                self.dirty1 == (old(self).dirty1 || driver_changed(old(self).buffer@, colors@, true, i as int)),
                self.dirty2 == (old(self).dirty2 || driver_changed(old(self).buffer@, colors@, false, i as int)),
                *self == (RgbMatrix { buffer: self.buffer, dirty1: self.dirty1, dirty2: self.dirty2, ..*old(self) }),
            decreases LED_COUNT - i,
        {
            let (r, g, b) = colors[i];
            let ghost before = self.buffer@;
            self.set_color(i, r, g, b);
            assert(before[i as int] == old(self).buffer@[i as int]);
            assert(self.buffer@ =~= colors@.take(i + 1) + old(self).buffer@.skip(i + 1));
            assert(driver_changed(old(self).buffer@, colors@, true, i + 1) == (driver_changed(old(self).buffer@, colors@, true, i as int) || (led_driver(i as int) == 0 && old(self).buffer@[i as int] != colors@[i as int])));
            assert(driver_changed(old(self).buffer@, colors@, false, i + 1) == (driver_changed(old(self).buffer@, colors@, false, i as int) || (led_driver(i as int) != 0 && old(self).buffer@[i as int] != colors@[i as int])));
            i = i + 1;
        }
        assert(self.buffer@ =~= colors@);
    }

    /// Sets all LEDs and marks both chips dirty.
    pub fn set_all(&mut self, r: u8, g: u8, b: u8)
        ensures
            all_set(*old(self), *final(self), (r, g, b)),
    {
        let buf = [(r, g, b); LED_COUNT];
        assert(buf@ =~= Seq::new(LED_COUNT as nat, |_i: int| (r, g, b)));
        self.buffer = buf;
        self.dirty1 = true;
        self.dirty2 = true;
    }

    fn set_hsv_fields(&mut self, h: u8, s: u8, v: u8)
        ensures
            *final(self) == (RgbMatrix { hue: h, sat: s, val: v, ..*old(self) }),
    {
        self.hue = h;
        self.sat = s;
        self.val = v;
    }

    /// Stores the colour and sets all LEDs to it.
    pub fn set_hsv(&mut self, h: u8, s: u8, v: u8)
        ensures
            all_set(RgbMatrix { hue: h, sat: s, val: v, ..*old(self) }, *final(self), hsv_to_rgb_of(h, s, v)),
    {
        self.set_hsv_fields(h, s, v);
        let (r, g, b) = hsv_to_rgb(h, s, v);
        self.set_all(r, g, b);
    }

    /// Whether a chip needs its PWM registers rewritten.
    pub fn needs_flush(&self) -> (r: bool)
        ensures
            r == (self.dirty1 || self.dirty2),
    {
        self.dirty1 || self.dirty2
    }

    fn record_hit(&mut self, slot: usize, led_index: u8, x: u8, y: u8, tick: u16)
        requires
            slot < 20,
        ensures
            final(self).hit_index@ == old(self).hit_index@.update(slot as int, led_index),
            final(self).hit_x@ == old(self).hit_x@.update(slot as int, x),
            final(self).hit_y@ == old(self).hit_y@.update(slot as int, y),
            final(self).hit_tick@ == old(self).hit_tick@.update(slot as int, tick),
            *final(self) == (RgbMatrix {
                hit_index: final(self).hit_index,
                hit_x: final(self).hit_x,
                hit_y: final(self).hit_y,
                hit_tick: final(self).hit_tick,
                hit_count: ((old(self).hit_count + 1) % 256) as u8,
                ..*old(self)
            }),
    {
        self.hit_index[slot] = led_index;
        self.hit_x[slot] = x;
        self.hit_y[slot] = y;
        self.hit_tick[slot] = tick;
        self.hit_count = self.hit_count.wrapping_add(1);
    }

    /// Records a key hit for the reactive animations in the 20-entry ring:
    /// slot `hit_count % 20` gets the LED, its position and the animation tick
    /// of the press. `0xFF` (no LED) and out-of-range indices are ignored.
    pub fn register_hit(&mut self, led_index: u8, anim_tick_at_press: u16)
        ensures
            hit_registered(*old(self), *final(self), led_index, anim_tick_at_press),
    {
        if led_index == 0xFF {
            return;
        }
        let led = led_index as usize;
        if led < LED_COUNT {
            let slot = self.hit_count as usize % 20;
            let (x, y) = LED_POSITIONS[led];
            self.record_hit(slot, led_index, x, y, anim_tick_at_press);
        }
    }

    fn reset_mode_state(&mut self, mode: u8)
        ensures
            final(self).mode == mode,
            final(self).anim_tick == 0,
            final(self).hit_count == 0,
            forall|i: int, j: int| 0 <= i < 6 && 0 <= j < 19 ==> final(self).frame_buffer@[i]@[j] == 0,
            final(self).pixel_flow_state@ == Seq::new(LED_COUNT as nat, |_i: int| (0u8, 0u8, 0u8)),
            forall|i: int, j: int| 0 <= i < 6 && 0 <= j < 9 ==> !final(self).pixel_fractal_state@[i]@[j],
            *final(self) == (RgbMatrix {
                mode: final(self).mode,
                anim_tick: 0,
                hit_count: 0,
                frame_buffer: final(self).frame_buffer,
                pixel_flow_state: final(self).pixel_flow_state,
                pixel_fractal_state: final(self).pixel_fractal_state,
                dirty1: true,
                dirty2: true,
                ..*old(self)
            }),
    {
        let flow = [(0u8, 0u8, 0u8); LED_COUNT];
        assert(flow@ =~= Seq::new(LED_COUNT as nat, |_i: int| (0u8, 0u8, 0u8)));
        self.mode = mode;
        self.anim_tick = 0;
        self.hit_count = 0;
        self.frame_buffer = [[0u8; 19]; 6];
        self.pixel_flow_state = flow;
        self.pixel_fractal_state = [[false; 9]; 6];
        self.dirty1 = true;
        self.dirty2 = true;
    }

    /// Draws one animation frame of the current mode.
    pub fn tick_animation(&mut self)
        ensures
            animation::animation_frame(*old(self), *final(self)),
    {
        animation::tick_animation(self);
    }

    /// Cycles to the next animation mode (wrapping byte increment, modulo the
    /// number of modes), restarting the animation clock and clearing the
    /// reactive hits and the framebuffer effects.
    pub fn next_mode(&mut self)
        ensures
            final(self).mode == ((old(self).mode + 1) % 256) % (animation::ANIMATION_COUNT as int),
            final(self).anim_tick == 0,
            final(self).hit_count == 0,
            forall|i: int, j: int| 0 <= i < 6 && 0 <= j < 19 ==> final(self).frame_buffer@[i]@[j] == 0,
            final(self).pixel_flow_state@ == Seq::new(LED_COUNT as nat, |_i: int| (0u8, 0u8, 0u8)),
            forall|i: int, j: int| 0 <= i < 6 && 0 <= j < 9 ==> !final(self).pixel_fractal_state@[i]@[j],
            *final(self) == (RgbMatrix {
                mode: final(self).mode,
                anim_tick: 0,
                hit_count: 0,
                frame_buffer: final(self).frame_buffer,
                pixel_flow_state: final(self).pixel_flow_state,
                pixel_fractal_state: final(self).pixel_fractal_state,
                dirty1: true,
                dirty2: true,
                ..*old(self)
            }),
    {
        let m = self.mode.wrapping_add(1) % animation::ANIMATION_COUNT;
        self.reset_mode_state(m);
    }

    /// Builds the per-driver PWM register images (192 registers each) for a
    /// batched I2C write: each LED's colour goes to its chip's R, G and B
    /// registers, in LED order; registers without an LED stay 0.
    pub fn build_pwm_buffers(&mut self) -> (bufs: ([u8; 192], [u8; 192]))
        ensures
            bufs.0@ == pwm_image(old(self).buffer@, true, LED_COUNT as int),
            bufs.1@ == pwm_image(old(self).buffer@, false, LED_COUNT as int),
            *final(self) == *old(self),
    {
        proof {
            lemma_led_map_registers();
        }
        let mut buf1 = [0u8; 192];
        let mut buf2 = [0u8; 192];
        assert(buf1@ =~= pwm_image(self.buffer@, true, 0));
        assert(buf2@ =~= pwm_image(self.buffer@, false, 0));
        let mut i: usize = 0;
        while i < LED_COUNT
            invariant
                i <= LED_COUNT,
                buf1@ == pwm_image(self.buffer@, true, i as int),
                buf2@ == pwm_image(self.buffer@, false, i as int),
                forall|k: int|
                    0 <= k < LED_COUNT ==> LED_MAP@[k].1 < 192 && LED_MAP@[k].2 < 192 && LED_MAP@[k].3 < 192,
            decreases LED_COUNT - i,
        {
            let led = self.buffer[i];
            let (driver, r, g, b) = LED_MAP[i];
            if driver == 0 {
                buf1[r as usize] = led.0;
                buf1[g as usize] = led.1;
                buf1[b as usize] = led.2;
            } else {
                buf2[r as usize] = led.0;
                buf2[g as usize] = led.1;
                buf2[b as usize] = led.2;
            }
            i = i + 1;
        }
        (buf1, buf2)
    }
}

/// The I2C writes (chip address, register, value) held in a bounded vector.
pub uninterp spec fn i2c_writes(v: heapless::Vec<(u8, u8, u8), 8>) -> Seq<(u8, u8, u8)>;

/// `heapless::Vec::new`: an empty vector.
#[verifier::external_body]
fn i2c_writes_new() -> (v: heapless::Vec<(u8, u8, u8), 8>)
    ensures
        i2c_writes(v) == Seq::<(u8, u8, u8)>::empty(),
{
    heapless::Vec::new()
}

/// `heapless::Vec::push`: appends the write when the vector holds fewer than 8,
/// and reports whether it did; a full vector is left as it was.
#[verifier::external_body]
fn i2c_writes_push(v: &mut heapless::Vec<(u8, u8, u8), 8>, w: (u8, u8, u8)) -> (pushed: bool)
    ensures
        i2c_writes(*old(v)).len() < 8 ==> pushed && i2c_writes(*final(v)) == i2c_writes(*old(v)).push(w),
        i2c_writes(*old(v)).len() >= 8 ==> !pushed && i2c_writes(*final(v)) == i2c_writes(*old(v)),
{
    v.push(w).is_ok()
}

impl RgbMatrix {
    /// The register writes that bring both IS31FL3733 chips out of shutdown
    /// into normal operation: (chip address, register, value).
    pub fn init_sequence() -> (writes: heapless::Vec<(u8, u8, u8), 8>)
        ensures
            i2c_writes(writes) == seq![
                (DRIVER_ADDR_1, REG_SHUTDOWN, 0x01u8),
                (DRIVER_ADDR_1, REG_CONFIG, CONFIG_NORMAL),
                (DRIVER_ADDR_2, REG_SHUTDOWN, 0x01u8),
                (DRIVER_ADDR_2, REG_CONFIG, CONFIG_NORMAL),
            ],
    {
        let mut writes = i2c_writes_new();
        let _ = i2c_writes_push(&mut writes, (DRIVER_ADDR_1, REG_SHUTDOWN, 0x01));
        let _ = i2c_writes_push(&mut writes, (DRIVER_ADDR_1, REG_CONFIG, CONFIG_NORMAL));
        let _ = i2c_writes_push(&mut writes, (DRIVER_ADDR_2, REG_SHUTDOWN, 0x01));
        let _ = i2c_writes_push(&mut writes, (DRIVER_ADDR_2, REG_CONFIG, CONFIG_NORMAL));
        assert(i2c_writes(writes) =~= seq![
            (DRIVER_ADDR_1, REG_SHUTDOWN, 0x01u8),
            (DRIVER_ADDR_1, REG_CONFIG, CONFIG_NORMAL),
            (DRIVER_ADDR_2, REG_SHUTDOWN, 0x01u8),
            (DRIVER_ADDR_2, REG_CONFIG, CONFIG_NORMAL),
        ]);
        writes
    }
}

impl Default for RgbMatrix {
    fn default() -> (r: Self)
        ensures
            r.mode == 0,
            r.dirty1,
            r.dirty2,
    {
        Self::new()
    }
}

/// The LED whose red channel is register `r` of driver `d` (-1 if none).
pub open spec fn led_owner(d: u8, r: u8) -> int {
    if d == 0 && r == 0x0F {
        0
    } else if d == 0 && r == 0x0E {
        1
    } else if d == 0 && r == 0x0D {
        2
    } else if d == 0 && r == 0x0C {
        3
    } else if d == 0 && r == 0x0B {
        4
    } else if d == 0 && r == 0x3F {
        5
    } else if d == 0 && r == 0x3E {
        6
    } else if d == 0 && r == 0x3D {
        7
    } else if d == 0 && r == 0x3C {
        8
    } else if d == 0 && r == 0x3B {
        9
    } else if d == 1 && r == 0x3F {
        10
    } else if d == 1 && r == 0x3E {
        11
    } else if d == 1 && r == 0x3D {
        12
    } else if d == 1 && r == 0x3C {
        13
    } else if d == 1 && r == 0x63 {
        14
    } else if d == 1 && r == 0x34 {
        15
    } else if d == 1 && r == 0x64 {
        16
    } else if d == 1 && r == 0x35 {
        17
    } else if d == 1 && r == 0x65 {
        18
    } else if d == 0 && r == 0x00 {
        19
    } else if d == 0 && r == 0x01 {
        20
    } else if d == 0 && r == 0x02 {
        21
    } else if d == 0 && r == 0x03 {
        22
    } else if d == 0 && r == 0x04 {
        23
    } else if d == 0 && r == 0x05 {
        24
    } else if d == 0 && r == 0x06 {
        25
    } else if d == 0 && r == 0x07 {
        26
    } else if d == 0 && r == 0x08 {
        27
    } else if d == 0 && r == 0x09 {
        28
    } else if d == 0 && r == 0x0A {
        29
    } else if d == 1 && r == 0x30 {
        30
    } else if d == 1 && r == 0x31 {
        31
    } else if d == 1 && r == 0x32 {
        32
    } else if d == 1 && r == 0x36 {
        33
    } else if d == 1 && r == 0x37 {
        34
    } else if d == 1 && r == 0x38 {
        35
    } else if d == 1 && r == 0x39 {
        36
    } else if d == 0 && r == 0x30 {
        37
    } else if d == 0 && r == 0x31 {
        38
    } else if d == 0 && r == 0x32 {
        39
    } else if d == 0 && r == 0x33 {
        40
    } else if d == 0 && r == 0x34 {
        41
    } else if d == 0 && r == 0x35 {
        42
    } else if d == 0 && r == 0x36 {
        43
    } else if d == 0 && r == 0x37 {
        44
    } else if d == 0 && r == 0x38 {
        45
    } else if d == 0 && r == 0x39 {
        46
    } else if d == 0 && r == 0x3A {
        47
    } else if d == 1 && r == 0x60 {
        48
    } else if d == 1 && r == 0x61 {
        49
    } else if d == 1 && r == 0x62 {
        50
    } else if d == 1 && r == 0x66 {
        51
    } else if d == 1 && r == 0x67 {
        52
    } else if d == 1 && r == 0x68 {
        53
    } else if d == 1 && r == 0x69 {
        54
    } else if d == 0 && r == 0x60 {
        55
    } else if d == 0 && r == 0x61 {
        56
    } else if d == 0 && r == 0x62 {
        57
    } else if d == 0 && r == 0x63 {
        58
    } else if d == 0 && r == 0x64 {
        59
    } else if d == 0 && r == 0x65 {
        60
    } else if d == 0 && r == 0x66 {
        61
    } else if d == 0 && r == 0x67 {
        62
    } else if d == 0 && r == 0x68 {
        63
    } else if d == 0 && r == 0x69 {
        64
    } else if d == 0 && r == 0x6A {
        65
    } else if d == 1 && r == 0x6F {
        66
    } else if d == 1 && r == 0x6D {
        67
    } else if d == 1 && r == 0x6C {
        68
    } else if d == 1 && r == 0x6B {
        69
    } else if d == 1 && r == 0x6A {
        70
    } else if d == 0 && r == 0x90 {
        71
    } else if d == 0 && r == 0x92 {
        72
    } else if d == 0 && r == 0x93 {
        73
    } else if d == 0 && r == 0x94 {
        74
    } else if d == 0 && r == 0x95 {
        75
    } else if d == 0 && r == 0x96 {
        76
    } else if d == 0 && r == 0x97 {
        77
    } else if d == 0 && r == 0x98 {
        78
    } else if d == 0 && r == 0x99 {
        79
    } else if d == 0 && r == 0x9A {
        80
    } else if d == 1 && r == 0x90 {
        81
    } else if d == 1 && r == 0x92 {
        82
    } else if d == 1 && r == 0x93 {
        83
    } else if d == 1 && r == 0x94 {
        84
    } else if d == 1 && r == 0x95 {
        85
    } else if d == 1 && r == 0x96 {
        86
    } else if d == 1 && r == 0x97 {
        87
    } else if d == 0 && r == 0x9F {
        88
    } else if d == 0 && r == 0x9E {
        89
    } else if d == 0 && r == 0x9D {
        90
    } else if d == 0 && r == 0x9C {
        91
    } else if d == 0 && r == 0x9B {
        92
    } else if d == 1 && r == 0x9F {
        93
    } else if d == 1 && r == 0x9D {
        94
    } else if d == 1 && r == 0x9C {
        95
    } else if d == 1 && r == 0x9B {
        96
    } else if d == 1 && r == 0x9A {
        97
    } else if d == 1 && r == 0x99 {
        98
    } else if d == 1 && r == 0x98 {
        99
    } else if d == 1 && r == 0x04 {
        100
    } else if d == 1 && r == 0x03 {
        101
    } else if d == 1 && r == 0x02 {
        102
    } else if d == 1 && r == 0x01 {
        103
    } else if d == 1 && r == 0x00 {
        104
    } else if d == 1 && r == 0x05 {
        105
    } else if d == 1 && r == 0x06 {
        106
    } else if d == 1 && r == 0x07 {
        107
    } else if d == 1 && r == 0x08 {
        108
    } else if d == 1 && r == 0x09 {
        109
    } else {
        -1
    }
}

/// The register layout of the LED map: each LED's green and blue registers
/// sit 16 and 32 above its red one, in the first 16 of a block of 48, and
/// no two LEDs of one driver share a red register.
pub proof fn lemma_led_map_layout()
    ensures
        forall|i: int|
            0 <= i < LED_COUNT ==> {
                &&& #[trigger] LED_MAP@[i].2 == LED_MAP@[i].1 + 16
                &&& LED_MAP@[i].3 == LED_MAP@[i].1 + 32
                &&& LED_MAP@[i].1 % 48 < 16
                &&& LED_MAP@[i].1 < 160
                &&& LED_MAP@[i].0 <= 1
                &&& led_owner(LED_MAP@[i].0, LED_MAP@[i].1) == i
            },
{
}

/// The PWM image has one byte per register.
proof fn lemma_pwm_image_len(buf: Seq<Rgb>, first: bool, n: int)
    requires
        0 <= n <= LED_COUNT,
    ensures
        pwm_image(buf, first, n).len() == 192,
    decreases n,
{
    if n > 0 {
        lemma_pwm_image_len(buf, first, n - 1);
        lemma_led_map_layout();
        assert(LED_MAP@[n - 1].1 < 160);
    }
}

/// The layout facts of one LED's registers.
proof fn lemma_slot(i: int)
    requires
        0 <= i < LED_COUNT,
    ensures
        LED_MAP@[i].0 <= 1,
        LED_MAP@[i].2 == LED_MAP@[i].1 + 16,
        LED_MAP@[i].3 == LED_MAP@[i].1 + 32,
        LED_MAP@[i].1 % 48 < 16,
        LED_MAP@[i].1 < 160,
{
    lemma_led_map_layout();
    assert(LED_MAP@[i].2 == LED_MAP@[i].1 + 16);
}

/// Two LEDs on one driver have different red registers.
proof fn lemma_slots_distinct(i: int, j: int)
    requires
        0 <= i < LED_COUNT,
        0 <= j < LED_COUNT,
        i != j,
        LED_MAP@[i].0 == LED_MAP@[j].0,
    ensures
        LED_MAP@[i].1 != LED_MAP@[j].1,
{
    lemma_led_map_layout();
    assert(LED_MAP@[i].2 == LED_MAP@[i].1 + 16);
    assert(LED_MAP@[j].2 == LED_MAP@[j].1 + 16);
}

/// Registers of two LEDs with different red registers, each in the first 16
/// of a block of 48, never meet.
proof fn lemma_regs_apart(ri: int, rj: int)
    requires
        0 <= ri < 160,
        0 <= rj < 160,
        ri % 48 < 16,
        rj % 48 < 16,
        ri != rj,
    ensures
        ri != rj + 16,
        ri != rj + 32,
        ri + 16 != rj,
        ri + 16 != rj + 32,
        ri + 32 != rj,
        ri + 32 != rj + 16,
{
}

/// LED `i`'s three registers hold its colour once the first `n` LEDs are
/// written.
proof fn lemma_pwm_holds(buf: Seq<Rgb>, i: int, n: int)
    requires
        0 <= i < n <= LED_COUNT,
    ensures
        ({
            let img = pwm_image(buf, led_driver(i) == 0, n);
            &&& img[LED_MAP@[i].1 as int] == buf[i].0
            &&& img[LED_MAP@[i].2 as int] == buf[i].1
            &&& img[LED_MAP@[i].3 as int] == buf[i].2
        }),
    decreases n,
{
    let first = led_driver(i) == 0;
    let ri = LED_MAP@[i].1 as int;
    lemma_slot(i);
    lemma_pwm_image_len(buf, first, n - 1);
    let prev = pwm_image(buf, first, n - 1);
    let j = n - 1;
    let rj = LED_MAP@[j].1 as int;
    if j == i {
        assert(pwm_image(buf, first, n) == prev.update(ri, buf[i].0).update(ri + 16, buf[i].1).update(
            ri + 32,
            buf[i].2,
        ));
    } else {
        lemma_pwm_holds(buf, i, j);
        if (led_driver(j) == 0) == first {
            lemma_slot(j);
            lemma_slots_distinct(i, j);
            lemma_regs_apart(ri, rj);
            assert(pwm_image(buf, first, n) == prev.update(rj, buf[j].0).update(rj + 16, buf[j].1).update(
                rj + 32,
                buf[j].2,
            ));
        } else {
            assert(pwm_image(buf, first, n) == prev);
        }
    }
}

/// Each LED's PWM registers hold its colour: on its driver's PWM image, its
/// red, green and blue registers carry the red, green and blue of the
/// buffer.
pub proof fn lemma_pwm_registers_hold_colours(buf: Seq<Rgb>, i: int)
    requires
        0 <= i < LED_COUNT,
    ensures
        ({
            let img = pwm_image(buf, led_driver(i) == 0, LED_COUNT as int);
            &&& img[LED_MAP@[i].1 as int] == buf[i].0
            &&& img[LED_MAP@[i].2 as int] == buf[i].1
            &&& img[LED_MAP@[i].3 as int] == buf[i].2
        }),
{
    lemma_pwm_holds(buf, i, LED_COUNT as int);
}

} // verus!
