//! Side LED animations.
//!
//! 10 side LEDs (5 left + 5 right) at RGB matrix indices 100-109.
//! 5 modes: Wave, Mix (spectrum), Static, Breath, Off.
//! On top of the animation come the battery indicator, the system switch
//! indicator, the sleep indicator, the RF link indicator and the Caps Lock /
//! Num Lock indicators.
use vstd::prelude::*;
use crate::wireless::uart::{UartProtocol, LinkMode, RfState};

verus! {

// ── Mode constants ────────────────────────────────────────────────────
pub const SIDE_WAVE: u8 = 0;

pub const SIDE_MIX: u8 = 1;

pub const SIDE_STATIC: u8 = 2;

pub const SIDE_BREATH: u8 = 3;

pub const SIDE_OFF: u8 = 4;

// LED indices
const SIDE_INDEX: usize = 100;

const SIDE_LINE: usize = 5;

/// Left/right LED index pairs of each of the five lines, inner pair first.
const SIDE_LED_INDICES: [[usize; 2]; 5] = [
    [SIDE_INDEX + 4, SIDE_INDEX + 5],
    [SIDE_INDEX + 3, SIDE_INDEX + 6],
    [SIDE_INDEX + 2, SIDE_INDEX + 7],
    [SIDE_INDEX + 1, SIDE_INDEX + 8],
    [SIDE_INDEX, SIDE_INDEX + 9],
];

// ── Colour library ────────────────────────────────────────────────────
pub const COLOUR_LIB: [[u8; 3]; 9] = [
    [0xFF, 0x00, 0x00],  // 0: Red
    [0xFF, 0x40, 0x00],  // 1: Orange
    [0xFF, 0xFF, 0x00],  // 2: Yellow
    [0x00, 0xFF, 0x00],  // 3: Green
    [0x00, 0xFF, 0xFF],  // 4: Cyan
    [0x00, 0x00, 0xFF],  // 5: Blue
    [0x80, 0x00, 0xFF],  // 6: Purple
    [0xC0, 0xC0, 0xFF],  // 7: Lavender
    [0x00, 0x00, 0x00],  // 8: Black/Off
];

pub const SIDE_LIGHT_TABLE: [u8; 6] = [0, 32, 64, 96, 128, 160];

pub const SIDE_SPEED_TABLE: [[u8; 5]; 5] = [
    [14, 19, 25, 32, 40],
    [14, 19, 25, 32, 40],
    [50, 50, 50, 50, 50],
    [14, 19, 25, 32, 40],
    [50, 50, 50, 50, 50],
];

pub const BREATHE_TAB_LEN: usize = 128;

pub const BREATHE_TAB: [u8; BREATHE_TAB_LEN] = [
    0, 1, 2, 3, 4, 5, 6, 7, 8, 9, 10, 12, 14, 16, 18, 20,
    22, 24, 27, 30, 33, 36, 39, 42, 45, 49, 53, 57, 61, 65, 69, 73,
    77, 81, 85, 89, 94, 99, 104, 109, 114, 119, 124, 129, 134, 140, 146, 152,
    158, 164, 170, 176, 182, 188, 194, 200, 206, 213, 220, 227, 234, 241, 248, 255,
    255, 248, 241, 234, 227, 220, 213, 206, 200, 194, 188, 182, 176, 170, 164, 158,
    152, 146, 140, 134, 129, 124, 119, 114, 109, 104, 99, 94, 89, 85, 81, 77,
    73, 69, 65, 61, 57, 53, 49, 45, 42, 39, 36, 33, 30, 27, 24, 22,
    20, 18, 16, 14, 12, 10, 9, 8, 7, 6, 5, 4, 3, 2, 1, 0,
];

// ── Wave intensity table ──────────────────────────────────────────────
pub const WAVE_TAB_LEN: usize = 112;

pub const WAVE_DATA_TAB: [u8; WAVE_TAB_LEN] = [
    22, 23, 24, 25, 27, 28, 30, 31,
    33, 34, 36, 37, 39, 40, 42, 43,
    45, 47, 49, 51, 53, 55, 57, 59,
    61, 63, 65, 76, 69, 71, 73, 75,
    77, 81, 85, 89, 94, 99, 104, 109,
    114, 119, 124, 129, 134, 140, 146, 152,
    158, 164, 170, 176, 182, 188, 194, 200,
    206, 213, 220, 227, 234, 241, 248, 255,
    255, 248, 241, 234, 227, 220, 213, 206,
    200, 194, 188, 182, 176, 170, 164, 158,
    152, 146, 140, 134, 129, 124, 119, 114,
    109, 104, 99, 94, 89, 85, 81, 77,
    73, 69, 65, 61, 57, 53, 49, 45,
    42, 39, 36, 33, 30, 27, 24, 22,
];

// ── Flow rainbow colour table ─────────────────────────────────────────
pub const FLOW_COLOUR_TAB_LEN: usize = 224;

pub const FLOW_RAINBOW_COLOUR_TAB: [(u8, u8, u8); FLOW_COLOUR_TAB_LEN] = [
    (255, 8, 8), (255, 8, 8), (255, 8, 8), (255, 8, 8),
    (255, 10, 8), (255, 14, 8), (255, 18, 8), (255, 22, 8),
    (255, 26, 8), (255, 32, 8), (255, 38, 8), (255, 44, 8),
    (255, 50, 8), (255, 57, 8), (255, 65, 8), (255, 73, 8),
    (255, 81, 8), (255, 89, 8), (255, 99, 8), (255, 109, 8),
    (255, 119, 8), (255, 129, 8), (255, 140, 8), (255, 152, 8),
    (255, 164, 8), (255, 176, 8), (255, 188, 8), (255, 200, 8),
    (255, 213, 8), (255, 227, 8), (255, 241, 8), (255, 255, 8),
    (248, 255, 8), (234, 255, 8), (220, 255, 8), (206, 255, 8),
    (194, 255, 8), (182, 255, 8), (170, 255, 8), (158, 255, 8),
    (146, 255, 8), (134, 255, 8), (124, 255, 8), (114, 255, 8),
    (104, 255, 8), (94, 255, 8), (85, 255, 8), (77, 255, 8),
    (69, 255, 8), (61, 255, 8), (53, 255, 8), (47, 255, 8),
    (41, 255, 8), (35, 255, 8), (29, 255, 8), (24, 255, 8),
    (20, 255, 8), (16, 255, 8), (12, 255, 8), (8, 255, 8),
    (8, 255, 8), (8, 255, 8), (8, 255, 8), (8, 255, 8),
    (8, 255, 8), (8, 255, 8), (8, 255, 8), (8, 255, 8),
    (8, 255, 10), (8, 255, 14), (8, 255, 18), (8, 255, 22),
    (8, 255, 26), (8, 255, 32), (8, 255, 38), (8, 255, 44),
    (8, 255, 50), (8, 255, 57), (8, 255, 65), (8, 255, 73),
    (8, 255, 81), (8, 255, 89), (8, 255, 99), (8, 255, 109),
    (8, 255, 119), (8, 255, 129), (8, 255, 140), (8, 255, 152),
    (8, 255, 164), (8, 255, 176), (8, 255, 188), (8, 255, 200),
    (8, 255, 213), (8, 255, 227), (8, 255, 241), (8, 255, 255),
    (8, 248, 255), (8, 234, 255), (8, 220, 255), (8, 206, 255),
    (8, 194, 255), (8, 182, 255), (8, 170, 255), (8, 158, 255),
    (8, 146, 255), (8, 134, 255), (8, 124, 255), (8, 114, 255),
    (8, 104, 255), (8, 94, 255), (8, 85, 255), (8, 77, 255),
    (8, 69, 255), (8, 61, 255), (8, 53, 255), (8, 47, 255),
    (8, 41, 255), (8, 35, 255), (8, 29, 255), (8, 24, 255),
    (8, 20, 255), (8, 16, 255), (8, 12, 255), (8, 8, 255),
    (8, 8, 255), (8, 8, 255), (8, 8, 255), (8, 8, 255),
    (8, 8, 255), (8, 8, 255), (8, 8, 255), (8, 8, 255),
    (10, 8, 255), (14, 8, 255), (18, 8, 255), (22, 8, 255),
    (26, 8, 255), (32, 8, 255), (38, 8, 255), (44, 8, 255),
    (50, 8, 255), (57, 8, 255), (65, 8, 255), (73, 8, 255),
    (81, 8, 255), (89, 8, 255), (99, 8, 255), (109, 8, 255),
    (119, 8, 255), (129, 8, 255), (140, 8, 255), (152, 8, 255),
    (164, 8, 255), (176, 8, 255), (188, 8, 255), (200, 8, 255),
    (213, 8, 255), (227, 8, 255), (241, 8, 255), (255, 8, 255),
    (255, 8, 255), (255, 8, 255), (255, 8, 255), (255, 8, 255),
    (255, 10, 255), (255, 14, 255), (255, 18, 255), (255, 22, 255),
    (255, 26, 255), (255, 32, 255), (255, 38, 255), (255, 44, 255),
    (255, 50, 255), (255, 57, 255), (255, 65, 255), (255, 73, 255),
    (255, 81, 255), (255, 89, 255), (255, 99, 255), (255, 109, 255),
    (255, 119, 255), (255, 129, 255), (255, 140, 255), (255, 152, 255),
    (255, 164, 255), (255, 176, 255), (255, 188, 255), (255, 200, 255),
    (255, 213, 255), (255, 227, 255), (255, 241, 255), (255, 255, 255),
    (255, 248, 248), (255, 234, 234), (255, 220, 220), (255, 206, 206),
    (255, 194, 194), (255, 182, 182), (255, 170, 170), (255, 158, 158),
    (255, 146, 146), (255, 134, 134), (255, 124, 124), (255, 114, 114),
    (255, 104, 104), (255, 94, 94), (255, 85, 85), (255, 77, 77),
    (255, 69, 69), (255, 61, 61), (255, 53, 53), (255, 47, 47),
    (255, 41, 41), (255, 35, 35), (255, 29, 29), (255, 24, 24),
    (255, 20, 20), (255, 16, 16), (255, 12, 12), (255, 8, 8),
    (255, 8, 8), (255, 8, 8), (255, 8, 8), (255, 8, 8),
];

pub type Rgb = (u8, u8, u8);

// ── Side LED state ────────────────────────────────────────────────────
#[derive(Clone, Copy)]
pub struct SideLeds {
    pub mode: u8,
    pub brightness: u8,
    pub speed: u8,
    pub colour: u8,
    pub rgb_enabled: bool,
    pub play_point: u8,
    pub play_cnt: u8,
    pub play_timer: u32,
    /// Breath mode play point (kept between frames)
    pub breath_play_point: u8,
    // Battery indicator state
    pub bat_show_flag: bool,
    pub bat_show_breath: bool,
    pub bat_play_timer: u32,
    pub bat_play_point: u8,
    pub bat_show_time: u32,
    pub bat_sts_debounce: u32,
    pub bat_per_debounce: u32,
    pub charge_state: u8,
    pub bat_percent: u8,
    pub bat_init: bool,
    // RF link blink
    pub rf_blink_cnt: u8,
    pub rf_blink_timer: u32,
    pub rf_link_show_time: u16,
    pub link_state_temp: u8,
    // System/sleep show flags
    pub sys_show_flag: bool,
    pub sys_show_timer: u32,
    pub sleep_show_flag: bool,
    pub sleep_show_timer: u32,
    pub sleep_enabled: bool,
    /// Output buffer: per-LED RGB to be written to the RGB matrix
    /// (index 0 is LED 100)
    pub output: [(u8, u8, u8); 10],
}

/// The side LED state with its output buffer as a sequence.
#[verifier::ext_equal]
pub ghost struct SideView {
    pub mode: u8,
    pub brightness: u8,
    pub speed: u8,
    pub colour: u8,
    pub rgb_enabled: bool,
    pub play_point: u8,
    pub play_cnt: u8,
    pub play_timer: u32,
    pub breath_play_point: u8,
    pub bat_show_flag: bool,
    pub bat_show_breath: bool,
    pub bat_play_timer: u32,
    pub bat_play_point: u8,
    pub bat_show_time: u32,
    pub bat_sts_debounce: u32,
    pub bat_per_debounce: u32,
    pub charge_state: u8,
    pub bat_percent: u8,
    pub bat_init: bool,
    pub rf_blink_cnt: u8,
    pub rf_blink_timer: u32,
    pub rf_link_show_time: u16,
    pub link_state_temp: u8,
    pub sys_show_flag: bool,
    pub sys_show_timer: u32,
    pub sleep_show_flag: bool,
    pub sleep_show_timer: u32,
    pub sleep_enabled: bool,
    pub output: Seq<Rgb>,
}

impl View for SideLeds {
    type V = SideView;

    open spec fn view(&self) -> SideView {
        SideView {
            mode: self.mode,
            brightness: self.brightness,
            speed: self.speed,
            colour: self.colour,
            rgb_enabled: self.rgb_enabled,
            play_point: self.play_point,
            play_cnt: self.play_cnt,
            play_timer: self.play_timer,
            breath_play_point: self.breath_play_point,
            bat_show_flag: self.bat_show_flag,
            bat_show_breath: self.bat_show_breath,
            bat_play_timer: self.bat_play_timer,
            bat_play_point: self.bat_play_point,
            bat_show_time: self.bat_show_time,
            bat_sts_debounce: self.bat_sts_debounce,
            bat_per_debounce: self.bat_per_debounce,
            charge_state: self.charge_state,
            bat_percent: self.bat_percent,
            bat_init: self.bat_init,
            rf_blink_cnt: self.rf_blink_cnt,
            rf_blink_timer: self.rf_blink_timer,
            rf_link_show_time: self.rf_link_show_time,
            link_state_temp: self.link_state_temp,
            sys_show_flag: self.sys_show_flag,
            sys_show_timer: self.sys_show_timer,
            sleep_show_flag: self.sleep_show_flag,
            sleep_show_timer: self.sleep_show_timer,
            sleep_enabled: self.sleep_enabled,
            output: self.output@,
        }
    }
}

// ── Colour arithmetic ─────────────────────────────────────────────────
/// One colour component scaled by a light level: `c * (l + 1) >> 8`.
pub open spec fn light_of(c: u8, l: u8) -> u8 {
    ((c * (l + 1)) / 256) as u8
}

/// A colour scaled by a light level.
pub open spec fn lit(c: Rgb, l: u8) -> Rgb {
    (light_of(c.0, l), light_of(c.1, l), light_of(c.2, l))
}

/// Entry `i` of the colour library.
pub open spec fn colour_of(i: u8) -> Rgb {
    let c = COLOUR_LIB@[i as int];
    (c@[0], c@[1], c@[2])
}

/// A play point moved `step` places through a table of `len` entries,
/// wrapping at either end.
pub open spec fn advanced(p: u8, step: u8, len: int, forward: bool) -> u8 {
    if forward {
        ((p + step) % len) as u8
    } else if p < step {
        ((p + len - step) % len) as u8
    } else {
        (p - step) as u8
    }
}

/// The line (0 = inner pair, 4 = outer pair) of output LED `k`.
pub open spec fn line_of(k: int) -> int {
    if k < 5 {
        4 - k
    } else {
        k - 5
    }
}

/// `out` with all five left LEDs set to `c`.
pub open spec fn left_set(out: Seq<Rgb>, c: Rgb) -> Seq<Rgb> {
    Seq::new(10, |k: int| if k < 5 { c } else { out[k] })
}

/// `out` with all five right LEDs set to `c`.
pub open spec fn right_set(out: Seq<Rgb>, c: Rgb) -> Seq<Rgb> {
    Seq::new(10, |k: int| if k < 5 { out[k] } else { c })
}

/// All ten LEDs set to `c`.
pub open spec fn all_of(c: Rgb) -> Seq<Rgb> {
    Seq::new(10, |_k: int| c)
}

// ── Animation frames ──────────────────────────────────────────────────
/// The frame counter left after a frame of the mode in speed-table row `row`,
/// or `None` while the counter has not passed the frame period.
pub open spec fn frame_count(v: SideView, row: u8) -> Option<u8> {
    let period = SIDE_SPEED_TABLE@[row as int]@[v.speed as int];
    if v.play_cnt <= period {
        None
    } else {
        let c = (v.play_cnt - period) as u8;
        Some(if c > 20 { 0u8 } else { c })
    }
}

/// The colour of wave line `i` with the wave at play point `p`.
pub open spec fn wave_colour(v: SideView, p: u8, i: int) -> Rgb {
    let light = SIDE_LIGHT_TABLE@[v.brightness as int];
    if v.rgb_enabled {
        lit(FLOW_RAINBOW_COLOUR_TAB@[(p + 16 * i) % 224], light)
    } else {
        lit(lit(colour_of(v.colour), WAVE_DATA_TAB@[(p + 12 * i) % 112]), light)
    }
}

/// Wave frame: the wave moves back a step and each line takes its colour,
/// lines further out sampling further along the table.
pub open spec fn wave_frame(v: SideView) -> SideView {
    let p = if v.rgb_enabled {
        advanced(v.play_point, 3, 224, false)
    } else {
        advanced(v.play_point, 2, 112, false)
    };
    SideView { play_point: p, output: Seq::new(10, |k: int| wave_colour(v, p, line_of(k))), ..v }
}

/// Mix frame: all LEDs take the next colour of the rainbow table.
pub open spec fn mix_frame(v: SideView) -> SideView {
    let p = advanced(v.play_point, 1, 224, true);
    SideView {
        play_point: p,
        output: all_of(lit(FLOW_RAINBOW_COLOUR_TAB@[p as int], SIDE_LIGHT_TABLE@[v.brightness as int])),
        ..v
    }
}

/// Breath frame: the selected colour at the next (backward) breathing level.
pub open spec fn breath_frame(v: SideView) -> SideView {
    let p = advanced(v.breath_play_point, 1, 128, false);
    SideView {
        breath_play_point: p,
        output: all_of(
            lit(lit(colour_of(v.colour), BREATHE_TAB@[p as int]), SIDE_LIGHT_TABLE@[v.brightness as int]),
        ),
        ..v
    }
}

/// Static frame: the selected colour at the selected brightness.
pub open spec fn static_frame(v: SideView) -> SideView {
    SideView { output: all_of(lit(colour_of(v.colour), SIDE_LIGHT_TABLE@[v.brightness as int])), ..v }
}

/// Off frame: all LEDs dark.
pub open spec fn off_frame(v: SideView) -> SideView {
    SideView { output: all_of((0u8, 0u8, 0u8)), ..v }
}

/// One animation step of the current mode: a frame is drawn once the frame
/// counter passes the mode's period.
#[verifier::opaque]
pub open spec fn anim_step(v: SideView) -> SideView {
    if v.mode > SIDE_OFF {
        v
    } else {
        match frame_count(v, v.mode) {
            None => v,
            Some(c) => {
                let w = SideView { play_cnt: c, ..v };
                if v.mode == SIDE_WAVE {
                    wave_frame(w)
                } else if v.mode == SIDE_MIX {
                    mix_frame(w)
                } else if v.mode == SIDE_BREATH {
                    breath_frame(w)
                } else if v.mode == SIDE_STATIC {
                    static_frame(w)
                } else {
                    off_frame(w)
                }
            },
        }
    }
}

// ── Battery indicator ─────────────────────────────────────────────────
/// The battery level bar on the right LEDs: red up to 20%, orange up to
/// 95%, green above; one LED lit up to 20%, two up to 30%, three up to 50%,
/// four up to 70%, five above; the others dark.
pub open spec fn percent_bar(out: Seq<Rgb>, percent: u8) -> Seq<Rgb> {
    let c: Rgb = if percent <= 20 {
        (128u8, 0u8, 0u8)
    } else if percent <= 95 {
        (128u8, 64u8, 0u8)
    } else {
        (0u8, 128u8, 0u8)
    };
    let end: int = if percent <= 20 {
        0
    } else if percent <= 30 {
        1
    } else if percent <= 50 {
        2
    } else if percent <= 70 {
        3
    } else {
        4
    };
    Seq::new(
        10,
        |k: int|
            if k < 5 {
                out[k]
            } else if 9 - k <= end {
                c
            } else {
                (0u8, 0u8, 0u8)
            },
    )
}

/// Battery state after the charge-state check: a debounced change is taken
/// over (a rise of bit 0 starts the breathing indicator); a steady state
/// ends the indicator 5 s after it started unless held, and a full charge
/// (state 3) breathes.
pub open spec fn bat_charge_step(v: SideView, charge: u8, hold: bool) -> SideView {
    if v.charge_state != charge {
        if v.bat_sts_debounce > 1000 {
            let rising = (v.charge_state & 1) == 0 && (charge & 1) != 0;
            let w = if rising {
                SideView { bat_show_flag: true, bat_show_breath: true, bat_show_time: 0, ..v }
            } else {
                v
            };
            SideView { charge_state: charge, ..w }
        } else {
            v
        }
    } else {
        let a = SideView { bat_sts_debounce: 0, ..v };
        let b = if a.bat_show_time > 5000 && !hold {
            SideView { bat_show_flag: false, bat_show_breath: false, ..a }
        } else {
            a
        };
        if b.charge_state == 3 {
            SideView { bat_show_breath: true, ..b }
        } else {
            b
        }
    }
}

/// Battery state after the percentage check: a debounced change is taken
/// over; a steady level under 15% shows the indicator.
pub open spec fn bat_percent_step(v: SideView, battery: u8) -> SideView {
    if v.bat_percent != battery {
        if v.bat_per_debounce > 1000 {
            SideView { bat_percent: battery, ..v }
        } else {
            v
        }
    } else {
        let a = SideView { bat_per_debounce: 0, ..v };
        if a.bat_percent < 15 {
            SideView { bat_show_flag: true, bat_show_time: 0, ..a }
        } else {
            a
        }
    }
}

/// The battery indicator on the right LEDs: orange breathing while charging
/// (or fully charged), else the level bar; a hold shows the bar.
#[verifier::opaque]
pub open spec fn bat_step(v: SideView, charge: u8, battery: u8, hold: bool) -> SideView {
    let v1 = if v.bat_init {
        SideView { bat_init: false, bat_show_time: 0, charge_state: charge, bat_percent: battery, ..v }
    } else {
        v
    };
    let v2 = bat_charge_step(v1, charge, hold);
    let v3 = bat_percent_step(v2, battery);
    let v4 = if hold {
        SideView { bat_show_flag: true, bat_show_breath: false, bat_show_time: 0, ..v3 }
    } else {
        v3
    };
    if !v4.bat_show_flag {
        v4
    } else if v4.bat_show_breath {
        let step = v4.bat_play_timer > 10;
        let p = if step { advanced(v4.bat_play_point, 1, 128, false) } else { v4.bat_play_point };
        let level = BREATHE_TAB@[p as int];
        SideView {
            bat_play_timer: if step { 0 } else { v4.bat_play_timer },
            bat_play_point: p,
            output: right_set(v4.output, (light_of(0xFF, level), light_of(0x40, level), 0u8)),
            ..v4
        }
    } else {
        SideView { output: percent_bar(v4.output, v4.bat_percent), ..v4 }
    }
}

// ── Indicators ────────────────────────────────────────────────────────
/// A right-side indicator blinking `c` with a 500 ms half period; it ends
/// once its timer reaches 3000 ms.
pub open spec fn blink_right(out: Seq<Rgb>, timer: u32, c: Rgb) -> Seq<Rgb> {
    if (timer / 500) % 2 == 0 {
        right_set(out, c)
    } else {
        right_set(out, (0u8, 0u8, 0u8))
    }
}

/// The system switch indicator (white for 0xA2, else blue).
#[verifier::opaque]
pub open spec fn sys_step(v: SideView, sys_sw_state: u8) -> SideView {
    if v.sys_show_flag {
        let c: Rgb = if sys_sw_state == 0xA2 { (0x80u8, 0x80u8, 0x80u8) } else { (0u8, 0u8, 0x80u8) };
        SideView {
            output: blink_right(v.output, v.sys_show_timer, c),
            sys_show_flag: v.sys_show_timer < 3000,
            ..v
        }
    } else {
        v
    }
}

/// The sleep indicator (green when sleep is enabled, else red).
#[verifier::opaque]
pub open spec fn sleep_step(v: SideView) -> SideView {
    if v.sleep_show_flag {
        let c: Rgb = if v.sleep_enabled { (0u8, 0x80u8, 0u8) } else { (0x80u8, 0u8, 0u8) };
        SideView {
            output: blink_right(v.output, v.sleep_show_timer, c),
            sleep_show_flag: v.sleep_show_timer < 3000,
            ..v
        }
    } else {
        v
    }
}

/// Caps Lock (host LED bit 1, or the RF module's) lights the left side
/// white; Num Lock (host LED bit 0) the right side.
#[verifier::opaque]
pub open spec fn lock_step(v: SideView, keyboard_leds: u8, rf_led: u8) -> SideView {
    let caps = (keyboard_leds & 0x02) != 0 || (rf_led & 0x02) != 0;
    let num = (keyboard_leds & 0x01) != 0;
    let o1 = if caps { left_set(v.output, (0xFFu8, 0xFFu8, 0xFFu8)) } else { v.output };
    let o2 = if num { right_set(o1, (0xFFu8, 0xFFu8, 0xFFu8)) } else { o1 };
    SideView { output: o2, ..v }
}

/// Lock indicators by the HID LED report's bit order: host bit 1 (Caps Lock,
/// 0x02), or the RF module's Caps Lock bit, lights the five left LEDs
/// (0..5) white; host bit 0 (Num Lock, 0x01) lights the five right LEDs
/// (5..10) white. A side whose lock is off keeps its colours, and nothing
/// but the LED colours changes.
pub proof fn lemma_lock_sides(v: SideView, keyboard_leds: u8, rf_led: u8)
    requires
        v.output.len() == 10,
    ensures
        ({
            let w = lock_step(v, keyboard_leds, rf_led);
            let caps = keyboard_leds & 0x02 != 0 || rf_led & 0x02 != 0;
            let num = keyboard_leds & 0x01 != 0;
            &&& w.output.len() == 10
            &&& forall|k: int| 0 <= k < 5 ==> #[trigger] w.output[k] == (if caps { (0xFFu8, 0xFFu8, 0xFFu8) } else { v.output[k] })
            &&& forall|k: int| 5 <= k < 10 ==> #[trigger] w.output[k] == (if num { (0xFFu8, 0xFFu8, 0xFFu8) } else { v.output[k] })
            &&& w == (SideView { output: w.output, ..v })
        }),
{
    reveal(lock_step);
}

/// The link colour: green for 2.4 GHz, yellow for USB, blue for Bluetooth.
pub open spec fn link_colour(mode: LinkMode) -> Rgb {
    match mode {
        LinkMode::Rf24 => (0u8, 0x80u8, 0u8),
        LinkMode::Usb => (0x80u8, 0x80u8, 0u8),
        _ => (0u8, 0u8, 0x80u8),
    }
}

/// The RF link indicator on the left LEDs: while blinks remain, the link
/// colour for the first half of each period (250 ms while pairing, else
/// 500 ms) and dark for the second; after that the steady colour until 3 s
/// after the last `blink_rf`; then the animation shows.
#[verifier::opaque]
pub open spec fn rf_step(v: SideView, mode: LinkMode, state: RfState) -> SideView {
    let c = link_colour(mode);
    if v.rf_blink_cnt > 0 {
        let period: u32 = if state == RfState::Pairing { 250 } else { 500 };
        let shown = if v.rf_blink_timer < period / 2 { c } else { (0u8, 0u8, 0u8) };
        let w = if v.rf_blink_timer >= period {
            SideView { rf_blink_cnt: (v.rf_blink_cnt - 1) as u8, rf_blink_timer: 0, ..v }
        } else {
            v
        };
        SideView { output: left_set(w.output, shown), ..w }
    } else if v.rf_link_show_time < 3000 {
        SideView { output: left_set(v.output, c), ..v }
    } else {
        v
    }
}

/// The timers after `elapsed` milliseconds (saturating; the frame counter
/// takes the low byte of `elapsed`).
#[verifier::opaque]
pub open spec fn timers_step(v: SideView, elapsed: u32) -> SideView {
    SideView {
        play_cnt: v.play_cnt.saturating_add(elapsed as u8),
        play_timer: 0,
        rf_blink_timer: v.rf_blink_timer.saturating_add(elapsed),
        bat_play_timer: v.bat_play_timer.saturating_add(elapsed),
        bat_sts_debounce: v.bat_sts_debounce.saturating_add(elapsed),
        bat_per_debounce: v.bat_per_debounce.saturating_add(elapsed),
        bat_show_time: v.bat_show_time.saturating_add(elapsed),
        sys_show_timer: v.sys_show_timer.saturating_add(elapsed),
        sleep_show_timer: v.sleep_show_timer.saturating_add(elapsed),
        ..v
    }
}

/// One side LED update: timers, animation, battery, system and sleep
/// indicators, lock indicators, RF link indicator, in that order (later
/// layers override earlier ones), then the link-show clock, which counts in
/// 10 ms units.
pub open spec fn update_step(
    v: SideView,
    p: UartProtocol,
    elapsed: u32,
    keyboard_leds: u8,
    hold: bool,
) -> SideView {
    let v1 = timers_step(v, elapsed);
    let v2 = anim_step(v1);
    let v3 = bat_step(v2, p.rf_charge, p.rf_battery, hold);
    let v4 = sys_step(v3, p.sys_sw_state);
    let v5 = sleep_step(v4);
    let v6 = lock_step(v5, keyboard_leds, p.rf_led);
    let v7 = rf_step(v6, p.link_mode, p.rf_state);
    SideView { rf_link_show_time: v7.rf_link_show_time.saturating_add((elapsed / 10) as u16), ..v7 }
}

impl SideView {
    /// The table indices an update reads are in range: the speed for every
    /// mode, brightness and colour where the mode draws with them, the play
    /// points within their tables.
    pub open spec fn update_ok(self) -> bool {
        &&& self.mode <= SIDE_OFF ==> self.speed < 5
        &&& (self.mode == SIDE_WAVE || self.mode == SIDE_MIX || self.mode == SIDE_BREATH
            || self.mode == SIDE_STATIC) ==> self.brightness < 6
        &&& (self.mode == SIDE_BREATH || self.mode == SIDE_STATIC || (self.mode == SIDE_WAVE
            && !self.rgb_enabled)) ==> self.colour < 9
        &&& self.mode == SIDE_WAVE ==> self.play_point < (if self.rgb_enabled { 227u8 } else { 114u8 })
        &&& self.mode == SIDE_BREATH ==> self.breath_play_point <= 128
        &&& self.bat_play_point < 128
    }
}

/// The power-on state: wave mode, brightness 3, speed 2, red, rainbow on,
/// battery indicator shown at 100%, all LEDs dark.
pub open spec fn side_initial() -> SideView {
    SideView {
        mode: SIDE_WAVE,
        brightness: 3,
        speed: 2,
        colour: 0,
        rgb_enabled: true,
        play_point: 0,
        play_cnt: 0,
        play_timer: 0,
        breath_play_point: 0,
        bat_show_flag: true,
        bat_show_breath: false,
        bat_play_timer: 0,
        bat_play_point: 0,
        bat_show_time: 0,
        bat_sts_debounce: 0,
        bat_per_debounce: 0,
        charge_state: 0,
        bat_percent: 100,
        bat_init: true,
        rf_blink_cnt: 0,
        rf_blink_timer: 0,
        rf_link_show_time: 0,
        link_state_temp: 0xFF,
        sys_show_flag: false,
        sys_show_timer: 0,
        sleep_show_flag: false,
        sleep_show_timer: 0,
        sleep_enabled: true,
        output: all_of((0u8, 0u8, 0u8)),}
}

/// The fields that the index bounds speak of are kept by every step but the
/// animation and battery steps, which keep the bounds themselves.
proof fn lemma_steps_keep_ok(v: SideView, p: UartProtocol, elapsed: u32, keyboard_leds: u8, hold: bool)
    requires
        v.update_ok(),
    ensures
        timers_step(v, elapsed).update_ok(),
        anim_step(v).update_ok(),
        bat_step(v, p.rf_charge, p.rf_battery, hold).update_ok(),
        sys_step(v, p.sys_sw_state).update_ok(),
        sleep_step(v).update_ok(),
        lock_step(v, keyboard_leds, p.rf_led).update_ok(),
        rf_step(v, p.link_mode, p.rf_state).update_ok(),
{
    assert(timers_step(v, elapsed).update_ok()) by {
        reveal(timers_step);
    }
    assert(anim_step(v).update_ok()) by {
        reveal(anim_step);
    }
    assert(bat_step(v, p.rf_charge, p.rf_battery, hold).update_ok()) by {
        reveal(bat_step);
    }
    assert(sys_step(v, p.sys_sw_state).update_ok()) by {
        reveal(sys_step);
    }
    assert(sleep_step(v).update_ok()) by {
        reveal(sleep_step);
    }
    assert(lock_step(v, keyboard_leds, p.rf_led).update_ok()) by {
        reveal(lock_step);
    }
    assert(rf_step(v, p.link_mode, p.rf_state).update_ok()) by {
        reveal(rf_step);
    }
}

/// Every step of an update keeps the table indices in range.
pub proof fn lemma_update_keeps_ok(v: SideView, p: UartProtocol, elapsed: u32, keyboard_leds: u8, hold: bool)
    requires
        v.update_ok(),
    ensures
        timers_step(v, elapsed).update_ok(),
        anim_step(timers_step(v, elapsed)).update_ok(),
        update_step(v, p, elapsed, keyboard_leds, hold).update_ok(),
{
    let v1 = timers_step(v, elapsed);
    lemma_steps_keep_ok(v, p, elapsed, keyboard_leds, hold);
    let v2 = anim_step(v1);
    lemma_steps_keep_ok(v1, p, elapsed, keyboard_leds, hold);
    let v3 = bat_step(v2, p.rf_charge, p.rf_battery, hold);
    lemma_steps_keep_ok(v2, p, elapsed, keyboard_leds, hold);
    let v4 = sys_step(v3, p.sys_sw_state);
    lemma_steps_keep_ok(v3, p, elapsed, keyboard_leds, hold);
    let v5 = sleep_step(v4);
    lemma_steps_keep_ok(v4, p, elapsed, keyboard_leds, hold);
    let v6 = lock_step(v5, keyboard_leds, p.rf_led);
    lemma_steps_keep_ok(v5, p, elapsed, keyboard_leds, hold);
    let v7 = rf_step(v6, p.link_mode, p.rf_state);
    lemma_steps_keep_ok(v6, p, elapsed, keyboard_leds, hold);
    assert(v7.update_ok());
}

impl SideLeds {
    pub fn new() -> (s: Self)
        ensures
            s@ == side_initial(),
    {
        let s = SideLeds {
            mode: SIDE_WAVE,
            brightness: 3,
            speed: 2,
            colour: 0,
            rgb_enabled: true,
            play_point: 0,
            play_cnt: 0,
            play_timer: 0,
            breath_play_point: 0,
            bat_show_flag: true,
            bat_show_breath: false,
            bat_play_timer: 0,
            bat_play_point: 0,
            bat_show_time: 0,
            bat_sts_debounce: 0,
            bat_per_debounce: 0,
            charge_state: 0,
            bat_percent: 100,
            bat_init: true,
            rf_blink_cnt: 0,
            rf_blink_timer: 0,
            rf_link_show_time: 0,
            link_state_temp: 0xFF,
            sys_show_flag: false,
            sys_show_timer: 0,
            sleep_show_flag: false,
            sleep_show_timer: 0,
            sleep_enabled: true,
            output: [(0u8, 0u8, 0u8); 10],
        };
        assert(s.output@ =~= all_of((0u8, 0u8, 0u8)));
        s
    }

    /// Set left side LEDs (indices 0-4)
    fn set_left(&mut self, r: u8, g: u8, b: u8)
        ensures
            final(self)@ == (SideView { output: left_set(old(self)@.output, (r, g, b)), ..old(self)@ }),
    {
        let mut i: usize = 0;
        while i < 5
            invariant
                i <= 5,
                self.output@ == Seq::new(10, |k: int| if k < i { (r, g, b) } else { old(self).output@[k] }),
                *self == (SideLeds { output: self.output, ..*old(self) }),
            decreases 5 - i,
        {
            self.output[i] = (r, g, b);
            i = i + 1;
            assert(self.output@ =~= Seq::new(10, |k: int| if k < i { (r, g, b) } else { old(self).output@[k] }));
        }
        assert(self.output@ =~= left_set(old(self)@.output, (r, g, b)));
    }

    /// Set right side LEDs (indices 5-9)
    fn set_right(&mut self, r: u8, g: u8, b: u8)
        ensures
            final(self)@ == (SideView { output: right_set(old(self)@.output, (r, g, b)), ..old(self)@ }),
    {
        let mut i: usize = 5;
        while i < 10
            invariant
                5 <= i <= 10,
                self.output@ == Seq::new(10, |k: int| if 5 <= k < i { (r, g, b) } else { old(self).output@[k] }),
                *self == (SideLeds { output: self.output, ..*old(self) }),
            decreases 10 - i,
        {
            self.output[i] = (r, g, b);
            i = i + 1;
            assert(self.output@ =~= Seq::new(10, |k: int| if 5 <= k < i { (r, g, b) } else { old(self).output@[k] }));
        }
        assert(self.output@ =~= right_set(old(self)@.output, (r, g, b)));
    }

    /// Brightness scaling: each component times `light_temp + 1`, over 256.
    fn apply_light(r: u8, g: u8, b: u8, light_temp: u8) -> (c: (u8, u8, u8))
        ensures
            c == lit((r, g, b), light_temp),
    {
        let scale = light_temp as u16 + 1;
        assert(r * scale <= 255 * 256) by (nonlinear_arith)
            requires r <= 255, scale <= 256;
        assert(g * scale <= 255 * 256) by (nonlinear_arith)
            requires g <= 255, scale <= 256;
        assert(b * scale <= 255 * 256) by (nonlinear_arith)
            requires b <= 255, scale <= 256;
        let rr = r as u16 * scale;
        let gg = g as u16 * scale;
        let bb = b as u16 * scale;
        assert(rr >> 8 == rr / 256) by (bit_vector);
        assert(gg >> 8 == gg / 256) by (bit_vector);
        assert(bb >> 8 == bb / 256) by (bit_vector);
        ((rr >> 8) as u8, (gg >> 8) as u8, (bb >> 8) as u8)
    }

    /// Moves a play point `step` places through a table of `len` entries,
    /// wrapping at either end.
    fn advance_point(point: &mut u8, step: u8, len: usize, forward: bool)
        requires
            0 < len <= 256,
            step <= len,
        ensures
            *final(point) == advanced(*old(point), step, len as int, forward),
    {
        let p = *point as usize;
        let s = step as usize;
        if forward {
            *point = ((p + s) % len) as u8;
        } else if p < s {
            *point = ((p + len - s) % len) as u8;
        } else {
            *point = (p - s) as u8;
        }
    }

    /// The frame counter after a frame of the mode in speed-table row `row`,
    /// if the counter has passed that mode's frame period.
    fn frame_count(&self, row: u8) -> (c: Option<u8>)
        requires
            row < 5,
            self.speed < 5,
        ensures
            c == frame_count(self@, row),
    {
        let period = SIDE_SPEED_TABLE[row as usize][self.speed as usize];
        if self.play_cnt <= period {
            None
        } else {
            let c = self.play_cnt - period;
            Some(if c > 20 { 0 } else { c })
        }
    }
}

impl SideLeds {
    /// The wave frame of `s`.
    fn wave_frame(s: SideLeds) -> (r: SideLeds)
        requires
            s.brightness < 6,
            s.rgb_enabled ==> s.play_point < 227,
            !s.rgb_enabled ==> s.colour < 9 && s.play_point < 114,
        ensures
            r@ == wave_frame(s@),
    {
        let mut p = s.play_point;
        if s.rgb_enabled {
            Self::advance_point(&mut p, 3, FLOW_COLOUR_TAB_LEN, false);
        } else {
            Self::advance_point(&mut p, 2, WAVE_TAB_LEN, false);
        }
        let light = SIDE_LIGHT_TABLE[s.brightness as usize];
        let mut play_idx = p;
        let mut out = s.output;
        let mut i: usize = 0;
        while i < SIDE_LINE
            invariant
                i <= SIDE_LINE,
                s.brightness < 6,
                !s.rgb_enabled ==> s.colour < 9,
                light == SIDE_LIGHT_TABLE@[s.brightness as int],
                s.rgb_enabled ==> p < 224 && play_idx == (p + 16 * i) % 224,
                !s.rgb_enabled ==> p < 112 && play_idx == (p + 12 * i) % 112,
                p == (if s.rgb_enabled {
                    advanced(s.play_point, 3, 224, false)
                } else {
                    advanced(s.play_point, 2, 112, false)
                }),
                out@.len() == 10,
                forall|k: int|
                    0 <= k < 10 ==> #[trigger] out@[k] == (if line_of(k) < i {
                        wave_colour(s@, p, line_of(k))
                    } else {
                        s.output@[k]
                    }),
            decreases SIDE_LINE - i,
        {
            let c = if s.rgb_enabled {
                let col = FLOW_RAINBOW_COLOUR_TAB[play_idx as usize];
                proof {
                    vstd::arithmetic::div_mod::lemma_add_mod_noop((p + 16 * i) as int, 16, 224);
                }
                Self::advance_point(&mut play_idx, 16, FLOW_COLOUR_TAB_LEN, true);
                Self::apply_light(col.0, col.1, col.2, light)
            } else {
                let col = COLOUR_LIB[s.colour as usize];
                let wave_val = WAVE_DATA_TAB[play_idx as usize];
                let (r, g, b) = Self::apply_light(col[0], col[1], col[2], wave_val);
                proof {
                    vstd::arithmetic::div_mod::lemma_add_mod_noop((p + 12 * i) as int, 12, 112);
                }
                Self::advance_point(&mut play_idx, 12, WAVE_TAB_LEN, true);
                Self::apply_light(r, g, b, light)
            };
            assert(c == wave_colour(s@, p, i as int));
            let left = SIDE_LED_INDICES[i][0] - SIDE_INDEX;
            let right = SIDE_LED_INDICES[i][1] - SIDE_INDEX;
            assert(left == 4 - i && right == 5 + i);
            out[left] = c;
            out[right] = c;
            i = i + 1;
        }
        let r = SideLeds { play_point: p, output: out, ..s };
        assert(r@.output =~= wave_frame(s@).output);
        r
    }

    /// `s` with every LED set to `(r, g, b)`.
    fn fill(s: SideLeds, r: u8, g: u8, b: u8) -> (t: SideLeds)
        ensures
            t@ == (SideView { output: all_of((r, g, b)), ..s@ }),
    {
        let mut t = s;
        t.set_left(r, g, b);
        t.set_right(r, g, b);
        assert(t@.output =~= all_of((r, g, b)));
        t
    }

    /// The mix (spectrum) frame of `s`.
    fn mix_frame(s: SideLeds) -> (r: SideLeds)
        requires
            s.brightness < 6,
        ensures
            r@ == mix_frame(s@),
    {
        let mut p = s.play_point;
        Self::advance_point(&mut p, 1, FLOW_COLOUR_TAB_LEN, true);
        let col = FLOW_RAINBOW_COLOUR_TAB[p as usize];
        let (r, g, b) = Self::apply_light(col.0, col.1, col.2, SIDE_LIGHT_TABLE[s.brightness as usize]);
        Self::fill(SideLeds { play_point: p, ..s }, r, g, b)
    }

    /// The breath frame of `s`.
    fn breath_frame(s: SideLeds) -> (r: SideLeds)
        requires
            s.brightness < 6,
            s.colour < 9,
            s.breath_play_point <= 128,
        ensures
            r@ == breath_frame(s@),
    {
        let mut p = s.breath_play_point;
        Self::advance_point(&mut p, 1, BREATHE_TAB_LEN, false);
        let col = COLOUR_LIB[s.colour as usize];
        let (r, g, b) = Self::apply_light(col[0], col[1], col[2], BREATHE_TAB[p as usize]);
        let (r, g, b) = Self::apply_light(r, g, b, SIDE_LIGHT_TABLE[s.brightness as usize]);
        Self::fill(SideLeds { breath_play_point: p, ..s }, r, g, b)
    }

    /// Wave mode: a frame once the frame counter passes the mode's period.
    fn wave_show(&mut self)
        requires
            old(self).speed < 5,
            old(self).brightness < 6,
            old(self).rgb_enabled ==> old(self).play_point < 227,
            !old(self).rgb_enabled ==> old(self).colour < 9 && old(self).play_point < 114,
        ensures
            final(self)@ == (match frame_count(old(self)@, SIDE_WAVE) {
                None => old(self)@,
                Some(c) => wave_frame(SideView { play_cnt: c, ..old(self)@ }),
            }),
    {
        let next = match self.frame_count(SIDE_WAVE) {
            None => *self,
            Some(c) => Self::wave_frame(SideLeds { play_cnt: c, ..*self }),
        };
        *self = next;
    }

    /// Mix (spectrum) mode.
    fn mix_show(&mut self)
        requires
            old(self).speed < 5,
            old(self).brightness < 6,
        ensures
            final(self)@ == (match frame_count(old(self)@, SIDE_MIX) {
                None => old(self)@,
                Some(c) => mix_frame(SideView { play_cnt: c, ..old(self)@ }),
            }),
    {
        let next = match self.frame_count(SIDE_MIX) {
            None => *self,
            Some(c) => Self::mix_frame(SideLeds { play_cnt: c, ..*self }),
        };
        *self = next;
    }

    /// Breath mode.
    fn breath_show(&mut self)
        requires
            old(self).speed < 5,
            old(self).brightness < 6,
            old(self).colour < 9,
            old(self).breath_play_point <= 128,
        ensures
            final(self)@ == (match frame_count(old(self)@, SIDE_BREATH) {
                None => old(self)@,
                Some(c) => breath_frame(SideView { play_cnt: c, ..old(self)@ }),
            }),
    {
        let next = match self.frame_count(SIDE_BREATH) {
            None => *self,
            Some(c) => Self::breath_frame(SideLeds { play_cnt: c, ..*self }),
        };
        *self = next;
    }

    /// Static mode.
    fn static_show(&mut self)
        requires
            old(self).speed < 5,
            old(self).brightness < 6,
            old(self).colour < 9,
        ensures
            final(self)@ == (match frame_count(old(self)@, SIDE_STATIC) {
                None => old(self)@,
                Some(c) => static_frame(SideView { play_cnt: c, ..old(self)@ }),
            }),
    {
        let next = match self.frame_count(SIDE_STATIC) {
            None => *self,
            Some(c) => {
                let col = COLOUR_LIB[self.colour as usize];
                let (r, g, b) = Self::apply_light(col[0], col[1], col[2], SIDE_LIGHT_TABLE[self.brightness as usize]);
                Self::fill(SideLeds { play_cnt: c, ..*self }, r, g, b)
            },
        };
        *self = next;
    }

    /// Off mode.
    fn off_show(&mut self)
        requires
            old(self).speed < 5,
        ensures
            final(self)@ == (match frame_count(old(self)@, SIDE_OFF) {
                None => old(self)@,
                Some(c) => off_frame(SideView { play_cnt: c, ..old(self)@ }),
            }),
    {
        let next = match self.frame_count(SIDE_OFF) {
            None => *self,
            Some(c) => Self::fill(SideLeds { play_cnt: c, ..*self }, 0, 0, 0),
        };
        *self = next;
    }
}

impl SideLeds {
    /// Draws the current mode's animation.
    fn anim_show(&mut self)
        requires
            old(self)@.update_ok(),
        ensures
            final(self)@ == anim_step(old(self)@),
    {
        proof {
            reveal(anim_step);
        }
        match self.mode {
            SIDE_WAVE => self.wave_show(),
            SIDE_MIX => self.mix_show(),
            SIDE_BREATH => self.breath_show(),
            SIDE_STATIC => self.static_show(),
            SIDE_OFF => self.off_show(),
            _ => {},
        }
    }

    fn bat_charge(s: SideLeds, charge: u8, f_bat_hold: bool) -> (r: SideLeds)
        ensures
            r@ == bat_charge_step(s@, charge, f_bat_hold),
    {
        if s.charge_state != charge {
            if s.bat_sts_debounce > 1000 {
                let w = if (s.charge_state & 0x01) == 0 && (charge & 0x01) != 0 {
                    SideLeds { bat_show_flag: true, bat_show_breath: true, bat_show_time: 0, ..s }
                } else {
                    s
                };
                SideLeds { charge_state: charge, ..w }
            } else {
                s
            }
        } else {
            let a = SideLeds { bat_sts_debounce: 0, ..s };
            let b = if a.bat_show_time > 5000 && !f_bat_hold {
                SideLeds { bat_show_flag: false, bat_show_breath: false, ..a }
            } else {
                a
            };
            if b.charge_state == 0x03 {
                SideLeds { bat_show_breath: true, ..b }
            } else {
                b
            }
        }
    }

    fn bat_level(s: SideLeds, battery: u8) -> (r: SideLeds)
        ensures
            r@ == bat_percent_step(s@, battery),
    {
        if s.bat_percent != battery {
            if s.bat_per_debounce > 1000 {
                SideLeds { bat_percent: battery, ..s }
            } else {
                s
            }
        } else {
            let a = SideLeds { bat_per_debounce: 0, ..s };
            if a.bat_percent < 15 {
                SideLeds { bat_show_flag: true, bat_show_time: 0, ..a }
            } else {
                a
            }
        }
    }

    /// Battery indicator on the right LEDs.
    #[verifier::rlimit(50)]
    fn bat_led_show(&mut self, proto: &UartProtocol, f_bat_hold: bool)
        requires
            old(self).bat_play_point < 128,
        ensures
            final(self)@ == bat_step(old(self)@, proto.rf_charge, proto.rf_battery, f_bat_hold),
    {
        proof {
            reveal(bat_step);
        }
        let charge = proto.rf_charge;
        let battery = proto.rf_battery;
        let s0 = *self;
        let s1 = if s0.bat_init {
            SideLeds { bat_init: false, bat_show_time: 0, charge_state: charge, bat_percent: battery, ..s0 }
        } else {
            s0
        };
        let s2 = Self::bat_charge(s1, charge, f_bat_hold);
        let s3 = Self::bat_level(s2, battery);
        let s4 = if f_bat_hold {
            SideLeds { bat_show_flag: true, bat_show_breath: false, bat_show_time: 0, ..s3 }
        } else {
            s3
        };
        let next = if !s4.bat_show_flag {
            s4
        } else if s4.bat_show_breath {
            let step = s4.bat_play_timer > 10;
            let mut p = s4.bat_play_point;
            if step {
                Self::advance_point(&mut p, 1, BREATHE_TAB_LEN, false);
            }
            let level = BREATHE_TAB[p as usize];
            let (r, g, _) = Self::apply_light(0xFF, 0x40, 0, level);
            let mut t = SideLeds {
                bat_play_timer: if step { 0 } else { s4.bat_play_timer },
                bat_play_point: p,
                ..s4
            };
            t.set_right(r, g, 0);
            t
        } else {
            let mut t = s4;
            let percent = t.bat_percent;
            t.bat_percent_led(percent);
            t
        };
        *self = next;
    }

    /// The battery level bar on the right LEDs.
    pub(crate) fn bat_percent_led(&mut self, percent: u8)
        ensures
            final(self)@ == (SideView { output: percent_bar(old(self)@.output, percent), ..old(self)@ }),
    {
        let (r, g, b) = if percent <= 20 {
            (128u8, 0u8, 0u8)
        } else if percent <= 95 {
            (128u8, 64u8, 0u8)
        } else {
            (0u8, 128u8, 0u8)
        };
        let end: usize = if percent <= 20 {
            0
        } else if percent <= 30 {
            1
        } else if percent <= 50 {
            2
        } else if percent <= 70 {
            3
        } else {
            4
        };
        let ghost bar = percent_bar(old(self)@.output, percent);
        let mut i: usize = 0;
        while i < SIDE_LINE
            invariant
                i <= SIDE_LINE,
                end <= 4,
                bar == percent_bar(old(self)@.output, percent),
                bar.len() == 10,
                forall|k: int| 5 <= k < 10 ==> #[trigger] bar[k] == (if 9 - k <= end { (r, g, b) } else { (0u8, 0u8, 0u8) }),
                self.output@.len() == 10,
                forall|k: int|
                    0 <= k < 10 ==> #[trigger] self.output@[k] == (if k < 5 || 9 - k >= i {
                        old(self).output@[k]
                    } else {
                        bar[k]
                    }),
                *self == (SideLeds { output: self.output, ..*old(self) }),
            decreases SIDE_LINE - i,
        {
            if i <= end {
                self.output[9 - i] = (r, g, b);
            } else {
                self.output[9 - i] = (0, 0, 0);
            }
            i = i + 1;
        }
        assert(self@.output =~= bar);
    }

    /// The system switch indicator on the right LEDs.
    fn sys_show(&mut self, sys_sw_state: u8)
        ensures
            final(self)@ == sys_step(old(self)@, sys_sw_state),
    {
        proof {
            reveal(sys_step);
        }
        if self.sys_show_flag {
            let (r, g, b) = if sys_sw_state == 0xA2 { (0x80u8, 0x80u8, 0x80u8) } else { (0x00u8, 0x00u8, 0x80u8) };
            self.blink_right(self.sys_show_timer, r, g, b);
            self.sys_show_flag = self.sys_show_timer < 3000;
        }
    }

    /// The sleep indicator on the right LEDs.
    fn sleep_show(&mut self)
        ensures
            final(self)@ == sleep_step(old(self)@),
    {
        proof {
            reveal(sleep_step);
        }
        if self.sleep_show_flag {
            let (r, g, b) = if self.sleep_enabled { (0x00u8, 0x80u8, 0x00u8) } else { (0x80u8, 0x00u8, 0x00u8) };
            self.blink_right(self.sleep_show_timer, r, g, b);
            self.sleep_show_flag = self.sleep_show_timer < 3000;
        }
    }

    fn blink_right(&mut self, timer: u32, r: u8, g: u8, b: u8)
        ensures
            final(self)@ == (SideView { output: blink_right(old(self)@.output, timer, (r, g, b)), ..old(self)@ }),
    {
        if (timer / 500) % 2 == 0 {
            self.set_right(r, g, b);
        } else {
            self.set_right(0, 0, 0);
        }
    }

    /// Caps Lock (left) and Num Lock (right) indicators.
    fn lock_show(&mut self, keyboard_leds: u8, rf_led: u8)
        ensures
            final(self)@ == lock_step(old(self)@, keyboard_leds, rf_led),
    {
        proof {
            reveal(lock_step);
        }
        let caps_lock = (keyboard_leds & 0x02) != 0;
        if caps_lock || (rf_led & 0x02) != 0 {
            self.set_left(0xFF, 0xFF, 0xFF);
        }
        let num_lock = (keyboard_leds & 0x01) != 0;
        if num_lock {
            self.set_right(0xFF, 0xFF, 0xFF);
        }
    }

    /// RF link indicator on the left LEDs.
    fn rf_led_show(&mut self, proto: &UartProtocol)
        ensures
            final(self)@ == rf_step(old(self)@, proto.link_mode, proto.rf_state),
    {
        proof {
            reveal(rf_step);
        }
        let (r, g, b) = match proto.link_mode {
            LinkMode::Rf24 => (0x00u8, 0x80u8, 0x00u8),
            LinkMode::Usb => (0x80u8, 0x80u8, 0x00u8),
            _ => (0x00u8, 0x00u8, 0x80u8),
        };
        if self.rf_blink_cnt > 0 {
            let period: u32 = if proto.rf_state == RfState::Pairing { 250 } else { 500 };
            let on = self.rf_blink_timer < period / 2;
            let s = *self;
            let mut next = if self.rf_blink_timer >= period {
                SideLeds { rf_blink_cnt: s.rf_blink_cnt - 1, rf_blink_timer: 0, ..s }
            } else {
                s
            };
            if on {
                next.set_left(r, g, b);
            } else {
                next.set_left(0, 0, 0);
            }
            *self = next;
        } else if self.rf_link_show_time < 3000 {
            self.set_left(r, g, b);
        }
    }

    fn advance_timers(&mut self, elapsed_ms: u32)
        ensures
            final(self)@ == timers_step(old(self)@, elapsed_ms),
    {
        proof {
            reveal(timers_step);
        }
        self.play_cnt = self.play_cnt.saturating_add(elapsed_ms as u8);
        self.play_timer = 0;
        self.rf_blink_timer = self.rf_blink_timer.saturating_add(elapsed_ms);
        self.bat_play_timer = self.bat_play_timer.saturating_add(elapsed_ms);
        self.bat_sts_debounce = self.bat_sts_debounce.saturating_add(elapsed_ms);
        self.bat_per_debounce = self.bat_per_debounce.saturating_add(elapsed_ms);
        self.bat_show_time = self.bat_show_time.saturating_add(elapsed_ms);
        self.sys_show_timer = self.sys_show_timer.saturating_add(elapsed_ms);
        self.sleep_show_timer = self.sleep_show_timer.saturating_add(elapsed_ms);
    }

    /// One update, `elapsed_ms` milliseconds after the last: timers, the
    /// mode's animation, then the battery, system, sleep, lock and RF link
    /// indicators over it, then the link-show clock (in 10 ms units, so
    /// `elapsed_ms / 10` is added).
    pub fn update(&mut self, proto: &UartProtocol, elapsed_ms: u32, keyboard_leds: u8, f_bat_hold: bool)
        requires
            old(self)@.update_ok(),
        ensures
            final(self)@ == update_step(old(self)@, *proto, elapsed_ms, keyboard_leds, f_bat_hold),
            final(self)@.update_ok(),
    {
        proof {
            lemma_update_keeps_ok(old(self)@, *proto, elapsed_ms, keyboard_leds, f_bat_hold);
        }
        self.advance_timers(elapsed_ms);
        self.anim_show();
        self.bat_led_show(proto, f_bat_hold);
        self.sys_show(proto.sys_sw_state);
        self.sleep_show();
        self.lock_show(keyboard_leds, proto.rf_led);
        self.rf_led_show(proto);
        self.rf_link_show_time = self.rf_link_show_time.saturating_add((elapsed_ms / 10) as u16);
    }

    /// Trigger sleep indicator
    pub fn show_sleep(&mut self, enabled: bool)
        ensures
            final(self)@ == (SideView {
                sleep_enabled: enabled,
                sleep_show_flag: true,
                sleep_show_timer: 0,
                ..old(self)@
            }),
    {
        self.sleep_enabled = enabled;
        self.sleep_show_flag = true;
        self.sleep_show_timer = 0;
    }

    /// Trigger system switch indicator
    pub fn show_sys(&mut self)
        ensures
            final(self)@ == (SideView { sys_show_flag: true, sys_show_timer: 0, ..old(self)@ }),
    {
        self.sys_show_flag = true;
        self.sys_show_timer = 0;
    }

    /// Whether the table indices an update reads are in range.
    pub fn update_allowed(&self) -> (r: bool)
        ensures
            r == self@.update_ok(),
    {
        let m = self.mode;
        (!(m <= SIDE_OFF) || self.speed < 5)
            && (!(m == SIDE_WAVE || m == SIDE_MIX || m == SIDE_BREATH || m == SIDE_STATIC) || self.brightness < 6)
            && (!(m == SIDE_BREATH || m == SIDE_STATIC || (m == SIDE_WAVE && !self.rgb_enabled)) || self.colour < 9)
            && (!(m == SIDE_WAVE) || self.play_point < (if self.rgb_enabled { 227u8 } else { 114u8 }))
            && (!(m == SIDE_BREATH) || self.breath_play_point <= 128)
            && self.bat_play_point < 128
    }

    /// Trigger RF link blink
    pub fn blink_rf(&mut self, count: u8)
        ensures
            final(self)@ == (SideView {
                rf_blink_cnt: count,
                rf_blink_timer: 0,
                rf_link_show_time: 0,
                ..old(self)@
            }),
    {
        self.rf_blink_cnt = count;
        self.rf_blink_timer = 0;
        self.rf_link_show_time = 0;
    }

    /// Full device reset of the side LED settings.
    pub fn reset(&mut self)
        ensures
            final(self)@ == (SideView {
                mode: 0,
                brightness: 3,
                speed: 2,
                rgb_enabled: true,
                colour: 0,
                play_point: 0,
                play_cnt: 0,
                play_timer: 0,
                ..old(self)@
            }),
    {
        self.mode = 0;
        self.brightness = 3;
        self.speed = 2;
        self.rgb_enabled = true;
        self.colour = 0;
        self.play_point = 0;
        self.play_cnt = 0;
        self.play_timer = 0;
    }
}

impl Default for SideLeds {
    fn default() -> (s: Self)
        ensures
            s@ == side_initial(),
    {
        Self::new()
    }
}

} // verus!
