//! The main loop's decisions, as steps from state and input to next state
//! and the work to do: bootloader entry on a held Escape, the dial switch
//! debounce and what a stable position changes, long-press timers, the
//! reset-blink and RGB-test sequences, the battery number display, the
//! chunked I2C flush of the PWM buffers, the RF status sync and the
//! periodic report.

use vstd::prelude::*;
use crate::config::eeprom::UserConfig;
use crate::device::{Device, all_released};
use crate::led::animation::{LedView, leds_of, led_write, write_led_if};
use crate::led::rgb::{RgbMatrix, Rgb, LED_COUNT, all_set, hsv_to_rgb_of};
use crate::led::side::{SideLeds, SideView};
use crate::usb::{nkro_boot_keys, boot_keys_of};
use crate::wireless::uart::{
    UartProtocol, LinkMode, RfState, rf_state_code, link_mode_code, link_mode_of, link_cmd_sent, CMD_SET_LINK,
    CMD_RF_STS_SYSC, CMD_SET_24G_NAME, CMD_HAND, CMD_RPT_BYTE_KB, CMD_NEW_ADV, CMD_CLR_DEVICE, tx_image,
    frame_bytes, link_cmd_payload,
};
use crate::wireless::sleep::{SleepState, sleep_tick, sleep_command, frame_buf};

verus! {

// ── Bootloader entry ─────────────────────────────────────────────────
/// Milliseconds Escape must be held alone before the bootloader is entered.
pub const DFU_HOLD_MS: u16 = 3000;

/// Escape (0x29) is among the keys and no other key is.
pub open spec fn escape_alone(keys: Seq<u8>) -> bool {
    &&& exists|i: int| 0 <= i < 6 && #[trigger] keys[i] == 0x29
    &&& forall|i: int| 0 <= i < 6 ==> #[trigger] keys[i] == 0 || keys[i] == 0x29
}

/// One millisecond of the hold-Escape bootloader entry: while Escape is held
/// alone the count rises (saturating) and the bootloader is due once it
/// reaches `DFU_HOLD_MS`; any other key state resets it.
pub fn dfu_hold_step(keys: &[u8; 6], ticks: u16) -> (r: (u16, bool))
    ensures
        escape_alone(keys@) ==> r.0 == (if ticks == u16::MAX { ticks } else { (ticks + 1) as u16 })
            && r.1 == (r.0 >= DFU_HOLD_MS),
        !escape_alone(keys@) ==> r == (0u16, false),
{
    let mut esc = false;
    let mut other = false;
    let mut i: usize = 0;
    while i < 6
        invariant
            i <= 6,
            esc == (exists|j: int| 0 <= j < i && #[trigger] keys@[j] == 0x29),
            other == !(forall|j: int| 0 <= j < i ==> #[trigger] keys@[j] == 0 || keys@[j] == 0x29),
        decreases 6 - i,
    {
        let k = keys[i];
        if k == 0x29 {
            esc = true;
        } else if k != 0 {
            other = true;
        }
        i = i + 1;
    }
    if esc && !other {
        let t = ticks.saturating_add(1);
        (t, t >= DFU_HOLD_MS)
    } else {
        (0, false)
    }
}

// ── Dial switches ────────────────────────────────────────────────────
/// Milliseconds a dial position must hold before it is acted on.
pub const DIAL_STABLE_MS: u16 = 500;

/// One millisecond of a dial switch's debounce: a change restarts the count
/// at the new position; otherwise the count rises up to `DIAL_STABLE_MS`.
/// Returns the position and the count.
pub fn dial_debounce(now: bool, last: bool, count: u16) -> (r: (bool, u16))
    ensures
        r == (if now != last {
            (now, 0u16)
        } else if count < DIAL_STABLE_MS {
            (last, (count + 1) as u16)
        } else {
            (last, count)
        }),
{
    if now != last {
        (now, 0)
    } else if count < DIAL_STABLE_MS {
        (last, count + 1)
    } else {
        (last, count)
    }
}

// ── Long presses (50 ms ticks) ───────────────────────────────────────
/// 50 ms ticks a long-press key must be held.
pub const LONG_PRESS_TICKS: u16 = 60;

/// The long-press step as a function: the hold flag, the count and whether
/// the press fired.
pub open spec fn long_press_of(held: bool, delay: u16) -> (bool, u16, bool) {
    if held {
        let d = delay.wrapping_add(1);
        if d >= LONG_PRESS_TICKS { (false, d, true) } else { (true, d, false) }
    } else {
        (false, 0u16, false)
    }
}

/// The long-press timer after `n` ticks of a key held since its press.
pub open spec fn held_ticks(n: nat) -> (bool, u16, bool)
    decreases n,
{
    if n == 0 {
        (true, 0u16, false)
    } else {
        let p = held_ticks((n - 1) as nat);
        long_press_of(p.0, p.1)
    }
}

/// A long-press key held from its press fires on the 60th 50 ms tick
/// (three seconds) and not before.
pub proof fn lemma_long_press_three_seconds(n: nat)
    requires
        1 <= n <= 60,
    ensures
        held_ticks(n) == (if n < 60 { (true, n as u16, false) } else { (false, 60u16, true) }),
    decreases n,
{
    let p = held_ticks((n - 1) as nat);
    if n > 1 {
        lemma_long_press_three_seconds((n - 1) as nat);
    }
    assert(p.0 && p.1 == (n - 1) as u16);
    assert(p.1.wrapping_add(1) == n as u16);
}

/// The hold-Escape count after `n` milliseconds of Escape held alone.
pub open spec fn escape_held_ms(n: nat) -> u16
    decreases n,
{
    if n == 0 {
        0
    } else {
        let t = escape_held_ms((n - 1) as nat);
        if t == u16::MAX { t } else { (t + 1) as u16 }
    }
}

/// Escape held alone for `n` milliseconds reaches the count `n`, so the
/// bootloader is due exactly from the 3000th millisecond on.
pub proof fn lemma_escape_three_seconds(n: nat)
    requires
        n <= 3000,
    ensures
        escape_held_ms(n) == n,
        (escape_held_ms(n) >= DFU_HOLD_MS) == (n == 3000),
    decreases n,
{
    if n > 0 {
        lemma_escape_three_seconds((n - 1) as nat);
    }
}

/// One 50 ms tick of a long-press timer: while held it counts, and at
/// `LONG_PRESS_TICKS` it fires and the hold is dropped; when not held it
/// resets. Returns the hold flag, the count and whether it fired.
pub fn long_press_step(held: bool, delay: u16) -> (r: (bool, u16, bool))
    ensures
        r == long_press_of(held, delay),
{
    if held {
        let d = delay.wrapping_add(1);
        if d >= LONG_PRESS_TICKS {
            (false, d, true)
        } else {
            (true, d, false)
        }
    } else {
        (false, 0, false)
    }
}

// ── Timed light sequences ────────────────────────────────────────────
/// Phases of the reset blink (on, off, on, off, on, off).
pub const RESET_BLINK_PHASES: u8 = 6;
/// Milliseconds per reset-blink phase.
pub const RESET_BLINK_MS: u16 = 200;
/// Phases of the RGB test (one colour each).
pub const RGB_TEST_PHASES: u8 = 7;
/// Milliseconds per RGB-test phase.
pub const RGB_TEST_MS: u16 = 500;

/// The colours of the RGB test, one per phase.
pub const RGB_TEST_COLOURS: [(u8, u8, u8); 7] = [
    (0xFF, 0x00, 0x00),
    (0x00, 0xFF, 0x00),
    (0x00, 0x00, 0xFF),
    (0x80, 0x80, 0x80),
    (0x80, 0x80, 0x00),
    (0x80, 0x00, 0x80),
    (0x00, 0x80, 0x80),
];

/// One pass of a timed sequence in phase `1..=last`: on a millisecond tick
/// the timer counts down, and when it has run out the next phase starts
/// with the timer reloaded; past `last` the sequence ends (phase 0).
/// Returns the phase, the timer and whether the sequence just ended.
pub fn sequence_step(phase: u8, timer: u16, tick: bool, last: u8, reload: u16) -> (r: (u8, u16, bool))
    requires
        1 <= phase <= last,
        last < 255,
    ensures
        r == (if !tick {
            (phase, timer, false)
        } else if timer > 0 {
            (phase, (timer - 1) as u16, false)
        } else if phase + 1 > last {
            (0u8, reload, true)
        } else {
            ((phase + 1) as u8, reload, false)
        }),
{
    if !tick {
        (phase, timer, false)
    } else if timer > 0 {
        (phase, timer - 1, false)
    } else if phase + 1 > last {
        (0, reload, true)
    } else {
        (phase + 1, reload, false)
    }
}

/// The colour shown in reset-blink phase `phase`: white in odd phases, off
/// in even ones.
pub open spec fn reset_blink_colour(phase: u8) -> Rgb {
    if phase % 2 == 1 { (0xFFu8, 0xFFu8, 0xFFu8) } else { (0u8, 0u8, 0u8) }
}

/// Shows reset-blink phase `phase` on every LED.
pub fn show_reset_blink(rgb: &mut RgbMatrix, phase: u8)
    ensures
        all_set(*old(rgb), *final(rgb), reset_blink_colour(phase)),
{
    if phase % 2 == 1 {
        rgb.set_all(0xFF, 0xFF, 0xFF);
    } else {
        rgb.set_all(0, 0, 0);
    }
}

/// Shows RGB-test phase `phase` (1..=7) on every LED.
pub fn show_rgb_test(rgb: &mut RgbMatrix, phase: u8)
    requires
        1 <= phase <= RGB_TEST_PHASES,
    ensures
        all_set(*old(rgb), *final(rgb), RGB_TEST_COLOURS@[phase - 1]),
{
    let (r, g, b) = RGB_TEST_COLOURS[(phase - 1) as usize];
    rgb.set_all(r, g, b);
}

// ── Battery number ───────────────────────────────────────────────────
/// The colour of the battery number: red up to 15 %, orange up to 50 %,
/// yellow up to 80 %, green above.
pub open spec fn bat_num_colour(pct: u8) -> Rgb {
    if pct <= 15 {
        (0xFFu8, 0x00u8, 0x00u8)
    } else if pct <= 50 {
        (0xFFu8, 0x40u8, 0x00u8)
    } else if pct <= 80 {
        (0xFFu8, 0xFFu8, 0x00u8)
    } else {
        (0x00u8, 0xFFu8, 0x00u8)
    }
}

/// Whether the `j`-th bar (0..10) of the battery number is lit: the first
/// from 1 %, the `j`-th above `10 * j` %.
pub open spec fn bat_bar_lit(pct: u8, j: int) -> bool {
    if j == 0 { pct >= 1 } else { pct > 10 * j }
}

/// The LEDs after the first `n` bars of the battery number: bar `j` is LED
/// `29 - j`.
pub open spec fn bat_num_writes(v: LedView, pct: u8, n: int) -> LedView
    decreases n,
{
    if n <= 0 {
        v
    } else {
        let prev = bat_num_writes(v, pct, n - 1);
        if bat_bar_lit(pct, n - 1) { led_write(prev, 29 - (n - 1), bat_num_colour(pct)) } else { prev }
    }
}

/// Shows the battery percentage as up to ten lit keys (LEDs 29 down to 20)
/// in the colour of its range.
pub fn show_battery_number(rgb: &mut RgbMatrix, pct: u8)
    ensures
        leds_of(*final(rgb)) == bat_num_writes(leds_of(*old(rgb)), pct, 10),
        *final(rgb) == (RgbMatrix { buffer: final(rgb).buffer, dirty1: final(rgb).dirty1, dirty2: final(rgb).dirty2, ..*old(rgb) }),
{
    let c: Rgb = if pct <= 15 {
        (0xFF, 0x00, 0x00)
    } else if pct <= 50 {
        (0xFF, 0x40, 0x00)
    } else if pct <= 80 {
        (0xFF, 0xFF, 0x00)
    } else {
        (0x00, 0xFF, 0x00)
    };
    let mut j: u8 = 0;
    while j < 10
        invariant
            j <= 10,
            c == bat_num_colour(pct),
            leds_of(*rgb) == bat_num_writes(leds_of(*old(rgb)), pct, j as int),
            *rgb == (RgbMatrix { buffer: rgb.buffer, dirty1: rgb.dirty1, dirty2: rgb.dirty2, ..*old(rgb) }),
        decreases 10 - j,
    {
        let lit = if j == 0 { pct >= 1 } else { pct > 10 * j };
        write_led_if(rgb, lit, (29 - j) as usize, c);
        j = j + 1;
    }
}

// ── Side LED output ──────────────────────────────────────────────────
/// The LEDs after the first `n` side outputs are copied to LEDs 100 on.
pub open spec fn side_output_writes(v: LedView, out: Seq<Rgb>, n: int) -> LedView
    decreases n,
{
    if n <= 0 { v } else { led_write(side_output_writes(v, out, n - 1), 100 + (n - 1), out[n - 1]) }
}

/// Copies the ten side LED colours onto LEDs 100..110, over whatever the
/// animation drew there.
pub fn show_side_output(rgb: &mut RgbMatrix, out: &[(u8, u8, u8); 10])
    ensures
        leds_of(*final(rgb)) == side_output_writes(leds_of(*old(rgb)), out@, 10),
        *final(rgb) == (RgbMatrix { buffer: final(rgb).buffer, dirty1: final(rgb).dirty1, dirty2: final(rgb).dirty2, ..*old(rgb) }),
{
    let mut i: usize = 0;
    while i < 10
        invariant
            i <= 10,
            leds_of(*rgb) == side_output_writes(leds_of(*old(rgb)), out@, i as int),
            *rgb == (RgbMatrix { buffer: rgb.buffer, dirty1: rgb.dirty1, dirty2: rgb.dirty2, ..*old(rgb) }),
        decreases 10 - i,
    {
        write_led_if(rgb, true, 100 + i, out[i]);
        i = i + 1;
    }
}

// ── Chunked I2C flush ────────────────────────────────────────────────
/// The I2C work of one flush phase.
#[derive(Debug, Clone, Copy, PartialEq, Eq, Structural)]
pub enum I2cStep {
    /// Nothing to write
    Idle,
    /// Unlock the chip at this address and select its PWM page
    Unlock(u8),
    /// Write 64 PWM bytes from this buffer offset to the chip's register
    Chunk { addr: u8, reg: u8, start: usize },
}

/// The flush machine's table: what phase `phase` writes, the next phase,
/// and whether it finishes the first or the second chip. Phase 1 and 5
/// unlock a chip and skip its chunks when it is clean; 2-4 and 6-8 write
/// 64-byte chunks at registers 0x00, 0x40, 0x80.
pub open spec fn flush_table(phase: u8, dirty1: bool, dirty2: bool) -> (I2cStep, u8, bool, bool) {
    if phase == 1 {
        (I2cStep::Unlock(0x50), if dirty1 { 2u8 } else { 5u8 }, false, false)
    } else if phase == 2 {
        (I2cStep::Chunk { addr: 0x50, reg: 0x00, start: 0 }, 3u8, false, false)
    } else if phase == 3 {
        (I2cStep::Chunk { addr: 0x50, reg: 0x40, start: 64 }, 4u8, false, false)
    } else if phase == 4 {
        (I2cStep::Chunk { addr: 0x50, reg: 0x80, start: 128 }, 5u8, true, false)
    } else if phase == 5 {
        (I2cStep::Unlock(0x53), if dirty2 { 6u8 } else { 0u8 }, false, false)
    } else if phase == 6 {
        (I2cStep::Chunk { addr: 0x53, reg: 0x00, start: 0 }, 7u8, false, false)
    } else if phase == 7 {
        (I2cStep::Chunk { addr: 0x53, reg: 0x40, start: 64 }, 8u8, false, false)
    } else if phase == 8 {
        (I2cStep::Chunk { addr: 0x53, reg: 0x80, start: 128 }, 0u8, false, true)
    } else {
        (I2cStep::Idle, phase, false, false)
    }
}

/// One pass of the flush machine: the writes of `phase`, the next phase,
/// and whether the first / second chip is now clean.
pub fn i2c_flush_step(phase: u8, dirty1: bool, dirty2: bool) -> (r: (I2cStep, u8, bool, bool))
    ensures
        r == flush_table(phase, dirty1, dirty2),
{
    match phase {
        1 => (I2cStep::Unlock(0x50), if dirty1 { 2 } else { 5 }, false, false),
        2 => (I2cStep::Chunk { addr: 0x50, reg: 0x00, start: 0 }, 3, false, false),
        3 => (I2cStep::Chunk { addr: 0x50, reg: 0x40, start: 64 }, 4, false, false),
        4 => (I2cStep::Chunk { addr: 0x50, reg: 0x80, start: 128 }, 5, true, false),
        5 => (I2cStep::Unlock(0x53), if dirty2 { 6 } else { 0 }, false, false),
        6 => (I2cStep::Chunk { addr: 0x53, reg: 0x00, start: 0 }, 7, false, false),
        7 => (I2cStep::Chunk { addr: 0x53, reg: 0x40, start: 64 }, 8, false, false),
        8 => (I2cStep::Chunk { addr: 0x53, reg: 0x80, start: 128 }, 0, false, true),
        _ => (I2cStep::Idle, phase, false, false),
    }
}

/// The flush machine only moves forward: from a phase in 1..=8 the next
/// phase is a later one or 0 (done), so a flush ends within eight passes;
/// a clean chip's chunks are skipped; each chip is marked clean by its last
/// chunk and by nothing else.
pub proof fn lemma_flush_progress(phase: u8, dirty1: bool, dirty2: bool)
    requires
        1 <= phase <= 8,
    ensures
        ({
            let (_, next, clean1, clean2) = flush_table(phase, dirty1, dirty2);
            &&& next == 0 || (phase < next <= 8)
            &&& (phase == 1 && !dirty1 ==> next == 5)
            &&& (phase == 5 && !dirty2 ==> next == 0)
            &&& clean1 == (phase == 4)
            &&& clean2 == (phase == 8)
        }),
{
}

/// A flush starts when none is running, the LEDs changed and 10 ms passed
/// since the last.
pub fn flush_due(phase: u8, needs_flush: bool, flush_timer: u32) -> (r: bool)
    ensures
        r == (phase == 0 && needs_flush && flush_timer >= 10),
{
    phase == 0 && needs_flush && flush_timer >= 10
}

/// The I2C payload of a PWM chunk: the start register, then 64 bytes of
/// `buf` from `start`.
pub fn pwm_chunk(buf: &[u8; 192], reg: u8, start: usize) -> (tx: [u8; 65])
    requires
        start + 64 <= 192,
    ensures
        tx@ == seq![reg] + buf@.subrange(start as int, start + 64),
{
    let mut tx = [0u8; 65];
    tx[0] = reg;
    let mut i: usize = 0;
    while i < 64
        invariant
            i <= 64,
            start + 64 <= 192,
            tx@.len() == 65,
            tx@[0] == reg,
            forall|k: int| 0 <= k < i ==> tx@[k + 1] == #[trigger] buf@[start + k],
        decreases 64 - i,
    {
        tx[i + 1] = buf[start + i];
        i = i + 1;
    }
    assert forall|k: int| 0 <= k < 65 implies tx@[k] == (seq![reg] + buf@.subrange(start as int, start + 64))[k] by {
        if k > 0 {
            assert(tx@[(k - 1) + 1] == buf@[start + (k - 1)]);
        }
    }
    assert(tx@ =~= seq![reg] + buf@.subrange(start as int, start + 64));
    tx
}

// ── Timers ───────────────────────────────────────────────────────────
/// One millisecond of a divider that fires every `n` ticks: the count rises
/// and restarts at 0 when it reaches `n`.
pub fn divider_step(t: u32, n: u32) -> (r: (u32, bool))
    ensures
        r == (if t.wrapping_add(1) >= n { (0u32, true) } else { (t.wrapping_add(1), false) }),
{
    let next = t.wrapping_add(1);
    if next >= n { (0, true) } else { (next, false) }
}

/// One millisecond of UART receive gap detection: a frame is complete after
/// two idle milliseconds with bytes buffered. Returns the idle count and
/// whether the frame is to be finished.
pub fn rx_idle_step(rx_len: u8, idle: u32) -> (r: (u32, bool))
    ensures
        r == (if rx_len > 0 {
            if idle.wrapping_add(1) >= 2 { (0u32, true) } else { (idle.wrapping_add(1), false) }
        } else {
            (0u32, false)
        }),
{
    if rx_len > 0 {
        let next = idle.wrapping_add(1);
        if next >= 2 { (0, true) } else { (next, false) }
    } else {
        (0, false)
    }
}

/// One millisecond of the periodic keyboard report: every 200 ms over a
/// wireless link the timer restarts, and the report is resent when a key
/// was touched in the last 20 s. Returns the timer and whether to resend.
pub fn periodic_step(timer: u16, wireless: bool, no_act_time: u16) -> (r: (u16, bool))
    ensures
        r == (if timer.wrapping_add(1) >= 200 && wireless {
            (0u16, no_act_time <= 2000)
        } else {
            (timer.wrapping_add(1), false)
        }),
{
    let t = timer.wrapping_add(1);
    if t >= 200 && wireless {
        (0, no_act_time <= 2000)
    } else {
        (t, false)
    }
}

// ── Dial positions ───────────────────────────────────────────────────
/// The link dial acted on: on the USB side the link becomes USB, on the
/// wireless side the stored RF channel's link; a change releases every key
/// and asks for the channel to be sent to the RF module. `release_usb` says
/// whether the USB host must release its keys too.
pub open spec fn link_dial_done(b: Device, a: Device, usb_side: bool, release_usb: bool) -> bool {
    let target = if usb_side { LinkMode::Usb } else { link_mode_of(b.proto.rf_channel) };
    let change = if usb_side {
        b.proto.link_mode != LinkMode::Usb
    } else {
        link_mode_code(b.proto.link_mode) != b.proto.rf_channel
    };
    &&& release_usb == (usb_side && change)
    &&& if change { link_switched_to(b, a, target) } else { a == b }
}

/// The link switched to `target` with the channel to be sent to the RF
/// module, and every key released.
pub open spec fn link_switched_to(b: Device, a: Device, target: LinkMode) -> bool {
    all_released(Device { proto: UartProtocol { link_mode: target, f_send_channel: true, ..b.proto }, ..b }, a)
}

/// The OS dial acted on: the Mac side (state 0xA2) selects base layer 0
/// with NKRO off, the Windows side (0xA1) layer 2 with NKRO on; a change
/// releases every key and shows the system indicator.
pub open spec fn os_dial_done(b: Device, a: Device, mac_side: bool, changed: bool) -> bool {
    let state: u8 = if mac_side { 0xA2 } else { 0xA1 };
    let layer: usize = if mac_side { 0 } else { 2 };
    &&& changed == (b.proto.sys_sw_state != state)
    &&& if changed {
        exists|mid: Device|
            #[trigger] all_released(b, mid) && {
                &&& a.proto == (UartProtocol { sys_sw_state: state, ..mid.proto })
                &&& a.active_layers@ == mid.active_layers@.update(0, layer)
                &&& a.nkro_enabled == !mac_side
                &&& a.side@ == (SideView { sys_show_flag: true, sys_show_timer: 0, ..mid.side@ })
                &&& a == (Device {
                    proto: a.proto,
                    active_layers: a.active_layers,
                    nkro_enabled: a.nkro_enabled,
                    side: a.side,
                    ..mid
                })
            }
    } else {
        a == b
    }
}

/// The device reset's link change: a wireless link other than 2.4 GHz goes
/// back to Bluetooth 1 with both channels 1; on USB both channels become 1;
/// then the link is set.
pub open spec fn reset_link_proto(p: UartProtocol) -> UartProtocol {
    if p.link_mode != LinkMode::Usb {
        if p.link_mode != LinkMode::Rf24 {
            UartProtocol { link_mode: LinkMode::Bt1, ble_channel: 1, rf_channel: 1, ..p }
        } else {
            p
        }
    } else {
        UartProtocol { ble_channel: 1, rf_channel: 1, ..p }
    }
}

/// The settings a device reset restores: side LEDs reset, RGB matrix on in
/// mode 4 at hue 0, full saturation, value and speed (all LEDs showing that
/// colour), battery hold off, only the dial's base layer active, and the
/// settings marked for saving.
pub open spec fn defaults_restored(b: Device, a: Device) -> bool {
    let layer: usize = if b.proto.sys_sw_state == 0xA2 { 0 } else { 2 };
    &&& a.side@ == (SideView {
        mode: 0,
        brightness: 3,
        speed: 2,
        rgb_enabled: true,
        colour: 0,
        play_point: 0,
        play_cnt: 0,
        play_timer: 0,
        ..b.side@
    })
    &&& all_set(
        RgbMatrix { enabled: true, hue: 0, sat: 255, val: 255, speed: 255, mode: 4, ..b.rgb },
        a.rgb,
        hsv_to_rgb_of(0, 255, 255),
    )
    &&& a.active_layers@ == seq![layer, 0usize, 0usize, 0usize]
    &&& a == (Device {
        side: a.side,
        rgb: a.rgb,
        f_bat_hold: false,
        active_layers: a.active_layers,
        active_layer_count: 1,
        save_pending: true,
        ..b
    })
}

/// The state after key activity ends the wake-up wait: the sleep flags and
/// inactivity timer cleared, the RGB matrix on, and a handshake frame ready.
pub open spec fn woken(b: Device, a: Device) -> bool {
    &&& a.sleep.state() == (SleepState { f_wakeup_prepare: false, no_act_time: 0, ..b.sleep.state() })
    &&& a.rgb == (RgbMatrix { enabled: true, ..b.rgb })
    &&& link_cmd_sent(b.proto, a.proto, CMD_HAND)
    &&& a == (Device { sleep: a.sleep, rgb: a.rgb, proto: a.proto, ..b })
}

/// The settings saved to flash: the side LED and RGB matrix settings and
/// the sleep switch.
pub open spec fn config_of(d: Device) -> UserConfig {
    UserConfig {
        side_mode: d.side.mode,
        side_brightness: d.side.brightness,
        side_speed: d.side.speed,
        side_colour: d.side.colour,
        side_rgb: d.side.rgb_enabled,
        sleep_enable: d.sleep_enabled,
        rgb_mode: d.rgb.mode,
        rgb_hue: d.rgb.hue,
        rgb_sat: d.rgb.sat,
        rgb_val: d.rgb.val,
        rgb_speed: d.rgb.speed,
        rgb_enabled: d.rgb.enabled,
    }
}

fn set_link_for_channel(proto: &mut UartProtocol, m: LinkMode)
    ensures
        *final(proto) == (UartProtocol { link_mode: m, f_send_channel: true, ..*old(proto) }),
{
    proto.link_mode = m;
    proto.f_send_channel = true;
}

fn reset_link_fields(proto: &mut UartProtocol)
    ensures
        *final(proto) == reset_link_proto(*old(proto)),
{
    if proto.link_mode != LinkMode::Usb {
        if proto.link_mode != LinkMode::Rf24 {
            proto.link_mode = LinkMode::Bt1;
            proto.ble_channel = 1;
            proto.rf_channel = 1;
        }
    } else {
        proto.ble_channel = 1;
        proto.rf_channel = 1;
    }
}

/// Applies the device reset's link change and readies the link frame.
fn reset_link_on(proto: &mut UartProtocol)
    ensures
        link_cmd_sent(reset_link_proto(*old(proto)), *final(proto), CMD_SET_LINK),
{
    reset_link_fields(proto);
    let _ = proto.build_link_cmd(CMD_SET_LINK);
}

fn set_sys_state(proto: &mut UartProtocol, state: u8)
    ensures
        *final(proto) == (UartProtocol { sys_sw_state: state, ..*old(proto) }),
{
    proto.sys_sw_state = state;
}

impl Device {
    fn switch_link_to(&mut self, target: LinkMode)
        ensures
            link_switched_to(*old(self), *final(self), target),
    {
        set_link_for_channel(&mut self.proto, target);
        assert(*self == Device { proto: UartProtocol { link_mode: target, f_send_channel: true, ..old(self).proto }, ..*old(self) });
        self.break_all_keys();
    }

    /// Acts on the link dial's stable position.
    pub fn apply_link_dial(&mut self, usb_side: bool) -> (release_usb: bool)
        ensures
            link_dial_done(*old(self), *final(self), usb_side, release_usb),
    {
        let target = if usb_side { LinkMode::Usb } else { LinkMode::from_u8(self.proto.rf_channel) };
        let change = if usb_side {
            self.proto.link_mode != LinkMode::Usb
        } else {
            self.proto.link_mode.to_u8() != self.proto.rf_channel
        };
        if change {
            self.switch_link_to(target);
        }
        usb_side && change
    }

    /// Acts on the OS dial's stable position.
    pub fn apply_os_dial(&mut self, mac_side: bool) -> (changed: bool)
        requires
            old(self).active_layer_count <= 4,
        ensures
            os_dial_done(*old(self), *final(self), mac_side, changed),
            final(self).active_layer_count == old(self).active_layer_count,
    {
        let state: u8 = if mac_side { 0xA2 } else { 0xA1 };
        if self.proto.sys_sw_state == state {
            return false;
        }
        self.break_all_keys();
        let ghost mid = *self;
        set_sys_state(&mut self.proto, state);
        self.active_layers[0] = if mac_side { 0 } else { 2 };
        self.nkro_enabled = !mac_side;
        self.side.show_sys();
        assert(all_released(*old(self), mid));
        true
    }

    /// Switches to the link held while the link key was long-pressed (both
    /// channels follow) and readies the link frame; the board then starts
    /// advertising.
    pub fn start_link_pairing(&mut self)
        ensures
            link_cmd_sent(
                UartProtocol {
                    link_mode: link_mode_of(old(self).rf_sw_temp),
                    rf_channel: old(self).rf_sw_temp,
                    ble_channel: old(self).rf_sw_temp,
                    ..old(self).proto
                },
                final(self).proto,
                CMD_SET_LINK,
            ),
            *final(self) == (Device { proto: final(self).proto, ..*old(self) }),
    {
        let ch = self.rf_sw_temp;
        self.proto.link_mode = LinkMode::from_u8(ch);
        self.proto.rf_channel = ch;
        self.proto.ble_channel = ch;
        let _ = self.proto.build_link_cmd(CMD_SET_LINK);
    }

    /// The device reset's link change, with the link frame readied.
    pub fn reset_link(&mut self)
        ensures
            link_cmd_sent(reset_link_proto(old(self).proto), final(self).proto, CMD_SET_LINK),
            *final(self) == (Device { proto: final(self).proto, ..*old(self) }),
    {
        reset_link_on(&mut self.proto);
    }

    /// Restores the default settings after a device reset.
    pub fn restore_defaults(&mut self)
        ensures
            defaults_restored(*old(self), *final(self)),
    {
        self.side.reset();
        self.rgb.enabled = true;
        self.rgb.hue = 0;
        self.rgb.sat = 255;
        self.rgb.val = 255;
        self.rgb.speed = 255;
        self.rgb.mode = 4;
        self.rgb.set_hsv(0, 255, 255);
        self.f_bat_hold = false;
        let base: usize = if self.proto.sys_sw_state == 0xA2 { 0 } else { 2 };
        self.active_layers = [base, 0, 0, 0];
        self.active_layer_count = 1;
        self.save_config();
        assert(self.active_layers@ =~= seq![base, 0usize, 0usize, 0usize]);
    }

    /// Ends the wake-up wait on key activity.
    pub fn wake_for_keys(&mut self)
        ensures
            woken(*old(self), *final(self)),
    {
        self.sleep.f_wakeup_prepare = false;
        self.sleep.no_act_time = 0;
        self.rgb.enabled = true;
        let _ = self.proto.build_link_cmd(CMD_HAND);
    }

    /// The USB boot keyboard report of the held keys: with NKRO on, the
    /// first six keys of the NKRO bitmap, else the six key slots.
    pub fn usb_keyboard_report(&self) -> (r: (u8, [u8; 6]))
        ensures
            r.0 == self.current_mods,
            self.nkro_enabled ==> r.1@ == boot_keys_of(crate::device::nkro_bitmap(self.current_keys@)),
            !self.nkro_enabled ==> r.1 == self.current_keys,
    {
        if self.nkro_enabled {
            let bits = self.get_nkro_bitmap();
            (self.current_mods, nkro_boot_keys(&bits))
        } else {
            (self.current_mods, self.current_keys)
        }
    }

    /// The settings to save to flash.
    pub fn current_config(&self) -> (c: UserConfig)
        ensures
            c == config_of(*self),
    {
        UserConfig {
            side_mode: self.side.mode,
            side_brightness: self.side.brightness,
            side_speed: self.side.speed,
            side_colour: self.side.colour,
            side_rgb: self.side.rgb_enabled,
            sleep_enable: self.sleep_enabled,
            rgb_mode: self.rgb.mode,
            rgb_hue: self.rgb.hue,
            rgb_sat: self.rgb.sat,
            rgb_val: self.rgb.val,
            rgb_speed: self.rgb.speed,
            rgb_enabled: self.rgb.enabled,
        }
    }
}

/// The RGB matrix with the saved settings in place: mode, colour, speed and
/// on/off.
pub open spec fn rgb_with_config(r: RgbMatrix, c: UserConfig) -> RgbMatrix {
    RgbMatrix {
        mode: c.rgb_mode,
        hue: c.rgb_hue,
        sat: c.rgb_sat,
        val: c.rgb_val,
        speed: c.rgb_speed,
        enabled: c.rgb_enabled,
        ..r
    }
}

/// Saved settings applied: each side-LED, sleep and RGB setting is `c`'s;
/// in the hand-set mode 0 every LED shows the stored colour; nothing else
/// changes.
pub open spec fn config_applied(b: Device, a: Device, c: UserConfig) -> bool {
    let rgb = rgb_with_config(b.rgb, c);
    &&& config_of(a) == c
    &&& a.side == (SideLeds {
        mode: c.side_mode,
        brightness: c.side_brightness,
        speed: c.side_speed,
        colour: c.side_colour,
        rgb_enabled: c.side_rgb,
        ..b.side
    })
    &&& (c.rgb_mode == 0 ==> all_set(rgb, a.rgb, hsv_to_rgb_of(c.rgb_hue, c.rgb_sat, c.rgb_val)))
    &&& (c.rgb_mode != 0 ==> a.rgb == rgb)
    &&& a == (Device { side: a.side, rgb: a.rgb, sleep_enabled: c.sleep_enable, ..b })
}

/// The dials read at power-on: the link dial picks USB or the stored
/// wireless channel; the OS dial picks Mac (state 0xA2, base layer 0, NKRO
/// off) or Windows (0xA1, base layer 2, NKRO on). Nothing else changes.
pub open spec fn boot_dials_applied(b: Device, a: Device, usb_side: bool, mac_side: bool) -> bool {
    &&& a.proto == (UartProtocol {
        link_mode: if usb_side { LinkMode::Usb } else { link_mode_of(b.proto.rf_channel) },
        sys_sw_state: if mac_side { 0xA2u8 } else { 0xA1u8 },
        ..b.proto
    })
    &&& a.active_layers@ == b.active_layers@.update(0, if mac_side { 0usize } else { 2usize })
    &&& a.nkro_enabled == !mac_side
    &&& a == (Device { proto: a.proto, active_layers: a.active_layers, nkro_enabled: a.nkro_enabled, ..b })
}

fn set_side_config(side: &mut SideLeds, c: &UserConfig)
    ensures
        *final(side) == (SideLeds {
            mode: c.side_mode,
            brightness: c.side_brightness,
            speed: c.side_speed,
            colour: c.side_colour,
            rgb_enabled: c.side_rgb,
            ..*old(side)
        }),
{
    side.mode = c.side_mode;
    side.brightness = c.side_brightness;
    side.speed = c.side_speed;
    side.colour = c.side_colour;
    side.rgb_enabled = c.side_rgb;
}

fn set_rgb_config(rgb: &mut RgbMatrix, c: &UserConfig)
    ensures
        c.rgb_mode == 0 ==> all_set(rgb_with_config(*old(rgb), *c), *final(rgb), hsv_to_rgb_of(c.rgb_hue, c.rgb_sat, c.rgb_val)),
        c.rgb_mode != 0 ==> *final(rgb) == rgb_with_config(*old(rgb), *c),
{
    rgb.mode = c.rgb_mode;
    rgb.hue = c.rgb_hue;
    rgb.sat = c.rgb_sat;
    rgb.val = c.rgb_val;
    rgb.speed = c.rgb_speed;
    rgb.enabled = c.rgb_enabled;
    if c.rgb_mode == 0 {
        rgb.set_hsv(c.rgb_hue, c.rgb_sat, c.rgb_val);
    }
}

fn set_boot_proto(proto: &mut UartProtocol, usb_side: bool, mac_side: bool)
    ensures
        *final(proto) == (UartProtocol {
            link_mode: if usb_side { LinkMode::Usb } else { link_mode_of(old(proto).rf_channel) },
            sys_sw_state: if mac_side { 0xA2u8 } else { 0xA1u8 },
            ..*old(proto)
        }),
{
    proto.link_mode = if usb_side { LinkMode::Usb } else { LinkMode::from_u8(proto.rf_channel) };
    proto.sys_sw_state = if mac_side { 0xA2 } else { 0xA1 };
}

impl Device {
    /// Applies settings loaded from flash: side LEDs, sleep and the RGB
    /// matrix; in mode 0 the stored colour is painted on every LED.
    pub fn apply_config(&mut self, cfg: &UserConfig)
        ensures
            config_applied(*old(self), *final(self), *cfg),
    {
        set_side_config(&mut self.side, cfg);
        self.sleep_enabled = cfg.sleep_enable;
        set_rgb_config(&mut self.rgb, cfg);
    }

    /// Applies the dial positions read at power-on.
    pub fn apply_boot_dials(&mut self, usb_side: bool, mac_side: bool)
        ensures
            boot_dials_applied(*old(self), *final(self), usb_side, mac_side),
    {
        set_boot_proto(&mut self.proto, usb_side, mac_side);
        self.active_layers[0] = if mac_side { 0 } else { 2 };
        self.nkro_enabled = !mac_side;
    }
}

// ── RF status sync (200 ms) ──────────────────────────────────────────
/// What the 200 ms sync starts with.
#[derive(Debug, Clone, Copy, PartialEq, Eq, Structural)]
pub enum SyncStart {
    /// Pulse the RF module's reset line
    ResetModule,
    /// Transmit the link frame now in the TX buffer
    SendChannel,
    Nothing,
}

/// The start of the 200 ms sync: a pending module reset comes first, else a
/// pending channel update readies the link frame.
pub fn rf_sync_start(proto: &mut UartProtocol) -> (r: SyncStart)
    ensures
        old(proto).f_rf_reset ==> r == SyncStart::ResetModule
            && *final(proto) == (UartProtocol { f_rf_reset: false, ..*old(proto) }),
        !old(proto).f_rf_reset && old(proto).f_send_channel ==> r == SyncStart::SendChannel
            && link_cmd_sent(UartProtocol { f_send_channel: false, ..*old(proto) }, *final(proto), CMD_SET_LINK),
        !old(proto).f_rf_reset && !old(proto).f_send_channel ==> r == SyncStart::Nothing && *final(proto) == *old(proto),
{
    if proto.f_rf_reset {
        proto.f_rf_reset = false;
        SyncStart::ResetModule
    } else if proto.f_send_channel {
        proto.f_send_channel = false;
        let _ = proto.build_link_cmd(CMD_SET_LINK);
        SyncStart::SendChannel
    } else {
        SyncStart::Nothing
    }
}

/// The status poll of the 200 ms sync. Over a wireless link a status frame
/// is readied every time, and ten polls without an answer (`sync_lost`)
/// ask for a module reset; over USB one every ten polls (counted in
/// `prescaler`) keeps the module's battery and lock LED state fresh.
/// Returns whether a frame is to be sent.
pub fn status_poll(proto: &mut UartProtocol, prescaler: &mut u8) -> (send: bool)
    ensures
        old(proto).link_mode != LinkMode::Usb ==> {
            let lost = old(proto).sync_lost.wrapping_add(1);
            &&& send
            &&& *final(prescaler) == *old(prescaler)
            &&& link_cmd_sent(
                UartProtocol {
                    sync_lost: if lost >= 10 { 0 } else { lost },
                    f_rf_reset: if lost >= 10 { true } else { old(proto).f_rf_reset },
                    ..*old(proto)
                },
                *final(proto),
                CMD_RF_STS_SYSC,
            )
        },
        old(proto).link_mode == LinkMode::Usb ==> {
            let n = if *old(prescaler) == u8::MAX { *old(prescaler) } else { (*old(prescaler) + 1) as u8 };
            &&& send == (n >= 10)
            &&& *final(prescaler) == (if n >= 10 { 0 } else { n })
            &&& (send ==> link_cmd_sent(*old(proto), *final(proto), CMD_RF_STS_SYSC))
            &&& (!send ==> *final(proto) == *old(proto))
        },
{
    if proto.link_mode != LinkMode::Usb {
        let _ = proto.build_link_cmd(CMD_RF_STS_SYSC);
        let lost = proto.sync_lost.wrapping_add(1);
        if lost >= 10 {
            proto.sync_lost = 0;
            proto.f_rf_reset = true;
        } else {
            proto.sync_lost = lost;
        }
        true
    } else {
        let n = prescaler.saturating_add(1);
        if n >= 10 {
            *prescaler = 0;
            let _ = proto.build_link_cmd(CMD_RF_STS_SYSC);
            true
        } else {
            *prescaler = n;
            false
        }
    }
}

/// The link indicator guard while not connected: the disconnect delay
/// counts up to 10, after which each new link state blinks the RF
/// indicator (three flashes) and is noted.
pub open spec fn waiting_guard(b: Device, a: Device) -> bool {
    let st = rf_state_code(b.proto.rf_state);
    if b.proto.disconnect_delay >= 10 {
        if b.side.link_state_temp != st {
            &&& a.side@ == (SideView {
                rf_blink_cnt: 3,
                rf_blink_timer: 0,
                rf_link_show_time: 0,
                link_state_temp: st,
                ..b.side@
            })
            &&& a == (Device { side: a.side, ..b })
        } else {
            a == b
        }
    } else {
        a == (Device {
            proto: UartProtocol { disconnect_delay: (b.proto.disconnect_delay + 1) as u8, ..b.proto },
            ..b
        })
    }
}

/// The link indicator guard once connected: the delay clears and a new
/// link state is noted, with the 2.4 GHz name frame readied over 2.4 GHz.
pub open spec fn connected_guard(b: Device, a: Device, send_name: bool) -> bool {
    let st = rf_state_code(b.proto.rf_state);
    &&& send_name == (b.side.link_state_temp != st && b.proto.link_mode == LinkMode::Rf24)
    &&& connected_proto_done(b.proto, a.proto, send_name)
    &&& a.side@ == noted_if_new(b.side@, st)
    &&& a == (Device { proto: a.proto, side: a.side, ..b })
}

/// The link indicator guard of the 200 ms sync; `send_name` says whether
/// the name frame is to be sent.
pub open spec fn link_guard_done(b: Device, a: Device, send_name: bool) -> bool {
    if b.proto.rf_state != RfState::Connect {
        !send_name && waiting_guard(b, a)
    } else {
        connected_guard(b, a, send_name)
    }
}

fn note_link_state(side: &mut SideLeds, st: u8)
    ensures
        final(side)@ == (SideView { link_state_temp: st, ..old(side)@ }),
{
    side.link_state_temp = st;
}

/// The side LEDs with link state `st` noted when it is new.
pub open spec fn noted_if_new(b: SideView, st: u8) -> SideView {
    if b.link_state_temp != st { SideView { link_state_temp: st, ..b } } else { b }
}

fn note_if_new(side: &mut SideLeds, st: u8)
    ensures
        final(side)@ == noted_if_new(old(side)@, st),
{
    if side.link_state_temp != st {
        side.link_state_temp = st;
    }
}

/// The disconnect delay cleared and, when `send_name`, the 2.4 GHz name
/// frame readied.
pub open spec fn connected_proto_done(b: UartProtocol, a: UartProtocol, send_name: bool) -> bool {
    let p = UartProtocol { disconnect_delay: 0, ..b };
    &&& (send_name ==> link_cmd_sent(p, a, CMD_SET_24G_NAME))
    &&& (!send_name ==> a == p)
}

fn connected_proto(proto: &mut UartProtocol, send_name: bool)
    ensures
        connected_proto_done(*old(proto), *final(proto), send_name),
{
    proto.disconnect_delay = 0;
    if send_name {
        let _ = proto.build_link_cmd(CMD_SET_24G_NAME);
    }
}

fn count_disconnect(proto: &mut UartProtocol)
    requires
        old(proto).disconnect_delay < 10,
    ensures
        *final(proto) == (UartProtocol { disconnect_delay: (old(proto).disconnect_delay + 1) as u8, ..*old(proto) }),
{
    proto.disconnect_delay = proto.disconnect_delay + 1;
}

impl Device {
    fn guard_waiting(&mut self)
        ensures
            waiting_guard(*old(self), *final(self)),
    {
        let st = self.proto.rf_state.to_u8();
        if self.proto.disconnect_delay >= 10 {
            if self.side.link_state_temp != st {
                self.side.blink_rf(3);
                note_link_state(&mut self.side, st);
            }
        } else {
            count_disconnect(&mut self.proto);
        }
    }

    fn guard_connected(&mut self) -> (send_name: bool)
        ensures
            connected_guard(*old(self), *final(self), send_name),
    {
        let st = self.proto.rf_state.to_u8();
        let fresh = self.side.link_state_temp != st;
        let send = fresh && self.proto.link_mode == LinkMode::Rf24;
        connected_proto(&mut self.proto, send);
        note_if_new(&mut self.side, st);
        send
    }

    /// Runs the link indicator guard; returns whether the name frame is to
    /// be sent.
    pub fn link_blink_guard(&mut self) -> (send_name: bool)
        ensures
            link_guard_done(*old(self), *final(self), send_name),
    {
        if self.proto.rf_state != RfState::Connect {
            self.guard_waiting();
            false
        } else {
            self.guard_connected()
        }
    }
}

// ── Pairing, device reset and sleep steps ────────────────────────────
/// Advertising frames sent at most after a long-pressed link key.
pub const ADV_ATTEMPTS: u8 = 5;

/// Whether to send another advertising frame after `sent` of them: the
/// first always, then while the module has not acknowledged and fewer than
/// `ADV_ATTEMPTS` went out.
pub fn adv_retry(sent: u8, acked: bool) -> (r: bool)
    ensures
        r == (sent < ADV_ATTEMPTS && (sent == 0 || !acked)),
{
    sent < ADV_ATTEMPTS && (sent == 0 || !acked)
}

/// How the LED power rails change on a sleep tick.
#[derive(Debug, Clone, Copy, PartialEq, Eq, Structural)]
pub enum RailChange {
    /// Sleep began: rails off, RGB matrix off
    PowerDown,
    /// Sleep ended: rails on, RGB matrix on
    PowerUp,
    Keep,
}

/// The goto-sleep request of the RF module handed to the sleep manager.
pub open spec fn sleep_handed_off(b: Device, a: Device) -> bool {
    if b.proto.f_goto_sleep {
        &&& a.proto == (UartProtocol { f_goto_sleep: false, ..b.proto })
        &&& a.sleep.state() == (SleepState { f_goto_sleep: true, ..b.sleep.state() })
        &&& a == (Device { proto: a.proto, sleep: a.sleep, ..b })
    } else {
        a == b
    }
}

/// One tick of the sleep manager against the protocol; `frame` is the
/// command it framed.
pub open spec fn sleep_ticked(b: Device, a: Device, usb_suspended: bool, frame: Option<heapless::Vec<u8, 64>>) -> bool {
    &&& a.sleep.wf()
    &&& a.sleep.state() == sleep_tick(b.sleep.state(), b.proto.link_mode, b.proto.rf_state, usb_suspended)
    &&& match sleep_command(b.sleep.state(), b.proto.rf_state) {
        Some(cmd) => {
            &&& link_cmd_sent(b.proto, a.proto, cmd)
            &&& frame matches Some(v) && frame_buf(v) == frame_bytes(cmd, 0, link_cmd_payload(b.proto.link_mode, cmd))
        },
        None => a.proto == b.proto && frame is None,
    }
    &&& a == (Device { sleep: a.sleep, proto: a.proto, ..b })
}

/// The rails after a sleep tick: entering the wake-up wait powers the LEDs
/// down, leaving it powers them up.
pub open spec fn rails_switched(b: Device, a: Device, was_waiting: bool, change: RailChange) -> bool {
    let now = b.sleep.f_wakeup_prepare;
    if !was_waiting && now {
        change == RailChange::PowerDown && a == (Device { rgb: RgbMatrix { enabled: false, ..b.rgb }, ..b })
    } else if was_waiting && !now {
        change == RailChange::PowerUp && a == (Device { rgb: RgbMatrix { enabled: true, ..b.rgb }, ..b })
    } else {
        change == RailChange::Keep && a == b
    }
}

/// The 50 ms sleep step: hand-off, sleep tick, rail switching.
pub open spec fn sleep_step_done(
    b: Device,
    a: Device,
    usb_suspended: bool,
    frame: Option<heapless::Vec<u8, 64>>,
    change: RailChange,
) -> bool {
    exists|m1: Device, m2: Device|
        #[trigger] sleep_handed_off(b, m1) && #[trigger] sleep_ticked(m1, m2, usb_suspended, frame)
            && rails_switched(m2, a, m1.sleep.f_wakeup_prepare, change)
}

/// The device reset's last part: the pairing list cleared (frame readied)
/// and the default settings restored.
pub open spec fn device_reset_done(b: Device, a: Device) -> bool {
    exists|mid: Device|
        #[trigger] link_cmd_sent(b.proto, mid.proto, CMD_CLR_DEVICE) && mid == (Device { proto: mid.proto, ..b })
            && defaults_restored(mid, a)
}

fn take_goto_sleep(proto: &mut UartProtocol)
    ensures
        *final(proto) == (UartProtocol { f_goto_sleep: false, ..*old(proto) }),
{
    proto.f_goto_sleep = false;
}

fn set_rgb_enabled(rgb: &mut RgbMatrix, on: bool)
    ensures
        *final(rgb) == (RgbMatrix { enabled: on, ..*old(rgb) }),
{
    rgb.enabled = on;
}

impl Device {
    fn hand_off_sleep(&mut self)
        ensures
            sleep_handed_off(*old(self), *final(self)),
    {
        if self.proto.f_goto_sleep {
            take_goto_sleep(&mut self.proto);
            self.sleep.f_goto_sleep = true;
        }
    }

    fn tick_sleep(&mut self, usb_suspended: bool) -> (frame: Option<heapless::Vec<u8, 64>>)
        requires
            old(self).sleep.wf(),
        ensures
            sleep_ticked(*old(self), *final(self), usb_suspended, frame),
    {
        self.sleep.tick(&mut self.proto, usb_suspended)
    }

    fn switch_rails(&mut self, was_waiting: bool) -> (change: RailChange)
        ensures
            rails_switched(*old(self), *final(self), was_waiting, change),
    {
        let now = self.sleep.f_wakeup_prepare;
        if !was_waiting && now {
            set_rgb_enabled(&mut self.rgb, false);
            RailChange::PowerDown
        } else if was_waiting && !now {
            set_rgb_enabled(&mut self.rgb, true);
            RailChange::PowerUp
        } else {
            RailChange::Keep
        }
    }

    /// The 50 ms sleep step: the RF module's goto-sleep request passes to the
    /// sleep manager, the sleep manager ticks (returning any command it
    /// framed, to send), and entering or leaving the wake-up wait switches
    /// the LED rails and the RGB matrix.
    pub fn sleep_step(&mut self, usb_suspended: bool) -> (r: (Option<heapless::Vec<u8, 64>>, RailChange))
        requires
            old(self).sleep.wf(),
        ensures
            sleep_step_done(*old(self), *final(self), usb_suspended, r.0, r.1),
    {
        self.hand_off_sleep();
        let ghost m1 = *self;
        let was_waiting = self.sleep.f_wakeup_prepare;
        let frame = self.tick_sleep(usb_suspended);
        let ghost m2 = *self;
        let change = self.switch_rails(was_waiting);
        assert(sleep_handed_off(*old(self), m1) && sleep_ticked(m1, m2, usb_suspended, frame));
        (frame, change)
    }

    /// Readies the advertising frame of the link being paired.
    pub fn advertise(&mut self)
        ensures
            link_cmd_sent(old(self).proto, final(self).proto, CMD_NEW_ADV),
            *final(self) == (Device { proto: final(self).proto, ..*old(self) }),
    {
        let _ = self.proto.build_link_cmd(CMD_NEW_ADV);
    }

    /// The device reset's last part, after the link frame went out: readies
    /// the frame clearing the module's pairings, restores the default
    /// settings, and returns the reset blink's start (first phase, timer).
    pub fn finish_device_reset(&mut self) -> (blink: (u8, u16))
        ensures
            device_reset_done(*old(self), *final(self)),
            blink == (1u8, RESET_BLINK_MS),
    {
        let _ = self.proto.build_link_cmd(CMD_CLR_DEVICE);
        let ghost mid = *self;
        self.restore_defaults();
        assert(link_cmd_sent(old(self).proto, mid.proto, CMD_CLR_DEVICE));
        (1, RESET_BLINK_MS)
    }
}

} // verus!
