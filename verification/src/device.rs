//! Key event processing: keycode resolution through the layer stack, the
//! modifier and key state, the HID reports it produces, and the custom
//! keycodes (link switching, side LED and RGB matrix controls, media keys
//! and macOS shortcuts).
//!
//! The board runs the main loop: it hands each debounced key event in and
//! carries out the actions it gets back, in order (a UART frame to the RF
//! module, a report to the USB host).
use vstd::prelude::*;
use crate::keyboard::keymap::{self, keycode_at, resolved_keycode, consumer_usage_of, link_of_key};
use crate::led::rgb::{RgbMatrix, all_set, hsv_to_rgb_of, hit_registered};
use crate::led::animation::{self, heat_pressed};
use crate::led::side::{SideLeds, SideView};
use crate::wireless::report;
use crate::wireless::sleep::{SleepManager, SleepState};
use crate::wireless::uart::{
    UartProtocol, LinkMode, CMD_SET_LINK, CMD_RF_DFU, CMD_RPT_BYTE_KB, CMD_RPT_BIT_KB, link_cmd_sent,
    link_mode_code, tx_image, nkro_result,
};

verus! {

/// Work for the board after a key event.
#[derive(Debug, Clone, Copy)]
pub enum HostAction {
    /// Transmit the UART frame now in the protocol's TX buffer (its length
    /// is byte 3 plus 5).
    Uart([u8; 64]),
    /// Send a consumer (media) report to the USB host.
    UsbConsumer(u16),
    /// Send a system control report to the USB host.
    UsbSystem(u16),
    /// Send a boot keyboard report to the USB host.
    UsbKeyboard(u8, [u8; 6]),
    /// Send the NKRO bitmap to the USB host (as a boot report).
    UsbNkro(u8, [u8; 31]),
}

/// The keyboard's key-handling state.
pub struct Device {
    pub proto: UartProtocol,
    pub sleep: SleepManager,
    pub side: SideLeds,
    pub rgb: RgbMatrix,
    pub active_layers: [usize; 4],
    pub active_layer_count: usize,
    /// Keycode stored on press so the release uses the same code whatever
    /// the layer state is by then
    pub keycode_track: [[u16; 21]; 6],
    pub current_keys: [u8; 6],
    pub current_mods: u8,
    pub nkro_enabled: bool,
    pub rf_sw_press: bool,
    pub rf_sw_press_delay: u16,
    pub rf_sw_temp: u8,
    pub dev_reset_press: bool,
    pub rgb_test_press: bool,
    pub f_sleep_show: bool,
    pub f_bat_hold: bool,
    pub save_pending: bool,
    pub sleep_enabled: bool,
    pub bat_num_show: bool,
    /// Pending consumer usage for USB HID (0 = none)
    pub pending_consumer_usb: u16,
    /// Pending system control usage for USB HID (0 = none)
    pub pending_system_usb: u16,
}

impl Device {
    /// The state at power-up: base layer only, no key held, NKRO and sleep
    /// on, every flag clear.
    pub fn new() -> (d: Device)
        ensures
            crate::wireless::uart::protocol_initial(d.proto),
            d.sleep.state() == (SleepState {
                no_act_time: 0,
                rf_linking_time: 0,
                usb_suspend_debounce: 0,
                rf_disconnect_time: 0,
                sleep_enabled: true,
                f_goto_sleep: false,
                f_wakeup_prepare: false,
            }),
            d.side@ == crate::led::side::side_initial(),
            crate::led::rgb::matrix_initial(d.rgb),
            d.active_layers@ == seq![0usize, 0usize, 0usize, 0usize],
            d.active_layer_count == 1,
            forall|r: int, c: int| 0 <= r < 6 && 0 <= c < 21 ==> #[trigger] d.keycode_track@[r]@[c] == 0,
            d.current_keys@ == seq![0u8, 0u8, 0u8, 0u8, 0u8, 0u8],
            d.current_mods == 0,
            d.nkro_enabled,
            !d.rf_sw_press,
            d.rf_sw_press_delay == 0,
            d.rf_sw_temp == 0,
            !d.dev_reset_press,
            !d.rgb_test_press,
            !d.f_sleep_show,
            !d.f_bat_hold,
            !d.save_pending,
            d.sleep_enabled,
            !d.bat_num_show,
            d.pending_consumer_usb == 0,
            d.pending_system_usb == 0,
    {
        let d = Device {
            proto: UartProtocol::new(),
            sleep: SleepManager::new(),
            side: SideLeds::new(),
            rgb: RgbMatrix::new(),
            active_layers: [0, 0, 0, 0],
            active_layer_count: 1,
            keycode_track: [[0; 21]; 6],
            current_keys: [0; 6],
            current_mods: 0,
            nkro_enabled: true,
            rf_sw_press: false,
            rf_sw_press_delay: 0,
            rf_sw_temp: 0,
            dev_reset_press: false,
            rgb_test_press: false,
            f_sleep_show: false,
            f_bat_hold: false,
            save_pending: false,
            sleep_enabled: true,
            bat_num_show: false,
            pending_consumer_usb: 0,
            pending_system_usb: 0,
        };
        assert(d.active_layers@ =~= seq![0usize, 0usize, 0usize, 0usize]);
        assert(d.current_keys@ =~= seq![0u8, 0u8, 0u8, 0u8, 0u8, 0u8]);
        d
    }
}

// ── Key state ────────────────────────────────────────────────────────
/// The first slot from `i` that is free or already holds `code` (6 if none).
pub open spec fn free_slot(keys: Seq<u8>, code: u8, i: int) -> int
    decreases 6 - i,
{
    if i >= 6 {
        6
    } else if keys[i] == 0 || keys[i] == code {
        i
    } else {
        free_slot(keys, code, i + 1)
    }
}

/// The first slot from `i` holding `code` (6 if none).
pub open spec fn held_slot(keys: Seq<u8>, code: u8, i: int) -> int
    decreases 6 - i,
{
    if i >= 6 {
        6
    } else if keys[i] == code {
        i
    } else {
        held_slot(keys, code, i + 1)
    }
}

/// The keys after pressing `code`: it takes the first free slot (or stays
/// in its own); with all six slots taken by other keys it is dropped.
pub open spec fn keys_pressed(keys: Seq<u8>, code: u8) -> Seq<u8> {
    let i = free_slot(keys, code, 0);
    if i < 6 { keys.update(i, code) } else { keys }
}

/// The keys after releasing `code`: its first slot is freed.
pub open spec fn keys_released(keys: Seq<u8>, code: u8) -> Seq<u8> {
    let i = held_slot(keys, code, 0);
    if i < 6 { keys.update(i, 0) } else { keys }
}

/// The modifier bit of a modifier keycode (0xE0 left control .. 0xE7 right
/// GUI), 0 for other codes.
pub open spec fn mod_bit(code: u8) -> u8 {
    if code == 0xE0 {
        0x01
    } else if code == 0xE1 {
        0x02
    } else if code == 0xE2 {
        0x04
    } else if code == 0xE3 {
        0x08
    } else if code == 0xE4 {
        0x10
    } else if code == 0xE5 {
        0x20
    } else if code == 0xE6 {
        0x40
    } else if code == 0xE7 {
        0x80
    } else {
        0
    }
}

fn modifier_bit(code: u8) -> (b: u8)
    ensures
        b == mod_bit(code),
{
    match code {
        0xE0 => 0x01,
        0xE1 => 0x02,
        0xE2 => 0x04,
        0xE3 => 0x08,
        0xE4 => 0x10,
        0xE5 => 0x20,
        0xE6 => 0x40,
        0xE7 => 0x80,
        _ => 0,
    }
}

/// Presses `code` into the key slots.
fn press_key(keys: &mut [u8; 6], code: u8)
    ensures
        final(keys)@ == keys_pressed(old(keys)@, code),
{
    let mut i: usize = 0;
    while i < 6
        invariant
            i <= 6,
            *keys == *old(keys),
            free_slot(keys@, code, 0) == free_slot(keys@, code, i as int),
        decreases 6 - i,
    {
        if keys[i] == 0 || keys[i] == code {
            keys[i] = code;
            return;
        }
        i = i + 1;
    }
}

/// Releases `code` from the key slots.
fn release_key(keys: &mut [u8; 6], code: u8)
    ensures
        final(keys)@ == keys_released(old(keys)@, code),
{
    let mut i: usize = 0;
    while i < 6
        invariant
            i <= 6,
            *keys == *old(keys),
            held_slot(keys@, code, 0) == held_slot(keys@, code, i as int),
        decreases 6 - i,
    {
        if keys[i] == code {
            keys[i] = 0;
            return;
        }
        i = i + 1;
    }
}

/// A bitmap of `len` bytes with the bit of each of the first `n` keys set:
/// key `k` (1..247) at bit `k % 8` of byte `k / 8 + offset`.
pub open spec fn key_bits(keys: Seq<u8>, offset: int, len: int, n: int) -> Seq<u8>
    decreases n,
{
    if n <= 0 {
        Seq::new(len as nat, |_i: int| 0u8)
    } else {
        let prev = key_bits(keys, offset, len, n - 1);
        let k = keys[n - 1];
        if 0 < k && k < 248 {
            let b = k / 8 + offset;
            prev.update(b, prev[b] | (1u8 << (k % 8) as u8))
        } else {
            prev
        }
    }
}

/// The 31-byte NKRO bitmap of the held keys (key `k` at bit `k % 8` of
/// byte `k / 8`).
pub open spec fn nkro_bitmap(keys: Seq<u8>) -> Seq<u8> {
    key_bits(keys, 0, 31, 6)
}

/// The 32-byte wireless NKRO report: the modifiers in byte 0, the held keys
/// from byte 1.
pub open spec fn nkro_report_bits(mods: u8, keys: Seq<u8>) -> Seq<u8> {
    key_bits(keys, 1, 32, 6).update(0, mods)
}

fn fill_key_bits(keys: &[u8; 6], out: &mut [u8], offset: usize)
    requires
        offset <= 1,
        old(out)@.len() == 31 + offset,
        old(out)@ == Seq::new((31 + offset) as nat, |_i: int| 0u8),
    ensures
        final(out)@ == key_bits(keys@, offset as int, 31 + offset, 6),
{
    let mut j: usize = 0;
    while j < 6
        invariant
            j <= 6,
            offset <= 1,
            out@.len() == 31 + offset,
            out@ == key_bits(keys@, offset as int, 31 + offset, j as int),
        decreases 6 - j,
    {
        let k = keys[j];
        if k > 0 && k < 248 {
            let byte = (k as usize / 8) + offset;
            let bit = (k % 8) as u8;
            out[byte] = out[byte] | (1u8 << bit);
        }
        j = j + 1;
    }
}

/// The stack of momentary layers after pressing `MO(layer)`: pushed when
/// fewer than four are active.
pub open spec fn layers_pushed(layers: Seq<usize>, count: int, layer: usize) -> (Seq<usize>, int) {
    if count < 4 { (layers.update(count, layer), count + 1) } else { (layers, count) }
}

/// The first of the `count` active layers equal to `layer` (`count` if none).
pub open spec fn layer_pos(layers: Seq<usize>, count: int, layer: usize, i: int) -> int
    decreases count - i,
{
    if i >= count {
        count
    } else if layers[i] == layer {
        i
    } else {
        layer_pos(layers, count, layer, i + 1)
    }
}

/// The stack after releasing `MO(layer)`: its first entry is removed and
/// those above move down.
pub open spec fn layers_popped(layers: Seq<usize>, count: int, layer: usize) -> (Seq<usize>, int) {
    let pos = layer_pos(layers, count, layer, 0);
    if pos < count {
        (Seq::new(4, |i: int| if pos <= i < count - 1 { layers[i + 1] } else { layers[i] }), count - 1)
    } else {
        (layers, count)
    }
}

/// A UART frame for the board, unless the link is USB.
pub open spec fn flushed(p: UartProtocol, acts: Seq<HostAction>) -> Seq<HostAction> {
    if p.link_mode != LinkMode::Usb { acts.push(HostAction::Uart(p.tx_buf)) } else { acts }
}

/// Hands the frame in the TX buffer to the board (not over USB).
fn flush(proto: &UartProtocol, actions: &mut Vec<HostAction>)
    ensures
        final(actions)@ == flushed(*proto, old(actions)@),
{
    if proto.link_mode != LinkMode::Usb {
        actions.push(HostAction::Uart(proto.tx_buf));
    }
}

impl Device {
    /// The 31-byte NKRO bitmap of the held keys.
    pub fn get_nkro_bitmap(&self) -> (bits: [u8; 31])
        ensures
            bits@ == nkro_bitmap(self.current_keys@),
    {
        let mut bits = [0u8; 31];
        assert(bits@ =~= Seq::new(31, |_i: int| 0u8));
        fill_key_bits(&self.current_keys, &mut bits, 0);
        bits
    }

    /// Marks the settings for saving; the main loop writes them to flash
    /// when idle.
    pub fn save_config(&mut self)
        ensures
            *final(self) == (Device { save_pending: true, ..*old(self) }),
    {
        self.save_pending = true;
    }
}

// ── Reports ──────────────────────────────────────────────────────────
/// The protocol after framing a keyboard report of `mods` and `keys`
/// (nothing is framed over USB).
pub open spec fn keyboard_sent(b: UartProtocol, a: UartProtocol, mods: u8, keys: Seq<u8>) -> bool {
    if b.link_mode == LinkMode::Usb {
        a == b
    } else {
        &&& a.bytekb_report_buf@ == report::keyboard_report(mods, keys)
        &&& a.tx_buf@ == tx_image(CMD_RPT_BYTE_KB, 1, report::keyboard_report(mods, keys))
        &&& a == (UartProtocol { bytekb_report_buf: a.bytekb_report_buf, tx_buf: a.tx_buf, ..b })
    }
}

/// The protocol after framing a consumer or system report (`cmd`) of
/// `usage` (nothing is framed over USB).
pub open spec fn usage_sent(b: UartProtocol, a: UartProtocol, cmd: u8, usage: u16) -> bool {
    if b.link_mode == LinkMode::Usb {
        a == b
    } else {
        &&& a.tx_buf@ == tx_image(cmd, 1, report::usage_bytes(usage))
        &&& a == (UartProtocol { tx_buf: a.tx_buf, ..b })
    }
}

/// The action carrying the key report of `mods` and `keys`: over USB the
/// NKRO bitmap (when NKRO is on) or the boot report for the host; otherwise
/// the keyboard frame for the RF module.
pub open spec fn key_report_action(usb: bool, nkro: bool, mods: u8, keys: Seq<u8>, a: HostAction) -> bool {
    if usb {
        if nkro {
            a matches HostAction::UsbNkro(m, bits) && m == mods && bits@ == nkro_bitmap(keys)
        } else {
            a matches HostAction::UsbKeyboard(m, k) && m == mods && k@ == keys
        }
    } else {
        a matches HostAction::Uart(buf) && buf@ == tx_image(CMD_RPT_BYTE_KB, 1, report::keyboard_report(mods, keys))
    }
}

/// Every key released: no modifiers, no keys, and the empty keyboard report
/// framed (not transmitted).
pub open spec fn all_released(b: Device, a: Device) -> bool {
    &&& a.current_keys@ == Seq::new(6, |_i: int| 0u8)
    &&& keyboard_sent(b.proto, a.proto, 0, Seq::new(6, |_i: int| 0u8))
    &&& a == (Device { current_mods: 0, current_keys: a.current_keys, proto: a.proto, ..b })
}

/// A macOS-style shortcut tap: modifiers `m` and key `key` (in the first
/// slot) pressed, reported, released, reported.
pub open spec fn tap_done(b: Device, a: Device, acts0: Seq<HostAction>, acts1: Seq<HostAction>, m: u8, key: u8) -> bool {
    let usb = b.proto.link_mode == LinkMode::Usb;
    let mods1 = b.current_mods | m;
    let keys1 = b.current_keys@.update(0, key);
    let mods2 = mods1 & !m;
    let keys2 = keys1.update(0, 0);
    &&& acts1.len() == acts0.len() + 2
    &&& acts1.take(acts0.len() as int) == acts0
    &&& key_report_action(usb, b.nkro_enabled, mods1, keys1, acts1[acts0.len() as int])
    &&& key_report_action(usb, b.nkro_enabled, mods2, keys2, acts1[acts0.len() as int + 1])
    &&& a.current_keys@ == keys2
    &&& keyboard_sent(b.proto, a.proto, mods2, keys2)
    &&& a == (Device { current_mods: mods2, current_keys: a.current_keys, proto: a.proto, ..b })
}

/// A consumer (or system) usage reported: framed for the RF module and
/// handed on, or over USB sent to the host; remembered as pending.
pub open spec fn usage_done(
    b: Device,
    a: Device,
    acts0: Seq<HostAction>,
    acts1: Seq<HostAction>,
    usage: u16,
    consumer: bool,
) -> bool {
    let usb = b.proto.link_mode == LinkMode::Usb;
    &&& usage_sent(b.proto, a.proto, if consumer { crate::wireless::uart::CMD_RPT_CONSUME } else { crate::wireless::uart::CMD_RPT_SYS }, usage)
    &&& (if consumer {
        a == (Device { proto: a.proto, pending_consumer_usb: usage, ..b })
    } else {
        a == (Device { proto: a.proto, pending_system_usb: usage, ..b })
    })
    &&& acts1 == (if usb {
        acts0.push(if consumer { HostAction::UsbConsumer(usage) } else { HostAction::UsbSystem(usage) })
    } else {
        acts0.push(HostAction::Uart(a.proto.tx_buf))
    })
}

impl Device {
    /// Releases every key and frames the empty keyboard report.
    pub fn break_all_keys(&mut self)
        ensures
            all_released(*old(self), *final(self)),
    {
        self.current_mods = 0;
        self.current_keys = [0; 6];
        let zeros = [0u8; 6];
        assert(zeros@ =~= Seq::new(6, |_i: int| 0u8));
        let _ = report::send_keyboard(&mut self.proto, 0, &zeros);
        assert(self.current_keys@ =~= Seq::new(6, |_i: int| 0u8));
    }

    /// Reports the current keys: to the USB host, or as a keyboard frame.
    fn send_key_report(&mut self, actions: &mut Vec<HostAction>)
        ensures
            final(actions)@.len() == old(actions)@.len() + 1,
            final(actions)@.take(old(actions)@.len() as int) == old(actions)@,
            key_report_action(
                old(self).proto.link_mode == LinkMode::Usb,
                old(self).nkro_enabled,
                old(self).current_mods,
                old(self).current_keys@,
                final(actions)@[old(actions)@.len() as int],
            ),
            keyboard_sent(old(self).proto, final(self).proto, old(self).current_mods, old(self).current_keys@),
            *final(self) == (Device { proto: final(self).proto, ..*old(self) }),
    {
        if self.proto.link_mode == LinkMode::Usb {
            if self.nkro_enabled {
                let bits = self.get_nkro_bitmap();
                actions.push(HostAction::UsbNkro(self.current_mods, bits));
            } else {
                actions.push(HostAction::UsbKeyboard(self.current_mods, self.current_keys));
            }
        } else {
            let _ = report::send_keyboard(&mut self.proto, self.current_mods, &self.current_keys);
            flush(&self.proto, actions);
        }
        assert(final(actions)@.take(old(actions)@.len() as int) =~= old(actions)@);
    }

    fn set_first_key(&mut self, mods: u8, key: u8)
        ensures
            final(self).current_keys@ == old(self).current_keys@.update(0, key),
            *final(self) == (Device { current_mods: mods, current_keys: final(self).current_keys, ..*old(self) }),
    {
        self.current_mods = mods;
        self.current_keys[0] = key;
    }

    /// Taps a shortcut: `m` and `key` pressed, reported, released, reported.
    fn tap(&mut self, m: u8, key: u8, actions: &mut Vec<HostAction>)
        ensures
            tap_done(*old(self), *final(self), old(actions)@, final(actions)@, m, key),
    {
        let ghost acts0 = actions@;
        self.set_first_key(self.current_mods | m, key);
        self.send_key_report(actions);
        let ghost acts1 = actions@;
        self.set_first_key(self.current_mods & !m, 0);
        self.send_key_report(actions);
        assert(actions@.take(acts0.len() as int) =~= acts0) by {
            assert(acts1.take(acts0.len() as int) == acts0);
            assert(actions@.take(acts1.len() as int) == acts1);
        }
        assert(actions@[acts0.len() as int] == acts1[acts0.len() as int]);
    }

    /// Reports a consumer or system usage.
    fn send_usage(&mut self, usage: u16, consumer: bool, actions: &mut Vec<HostAction>)
        ensures
            usage_done(*old(self), *final(self), old(actions)@, final(actions)@, usage, consumer),
    {
        if consumer {
            report::send_consumer(&mut self.proto, usage);
            self.pending_consumer_usb = usage;
        } else {
            report::send_system(&mut self.proto, usage);
            self.pending_system_usb = usage;
        }
        flush(&self.proto, actions);
        if self.proto.link_mode == LinkMode::Usb {
            if consumer {
                actions.push(HostAction::UsbConsumer(usage));
            } else {
                actions.push(HostAction::UsbSystem(usage));
            }
        }
    }
}

// ── Custom keycodes ──────────────────────────────────────────────────
/// The side LEDs with one setting changed (and the settings marked for
/// saving).
pub open spec fn side_set(b: Device, a: Device, side: SideLeds) -> bool {
    a == (Device { side: side, save_pending: true, ..b })
}

/// The RGB matrix with one setting changed, repainted in the new colour
/// when it shows a solid colour (mode 0), and the settings marked for saving.
pub open spec fn rgb_set(b: Device, a: Device, rgb: RgbMatrix) -> bool {
    &&& (if rgb.mode == 0 { all_set(rgb, a.rgb, hsv_to_rgb_of(rgb.hue, rgb.sat, rgb.val)) } else { a.rgb == rgb })
    &&& a == (Device { rgb: a.rgb, save_pending: true, ..b })
}

/// The RGB matrix moved to its next mode (`RgbMatrix::next_mode`).
pub open spec fn mode_advanced(b: RgbMatrix, a: RgbMatrix) -> bool {
    &&& a.mode == ((b.mode + 1) % 256) % (crate::led::animation::ANIMATION_COUNT as int)
    &&& a.anim_tick == 0
    &&& a.hit_count == 0
    &&& forall|i: int, j: int| 0 <= i < 6 && 0 <= j < 19 ==> a.frame_buffer@[i]@[j] == 0
    &&& a.pixel_flow_state@ == Seq::new(110, |_i: int| (0u8, 0u8, 0u8))
    &&& forall|i: int, j: int| 0 <= i < 6 && 0 <= j < 9 ==> !a.pixel_fractal_state@[i]@[j]
    &&& a == (RgbMatrix {
        mode: a.mode,
        anim_tick: 0,
        hit_count: 0,
        frame_buffer: a.frame_buffer,
        pixel_flow_state: a.pixel_flow_state,
        pixel_fractal_state: a.pixel_fractal_state,
        dirty1: true,
        dirty2: true,
        ..b
    })
}

/// The effect of `KC_RF_DFU`: on press over USB, the RF module is told to
/// enter its firmware update mode.
pub open spec fn rf_dfu_done(b: Device, a: Device, pressed: bool) -> bool {
    if pressed && b.proto.link_mode == LinkMode::Usb {
        link_cmd_sent(b.proto, a.proto, CMD_RF_DFU) && a == (Device { proto: a.proto, ..b })
    } else {
        a == b
    }
}

/// The effect of `KC_LNK_USB`: keys released on press; on release the link
/// switches to USB and the side LEDs blink three times.
pub open spec fn usb_link_done(b: Device, a: Device, pressed: bool) -> bool {
    if pressed {
        all_released(b, a)
    } else {
        &&& link_cmd_sent(UartProtocol { link_mode: LinkMode::Usb, ..b.proto }, a.proto, CMD_SET_LINK)
        &&& a.side@ == (SideView { rf_blink_cnt: 3, rf_blink_timer: 0, rf_link_show_time: 0, ..b.side@ })
        &&& a == (Device { proto: a.proto, side: a.side, ..b })
    }
}

/// The link switched to wireless channel `ch` (link mode and both channel
/// numbers), the link command framed and handed on, the press disarmed.
pub open spec fn link_switched(b: Device, a: Device, acts0: Seq<HostAction>, acts1: Seq<HostAction>, ch: LinkMode) -> bool {
    let code = link_mode_code(ch);
    &&& link_cmd_sent(UartProtocol { link_mode: ch, rf_channel: code, ble_channel: code, ..b.proto }, a.proto, CMD_SET_LINK)
    &&& acts1 == flushed(a.proto, acts0)
    &&& a == (Device { proto: a.proto, rf_sw_press: false, ..b })
}

/// The armed link switch dropped.
pub open spec fn link_disarmed(b: Device, a: Device, acts0: Seq<HostAction>, acts1: Seq<HostAction>) -> bool {
    acts1 == acts0 && a == (Device { rf_sw_press: false, ..b })
}

/// The release of a wireless channel key after its press was armed: the
/// link switches to `ch` within 60 ticks of the press, else it is disarmed.
pub open spec fn channel_release_done(b: Device, a: Device, acts0: Seq<HostAction>, acts1: Seq<HostAction>, ch: LinkMode) -> bool {
    if b.rf_sw_press_delay < 60 {
        link_switched(b, a, acts0, acts1, ch)
    } else {
        link_disarmed(b, a, acts0, acts1)
    }
}

/// The effect of a wireless channel key: armed on press (keys released);
/// switched on a release within 60 ticks of the press.
pub open spec fn channel_key_done(b: Device, a: Device, acts0: Seq<HostAction>, acts1: Seq<HostAction>, ch: LinkMode, pressed: bool) -> bool {
    if pressed && b.proto.link_mode != LinkMode::Usb {
        &&& acts1 == acts0
        &&& all_released(Device { rf_sw_temp: link_mode_code(ch), rf_sw_press: true, rf_sw_press_delay: 0, ..b }, a)
    } else if !pressed && b.rf_sw_press {
        channel_release_done(b, a, acts0, acts1, ch)
    } else {
        acts1 == acts0 && a == b
    }
}

/// The effect of a link key (`KC_RF_DFU`, `KC_LNK_USB`, `KC_LNK_RF` ..
/// `KC_LNK_BLE3`).
pub open spec fn link_key_done(b: Device, a: Device, acts0: Seq<HostAction>, acts1: Seq<HostAction>, kc: u16, pressed: bool) -> bool {
    if kc == keymap::KC_RF_DFU {
        acts1 == acts0 && rf_dfu_done(b, a, pressed)
    } else if kc == keymap::KC_LNK_USB {
        acts1 == acts0 && usb_link_done(b, a, pressed)
    } else {
        channel_key_done(b, a, acts0, acts1, link_of_key(kc), pressed)
    }
}

/// The effect of a side LED, device or indicator key.
pub open spec fn setting_key_done(b: Device, a: Device, kc: u16, pressed: bool) -> bool {
    let sd = b.side;
    if kc == keymap::KC_DEV_RESET {
        if pressed { all_released(Device { dev_reset_press: true, ..b }, a) } else { a == (Device { dev_reset_press: false, ..b }) }
    } else if kc == keymap::KC_RGB_TEST {
        a == (Device { rgb_test_press: pressed, ..b })
    } else if kc == keymap::KC_BAT_NUM {
        a == (Device { bat_num_show: pressed, ..b })
    } else if !pressed {
        a == b
    } else if kc == keymap::KC_SIDE_VAI {
        let v = sd.brightness.wrapping_add(1);
        side_set(b, a, SideLeds { brightness: if v < 5 { v } else { 5 }, ..sd })
    } else if kc == keymap::KC_SIDE_VAD {
        side_set(b, a, SideLeds { brightness: sd.brightness.saturating_sub(1), ..sd })
    } else if kc == keymap::KC_SIDE_MOD {
        side_set(b, a, SideLeds { mode: sd.mode.wrapping_add(1) % 5, ..sd })
    } else if kc == keymap::KC_SIDE_HUI {
        side_set(b, a, SideLeds { colour: sd.colour.wrapping_add(1) % 8, ..sd })
    } else if kc == keymap::KC_SIDE_SPI {
        let v = sd.speed.wrapping_add(1);
        side_set(b, a, SideLeds { speed: if v < 4 { v } else { 4 }, ..sd })
    } else if kc == keymap::KC_SIDE_SPD {
        side_set(b, a, SideLeds { speed: sd.speed.saturating_sub(1), ..sd })
    } else if kc == keymap::KC_SLEEP_MODE {
        a == (Device { sleep_enabled: !b.sleep_enabled, f_sleep_show: true, save_pending: true, ..b })
    } else {
        // KC_BAT_SHOW
        a == (Device { f_bat_hold: !b.f_bat_hold, ..b })
    }
}

/// The RGB matrix animation speed set (and the settings marked for saving).
pub open spec fn rgb_speed_done(b: Device, a: Device, speed: u8) -> bool {
    a == (Device { rgb: RgbMatrix { speed: speed, ..b.rgb }, save_pending: true, ..b })
}

/// The RGB matrix hue and value set.
pub open spec fn rgb_colour_done(b: Device, a: Device, hue: u8, val: u8) -> bool {
    rgb_set(b, a, RgbMatrix { hue: hue, val: val, ..b.rgb })
}

/// The RGB matrix moved to its next mode.
pub open spec fn rgb_mode_done(b: Device, a: Device) -> bool {
    exists|mid: RgbMatrix| #[trigger] mode_advanced(b.rgb, mid) && rgb_set(b, a, mid)
}

/// The effect of an RGB matrix key (on press): speed and value step by 16
/// (saturating), the hue by 8 (wrapping), the mode to the next.
pub open spec fn rgb_key_done(b: Device, a: Device, kc: u16, pressed: bool) -> bool {
    let r = b.rgb;
    if !pressed {
        a == b
    } else if kc == keymap::KC_RGB_SPD {
        rgb_speed_done(b, a, r.speed.saturating_sub(16))
    } else if kc == keymap::KC_RGB_SPI {
        rgb_speed_done(b, a, r.speed.saturating_add(16))
    } else if kc == keymap::KC_RGB_VAI {
        rgb_colour_done(b, a, r.hue, r.val.saturating_add(16))
    } else if kc == keymap::KC_RGB_VAD {
        rgb_colour_done(b, a, r.hue, r.val.saturating_sub(16))
    } else if kc == keymap::KC_RGB_HUI {
        rgb_colour_done(b, a, r.hue.wrapping_add(8), r.val)
    } else {
        rgb_mode_done(b, a)
    }
}

/// Selects link mode `ch` and radio channel `code`.
fn select_link(p: &mut UartProtocol, ch: LinkMode, code: u8)
    ensures
        *final(p) == (UartProtocol { link_mode: ch, rf_channel: code, ..*old(p) }),
{
    p.link_mode = ch;
    p.rf_channel = code;
}

/// Selects wireless channel `ch` (link mode and both channel numbers) and
/// frames the link command.
fn switch_link_cmd(p: &mut UartProtocol, ch: LinkMode)
    ensures
        link_cmd_sent(
            UartProtocol { link_mode: ch, rf_channel: link_mode_code(ch), ble_channel: link_mode_code(ch), ..*old(p) },
            *final(p),
            CMD_SET_LINK,
        ),
{
    let code = ch.to_u8();
    select_link(p, ch, code);
    p.ble_channel = code;
    let _ = p.build_link_cmd(CMD_SET_LINK);
}

/// Whether `kc` is one of the link keys.
pub open spec fn is_link_key(kc: u16) -> bool {
    keymap::KC_RF_DFU <= kc <= keymap::KC_LNK_BLE3
}

/// Whether `kc` is one of the side LED, device or indicator keys.
pub open spec fn is_setting_key(kc: u16) -> bool {
    keymap::KC_SIDE_VAI <= kc <= keymap::KC_BAT_NUM
}

/// Whether `kc` is one of the RGB matrix keys.
pub open spec fn is_rgb_key(kc: u16) -> bool {
    keymap::KC_RGB_SPD <= kc <= keymap::KC_RGB_HUI
}

/// The effect of a custom keycode.
pub open spec fn custom_done(b: Device, a: Device, acts0: Seq<HostAction>, acts1: Seq<HostAction>, kc: u16, pressed: bool) -> bool {
    if is_link_key(kc) {
        link_key_done(b, a, acts0, acts1, kc, pressed)
    } else if is_setting_key(kc) {
        acts1 == acts0 && setting_key_done(b, a, kc, pressed)
    } else if keymap::KC_BRID <= kc <= keymap::KC_VOLU {
        usage_done(b, a, acts0, acts1, if pressed { consumer_usage_of(kc) } else { 0 }, true)
    } else if is_rgb_key(kc) {
        acts1 == acts0 && rgb_key_done(b, a, kc, pressed)
    } else if kc == keymap::KC_MAC_TASK || kc == keymap::KC_MAC_VOICE || kc == keymap::KC_MAC_CONSOLE {
        let usage: u16 = if kc == keymap::KC_MAC_TASK { 0x029F } else if kc == keymap::KC_MAC_VOICE { 0x00CF } else { 0x02A0 };
        usage_done(b, a, acts0, acts1, if pressed { usage } else { 0 }, true)
    } else if kc == keymap::KC_MAC_DND {
        usage_done(b, a, acts0, acts1, if pressed { 0x009B } else { 0 }, false)
    } else if pressed && kc == keymap::KC_MAC_SEARCH {
        tap_done(b, a, acts0, acts1, 0x08, 0x2C)
    } else if pressed && kc == keymap::KC_MAC_PRT {
        tap_done(b, a, acts0, acts1, 0x0A, 0x20)
    } else if pressed && kc == keymap::KC_MAC_PRTA {
        tap_done(b, a, acts0, acts1, 0x0A, if b.nkro_enabled { 0x16 } else { 0x23 })
    } else {
        acts1 == acts0 && a == b
    }
}

impl Device {
    /// `KC_RF_DFU`.
    fn rf_dfu_key(&mut self, pressed: bool)
        ensures
            rf_dfu_done(*old(self), *final(self), pressed),
    {
        if pressed && self.proto.link_mode == LinkMode::Usb {
            let _ = self.proto.build_link_cmd(CMD_RF_DFU);
        }
    }

    /// `KC_LNK_USB`.
    fn usb_link_key(&mut self, pressed: bool, actions: &mut Vec<HostAction>)
        ensures
            usb_link_done(*old(self), *final(self), pressed),
            final(actions)@ == old(actions)@,
    {
        if pressed {
            self.break_all_keys();
        } else {
            let channel = self.proto.rf_channel;
            select_link(&mut self.proto, LinkMode::Usb, channel);
            let _ = self.proto.build_link_cmd(CMD_SET_LINK);
            flush(&self.proto, actions);
            self.side.blink_rf(3);
        }
    }

    /// Arms a wireless link switch to `ch` and releases every key.
    fn arm_link(&mut self, ch: LinkMode)
        ensures
            all_released(
                Device { rf_sw_temp: link_mode_code(ch), rf_sw_press: true, rf_sw_press_delay: 0, ..*old(self) },
                *final(self),
            ),
    {
        self.rf_sw_temp = ch.to_u8();
        self.rf_sw_press = true;
        self.rf_sw_press_delay = 0;
        self.break_all_keys();
    }

    /// Switches the wireless link to `ch`.
    fn switch_link(&mut self, ch: LinkMode, actions: &mut Vec<HostAction>)
        ensures
            link_switched(*old(self), *final(self), old(actions)@, final(actions)@, ch),
    {
        self.rf_sw_press = false;
        switch_link_cmd(&mut self.proto, ch);
        flush(&self.proto, actions);
    }

    fn disarm_link(&mut self, actions: &mut Vec<HostAction>)
        ensures
            link_disarmed(*old(self), *final(self), old(actions)@, final(actions)@),
    {
        self.rf_sw_press = false;
    }

    fn channel_release(&mut self, ch: LinkMode, actions: &mut Vec<HostAction>)
        ensures
            channel_release_done(*old(self), *final(self), old(actions)@, final(actions)@, ch),
    {
        if self.rf_sw_press_delay < 60 {
            self.switch_link(ch, actions);
        } else {
            self.disarm_link(actions);
        }
    }

    /// A wireless channel key.
    fn channel_key(&mut self, ch: LinkMode, pressed: bool, actions: &mut Vec<HostAction>)
        ensures
            channel_key_done(*old(self), *final(self), old(actions)@, final(actions)@, ch, pressed),
    {
        if pressed && self.proto.link_mode != LinkMode::Usb {
            self.arm_link(ch);
        } else if !pressed && self.rf_sw_press {
            self.channel_release(ch, actions);
        }
    }

    fn link_key(&mut self, kc: u16, pressed: bool, actions: &mut Vec<HostAction>)
        requires
            is_link_key(kc),
        ensures
            link_key_done(*old(self), *final(self), old(actions)@, final(actions)@, kc, pressed),
    {
        if kc == keymap::KC_RF_DFU {
            self.rf_dfu_key(pressed);
        } else if kc == keymap::KC_LNK_USB {
            self.usb_link_key(pressed, actions);
        } else {
            let ch = keymap::lnk_to_channel(kc);
            self.channel_key(ch, pressed, actions);
        }
    }

    fn set_side(&mut self, side: SideLeds)
        ensures
            side_set(*old(self), *final(self), side),
    {
        self.side = side;
        self.save_pending = true;
    }

    fn dev_reset_key(&mut self, pressed: bool)
        ensures
            if pressed {
                all_released(Device { dev_reset_press: true, ..*old(self) }, *final(self))
            } else {
                *final(self) == (Device { dev_reset_press: false, ..*old(self) })
            },
    {
        self.dev_reset_press = pressed;
        if pressed {
            self.break_all_keys();
        }
    }

    fn set_rgb_test(&mut self, pressed: bool)
        ensures
            *final(self) == (Device { rgb_test_press: pressed, ..*old(self) }),
    {
        self.rgb_test_press = pressed;
    }

    fn set_bat_num(&mut self, pressed: bool)
        ensures
            *final(self) == (Device { bat_num_show: pressed, ..*old(self) }),
    {
        self.bat_num_show = pressed;
    }

    fn toggle_sleep_mode(&mut self)
        ensures
            *final(self) == (Device { sleep_enabled: !old(self).sleep_enabled, f_sleep_show: true, save_pending: true, ..*old(self) }),
    {
        self.sleep_enabled = !self.sleep_enabled;
        self.f_sleep_show = true;
        self.save_pending = true;
    }

    fn toggle_bat_hold(&mut self)
        ensures
            *final(self) == (Device { f_bat_hold: !old(self).f_bat_hold, ..*old(self) }),
    {
        self.f_bat_hold = !self.f_bat_hold;
    }

    fn setting_key(&mut self, kc: u16, pressed: bool)
        requires
            is_setting_key(kc),
        ensures
            setting_key_done(*old(self), *final(self), kc, pressed),
    {
        let sd = self.side;
        if kc == keymap::KC_DEV_RESET {
            self.dev_reset_key(pressed);
        } else if kc == keymap::KC_RGB_TEST {
            self.set_rgb_test(pressed);
        } else if kc == keymap::KC_BAT_NUM {
            self.set_bat_num(pressed);
        } else if !pressed {
        } else if kc == keymap::KC_SIDE_VAI {
            let v = sd.brightness.wrapping_add(1);
            self.set_side(SideLeds { brightness: if v < 5 { v } else { 5 }, ..sd });
        } else if kc == keymap::KC_SIDE_VAD {
            self.set_side(SideLeds { brightness: sd.brightness.saturating_sub(1), ..sd });
        } else if kc == keymap::KC_SIDE_MOD {
            self.set_side(SideLeds { mode: sd.mode.wrapping_add(1) % 5, ..sd });
        } else if kc == keymap::KC_SIDE_HUI {
            self.set_side(SideLeds { colour: sd.colour.wrapping_add(1) % 8, ..sd });
        } else if kc == keymap::KC_SIDE_SPI {
            let v = sd.speed.wrapping_add(1);
            self.set_side(SideLeds { speed: if v < 4 { v } else { 4 }, ..sd });
        } else if kc == keymap::KC_SIDE_SPD {
            self.set_side(SideLeds { speed: sd.speed.saturating_sub(1), ..sd });
        } else if kc == keymap::KC_SLEEP_MODE {
            self.toggle_sleep_mode();
        } else {
            self.toggle_bat_hold();
        }
    }

    /// Repaints a solid colour (mode 0) and marks the settings for saving.
    fn rgb_changed(&mut self)
        ensures
            rgb_set(*old(self), *final(self), old(self).rgb),
    {
        if self.rgb.mode == 0 {
            self.rgb.set_hsv(self.rgb.hue, self.rgb.sat, self.rgb.val);
        }
        self.save_config();
    }

    fn set_rgb_speed(&mut self, speed: u8)
        ensures
            rgb_speed_done(*old(self), *final(self), speed),
    {
        self.rgb.speed = speed;
        self.save_pending = true;
    }

    fn set_rgb_colour(&mut self, hue: u8, val: u8)
        ensures
            rgb_colour_done(*old(self), *final(self), hue, val),
    {
        self.rgb.hue = hue;
        self.rgb.val = val;
        self.rgb_changed();
    }

    fn rgb_next_mode(&mut self)
        ensures
            rgb_mode_done(*old(self), *final(self)),
    {
        self.rgb.next_mode();
        let ghost mid = self.rgb;
        assert(mode_advanced(old(self).rgb, mid));
        self.rgb_changed();
    }

    fn rgb_key(&mut self, kc: u16, pressed: bool)
        requires
            is_rgb_key(kc),
        ensures
            rgb_key_done(*old(self), *final(self), kc, pressed),
    {
        let hue = self.rgb.hue;
        let val = self.rgb.val;
        let speed = self.rgb.speed;
        if !pressed {
        } else if kc == keymap::KC_RGB_SPD {
            self.set_rgb_speed(speed.saturating_sub(16));
        } else if kc == keymap::KC_RGB_SPI {
            self.set_rgb_speed(speed.saturating_add(16));
        } else if kc == keymap::KC_RGB_VAI {
            self.set_rgb_colour(hue, val.saturating_add(16));
        } else if kc == keymap::KC_RGB_VAD {
            self.set_rgb_colour(hue, val.saturating_sub(16));
        } else if kc == keymap::KC_RGB_HUI {
            self.set_rgb_colour(hue.wrapping_add(8), val);
        } else {
            self.rgb_next_mode();
        }
    }

    /// Handles a custom keycode (`kc >= 0x5C00`).
    pub fn process_custom_keycode(&mut self, kc: u16, pressed: bool, actions: &mut Vec<HostAction>)
        ensures
            custom_done(*old(self), *final(self), old(actions)@, final(actions)@, kc, pressed),
    {
        if keymap::KC_RF_DFU <= kc && kc <= keymap::KC_LNK_BLE3 {
            self.link_key(kc, pressed, actions);
        } else if keymap::KC_SIDE_VAI <= kc && kc <= keymap::KC_BAT_NUM {
            self.setting_key(kc, pressed);
        } else if keymap::is_consumer_key(kc) {
            let usage = if pressed { keymap::consumer_usage(kc) } else { 0 };
            self.send_usage(usage, true, actions);
        } else if keymap::KC_RGB_SPD <= kc && kc <= keymap::KC_RGB_HUI {
            self.rgb_key(kc, pressed);
        } else if kc == keymap::KC_MAC_TASK || kc == keymap::KC_MAC_VOICE || kc == keymap::KC_MAC_CONSOLE {
            let usage: u16 = if kc == keymap::KC_MAC_TASK { 0x029F } else if kc == keymap::KC_MAC_VOICE { 0x00CF } else { 0x02A0 };
            self.send_usage(if pressed { usage } else { 0 }, true, actions);
        } else if kc == keymap::KC_MAC_DND {
            self.send_usage(if pressed { 0x009B } else { 0 }, false, actions);
        } else if pressed && kc == keymap::KC_MAC_SEARCH {
            self.tap(0x08, 0x2C, actions);
        } else if pressed && kc == keymap::KC_MAC_PRT {
            // GUI + Shift
            self.tap(0x0A, 0x20, actions);
        } else if pressed && kc == keymap::KC_MAC_PRTA {
            let key: u8 = if self.nkro_enabled { 0x16 } else { 0x23 };
            self.tap(0x0A, key, actions);
        }
    }
}

// ── Key events ───────────────────────────────────────────────────────
/// The keycode of an event: on press the key resolved through the active
/// layers, on release the code stored at its press.
pub open spec fn event_keycode(d: Device, row: int, col: int, pressed: bool) -> u16 {
    if pressed {
        resolved_keycode(d.active_layers@.take(d.active_layer_count as int), row, col)
    } else {
        d.keycode_track@[row]@[col]
    }
}

/// `a` is `b` with keycode `v` stored for the key at `(row, col)`.
pub open spec fn code_tracked(b: Device, a: Device, row: int, col: int, v: u16) -> bool {
    &&& forall|r: int, c: int|
        0 <= r < 6 && 0 <= c < 21 ==> #[trigger] a.keycode_track@[r]@[c] == (if r == row && c == col {
            v
        } else {
            b.keycode_track@[r]@[c]
        })
    &&& a == (Device { keycode_track: a.keycode_track, ..b })
}

/// The LED of the framebuffer cell of the key at `(row, col)`, or `NO_LED`.
pub open spec fn key_led(row: u8, col: u8) -> u8 {
    if (row as int) < animation::MATRIX_ROWS && (col as int) < animation::MATRIX_COLS {
        animation::ordered_led(row as int, col as int)
    } else {
        animation::NO_LED
    }
}

/// A press noted: the inactivity timer restarts, the hit is recorded for
/// the reactive effects (at the LED of the key's framebuffer cell), and in
/// the typing heatmap mode the framebuffer heats up around the key.
pub open spec fn press_noted(b: Device, a: Device, row: u8, col: u8) -> bool {
    &&& a.sleep.state() == (SleepState { no_act_time: 0, ..b.sleep.state() })
    &&& hit_noted(b.rgb, a.rgb, row, col)
    &&& a == (Device { sleep: a.sleep, rgb: a.rgb, ..b })
}

/// The hit of a press recorded for the reactive effects (at the LED of the
/// key's framebuffer cell), and in the typing heatmap mode the framebuffer
/// heated around the key.
pub open spec fn hit_noted(b: RgbMatrix, a: RgbMatrix, row: u8, col: u8) -> bool {
    exists|mid: RgbMatrix|
        #[trigger] hit_registered(b, mid, key_led(row, col), b.anim_tick) && (if b.mode == 48 {
            heat_pressed(mid, a, row, col)
        } else {
            a == mid
        })
}

/// The event noted: a press is noted and its keycode stored; a release
/// clears the stored keycode.
pub open spec fn event_noted(b: Device, a: Device, row: u8, col: u8, pressed: bool) -> bool {
    if pressed {
        exists|mid: Device| #[trigger] press_noted(b, mid, row, col) && code_tracked(mid, a, row as int, col as int, event_keycode(b, row as int, col as int, true))
    } else {
        code_tracked(b, a, row as int, col as int, 0)
    }
}

/// The layer stack after a momentary layer key.
pub open spec fn layer_done(b: Device, a: Device, layer: usize, pressed: bool) -> bool {
    let (layers, count) = if pressed {
        layers_pushed(b.active_layers@, b.active_layer_count as int, layer)
    } else {
        layers_popped(b.active_layers@, b.active_layer_count as int, layer)
    };
    &&& a.active_layers@ == layers
    &&& a.active_layer_count == count
    &&& a == (Device { active_layers: a.active_layers, active_layer_count: a.active_layer_count, ..b })
}

/// The key state after a basic keycode: modifiers set or cleared, other
/// keys placed in or removed from the six slots.
pub open spec fn key_state_done(b: Device, a: Device, code: u8, pressed: bool) -> bool {
    let bit = mod_bit(code);
    &&& (if bit != 0 {
        a.current_mods == (if pressed { b.current_mods | bit } else { b.current_mods & !bit })
            && a.current_keys@ == b.current_keys@
    } else {
        a.current_mods == b.current_mods && a.current_keys@ == (if pressed {
            keys_pressed(b.current_keys@, code)
        } else {
            keys_released(b.current_keys@, code)
        })
    })
    &&& a == (Device { current_mods: a.current_mods, current_keys: a.current_keys, ..b })
}

/// The UART frames of an NKRO report: the overflow bit report (when in use)
/// and the byte report, when anything changed.
pub open spec fn nkro_frames(res: crate::wireless::uart::NkroScan) -> Seq<Seq<u8>> {
    if res.byte_send || res.bit_send {
        (if res.bit_send { seq![tx_image(CMD_RPT_BIT_KB, 1, res.bit_buf.take(16))] } else { Seq::empty() })
            + seq![tx_image(CMD_RPT_BYTE_KB, 1, res.byte_buf)]
    } else {
        Seq::empty()
    }
}

/// `acts1` is `acts0` followed by the transmission of `frames`.
pub open spec fn frames_sent(acts0: Seq<HostAction>, acts1: Seq<HostAction>, frames: Seq<Seq<u8>>) -> bool {
    &&& acts1.len() == acts0.len() + frames.len()
    &&& acts1.take(acts0.len() as int) == acts0
    &&& forall|i: int| 0 <= i < frames.len() ==> (#[trigger] acts1[acts0.len() + i] matches HostAction::Uart(buf) && buf@ == frames[i])
}

/// The wireless NKRO report of bitmap `bits`: diffed against the last
/// report, framed and handed on; `bits` becomes the last report.
pub open spec fn nkro_sent(b: UartProtocol, a: UartProtocol, bits: Seq<u8>, acts0: Seq<HostAction>, acts1: Seq<HostAction>) -> bool {
    let res = nkro_result(b, bits);
    let changed = res.byte_send || res.bit_send;
    &&& frames_sent(acts0, acts1, nkro_frames(res))
    &&& a.bytekb_report_buf@ == res.byte_buf
    &&& a.uart_bit_report_buf@ == res.bit_buf
    &&& a.f_bit_kb_act == res.bit_send
    &&& a.bitkb_report_buf@ == bits
    &&& (changed ==> a.tx_buf@ == tx_image(CMD_RPT_BYTE_KB, 1, res.byte_buf))
    &&& (!changed ==> a.tx_buf == b.tx_buf)
    &&& a == (UartProtocol {
        bytekb_report_buf: a.bytekb_report_buf,
        uart_bit_report_buf: a.uart_bit_report_buf,
        f_bit_kb_act: a.f_bit_kb_act,
        bitkb_report_buf: a.bitkb_report_buf,
        tx_buf: a.tx_buf,
        ..b
    })
}

/// The wireless NKRO report of the current keys.
pub open spec fn nkro_reported(b: Device, a: Device, acts0: Seq<HostAction>, acts1: Seq<HostAction>) -> bool {
    &&& nkro_sent(b.proto, a.proto, nkro_report_bits(b.current_mods, b.current_keys@), acts0, acts1)
    &&& a == (Device { proto: a.proto, ..b })
}

/// The report of the current keys after a basic keycode: NKRO frames over
/// wireless with NKRO on, else a keyboard frame (handed on unless the link
/// is USB, where the main loop reports to the host).
pub open spec fn key_reported(b: Device, a: Device, acts0: Seq<HostAction>, acts1: Seq<HostAction>) -> bool {
    if b.nkro_enabled && b.proto.link_mode != LinkMode::Usb {
        nkro_reported(b, a, acts0, acts1)
    } else {
        &&& keyboard_sent(b.proto, a.proto, b.current_mods, b.current_keys@)
        &&& acts1 == flushed(a.proto, acts0)
        &&& a == (Device { proto: a.proto, ..b })
    }
}

/// A basic keycode handled: key state updated and reported.
pub open spec fn basic_key_done(b: Device, a: Device, acts0: Seq<HostAction>, acts1: Seq<HostAction>, code: u8, pressed: bool) -> bool {
    exists|mid: Device| #[trigger] key_state_done(b, mid, code, pressed) && key_reported(mid, a, acts0, acts1)
}

/// The handling of an event's keycode: none for `KC_NO`; momentary layer
/// keys move the layer stack; custom keycodes; basic keycodes.
pub open spec fn keycode_done(b: Device, a: Device, acts0: Seq<HostAction>, acts1: Seq<HostAction>, kc: u16, pressed: bool) -> bool {
    if kc == keymap::KC_NO {
        acts1 == acts0 && a == b
    } else if (kc & 0xFFF0) == keymap::MO {
        acts1 == acts0 && layer_done(b, a, (kc & 0x0F) as usize, pressed)
    } else if kc >= 0x5C00 {
        custom_done(b, a, acts0, acts1, kc, pressed)
    } else {
        basic_key_done(b, a, acts0, acts1, kc as u8, pressed)
    }
}

/// The frames of an NKRO report from the state after the diff: the
/// overflow bit report (when in use) and the byte report, when anything
/// changed.
pub open spec fn frames_of(p: UartProtocol, changed: bool) -> Seq<Seq<u8>> {
    if changed {
        (if p.f_bit_kb_act { seq![tx_image(CMD_RPT_BIT_KB, 1, p.uart_bit_report_buf@.take(16))] } else { Seq::empty() })
            + seq![tx_image(CMD_RPT_BYTE_KB, 1, p.bytekb_report_buf@)]
    } else {
        Seq::empty()
    }
}

/// Frames the NKRO reports after a diff and hands each frame on.
fn frame_nkro(proto: &mut UartProtocol, changed: bool, actions: &mut Vec<HostAction>)
    ensures
        frames_sent(old(actions)@, final(actions)@, frames_of(*old(proto), changed)),
        changed ==> final(proto).tx_buf@ == tx_image(CMD_RPT_BYTE_KB, 1, old(proto).bytekb_report_buf@),
        !changed ==> final(proto).tx_buf == old(proto).tx_buf,
        *final(proto) == (UartProtocol { tx_buf: final(proto).tx_buf, ..*old(proto) }),
{
    let ghost acts0 = actions@;
    if changed {
        if proto.f_bit_kb_act {
            let bit_report = vstd::slice::slice_to_vec(
                vstd::slice::slice_subrange(vstd::array::array_as_slice(&proto.uart_bit_report_buf), 0, 16),
            );
            let _ = proto.build_report(CMD_RPT_BIT_KB, bit_report.as_slice(), 16);
            actions.push(HostAction::Uart(proto.tx_buf));
        }
        let byte_report = proto.bytekb_report_buf;
        let _ = proto.build_report(CMD_RPT_BYTE_KB, vstd::array::array_as_slice(&byte_report), 8);
        actions.push(HostAction::Uart(proto.tx_buf));
    }
    proof {
        let frames = frames_of(*old(proto), changed);
        assert(actions@.take(acts0.len() as int) =~= acts0);
        assert forall|i: int| 0 <= i < frames.len() implies (#[trigger] actions@[acts0.len() + i] matches HostAction::Uart(buf) && buf@ == frames[i]) by {
        }
    }
}

/// Diffs bitmap `bits` against the last NKRO report, frames what changed
/// and keeps `bits` as the last report.
fn send_nkro_bits(proto: &mut UartProtocol, bits: [u8; 32], actions: &mut Vec<HostAction>)
    ensures
        nkro_sent(*old(proto), *final(proto), bits@, old(actions)@, final(actions)@),
{
    let ghost res = nkro_result(*proto, bits@);
    let changed = proto.auto_nkey_send(&bits);
    let ghost p1 = *proto;
    assert(nkro_frames(res) == frames_of(p1, changed));
    frame_nkro(proto, changed, actions);
    proto.bitkb_report_buf = bits;
}

/// Records the hit of a press at `(row, col)`.
fn note_hit(rgb: &mut RgbMatrix, row: u8, col: u8)
    ensures
        hit_noted(*old(rgb), *final(rgb), row, col),
{
    let led_idx = animation::matrix_co_ordered(row as usize, col as usize);
    let tick = rgb.anim_tick;
    rgb.register_hit(led_idx, tick);
    let ghost mid = *rgb;
    assert(led_idx == key_led(row, col));
    if rgb.mode == 48 {
        animation::typing_heatmap_keypress(rgb, row, col);
    }
    assert(hit_registered(*old(rgb), mid, key_led(row, col), old(rgb).anim_tick));
}

impl Device {
    fn note_press(&mut self, row: u8, col: u8)
        ensures
            press_noted(*old(self), *final(self), row, col),
    {
        self.sleep.on_activity();
        note_hit(&mut self.rgb, row, col);
    }

    fn track(&mut self, row: usize, col: usize, kc: u16)
        requires
            row < 6,
            col < 21,
        ensures
            code_tracked(*old(self), *final(self), row as int, col as int, kc),
    {
        let mut line = self.keycode_track[row];
        line[col] = kc;
        self.keycode_track[row] = line;
    }

    fn push_layer(&mut self, layer: usize)
        requires
            old(self).active_layer_count <= 4,
        ensures
            layer_done(*old(self), *final(self), layer, true),
    {
        if self.active_layer_count < 4 {
            self.active_layers[self.active_layer_count] = layer;
            self.active_layer_count = self.active_layer_count + 1;
        }
    }

    fn pop_layer(&mut self, layer: usize)
        requires
            old(self).active_layer_count <= 4,
        ensures
            layer_done(*old(self), *final(self), layer, false),
    {
        let count = self.active_layer_count;
        let mut pos: usize = 0;
        while pos < count && self.active_layers[pos] != layer
            invariant
                pos <= count <= 4,
                count == self.active_layer_count,
                *self == *old(self),
                layer_pos(self.active_layers@, count as int, layer, 0)
                    == layer_pos(self.active_layers@, count as int, layer, pos as int),
            decreases count - pos,
        {
            pos = pos + 1;
        }
        if pos < count {
            let mut layers = self.active_layers;
            let mut i = pos;
            while i + 1 < count
                invariant
                    pos <= i < count <= 4,
                    forall|k: int|
                        0 <= k < 4 ==> #[trigger] layers@[k] == (if pos <= k < i {
                            old(self).active_layers@[k + 1]
                        } else {
                            old(self).active_layers@[k]
                        }),
                decreases count - i,
            {
                layers[i] = layers[i + 1];
                i = i + 1;
            }
            assert(layers@ =~= layers_popped(old(self).active_layers@, count as int, layer).0);
            self.active_layers = layers;
            self.active_layer_count = count - 1;
        }
    }

    fn update_key_state(&mut self, code: u8, pressed: bool)
        ensures
            key_state_done(*old(self), *final(self), code, pressed),
    {
        let bit = modifier_bit(code);
        if bit != 0 {
            self.current_mods = if pressed { self.current_mods | bit } else { self.current_mods & !bit };
        } else if pressed {
            press_key(&mut self.current_keys, code);
        } else {
            release_key(&mut self.current_keys, code);
        }
    }

    /// The 32-byte wireless NKRO report of the current state.
    fn nkro_report(&self) -> (bits: [u8; 32])
        ensures
            bits@ == nkro_report_bits(self.current_mods, self.current_keys@),
    {
        let mut bits = [0u8; 32];
        assert(bits@ =~= Seq::new(32, |_i: int| 0u8));
        fill_key_bits(&self.current_keys, &mut bits, 1);
        bits[0] = self.current_mods;
        bits
    }

    /// Frames the wireless NKRO report, handing on each frame.
    fn send_nkro_report(&mut self, actions: &mut Vec<HostAction>)
        ensures
            nkro_reported(*old(self), *final(self), old(actions)@, final(actions)@),
    {
        let bits = self.nkro_report();
        send_nkro_bits(&mut self.proto, bits, actions);
    }

    fn report_keys(&mut self, actions: &mut Vec<HostAction>)
        ensures
            key_reported(*old(self), *final(self), old(actions)@, final(actions)@),
    {
        if self.nkro_enabled && self.proto.link_mode != LinkMode::Usb {
            self.send_nkro_report(actions);
        } else {
            let _ = report::send_keyboard(&mut self.proto, self.current_mods, &self.current_keys);
            flush(&self.proto, actions);
        }
    }

    fn basic_key(&mut self, code: u8, pressed: bool, actions: &mut Vec<HostAction>)
        ensures
            basic_key_done(*old(self), *final(self), old(actions)@, final(actions)@, code, pressed),
    {
        self.update_key_state(code, pressed);
        let ghost mid = *self;
        self.report_keys(actions);
        assert(key_state_done(*old(self), mid, code, pressed));
    }

    fn handle_keycode(&mut self, kc: u16, pressed: bool, actions: &mut Vec<HostAction>)
        requires
            old(self).active_layer_count <= 4,
        ensures
            keycode_done(*old(self), *final(self), old(actions)@, final(actions)@, kc, pressed),
    {
        if kc == keymap::KC_NO {
            return;
        }
        match keymap::mo_layer(kc) {
            Some(layer) => {
                if pressed {
                    self.push_layer(layer);
                } else {
                    self.pop_layer(layer);
                }
            },
            None => {
                if keymap::is_custom(kc) {
                    self.process_custom_keycode(kc, pressed, actions);
                } else {
                    self.basic_key(kc as u8, pressed, actions);
                }
            },
        }
    }

    /// Handles a debounced key event: a press is noted (inactivity timer,
    /// reactive effects) and its keycode resolved through the active layers
    /// and stored; a release uses the stored keycode, so releasing Fn before
    /// the key still releases the Fn-layer code. The keycode then moves the
    /// layer stack, runs its custom action, or updates and reports the key
    /// state; the frames and reports for the board are appended to `actions`.
    pub fn process_key_event(&mut self, row: u8, col: u8, pressed: bool, actions: &mut Vec<HostAction>)
        requires
            (row as int) < 6,
            (col as int) < 21,
            old(self).active_layer_count <= 4,
        ensures
            exists|mid: Device|
                #[trigger] event_noted(*old(self), mid, row, col, pressed) && keycode_done(
                    mid,
                    *final(self),
                    old(actions)@,
                    final(actions)@,
                    event_keycode(*old(self), row as int, col as int, pressed),
                    pressed,
                ),
            final(self).active_layer_count <= 4,
    {
        let ri = row as usize;
        let ci = col as usize;
        let kc = if pressed {
            self.note_press(row, col);
            let ghost noted = *self;
            let layers = vstd::slice::slice_subrange(vstd::array::array_as_slice(&self.active_layers), 0, self.active_layer_count);
            let kc = keymap::resolve_keycode(layers, ri, ci);
            assert(layers@ =~= old(self).active_layers@.take(old(self).active_layer_count as int));
            self.track(ri, ci, kc);
            assert(press_noted(*old(self), noted, row, col));
            kc
        } else {
            let kc = self.keycode_track[ri][ci];
            self.track(ri, ci, 0);
            kc
        };
        let ghost mid = *self;
        assert(event_noted(*old(self), mid, row, col, pressed));
        self.handle_keycode(kc, pressed, actions);
    }
}

// ── Laws ─────────────────────────────────────────────────────────────
/// Handling a keycode leaves the stored keycodes as they were.
pub proof fn lemma_keycode_done_keeps_track(
    b: Device,
    a: Device,
    acts0: Seq<HostAction>,
    acts1: Seq<HostAction>,
    kc: u16,
    pressed: bool,
)
    requires
        keycode_done(b, a, acts0, acts1, kc, pressed),
    ensures
        a.keycode_track == b.keycode_track,
{
    if kc == keymap::KC_NO {
    } else if (kc & 0xFFF0) == keymap::MO {
    } else if kc >= 0x5C00 {
        lemma_custom_keeps_track(b, a, acts0, acts1, kc, pressed);
    } else {
        let mid = choose|mid: Device| #[trigger] key_state_done(b, mid, kc as u8, pressed) && key_reported(mid, a, acts0, acts1);
        assert(mid.keycode_track == b.keycode_track);
    }
}

/// A custom keycode leaves the stored keycodes as they were.
proof fn lemma_custom_keeps_track(b: Device, a: Device, acts0: Seq<HostAction>, acts1: Seq<HostAction>, kc: u16, pressed: bool)
    requires
        custom_done(b, a, acts0, acts1, kc, pressed),
    ensures
        a.keycode_track == b.keycode_track,
{
}

/// The keycode a press resolves is stored for its key, so the key's
/// release handles that code, whatever the layers are by then.
pub proof fn lemma_release_uses_pressed_code(
    b: Device,
    a: Device,
    row: u8,
    col: u8,
    acts0: Seq<HostAction>,
    acts1: Seq<HostAction>,
)
    requires
        (row as int) < 6,
        (col as int) < 21,
        exists|mid: Device|
            #[trigger] event_noted(b, mid, row, col, true) && keycode_done(
                mid,
                a,
                acts0,
                acts1,
                event_keycode(b, row as int, col as int, true),
                true,
            ),
    ensures
        event_keycode(a, row as int, col as int, false) == event_keycode(b, row as int, col as int, true),
{
    let kc = event_keycode(b, row as int, col as int, true);
    let mid = choose|mid: Device| #[trigger] event_noted(b, mid, row, col, true) && keycode_done(mid, a, acts0, acts1, kc, true);
    lemma_keycode_done_keeps_track(mid, a, acts0, acts1, kc, true);
    let noted = choose|m: Device| #[trigger] press_noted(b, m, row, col) && code_tracked(m, mid, row as int, col as int, kc);
    assert(mid.keycode_track@[row as int]@[col as int] == kc);
}

/// An event of one key leaves the keycode stored for every other key.
pub proof fn lemma_event_keeps_other_codes(
    b: Device,
    a: Device,
    row: u8,
    col: u8,
    pressed: bool,
    r: int,
    c: int,
    acts0: Seq<HostAction>,
    acts1: Seq<HostAction>,
)
    requires
        0 <= r < 6,
        0 <= c < 21,
        r != row || c != col,
        exists|mid: Device|
            #[trigger] event_noted(b, mid, row, col, pressed) && keycode_done(
                mid,
                a,
                acts0,
                acts1,
                event_keycode(b, row as int, col as int, pressed),
                pressed,
            ),
    ensures
        a.keycode_track@[r]@[c] == b.keycode_track@[r]@[c],
{
    let kc = event_keycode(b, row as int, col as int, pressed);
    let mid = choose|mid: Device| #[trigger] event_noted(b, mid, row, col, pressed) && keycode_done(mid, a, acts0, acts1, kc, pressed);
    lemma_keycode_done_keeps_track(mid, a, acts0, acts1, kc, pressed);
    if pressed {
        let noted = choose|m: Device| #[trigger] press_noted(b, m, row, col) && code_tracked(m, mid, row as int, col as int, kc);
        assert(mid.keycode_track@[r]@[c] == noted.keycode_track@[r]@[c]);
    } else {
        assert(mid.keycode_track@[r]@[c] == b.keycode_track@[r]@[c]);
    }
}

/// The first position of `layer` from `i` on is past every position before
/// `count` that holds another layer.
proof fn lemma_layer_pos_absent(layers: Seq<usize>, count: int, layer: usize, i: int, end: int)
    requires
        0 <= i <= end < count,
        layers[end] == layer,
        forall|j: int| i <= j < end ==> layers[j] != layer,
    ensures
        layer_pos(layers, count, layer, i) == end,
    decreases end - i,
{
    if i < end {
        lemma_layer_pos_absent(layers, count, layer, i + 1, end);
    }
}

/// Pressing and releasing a momentary layer key that is not already active
/// gives back the layer stack: the same count and the same active layers.
pub proof fn lemma_layer_press_release(layers: Seq<usize>, count: int, layer: usize)
    requires
        layers.len() == 4,
        0 <= count < 4,
        forall|j: int| 0 <= j < count ==> layers[j] != layer,
    ensures
        ({
            let (l1, c1) = layers_pushed(layers, count, layer);
            let (l2, c2) = layers_popped(l1, c1, layer);
            &&& c2 == count
            &&& l2.take(count) == layers.take(count)
        }),
{
    let (l1, c1) = layers_pushed(layers, count, layer);
    lemma_layer_pos_absent(l1, c1, layer, 0, count);
    let (l2, c2) = layers_popped(l1, c1, layer);
    assert(l2.take(count) =~= layers.take(count));
}

/// Without `code` among the keys, the first slot for it is the first free
/// slot from `i`, and no slot before it is free.
proof fn lemma_free_slot_absent(keys: Seq<u8>, code: u8, i: int)
    requires
        keys.len() == 6,
        0 <= i <= 6,
        !keys.contains(code),
    ensures
        i <= free_slot(keys, code, i) <= 6,
        free_slot(keys, code, i) < 6 ==> keys[free_slot(keys, code, i)] == 0,
        forall|j: int| i <= j < free_slot(keys, code, i) ==> keys[j] != 0,
    decreases 6 - i,
{
    if i < 6 && keys[i] != 0 {
        assert(keys[i] != code);
        lemma_free_slot_absent(keys, code, i + 1);
    }
}

/// The first slot holding `code` from `i` is `end` when `end` holds it and
/// no slot between does.
proof fn lemma_held_slot_at(keys: Seq<u8>, code: u8, i: int, end: int)
    requires
        keys.len() == 6,
        0 <= i <= end < 6,
        keys[end] == code,
        forall|j: int| i <= j < end ==> keys[j] != code,
    ensures
        held_slot(keys, code, i) == end,
    decreases end - i,
{
    if i < end {
        lemma_held_slot_at(keys, code, i + 1, end);
    }
}

/// Without `code` among the keys, no slot from `i` holds it.
proof fn lemma_held_slot_absent(keys: Seq<u8>, code: u8, i: int)
    requires
        keys.len() == 6,
        0 <= i <= 6,
        !keys.contains(code),
    ensures
        held_slot(keys, code, i) == 6,
    decreases 6 - i,
{
    if i < 6 {
        assert(keys[i] != code);
        lemma_held_slot_absent(keys, code, i + 1);
    }
}

/// HID modifier keycodes: code `0xE0 + i` (left Ctrl, Shift, Alt, GUI, then
/// the right ones) owns bit `1 << i` of the modifier byte. Pressing it sets
/// exactly that bit, releasing it clears exactly that bit, and the six key
/// slots are left alone; any other code leaves the modifier byte as it was.
pub proof fn lemma_modifier_keys(b: Device, a: Device, code: u8, pressed: bool)
    requires
        key_state_done(b, a, code, pressed),
    ensures
        0xE0 <= code <= 0xE7 ==> {
            let bit = 1u8 << ((code - 0xE0) as u8);
            &&& a.current_mods == (if pressed { b.current_mods | bit } else { b.current_mods & !bit })
            &&& a.current_keys@ == b.current_keys@
        },
        !(0xE0 <= code <= 0xE7) ==> a.current_mods == b.current_mods,
{
    assert(1u8 << 0u8 == 0x01u8 && 1u8 << 1u8 == 0x02u8 && 1u8 << 2u8 == 0x04u8 && 1u8 << 3u8 == 0x08u8) by (bit_vector);
    assert(1u8 << 4u8 == 0x10u8 && 1u8 << 5u8 == 0x20u8 && 1u8 << 6u8 == 0x40u8 && 1u8 << 7u8 == 0x80u8) by (bit_vector);
}

/// Pressing and releasing a key that was not held gives back the key
/// state: the same modifiers and the same six slots.
pub proof fn lemma_key_press_release(b: Device, mid: Device, a: Device, code: u8)
    requires
        code != 0,
        !b.current_keys@.contains(code),
        b.current_mods & mod_bit(code) == 0,
        key_state_done(b, mid, code, true),
        key_state_done(mid, a, code, false),
    ensures
        a.current_mods == b.current_mods,
        a.current_keys@ == b.current_keys@,
        a == (Device { current_keys: a.current_keys, ..b }),
{
    let bit = mod_bit(code);
    if bit != 0 {
        let m = b.current_mods;
        assert((m | bit) & !bit == m) by (bit_vector)
            requires
                m & bit == 0;
    } else {
        let keys = b.current_keys@;
        lemma_free_slot_absent(keys, code, 0);
        let i = free_slot(keys, code, 0);
        if i < 6 {
            let k1 = keys.update(i, code);
            assert forall|j: int| 0 <= j < i implies k1[j] != code by {
                assert(keys[j] != code);
            }
            lemma_held_slot_at(k1, code, 0, i);
            assert(k1.update(i, 0) =~= keys);
        } else {
            lemma_held_slot_absent(keys, code, 0);
        }
    }
}

} // verus!
