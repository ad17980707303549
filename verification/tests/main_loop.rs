use air96::control::{
    dfu_hold_step, dial_debounce, divider_step, flush_due, i2c_flush_step, long_press_step,
    periodic_step, pwm_chunk, rf_sync_start, rx_idle_step, sequence_step, show_battery_number,
    show_reset_blink, show_rgb_test, show_side_output, status_poll, I2cStep, SyncStart,
    RGB_TEST_COLOURS,
};
use air96::device::Device;
use air96::led::rgb::RgbMatrix;
use air96::usb::{boot_report, nkro_boot_keys, pending_after_push, PushOutcome, SuspendLatch};
use air96::wireless::uart::{LinkMode, RfState, UartProtocol, CMD_RF_STS_SYSC, CMD_SET_24G_NAME, CMD_SET_LINK};

#[test]
fn escape_alone_counts_to_bootloader() {
    let keys = [0, 0x29, 0, 0, 0, 0];
    assert_eq!(dfu_hold_step(&keys, 0), (1, false));
    assert_eq!(dfu_hold_step(&keys, 2999), (3000, true));
    assert_eq!(dfu_hold_step(&keys, u16::MAX), (u16::MAX, true));
}

#[test]
fn escape_with_other_key_resets() {
    assert_eq!(dfu_hold_step(&[0x29, 0x04, 0, 0, 0, 0], 1200), (0, false));
    assert_eq!(dfu_hold_step(&[0; 6], 1200), (0, false));
}

#[test]
fn dial_needs_500_stable_ms() {
    assert_eq!(dial_debounce(true, false, 300), (true, 0));
    assert_eq!(dial_debounce(true, true, 499), (true, 500));
    assert_eq!(dial_debounce(true, true, 500), (true, 500));
}

#[test]
fn long_press_fires_at_sixty() {
    assert_eq!(long_press_step(true, 58), (true, 59, false));
    assert_eq!(long_press_step(true, 59), (false, 60, true));
    assert_eq!(long_press_step(false, 30), (false, 0, false));
}

#[test]
fn sequence_runs_through_its_phases() {
    assert_eq!(sequence_step(1, 5, false, 6, 200), (1, 5, false));
    assert_eq!(sequence_step(1, 5, true, 6, 200), (1, 4, false));
    assert_eq!(sequence_step(1, 0, true, 6, 200), (2, 200, false));
    assert_eq!(sequence_step(6, 0, true, 6, 200), (0, 200, true));
}

#[test]
fn reset_blink_and_rgb_test_colours() {
    let mut m = RgbMatrix::new();
    show_reset_blink(&mut m, 1);
    assert_eq!(m.buffer[0], (0xFF, 0xFF, 0xFF));
    show_reset_blink(&mut m, 2);
    assert_eq!(m.buffer[50], (0, 0, 0));
    show_rgb_test(&mut m, 3);
    assert_eq!(m.buffer[7], (0x00, 0x00, 0xFF));
    assert_eq!(RGB_TEST_COLOURS[6], (0x00, 0x80, 0x80));
}

#[test]
fn battery_number_lights_bars() {
    let mut m = RgbMatrix::new();
    show_battery_number(&mut m, 35);
    // 35 %: bars 0..=3 (LEDs 29..26) orange, LED 25 untouched.
    for led in 26..30 {
        assert_eq!(m.buffer[led], (0xFF, 0x40, 0x00));
    }
    assert_eq!(m.buffer[25], (0, 0, 0));
    let mut m = RgbMatrix::new();
    show_battery_number(&mut m, 0);
    assert_eq!(m.buffer[29], (0, 0, 0));
    let mut m = RgbMatrix::new();
    show_battery_number(&mut m, 100);
    assert_eq!(m.buffer[20], (0x00, 0xFF, 0x00));
}

#[test]
fn side_output_overrides_side_leds() {
    let mut m = RgbMatrix::new();
    let mut out = [(0u8, 0u8, 0u8); 10];
    out[3] = (1, 2, 3);
    show_side_output(&mut m, &out);
    assert_eq!(m.buffer[103], (1, 2, 3));
}

#[test]
fn flush_machine_walks_both_chips() {
    assert_eq!(i2c_flush_step(1, true, true), (I2cStep::Unlock(0x50), 2, false, false));
    assert_eq!(i2c_flush_step(1, false, true), (I2cStep::Unlock(0x50), 5, false, false));
    assert_eq!(
        i2c_flush_step(4, true, true),
        (I2cStep::Chunk { addr: 0x50, reg: 0x80, start: 128 }, 5, true, false)
    );
    assert_eq!(i2c_flush_step(5, true, false), (I2cStep::Unlock(0x53), 0, false, false));
    assert_eq!(
        i2c_flush_step(8, true, true),
        (I2cStep::Chunk { addr: 0x53, reg: 0x80, start: 128 }, 0, false, true)
    );
    assert_eq!(i2c_flush_step(0, true, true), (I2cStep::Idle, 0, false, false));
    assert!(flush_due(0, true, 10));
    assert!(!flush_due(3, true, 10));
    assert!(!flush_due(0, true, 9));
}

#[test]
fn pwm_chunk_prefixes_register() {
    let mut buf = [0u8; 192];
    for (i, b) in buf.iter_mut().enumerate() {
        *b = i as u8;
    }
    let tx = pwm_chunk(&buf, 0x40, 64);
    assert_eq!(tx[0], 0x40);
    assert_eq!(tx[1], 64);
    assert_eq!(tx[64], 127);
}

#[test]
fn timers_and_idle_detection() {
    assert_eq!(divider_step(8, 10), (9, false));
    assert_eq!(divider_step(9, 10), (0, true));
    assert_eq!(rx_idle_step(3, 0), (1, false));
    assert_eq!(rx_idle_step(3, 1), (0, true));
    assert_eq!(rx_idle_step(0, 1), (0, false));
    assert_eq!(periodic_step(199, true, 100), (0, true));
    assert_eq!(periodic_step(199, true, 3000), (0, false));
    assert_eq!(periodic_step(199, false, 100), (200, false));
}

#[test]
fn sync_start_order() {
    let mut p = UartProtocol::new();
    p.f_rf_reset = true;
    p.f_send_channel = true;
    assert_eq!(rf_sync_start(&mut p), SyncStart::ResetModule);
    assert!(p.f_send_channel);
    assert_eq!(rf_sync_start(&mut p), SyncStart::SendChannel);
    assert_eq!(p.tx_buf[1], CMD_SET_LINK);
    assert_eq!(rf_sync_start(&mut p), SyncStart::Nothing);
}

#[test]
fn status_poll_wireless_and_usb() {
    let mut p = UartProtocol::new();
    p.link_mode = LinkMode::Bt1;
    p.sync_lost = 9;
    let mut pre = 0u8;
    assert!(status_poll(&mut p, &mut pre));
    assert_eq!(p.tx_buf[1], CMD_RF_STS_SYSC);
    assert_eq!(p.sync_lost, 0);
    assert!(p.f_rf_reset);
    let mut p = UartProtocol::new();
    let mut pre = 8u8;
    assert!(!status_poll(&mut p, &mut pre));
    assert_eq!(pre, 9);
    assert!(status_poll(&mut p, &mut pre));
    assert_eq!(pre, 0);
}

#[test]
fn link_dial_switches_and_releases() {
    let mut d = Device::new();
    d.proto.link_mode = LinkMode::Bt2;
    d.current_keys = [4, 0, 0, 0, 0, 0];
    assert!(d.apply_link_dial(true));
    assert_eq!(d.proto.link_mode, LinkMode::Usb);
    assert_eq!(d.current_keys, [0; 6]);
    assert!(d.proto.f_send_channel);
    assert!(!d.apply_link_dial(true));
    d.proto.rf_channel = 2;
    assert!(!d.apply_link_dial(false));
    assert_eq!(d.proto.link_mode, LinkMode::Bt2);
}

#[test]
fn os_dial_selects_layer_and_nkro() {
    let mut d = Device::new();
    assert_eq!(d.proto.sys_sw_state, 0xA2);
    assert!(!d.apply_os_dial(true));
    assert!(d.apply_os_dial(false));
    assert_eq!(d.proto.sys_sw_state, 0xA1);
    assert_eq!(d.active_layers[0], 2);
    assert!(d.nkro_enabled);
    assert!(d.side.sys_show_flag);
    assert!(d.apply_os_dial(true));
    assert_eq!(d.active_layers[0], 0);
    assert!(!d.nkro_enabled);
}

#[test]
fn device_reset_restores_defaults() {
    let mut d = Device::new();
    d.proto.link_mode = LinkMode::Bt3;
    d.reset_link();
    assert_eq!(d.proto.link_mode, LinkMode::Bt1);
    assert_eq!(d.proto.rf_channel, 1);
    assert_eq!(d.proto.tx_buf[1], CMD_SET_LINK);
    d.rgb.mode = 9;
    d.active_layer_count = 3;
    d.restore_defaults();
    assert_eq!(d.rgb.mode, 4);
    assert_eq!(d.active_layer_count, 1);
    assert!(d.save_pending);
    let c = d.current_config();
    assert_eq!(c.rgb_mode, 4);
    assert_eq!(c.rgb_speed, 255);
}

#[test]
fn pairing_uses_held_channel() {
    let mut d = Device::new();
    d.rf_sw_temp = 2;
    d.start_link_pairing();
    assert_eq!(d.proto.link_mode, LinkMode::Bt2);
    assert_eq!(d.proto.ble_channel, 2);
    assert_eq!(d.proto.rf_state, RfState::Linking);
}

#[test]
fn link_guard_blinks_and_names() {
    let mut d = Device::new();
    d.proto.rf_state = RfState::Disconnect;
    d.proto.disconnect_delay = 10;
    assert!(!d.link_blink_guard());
    assert_eq!(d.side.rf_blink_cnt, 3);
    assert_eq!(d.side.link_state_temp, 4);
    let mut d = Device::new();
    d.proto.rf_state = RfState::Connect;
    d.proto.link_mode = LinkMode::Rf24;
    assert!(d.link_blink_guard());
    assert_eq!(d.proto.tx_buf[1], CMD_SET_24G_NAME);
    assert!(!d.link_blink_guard());
}

#[test]
fn wake_and_usb_report() {
    let mut d = Device::new();
    d.sleep.f_wakeup_prepare = true;
    d.wake_for_keys();
    assert!(!d.sleep.f_wakeup_prepare);
    assert!(d.rgb.enabled);
    d.current_keys = [0x29, 0x04, 0, 0, 0, 0];
    d.current_mods = 0x02;
    assert_eq!(d.usb_keyboard_report(), (0x02, [0x04, 0x29, 0, 0, 0, 0]));
    d.nkro_enabled = false;
    assert_eq!(d.usb_keyboard_report(), (0x02, [0x29, 0x04, 0, 0, 0, 0]));
}

#[test]
fn usb_reports_and_latches() {
    assert_eq!(boot_report(0x05, &[4, 5, 6, 0, 0, 0]), [0x05, 0, 4, 5, 6, 0, 0, 0]);
    let mut bits = [0u8; 31];
    for k in [4usize, 9, 30, 41, 50, 60, 70] {
        bits[k / 8] |= 1 << (k % 8);
    }
    assert_eq!(nkro_boot_keys(&bits), [4, 9, 30, 41, 50, 60]);
    let mut l = SuspendLatch::new();
    l.observe(true);
    l.observe(true);
    assert_eq!(l.take_suspend_edge(), (true, false));
    assert_eq!(l.take_suspend_edge(), (false, false));
    l.observe(false);
    assert_eq!(l.take_suspend_edge(), (false, true));
    let r = [1u8; 8];
    assert_eq!(pending_after_push(Some(r), PushOutcome::WouldBlock), Some(r));
    assert_eq!(pending_after_push(Some(r), PushOutcome::Sent), None);
    assert_eq!(pending_after_push(Some(r), PushOutcome::Failed), None);
}

#[test]
fn six_held_keys_survive_the_boot_report() {
    let mut d = Device::new();
    d.current_keys = [0x59, 0x04, 0x61, 0x2C, 0x1E, 0x10];
    let (_, keys) = d.usb_keyboard_report();
    for k in d.current_keys {
        assert!(keys.contains(&k));
    }
}

#[test]
fn long_press_fires_after_three_seconds() {
    let (mut held, mut delay) = (true, 0u16);
    for tick in 1..=60 {
        let (h, d, fired) = long_press_step(held, delay);
        held = h;
        delay = d;
        assert_eq!(fired, tick == 60);
    }
    assert!(!held);
}

#[test]
fn escape_fires_after_three_seconds() {
    let keys = [0x29, 0, 0, 0, 0, 0];
    let mut t = 0u16;
    for ms in 1..=3000u32 {
        let (next, due) = dfu_hold_step(&keys, t);
        t = next;
        assert_eq!(due, ms == 3000);
    }
}
