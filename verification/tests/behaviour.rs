use air96::config::eeprom;
use air96::device::{Device, HostAction};
use air96::keyboard::keymap;
use air96::keyboard::matrix::{eager_pk_step, Matrix, DEBOUNCE_MS};
use air96::led::animation;
use air96::led::rgb;
use air96::led::side;
use air96::wireless::uart::{LinkMode, RfState, UartProtocol, CMD_RPT_BYTE_KB, UART_HEAD};
use air96::control::{adv_retry, RailChange, ADV_ATTEMPTS, RESET_BLINK_MS};
use air96::via::dynamic_keymap_get_keycode;
use air96::wireless::sleep::SleepManager;
use air96::wireless::uart::{RxState, CMD_CLR_DEVICE, CMD_HAND, CMD_NEW_ADV, CMD_SLEEP};

fn zero_page() -> [u8; 2048] {
    [0xFFu8; 2048]
}

// ===== Config page =====
#[test]
fn blank_page_loads_nothing() {
    let page = zero_page();
    assert!(eeprom::load(&page).is_none());
}

#[test]
fn save_then_load_gives_config_back() {
    let mut page = zero_page();
    let mut cfg = eeprom::UserConfig::default();
    cfg.side_mode = 3;
    cfg.side_brightness = 5;
    cfg.side_speed = 1;
    cfg.side_colour = 7;
    cfg.side_rgb = false;
    cfg.sleep_enable = false;
    cfg.rgb_mode = 17;
    cfg.rgb_hue = 40;
    cfg.rgb_sat = 200;
    cfg.rgb_val = 90;
    cfg.rgb_speed = 33;
    cfg.rgb_enabled = false;
    eeprom::save(&cfg, &mut page);
    let back = eeprom::load(&page).expect("saved config loads");
    assert_eq!(back.side_mode, 3);
    assert_eq!(back.side_brightness, 5);
    assert_eq!(back.side_speed, 1);
    assert_eq!(back.side_colour, 7);
    assert!(!back.side_rgb);
    assert!(!back.sleep_enable);
    assert_eq!(back.rgb_mode, 17);
    assert_eq!(back.rgb_hue, 40);
    assert_eq!(back.rgb_sat, 200);
    assert_eq!(back.rgb_val, 90);
    assert_eq!(back.rgb_speed, 33);
    assert!(!back.rgb_enabled);
}

#[test]
fn write_then_read_byte() {
    let mut page = zero_page();
    eeprom::write_byte(&mut page, 100, 0x3C);
    assert_eq!(eeprom::read_byte(&page, 100), 0x3C);
    assert_eq!(eeprom::read_byte(&page, 101), 0xFF);
}

#[test]
fn reset_loads_defaults() {
    let mut page = zero_page();
    eeprom::reset_to_defaults(&mut page);
    let c = eeprom::load(&page).expect("defaults load");
    let d = eeprom::UserConfig::default();
    assert_eq!(c.side_mode, d.side_mode);
    assert_eq!(c.side_brightness, d.side_brightness);
    assert_eq!(c.side_speed, d.side_speed);
    assert_eq!(c.rgb_mode, d.rgb_mode);
    assert_eq!(c.rgb_val, d.rgb_val);
    assert_eq!(c.sleep_enable, d.sleep_enable);
}

// ===== VIA =====
fn run_via(data: &mut [u8; 32], page: &mut [u8; 2048]) -> air96::via::ViaReply {
    let mut m = rgb::RgbMatrix::new();
    let mut save = false;
    air96::via::via_command(data, &mut m, &mut save, page)
}

#[test]
fn via_protocol_version() {
    let mut page = zero_page();
    let mut data = [0u8; 32];
    data[0] = air96::via::ID_GET_PROTOCOL_VERSION;
    assert_eq!(run_via(&mut data, &mut page), air96::via::ViaReply::Send);
    assert_eq!(data[1], 0x00);
    assert_eq!(data[2], 0x0C);
}

#[test]
fn via_set_then_get_keycode() {
    let mut page = zero_page();
    eeprom::reset_to_defaults(&mut page);
    let mut data = [0u8; 32];
    data[0] = air96::via::ID_DYNAMIC_KEYMAP_SET_KEYCODE;
    data[1] = 2;
    data[2] = 3;
    data[3] = 4;
    data[4] = 0x12;
    data[5] = 0x34;
    run_via(&mut data, &mut page);
    assert_eq!(air96::via::dynamic_keymap_get_keycode(&page, 2, 3, 4), 0x1234);
    let mut q = [0u8; 32];
    q[0] = air96::via::ID_DYNAMIC_KEYMAP_GET_KEYCODE;
    q[1] = 2;
    q[2] = 3;
    q[3] = 4;
    run_via(&mut q, &mut page);
    assert_eq!(q[4], 0x12);
    assert_eq!(q[5], 0x34);
}

#[test]
fn via_keymap_reset_restores_compiled_keymap() {
    let mut page = zero_page();
    let mut data = [0u8; 32];
    data[0] = air96::via::ID_DYNAMIC_KEYMAP_RESET;
    run_via(&mut data, &mut page);
    assert_eq!(air96::via::dynamic_keymap_get_keycode(&page, 0, 3, 1), keymap::get_keycode(0, 3, 1));
    assert_eq!(air96::via::dynamic_keymap_get_keycode(&page, 0, 0, 0), 0x0029);
}

#[test]
fn via_bootloader_jump() {
    let mut page = zero_page();
    let mut data = [0u8; 32];
    data[0] = air96::via::ID_BOOTLOADER_JUMP;
    assert_eq!(run_via(&mut data, &mut page), air96::via::ViaReply::EnterBootloader);
}

#[test]
fn via_unknown_command_is_answered_unhandled() {
    let mut page = zero_page();
    let mut data = [0u8; 32];
    data[0] = 0x7E;
    assert_eq!(run_via(&mut data, &mut page), air96::via::ViaReply::Send);
    assert_eq!(data[0], 0xFF);
}

#[test]
fn via_firmware_version_value() {
    assert_eq!(air96::via::FIRMWARE_VERSION, 0x040708);
}

// ===== Matrix =====
#[test]
fn eager_step_fires_once_then_locks() {
    assert_eq!(eager_pk_step(true, false, 0), (true, DEBOUNCE_MS, Some(true)));
    assert_eq!(eager_pk_step(false, true, 3), (true, 3, None));
    assert_eq!(eager_pk_step(true, true, 0), (true, 0, None));
}

#[test]
fn matrix_scan_reports_press_and_release() {
    let mut m = Matrix::new();
    let mut pressed = [[false; 21]; 6];
    pressed[3][1] = true;
    let ev = m.scan(&pressed);
    assert_eq!(ev.len(), 1);
    assert_eq!((ev[0].row, ev[0].col, ev[0].pressed), (3, 1, true));
    // Held: no new event.
    assert_eq!(m.scan(&pressed).len(), 0);
    // Released inside the lockout: ignored until it runs out.
    pressed[3][1] = false;
    assert_eq!(m.scan(&pressed).len(), 0);
    for _ in 0..DEBOUNCE_MS {
        m.tick_debounce();
    }
    let ev = m.scan(&pressed);
    assert_eq!(ev.len(), 1);
    assert!(!ev[0].pressed);
}

// ===== Key events =====
#[test]
fn key_press_and_release_over_rf() {
    let mut d = Device::new();
    d.proto.link_mode = LinkMode::Rf24;
    d.nkro_enabled = false;
    let mut acts = Vec::new();
    d.process_key_event(3, 1, true, &mut acts);
    assert_eq!(d.current_keys[0], 0x04);
    assert_eq!(acts.len(), 1);
    match acts[0] {
        HostAction::Uart(buf) => {
            assert_eq!(buf[0], UART_HEAD);
            assert_eq!(buf[1], CMD_RPT_BYTE_KB);
            assert_eq!(buf[6], 0x04);
        }
        _ => panic!("expected a UART frame"),
    }
    d.process_key_event(3, 1, false, &mut acts);
    assert_eq!(d.current_keys, [0; 6]);
    assert_eq!(acts.len(), 2);
}

#[test]
fn modifier_key_sets_modifier_bit() {
    let mut d = Device::new();
    let mut acts = Vec::new();
    d.process_key_event(4, 0, true, &mut acts);
    assert_eq!(d.current_mods, 0x02);
    assert_eq!(d.current_keys, [0; 6]);
    d.process_key_event(4, 0, false, &mut acts);
    assert_eq!(d.current_mods, 0);
    // USB link: nothing handed to the wireless module.
    assert!(acts.is_empty());
}

#[test]
fn fn_layer_push_and_pop() {
    let mut d = Device::new();
    let mut acts = Vec::new();
    // Fn (MO(1)) pushes the Mac Fn layer; its release pops it.
    d.process_key_event(5, 10, true, &mut acts);
    assert_eq!(d.active_layer_count, 2);
    assert_eq!(d.active_layers[1], 1);
    d.process_key_event(3, 1, true, &mut acts);
    d.process_key_event(5, 10, false, &mut acts);
    assert_eq!(d.active_layer_count, 1);
    assert_eq!(d.active_layers[0], 0);
    d.process_key_event(3, 1, false, &mut acts);
    assert_eq!(d.keycode_track[3][1], 0);
}

#[test]
fn consumer_key_over_usb_is_pending() {
    let mut d = Device::new();
    let mut acts = Vec::new();
    d.process_custom_keycode(keymap::KC_VOLU, true, &mut acts);
    assert_eq!(d.pending_consumer_usb, 0x00E9);
}

#[test]
fn break_all_keys_clears_state() {
    let mut d = Device::new();
    d.current_keys = [4, 5, 0, 0, 0, 0];
    d.current_mods = 0x11;
    d.break_all_keys();
    assert_eq!(d.current_keys, [0; 6]);
    assert_eq!(d.current_mods, 0);
}

// ===== Math helpers =====
#[test]
fn sqrt16_values() {
    assert_eq!(animation::sqrt16(0), 0);
    assert_eq!(animation::sqrt16(1), 1);
    assert_eq!(animation::sqrt16(15), 3);
    assert_eq!(animation::sqrt16(16), 4);
    assert_eq!(animation::sqrt16(65535), 255);
}

#[test]
fn scale_and_saturating_math() {
    assert_eq!(animation::scale8(255, 128), 127);
    assert_eq!(animation::scale8(100, 0), 0);
    assert_eq!(animation::qadd8(200, 100), 255);
    assert_eq!(animation::qsub8(10, 20), 0);
    assert_eq!(animation::abs8(-5), 5);
    assert_eq!(animation::scale16by8(1000, 128), 500);
}

#[test]
fn sin8_quarter_points() {
    assert_eq!(animation::sin8(0), 128);
    assert_eq!(animation::sin8(64), 255);
    assert_eq!(animation::sin8(192), 1);
    assert_eq!(animation::cos8(0), animation::sin8(64));
}

#[test]
fn random8_advances_seed() {
    let mut seed = animation::RAND16_SEED_INIT;
    let a = animation::random8(&mut seed);
    assert_ne!(seed, animation::RAND16_SEED_INIT);
    let mut seed2 = animation::RAND16_SEED_INIT;
    assert_eq!(animation::random8(&mut seed2), a);
    let mut seed3 = animation::RAND16_SEED_INIT;
    assert!(animation::random8_max(&mut seed3, 10) < 10);
}

#[test]
fn hsv_to_rgb_primaries() {
    assert_eq!(rgb::hsv_to_rgb(0, 0, 200), (200, 200, 200));
    let (r, g, b) = rgb::hsv_to_rgb(0, 255, 255);
    assert!(r > 200 && g < 20 && b < 20);
}

#[test]
fn init_sequence_wakes_both_chips() {
    let w = rgb::RgbMatrix::init_sequence();
    assert_eq!(w.len(), 4);
    assert_eq!(w[0], (rgb::DRIVER_ADDR_1, rgb::REG_SHUTDOWN, 0x01));
    assert_eq!(w[3], (rgb::DRIVER_ADDR_2, rgb::REG_CONFIG, rgb::CONFIG_NORMAL));
}

#[test]
fn next_mode_wraps() {
    let mut m = rgb::RgbMatrix::new();
    m.mode = animation::ANIMATION_COUNT - 1;
    m.next_mode();
    assert_eq!(m.mode, 0);
}

#[test]
fn register_hit_records_position() {
    let mut m = rgb::RgbMatrix::new();
    m.register_hit(5, 77);
    assert_eq!(m.hit_index[0], 5);
    assert_eq!(m.hit_tick[0], 77);
    assert_eq!((m.hit_x[0], m.hit_y[0]), animation::LED_POSITIONS[5]);
}

// ===== Side LEDs =====
#[test]
fn side_update_keeps_indices_in_range() {
    let mut sl = side::SideLeds::new();
    let p = UartProtocol::new();
    for t in 0..200u32 {
        sl.update(&p, t * 7, 0, false);
        assert!(sl.mode <= side::SIDE_OFF);
        assert!(sl.brightness <= 5);
        assert!(sl.speed <= 4);
        assert!(sl.colour <= 8);
    }
}

#[test]
fn show_sleep_sets_flag() {
    let mut sl = side::SideLeds::new();
    sl.show_sleep(true);
    sl.reset();
    assert_eq!(sl.mode, side::SIDE_WAVE);
}

// ===== UART =====
#[test]
fn checksum_is_byte_sum_xor_head() {
    assert_eq!(UartProtocol::checksum(&[0x12, 0x34]), (0x12u8 + 0x34) ^ UART_HEAD);
    assert_eq!(UartProtocol::checksum(&[0xF0, 0x20]), 0x10 ^ UART_HEAD);
}

#[test]
fn rx_queue_then_finish_dispatches_handshake() {
    let mut p = UartProtocol::new();
    for b in [UART_HEAD, 0xF2, 0x00, 0x00] {
        p.rx_queue_byte(b);
    }
    let cs = UartProtocol::checksum(&[]);
    p.rx_queue_byte(cs);
    let r = p.rx_finish();
    assert!(r.is_some());
    assert!(p.f_rf_hand_ok);
}

#[test]
fn release_after_fn_uses_fn_layer_code() {
    let mut d = Device::new();
    let mut acts = Vec::new();
    d.process_key_event(5, 10, true, &mut acts);
    d.process_key_event(0, 2, true, &mut acts);
    assert_eq!(d.current_keys[0], 0x3A);
    assert_eq!(d.keycode_track[0][2], 0x3A);
    d.process_key_event(5, 10, false, &mut acts);
    assert_eq!(d.keycode_track[0][2], 0x3A);
    d.process_key_event(0, 2, false, &mut acts);
    assert_eq!(d.current_keys, [0; 6]);
    assert_eq!(d.pending_consumer_usb, 0);
}

#[test]
fn encoded_frame_parses_back() {
    let mut p = UartProtocol::new();
    let data = [0x10u8, 0x20, 0x30];
    let len = p.build_cmd(0xC9, &data);
    assert_eq!(len, 8);
    let mut q = UartProtocol::new();
    q.rx_buf = p.tx_buf;
    q.rx_len = len as u8;
    q.rx_state = air96::wireless::uart::RxState::Done;
    let (cmd, got) = q.parse_frame().expect("frame accepted");
    assert_eq!(cmd, 0xC9);
    assert_eq!(got, &data[..]);
}

#[test]
fn wire_codes_round_trip() {
    for m in [LinkMode::Rf24, LinkMode::Bt1, LinkMode::Bt2, LinkMode::Bt3, LinkMode::Usb] {
        assert_eq!(LinkMode::from_u8(m.to_u8()), m);
    }
    for s in [
        RfState::Idle,
        RfState::Pairing,
        RfState::Linking,
        RfState::Connect,
        RfState::Disconnect,
        RfState::Sleep,
        RfState::Snif,
        RfState::Invalid,
        RfState::ErrState,
    ] {
        assert_eq!(RfState::from_u8(s.to_u8()), s);
    }
}

#[test]
fn via_buffer_set_then_get() {
    let mut page = zero_page();
    eeprom::reset_to_defaults(&mut page);
    let mut data = [0u8; 32];
    data[0] = air96::via::ID_DYNAMIC_KEYMAP_SET_BUFFER;
    data[1] = 0;
    data[2] = 40;
    data[3] = 4;
    data[4..8].copy_from_slice(&[9, 8, 7, 6]);
    run_via(&mut data, &mut page);
    let mut q = [0u8; 32];
    q[0] = air96::via::ID_DYNAMIC_KEYMAP_GET_BUFFER;
    q[1] = 0;
    q[2] = 40;
    q[3] = 4;
    run_via(&mut q, &mut page);
    assert_eq!(&q[4..8], &[9, 8, 7, 6]);
}

#[test]
fn via_custom_value_set_then_get() {
    let mut page = zero_page();
    let mut m = rgb::RgbMatrix::new();
    let mut save = false;
    let mut set = [0u8; 32];
    set[0] = air96::via::ID_CUSTOM_SET_VALUE;
    set[1] = air96::via::CHANNEL_RGB_MATRIX;
    set[2] = air96::via::RGB_MATRIX_COLOR;
    set[3] = 85;
    set[4] = 170;
    air96::via::via_command(&mut set, &mut m, &mut save, &mut page);
    let mut get = [0u8; 32];
    get[0] = air96::via::ID_CUSTOM_GET_VALUE;
    get[1] = air96::via::CHANNEL_RGB_MATRIX;
    get[2] = air96::via::RGB_MATRIX_COLOR;
    air96::via::via_command(&mut get, &mut m, &mut save, &mut page);
    assert_eq!((get[3], get[4]), (85, 170));
    let mut save_cmd = [0u8; 32];
    save_cmd[0] = air96::via::ID_CUSTOM_SAVE;
    air96::via::via_command(&mut save_cmd, &mut m, &mut save, &mut page);
    assert!(save);
}

#[test]
fn reported_key_stays_locked_until_lockout_ends() {
    let (bit, ctr, ev) = eager_pk_step(true, false, 0);
    assert_eq!(ev, Some(true));
    let mut c = ctr;
    for _ in 0..(DEBOUNCE_MS - 1) {
        c -= 1;
        assert_eq!(eager_pk_step(false, bit, c).2, None);
    }
    c -= 1;
    assert_eq!(c, 0);
    assert_eq!(eager_pk_step(false, bit, c).2, Some(false));
}

#[test]
fn nkro_overflow_key_release_clears_its_bit() {
    let mut p = UartProtocol::new();
    // Key 0x10 (byte 3, bit 0) was reported through the overflow bitmap.
    p.bitkb_report_buf[3] = 0x01;
    p.uart_bit_report_buf[3] = 0x01;
    let now = [0u8; 32];
    assert!(p.auto_nkey_send(&now));
    assert_eq!(p.uart_bit_report_buf[3] & 0x01, 0);
    assert!(!p.bytekb_report_buf[2..8].contains(&0x10));
}

#[test]
fn nkro_press_then_release_round_trip() {
    let mut p = UartProtocol::new();
    let mut now = [0u8; 32];
    now[1 + 0x2C / 8] |= 1 << (0x2C % 8);
    assert!(p.auto_nkey_send(&now));
    p.bitkb_report_buf = now;
    assert!(p.bytekb_report_buf[2..8].contains(&0x2C));
    assert!(p.auto_nkey_send(&[0; 32]));
    assert!(!p.bytekb_report_buf[2..8].contains(&0x2C));
}

// ===== Sleep commands =====
#[test]
fn sleep_tick_returns_framed_sleep_command() {
    let mut s = SleepManager::new();
    s.f_goto_sleep = true;
    let mut p = UartProtocol::new();
    let frame = s.tick(&mut p, false).expect("a sleep command is framed");
    assert!(!s.f_goto_sleep);
    assert!(s.f_wakeup_prepare);
    assert_eq!(p.tx_buf[..6], [UART_HEAD, CMD_SLEEP, 0x00, 0x01, 0x00, 0x5A]);
    assert!(p.uart_pending);
    assert_eq!(&frame[..], &p.tx_buf[..6]);
}

#[test]
fn sleep_wakeup_returns_handshake_frame() {
    let mut s = SleepManager::new();
    s.f_wakeup_prepare = true;
    s.no_act_time = 5;
    let mut p = UartProtocol::new();
    let frame = s.tick(&mut p, false).expect("a handshake is framed");
    assert_eq!(frame[0], UART_HEAD);
    assert_eq!(frame[1], CMD_HAND);
    assert_eq!(&frame[..], &p.tx_buf[..frame.len()]);
}

#[test]
fn sleep_tick_without_command_returns_none() {
    let mut s = SleepManager::new();
    let mut p = UartProtocol::new();
    let before = p.tx_buf;
    assert!(s.tick(&mut p, false).is_none());
    assert_eq!(p.tx_buf, before);
    assert!(!p.uart_pending);
}

// ===== Side LED clock =====
#[test]
fn side_link_show_time_counts_ten_ms_units() {
    let mut sl = side::SideLeds::new();
    let p = UartProtocol::new();
    sl.update(&p, 10, 0, false);
    assert_eq!(sl.rf_link_show_time, 1);
    sl.update(&p, 9, 0, false);
    assert_eq!(sl.rf_link_show_time, 1);
    sl.update(&p, 25, 0, false);
    assert_eq!(sl.rf_link_show_time, 3);
}

// ===== Defaults read back =====
#[test]
fn reset_defaults_read_back_through_dynamic_keymap() {
    let mut page = [0u8; 2048];
    eeprom::reset_to_defaults(&mut page);
    assert_eq!(dynamic_keymap_get_keycode(&page, 0, 1, 3), 0x0020);
    for layer in 0..8 {
        for row in 0..6 {
            for col in 0..21 {
                let expected = if layer < 5 { keymap::get_keycode(layer, row, col) } else { keymap::KC_NO };
                assert_eq!(dynamic_keymap_get_keycode(&page, layer, row, col), expected);
            }
        }
    }
    assert!(eeprom::load(&page).is_some());
}

// ===== UART receive limits =====
#[test]
fn rx_queue_drops_bytes_past_the_buffer() {
    let mut p = UartProtocol::new();
    p.rx_len = 64;
    let before = p.rx_buf;
    p.rx_queue_byte(0x33);
    assert_eq!(p.rx_len, 64);
    assert_eq!(p.rx_buf, before);
    p.rx_len = 200;
    p.rx_queue_byte(0x33);
    assert_eq!(p.rx_len, 200);
    assert_eq!(p.rx_buf, before);
}

#[test]
fn parse_pending_overlong_count_is_left_alone() {
    let mut p = UartProtocol::new();
    p.rx_len = 70;
    p.rx_state = RxState::Idle;
    assert!(p.parse_frame().is_none());
    assert_eq!(p.rx_len, 70);
    assert_eq!(p.rx_state, RxState::Idle);
}

#[test]
fn overlong_frame_with_wrong_length_is_a_format_error() {
    let mut p = UartProtocol::new();
    p.rx_state = RxState::Done;
    p.rx_len = 70;
    p.rx_buf[0] = UART_HEAD;
    p.rx_buf[3] = 0;
    assert!(p.received_frame_fits());
    assert!(p.parse_frame().is_none());
    assert_eq!(p.rx_state, RxState::FormatErr);
    assert_eq!(p.rx_len, 0);
}

#[test]
fn overlong_frame_with_matching_length_does_not_fit() {
    let mut p = UartProtocol::new();
    p.rx_state = RxState::Done;
    p.rx_len = 70;
    p.rx_buf[3] = 65;
    assert!(!p.received_frame_fits());
    p.rx_len = 64;
    p.rx_buf[3] = 59;
    assert!(p.received_frame_fits());
}

// ===== Main-loop steps =====
#[test]
fn advertising_retries_until_acknowledged() {
    assert!(adv_retry(0, true));
    assert!(adv_retry(0, false));
    assert!(!adv_retry(1, true));
    assert!(adv_retry(1, false));
    assert!(adv_retry(ADV_ATTEMPTS - 1, false));
    assert!(!adv_retry(ADV_ATTEMPTS, false));
}

#[test]
fn sleep_step_powers_rails_down_and_up() {
    let mut d = Device::new();
    d.proto.f_goto_sleep = true;
    let (frame, rails) = d.sleep_step(false);
    assert!(!d.proto.f_goto_sleep);
    assert!(d.sleep.f_wakeup_prepare);
    assert_eq!(rails, RailChange::PowerDown);
    assert!(!d.rgb.enabled);
    let frame = frame.expect("sleep command framed");
    assert_eq!(frame[1], CMD_SLEEP);
    let (frame, rails) = d.sleep_step(false);
    assert!(!d.sleep.f_wakeup_prepare);
    assert_eq!(rails, RailChange::PowerUp);
    assert!(d.rgb.enabled);
    assert_eq!(frame.expect("handshake framed")[1], CMD_HAND);
    let (_, rails) = d.sleep_step(false);
    assert_eq!(rails, RailChange::Keep);
}

#[test]
fn advertise_frames_new_adv() {
    let mut d = Device::new();
    d.advertise();
    assert_eq!(d.proto.tx_buf[0], UART_HEAD);
    assert_eq!(d.proto.tx_buf[1], CMD_NEW_ADV);
    assert!(d.proto.uart_pending);
}

#[test]
fn device_reset_finish_clears_pairings_and_restores_defaults() {
    let mut d = Device::new();
    d.rgb.mode = 1;
    d.side.brightness = 5;
    let (phase, timer) = d.finish_device_reset();
    assert_eq!((phase, timer), (1, RESET_BLINK_MS));
    assert_eq!(d.proto.tx_buf[1], CMD_CLR_DEVICE);
    assert_eq!(d.rgb.mode, 4);
    assert_eq!(d.side.brightness, 3);
}

// ===== PWM registers =====
#[test]
fn every_led_colour_lands_in_its_registers() {
    let mut m = rgb::RgbMatrix::new();
    for i in 0..rgb::LED_COUNT {
        m.set_color(i, i as u8, (i + 1) as u8, (i + 2) as u8);
    }
    let (b1, b2) = m.build_pwm_buffers();
    for i in 0..rgb::LED_COUNT {
        let map = rgb::led_mapping(i);
        let regs = if map.driver == 0 { &b1 } else { &b2 };
        assert_eq!(regs[map.r as usize], i as u8);
        assert_eq!(regs[map.g as usize], (i + 1) as u8);
        assert_eq!(regs[map.b as usize], (i + 2) as u8);
    }
}

// ===== Sine symmetry =====
#[test]
fn sin8_never_zero_and_odd_about_midpoint() {
    assert_eq!(animation::sin8(0), 128);
    assert_eq!(animation::sin8(64), 255);
    assert_eq!(animation::sin8(192), 1);
    for t in 0..=255u8 {
        assert!(animation::sin8(t) >= 1);
        assert_eq!(animation::sin8(t) as u16 + animation::sin8(t.wrapping_add(128)) as u16, 256);
    }
}

// ===== Layer priority =====
#[test]
fn highest_non_empty_layer_wins() {
    assert_eq!(keymap::resolve_keycode(&[0], 0, 4), keymap::KC_MAC_TASK);
    assert_eq!(keymap::resolve_keycode(&[2], 0, 14), 0x0046);
    assert_eq!(keymap::resolve_keycode(&[1], 1, 4), keymap::KC_LNK_RF);
    assert_eq!(keymap::resolve_keycode(&[4, 3, 2, 0], 0, 0), 0x0029);
    assert_eq!(keymap::resolve_keycode(&[4], 0, 2), keymap::KC_NO);
    let stacks: [&[usize]; 4] = [&[0, 1], &[2, 3, 4], &[2, 4], &[0, 4, 1]];
    for stack in stacks {
        for row in 0..6 {
            for col in 0..21 {
                let expected = stack
                    .iter()
                    .rev()
                    .map(|&l| keymap::get_keycode(l, row, col))
                    .find(|&kc| kc != keymap::KC_NO)
                    .unwrap_or(keymap::KC_NO);
                assert_eq!(keymap::resolve_keycode(stack, row, col), expected);
            }
        }
    }
}

// ===== NKRO frames =====
#[test]
fn nkro_frame_sent_only_when_bitmap_changes() {
    let mut p = UartProtocol::new();
    p.link_mode = LinkMode::Rf24;
    let mut bits = [0u8; 32];
    bits[1] = 0x10;
    air96::wireless::report::send_nkro(&mut p, &bits);
    assert_eq!(p.tx_buf[0], UART_HEAD);
    assert_eq!(p.tx_buf[1], CMD_RPT_BYTE_KB);
    assert_eq!(p.tx_buf[3], 8);
    assert_eq!(p.tx_buf[4..12], p.bytekb_report_buf);
    assert_eq!(p.tx_buf[6], 4);
    assert_eq!(p.bitkb_report_buf, bits);
    p.tx_buf = [0xEE; 64];
    air96::wireless::report::send_nkro(&mut p, &bits);
    assert_eq!(p.tx_buf, [0xEE; 64]);
    bits[1] = 0;
    air96::wireless::report::send_nkro(&mut p, &bits);
    assert_eq!(p.tx_buf[1], CMD_RPT_BYTE_KB);
    assert_eq!(p.tx_buf[6], 0);
}

// ===== Boot settings =====
#[test]
fn apply_config_sets_fields_and_paints_mode_zero() {
    let mut d = Device::new();
    let mut cfg = eeprom::UserConfig::default();
    cfg.side_mode = 2;
    cfg.side_brightness = 4;
    cfg.sleep_enable = false;
    cfg.rgb_mode = 0;
    cfg.rgb_hue = 85;
    cfg.rgb_sat = 255;
    cfg.rgb_val = 200;
    d.apply_config(&cfg);
    assert_eq!(d.side.mode, 2);
    assert_eq!(d.side.brightness, 4);
    assert!(!d.sleep_enabled);
    assert_eq!((d.rgb.mode, d.rgb.hue, d.rgb.sat, d.rgb.val), (0, 85, 255, 200));
    let c = rgb::hsv_to_rgb(85, 255, 200);
    assert!(d.rgb.buffer.iter().all(|&x| x == c));
    let cur = d.current_config();
    assert_eq!(cur.side_mode, cfg.side_mode);
    assert_eq!(cur.rgb_hue, cfg.rgb_hue);

    let mut e = Device::new();
    let before = e.rgb.buffer;
    cfg.rgb_mode = 7;
    e.apply_config(&cfg);
    assert_eq!(e.rgb.mode, 7);
    assert_eq!(e.rgb.buffer, before);
}

#[test]
fn boot_dials_pick_link_and_os() {
    let mut d = Device::new();
    d.proto.rf_channel = 1;
    d.apply_boot_dials(true, true);
    assert_eq!(d.proto.link_mode, LinkMode::Usb);
    assert_eq!(d.proto.sys_sw_state, 0xA2);
    assert_eq!(d.active_layers[0], 0);
    assert!(!d.nkro_enabled);
    d.apply_boot_dials(false, false);
    assert_eq!(d.proto.link_mode, LinkMode::from_u8(1));
    assert_eq!(d.proto.sys_sw_state, 0xA1);
    assert_eq!(d.active_layers[0], 2);
    assert!(d.nkro_enabled);
}
