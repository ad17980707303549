//! NRF module UART protocol.
//!
//! 460800 baud, 8E1. Frame layout:
//! HEAD(1) + CMD(1) + ACK(1) + LEN(1) + DATA(LEN) + CHECKSUM(1).
//! The checksum is the byte sum of DATA (mod 256) XOR-ed with `UART_HEAD`.
use vstd::prelude::*;

verus! {

// ── Frame constants ───────────────────────────────────────────────────
pub const UART_HEAD: u8 = 0x5A;

pub const UART_MAX_LEN: usize = 64;

// ── RF states ─────────────────────────────────────────────────────────
#[derive(Debug, Clone, Copy, PartialEq, Eq, Structural)]
pub enum RfState {
    Idle,
    Pairing,
    Linking,
    Connect,
    Disconnect,
    Sleep,
    Snif,
    Invalid,
    ErrState,
}

/// The wire code of each RF state.
pub open spec fn rf_state_code(s: RfState) -> u8 {
    match s {
        RfState::Idle => 0,
        RfState::Pairing => 1,
        RfState::Linking => 2,
        RfState::Connect => 3,
        RfState::Disconnect => 4,
        RfState::Sleep => 5,
        RfState::Snif => 6,
        RfState::Invalid => 0xFE,
        RfState::ErrState => 0xFF,
    }
}

/// Decoding of a wire byte into an RF state; unknown codes map to `ErrState`.
pub open spec fn rf_state_of(v: u8) -> RfState {
    if v == 0 {
        RfState::Idle
    } else if v == 1 {
        RfState::Pairing
    } else if v == 2 {
        RfState::Linking
    } else if v == 3 {
        RfState::Connect
    } else if v == 4 {
        RfState::Disconnect
    } else if v == 5 {
        RfState::Sleep
    } else if v == 6 {
        RfState::Snif
    } else if v == 0xFE {
        RfState::Invalid
    } else {
        RfState::ErrState
    }
}

impl RfState {
    pub fn from_u8(v: u8) -> (r: Self)
        ensures
            r == rf_state_of(v),
    {
        match v {
            0 => RfState::Idle,
            1 => RfState::Pairing,
            2 => RfState::Linking,
            3 => RfState::Connect,
            4 => RfState::Disconnect,
            5 => RfState::Sleep,
            6 => RfState::Snif,
            0xFE => RfState::Invalid,
            _ => RfState::ErrState,
        }
    }

    pub fn to_u8(self) -> (r: u8)
        ensures
            r == rf_state_code(self),
    {
        match self {
            RfState::Idle => 0,
            RfState::Pairing => 1,
            RfState::Linking => 2,
            RfState::Connect => 3,
            RfState::Disconnect => 4,
            RfState::Sleep => 5,
            RfState::Snif => 6,
            RfState::Invalid => 0xFE,
            RfState::ErrState => 0xFF,
        }
    }
}

// ── Link modes ────────────────────────────────────────────────────────
#[derive(Debug, Clone, Copy, PartialEq, Eq, Structural)]
pub enum LinkMode {
    Rf24,
    Bt1,
    Bt2,
    Bt3,
    Usb,
}

/// The wire code of each link mode.
pub open spec fn link_mode_code(m: LinkMode) -> u8 {
    match m {
        LinkMode::Rf24 => 0,
        LinkMode::Bt1 => 1,
        LinkMode::Bt2 => 2,
        LinkMode::Bt3 => 3,
        LinkMode::Usb => 4,
    }
}

/// Decoding of a wire byte into a link mode; codes above 3 map to `Usb`.
pub open spec fn link_mode_of(v: u8) -> LinkMode {
    if v == 0 {
        LinkMode::Rf24
    } else if v == 1 {
        LinkMode::Bt1
    } else if v == 2 {
        LinkMode::Bt2
    } else if v == 3 {
        LinkMode::Bt3
    } else {
        LinkMode::Usb
    }
}

impl LinkMode {
    pub fn from_u8(v: u8) -> (r: Self)
        ensures
            r == link_mode_of(v),
    {
        match v {
            0 => LinkMode::Rf24,
            1 => LinkMode::Bt1,
            2 => LinkMode::Bt2,
            3 => LinkMode::Bt3,
            _ => LinkMode::Usb,
        }
    }

    pub fn to_u8(self) -> (r: u8)
        ensures
            r == link_mode_code(self),
    {
        match self {
            LinkMode::Rf24 => 0,
            LinkMode::Bt1 => 1,
            LinkMode::Bt2 => 2,
            LinkMode::Bt3 => 3,
            LinkMode::Usb => 4,
        }
    }
}

// ── Commands ──────────────────────────────────────────────────────────
pub const CMD_POWER_UP: u8 = 0xF0;

pub const CMD_SLEEP: u8 = 0xF1;

pub const CMD_HAND: u8 = 0xF2;

pub const CMD_SNIF: u8 = 0xF3;

pub const CMD_24G_SUSPEND: u8 = 0xF4;

pub const CMD_IDLE_EXIT: u8 = 0xFE;

pub const CMD_RPT_MS: u8 = 0xE0;

pub const CMD_RPT_BYTE_KB: u8 = 0xE1;

pub const CMD_RPT_BIT_KB: u8 = 0xE2;

pub const CMD_RPT_CONSUME: u8 = 0xE3;

pub const CMD_RPT_SYS: u8 = 0xE4;

pub const CMD_SET_LINK: u8 = 0xC0;

pub const CMD_SET_CONFIG: u8 = 0xC1;

pub const CMD_GET_CONFIG: u8 = 0xC2;

pub const CMD_SET_NAME: u8 = 0xC3;

pub const CMD_GET_NAME: u8 = 0xC4;

pub const CMD_CLR_DEVICE: u8 = 0xC5;

pub const CMD_NEW_ADV: u8 = 0xC7;

pub const CMD_RF_STS_SYSC: u8 = 0xC9;

pub const CMD_SET_24G_NAME: u8 = 0xCA;

pub const CMD_GO_TEST: u8 = 0xCF;

pub const CMD_RF_DFU: u8 = 0xB1;

pub const CMD_WRITE_DATA: u8 = 0x80;

pub const CMD_READ_DATA: u8 = 0x81;

/// Bluetooth name payload: ID=1, length, "Air96 V2\0".
pub const SET_NAME_PAYLOAD: [u8; 11] = [
    0x01, 0x0A, 0x41, 0x69, 0x72, 0x39, 0x36, 0x20, 0x56, 0x32, 0x00,
];

/// 2.4 GHz dongle name payload: valid length, fixed byte, then
/// "Air96 V2 Dongle" with a zero byte after each character.
pub const SET_24G_NAME_PAYLOAD: [u8; 32] = [
    0x2C, 0x03, 0x41, 0x00, 0x69, 0x00, 0x72, 0x00, 0x39, 0x00, 0x36, 0x00, 0x20, 0x00, 0x56,
    0x00, 0x32, 0x00, 0x20, 0x00, 0x44, 0x00, 0x6F, 0x00, 0x6E, 0x00, 0x67, 0x00, 0x6C, 0x00,
    0x65, 0x00,
];

// ── RX states ─────────────────────────────────────────────────────────
#[derive(Debug, Clone, Copy, PartialEq, Eq, Structural)]
pub enum RxState {
    Idle,
    Receiving,
    Done,
    Fail,
    OvErr,
    SumErr,
    CmdErr,
    DataErr,
    DataOv,
    FormatErr,
}

// ── TX result ─────────────────────────────────────────────────────────
pub const TX_OK: u8 = 0xE0;

pub const TX_DONE: u8 = 0xE1;

pub const TX_BUSY: u8 = 0xE2;

pub const TX_TIMEOUT: u8 = 0xE3;

pub const TX_DATA_ERR: u8 = 0xE4;

// ── Frame model ───────────────────────────────────────────────────────
/// Sum of a byte sequence, as an integer.
pub open spec fn sum_bytes(s: Seq<u8>) -> int
    decreases s.len(),
{
    if s.len() == 0 {
        0
    } else {
        sum_bytes(s.drop_last()) + s.last()
    }
}

/// Frame checksum: byte sum modulo 256, XOR-ed with the frame head.
pub open spec fn checksum_of(s: Seq<u8>) -> u8 {
    ((sum_bytes(s) % 256) as u8) ^ UART_HEAD
}

/// The bytes of a frame carrying `data`.
pub open spec fn frame_bytes(cmd: u8, ack: u8, data: Seq<u8>) -> Seq<u8> {
    seq![UART_HEAD, cmd, ack, data.len() as u8] + data + seq![checksum_of(data)]
}

/// `s` followed by zeros up to length `n`.
pub open spec fn zero_pad(s: Seq<u8>, n: nat) -> Seq<u8> {
    s + Seq::new((n - s.len()) as nat, |_i: int| 0u8)
}

/// The transmit buffer after encoding a frame.
pub open spec fn tx_image(cmd: u8, ack: u8, data: Seq<u8>) -> Seq<u8> {
    zero_pad(frame_bytes(cmd, ack, data), UART_MAX_LEN as nat)
}

/// The payload `build_link_cmd` sends with a command, given the current link mode.
pub open spec fn link_cmd_payload(mode: LinkMode, cmd: u8) -> Seq<u8> {
    if cmd == CMD_SLEEP || cmd == CMD_HAND {
        seq![0u8]
    } else if cmd == CMD_SET_LINK || cmd == CMD_RF_STS_SYSC {
        seq![link_mode_code(mode)]
    } else if cmd == CMD_NEW_ADV {
        seq![link_mode_code(mode), 1u8]
    } else if cmd == CMD_CLR_DEVICE || cmd == CMD_RF_DFU {
        seq![0u8]
    } else if cmd == CMD_SET_CONFIG {
        seq![24u8]
    } else if cmd == CMD_SET_NAME {
        SET_NAME_PAYLOAD@
    } else if cmd == CMD_SET_24G_NAME {
        SET_24G_NAME_PAYLOAD@
    } else {
        Seq::empty()
    }
}

// ── Protocol manager ──────────────────────────────────────────────────
pub struct UartProtocol {
    pub rx_state: RxState,
    pub rx_buf: [u8; 64],
    pub rx_len: u8,
    pub tx_buf: [u8; 64],
    // Flags
    pub f_uart_ack: bool,
    pub f_rf_hand_ok: bool,
    pub f_rf_read_data_ok: bool,
    pub f_rf_sts_sysc_ok: bool,
    pub f_rf_new_adv_ok: bool,
    pub f_rf_reset: bool,
    pub f_goto_sleep: bool,
    pub f_wakeup_prepare: bool,
    // Report buffers
    pub uart_bit_report_buf: [u8; 32],
    pub bitkb_report_buf: [u8; 32],
    pub bytekb_report_buf: [u8; 8],
    pub conkb_report: u16,
    pub syskb_report: u16,
    pub f_bit_kb_act: bool,
    pub uart_repeat_flag: bool,
    // Device info shadow (synced from the RF module)
    pub link_mode: LinkMode,
    pub rf_channel: u8,
    pub ble_channel: u8,
    pub rf_state: RfState,
    pub rf_charge: u8,
    pub rf_led: u8,
    pub rf_battery: u8,
    pub sys_sw_state: u8,
    // Protocol state
    pub sync_lost: u8,
    pub disconnect_delay: u8,
    pub f_send_channel: bool,
    pub error_cnt: u8,
    /// Set whenever a command frame is ready in `tx_buf`.
    pub uart_pending: bool,
}

/// The state changes `build_link_cmd` makes besides encoding the frame.
pub open spec fn link_cmd_state(p: UartProtocol, cmd: u8) -> UartProtocol {
    if cmd == CMD_SET_LINK {
        UartProtocol { rf_state: RfState::Linking, disconnect_delay: 0xFF, ..p }
    } else if cmd == CMD_NEW_ADV {
        UartProtocol {
            rf_state: RfState::Pairing,
            disconnect_delay: 0xFF,
            f_rf_new_adv_ok: false,
            ..p
        }
    } else {
        p
    }
}

/// `after` is `before` once `build_link_cmd(cmd)` has run: the frame for `cmd` is
/// in the transmit buffer, marked pending, with the link state updated.
pub open spec fn link_cmd_sent(before: UartProtocol, after: UartProtocol, cmd: u8) -> bool {
    &&& after.tx_buf@ == tx_image(cmd, 0, link_cmd_payload(before.link_mode, cmd))
    &&& after == (UartProtocol { tx_buf: after.tx_buf, uart_pending: true, ..link_cmd_state(before, cmd) })
}

/// The state after an RF status frame carrying `data`.
pub open spec fn rf_status_spec(p: UartProtocol, data: Seq<u8>) -> UartProtocol {
    if data.len() >= 5 && link_mode_code(p.link_mode) == data[0] {
        let st = rf_state_of(data[1]);
        UartProtocol {
            error_cnt: 0,
            rf_state: st,
            rf_led: if st == RfState::Connect && (data[2] & 0xF8) == 0 {
                data[2]
            } else {
                p.rf_led
            },
            rf_charge: data[3],
            rf_battery: if data[4] <= 100 {
                data[4]
            } else {
                p.rf_battery
            },
            f_rf_sts_sysc_ok: true,
            ..p
        }
    } else if p.rf_state != RfState::Invalid {
        if p.error_cnt >= 5 {
            UartProtocol { error_cnt: 0, f_send_channel: true, f_rf_sts_sysc_ok: true, ..p }
        } else {
            UartProtocol { error_cnt: (p.error_cnt + 1) as u8, f_rf_sts_sysc_ok: true, ..p }
        }
    } else {
        UartProtocol { f_rf_sts_sysc_ok: true, ..p }
    }
}

/// The state after a read-data frame carrying `data`.
pub open spec fn read_data_spec(p: UartProtocol, data: Seq<u8>) -> UartProtocol {
    if data.len() >= 7 {
        UartProtocol {
            link_mode: if data[4] <= 4 {
                link_mode_of(data[4])
            } else {
                p.link_mode
            },
            rf_channel: if data[5] < 4 {
                data[5]
            } else {
                p.rf_channel
            },
            ble_channel: if 1 <= data[6] && data[6] <= 3 {
                data[6]
            } else {
                p.ble_channel
            },
            f_rf_read_data_ok: true,
            ..p
        }
    } else {
        UartProtocol { f_rf_read_data_ok: true, ..p }
    }
}

/// The state after `dispatch_frame(cmd, data)`.
pub open spec fn dispatch_spec(p: UartProtocol, cmd: u8, data: Seq<u8>) -> UartProtocol {
    if cmd == CMD_HAND {
        UartProtocol { f_rf_hand_ok: true, ..p }
    } else if cmd == CMD_24G_SUSPEND {
        UartProtocol { f_goto_sleep: true, ..p }
    } else if cmd == CMD_NEW_ADV {
        UartProtocol { f_rf_new_adv_ok: true, ..p }
    } else if cmd == CMD_RF_STS_SYSC {
        rf_status_spec(p, data)
    } else if cmd == CMD_READ_DATA {
        read_data_spec(p, data)
    } else {
        p
    }
}

/// A received frame is accepted: its length field matches and its checksum is right.
pub open spec fn frame_valid(buf: Seq<u8>, rx_len: u8) -> bool {
    &&& rx_len > 4
    &&& rx_len - 5 == buf[3]
    &&& checksum_of(buf.subrange(4, 4 + buf[3])) == buf[4 + buf[3]]
}

/// A received frame can be checked inside the receive buffer: it is not a
/// frame longer than the buffer whose length field matches its length.
pub open spec fn frame_fits(buf: Seq<u8>, rx_len: u8) -> bool {
    !(rx_len > 64 && rx_len - 5 == buf[3])
}

/// The RX state a completely received frame leads to.
pub open spec fn parse_rx_state(buf: Seq<u8>, rx_len: u8) -> RxState {
    if rx_len > 4 && rx_len - 5 != buf[3] {
        RxState::FormatErr
    } else if rx_len > 4 && !frame_valid(buf, rx_len) {
        RxState::SumErr
    } else {
        RxState::Idle
    }
}

/// The state `parse_frame` leaves behind (the caller has checked the RX state is `Done`).
pub open spec fn parse_state(p: UartProtocol) -> UartProtocol {
    UartProtocol {
        f_uart_ack: true,
        sync_lost: 0,
        rx_len: 0,
        rx_state: parse_rx_state(p.rx_buf@, p.rx_len),
        ..p
    }
}

/// The data bytes of an accepted received frame.
pub open spec fn frame_data(buf: Seq<u8>) -> Seq<u8> {
    buf.subrange(4, 4 + buf[3])
}

/// Report buffers and send flags threaded through the NKRO diff scan.
pub struct NkroScan {
    pub byte_buf: Seq<u8>,
    pub bit_buf: Seq<u8>,
    pub byte_send: bool,
    pub bit_send: bool,
}

/// The bit of key `j` (0..8) within a bitmap byte.
pub open spec fn key_mask(j: int) -> u8 {
    1u8 << (j as u8)
}

/// The first index in `from..8` whose byte equals `v`, or 8 if there is none.
pub open spec fn first_slot(buf: Seq<u8>, v: u8, from: int) -> int
    decreases 8 - from,
{
    if from >= 8 {
        8
    } else if buf[from] == v {
        from
    } else {
        first_slot(buf, v, from + 1)
    }
}

/// One key of the NKRO diff: key `k` lives in bitmap byte `k / 8 + 1`, bit `k % 8`,
/// and has key code `k`. A newly pressed key takes the first free 6KRO slot, or
/// goes to the overflow bitmap; a released key leaves its 6KRO slot, or the
/// overflow bitmap.
pub open spec fn nkro_step(s: NkroScan, prev: Seq<u8>, now: Seq<u8>, k: int) -> NkroScan {
    let i = k / 8 + 1;
    let m = key_mask(k % 8);
    let code = k as u8;
    if (prev[i] ^ now[i]) & m == 0 {
        s
    } else if now[i] & m != 0 {
        let slot = first_slot(s.byte_buf, 0, 2);
        if slot < 8 {
            NkroScan { byte_buf: s.byte_buf.update(slot, code), byte_send: true, ..s }
        } else {
            NkroScan { bit_buf: s.bit_buf.update(i, s.bit_buf[i] | m), bit_send: true, ..s }
        }
    } else {
        let slot = first_slot(s.byte_buf, code, 2);
        if slot < 8 {
            NkroScan { byte_buf: s.byte_buf.update(slot, 0), byte_send: true, ..s }
        } else {
            NkroScan { bit_buf: s.bit_buf.update(i, s.bit_buf[i] & !m), bit_send: true, ..s }
        }
    }
}

/// The diff scan over the first `n` keys.
pub open spec fn nkro_scan(s0: NkroScan, prev: Seq<u8>, now: Seq<u8>, n: nat) -> NkroScan
    decreases n,
{
    if n == 0 {
        s0
    } else {
        nkro_step(nkro_scan(s0, prev, now, (n - 1) as nat), prev, now, n - 1)
    }
}

/// The scan state after comparing the modifier byte.
pub open spec fn nkro_start(p: UartProtocol, now: Seq<u8>) -> NkroScan {
    let changed = p.bitkb_report_buf@[0] ^ now[0] != 0;
    NkroScan {
        byte_buf: if changed {
            p.bytekb_report_buf@.update(0, now[0])
        } else {
            p.bytekb_report_buf@
        },
        bit_buf: p.uart_bit_report_buf@,
        byte_send: changed,
        bit_send: false,
    }
}

/// The result of the whole NKRO diff against the last sent bitmap.
pub open spec fn nkro_result(p: UartProtocol, now: Seq<u8>) -> NkroScan {
    nkro_scan(nkro_start(p, now), p.bitkb_report_buf@, now, 248)
}

/// Whether key `k`'s bit differs between two bitmaps (keys start at byte 1).
pub open spec fn key_differs(prev: Seq<u8>, now: Seq<u8>, k: int) -> bool {
    (prev[k / 8 + 1] ^ now[k / 8 + 1]) & key_mask(k % 8) != 0
}

/// The scan flags a report to send exactly when it started flagged or one of
/// the scanned keys changed.
proof fn lemma_scan_sends(s0: NkroScan, prev: Seq<u8>, now: Seq<u8>, n: nat)
    ensures
        ({
            let r = nkro_scan(s0, prev, now, n);
            (r.byte_send || r.bit_send) <==> (s0.byte_send || s0.bit_send || exists|k: int|
                0 <= k < n && #[trigger] key_differs(prev, now, k))
        }),
    decreases n,
{
    if n > 0 {
        lemma_scan_sends(s0, prev, now, (n - 1) as nat);
        let k = n - 1;
        if key_differs(prev, now, k) {
            assert(exists|k2: int| 0 <= k2 < n && #[trigger] key_differs(prev, now, k2));
        } else {
            if exists|k2: int| 0 <= k2 < n && #[trigger] key_differs(prev, now, k2) {
                let k2 = choose|k2: int| 0 <= k2 < n && #[trigger] key_differs(prev, now, k2);
                assert(k2 < n - 1);
            }
        }
    }
}

/// Two bytes differ exactly when some bit of their XOR is set.
proof fn lemma_byte_bits(a: u8, b: u8)
    ensures
        a != b <==> exists|j: int| 0 <= j < 8 && (a ^ b) & #[trigger] key_mask(j) != 0,
{
    assert(key_mask(0) == 1u8 && key_mask(1) == 2u8 && key_mask(2) == 4u8 && key_mask(3) == 8u8) by {
        assert(1u8 << 0u8 == 1u8 && 1u8 << 1u8 == 2u8 && 1u8 << 2u8 == 4u8 && 1u8 << 3u8 == 8u8) by (bit_vector);
    }
    assert(key_mask(4) == 16u8 && key_mask(5) == 32u8 && key_mask(6) == 64u8 && key_mask(7) == 128u8) by {
        assert(1u8 << 4u8 == 16u8 && 1u8 << 5u8 == 32u8 && 1u8 << 6u8 == 64u8 && 1u8 << 7u8 == 128u8) by (bit_vector);
    }
    if a != b {
        assert((a ^ b) & 1 != 0 || (a ^ b) & 2 != 0 || (a ^ b) & 4 != 0 || (a ^ b) & 8 != 0 || (a ^ b) & 16 != 0
            || (a ^ b) & 32 != 0 || (a ^ b) & 64 != 0 || (a ^ b) & 128 != 0) by (bit_vector)
            requires
                a != b,
        ;
        if (a ^ b) & 1 != 0 {
            assert((a ^ b) & key_mask(0) != 0);
        } else if (a ^ b) & 2 != 0 {
            assert((a ^ b) & key_mask(1) != 0);
        } else if (a ^ b) & 4 != 0 {
            assert((a ^ b) & key_mask(2) != 0);
        } else if (a ^ b) & 8 != 0 {
            assert((a ^ b) & key_mask(3) != 0);
        } else if (a ^ b) & 16 != 0 {
            assert((a ^ b) & key_mask(4) != 0);
        } else if (a ^ b) & 32 != 0 {
            assert((a ^ b) & key_mask(5) != 0);
        } else if (a ^ b) & 64 != 0 {
            assert((a ^ b) & key_mask(6) != 0);
        } else {
            assert((a ^ b) & key_mask(7) != 0);
        }
    } else {
        assert(forall|m: u8| (a ^ a) & m == 0) by (bit_vector);
    }
}

/// The NKRO diff asks for a report to be sent exactly when the new bitmap
/// differs from the one last sent.
pub proof fn lemma_nkro_sends_iff_changed(p: UartProtocol, now: Seq<u8>)
    requires
        now.len() == 32,
    ensures
        ({
            let r = nkro_result(p, now);
            (r.byte_send || r.bit_send) <==> now != p.bitkb_report_buf@
        }),
{
    let prev = p.bitkb_report_buf@;
    let s0 = nkro_start(p, now);
    lemma_scan_sends(s0, prev, now, 248);
    assert(s0.byte_send == (prev[0] != now[0])) by {
        let a = prev[0];
        let c = now[0];
        assert((a ^ c != 0) == (a != c)) by (bit_vector);
    }
    if now != prev {
        if prev[0] == now[0] {
            let i = choose|i: int| 0 <= i < 32 && prev[i] != now[i];
            if !(exists|i: int| 0 <= i < 32 && prev[i] != now[i]) {
                assert(now =~= prev);
            }
            assert(i >= 1);
            lemma_byte_bits(prev[i], now[i]);
            let j = choose|j: int| 0 <= j < 8 && (prev[i] ^ now[i]) & #[trigger] key_mask(j) != 0;
            let k = (i - 1) * 8 + j;
            assert(k / 8 + 1 == i && k % 8 == j);
            assert(key_differs(prev, now, k));
        }
    } else {
        assert forall|k: int| 0 <= k < 248 implies !#[trigger] key_differs(prev, now, k) by {
            lemma_byte_bits(prev[k / 8 + 1], now[k / 8 + 1]);
        }
    }
}

/// The first (at most 32) bytes of `d`, zero padded, and their count.
fn copy_prefix32(d: &[u8]) -> (r: ([u8; 32], usize))
    ensures
        r.1 == (if d@.len() < 32 { d@.len() } else { 32 }),
        r.0@ == zero_pad(d@.take(r.1 as int), 32),
{
    let n = if d.len() < 32 { d.len() } else { 32 };
    let mut copy = [0u8; 32];
    let mut i: usize = 0;
    while i < n
        invariant
            i <= n,
            n <= d@.len(),
            n <= 32,
            copy@.len() == 32,
            forall|k: int| 0 <= k < i ==> copy@[k] == d@[k],
            forall|k: int| i <= k < 32 ==> copy@[k] == 0,
        decreases n - i,
    {
        copy[i] = d[i];
        i = i + 1;
    }
    assert(copy@ =~= zero_pad(d@.take(n as int), 32));
    (copy, n)
}

/// Index of the first byte in `buf[2..8]` equal to `v`, or 8.
fn find_slot(buf: &[u8; 8], v: u8) -> (r: usize)
    ensures
        r == first_slot(buf@, v, 2),
{
    let mut bi: usize = 2;
    while bi < 8
        invariant
            2 <= bi <= 8,
            first_slot(buf@, v, 2) == first_slot(buf@, v, bi as int),
        decreases 8 - bi,
    {
        if buf[bi] == v {
            return bi;
        }
        bi = bi + 1;
    }
    8
}

/// The payload bytes of `link_cmd_payload`.
fn link_payload_bytes(mode: LinkMode, cmd: u8) -> (v: Vec<u8>)
    ensures
        v@ == link_cmd_payload(mode, cmd),
        v@.len() <= 32,
{
    let ch = mode.to_u8();
    let mut v: Vec<u8> = Vec::new();
    if cmd == CMD_SLEEP || cmd == CMD_HAND {
        v.push(0u8);
    } else if cmd == CMD_SET_LINK || cmd == CMD_RF_STS_SYSC {
        v.push(ch);
    } else if cmd == CMD_NEW_ADV {
        v.push(ch);
        v.push(1u8);
    } else if cmd == CMD_CLR_DEVICE || cmd == CMD_RF_DFU {
        v.push(0u8);
    } else if cmd == CMD_SET_CONFIG {
        v.push(24u8);
    } else if cmd == CMD_SET_NAME {
        v = vstd::slice::slice_to_vec(vstd::array::array_as_slice(&SET_NAME_PAYLOAD));
    } else if cmd == CMD_SET_24G_NAME {
        v = vstd::slice::slice_to_vec(vstd::array::array_as_slice(&SET_24G_NAME_PAYLOAD));
    }
    assert(v@ =~= link_cmd_payload(mode, cmd));
    v
}

/// Encodes a frame into a fresh 64-byte buffer.
fn encode_frame(cmd: u8, ack: u8, data: &[u8]) -> (buf: [u8; 64])
    requires
        data@.len() <= 59,
    ensures
        buf@ == tx_image(cmd, ack, data@),
{
    let len = data.len();
    let mut buf = [0u8; 64];
    buf[0] = UART_HEAD;
    buf[1] = cmd;
    buf[2] = ack;
    buf[3] = len as u8;
    let mut i: usize = 0;
    while i < len
        invariant
            len == data@.len(),
            len <= 59,
            i <= len,
            buf@.len() == 64,
            buf@[0] == UART_HEAD,
            buf@[1] == cmd,
            buf@[2] == ack,
            buf@[3] == len as u8,
            forall|k: int| 0 <= k < i ==> buf@[4 + k] == data@[k],
            forall|k: int| 4 + i <= k < 64 ==> buf@[k] == 0,
        decreases len - i,
    {
        buf[4 + i] = data[i];
        i = i + 1;
    }
    buf[4 + len] = UartProtocol::checksum(data);
    assert(buf@ =~= tx_image(cmd, ack, data@));
    buf
}

/// The protocol state at power-up: idle receiver, empty buffers, every flag
/// clear, USB link, BLE channel 1, battery at 100 %, Mac dial position.
pub open spec fn protocol_initial(r: UartProtocol) -> bool {
    &&& r.rx_state == RxState::Idle
    &&& r.rx_buf@ == Seq::new(64, |_i: int| 0u8)
    &&& r.rx_len == 0
    &&& r.tx_buf@ == Seq::new(64, |_i: int| 0u8)
    &&& !r.f_uart_ack
    &&& !r.f_rf_hand_ok
    &&& !r.f_rf_read_data_ok
    &&& !r.f_rf_sts_sysc_ok
    &&& !r.f_rf_new_adv_ok
    &&& !r.f_rf_reset
    &&& !r.f_goto_sleep
    &&& !r.f_wakeup_prepare
    &&& r.uart_bit_report_buf@ == Seq::new(32, |_i: int| 0u8)
    &&& r.bitkb_report_buf@ == Seq::new(32, |_i: int| 0u8)
    &&& r.bytekb_report_buf@ == Seq::new(8, |_i: int| 0u8)
    &&& r.conkb_report == 0
    &&& r.syskb_report == 0
    &&& !r.f_bit_kb_act
    &&& !r.uart_repeat_flag
    &&& r.link_mode == LinkMode::Usb
    &&& r.rf_channel == 0
    &&& r.ble_channel == 1
    &&& r.rf_state == RfState::Idle
    &&& r.rf_charge == 0
    &&& r.rf_led == 0
    &&& r.rf_battery == 100
    &&& r.sys_sw_state == 0xA2
    &&& r.sync_lost == 0
    &&& r.disconnect_delay == 0
    &&& !r.f_send_channel
    &&& r.error_cnt == 0
    &&& !r.uart_pending
}

impl UartProtocol {
    pub fn new() -> (r: Self)
        ensures
            protocol_initial(r),
    {
        let r = UartProtocol {
            rx_state: RxState::Idle,
            rx_buf: [0u8; 64],
            rx_len: 0,
            tx_buf: [0u8; 64],
            f_uart_ack: false,
            f_rf_hand_ok: false,
            f_rf_read_data_ok: false,
            f_rf_sts_sysc_ok: false,
            f_rf_new_adv_ok: false,
            f_rf_reset: false,
            f_goto_sleep: false,
            f_wakeup_prepare: false,
            uart_bit_report_buf: [0u8; 32],
            bitkb_report_buf: [0u8; 32],
            bytekb_report_buf: [0u8; 8],
            conkb_report: 0,
            syskb_report: 0,
            f_bit_kb_act: false,
            uart_repeat_flag: false,
            link_mode: LinkMode::Usb,
            rf_channel: 0,
            ble_channel: 1,
            rf_state: RfState::Idle,
            rf_charge: 0,
            rf_led: 0,
            rf_battery: 100,
            sys_sw_state: 0xA2,
            sync_lost: 0,
            disconnect_delay: 0,
            f_send_channel: false,
            error_cnt: 0,
            uart_pending: false,
        };
        assert(r.rx_buf@ =~= Seq::new(64, |_i: int| 0u8));
        assert(r.tx_buf@ =~= Seq::new(64, |_i: int| 0u8));
        assert(r.uart_bit_report_buf@ =~= Seq::new(32, |_i: int| 0u8));
        assert(r.bitkb_report_buf@ =~= Seq::new(32, |_i: int| 0u8));
        assert(r.bytekb_report_buf@ =~= Seq::new(8, |_i: int| 0u8));
        r
    }

    /// Byte sum of `data` modulo 256, XOR-ed with `UART_HEAD`.
    pub fn checksum(data: &[u8]) -> (r: u8)
        ensures
            r == checksum_of(data@),
    {
        let mut acc: u8 = 0;
        let mut i: usize = 0;
        while i < data.len()
            invariant
                i <= data@.len(),
                acc as int == sum_bytes(data@.take(i as int)) % 256,
            decreases data@.len() - i,
        {
            assert(data@.take(i + 1).drop_last() =~= data@.take(i as int));
            acc = acc.wrapping_add(data[i]);
            i = i + 1;
        }
        assert(data@.take(i as int) =~= data@);
        acc ^ UART_HEAD
    }

    /// Encodes a command frame (ack byte 0) into `tx_buf` and marks it pending.
    /// Returns the frame length: header, data and checksum.
    pub fn build_cmd(&mut self, cmd: u8, data: &[u8]) -> (len: usize)
        requires
            data@.len() <= 59,
        ensures
            len == data@.len() + 5,
            final(self).tx_buf@ == tx_image(cmd, 0, data@),
            *final(self) == (UartProtocol { tx_buf: final(self).tx_buf, uart_pending: true, ..*old(self) }),
    {
        self.tx_buf = encode_frame(cmd, 0x00, data);
        self.uart_pending = true;
        data.len() + 5
    }

    fn apply_link_cmd_state(&mut self, cmd: u8)
        ensures
            *final(self) == link_cmd_state(*old(self), cmd),
    {
        let (st, delay, adv_ok) = if cmd == CMD_SET_LINK {
            (RfState::Linking, 0xFFu8, self.f_rf_new_adv_ok)
        } else if cmd == CMD_NEW_ADV {
            (RfState::Pairing, 0xFFu8, false)
        } else {
            (self.rf_state, self.disconnect_delay, self.f_rf_new_adv_ok)
        };
        self.rf_state = st;
        self.disconnect_delay = delay;
        self.f_rf_new_adv_ok = adv_ok;
    }

    /// Encodes a command frame with the payload the protocol prescribes for `cmd`,
    /// updating the link state for `CMD_SET_LINK` and `CMD_NEW_ADV`.
    pub fn build_link_cmd(&mut self, cmd: u8) -> (len: usize)
        ensures
            len == link_cmd_payload(old(self).link_mode, cmd).len() + 5,
            link_cmd_sent(*old(self), *final(self), cmd),
    {
        let payload = link_payload_bytes(self.link_mode, cmd);
        self.apply_link_cmd_state(cmd);
        self.build_cmd(cmd, payload.as_slice())
    }

    /// Encodes a report frame (ack byte 1) carrying `report_buf`.
    /// Returns the frame length.
    pub fn build_report(&mut self, report_type: u8, report_buf: &[u8], report_size: usize) -> (len: usize)
        requires
            report_buf@.len() == report_size,
            report_size <= 59,
        ensures
            len == report_size + 5,
            final(self).tx_buf@ == tx_image(report_type, 1, report_buf@),
            *final(self) == (UartProtocol { tx_buf: final(self).tx_buf, ..*old(self) }),
    {
        self.tx_buf = encode_frame(report_type, 0x01, report_buf);
        report_size + 5
    }

    fn on_rf_status(&mut self, data: &[u8])
        ensures
            *final(self) == rf_status_spec(*old(self), data@),
    {
        let matched = data.len() >= 5 && self.link_mode.to_u8() == data[0];
        let (st, led, charge, battery, errors, resync) = if matched {
            let st = RfState::from_u8(data[1]);
            let led = if st == RfState::Connect && (data[2] & 0xF8) == 0 {
                data[2]
            } else {
                self.rf_led
            };
            let battery = if data[4] <= 100 {
                data[4]
            } else {
                self.rf_battery
            };
            (st, led, data[3], battery, 0u8, self.f_send_channel)
        } else if self.rf_state != RfState::Invalid {
            if self.error_cnt >= 5 {
                (self.rf_state, self.rf_led, self.rf_charge, self.rf_battery, 0u8, true)
            } else {
                (self.rf_state, self.rf_led, self.rf_charge, self.rf_battery, self.error_cnt + 1, self.f_send_channel)
            }
        } else {
            (self.rf_state, self.rf_led, self.rf_charge, self.rf_battery, self.error_cnt, self.f_send_channel)
        };
        self.rf_state = st;
        self.rf_led = led;
        self.rf_charge = charge;
        self.rf_battery = battery;
        self.error_cnt = errors;
        self.f_send_channel = resync;
        self.f_rf_sts_sysc_ok = true;
    }

    fn on_read_data(&mut self, data: &[u8])
        ensures
            *final(self) == read_data_spec(*old(self), data@),
    {
        if data.len() >= 7 {
            let mode = if data[4] <= 4 {
                LinkMode::from_u8(data[4])
            } else {
                self.link_mode
            };
            let rf_ch = if data[5] < 4 {
                data[5]
            } else {
                self.rf_channel
            };
            let ble_ch = if data[6] >= 1 && data[6] <= 3 {
                data[6]
            } else {
                self.ble_channel
            };
            self.link_mode = mode;
            self.rf_channel = rf_ch;
            self.ble_channel = ble_ch;
        }
        self.f_rf_read_data_ok = true;
    }

    /// Dispatches a parsed frame, updating the device info shadow.
    pub fn dispatch_frame(&mut self, cmd: u8, data: &[u8])
        ensures
            *final(self) == dispatch_spec(*old(self), cmd, data@),
    {
        if cmd == CMD_HAND {
            self.f_rf_hand_ok = true;
        } else if cmd == CMD_24G_SUSPEND {
            self.f_goto_sleep = true;
        } else if cmd == CMD_NEW_ADV {
            self.f_rf_new_adv_ok = true;
        } else if cmd == CMD_RF_STS_SYSC {
            self.on_rf_status(data);
        } else if cmd == CMD_READ_DATA {
            self.on_read_data(data);
        }
    }

    /// Classifies the received frame: the RX state it leads to and, for an
    /// accepted frame, the length of its data.
    fn frame_status(buf: &[u8; 64], rx_len: u8) -> (r: (RxState, usize))
        requires
            frame_fits(buf@, rx_len),
        ensures
            r.0 == parse_rx_state(buf@, rx_len),
            frame_valid(buf@, rx_len) ==> r.0 == RxState::Idle && r.1 == buf@[3],
            r.1 <= 59,
    {
        if rx_len > 4 {
            let data_len = buf[3] as usize;
            if (rx_len as usize) - 5 != data_len {
                return (RxState::FormatErr, 0);
            }
            let data = vstd::slice::slice_subrange(vstd::array::array_as_slice(buf), 4, 4 + data_len);
            if Self::checksum(data) != buf[4 + data_len] {
                return (RxState::SumErr, 0);
            }
            (RxState::Idle, data_len)
        } else {
            (RxState::Idle, 0)
        }
    }

    fn finish_parse(&mut self, st: RxState)
        ensures
            *final(self) == (UartProtocol { f_uart_ack: true, sync_lost: 0, rx_len: 0, rx_state: st, ..*old(self) }),
    {
        self.f_uart_ack = true;
        self.sync_lost = 0;
        self.rx_state = st;
        self.rx_len = 0;
    }

    /// Whether the frame in the receive buffer can be checked in place.
    pub fn received_frame_fits(&self) -> (r: bool)
        ensures
            r == frame_fits(self.rx_buf@, self.rx_len),
    {
        !(self.rx_len > 64 && self.rx_len - 5 == self.rx_buf[3])
    }

    /// Parses a completely received frame. Returns the command byte and the
    /// data of a frame whose length field and checksum are right.
    pub fn parse_frame(&mut self) -> (r: Option<(u8, &[u8])>)
        requires
            old(self).rx_state == RxState::Done ==> frame_fits(old(self).rx_buf@, old(self).rx_len),
        ensures
            old(self).rx_state != RxState::Done ==> r is None && *final(self) == *old(self),
            old(self).rx_state == RxState::Done ==> {
                &&& *final(self) == parse_state(*old(self))
                &&& (r is Some <==> frame_valid(old(self).rx_buf@, old(self).rx_len))
                &&& (r matches Some((c, d)) ==> c == old(self).rx_buf@[1] && d@ == frame_data(old(self).rx_buf@))
            },
    {
        if self.rx_state != RxState::Done {
            return None;
        }
        let (st, data_len) = Self::frame_status(&self.rx_buf, self.rx_len);
        let valid = self.rx_len > 4 && st == RxState::Idle;
        self.finish_parse(st);
        if valid {
            let data = vstd::slice::slice_subrange(vstd::array::array_as_slice(&self.rx_buf), 4, 4 + data_len);
            Some((self.rx_buf[1], data))
        } else {
            None
        }
    }

    /// Marks the frame in `rx_buf` complete, parses it and dispatches it.
    /// Returns the command, the first (at most 32) data bytes and their count.
    pub fn rx_finish(&mut self) -> (r: Option<(u8, [u8; 32], u8)>)
        requires
            frame_fits(old(self).rx_buf@, old(self).rx_len),
        ensures
            ({
                let parsed = parse_state(UartProtocol { rx_state: RxState::Done, ..*old(self) });
                let data = frame_data(old(self).rx_buf@);
                let n = if data.len() < 32 { data.len() } else { 32 };
                if frame_valid(old(self).rx_buf@, old(self).rx_len) {
                    &&& r matches Some((c, copy, len)) && c == old(self).rx_buf@[1] && len == n
                        && copy@ == zero_pad(data.take(n as int), 32)
                    &&& *final(self) == dispatch_spec(parsed, old(self).rx_buf@[1], data.take(n as int))
                } else {
                    r is None && *final(self) == parsed
                }
            }),
    {
        self.mark_done();
        let ghost parsed = parse_state(*self);
        let ghost data = frame_data(old(self).rx_buf@);
        let (cmd, data_copy, data_len) = match self.parse_frame() {
            Some((c, d)) => {
                let (copy, n) = copy_prefix32(d);
                (c, copy, n)
            },
            None => {
                return None;
            },
        };
        let shown = vstd::slice::slice_subrange(vstd::array::array_as_slice(&data_copy), 0, data_len);
        assert(shown@ =~= data.take(data_len as int));
        assert(*self == parsed);
        self.dispatch_frame(cmd, shown);
        Some((cmd, data_copy, data_len as u8))
    }

    fn mark_done(&mut self)
        ensures
            *final(self) == (UartProtocol { rx_state: RxState::Done, ..*old(self) }),
    {
        self.rx_state = RxState::Done;
    }

    /// Diff-based NKRO report: compares `now_bit_report` with the last sent
    /// bitmap, moves changed keys into or out of the 6KRO byte report (or the
    /// overflow bit report when no slot is free) and says whether anything
    /// must be sent.
    pub fn auto_nkey_send(&mut self, now_bit_report: &[u8; 32]) -> (r: bool)
        ensures
            final(self).bytekb_report_buf@ == nkro_result(*old(self), now_bit_report@).byte_buf,
            final(self).uart_bit_report_buf@ == nkro_result(*old(self), now_bit_report@).bit_buf,
            final(self).f_bit_kb_act == nkro_result(*old(self), now_bit_report@).bit_send,
            r == (nkro_result(*old(self), now_bit_report@).byte_send
                || nkro_result(*old(self), now_bit_report@).bit_send),
            *final(self) == (UartProtocol {
                bytekb_report_buf: final(self).bytekb_report_buf,
                uart_bit_report_buf: final(self).uart_bit_report_buf,
                f_bit_kb_act: final(self).f_bit_kb_act,
                ..*old(self)
            }),
    {
        let prev = self.bitkb_report_buf;
        let mut byte_buf = self.bytekb_report_buf;
        let mut bit_buf = self.uart_bit_report_buf;
        let mut f_byte_send = false;
        let mut f_bit_send = false;
        if prev[0] ^ now_bit_report[0] != 0 {
            byte_buf[0] = now_bit_report[0];
            f_byte_send = true;
        }
        let ghost s0 = NkroScan { byte_buf: byte_buf@, bit_buf: bit_buf@, byte_send: f_byte_send, bit_send: f_bit_send };
        assert(s0 == nkro_start(*old(self), now_bit_report@));
        let mut k: usize = 0;
        while k < 248
            invariant
                k <= 248,
                prev@ == old(self).bitkb_report_buf@,
                nkro_scan(s0, prev@, now_bit_report@, k as nat) == (NkroScan {
                    byte_buf: byte_buf@,
                    bit_buf: bit_buf@,
                    byte_send: f_byte_send,
                    bit_send: f_bit_send,
                }),
            decreases 248 - k,
        {
            let i = k / 8 + 1;
            let j = (k % 8) as u8;
            let mask: u8 = 1u8 << j;
            let code = k as u8;
            if (prev[i] ^ now_bit_report[i]) & mask != 0 {
                if now_bit_report[i] & mask != 0 {
                    let slot = find_slot(&byte_buf, 0);
                    if slot < 8 {
                        byte_buf[slot] = code;
                        f_byte_send = true;
                    } else {
                        bit_buf[i] = bit_buf[i] | mask;
                        f_bit_send = true;
                    }
                } else {
                    let slot = find_slot(&byte_buf, code);
                    if slot < 8 {
                        byte_buf[slot] = 0;
                        f_byte_send = true;
                    } else {
                        bit_buf[i] = bit_buf[i] & !mask;
                        f_bit_send = true;
                    }
                }
            }
            k = k + 1;
        }
        self.store_nkro(byte_buf, bit_buf, f_bit_send);
        f_bit_send || f_byte_send
    }

    fn store_nkro(&mut self, byte_buf: [u8; 8], bit_buf: [u8; 32], bit_act: bool)
        ensures
            *final(self) == (UartProtocol {
                bytekb_report_buf: byte_buf,
                uart_bit_report_buf: bit_buf,
                f_bit_kb_act: bit_act,
                ..*old(self)
            }),
    {
        self.bytekb_report_buf = byte_buf;
        self.uart_bit_report_buf = bit_buf;
        self.f_bit_kb_act = bit_act;
    }

    /// Appends a received byte to `rx_buf` while there is room.
    pub fn rx_queue_byte(&mut self, byte: u8)
        ensures
            old(self).rx_len < 64 ==> *final(self) == (UartProtocol {
                rx_buf: final(self).rx_buf,
                rx_len: (old(self).rx_len + 1) as u8,
                ..*old(self)
            }) && final(self).rx_buf@ == old(self).rx_buf@.update(old(self).rx_len as int, byte),
            old(self).rx_len >= 64 ==> *final(self) == *old(self),
    {
        if (self.rx_len as usize) < UART_MAX_LEN {
            self.rx_buf[self.rx_len as usize] = byte;
            self.rx_len = self.rx_len + 1;
        }
    }
}

impl Default for UartProtocol {
    fn default() -> (r: Self)
        ensures
            r.link_mode == LinkMode::Usb,
            r.rf_state == RfState::Idle,
            r.rx_state == RxState::Idle,
            r.rf_battery == 100,
    {
        Self::new()
    }
}

// ── Laws ─────────────────────────────────────────────────────────────
/// A frame encoded for transmission is accepted whole by a receiver: its
/// length field and checksum check out, the parse ends in the idle state,
/// and the data comes back unchanged.
pub proof fn lemma_frame_roundtrip(cmd: u8, ack: u8, data: Seq<u8>)
    requires
        data.len() <= 59,
    ensures
        frame_valid(tx_image(cmd, ack, data), (data.len() + 5) as u8),
        parse_rx_state(tx_image(cmd, ack, data), (data.len() + 5) as u8) == RxState::Idle,
        frame_data(tx_image(cmd, ack, data)) == data,
        tx_image(cmd, ack, data)[1] == cmd,
{
    let img = tx_image(cmd, ack, data);
    let n = data.len() as int;
    assert(img[3] == data.len() as u8);
    assert(img.subrange(4, 4 + n) =~= data);
    assert(img[4 + n] == checksum_of(data));
}

/// Decoding the wire code of a link mode gives the mode back.
pub proof fn lemma_link_mode_code_roundtrip(m: LinkMode)
    ensures
        link_mode_of(link_mode_code(m)) == m,
{
}

/// Decoding the wire code of an RF state gives the state back.
pub proof fn lemma_rf_state_code_roundtrip(s: RfState)
    ensures
        rf_state_of(rf_state_code(s)) == s,
{
}

// ── The NKRO diff keeps the reports right ────────────────────────────
/// Code `v` sits in one of the six key slots (bytes 2..8) of a byte report.
pub open spec fn in_slots(buf: Seq<u8>, v: u8) -> bool {
    exists|i: int| 2 <= i < 8 && buf[i] == v
}

/// Code `v` sits in at most one key slot.
pub open spec fn at_most_once(buf: Seq<u8>, v: u8) -> bool {
    forall|a: int, b: int| 2 <= a < 8 && 2 <= b < 8 && buf[a] == v && buf[b] == v ==> a == b
}

/// Key `k`'s bit in the overflow bitmap.
pub open spec fn overflow_bit(s: NkroScan, k: int) -> bool {
    s.bit_buf[k / 8 + 1] & key_mask(k % 8) != 0
}

/// Key `k` is reported: in a key slot or in the overflow bitmap.
pub open spec fn reported(s: NkroScan, k: int) -> bool {
    in_slots(s.byte_buf, k as u8) || overflow_bit(s, k)
}

pub open spec fn scan_shape(s: NkroScan) -> bool {
    s.byte_buf.len() == 8 && s.bit_buf.len() == 32
}

proof fn lemma_first_slot(buf: Seq<u8>, v: u8, from: int)
    requires
        2 <= from <= 8,
    ensures
        from <= first_slot(buf, v, from) <= 8,
        first_slot(buf, v, from) < 8 ==> buf[first_slot(buf, v, from)] == v,
        forall|t: int| from <= t < first_slot(buf, v, from) ==> buf[t] != v,
    decreases 8 - from,
{
    if from < 8 && buf[from] != v {
        lemma_first_slot(buf, v, from + 1);
    }
}

proof fn lemma_xor_bit(a: u8, b: u8, s: u8)
    requires
        s < 8,
    ensures
        ((a ^ b) & (1u8 << s) != 0) == ((a & (1u8 << s) != 0) != (b & (1u8 << s) != 0)),
{
    assert(((a ^ b) & (1u8 << s) != 0) == ((a & (1u8 << s) != 0) != (b & (1u8 << s) != 0))) by (bit_vector)
        requires
            s < 8;
}

proof fn lemma_bit_set(x: u8, s: u8)
    requires
        s < 8,
    ensures
        (x | (1u8 << s)) & (1u8 << s) != 0,
{
    assert((x | (1u8 << s)) & (1u8 << s) != 0) by (bit_vector)
        requires
            s < 8;
}

proof fn lemma_bit_cleared(x: u8, s: u8)
    requires
        s < 8,
    ensures
        (x & !(1u8 << s)) & (1u8 << s) == 0,
{
    assert((x & !(1u8 << s)) & (1u8 << s) == 0) by (bit_vector)
        requires
            s < 8;
}

/// Setting or clearing bit `s` leaves bit `t` as it was.
proof fn lemma_other_bit(x: u8, s: u8, t: u8)
    requires
        s < 8,
        t < 8,
        s != t,
    ensures
        ((x | (1u8 << s)) & (1u8 << t) != 0) == (x & (1u8 << t) != 0),
        ((x & !(1u8 << s)) & (1u8 << t) != 0) == (x & (1u8 << t) != 0),
{
    assert(((x | (1u8 << s)) & (1u8 << t) != 0) == (x & (1u8 << t) != 0)) by (bit_vector)
        requires
            s < 8,
            t < 8,
            s != t;
    assert(((x & !(1u8 << s)) & (1u8 << t) != 0) == (x & (1u8 << t) != 0)) by (bit_vector)
        requires
            s < 8,
            t < 8,
            s != t;
}

/// The diff step of another key `j` keeps key `k`'s slots and bit:
/// a press fills a free slot (code 0) or sets `j`'s bit, a release empties
/// a slot holding `j` or clears `j`'s bit.
proof fn lemma_step_other(s: NkroScan, prev: Seq<u8>, now: Seq<u8>, j: int, k: int)
    requires
        scan_shape(s),
        prev.len() == 32,
        now.len() == 32,
        0 <= j < 248,
        1 <= k < 248,
        j != k,
    ensures
        scan_shape(nkro_step(s, prev, now, j)),
        reported(s, k) ==> reported(nkro_step(s, prev, now, j), k),
        !in_slots(s.byte_buf, k as u8) ==> !in_slots(nkro_step(s, prev, now, j).byte_buf, k as u8),
        at_most_once(s.byte_buf, k as u8) ==> at_most_once(nkro_step(s, prev, now, j).byte_buf, k as u8),
        overflow_bit(nkro_step(s, prev, now, j), k) == overflow_bit(s, k),
{
    let t = nkro_step(s, prev, now, j);
    let i = j / 8 + 1;
    let ik = k / 8 + 1;
    let sj = (j % 8) as u8;
    let sk = (k % 8) as u8;
    assert(j as u8 != k as u8);
    lemma_first_slot(s.byte_buf, 0, 2);
    lemma_first_slot(s.byte_buf, j as u8, 2);
    if i == ik {
        assert(sj != sk);
        lemma_other_bit(s.bit_buf[i], sj, sk);
    }
    if in_slots(s.byte_buf, k as u8) {
        let w = choose|w: int| 2 <= w < 8 && s.byte_buf[w] == k as u8;
        assert(t.byte_buf[w] == k as u8);
    }
    assert(!in_slots(s.byte_buf, k as u8) ==> !in_slots(t.byte_buf, k as u8));
}

/// Key `k`'s own diff step: a press reports it; a release of a key held in
/// at most one slot leaves it in none, and clears its bit when it was in
/// none.
proof fn lemma_step_self(s: NkroScan, prev: Seq<u8>, now: Seq<u8>, k: int)
    requires
        scan_shape(s),
        prev.len() == 32,
        now.len() == 32,
        1 <= k < 248,
    ensures
        scan_shape(nkro_step(s, prev, now, k)),
        ({
            let i = k / 8 + 1;
            let m = key_mask(k % 8);
            &&& (prev[i] & m == 0 && now[i] & m != 0 ==> reported(nkro_step(s, prev, now, k), k))
            &&& (prev[i] & m != 0 && now[i] & m == 0 && at_most_once(s.byte_buf, k as u8) ==> {
                &&& !in_slots(nkro_step(s, prev, now, k).byte_buf, k as u8)
                &&& (!in_slots(s.byte_buf, k as u8) ==> !overflow_bit(nkro_step(s, prev, now, k), k))
            })
        }),
{
    let t = nkro_step(s, prev, now, k);
    let i = k / 8 + 1;
    let sk = (k % 8) as u8;
    let m = key_mask(k % 8);
    lemma_first_slot(s.byte_buf, 0, 2);
    lemma_first_slot(s.byte_buf, k as u8, 2);
    lemma_bit_set(s.bit_buf[i], sk);
    lemma_bit_cleared(s.bit_buf[i], sk);
    lemma_xor_bit(prev[i], now[i], sk);
    if prev[i] & m == 0 && now[i] & m != 0 {
        let slot = first_slot(s.byte_buf, 0, 2);
        if slot < 8 {
            assert(t.byte_buf[slot] == k as u8);
        }
    }
    if prev[i] & m != 0 && now[i] & m == 0 && at_most_once(s.byte_buf, k as u8) {
        let slot = first_slot(s.byte_buf, k as u8, 2);
        assert forall|w: int| 2 <= w < 8 implies t.byte_buf[w] != k as u8 by {
            if slot < 8 && w != slot {
                assert(s.byte_buf[w] != k as u8);
            }
        }
    }
}

/// Over the keys before `k`, the scan keeps `k`'s slots and bit.
proof fn lemma_scan_before(s0: NkroScan, prev: Seq<u8>, now: Seq<u8>, n: nat, k: int)
    requires
        scan_shape(s0),
        prev.len() == 32,
        now.len() == 32,
        1 <= k < 248,
        n <= k,
    ensures
        scan_shape(nkro_scan(s0, prev, now, n)),
        in_slots(s0.byte_buf, k as u8) || !in_slots(nkro_scan(s0, prev, now, n).byte_buf, k as u8),
        at_most_once(s0.byte_buf, k as u8) ==> at_most_once(nkro_scan(s0, prev, now, n).byte_buf, k as u8),
        overflow_bit(nkro_scan(s0, prev, now, n), k) == overflow_bit(s0, k),
    decreases n,
{
    if n > 0 {
        lemma_scan_before(s0, prev, now, (n - 1) as nat, k);
        lemma_step_other(nkro_scan(s0, prev, now, (n - 1) as nat), prev, now, n - 1, k);
    }
}

/// Over the keys after `k`, the scan keeps `k` reported, or out of the
/// slots and the bitmap.
proof fn lemma_scan_after(s0: NkroScan, prev: Seq<u8>, now: Seq<u8>, n: nat, k: int)
    requires
        scan_shape(s0),
        prev.len() == 32,
        now.len() == 32,
        1 <= k < 248,
        k < n <= 248,
    ensures
        scan_shape(nkro_scan(s0, prev, now, n)),
        reported(nkro_scan(s0, prev, now, (k + 1) as nat), k) ==> reported(nkro_scan(s0, prev, now, n), k),
        !in_slots(nkro_scan(s0, prev, now, (k + 1) as nat).byte_buf, k as u8)
            ==> !in_slots(nkro_scan(s0, prev, now, n).byte_buf, k as u8),
        overflow_bit(nkro_scan(s0, prev, now, n), k) == overflow_bit(nkro_scan(s0, prev, now, (k + 1) as nat), k),
    decreases n,
{
    if n == k + 1 {
        lemma_scan_before(s0, prev, now, k as nat, k);
        lemma_step_self(nkro_scan(s0, prev, now, k as nat), prev, now, k);
    } else {
        lemma_scan_after(s0, prev, now, (n - 1) as nat, k);
        lemma_step_other(nkro_scan(s0, prev, now, (n - 1) as nat), prev, now, n - 1, k);
    }
}

/// A key pressed since the last NKRO report is in the next one: in a key
/// slot, or in the overflow bitmap when all six slots are taken.
pub proof fn lemma_nkro_press_reported(p: UartProtocol, now: Seq<u8>, k: int)
    requires
        now.len() == 32,
        1 <= k < 248,
        p.bitkb_report_buf@[k / 8 + 1] & key_mask(k % 8) == 0,
        now[k / 8 + 1] & key_mask(k % 8) != 0,
    ensures
        reported(nkro_result(p, now), k),
{
    let s0 = nkro_start(p, now);
    let prev = p.bitkb_report_buf@;
    lemma_scan_before(s0, prev, now, k as nat, k);
    lemma_step_self(nkro_scan(s0, prev, now, k as nat), prev, now, k);
    lemma_scan_after(s0, prev, now, 248, k);
}

/// A key released since the last NKRO report, held in at most one key
/// slot, is in no slot of the next report; and its overflow bit is clear
/// when it held no slot.
pub proof fn lemma_nkro_release_withdrawn(p: UartProtocol, now: Seq<u8>, k: int)
    requires
        now.len() == 32,
        1 <= k < 248,
        p.bitkb_report_buf@[k / 8 + 1] & key_mask(k % 8) != 0,
        now[k / 8 + 1] & key_mask(k % 8) == 0,
        at_most_once(p.bytekb_report_buf@, k as u8),
    ensures
        !in_slots(nkro_result(p, now).byte_buf, k as u8),
        !in_slots(p.bytekb_report_buf@, k as u8) ==> !overflow_bit(nkro_result(p, now), k),
{
    let s0 = nkro_start(p, now);
    let prev = p.bitkb_report_buf@;
    assert(at_most_once(s0.byte_buf, k as u8));
    assert(in_slots(s0.byte_buf, k as u8) == in_slots(p.bytekb_report_buf@, k as u8)) by {
        if in_slots(s0.byte_buf, k as u8) {
            let w = choose|w: int| 2 <= w < 8 && s0.byte_buf[w] == k as u8;
            assert(p.bytekb_report_buf@[w] == k as u8);
        }
        if in_slots(p.bytekb_report_buf@, k as u8) {
            let w = choose|w: int| 2 <= w < 8 && p.bytekb_report_buf@[w] == k as u8;
            assert(s0.byte_buf[w] == k as u8);
        }
    }
    lemma_scan_before(s0, prev, now, k as nat, k);
    lemma_step_self(nkro_scan(s0, prev, now, k as nat), prev, now, k);
    lemma_scan_after(s0, prev, now, 248, k);
}

} // verus!
