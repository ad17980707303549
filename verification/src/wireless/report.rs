//! HID report sender: translates keyboard, NKRO, consumer, system and mouse
//! reports into UART frames for the NRF module. Over USB nothing is framed.
use vstd::prelude::*;
use crate::wireless::uart::{
    UartProtocol, LinkMode, CMD_RPT_BYTE_KB, CMD_RPT_BIT_KB, CMD_RPT_CONSUME, CMD_RPT_SYS,
    CMD_RPT_MS, tx_image, nkro_result, lemma_nkro_sends_iff_changed,
};

verus! {

/// The 8-byte 6KRO report: modifiers, a reserved zero byte, six key codes.
pub open spec fn keyboard_report(modifiers: u8, keys: Seq<u8>) -> Seq<u8> {
    seq![modifiers, 0u8] + keys
}

/// Little-endian bytes of a 16-bit usage code.
pub open spec fn usage_bytes(usage: u16) -> Seq<u8> {
    seq![(usage % 256) as u8, (usage / 256) as u8]
}

/// The 5-byte mouse report.
pub open spec fn mouse_report(buttons: u8, x: i8, y: i8, wheel: i8, pan: i8) -> Seq<u8> {
    seq![buttons, x as u8, y as u8, wheel as u8, pan as u8]
}

/// Keyboard report (6KRO). Returns the UART frame length to transmit, or 0
/// over USB.
pub fn send_keyboard(proto: &mut UartProtocol, modifiers: u8, keys: &[u8; 6]) -> (len: usize)
    ensures
        old(proto).link_mode == LinkMode::Usb ==> len == 0 && *final(proto) == *old(proto),
        old(proto).link_mode != LinkMode::Usb ==> {
            &&& len == 13
            &&& final(proto).bytekb_report_buf@ == keyboard_report(modifiers, keys@)
            &&& final(proto).tx_buf@ == tx_image(CMD_RPT_BYTE_KB, 1, keyboard_report(modifiers, keys@))
            &&& *final(proto) == (UartProtocol {
                bytekb_report_buf: final(proto).bytekb_report_buf,
                tx_buf: final(proto).tx_buf,
                ..*old(proto)
            })
        },
{
    if proto.link_mode == LinkMode::Usb {
        return 0;
    }
    let report: [u8; 8] = [modifiers, 0, keys[0], keys[1], keys[2], keys[3], keys[4], keys[5]];
    assert(report@ =~= keyboard_report(modifiers, keys@));
    store_byte_report(proto, report);
    proto.build_report(CMD_RPT_BYTE_KB, vstd::array::array_as_slice(&report), 8)
}

fn store_byte_report(proto: &mut UartProtocol, report: [u8; 8])
    ensures
        *final(proto) == (UartProtocol { bytekb_report_buf: report, ..*old(proto) }),
{
    proto.bytekb_report_buf = report;
}

fn store_bit_history(proto: &mut UartProtocol, bits: [u8; 32])
    ensures
        *final(proto) == (UartProtocol { bitkb_report_buf: bits, ..*old(proto) }),
{
    proto.bitkb_report_buf = bits;
}

/// NKRO report: runs the diff against the last bitmap; when something changed
/// the overflow bit report (first 16 bytes, when in use) and then the byte
/// report are framed, so the byte report is what `tx_buf` ends up holding.
/// The bitmap is remembered for the next diff.
pub fn send_nkro(proto: &mut UartProtocol, bits: &[u8; 32])
    ensures
        old(proto).link_mode == LinkMode::Usb ==> *final(proto) == *old(proto),
        old(proto).link_mode != LinkMode::Usb ==> ({
            let res = nkro_result(*old(proto), bits@);
            let changed = res.byte_send || res.bit_send;
            &&& final(proto).bytekb_report_buf@ == res.byte_buf
            &&& final(proto).uart_bit_report_buf@ == res.bit_buf
            &&& final(proto).f_bit_kb_act == res.bit_send
            &&& final(proto).bitkb_report_buf@ == bits@
            &&& (changed ==> final(proto).tx_buf@ == tx_image(CMD_RPT_BYTE_KB, 1, res.byte_buf))
            &&& (!changed ==> final(proto).tx_buf == old(proto).tx_buf)
            &&& *final(proto) == (UartProtocol {
                bytekb_report_buf: final(proto).bytekb_report_buf,
                uart_bit_report_buf: final(proto).uart_bit_report_buf,
                f_bit_kb_act: final(proto).f_bit_kb_act,
                bitkb_report_buf: final(proto).bitkb_report_buf,
                tx_buf: final(proto).tx_buf,
                ..*old(proto)
            })
        }),
        old(proto).link_mode != LinkMode::Usb && bits@ != old(proto).bitkb_report_buf@
            ==> final(proto).tx_buf@ == tx_image(CMD_RPT_BYTE_KB, 1, final(proto).bytekb_report_buf@),
        old(proto).link_mode != LinkMode::Usb && bits@ == old(proto).bitkb_report_buf@
            ==> final(proto).tx_buf == old(proto).tx_buf,
{
    if proto.link_mode == LinkMode::Usb {
        return;
    }
    proof {
        lemma_nkro_sends_iff_changed(*proto, bits@);
    }
    let changed = proto.auto_nkey_send(bits);
    let ghost mid = *proto;
    frame_nkro_reports(proto, changed);
    assert(changed ==> final_tx_ok(*proto, mid));
    store_bit_history(proto, *bits);
}

spec fn final_tx_ok(p: UartProtocol, mid: UartProtocol) -> bool {
    p.tx_buf@ == tx_image(CMD_RPT_BYTE_KB, 1, mid.bytekb_report_buf@)
}

/// Frames the overflow bit report (when in use) and then the byte report.
fn frame_nkro_reports(proto: &mut UartProtocol, changed: bool)
    ensures
        changed ==> final(proto).tx_buf@ == tx_image(CMD_RPT_BYTE_KB, 1, old(proto).bytekb_report_buf@),
        *final(proto) == (UartProtocol { tx_buf: final(proto).tx_buf, ..*old(proto) }),
        !changed ==> final(proto).tx_buf == old(proto).tx_buf,
{
    if !changed {
        return;
    }
    let bit_report = vstd::slice::slice_subrange(
        vstd::array::array_as_slice(&proto.uart_bit_report_buf),
        0,
        16,
    );
    let bit_copy = vstd::slice::slice_to_vec(bit_report);
    let byte_report = proto.bytekb_report_buf;
    if proto.f_bit_kb_act {
        proto.build_report(CMD_RPT_BIT_KB, bit_copy.as_slice(), 16);
    }
    proto.build_report(CMD_RPT_BYTE_KB, vstd::array::array_as_slice(&byte_report), 8);
}

/// Consumer (media key) report carrying `usage` little-endian.
pub fn send_consumer(proto: &mut UartProtocol, usage: u16)
    ensures
        old(proto).link_mode == LinkMode::Usb ==> *final(proto) == *old(proto),
        old(proto).link_mode != LinkMode::Usb ==> {
            &&& final(proto).tx_buf@ == tx_image(CMD_RPT_CONSUME, 1, usage_bytes(usage))
            &&& *final(proto) == (UartProtocol { tx_buf: final(proto).tx_buf, ..*old(proto) })
        },
{
    if proto.link_mode == LinkMode::Usb {
        return;
    }
    let buf: [u8; 2] = [(usage % 256) as u8, (usage / 256) as u8];
    assert(buf@ =~= usage_bytes(usage));
    proto.build_report(CMD_RPT_CONSUME, vstd::array::array_as_slice(&buf), 2);
}

/// System control (power, sleep, wake) report carrying `usage` little-endian.
pub fn send_system(proto: &mut UartProtocol, usage: u16)
    ensures
        old(proto).link_mode == LinkMode::Usb ==> *final(proto) == *old(proto),
        old(proto).link_mode != LinkMode::Usb ==> {
            &&& final(proto).tx_buf@ == tx_image(CMD_RPT_SYS, 1, usage_bytes(usage))
            &&& *final(proto) == (UartProtocol { tx_buf: final(proto).tx_buf, ..*old(proto) })
        },
{
    if proto.link_mode == LinkMode::Usb {
        return;
    }
    let buf: [u8; 2] = [(usage % 256) as u8, (usage / 256) as u8];
    assert(buf@ =~= usage_bytes(usage));
    proto.build_report(CMD_RPT_SYS, vstd::array::array_as_slice(&buf), 2);
}

/// Mouse report: buttons, then the signed motion bytes.
pub fn send_mouse(proto: &mut UartProtocol, buttons: u8, x: i8, y: i8, wheel: i8, pan: i8)
    ensures
        old(proto).link_mode == LinkMode::Usb ==> *final(proto) == *old(proto),
        old(proto).link_mode != LinkMode::Usb ==> {
            &&& final(proto).tx_buf@ == tx_image(CMD_RPT_MS, 1, mouse_report(buttons, x, y, wheel, pan))
            &&& *final(proto) == (UartProtocol { tx_buf: final(proto).tx_buf, ..*old(proto) })
        },
{
    if proto.link_mode == LinkMode::Usb {
        return;
    }
    let buf: [u8; 5] = [buttons, x as u8, y as u8, wheel as u8, pan as u8];
    assert(buf@ =~= mouse_report(buttons, x, y, wheel, pan));
    proto.build_report(CMD_RPT_MS, vstd::array::array_as_slice(&buf), 5);
}

} // verus!
