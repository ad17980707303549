//! Power management: inactivity timeout, USB suspend detection and the
//! sleep / wakeup sequence.
use vstd::prelude::*;
use crate::wireless::uart::{
    UartProtocol, CMD_HAND, CMD_SLEEP, CMD_SET_CONFIG, LinkMode, RfState, link_cmd_sent,
    link_cmd_payload, frame_bytes, tx_image, zero_pad,
};

verus! {

/// Inactivity before sleeping, in 10 ms ticks (6 minutes).
pub const SLEEP_TIME_DELAY: u16 = 36000;

/// Linking / pairing timeout, in 10 ms ticks (2 minutes).
pub const LINK_TIMEOUT: u16 = 12000;

pub const POWER_DOWN_DELAY: u16 = 24;

pub struct SleepManager {
    /// Inactivity counter (incremented every 10 ms, reset on key event)
    pub no_act_time: u16,
    /// Linking timeout counter
    pub rf_linking_time: u16,
    /// USB suspend debounce counter
    pub usb_suspend_debounce: u8,
    /// RF disconnect debounce counter (50 ms ticks)
    pub rf_disconnect_time: u32,
    /// Sleep enabled by user config
    pub sleep_enabled: bool,
    /// Goto-sleep flag (set by external trigger)
    pub f_goto_sleep: bool,
    /// Wakeup prepared flag (set after sleep, cleared on activity)
    pub f_wakeup_prepare: bool,
}

/// The sleep manager's counters and flags as plain values.
pub struct SleepState {
    pub no_act_time: u16,
    pub rf_linking_time: u16,
    pub usb_suspend_debounce: u8,
    pub rf_disconnect_time: u32,
    pub sleep_enabled: bool,
    pub f_goto_sleep: bool,
    pub f_wakeup_prepare: bool,
}

/// The command `tick` frames for the NRF module, if any.
pub open spec fn sleep_command(s: SleepState, rf_state: RfState) -> Option<u8> {
    if s.f_goto_sleep {
        if s.sleep_enabled {
            if rf_state == RfState::Connect {
                Some(CMD_SET_CONFIG)
            } else {
                Some(CMD_SLEEP)
            }
        } else {
            None
        }
    } else if s.f_wakeup_prepare && s.no_act_time < 10 {
        Some(CMD_HAND)
    } else {
        None
    }
}

/// The counters and flags after one `tick` (every 50 ms).
pub open spec fn sleep_tick(s: SleepState, link_mode: LinkMode, rf_state: RfState, usb_suspended: bool) -> SleepState {
    if s.f_goto_sleep {
        SleepState { f_goto_sleep: false, f_wakeup_prepare: true, ..s }
    } else if s.f_wakeup_prepare && s.no_act_time < 10 {
        SleepState { f_wakeup_prepare: false, ..s }
    } else if s.f_wakeup_prepare {
        s
    } else if link_mode == LinkMode::Usb {
        if usb_suspended {
            let d = ((s.usb_suspend_debounce + 1) % 256) as u8;
            SleepState { usb_suspend_debounce: d, f_goto_sleep: d >= 20, ..s }
        } else {
            SleepState { usb_suspend_debounce: 0, ..s }
        }
    } else if rf_state == RfState::Connect {
        SleepState {
            rf_disconnect_time: 0,
            rf_linking_time: 0,
            f_goto_sleep: s.no_act_time >= SLEEP_TIME_DELAY,
            ..s
        }
    } else if rf_state == RfState::Linking || rf_state == RfState::Pairing {
        if s.rf_linking_time >= LINK_TIMEOUT {
            SleepState { rf_linking_time: 0, f_goto_sleep: true, ..s }
        } else {
            s
        }
    } else if rf_state == RfState::Disconnect {
        if s.rf_disconnect_time + 1 > 100 {
            SleepState { rf_linking_time: 0, rf_disconnect_time: 0, f_goto_sleep: true, ..s }
        } else {
            SleepState { rf_linking_time: 0, rf_disconnect_time: (s.rf_disconnect_time + 1) as u32, ..s }
        }
    } else {
        SleepState { rf_linking_time: 0, ..s }
    }
}

/// The other ways to sleep and to wake, with nothing else pending:
/// a wireless link searching (linking or pairing) for two minutes (12000
/// ticks of 10 ms) gives up and sleeps; a lost link sleeps on its 101st tick
/// disconnected; on USB, the 20th suspended tick in a row sleeps and an
/// awake tick clears the count. A goto-sleep flag always turns into the wait
/// for wakeup, and a key within 100 ms of that wait ends it with a handshake.
pub proof fn lemma_sleep_triggers(s: SleepState, link_mode: LinkMode, rf_state: RfState, usb_suspended: bool)
    ensures
        ({
            let s1 = sleep_tick(s, link_mode, rf_state, usb_suspended);
            let idle = !s.f_goto_sleep && !s.f_wakeup_prepare;
            let wireless = link_mode != LinkMode::Usb;
            &&& idle && wireless && (rf_state == RfState::Linking || rf_state == RfState::Pairing) ==> s1.f_goto_sleep
                == (s.rf_linking_time >= 12000)
            &&& idle && wireless && rf_state == RfState::Disconnect ==> s1.f_goto_sleep == (s.rf_disconnect_time >= 100)
            &&& idle && wireless && rf_state == RfState::Disconnect && s.rf_disconnect_time < 100
                ==> s1.rf_disconnect_time == s.rf_disconnect_time + 1
            &&& idle && !wireless && usb_suspended && s.usb_suspend_debounce < 255 ==> s1.usb_suspend_debounce
                == s.usb_suspend_debounce + 1 && s1.f_goto_sleep == (s.usb_suspend_debounce + 1 >= 20)
            &&& idle && !wireless && !usb_suspended ==> s1.usb_suspend_debounce == 0 && !s1.f_goto_sleep
            &&& s.f_goto_sleep ==> !s1.f_goto_sleep && s1.f_wakeup_prepare
            &&& !s.f_goto_sleep && s.f_wakeup_prepare ==> (s1.f_wakeup_prepare == (s.no_act_time >= 10))
            &&& !s.f_goto_sleep && s.f_wakeup_prepare && s.no_act_time < 10 ==> sleep_command(s, rf_state) == Some(
                CMD_HAND,
            )
        }),
{
}

/// Inactivity sleep on a connected wireless link: with nothing pending, a
/// tick after six minutes without a key (36000 ticks of 10 ms) raises the
/// goto-sleep flag, and a tick before that does not; the next tick, still
/// connected and with sleep enabled, frames the set-config command and waits
/// for wakeup.
pub proof fn lemma_connected_idle_sleeps(s: SleepState, link_mode: LinkMode, usb_suspended: bool)
    requires
        !s.f_goto_sleep,
        !s.f_wakeup_prepare,
        link_mode != LinkMode::Usb,
    ensures
        ({
            let s1 = sleep_tick(s, link_mode, RfState::Connect, usb_suspended);
            &&& s1.f_goto_sleep == (s.no_act_time >= 36000)
            &&& !s1.f_wakeup_prepare
            &&& s1.no_act_time == s.no_act_time
            &&& (s.no_act_time >= 36000 && s.sleep_enabled ==> sleep_command(s1, RfState::Connect) == Some(
                CMD_SET_CONFIG,
            ))
            &&& (s.no_act_time >= 36000 ==> {
                let s2 = sleep_tick(s1, link_mode, RfState::Connect, usb_suspended);
                !s2.f_goto_sleep && s2.f_wakeup_prepare
            })
        }),
{
}

impl SleepManager {
    /// The counters and flags of this manager.
    pub open spec fn state(&self) -> SleepState {
        SleepState {
            no_act_time: self.no_act_time,
            rf_linking_time: self.rf_linking_time,
            usb_suspend_debounce: self.usb_suspend_debounce,
            rf_disconnect_time: self.rf_disconnect_time,
            sleep_enabled: self.sleep_enabled,
            f_goto_sleep: self.f_goto_sleep,
            f_wakeup_prepare: self.f_wakeup_prepare,
        }
    }

    /// The disconnect counter never exceeds its threshold.
    pub open spec fn wf(&self) -> bool {
        self.rf_disconnect_time <= 100
    }

    /// Whether the disconnect counter is within its threshold.
    pub fn counters_ok(&self) -> (r: bool)
        ensures
            r == self.wf(),
    {
        self.rf_disconnect_time <= 100
    }

    pub fn new() -> (r: Self)
        ensures
            r.state() == (SleepState {
                no_act_time: 0,
                rf_linking_time: 0,
                usb_suspend_debounce: 0,
                rf_disconnect_time: 0,
                sleep_enabled: true,
                f_goto_sleep: false,
                f_wakeup_prepare: false,
            }),
            r.no_act_time == 0,
            r.rf_linking_time == 0,
            r.sleep_enabled,
            !r.f_goto_sleep,
            !r.f_wakeup_prepare,
            r.wf(),
    {
        SleepManager {
            no_act_time: 0,
            rf_linking_time: 0,
            usb_suspend_debounce: 0,
            rf_disconnect_time: 0,
            sleep_enabled: true,
            f_goto_sleep: false,
            f_wakeup_prepare: false,
        }
    }

    /// Called on every key event: resets the inactivity timer.
    pub fn on_activity(&mut self)
        ensures
            final(self).state() == (SleepState { no_act_time: 0, ..old(self).state() }),
            final(self).no_act_time == 0,
            final(self).rf_linking_time == old(self).rf_linking_time,
            final(self).sleep_enabled == old(self).sleep_enabled,
            final(self).f_goto_sleep == old(self).f_goto_sleep,
            final(self).f_wakeup_prepare == old(self).f_wakeup_prepare,
            old(self).wf() ==> final(self).wf(),
    {
        self.no_act_time = 0;
    }

    /// Called every 10 ms: advances the inactivity and linking counters,
    /// saturating at their maximum.
    pub fn tick_10ms(&mut self)
        ensures
            final(self).state() == (SleepState {
                no_act_time: if old(self).no_act_time == u16::MAX { u16::MAX } else { (old(self).no_act_time + 1) as u16 },
                rf_linking_time: if old(self).rf_linking_time == u16::MAX { u16::MAX } else { (old(self).rf_linking_time + 1) as u16 },
                ..old(self).state()
            }),
            final(self).no_act_time == (if old(self).no_act_time == u16::MAX { u16::MAX } else { (old(self).no_act_time + 1) as u16 }),
            final(self).rf_linking_time == (if old(self).rf_linking_time == u16::MAX { u16::MAX } else { (old(self).rf_linking_time + 1) as u16 }),
            final(self).sleep_enabled == old(self).sleep_enabled,
            final(self).f_goto_sleep == old(self).f_goto_sleep,
            final(self).f_wakeup_prepare == old(self).f_wakeup_prepare,
            old(self).wf() ==> final(self).wf(),
    {
        let a = self.no_act_time.saturating_add(1);
        let b = self.rf_linking_time.saturating_add(1);
        self.no_act_time = a;
        self.rf_linking_time = b;
    }

    fn set_state(&mut self, s: SleepState)
        ensures
            final(self).state() == s,
    {
        self.no_act_time = s.no_act_time;
        self.rf_linking_time = s.rf_linking_time;
        self.usb_suspend_debounce = s.usb_suspend_debounce;
        self.rf_disconnect_time = s.rf_disconnect_time;
        self.sleep_enabled = s.sleep_enabled;
        self.f_goto_sleep = s.f_goto_sleep;
        self.f_wakeup_prepare = s.f_wakeup_prepare;
    }

    fn next_state(&self, link_mode: LinkMode, rf_state: RfState, usb_suspended: bool) -> (r: SleepState)
        requires
            self.wf(),
        ensures
            r == sleep_tick(self.state(), link_mode, rf_state, usb_suspended),
            r.rf_disconnect_time <= 100,
    {
        let s = SleepState {
            no_act_time: self.no_act_time,
            rf_linking_time: self.rf_linking_time,
            usb_suspend_debounce: self.usb_suspend_debounce,
            rf_disconnect_time: self.rf_disconnect_time,
            sleep_enabled: self.sleep_enabled,
            f_goto_sleep: self.f_goto_sleep,
            f_wakeup_prepare: self.f_wakeup_prepare,
        };
        if s.f_goto_sleep {
            SleepState { f_goto_sleep: false, f_wakeup_prepare: true, ..s }
        } else if s.f_wakeup_prepare && s.no_act_time < 10 {
            SleepState { f_wakeup_prepare: false, ..s }
        } else if s.f_wakeup_prepare {
            s
        } else if link_mode == LinkMode::Usb {
            if usb_suspended {
                let d = s.usb_suspend_debounce.wrapping_add(1);
                SleepState { usb_suspend_debounce: d, f_goto_sleep: d >= 20, ..s }
            } else {
                SleepState { usb_suspend_debounce: 0, ..s }
            }
        } else if rf_state == RfState::Connect {
            SleepState {
                rf_disconnect_time: 0,
                rf_linking_time: 0,
                f_goto_sleep: s.no_act_time >= SLEEP_TIME_DELAY,
                ..s
            }
        } else if rf_state == RfState::Linking || rf_state == RfState::Pairing {
            if s.rf_linking_time >= LINK_TIMEOUT {
                SleepState { rf_linking_time: 0, f_goto_sleep: true, ..s }
            } else {
                s
            }
        } else if rf_state == RfState::Disconnect {
            if s.rf_disconnect_time + 1 > 100 {
                SleepState { rf_linking_time: 0, rf_disconnect_time: 0, f_goto_sleep: true, ..s }
            } else {
                SleepState { rf_linking_time: 0, rf_disconnect_time: s.rf_disconnect_time + 1, ..s }
            }
        } else {
            SleepState { rf_linking_time: 0, ..s }
        }
    }

    /// Sleep state machine, called every 50 ms. On a goto-sleep request it
    /// frames `CMD_SET_CONFIG` (connected) or `CMD_SLEEP` when sleep is enabled
    /// and prepares for wakeup; on activity after sleep it frames `CMD_HAND`;
    /// otherwise it checks the USB-suspend and wireless timeouts. A framed
    /// command is left in the protocol's transmit buffer and returned, for
    /// the caller to send.
    pub fn tick(&mut self, proto: &mut UartProtocol, usb_suspended: bool) -> (r: Option<heapless::Vec<u8, 64>>)
        requires
            old(self).wf(),
        ensures
            final(self).wf(),
            final(self).state() == sleep_tick(old(self).state(), old(proto).link_mode, old(proto).rf_state, usb_suspended),
            match sleep_command(old(self).state(), old(proto).rf_state) {
                Some(cmd) => {
                    &&& link_cmd_sent(*old(proto), *final(proto), cmd)
                    &&& r matches Some(v) && frame_buf(v) == frame_bytes(cmd, 0, link_cmd_payload(old(proto).link_mode, cmd))
                },
                None => *final(proto) == *old(proto) && r is None,
            },
    {
        let next = self.next_state(proto.link_mode, proto.rf_state, usb_suspended);
        let cmd = if self.f_goto_sleep {
            if self.sleep_enabled {
                if proto.rf_state == RfState::Connect {
                    Some(CMD_SET_CONFIG)
                } else {
                    Some(CMD_SLEEP)
                }
            } else {
                None
            }
        } else if self.f_wakeup_prepare && self.no_act_time < 10 {
            Some(CMD_HAND)
        } else {
            None
        };
        let sent = send_command(proto, cmd);
        self.set_state(next);
        match sent {
            Some(len) => {
                let frame = frame_copy(&proto.tx_buf, len);
                proof {
                    let c = cmd.unwrap();
                    let f = frame_bytes(c, 0, link_cmd_payload(old(proto).link_mode, c));
                    assert(proto.tx_buf@ == tx_image(c, 0, link_cmd_payload(old(proto).link_mode, c)));
                    assert(zero_pad(f, 64).take(f.len() as int) =~= f);
                }
                Some(frame)
            },
            None => None,
        }
    }
}

/// Frames `cmd` when there is one; returns the frame's length.
fn send_command(proto: &mut UartProtocol, cmd: Option<u8>) -> (len: Option<usize>)
    requires
        cmd matches Some(c) ==> (c == CMD_SLEEP || c == CMD_SET_CONFIG || c == CMD_HAND),
    ensures
        match cmd {
            Some(c) => link_cmd_sent(*old(proto), *final(proto), c)
                && len == Some((link_cmd_payload(old(proto).link_mode, c).len() + 5) as usize)
                && link_cmd_payload(old(proto).link_mode, c).len() + 5 <= 64,
            None => *final(proto) == *old(proto) && len is None,
        },
{
    match cmd {
        Some(c) => Some(proto.build_link_cmd(c)),
        None => None,
    }
}

/// The bytes a bounded frame buffer holds, in order.
pub uninterp spec fn frame_buf(v: heapless::Vec<u8, 64>) -> Seq<u8>;

/// `heapless::Vec::new`: an empty buffer.
#[verifier::external_body]
fn frame_new() -> (v: heapless::Vec<u8, 64>)
    ensures
        frame_buf(v) == Seq::<u8>::empty(),
{
    heapless::Vec::new()
}

/// `heapless::Vec::push`: appends the byte when fewer than 64 are held, and
/// reports whether it did; a full buffer is left as it was.
#[verifier::external_body]
fn frame_push(v: &mut heapless::Vec<u8, 64>, b: u8) -> (pushed: bool)
    ensures
        frame_buf(*old(v)).len() < 64 ==> pushed && frame_buf(*final(v)) == frame_buf(*old(v)).push(b),
        frame_buf(*old(v)).len() >= 64 ==> !pushed && frame_buf(*final(v)) == frame_buf(*old(v)),
{
    v.push(b).is_ok()
}

/// The first `len` bytes of a transmit buffer as a bounded frame buffer.
fn frame_copy(tx: &[u8; 64], len: usize) -> (v: heapless::Vec<u8, 64>)
    requires
        len <= 64,
    ensures
        frame_buf(v) == tx@.take(len as int),
{
    let mut v = frame_new();
    let mut i: usize = 0;
    while i < len
        invariant
            i <= len <= 64,
            frame_buf(v) == tx@.take(i as int),
        decreases len - i,
    {
        let _ = frame_push(&mut v, tx[i]);
        assert(tx@.take(i as int).push(tx@[i as int]) =~= tx@.take(i + 1));
        i = i + 1;
    }
    v
}

} // verus!
