//! Key matrix state: 6 rows × 21 cols, COL2ROW diodes, eager per-key
//! debouncing.
//!
//! Driving the row pins and reading the column pins is the board's job; a
//! scan here takes the pressed state of every key, as read, and updates the
//! raw and debounced matrices and the per-key lockout counters.
use vstd::prelude::*;

verus! {

/// Magic value written to the RTC backup register for DFU entry
pub const DFU_MAGIC: u32 = 0xDF0DF0DF;

#[derive(Debug, Clone, Copy)]
pub struct KeyEvent {
    pub row: u8,
    pub col: u8,
    pub pressed: bool,
}

/// Per-key debounce lockout (ms).
pub const DEBOUNCE_MS: u8 = 5;

/// One eager debounce step for a key: a change of a key that is not locked
/// out is taken over at once, fires an event and locks the key for
/// `DEBOUNCE_MS`; otherwise nothing changes.
pub open spec fn key_step(pressed: bool, debounced_bit: bool, ctr: u8) -> (bool, u8, Option<bool>) {
    if pressed != debounced_bit && ctr == 0 {
        (pressed, DEBOUNCE_MS, Some(pressed))
    } else {
        (debounced_bit, ctr, None)
    }
}

/// Pure eager debounce step. Given the raw pin state, current
/// debounced bit, and remaining lockout, returns the new debounced bit,
/// the new lockout counter, and `Some(pressed)` if a debounced event
/// fires.
pub fn eager_pk_step(pressed: bool, debounced_bit: bool, ctr: u8) -> (r: (bool, u8, Option<bool>))
    ensures
        r == key_step(pressed, debounced_bit, ctr),
{
    if pressed != debounced_bit && ctr == 0 {
        (pressed, DEBOUNCE_MS, Some(pressed))
    } else {
        (debounced_bit, ctr, None)
    }
}

/// The events a bounded vector holds, in order.
pub uninterp spec fn key_events(v: heapless::Vec<KeyEvent, 32>) -> Seq<KeyEvent>;

/// `heapless::Vec::new`: an empty vector.
#[verifier::external_body]
fn key_events_new() -> (v: heapless::Vec<KeyEvent, 32>)
    ensures
        key_events(v) == Seq::<KeyEvent>::empty(),
{
    heapless::Vec::new()
}

/// `heapless::Vec::push`: appends the event when fewer than 32 are held, and
/// reports whether it did; a full vector is left as it was.
#[verifier::external_body]
fn key_events_push(v: &mut heapless::Vec<KeyEvent, 32>, e: KeyEvent) -> (pushed: bool)
    ensures
        key_events(*old(v)).len() < 32 ==> pushed && key_events(*final(v)) == key_events(*old(v)).push(e),
        key_events(*old(v)).len() >= 32 ==> !pushed && key_events(*final(v)) == key_events(*old(v)),
{
    v.push(e).is_ok()
}

/// `heapless::Vec::len`: the number of events held, at most the capacity.
#[verifier::external_body]
fn key_events_len(v: &heapless::Vec<KeyEvent, 32>) -> (n: usize)
    ensures
        n == key_events(*v).len(),
        n <= 32,
{
    v.len()
}

/// Indexing a `heapless::Vec` (through its slice): the event at `i`.
#[verifier::external_body]
fn key_events_get(v: &heapless::Vec<KeyEvent, 32>, i: usize) -> (e: KeyEvent)
    requires
        i < key_events(*v).len(),
    ensures
        e == key_events(*v)[i as int],
{
    v[i]
}

/// `heapless::Vec::clear`: no events held.
#[verifier::external_body]
fn key_events_clear(v: &mut heapless::Vec<KeyEvent, 32>)
    ensures
        key_events(*final(v)) == Seq::<KeyEvent>::empty(),
{
    v.clear()
}

/// Bit `k` of a bitmap, least significant bit first within each byte.
pub open spec fn key_bit(bytes: Seq<u8>, k: int) -> bool {
    (bytes[k / 8] >> ((k % 8) as u8)) & 1 == 1
}

/// The events a scan fires among the first `n` keys (row-major order).
pub open spec fn fired_events(
    debounced: Seq<u8>,
    counters: [[u8; 21]; 6],
    pressed: [[bool; 21]; 6],
    n: int,
) -> Seq<KeyEvent>
    decreases n,
{
    if n <= 0 {
        Seq::empty()
    } else {
        let prev = fired_events(debounced, counters, pressed, n - 1);
        let k = n - 1;
        let (r, c) = (k / 21, k % 21);
        match key_step(pressed@[r]@[c], key_bit(debounced, k), counters@[r]@[c]).2 {
            Some(p) => prev.push(KeyEvent { row: r as u8, col: c as u8, pressed: p }),
            None => prev,
        }
    }
}

/// `events` appended to `held` in a vector of capacity 32: what does not
/// fit is dropped.
pub open spec fn bounded_append(held: Seq<KeyEvent>, events: Seq<KeyEvent>) -> Seq<KeyEvent> {
    let all = held + events;
    if all.len() <= 32 {
        all
    } else {
        all.take(32)
    }
}

/// A lockout counter one millisecond later.
pub open spec fn lockout_tick(ctr: u8) -> u8 {
    if ctr > 0 {
        (ctr - 1) as u8
    } else {
        0
    }
}

pub struct Matrix {
    /// Debounced state: 6 rows × 21 cols = 126 bits → 16 bytes
    pub debounced: [u8; 16],
    /// Raw (unfiltered) state: 6 rows × 21 cols = 126 bits → 16 bytes
    pub raw: [u8; 16],
    /// Per-key lockout counter (remaining ms before next change can be registered)
    pub counters: [[u8; 21]; 6],
    /// Events generated eagerly in `scan` on a first state change
    pub pending_events: heapless::Vec<KeyEvent, 32>,
}

/// Bit `i` of a byte.
pub open spec fn bit_of(b: u8, i: u8) -> bool {
    (b >> i) & 1 == 1
}

proof fn lemma_bit_update(b: u8, s: u8, t: u8)
    requires
        s < 8,
        t < 8,
    ensures
        bit_of(b | (1u8 << s), t) == (s == t || bit_of(b, t)),
        bit_of(b & !(1u8 << s), t) == (s != t && bit_of(b, t)),
{
    assert(((b | (1u8 << s)) >> t) & 1 == 1 <==> (s == t || (b >> t) & 1 == 1)) by (bit_vector)
        requires s < 8, t < 8;
    assert(((b & !(1u8 << s)) >> t) & 1 == 1 <==> (s != t && (b >> t) & 1 == 1)) by (bit_vector)
        requires s < 8, t < 8;
}

/// Reads bit `k` of a 16-byte bitmap.
fn get_bit(bytes: &[u8; 16], k: usize) -> (b: bool)
    requires
        k < 128,
    ensures
        b == key_bit(bytes@, k as int),
{
    let mask = 1u8 << ((k % 8) as u8);
    let byte = bytes[k / 8];
    let s = (k % 8) as u8;
    assert((byte & (1u8 << s) != 0) == ((byte >> s) & 1 == 1)) by (bit_vector)
        requires s < 8;
    (byte & mask) != 0
}

/// Sets bit `k` of a 16-byte bitmap to `v`.
fn set_bit(bytes: &mut [u8; 16], k: usize, v: bool)
    requires
        k < 128,
    ensures
        forall|j: int| 0 <= j < 128 ==> key_bit(final(bytes)@, j) == (if j == k { v } else { key_bit(old(bytes)@, j) }),
{
    let s = (k % 8) as u8;
    let mask = 1u8 << s;
    let byte = bytes[k / 8];
    let new_byte = if v { byte | mask } else { byte & !mask };
    bytes[k / 8] = new_byte;
    assert forall|j: int| 0 <= j < 128 implies key_bit(bytes@, j) == (if j == k { v } else { key_bit(old(bytes)@, j) }) by {
        if j / 8 == k / 8 {
            lemma_bit_update(byte, s, (j % 8) as u8);
        }
    }
}

impl Matrix {
    pub fn new() -> (m: Self)
        ensures
            m.debounced@ == Seq::new(16, |_i: int| 0u8),
            m.raw@ == Seq::new(16, |_i: int| 0u8),
            forall|r: int, c: int| 0 <= r < 6 && 0 <= c < 21 ==> m.counters@[r]@[c] == 0,
            key_events(m.pending_events) == Seq::<KeyEvent>::empty(),
    {
        let m = Self {
            debounced: [0; 16],
            raw: [0; 16],
            counters: [[0; 21]; 6],
            pending_events: key_events_new(),
        };
        assert(m.debounced@ =~= Seq::new(16, |_i: int| 0u8));
        assert(m.raw@ =~= Seq::new(16, |_i: int| 0u8));
        m
    }

    /// One step of key `k` (row-major) against the scanned pressed state.
    fn scan_key(&mut self, k: usize, pressed: bool)
        requires
            k < 126,
        ensures
            ({
                let (r, c) = (k / 21, k % 21);
                let step = key_step(pressed, key_bit(old(self).debounced@, k as int), old(self).counters@[r as int]@[c as int]);
                &&& forall|j: int| 0 <= j < 128 ==> key_bit(final(self).raw@, j) == (if j == k { pressed } else { key_bit(old(self).raw@, j) })
                &&& forall|j: int| 0 <= j < 128 ==> key_bit(final(self).debounced@, j) == (if j == k { step.0 } else { key_bit(old(self).debounced@, j) })
                &&& forall|i: int, j: int| 0 <= i < 6 && 0 <= j < 21 ==> final(self).counters@[i]@[j] == (if i == r && j == c { step.1 } else { old(self).counters@[i]@[j] })
                &&& key_events(final(self).pending_events) == (match step.2 {
                    Some(p) => if key_events(old(self).pending_events).len() < 32 {
                        key_events(old(self).pending_events).push(KeyEvent { row: r as u8, col: c as u8, pressed: p })
                    } else {
                        key_events(old(self).pending_events)
                    },
                    None => key_events(old(self).pending_events),
                })
            }),
    {
        let row_idx = k / 21;
        let col_idx = k % 21;
        let debounced_bit = get_bit(&self.debounced, k);
        let raw_bit = get_bit(&self.raw, k);
        if pressed != raw_bit {
            set_bit(&mut self.raw, k, pressed);
        }
        let ctr = self.counters[row_idx][col_idx];
        let (new_bit, new_ctr, fired) = eager_pk_step(pressed, debounced_bit, ctr);
        set_bit(&mut self.debounced, k, new_bit);
        let mut row = self.counters[row_idx];
        row[col_idx] = new_ctr;
        self.counters[row_idx] = row;
        if let Some(p) = fired {
            let _ = key_events_push(&mut self.pending_events, KeyEvent {
                row: row_idx as u8,
                col: col_idx as u8,
                pressed: p,
            });
        }
    }

    /// Full matrix scan against the pressed state of every key: the raw
    /// matrix takes the scan, each key takes an eager debounce step, and the
    /// events fired (in row-major order, after any still held, as far as 32
    /// fit) are handed out.
    pub fn scan(&mut self, pressed: &[[bool; 21]; 6]) -> (events: heapless::Vec<KeyEvent, 32>)
        ensures
            forall|k: int| 0 <= k < 126 ==> key_bit(final(self).raw@, k) == pressed@[k / 21]@[k % 21],
            forall|k: int|
                0 <= k < 126 ==> key_bit(final(self).debounced@, k) == key_step(
                    pressed@[k / 21]@[k % 21],
                    key_bit(old(self).debounced@, k),
                    old(self).counters@[k / 21]@[k % 21],
                ).0,
            forall|r: int, c: int|
                0 <= r < 6 && 0 <= c < 21 ==> #[trigger] final(self).counters@[r]@[c] == key_step(
                    pressed@[r]@[c],
                    key_bit(old(self).debounced@, r * 21 + c),
                    old(self).counters@[r]@[c],
                ).1,
            forall|k: int| 126 <= k < 128 ==> key_bit(final(self).raw@, k) == key_bit(old(self).raw@, k),
            forall|k: int| 126 <= k < 128 ==> key_bit(final(self).debounced@, k) == key_bit(old(self).debounced@, k),
            key_events(events) == bounded_append(
                key_events(old(self).pending_events),
                fired_events(old(self).debounced@, old(self).counters, *pressed, 126),
            ),
            key_events(final(self).pending_events) == Seq::<KeyEvent>::empty(),
    {
        let ghost held = key_events(self.pending_events);
        let held_len = key_events_len(&self.pending_events);
        let mut k: usize = 0;
        while k < 126
            invariant
                k <= 126,
                held == key_events(old(self).pending_events),
                held.len() <= 32,
                forall|j: int| 0 <= j < k ==> key_bit(self.raw@, j) == pressed@[j / 21]@[j % 21],
                forall|j: int| k <= j < 128 ==> key_bit(self.raw@, j) == key_bit(old(self).raw@, j),
                forall|j: int|
                    0 <= j < k ==> key_bit(self.debounced@, j) == key_step(
                        pressed@[j / 21]@[j % 21],
                        key_bit(old(self).debounced@, j),
                        old(self).counters@[j / 21]@[j % 21],
                    ).0,
                forall|j: int| k <= j < 128 ==> key_bit(self.debounced@, j) == key_bit(old(self).debounced@, j),
                forall|r: int, c: int|
                    0 <= r < 6 && 0 <= c < 21 ==> #[trigger] self.counters@[r]@[c] == (if r * 21 + c < k {
                        key_step(
                            pressed@[r]@[c],
                            key_bit(old(self).debounced@, r * 21 + c),
                            old(self).counters@[r]@[c],
                        ).1
                    } else {
                        old(self).counters@[r]@[c]
                    }),
                key_events(self.pending_events) == bounded_append(
                    held,
                    fired_events(old(self).debounced@, old(self).counters, *pressed, k as int),
                ),
            decreases 126 - k,
        {
            let ghost before = key_events(self.pending_events);
            self.scan_key(k, pressed[k / 21][k % 21]);
            proof {
                let fe = fired_events(old(self).debounced@, old(self).counters, *pressed, k as int);
                let fe1 = fired_events(old(self).debounced@, old(self).counters, *pressed, k + 1);
                if fe1.len() > fe.len() {
                    assert((held + fe1) =~= (held + fe).push(fe1.last()));
                    if (held + fe).len() >= 32 {
                        assert((held + fe1).take(32) =~= (held + fe).take(32));
                    } else {
                        assert((held + fe).push(fe1.last()).len() <= 32);
                    }
                } else {
                    assert(fe1 =~= fe);
                }
            }
            k = k + 1;
        }
        let mut events = key_events_new();
        let n = key_events_len(&self.pending_events);
        let mut i: usize = 0;
        while i < n
            invariant
                i <= n,
                n == key_events(self.pending_events).len(),
                n <= 32,
                key_events(events) == key_events(self.pending_events).take(i as int),
            decreases n - i,
        {
            let ev = key_events_get(&self.pending_events, i);
            let _ = key_events_push(&mut events, ev);
            assert(key_events(self.pending_events).take(i + 1) =~= key_events(self.pending_events).take(i as int).push(ev));
            i = i + 1;
        }
        assert(key_events(self.pending_events).take(n as int) =~= key_events(self.pending_events));
        key_events_clear(&mut self.pending_events);
        events
    }

    /// Decrement the per-key lockout counters by 1ms (saturating at 0).
    pub fn tick_debounce(&mut self)
        ensures
            forall|r: int, c: int|
                0 <= r < 6 && 0 <= c < 21 ==> final(self).counters@[r]@[c] == lockout_tick(old(self).counters@[r]@[c]),
            final(self).debounced == old(self).debounced,
            final(self).raw == old(self).raw,
            final(self).pending_events == old(self).pending_events,
    {
        let mut row_idx: usize = 0;
        while row_idx < 6
            invariant
                row_idx <= 6,
                forall|r: int, c: int|
                    0 <= r < 6 && 0 <= c < 21 ==> self.counters@[r]@[c] == (if r < row_idx {
                        lockout_tick(old(self).counters@[r]@[c])
                    } else {
                        old(self).counters@[r]@[c]
                    }),
                self.debounced == old(self).debounced,
                self.raw == old(self).raw,
                self.pending_events == old(self).pending_events,
            decreases 6 - row_idx,
        {
            let mut row = self.counters[row_idx];
            let mut col_idx: usize = 0;
            while col_idx < 21
                invariant
                    col_idx <= 21,
                    row_idx < 6,
                    forall|c: int|
                        0 <= c < 21 ==> row@[c] == (if c < col_idx {
                            lockout_tick(old(self).counters@[row_idx as int]@[c])
                        } else {
                            old(self).counters@[row_idx as int]@[c]
                        }),
                    self.counters@[row_idx as int] == old(self).counters@[row_idx as int],
                decreases 21 - col_idx,
            {
                if row[col_idx] > 0 {
                    row[col_idx] = row[col_idx] - 1;
                }
                col_idx = col_idx + 1;
            }
            self.counters[row_idx] = row;
            row_idx = row_idx + 1;
        }
    }
}

impl Default for Matrix {
    fn default() -> (m: Self)
        ensures
            m.debounced@ == Seq::new(16, |_i: int| 0u8),
            m.raw@ == Seq::new(16, |_i: int| 0u8),
            key_events(m.pending_events) == Seq::<KeyEvent>::empty(),
    {
        Self::new()
    }
}

/// A lockout counter after `k` debounce ticks.
pub open spec fn ticked(ctr: u8, k: nat) -> u8
    decreases k,
{
    if k == 0 {
        ctr
    } else {
        lockout_tick(ticked(ctr, (k - 1) as nat))
    }
}

/// The counter of a fired key after `k` ticks: `DEBOUNCE_MS - k`, down to 0.
proof fn lemma_ticked_fired(k: nat)
    requires
        k <= DEBOUNCE_MS,
    ensures
        ticked(DEBOUNCE_MS, k) == DEBOUNCE_MS - k,
    decreases k,
{
    if k > 0 {
        lemma_ticked_fired((k - 1) as nat);
    }
}

/// A key whose change was just reported is locked out: until `DEBOUNCE_MS`
/// debounce ticks have passed no scan reports it again, whatever its pin
/// reads; after them the key is free.
pub proof fn lemma_reported_key_locked(pressed: bool, bit: bool, ctr: u8, k: nat, next: bool)
    requires
        key_step(pressed, bit, ctr).2 is Some,
        k < DEBOUNCE_MS,
    ensures
        key_step(next, key_step(pressed, bit, ctr).0, ticked(key_step(pressed, bit, ctr).1, k)).2 is None,
        ticked(key_step(pressed, bit, ctr).1, DEBOUNCE_MS as nat) == 0,
{
    lemma_ticked_fired(k);
    lemma_ticked_fired(DEBOUNCE_MS as nat);
}

} // verus!
