//! The USB HID side's own logic: the boot keyboard report, the collapse of
//! an NKRO bitmap into six boot-report keys, the suspend/resume edge
//! latches and what becomes of a queued report after a push.

use vstd::prelude::*;
use crate::device::{key_bits, nkro_bitmap};

verus! {

/// The 8-byte boot keyboard report: modifiers, a reserved zero byte and the
/// six keys.
pub fn boot_report(modifiers: u8, keys: &[u8; 6]) -> (r: [u8; 8])
    ensures
        r@ == seq![modifiers, 0u8] + keys@,
{
    let r = [modifiers, 0, keys[0], keys[1], keys[2], keys[3], keys[4], keys[5]];
    assert(r@ =~= seq![modifiers, 0u8] + keys@);
    r
}

/// Whether the bit of keycode `k` is set in an NKRO bitmap.
pub open spec fn code_bit(bitmap: Seq<u8>, k: int) -> bool {
    bitmap[k / 8] & (1u8 << ((k % 8) as u8)) != 0
}

/// The keycodes below `n` whose bits are set in `bitmap`, ascending.
pub open spec fn bitmap_codes(bitmap: Seq<u8>, n: int) -> Seq<u8>
    decreases n,
{
    if n <= 0 {
        Seq::empty()
    } else if code_bit(bitmap, n - 1) {
        bitmap_codes(bitmap, n - 1).push((n - 1) as u8)
    } else {
        bitmap_codes(bitmap, n - 1)
    }
}

/// `s` followed by zeros up to length `n`.
pub open spec fn zero_padded(s: Seq<u8>, n: int) -> Seq<u8> {
    Seq::new(n as nat, |i: int| if i < s.len() { s[i] } else { 0u8 })
}

/// The six boot-report keys of an NKRO bitmap: its first six set keycodes,
/// zero padded.
pub open spec fn boot_keys_of(bitmap: Seq<u8>) -> Seq<u8> {
    let codes = bitmap_codes(bitmap, 248);
    zero_padded(if codes.len() < 6 { codes } else { codes.take(6) }, 6)
}

/// The codes below `k` are a prefix of the codes below `j`, for `k <= j`.
pub proof fn lemma_codes_prefix(bitmap: Seq<u8>, k: int, j: int)
    requires
        0 <= k <= j,
    ensures
        bitmap_codes(bitmap, k).len() <= bitmap_codes(bitmap, j).len(),
        bitmap_codes(bitmap, j).take(bitmap_codes(bitmap, k).len() as int) == bitmap_codes(bitmap, k),
    decreases j - k,
{
    if k < j {
        lemma_codes_prefix(bitmap, k, j - 1);
        let a = bitmap_codes(bitmap, k);
        let b = bitmap_codes(bitmap, j - 1);
        let c = bitmap_codes(bitmap, j);
        if code_bit(bitmap, j - 1) {
            assert(c.take(a.len() as int) =~= b.take(a.len() as int));
        }
    } else {
        assert(bitmap_codes(bitmap, j).take(bitmap_codes(bitmap, j).len() as int) =~= bitmap_codes(bitmap, j));
    }
}

/// Collapses an NKRO bitmap into the six keys of a boot report: the first
/// six keycodes whose bits are set, ascending, zero padded.
pub fn nkro_boot_keys(bitmap: &[u8; 31]) -> (keys: [u8; 6])
    ensures
        keys@ == boot_keys_of(bitmap@),
{
    let mut keys = [0u8; 6];
    let mut n: usize = 0;
    let mut k: usize = 0;
    while k < 248 && n < 6
        invariant
            k <= 248,
            n <= 6,
            n == bitmap_codes(bitmap@, k as int).len(),
            keys@ == zero_padded(bitmap_codes(bitmap@, k as int), 6),
        decreases 248 - k,
    {
        let byte = bitmap[k / 8];
        let bit = (k % 8) as u8;
        if byte & (1u8 << bit) != 0 {
            keys[n] = k as u8;
            n = n + 1;
        }
        k = k + 1;
        assert(keys@ =~= zero_padded(bitmap_codes(bitmap@, k as int), 6));
    }
    proof {
        let codes = bitmap_codes(bitmap@, 248);
        lemma_codes_prefix(bitmap@, k as int, 248);
        if n == 6 {
            assert(codes.take(6) =~= bitmap_codes(bitmap@, k as int));
        }
        assert(keys@ =~= boot_keys_of(bitmap@));
    }
    keys
}

/// The suspend state seen at the last poll and the one-shot edge latches.
#[derive(Debug, Clone, Copy)]
pub struct SuspendLatch {
    pub suspended: bool,
    /// Set on the suspend edge, until taken
    pub just_suspended: bool,
    /// Set on the resume edge, until taken
    pub just_resumed: bool,
}

impl SuspendLatch {
    /// Not suspended, no edge latched.
    pub fn new() -> (l: Self)
        ensures
            !l.suspended,
            !l.just_suspended,
            !l.just_resumed,
    {
        SuspendLatch { suspended: false, just_suspended: false, just_resumed: false }
    }

    /// Takes the bus state of a poll: an entry into suspend latches
    /// `just_suspended`, a leave latches `just_resumed`.
    pub fn observe(&mut self, is_suspended: bool)
        ensures
            final(self).suspended == is_suspended,
            final(self).just_suspended == (old(self).just_suspended || (!old(self).suspended && is_suspended)),
            final(self).just_resumed == (old(self).just_resumed || (old(self).suspended && !is_suspended)),
    {
        let was = self.suspended;
        self.suspended = is_suspended;
        if !was && is_suspended {
            self.just_suspended = true;
        } else if was && !is_suspended {
            self.just_resumed = true;
        }
    }

    /// Returns `(just_suspended, just_resumed)` and clears both latches.
    pub fn take_suspend_edge(&mut self) -> (edge: (bool, bool))
        ensures
            edge == (old(self).just_suspended, old(self).just_resumed),
            final(self).suspended == old(self).suspended,
            !final(self).just_suspended,
            !final(self).just_resumed,
    {
        let edge = (self.just_suspended, self.just_resumed);
        self.just_suspended = false;
        self.just_resumed = false;
        edge
    }
}

/// How a push of a queued report to the endpoint went.
#[derive(Debug, Clone, Copy, PartialEq, Eq, Structural)]
pub enum PushOutcome {
    Sent,
    /// The endpoint is busy: try again at the next poll
    WouldBlock,
    Failed,
}

/// The queued keyboard report after a push: kept only while the endpoint
/// is busy.
pub fn pending_after_push(pending: Option<[u8; 8]>, outcome: PushOutcome) -> (r: Option<[u8; 8]>)
    ensures
        r == (if outcome == PushOutcome::WouldBlock { pending } else { None }),
{
    match outcome {
        PushOutcome::WouldBlock => pending,
        _ => None,
    }
}

// ── The collapse is lossless ─────────────────────────────────────────
proof fn lemma_or_sets_bit(x: u8, s: u8)
    requires
        s < 8,
    ensures
        (x | (1u8 << s)) & (1u8 << s) != 0,
{
    assert((x | (1u8 << s)) & (1u8 << s) != 0) by (bit_vector)
        requires
            s < 8;
}

proof fn lemma_or_keeps_bit(x: u8, y: u8, t: u8)
    requires
        x & y != 0,
    ensures
        (x | t) & y != 0,
{
    assert((x | t) & y != 0) by (bit_vector)
        requires
            x & y != 0;
}

proof fn lemma_or_bit_source(x: u8, s: u8, t: u8)
    requires
        s < 8,
        t < 8,
        (x | (1u8 << s)) & (1u8 << t) != 0,
    ensures
        x & (1u8 << t) != 0 || s == t,
{
    assert(x & (1u8 << t) != 0 || s == t) by (bit_vector)
        requires
            s < 8,
            t < 8,
            (x | (1u8 << s)) & (1u8 << t) != 0;
}

proof fn lemma_zero_no_bit(t: u8)
    ensures
        0u8 & (1u8 << t) == 0,
{
    assert(0u8 & (1u8 << t) == 0) by (bit_vector);
}

/// The key bitmap has 31 bytes.
proof fn lemma_key_bits_len(keys: Seq<u8>, n: int)
    requires
        0 <= n <= keys.len(),
    ensures
        key_bits(keys, 0, 31, n).len() == 31,
    decreases n,
{
    if n > 0 {
        lemma_key_bits_len(keys, n - 1);
    }
}

/// Each of the first `n` keys (1..247) has its bit set.
proof fn lemma_key_bits_has(keys: Seq<u8>, n: int, i: int)
    requires
        0 <= i < n <= keys.len(),
        0 < keys[i] < 248,
    ensures
        code_bit(key_bits(keys, 0, 31, n), keys[i] as int),
    decreases n,
{
    lemma_key_bits_len(keys, n - 1);
    let prev = key_bits(keys, 0, 31, n - 1);
    let k = keys[n - 1];
    let c = keys[i];
    if i == n - 1 {
        lemma_or_sets_bit(prev[(k / 8) as int], (k % 8) as u8);
    } else {
        lemma_key_bits_has(keys, n - 1, i);
        if 0 < k && k < 248 && k / 8 == c / 8 {
            lemma_or_keeps_bit(prev[(c / 8) as int], 1u8 << ((c % 8) as u8), 1u8 << ((k % 8) as u8));
        }
    }
}

/// A bit set in the key bitmap belongs to one of the first `n` keys.
proof fn lemma_key_bits_only(keys: Seq<u8>, n: int, c: int)
    requires
        0 <= n <= keys.len(),
        0 <= c < 248,
        code_bit(key_bits(keys, 0, 31, n), c),
    ensures
        exists|i: int| 0 <= i < n && keys[i] == c,
    decreases n,
{
    if n == 0 {
        lemma_zero_no_bit((c % 8) as u8);
    } else {
        lemma_key_bits_len(keys, n - 1);
        let prev = key_bits(keys, 0, 31, n - 1);
        let k = keys[n - 1];
        if 0 < k && k < 248 && k / 8 == c / 8 {
            lemma_or_bit_source(prev[c / 8], (k % 8) as u8, (c % 8) as u8);
            if (k % 8) as u8 == (c % 8) as u8 {
                assert(keys[n - 1] == c);
            } else {
                lemma_key_bits_only(keys, n - 1, c);
            }
        } else {
            lemma_key_bits_only(keys, n - 1, c);
        }
    }
}

/// The codes below `n` are exactly the set bits below `n`, ascending.
proof fn lemma_codes_are_bits(bitmap: Seq<u8>, n: int)
    requires
        0 <= n <= 248,
    ensures
        forall|i: int| 0 <= i < bitmap_codes(bitmap, n).len() ==> {
            let c = #[trigger] bitmap_codes(bitmap, n)[i];
            &&& (c as int) < n
            &&& code_bit(bitmap, c as int)
        },
        forall|i: int, j: int| 0 <= i < j < bitmap_codes(bitmap, n).len() ==> bitmap_codes(bitmap, n)[i] < bitmap_codes(bitmap, n)[j],
        forall|k: int| 0 <= k < n && code_bit(bitmap, k) ==> bitmap_codes(bitmap, n).contains(k as u8),
    decreases n,
{
    if n > 0 {
        lemma_codes_are_bits(bitmap, n - 1);
        let prev = bitmap_codes(bitmap, n - 1);
        if code_bit(bitmap, n - 1) {
            let cur = prev.push((n - 1) as u8);
            assert forall|k: int| 0 <= k < n && code_bit(bitmap, k) implies cur.contains(k as u8) by {
                if k < n - 1 {
                    let w = choose|w: int| 0 <= w < prev.len() && prev[w] == k as u8;
                    assert(cur[w] == k as u8);
                } else {
                    assert(cur[prev.len() as int] == k as u8);
                }
            }
        }
    }
}

/// Every held keycode below 248 survives the collapse of the held keys'
/// NKRO bitmap into six boot-report keys: six key slots set at most six
/// bits, so none is cut off.
pub proof fn lemma_boot_keys_lossless(keys: Seq<u8>, k: u8)
    requires
        keys.len() == 6,
        keys.contains(k),
        0 < k < 248,
    ensures
        boot_keys_of(nkro_bitmap(keys)).contains(k),
{
    let bm = nkro_bitmap(keys);
    let codes = bitmap_codes(bm, 248);
    let i = choose|i: int| 0 <= i < keys.len() && keys[i] == k;
    lemma_key_bits_has(keys, 6, i);
    lemma_codes_are_bits(bm, 248);
    assert(codes.contains(k));
    // At most six codes: they are distinct and each is a held key.
    assert(codes.no_duplicates()) by {
        assert forall|a: int, b: int| 0 <= a < codes.len() && 0 <= b < codes.len() && a != b implies codes[a] != codes[b] by {
            if a < b {
                assert(codes[a] < codes[b]);
            } else {
                assert(codes[b] < codes[a]);
            }
        }
    }
    assert(codes.to_set().subset_of(keys.to_set())) by {
        assert forall|c: u8| codes.to_set().contains(c) implies keys.to_set().contains(c) by {
            let w = choose|w: int| 0 <= w < codes.len() && codes[w] == c;
            assert(code_bit(bm, codes[w] as int));
            lemma_key_bits_only(keys, 6, c as int);
        }
    }
    codes.unique_seq_to_set();
    keys.lemma_cardinality_of_set();
    vstd::set_lib::lemma_len_subset(codes.to_set(), keys.to_set());
    assert(codes.len() <= 6);
    let w = choose|w: int| 0 <= w < codes.len() && codes[w] == k;
    assert(boot_keys_of(bm)[w] == k);
}

} // verus!
