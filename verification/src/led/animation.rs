//! RGB matrix animation framework: 8-bit math helpers (sin8, cos8, abs8,
//! scale8, scale16by8, sqrt16, qadd8, qsub8, atan2_8), a 16-bit PRNG, the LED
//! position table and the animation renderers.
use vstd::prelude::*;
use crate::led::rgb::{LED_COUNT, RgbMatrix, Rgb, hsv_to_rgb, hsv_to_rgb_of, painted, all_set, color_set};

verus! {

/// Number of modes: mode 0 is a solid colour set by hand, 1-49 animate.
pub const ANIMATION_COUNT: u8 = 50;

// ── Matrix dimensions (for framebuffer effects) ──────────────────────
pub const MATRIX_ROWS: usize = 6;

pub const MATRIX_COLS: usize = 19;

pub const NO_LED: u8 = 0xFF;

// ── Math helpers ──────────────────────────────────────────────────────
/// Base and slope of each 16-step section of the sine curve.
pub const SIN8_B_M16: [u8; 8] = [0, 49, 49, 41, 90, 27, 117, 10];

/// 8-bit sine: a piecewise-linear quarter wave over 4 sections of 16 steps,
/// mirrored for the second and fourth quarter and negated for the second half,
/// then offset by 128.
pub open spec fn sin8_of(theta: u8) -> u8 {
    let mirrored = theta & 0x40 != 0;
    let offset = (if mirrored { (255 - theta) as u8 } else { theta }) & 0x3F;
    let secoffset = if mirrored { ((offset & 0x0F) + 1) as int } else { (offset & 0x0F) as int };
    let section = (offset / 16) as int;
    let b = SIN8_B_M16@[section * 2];
    let m16 = SIN8_B_M16@[section * 2 + 1];
    let mx = (m16 * secoffset) / 16;
    let y = (mx + b) as i8;
    let y2 = if theta & 0x80 != 0 { (0 - y) as i8 } else { y };
    (y2 + 128) as u8
}

/// Fast 8-bit sine. Input 0-255 covers a full turn, output 0-255.
pub fn sin8(theta: u8) -> (r: u8)
    ensures
        r == sin8_of(theta),
{
    let mirrored = theta & 0x40 != 0;
    let offset = (if mirrored { 255 - theta } else { theta }) & 0x3F;
    let secoffset: u16 = if mirrored { (offset & 0x0F) as u16 + 1 } else { (offset & 0x0F) as u16 };
    assert(offset < 64) by (bit_vector)
        requires offset == (if mirrored { (255 - theta) as u8 } else { theta }) & 0x3F;
    assert((offset & 0x0F) <= 15) by (bit_vector);
    let section = (offset / 16) as usize;
    let b = SIN8_B_M16[section * 2];
    let m16 = SIN8_B_M16[section * 2 + 1];
    assert(m16 <= 117) by {
        assert(section < 4);
        if section == 0 {
        } else if section == 1 {
        } else if section == 2 {
        } else {
        }
    }
    assert(m16 * secoffset <= 117 * 16) by (nonlinear_arith)
        requires m16 <= 117, secoffset <= 16;
    let mx: u16 = (m16 as u16 * secoffset) / 16;
    let y: i8 = (mx + b as u16) as i8;
    let y2: i8 = if theta & 0x80 != 0 { (0i16 - y as i16) as i8 } else { y };
    (y2 as i16 + 128) as u8
}

/// The height of the quarter wave at `theta` (0..=127), before the sign of
/// the second half-turn is applied.
pub open spec fn sin8_height(theta: u8) -> int {
    let mirrored = theta & 0x40 != 0;
    let offset = (if mirrored { (255 - theta) as u8 } else { theta }) & 0x3F;
    let secoffset = if mirrored { ((offset & 0x0F) + 1) as int } else { (offset & 0x0F) as int };
    let section = (offset / 16) as int;
    (SIN8_B_M16@[section * 2 + 1] * secoffset) / 16 + SIN8_B_M16@[section * 2]
}

/// The sine is 128 plus the quarter-wave height in the first half-turn and
/// 128 minus it in the second; the height lies in 0..=127.
proof fn lemma_sin8_height(theta: u8)
    ensures
        0 <= sin8_height(theta) <= 127,
        sin8_of(theta) == (if theta & 0x80 != 0 { 128 - sin8_height(theta) } else { 128 + sin8_height(theta) }),
{
    let mirrored = theta & 0x40 != 0;
    let offset = (if mirrored { (255 - theta) as u8 } else { theta }) & 0x3F;
    assert(offset < 64) by (bit_vector)
        requires
            offset == (if mirrored { (255 - theta) as u8 } else { theta }) & 0x3F,
    ;
    assert((offset & 0x0F) <= 15) by (bit_vector);
    let secoffset = if mirrored { ((offset & 0x0F) + 1) as int } else { (offset & 0x0F) as int };
    let section = (offset / 16) as int;
    let m16 = SIN8_B_M16@[section * 2 + 1];
    let b = SIN8_B_M16@[section * 2];
    assert(0 <= secoffset <= 16);
    assert(m16 + b <= 127 && 0 <= m16) by {
        if section == 0 {
        } else if section == 1 {
        } else if section == 2 {
        } else {
        }
    }
    assert(0 <= m16 * secoffset <= m16 * 16) by (nonlinear_arith)
        requires
            0 <= m16,
            0 <= secoffset <= 16,
    ;
    assert(sin8_height(theta) == (m16 * secoffset) / 16 + b);
}

/// The 8-bit sine never reaches 0, and half a turn apart its values sum to
/// 256 (odd symmetry about the midpoint 128).
pub proof fn lemma_sin8_bounds(theta: u8)
    ensures
        1 <= sin8_of(theta),
        sin8_of(theta) + sin8_of(theta.wrapping_add(128)) == 256,
{
    let t2 = theta.wrapping_add(128);
    assert(t2 == ((theta + 128) % 256) as u8);
    assert({
        &&& (t2 & 0x40 != 0) == (theta & 0x40 != 0)
        &&& (t2 & 0x80 != 0) != (theta & 0x80 != 0)
        &&& ((255 - t2) as u8) & 0x3F == ((255 - theta) as u8) & 0x3F
        &&& t2 & 0x3F == theta & 0x3F
    }) by (bit_vector)
        requires
            t2 == ((theta + 128) % 256) as u8,
    ;
    assert(sin8_height(t2) == sin8_height(theta));
    lemma_sin8_height(theta);
    lemma_sin8_height(t2);
}

/// 8-bit cosine: the sine a quarter turn ahead.
pub open spec fn cos8_of(theta: u8) -> u8 {
    sin8_of(theta.wrapping_add(64))
}

/// 8-bit cosine: the sine a quarter turn ahead.
pub fn cos8(theta: u8) -> (r: u8)
    ensures
        r == sin8_of(((theta + 64) % 256) as u8),
        r == cos8_of(theta),
{
    sin8(theta.wrapping_add(64))
}

/// Absolute value of a signed byte (-128 gives 128).
pub open spec fn abs8_of(i: i8) -> u8 {
    if i < 0 {
        (-i) as u8
    } else {
        i as u8
    }
}

/// Absolute value of a signed byte (-128 gives 128).
pub fn abs8(i: i8) -> (r: u8)
    ensures
        r == (if i < 0 { -i } else { i as int }),
        r == abs8_of(i),
{
    if i < 0 {
        (0i16 - i as i16) as u8
    } else {
        i as u8
    }
}

/// `i * scale / 256`.
pub open spec fn scale8_of(i: u8, scale: u8) -> u8 {
    ((i * scale) / 256) as u8
}

/// Scales `i` by the fraction `scale / 256`.
pub fn scale8(i: u8, scale: u8) -> (r: u8)
    ensures
        r == scale8_of(i, scale),
        r <= i,
{
    assert(i * scale <= i * 255) by (nonlinear_arith)
        requires scale <= 255;
    ((i as u16 * scale as u16) / 256) as u8
}

/// `i * scale / 256` for a 16-bit `i`.
pub open spec fn scale16by8_of(i: u16, scale: u8) -> u16 {
    ((i * scale) / 256) as u16
}

/// Scales a 16-bit `i` by the fraction `scale / 256`.
pub fn scale16by8(i: u16, scale: u8) -> (r: u16)
    ensures
        r == scale16by8_of(i, scale),
        r <= i,
{
    assert(i * scale <= i * 255) by (nonlinear_arith)
        requires scale <= 255;
    ((i as u32 * scale as u32) / 256) as u16
}

/// Saturating sum of two bytes.
pub open spec fn qadd8_of(i: u8, j: u8) -> u8 {
    if i + j > 255 { 255 } else { (i + j) as u8 }
}

/// Saturating unsigned 8-bit add.
pub fn qadd8(i: u8, j: u8) -> (r: u8)
    ensures
        r == qadd8_of(i, j),
{
    let t = i as u16 + j as u16;
    if t > 255 {
        255
    } else {
        t as u8
    }
}

/// Saturating difference of two bytes.
pub open spec fn qsub8_of(i: u8, j: u8) -> u8 {
    if i < j { 0 } else { (i - j) as u8 }
}

/// Saturating unsigned 8-bit subtract (clamps at 0).
pub fn qsub8(i: u8, j: u8) -> (r: u8)
    ensures
        r == qsub8_of(i, j),
{
    if i < j {
        0
    } else {
        i - j
    }
}

/// Integer square root of a 16-bit value: the largest `r` with `r * r <= x`.
pub open spec fn isqrt16(x: u16) -> u8 {
    choose|r: u8| #[trigger] is_sqrt_bracket(x, r)
}

/// `r` is the integer square root of `x`: `r * r <= x < (r + 1) * (r + 1)`.
pub open spec fn is_sqrt_bracket(x: u16, r: u8) -> bool {
    r * r <= x && x < (r + 1) * (r + 1)
}

/// A square root bracket determines the root.
pub proof fn lemma_isqrt16_unique(x: u16, r: u8)
    requires
        r * r <= x,
        x < (r + 1) * (r + 1),
    ensures
        isqrt16(x) == r,
{
    assert(is_sqrt_bracket(x, r));
    let s = isqrt16(x);
    assert(s * s <= x && x < (s + 1) * (s + 1));
    if s < r {
        assert((s + 1) * (s + 1) <= r * r) by (nonlinear_arith)
            requires s < r, 0 <= s;
    } else if r < s {
        assert((r + 1) * (r + 1) <= s * s) by (nonlinear_arith)
            requires r < s, 0 <= r;
    }
}

/// Integer square root of a 16-bit value: the largest `r` with `r * r <= x`.
pub fn sqrt16(x: u16) -> (r: u8)
    ensures
        r * r <= x,
        x < (r + 1) * (r + 1),
        r == isqrt16(x),
{
    let r = sqrt16_search(x);
    proof {
        lemma_isqrt16_unique(x, r);
    }
    r
}

fn sqrt16_search(x: u16) -> (r: u8)
    ensures
        r * r <= x,
        x < (r + 1) * (r + 1),
{
    if x <= 1 {
        assert(x * x <= x && x < (x + 1) * (x + 1)) by (nonlinear_arith)
            requires x <= 1;
        return x as u8;
    }
    let mut low: u16 = 1;
    let mut hi: u16;
    if x > 7904 {
        hi = 255;
        assert(256 * 256 > x);
    } else {
        hi = x / 32 + 8;
        assert((hi + 1) * (hi + 1) > x) by (nonlinear_arith)
            requires hi == x / 32 + 8, x <= 7904;
    }
    loop
        invariant
            1 <= low <= 256,
            hi <= 255,
            (low - 1) * (low - 1) <= x,
            (hi + 1) * (hi + 1) > x,
            low <= hi + 1,
        ensures
            low == hi + 1,
            1 <= low <= 256,
            (low - 1) * (low - 1) <= x,
            (hi + 1) * (hi + 1) > x,
        decreases hi + 1 - low,
    {
        let mid: u16 = (low + hi) / 2;
        assert(mid * mid <= 255 * 255) by (nonlinear_arith)
            requires mid <= 255;
        if mid * mid > x {
            hi = mid - 1;
        } else {
            if mid == 255 {
                assert(256 * 256 > x);
                return 255;
            }
            low = mid + 1;
        }
        if hi < low {
            break;
        }
    }
    (low - 1) as u8
}

/// Truncating division (rounds toward zero) of `n` by a positive `d`.
pub open spec fn tdiv(n: int, d: int) -> int {
    if n >= 0 { n / d } else { -((-n) / d) }
}

/// The inputs for which `atan2_8`'s 16-bit intermediate values do not overflow.
pub open spec fn atan2_8_in_range(dy: i16, dx: i16) -> bool {
    let ay: int = if dy > 0 { dy as int } else { -dy };
    &&& dy > i16::MIN
    &&& dx >= 0 ==> dx + ay <= i16::MAX && 32 * (dx - ay) >= i16::MIN && 32 * (dx - ay) <= i16::MAX
    &&& dx < 0 ==> ay - dx <= i16::MAX && 32 * (dx + ay) >= i16::MIN && 32 * (dx + ay) <= i16::MAX
}

/// Piecewise-linear atan2 approximation: a full turn is 256.
pub open spec fn atan2_8_of(dy: i16, dx: i16) -> u8 {
    if dy == 0 {
        if dx >= 0 { 0 } else { 128 }
    } else {
        let ay: int = if dy > 0 { dy as int } else { -dy };
        let a: i8 = if dx >= 0 {
            (32 - (tdiv(32 * (dx - ay), dx + ay) as i8)) as i8
        } else {
            (96 - (tdiv(32 * (dx + ay), ay - dx) as i8)) as i8
        };
        if dy < 0 { (0 - a) as u8 } else { a as u8 }
    }
}

/// Truncating division of `n` by a positive `d`, on 32-bit values.
fn trunc_div(n: i32, d: i32) -> (q: i32)
    requires
        d > 0,
    ensures
        q == tdiv(n as int, d as int),
{
    if n >= 0 {
        ((n as u32) / (d as u32)) as i32
    } else {
        let m: u32 = (0i64 - n as i64) as u32;
        let q = m / (d as u32);
        assert(q <= m);
        (0i64 - q as i64) as i32
    }
}

/// Fast approximation of atan2(dy, dx), output 0-255 for a full turn.
pub fn atan2_8(dy: i16, dx: i16) -> (r: u8)
    requires
        atan2_8_in_range(dy, dx),
    ensures
        r == atan2_8_of(dy, dx),
{
    if dy == 0 {
        return if dx >= 0 { 0 } else { 128 };
    }
    let abs_y: i32 = if dy > 0 { dy as i32 } else { 0 - dy as i32 };
    let a: i8 = if dx >= 0 {
        let q = trunc_div(32 * (dx as i32 - abs_y), dx as i32 + abs_y);
        (32i16 - (q as i8) as i16) as i8
    } else {
        let q = trunc_div(32 * (dx as i32 + abs_y), abs_y - dx as i32);
        (96i16 - (q as i8) as i16) as i8
    };
    if dy < 0 {
        return (0i16 - a as i16) as u8;
    }
    a as u8
}

// ── LED position table ────────────────────────────────────────────────
// Indices 0-99: main keyboard matrix LEDs
// Indices 100-104: side LEDs LEFT (x=0)
// Indices 105-109: side LEDs RIGHT (x=224)
pub const LED_POSITIONS: [(u8, u8); LED_COUNT] = [
    // Row 0 (F-key row, y=0): indices 0-18
    (0, 0), (10, 0), (20, 0), (30, 0), (40, 0), (50, 0), (60, 0), (70, 0), (80, 0), (90, 0),
    (100, 0), (110, 0), (120, 0), (130, 0), (140, 0), (150, 0), (160, 0), (170, 0), (180, 0),
    // Row 1 (y=10): indices 19-36
    (0, 10), (10, 10), (20, 10), (30, 10), (40, 10), (50, 10), (60, 10), (70, 10), (80, 10), (90, 10),
    (100, 10), (110, 10), (120, 10), (130, 10), (150, 10), (160, 10), (170, 10), (180, 10),
    // Row 2 (y=20): indices 37-54
    (0, 20), (15, 20), (25, 20), (35, 20), (45, 20), (55, 20), (65, 20), (75, 20), (85, 20), (95, 20),
    (105, 20), (115, 20), (125, 20), (135, 20), (150, 20), (160, 20), (170, 20), (180, 20),
    // Row 3 (y=30): indices 55-70
    (0, 30), (18, 30), (28, 30), (38, 30), (48, 30), (58, 30), (68, 30), (78, 30), (88, 30), (98, 30),
    (108, 30), (118, 30), (128, 30), (150, 30), (160, 30), (170, 30),
    // Row 4 (y=40): indices 71-87
    (0, 40), (23, 40), (33, 40), (43, 40), (53, 40), (63, 40), (73, 40), (83, 40), (93, 40),
    (103, 40), (113, 40), (123, 40), (140, 40), (150, 40), (160, 40), (170, 40), (180, 40),
    // Row 5 (y=50): indices 88-99
    (0, 50), (13, 50), (25, 50), (66, 50), (100, 50), (110, 50), (120, 50), (130, 50), (140, 50),
    (150, 50), (160, 50), (170, 50),
    // Side LEDs LEFT: indices 100-104
    (0, 5), (0, 15), (0, 25), (0, 35), (0, 45),
    // Side LEDs RIGHT: indices 105-109
    (224, 5), (224, 15), (224, 25), (224, 35), (224, 45),
];

/// RGB matrix center point
pub const CENTER_X: u8 = 90;

pub const CENTER_Y: u8 = 25;

/// Position of LED `i`.
pub open spec fn led_pos(i: int) -> (u8, u8) {
    LED_POSITIONS@[i]
}

/// Number of LEDs `j < n` in the same 10-unit row band as LED `i` and left of it.
pub open spec fn row_rank(i: int, n: int) -> int
    decreases n,
{
    if n <= 0 {
        0
    } else {
        row_rank(i, n - 1) + if led_pos(n - 1).1 / 10 == led_pos(i).1 / 10 && led_pos(n - 1).0 < led_pos(i).0 {
            1int
        } else {
            0int
        }
    }
}

/// Among the first `n` main-matrix LEDs, the last one in row band `row` with
/// exactly `col` LEDs left of it in that band; `NO_LED` if none.
pub open spec fn matrix_co_scan(row: int, col: int, n: int) -> u8
    decreases n,
{
    if n <= 0 {
        NO_LED
    } else if led_pos(n - 1).1 / 10 == row && row_rank(n - 1, n - 1) == col {
        (n - 1) as u8
    } else {
        matrix_co_scan(row, col, n - 1)
    }
}

/// Whether y coordinate `py` lies in matrix row `row`'s band (byte arithmetic,
/// as the firmware computes it).
pub open spec fn in_row_band(py: u8, row: int) -> bool {
    let t = (row * 10) as u8;
    ||| py == t
    ||| (py > ((t - 5) % 256) as u8 && py < ((t + 5) % 256) as u8)
}

/// Number of main-matrix LEDs among the first `n` in row `row`'s band.
pub open spec fn band_count(row: int, n: int) -> int
    decreases n,
{
    if n <= 0 {
        0
    } else {
        band_count(row, n - 1) + if in_row_band(led_pos(n - 1).1, row) { 1int } else { 0int }
    }
}

/// Among the first `n` LEDs, the one that is the `col`-th (from 0) LED of row
/// `row`'s band; `NO_LED` if there is none.
pub open spec fn ordered_scan(row: int, col: int, n: int) -> u8
    decreases n,
{
    if n <= 0 {
        NO_LED
    } else if ordered_scan(row, col, n - 1) != NO_LED {
        ordered_scan(row, col, n - 1)
    } else if in_row_band(led_pos(n - 1).1, row) && band_count(row, n - 1) == col {
        (n - 1) as u8
    } else {
        NO_LED
    }
}

/// Indices among the first `n` main-matrix LEDs at position `(tx, ty)`.
pub open spec fn leds_at(ty: u8, tx: u8, n: int) -> Seq<u8>
    decreases n,
{
    if n <= 0 {
        Seq::empty()
    } else if led_pos(n - 1).1 == ty && led_pos(n - 1).0 == tx {
        leds_at(ty, tx, n - 1).push((n - 1) as u8)
    } else {
        leds_at(ty, tx, n - 1)
    }
}

/// Matrix (row, col) to LED index for framebuffer effects: within the row's
/// 10-unit band, LEDs are numbered left to right. `NO_LED` if there is none.
pub fn matrix_co(row: usize, col: usize) -> (r: u8)
    ensures
        r == (if row >= MATRIX_ROWS || col >= MATRIX_COLS { NO_LED } else { matrix_co_scan(row as int, col as int, 100) }),
{
    if row >= MATRIX_ROWS || col >= MATRIX_COLS {
        return NO_LED;
    }
    let mut found = NO_LED;
    let mut i: usize = 0;
    while i < 100
        invariant
            i <= 100,
            row < MATRIX_ROWS,
            col < MATRIX_COLS,
            found == matrix_co_scan(row as int, col as int, i as int),
        decreases 100 - i,
    {
        let (x, y) = LED_POSITIONS[i];
        if (y / 10) as usize == row {
            let mut rank: usize = 0;
            let mut j: usize = 0;
            while j < i
                invariant
                    j <= i,
                    i < 100,
                    rank == row_rank(i as int, j as int),
                    rank <= j,
                    x == led_pos(i as int).0,
                    y == led_pos(i as int).1,
                decreases i - j,
            {
                let (jx, jy) = LED_POSITIONS[j];
                if jy / 10 == y / 10 && jx < x {
                    rank = rank + 1;
                }
                j = j + 1;
            }
            if rank == col {
                found = i as u8;
            }
        }
        i = i + 1;
    }
    found
}

/// The `col`-th LED (from 0, in index order) whose y coordinate lies in row
/// `row`'s band; `NO_LED` if there is none.
pub fn matrix_co_ordered(row: usize, col: usize) -> (r: u8)
    ensures
        r == (if row >= MATRIX_ROWS || col >= MATRIX_COLS { NO_LED } else { ordered_scan(row as int, col as int, 100) }),
{
    if row >= MATRIX_ROWS || col >= MATRIX_COLS {
        return NO_LED;
    }
    let target_y = (row * 10) as u8;
    let mut count: usize = 0;
    let mut i: usize = 0;
    while i < 100
        invariant
            i <= 100,
            row < MATRIX_ROWS,
            col < MATRIX_COLS,
            target_y == (row * 10) as u8,
            count == band_count(row as int, i as int),
            count <= i,
            ordered_scan(row as int, col as int, i as int) == NO_LED,
        decreases 100 - i,
    {
        let (_px, py) = LED_POSITIONS[i];
        if py == target_y || (py > target_y.wrapping_sub(5) && py < target_y.wrapping_add(5)) {
            if count == col {
                proof {
                    lemma_ordered_scan_stable(row as int, col as int, i as int + 1, 100);
                }
                return i as u8;
            }
            count = count + 1;
        }
        i = i + 1;
    }
    NO_LED
}

/// Writes the indices of the main-matrix LEDs at position
/// `(col * 10, row * 10)` (byte arithmetic) into `out`, at most 8, and
/// returns how many were written.
pub fn map_row_column_to_led(row: u8, col: u8, out: &mut [u8; 8]) -> (count: u8)
    ensures
        ({
            let found = leds_at(((row * 10) % 256) as u8, ((col * 10) % 256) as u8, 100);
            let n = if found.len() < 8 { found.len() } else { 8 };
            &&& count == n
            &&& forall|k: int| 0 <= k < n ==> final(out)@[k] == found[k]
            &&& forall|k: int| n <= k < 8 ==> final(out)@[k] == old(out)@[k]
        }),
{
    let target_y = row.wrapping_mul(10);
    let target_x = col.wrapping_mul(10);
    let ghost ty = target_y;
    let ghost tx = target_x;
    assert(ty == ((row * 10) % 256) as u8);
    assert(tx == ((col * 10) % 256) as u8);
    let mut count: u8 = 0;
    let mut i: usize = 0;
    while i < 100
        invariant
            i <= 100,
            ty == target_y,
            tx == target_x,
            ty == ((row * 10) % 256) as u8,
            tx == ((col * 10) % 256) as u8,
            count < 8,
            count == leds_at(ty, tx, i as int).len(),
            forall|k: int| 0 <= k < count ==> out@[k] == leds_at(ty, tx, i as int)[k],
            forall|k: int| count <= k < 8 ==> out@[k] == old(out)@[k],
        decreases 100 - i,
    {
        let (px, py) = LED_POSITIONS[i];
        if py == target_y && px == target_x {
            out[count as usize] = i as u8;
            count = count + 1;
            if count >= 8 {
                assert(count == leds_at(ty, tx, i + 1).len());
                proof {
                    lemma_leds_at_grows(ty, tx, i as int + 1, 100);
                }
                return count;
            }
        }
        i = i + 1;
    }
    count
}

/// Once found, the `col`-th LED of a band stays found as more LEDs are scanned.
pub proof fn lemma_ordered_scan_stable(row: int, col: int, n: int, m: int)
    requires
        0 <= n <= m,
        ordered_scan(row, col, n) != NO_LED,
    ensures
        ordered_scan(row, col, m) == ordered_scan(row, col, n),
    decreases m - n,
{
    if n < m {
        lemma_ordered_scan_stable(row, col, n, m - 1);
    }
}

/// The matches among the first `n` LEDs are a prefix of those among the first `m`.
pub proof fn lemma_leds_at_grows(ty: u8, tx: u8, n: int, m: int)
    requires
        0 <= n <= m,
    ensures
        leds_at(ty, tx, n).len() <= leds_at(ty, tx, m).len(),
        forall|k: int| 0 <= k < leds_at(ty, tx, n).len() ==> leds_at(ty, tx, m)[k] == leds_at(ty, tx, n)[k],
    decreases m - n,
{
    if n < m {
        lemma_leds_at_grows(ty, tx, n, m - 1);
    }
}

// ── PRNG (FastLED algorithm) ─────────────────────────────────────────
/// Initial value of the 16-bit PRNG state.
pub const RAND16_SEED_INIT: u16 = 0xACE1;

/// Next PRNG state: `seed * 2053 + 13849` modulo 2^16.
pub open spec fn rand16_next(seed: u16) -> u16 {
    ((seed * 2053 + 13849) % 65536) as u16
}

/// The byte drawn from a PRNG state: low byte plus high byte, modulo 256.
pub open spec fn rand8_of(seed: u16) -> u8 {
    ((seed % 256 + seed / 256) % 256) as u8
}

/// Advances the PRNG state and draws an 8-bit random number.
pub fn random8(seed: &mut u16) -> (r: u8)
    ensures
        *final(seed) == rand16_next(*old(seed)),
        r == rand8_of(rand16_next(*old(seed))),
{
    let next = ((*seed as u32 * 2053 + 13849) % 65536) as u16;
    *seed = next;
    ((next % 256 + next / 256) % 256) as u8
}

/// A random number in `0..lim`: the drawn byte scaled by `lim / 256`.
pub fn random8_max(seed: &mut u16, lim: u8) -> (r: u8)
    ensures
        *final(seed) == rand16_next(*old(seed)),
        r == scale8_of(rand8_of(rand16_next(*old(seed))), lim),
        lim > 0 ==> r < lim,
        lim == 0 ==> r == 0,
{
    let r = random8(seed) as u16;
    assert(r * lim <= 255 * lim) by (nonlinear_arith)
        requires r <= 255;
    ((r * lim as u16) / 256) as u8
}

/// A random number in `min..lim`: `random8_max(lim - min) + min`, with
/// wrapping byte arithmetic.
pub fn random8_min_max(seed: &mut u16, min: u8, lim: u8) -> (r: u8)
    ensures
        *final(seed) == rand16_next(*old(seed)),
        r == ((scale8_of(rand8_of(rand16_next(*old(seed))), ((lim - min) % 256) as u8) + min) % 256) as u8,
{
    let delta = lim.wrapping_sub(min);
    random8_max(seed, delta).wrapping_add(min)
}

// ── Common time helpers ──────────────────────────────────────────────
/// Animation time: the tick scaled by `speed / divisor + 1` (saturating),
/// low byte.
pub open spec fn time_of(anim_tick: u16, speed: u8, divisor: u8) -> u8 {
    scale16by8_of(anim_tick, qadd8_of(speed / divisor, 1)) as u8
}

/// Animation time at half speed: the tick scaled by `speed / 2`, low byte.
pub open spec fn time_half_of(anim_tick: u16, speed: u8) -> u8 {
    scale16by8_of(anim_tick, speed / 2) as u8
}

fn compute_time(anim_tick: u16, speed: u8, divisor: u8) -> (t: u8)
    requires
        divisor > 0,
    ensures
        t == time_of(anim_tick, speed, divisor),
{
    let scaled = scale16by8(anim_tick, qadd8(speed / divisor, 1));
    scaled as u8
}

fn compute_time_speed_div(anim_tick: u16, speed: u8) -> (t: u8)
    ensures
        t == time_half_of(anim_tick, speed),
{
    scale16by8(anim_tick, speed / 2) as u8
}

// ── LED geometry ─────────────────────────────────────────────────────
/// Horizontal offset of LED `i` from the centre.
pub open spec fn led_dx(i: int) -> i16 {
    (led_pos(i).0 - CENTER_X) as i16
}

/// Vertical offset of LED `i` from the centre.
pub open spec fn led_dy(i: int) -> i16 {
    (led_pos(i).1 - CENTER_Y) as i16
}

/// Distance of LED `i` from the centre (integer square root).
pub open spec fn led_dist(i: int) -> u8 {
    isqrt16((led_dx(i) * led_dx(i) + led_dy(i) * led_dy(i)) as u16)
}

/// The LEDs lie within 134 of the centre horizontally and 25 vertically,
/// so their offsets suit `atan2_8`.
pub proof fn lemma_led_geometry()
    ensures
        forall|i: int|
            0 <= i < LED_COUNT ==> -90 <= #[trigger] led_dx(i) <= 134 && -25 <= led_dy(i) <= 25
                && atan2_8_in_range(led_dy(i), led_dx(i)),
{
    assert forall|i: int| 0 <= i < LED_COUNT implies -90 <= #[trigger] led_dx(i) <= 134 && -25 <= led_dy(i) <= 25 by {
    }
}

/// The offsets of LED `i` from the centre.
fn led_offsets(i: usize) -> (d: (i16, i16))
    requires
        i < LED_COUNT,
    ensures
        d.0 == led_dx(i as int),
        d.1 == led_dy(i as int),
        -90 <= d.0 <= 134,
        -25 <= d.1 <= 25,
        atan2_8_in_range(d.1, d.0),
{
    proof {
        lemma_led_geometry();
    }
    let (px, py) = LED_POSITIONS[i];
    ((px as i16) - (CENTER_X as i16), (py as i16) - (CENTER_Y as i16))
}

/// The distance of LED `i` from the centre.
fn led_distance(i: usize) -> (d: u8)
    requires
        i < LED_COUNT,
    ensures
        d == led_dist(i as int),
{
    let (dx, dy) = led_offsets(i);
    assert(0 <= dx * dx <= 134 * 134 && 0 <= dy * dy <= 25 * 25) by (nonlinear_arith)
        requires -90 <= dx <= 134, -25 <= dy <= 25;
    sqrt16((dx * dx + dy * dy) as u16)
}

/// The colours of all LEDs by a per-LED rule.
fn led_colours<F: Fn(usize) -> (u8, u8, u8)>(f: F, Ghost(rule): Ghost<spec_fn(int) -> Rgb>) -> (v: Vec<(u8, u8, u8)>)
    requires
        forall|i: usize| i < LED_COUNT ==> #[trigger] f.requires((i,)),
        forall|i: usize, c: (u8, u8, u8)| i < LED_COUNT && #[trigger] f.ensures((i,), c) ==> c == rule(i as int),
    ensures
        v@ == Seq::new(LED_COUNT as nat, rule),
{
    let mut v: Vec<(u8, u8, u8)> = Vec::new();
    let mut i: usize = 0;
    while i < LED_COUNT
        invariant
            i <= LED_COUNT,
            forall|i: usize| i < LED_COUNT ==> #[trigger] f.requires((i,)),
            forall|i: usize, c: (u8, u8, u8)| i < LED_COUNT && #[trigger] f.ensures((i,), c) ==> c == rule(i as int),
            v@ == Seq::new(i as nat, rule),
        decreases LED_COUNT - i,
    {
        let c = f(i);
        v.push(c);
        i = i + 1;
        assert(v@ =~= Seq::new(i as nat, rule));
    }
    v
}

// ── Animation render functions ───────────────────────────────────────
/// The breathing level: twice the distance of `sin8(time)` from 128.
pub open spec fn breath_level(time: u8) -> u8 {
    abs8_of((sin8_of(time) - 128) as i8).wrapping_mul(2)
}

/// Mode 1: BREATHING — all LEDs at the breathing level of the value.
pub open spec fn breathing_colour(m: RgbMatrix) -> Rgb {
    hsv_to_rgb_of(m.hue, m.sat, scale8_of(breath_level(time_of(m.anim_tick, m.speed, 8)), m.val))
}

pub fn render_breathing(rgb: &mut RgbMatrix)
    ensures
        all_set(*old(rgb), *final(rgb), breathing_colour(*old(rgb))),
{
    let hsv_h = rgb.hue;
    let hsv_s = rgb.sat;
    let hsv_v_base = rgb.val;
    let time = compute_time(rgb.anim_tick, rgb.speed, 8);
    let raw = sin8(time);
    let diff: i8 = (raw as i16 - 128i16) as i8;
    let v_scaled = abs8(diff).wrapping_mul(2);
    let v = scale8(v_scaled, hsv_v_base);
    let (r, g, b) = hsv_to_rgb(hsv_h, hsv_s, v);
    rgb.set_all(r, g, b);
}

/// Mode 2: CYCLE_ALL — all LEDs at hue `time`.
pub open spec fn cycle_all_colour(m: RgbMatrix) -> Rgb {
    hsv_to_rgb_of(time_of(m.anim_tick, m.speed, 4), m.sat, m.val)
}

pub fn render_cycle_all(rgb: &mut RgbMatrix)
    ensures
        all_set(*old(rgb), *final(rgb), cycle_all_colour(*old(rgb))),
{
    let time = compute_time(rgb.anim_tick, rgb.speed, 4);
    let (r, g, b) = hsv_to_rgb(time, rgb.sat, rgb.val);
    rgb.set_all(r, g, b);
}

/// Mode 3: CYCLE_UP_DOWN — hue `y - time`.
pub open spec fn cycle_up_down_led(m: RgbMatrix, i: int) -> Rgb {
    hsv_to_rgb_of(led_pos(i).1.wrapping_sub(time_of(m.anim_tick, m.speed, 4)), m.sat, m.val)
}

pub fn render_cycle_up_down(rgb: &mut RgbMatrix)
    ensures
        painted(*old(rgb), *final(rgb), Seq::new(LED_COUNT as nat, |i: int| cycle_up_down_led(*old(rgb), i))),
{
    let ghost m = *rgb;
    let time = compute_time(rgb.anim_tick, rgb.speed, 4);
    let sat = rgb.sat;
    let val = rgb.val;
    let f = |i: usize| -> (c: Rgb)
        requires i < LED_COUNT
        ensures c == hsv_to_rgb_of(led_pos(i as int).1.wrapping_sub(time), sat, val)
    {
        let (_, py) = LED_POSITIONS[i];
        hsv_to_rgb(py.wrapping_sub(time), sat, val)
    };
    let colors = led_colours(f, Ghost(|i: int| cycle_up_down_led(m, i)));
    rgb.paint(&colors);
}

/// Mode 4: CYCLE_LEFT_RIGHT — hue `x - time`.
pub open spec fn cycle_left_right_rule(time: u8, sat: u8, val: u8, i: int) -> Rgb {
    hsv_to_rgb_of(led_pos(i).0.wrapping_sub(time), sat, val)
}

pub fn render_cycle_left_right(rgb: &mut RgbMatrix)
    ensures
        painted(*old(rgb), *final(rgb), Seq::new(LED_COUNT as nat, |i: int| cycle_left_right_rule(time_of(old(rgb).anim_tick, old(rgb).speed, 4), old(rgb).sat, old(rgb).val, i))),
{
    let time = compute_time(rgb.anim_tick, rgb.speed, 4);
    let sat = rgb.sat;
    let val = rgb.val;
    let f = |i: usize| -> (c: Rgb)
        requires i < LED_COUNT
        ensures c == cycle_left_right_rule(time, sat, val, i as int)
    {
        let (px, _) = LED_POSITIONS[i];
        hsv_to_rgb(px.wrapping_sub(time), sat, val)
    };
    let colors = led_colours(f, Ghost(|i: int| cycle_left_right_rule(time, sat, val, i)));
    assert(colors@ =~= Seq::new(LED_COUNT as nat, |i: int| cycle_left_right_rule(time_of(old(rgb).anim_tick, old(rgb).speed, 4), old(rgb).sat, old(rgb).val, i)));
    rgb.paint(&colors);
}

/// Mode 5: CYCLE_OUT_IN — hue `3 * dist / 2 + time`.
pub open spec fn cycle_out_in_rule(time: u8, sat: u8, val: u8, i: int) -> Rgb {
    hsv_to_rgb_of(((3 * led_dist(i) / 2) as u16).wrapping_add(time as u16) as u8, sat, val)
}

pub fn render_cycle_out_in(rgb: &mut RgbMatrix)
    ensures
        painted(*old(rgb), *final(rgb), Seq::new(LED_COUNT as nat, |i: int| cycle_out_in_rule(time_of(old(rgb).anim_tick, old(rgb).speed, 2), old(rgb).sat, old(rgb).val, i))),
{
    let time = compute_time(rgb.anim_tick, rgb.speed, 2);
    let sat = rgb.sat;
    let val = rgb.val;
    let f = |i: usize| -> (c: Rgb)
        requires i < LED_COUNT
        ensures c == cycle_out_in_rule(time, sat, val, i as int)
    {
        let dist = led_distance(i);
        let hue = (3u16 * dist as u16 / 2).wrapping_add(time as u16);
        hsv_to_rgb(hue as u8, sat, val)
    };
    let colors = led_colours(f, Ghost(|i: int| cycle_out_in_rule(time, sat, val, i)));
    assert(colors@ =~= Seq::new(LED_COUNT as nat, |i: int| cycle_out_in_rule(time_of(old(rgb).anim_tick, old(rgb).speed, 2), old(rgb).sat, old(rgb).val, i)));
    rgb.paint(&colors);
}

/// Mode 6: GRADIENT_UP_DOWN — hue `hue + scale8(64, speed) * (y / 16)`.
pub open spec fn gradient_up_down_rule(hue: u8, scale: u8, sat: u8, val: u8, i: int) -> Rgb {
    hsv_to_rgb_of(hue.wrapping_add(scale.wrapping_mul(led_pos(i).1 / 16)), sat, val)
}

pub fn render_gradient_up_down(rgb: &mut RgbMatrix)
    ensures
        painted(*old(rgb), *final(rgb), Seq::new(LED_COUNT as nat, |i: int| gradient_up_down_rule(old(rgb).hue, scale8_of(64, old(rgb).speed), old(rgb).sat, old(rgb).val, i))),
{
    let scale = scale8(64, rgb.speed);
    let hue = rgb.hue;
    let sat = rgb.sat;
    let val = rgb.val;
    let f = |i: usize| -> (c: Rgb)
        requires i < LED_COUNT
        ensures c == gradient_up_down_rule(hue, scale, sat, val, i as int)
    {
        let (_, py) = LED_POSITIONS[i];
        hsv_to_rgb(hue.wrapping_add(scale.wrapping_mul(py / 16)), sat, val)
    };
    let colors = led_colours(f, Ghost(|i: int| gradient_up_down_rule(hue, scale, sat, val, i)));
    assert(colors@ =~= Seq::new(LED_COUNT as nat, |i: int| gradient_up_down_rule(old(rgb).hue, scale8_of(64, old(rgb).speed), old(rgb).sat, old(rgb).val, i)));
    rgb.paint(&colors);
}

/// Mode 7: GRADIENT_LEFT_RIGHT — hue `hue + scale8(64, speed) * x / 32`.
pub open spec fn gradient_left_right_rule(hue: u8, scale: u8, sat: u8, val: u8, i: int) -> Rgb {
    hsv_to_rgb_of(hue.wrapping_add(((scale * led_pos(i).0) / 32) as u8), sat, val)
}

pub fn render_gradient_left_right(rgb: &mut RgbMatrix)
    ensures
        painted(*old(rgb), *final(rgb), Seq::new(LED_COUNT as nat, |i: int| gradient_left_right_rule(old(rgb).hue, scale8_of(64, old(rgb).speed), old(rgb).sat, old(rgb).val, i))),
{
    let scale = scale8(64, rgb.speed);
    let hue = rgb.hue;
    let sat = rgb.sat;
    let val = rgb.val;
    let f = |i: usize| -> (c: Rgb)
        requires i < LED_COUNT
        ensures c == gradient_left_right_rule(hue, scale, sat, val, i as int)
    {
        let (px, _) = LED_POSITIONS[i];
        assert(scale * px <= 255 * 255) by (nonlinear_arith)
            requires scale <= 255, px <= 255;
        hsv_to_rgb(hue.wrapping_add(((scale as u16 * px as u16) / 32) as u8), sat, val)
    };
    let colors = led_colours(f, Ghost(|i: int| gradient_left_right_rule(hue, scale, sat, val, i)));
    assert(colors@ =~= Seq::new(LED_COUNT as nat, |i: int| gradient_left_right_rule(old(rgb).hue, scale8_of(64, old(rgb).speed), old(rgb).sat, old(rgb).val, i)));
    rgb.paint(&colors);
}

/// Mode 8: RAINBOW_MOVING_CHEVRON — hue `hue + |y - cy| + x - time`.
pub open spec fn rainbow_moving_chevron_rule(hue: u8, time: u8, sat: u8, val: u8, i: int) -> Rgb {
    let (px, py) = led_pos(i);
    let dy: u8 = if py > CENTER_Y { (py - CENTER_Y) as u8 } else { (CENTER_Y - py) as u8 };
    hsv_to_rgb_of(hue.wrapping_add(dy).wrapping_add(px.wrapping_sub(time)), sat, val)
}

pub fn render_rainbow_moving_chevron(rgb: &mut RgbMatrix)
    ensures
        painted(*old(rgb), *final(rgb), Seq::new(LED_COUNT as nat, |i: int| rainbow_moving_chevron_rule(old(rgb).hue, time_of(old(rgb).anim_tick, old(rgb).speed, 4), old(rgb).sat, old(rgb).val, i))),
{
    let time = compute_time(rgb.anim_tick, rgb.speed, 4);
    let hue = rgb.hue;
    let sat = rgb.sat;
    let val = rgb.val;
    let f = |i: usize| -> (c: Rgb)
        requires i < LED_COUNT
        ensures c == rainbow_moving_chevron_rule(hue, time, sat, val, i as int)
    {
        let (px, py) = LED_POSITIONS[i];
        let dy = if py > CENTER_Y { py - CENTER_Y } else { CENTER_Y - py };
        hsv_to_rgb(hue.wrapping_add(dy).wrapping_add(px.wrapping_sub(time)), sat, val)
    };
    let colors = led_colours(f, Ghost(|i: int| rainbow_moving_chevron_rule(hue, time, sat, val, i)));
    assert(colors@ =~= Seq::new(LED_COUNT as nat, |i: int| rainbow_moving_chevron_rule(old(rgb).hue, time_of(old(rgb).anim_tick, old(rgb).speed, 4), old(rgb).sat, old(rgb).val, i)));
    rgb.paint(&colors);
}

/// Mode 9: ALPHAS_MODS — the edge keys (x <= 15, x >= 170 or y >= 45) at hue `hue + speed`, the others at `hue`.
pub open spec fn alphas_mods_rule(c1: Rgb, c2: Rgb, i: int) -> Rgb {
    let (px, py) = led_pos(i);
    if px <= 15 || px >= 170 || py >= 45 { c2 } else { c1 }
}

pub fn render_alphas_mods(rgb: &mut RgbMatrix)
    ensures
        painted(*old(rgb), *final(rgb), Seq::new(LED_COUNT as nat, |i: int| alphas_mods_rule(hsv_to_rgb_of(old(rgb).hue, old(rgb).sat, old(rgb).val), hsv_to_rgb_of(old(rgb).hue.wrapping_add(old(rgb).speed), old(rgb).sat, old(rgb).val), i))),
{
    let c1 = hsv_to_rgb(rgb.hue, rgb.sat, rgb.val);
    let c2 = hsv_to_rgb(rgb.hue.wrapping_add(rgb.speed), rgb.sat, rgb.val);
    let f = |i: usize| -> (c: Rgb)
        requires i < LED_COUNT
        ensures c == alphas_mods_rule(c1, c2, i as int)
    {
        let (px, py) = LED_POSITIONS[i];
        let is_mod = px <= 15 || px >= 170 || py >= 45;
        if is_mod { c2 } else { c1 }
    };
    let colors = led_colours(f, Ghost(|i: int| alphas_mods_rule(c1, c2, i)));
    assert(colors@ =~= Seq::new(LED_COUNT as nat, |i: int| alphas_mods_rule(hsv_to_rgb_of(old(rgb).hue, old(rgb).sat, old(rgb).val), hsv_to_rgb_of(old(rgb).hue.wrapping_add(old(rgb).speed), old(rgb).sat, old(rgb).val), i)));
    rgb.paint(&colors);
}

/// Mode 10: BAND_PINWHEEL_SAT — saturation `scale8(sat - time - 3 * angle, sat)`.
pub open spec fn band_pinwheel_sat_rule(hue: u8, time: u8, sat: u8, val: u8, i: int) -> Rgb {
    let s_raw = sat.wrapping_sub(time).wrapping_sub(atan2_8_of(led_dy(i), led_dx(i)).wrapping_mul(3));
    hsv_to_rgb_of(hue, scale8_of(s_raw, sat), val)
}

pub fn render_band_pinwheel_sat(rgb: &mut RgbMatrix)
    ensures
        painted(*old(rgb), *final(rgb), Seq::new(LED_COUNT as nat, |i: int| band_pinwheel_sat_rule(old(rgb).hue, time_half_of(old(rgb).anim_tick, old(rgb).speed), old(rgb).sat, old(rgb).val, i))),
{
    let time = compute_time_speed_div(rgb.anim_tick, rgb.speed);
    let hue = rgb.hue;
    let sat = rgb.sat;
    let val = rgb.val;
    let f = |i: usize| -> (c: Rgb)
        requires i < LED_COUNT
        ensures c == band_pinwheel_sat_rule(hue, time, sat, val, i as int)
    {
        let (dx, dy) = led_offsets(i);
        let s_raw = sat.wrapping_sub(time).wrapping_sub(atan2_8(dy, dx).wrapping_mul(3));
        hsv_to_rgb(hue, scale8(s_raw, sat), val)
    };
    let colors = led_colours(f, Ghost(|i: int| band_pinwheel_sat_rule(hue, time, sat, val, i)));
    assert(colors@ =~= Seq::new(LED_COUNT as nat, |i: int| band_pinwheel_sat_rule(old(rgb).hue, time_half_of(old(rgb).anim_tick, old(rgb).speed), old(rgb).sat, old(rgb).val, i)));
    rgb.paint(&colors);
}

/// Mode 11: BAND_PINWHEEL_VAL — value `scale8(val - time - 3 * angle, val)`.
pub open spec fn band_pinwheel_val_rule(hue: u8, time: u8, sat: u8, val: u8, i: int) -> Rgb {
    let v_raw = val.wrapping_sub(time).wrapping_sub(atan2_8_of(led_dy(i), led_dx(i)).wrapping_mul(3));
    hsv_to_rgb_of(hue, sat, scale8_of(v_raw, val))
}

pub fn render_band_pinwheel_val(rgb: &mut RgbMatrix)
    ensures
        painted(*old(rgb), *final(rgb), Seq::new(LED_COUNT as nat, |i: int| band_pinwheel_val_rule(old(rgb).hue, time_half_of(old(rgb).anim_tick, old(rgb).speed), old(rgb).sat, old(rgb).val, i))),
{
    let time = compute_time_speed_div(rgb.anim_tick, rgb.speed);
    let hue = rgb.hue;
    let sat = rgb.sat;
    let val = rgb.val;
    let f = |i: usize| -> (c: Rgb)
        requires i < LED_COUNT
        ensures c == band_pinwheel_val_rule(hue, time, sat, val, i as int)
    {
        let (dx, dy) = led_offsets(i);
        let v_raw = val.wrapping_sub(time).wrapping_sub(atan2_8(dy, dx).wrapping_mul(3));
        hsv_to_rgb(hue, sat, scale8(v_raw, val))
    };
    let colors = led_colours(f, Ghost(|i: int| band_pinwheel_val_rule(hue, time, sat, val, i)));
    assert(colors@ =~= Seq::new(LED_COUNT as nat, |i: int| band_pinwheel_val_rule(old(rgb).hue, time_half_of(old(rgb).anim_tick, old(rgb).speed), old(rgb).sat, old(rgb).val, i)));
    rgb.paint(&colors);
}

/// The colour band level: `level - 8 * |scale8(x, 228) + 28 - time|`,
/// clamped at 0 and scaled by `level`.
pub open spec fn band_level(level: u8, time: u8, px: u8) -> u8 {
    let mid = scale8_of(px, 228).wrapping_add(28);
    let dist: int = if mid > time { mid - time } else { time - mid };
    let s: int = level - dist * 8;
    if s < 0 { 0 } else { scale8_of(s as u8, level) }
}

fn band(level: u8, time: u8, px: u8) -> (r: u8)
    ensures
        r == band_level(level, time, px),
{
    let mid = scale8(px, 228).wrapping_add(28);
    let dist = if mid > time { mid - time } else { time - mid };
    let s = (level as i16) - (dist as i16 * 8);
    if s < 0 { 0 } else { scale8(s as u8, level) }
}

/// Mode 12: BAND_SAT — saturation by the colour band around `time`.
pub open spec fn band_sat_rule(hue: u8, time: u8, sat: u8, val: u8, i: int) -> Rgb {
    hsv_to_rgb_of(hue, band_level(sat, time, led_pos(i).0), val)
}

pub fn render_band_sat(rgb: &mut RgbMatrix)
    ensures
        painted(*old(rgb), *final(rgb), Seq::new(LED_COUNT as nat, |i: int| band_sat_rule(old(rgb).hue, time_of(old(rgb).anim_tick, old(rgb).speed, 4), old(rgb).sat, old(rgb).val, i))),
{
    let time = compute_time(rgb.anim_tick, rgb.speed, 4);
    let hue = rgb.hue;
    let sat = rgb.sat;
    let val = rgb.val;
    let f = |i: usize| -> (c: Rgb)
        requires i < LED_COUNT
        ensures c == band_sat_rule(hue, time, sat, val, i as int)
    {
        let (px, _) = LED_POSITIONS[i];
        hsv_to_rgb(hue, band(sat, time, px), val)
    };
    let colors = led_colours(f, Ghost(|i: int| band_sat_rule(hue, time, sat, val, i)));
    assert(colors@ =~= Seq::new(LED_COUNT as nat, |i: int| band_sat_rule(old(rgb).hue, time_of(old(rgb).anim_tick, old(rgb).speed, 4), old(rgb).sat, old(rgb).val, i)));
    rgb.paint(&colors);
}

/// Mode 13: BAND_SPIRAL_SAT — saturation `scale8(sat + dist - time - angle, sat)`.
pub open spec fn band_spiral_sat_rule(hue: u8, time: u8, sat: u8, val: u8, i: int) -> Rgb {
    let s_raw = sat.wrapping_add(led_dist(i)).wrapping_sub(time).wrapping_sub(atan2_8_of(led_dy(i), led_dx(i)));
    hsv_to_rgb_of(hue, scale8_of(s_raw, sat), val)
}

pub fn render_band_spiral_sat(rgb: &mut RgbMatrix)
    ensures
        painted(*old(rgb), *final(rgb), Seq::new(LED_COUNT as nat, |i: int| band_spiral_sat_rule(old(rgb).hue, time_half_of(old(rgb).anim_tick, old(rgb).speed), old(rgb).sat, old(rgb).val, i))),
{
    let time = compute_time_speed_div(rgb.anim_tick, rgb.speed);
    let hue = rgb.hue;
    let sat = rgb.sat;
    let val = rgb.val;
    let f = |i: usize| -> (c: Rgb)
        requires i < LED_COUNT
        ensures c == band_spiral_sat_rule(hue, time, sat, val, i as int)
    {
        let (dx, dy) = led_offsets(i);
        let dist = led_distance(i);
        let s_raw = sat.wrapping_add(dist).wrapping_sub(time).wrapping_sub(atan2_8(dy, dx));
        hsv_to_rgb(hue, scale8(s_raw, sat), val)
    };
    let colors = led_colours(f, Ghost(|i: int| band_spiral_sat_rule(hue, time, sat, val, i)));
    assert(colors@ =~= Seq::new(LED_COUNT as nat, |i: int| band_spiral_sat_rule(old(rgb).hue, time_half_of(old(rgb).anim_tick, old(rgb).speed), old(rgb).sat, old(rgb).val, i)));
    rgb.paint(&colors);
}

/// Mode 14: BAND_SPIRAL_VAL — value `scale8(val + dist - time - angle, val)`.
pub open spec fn band_spiral_val_rule(hue: u8, time: u8, sat: u8, val: u8, i: int) -> Rgb {
    let v_raw = val.wrapping_add(led_dist(i)).wrapping_sub(time).wrapping_sub(atan2_8_of(led_dy(i), led_dx(i)));
    hsv_to_rgb_of(hue, sat, scale8_of(v_raw, val))
}

pub fn render_band_spiral_val(rgb: &mut RgbMatrix)
    ensures
        painted(*old(rgb), *final(rgb), Seq::new(LED_COUNT as nat, |i: int| band_spiral_val_rule(old(rgb).hue, time_half_of(old(rgb).anim_tick, old(rgb).speed), old(rgb).sat, old(rgb).val, i))),
{
    let time = compute_time_speed_div(rgb.anim_tick, rgb.speed);
    let hue = rgb.hue;
    let sat = rgb.sat;
    let val = rgb.val;
    let f = |i: usize| -> (c: Rgb)
        requires i < LED_COUNT
        ensures c == band_spiral_val_rule(hue, time, sat, val, i as int)
    {
        let (dx, dy) = led_offsets(i);
        let dist = led_distance(i);
        let v_raw = val.wrapping_add(dist).wrapping_sub(time).wrapping_sub(atan2_8(dy, dx));
        hsv_to_rgb(hue, sat, scale8(v_raw, val))
    };
    let colors = led_colours(f, Ghost(|i: int| band_spiral_val_rule(hue, time, sat, val, i)));
    assert(colors@ =~= Seq::new(LED_COUNT as nat, |i: int| band_spiral_val_rule(old(rgb).hue, time_half_of(old(rgb).anim_tick, old(rgb).speed), old(rgb).sat, old(rgb).val, i)));
    rgb.paint(&colors);
}

/// Mode 15: BAND_VAL — value by the colour band around `time`.
pub open spec fn band_val_rule(hue: u8, time: u8, sat: u8, val: u8, i: int) -> Rgb {
    hsv_to_rgb_of(hue, sat, band_level(val, time, led_pos(i).0))
}

pub fn render_band_val(rgb: &mut RgbMatrix)
    ensures
        painted(*old(rgb), *final(rgb), Seq::new(LED_COUNT as nat, |i: int| band_val_rule(old(rgb).hue, time_of(old(rgb).anim_tick, old(rgb).speed, 4), old(rgb).sat, old(rgb).val, i))),
{
    let time = compute_time(rgb.anim_tick, rgb.speed, 4);
    let hue = rgb.hue;
    let sat = rgb.sat;
    let val = rgb.val;
    let f = |i: usize| -> (c: Rgb)
        requires i < LED_COUNT
        ensures c == band_val_rule(hue, time, sat, val, i as int)
    {
        let (px, _) = LED_POSITIONS[i];
        hsv_to_rgb(hue, sat, band(val, time, px))
    };
    let colors = led_colours(f, Ghost(|i: int| band_val_rule(hue, time, sat, val, i)));
    assert(colors@ =~= Seq::new(LED_COUNT as nat, |i: int| band_val_rule(old(rgb).hue, time_of(old(rgb).anim_tick, old(rgb).speed, 4), old(rgb).sat, old(rgb).val, i)));
    rgb.paint(&colors);
}

/// Horizontal offset of LED `i` for the dual cycle: half the centre's x
/// less the (byte-wrapped) distance from the centre.
pub open spec fn dual_dx(i: int) -> i16 {
    (CENTER_X / 2 - abs8_of(led_dx(i) as i8)) as i16
}

/// Distance of LED `i` for the dual cycle.
pub open spec fn dual_dist(i: int) -> u8 {
    isqrt16((dual_dx(i) * dual_dx(i) + led_dy(i) * led_dy(i)) as u16)
}

/// Mode 16: CYCLE_OUT_IN_DUAL — hue `3 * dist + time` from the two half centres.
pub open spec fn cycle_out_in_dual_rule(time: u8, sat: u8, val: u8, i: int) -> Rgb {
    hsv_to_rgb_of(((3 * dual_dist(i)) as u16).wrapping_add(time as u16) as u8, sat, val)
}

pub fn render_cycle_out_in_dual(rgb: &mut RgbMatrix)
    ensures
        painted(*old(rgb), *final(rgb), Seq::new(LED_COUNT as nat, |i: int| cycle_out_in_dual_rule(time_half_of(old(rgb).anim_tick, old(rgb).speed), old(rgb).sat, old(rgb).val, i))),
{
    let time = compute_time_speed_div(rgb.anim_tick, rgb.speed);
    let sat = rgb.sat;
    let val = rgb.val;
    let f = |i: usize| -> (c: Rgb)
        requires i < LED_COUNT
        ensures c == cycle_out_in_dual_rule(time, sat, val, i as int)
    {
        let (cdx, dy) = led_offsets(i);
        let half_center_x = (CENTER_X as i16) / 2;
        let dx = half_center_x - abs8(cdx as i8) as i16;
        assert(0 <= dx * dx <= 83 * 83 && 0 <= dy * dy <= 25 * 25) by (nonlinear_arith)
            requires -83 <= dx <= 45, -25 <= dy <= 25;
        let dist = sqrt16((dx * dx + dy * dy) as u16);
        let hue = (3u16 * dist as u16).wrapping_add(time as u16);
        hsv_to_rgb(hue as u8, sat, val)
    };
    let colors = led_colours(f, Ghost(|i: int| cycle_out_in_dual_rule(time, sat, val, i)));
    assert(colors@ =~= Seq::new(LED_COUNT as nat, |i: int| cycle_out_in_dual_rule(time_half_of(old(rgb).anim_tick, old(rgb).speed), old(rgb).sat, old(rgb).val, i)));
    rgb.paint(&colors);
}

/// Mode 17: CYCLE_PINWHEEL — hue `angle + time`.
pub open spec fn cycle_pinwheel_rule(time: u8, sat: u8, val: u8, i: int) -> Rgb {
    hsv_to_rgb_of(atan2_8_of(led_dy(i), led_dx(i)).wrapping_add(time), sat, val)
}

pub fn render_cycle_pinwheel(rgb: &mut RgbMatrix)
    ensures
        painted(*old(rgb), *final(rgb), Seq::new(LED_COUNT as nat, |i: int| cycle_pinwheel_rule(time_half_of(old(rgb).anim_tick, old(rgb).speed), old(rgb).sat, old(rgb).val, i))),
{
    let time = compute_time_speed_div(rgb.anim_tick, rgb.speed);
    let sat = rgb.sat;
    let val = rgb.val;
    let f = |i: usize| -> (c: Rgb)
        requires i < LED_COUNT
        ensures c == cycle_pinwheel_rule(time, sat, val, i as int)
    {
        let (dx, dy) = led_offsets(i);
        hsv_to_rgb(atan2_8(dy, dx).wrapping_add(time), sat, val)
    };
    let colors = led_colours(f, Ghost(|i: int| cycle_pinwheel_rule(time, sat, val, i)));
    assert(colors@ =~= Seq::new(LED_COUNT as nat, |i: int| cycle_pinwheel_rule(time_half_of(old(rgb).anim_tick, old(rgb).speed), old(rgb).sat, old(rgb).val, i)));
    rgb.paint(&colors);
}

/// Mode 18: CYCLE_SPIRAL — hue `dist - time - angle`.
pub open spec fn cycle_spiral_rule(time: u8, sat: u8, val: u8, i: int) -> Rgb {
    hsv_to_rgb_of(led_dist(i).wrapping_sub(time).wrapping_sub(atan2_8_of(led_dy(i), led_dx(i))), sat, val)
}

pub fn render_cycle_spiral(rgb: &mut RgbMatrix)
    ensures
        painted(*old(rgb), *final(rgb), Seq::new(LED_COUNT as nat, |i: int| cycle_spiral_rule(time_half_of(old(rgb).anim_tick, old(rgb).speed), old(rgb).sat, old(rgb).val, i))),
{
    let time = compute_time_speed_div(rgb.anim_tick, rgb.speed);
    let sat = rgb.sat;
    let val = rgb.val;
    let f = |i: usize| -> (c: Rgb)
        requires i < LED_COUNT
        ensures c == cycle_spiral_rule(time, sat, val, i as int)
    {
        let (dx, dy) = led_offsets(i);
        let dist = led_distance(i);
        hsv_to_rgb(dist.wrapping_sub(time).wrapping_sub(atan2_8(dy, dx)), sat, val)
    };
    let colors = led_colours(f, Ghost(|i: int| cycle_spiral_rule(time, sat, val, i)));
    assert(colors@ =~= Seq::new(LED_COUNT as nat, |i: int| cycle_spiral_rule(time_half_of(old(rgb).anim_tick, old(rgb).speed), old(rgb).sat, old(rgb).val, i)));
    rgb.paint(&colors);
}

/// A byte wave recentred on 0: `x - 128` as a signed byte.
pub open spec fn centred(x: u8) -> i8 {
    (x - 128) as i8
}

/// Hue offset of a beacon: `(dy * kc * cos + dx_term * ks * sin) / 128`,
/// the sum taken as a wrapping 16-bit value and the quotient truncated
/// (toward zero) to a signed byte.
pub open spec fn beacon_delta(sum: int) -> i8 {
    tdiv((sum as i16) as int, 128) as i8
}

fn beacon_hue(hue: u8, sum: i32) -> (h: u8)
    ensures
        h == (hue + beacon_delta(sum as int)) as u8,
{
    let s16 = sum as i16;
    let q = trunc_div(s16 as i32, 128);
    assert(-256 <= q <= 256) by {
        assert(-32768 <= s16 <= 32767);
    }
    let delta = q as i8;
    (hue as i16 + delta as i16) as u8
}

/// Mode 20: DUAL_BEACON — hue `hue + (dy * cos + dx * sin) / 128`.
pub open spec fn dual_beacon_rule(hue: u8, cos_v: i8, sin_v: i8, sat: u8, val: u8, i: int) -> Rgb {
    hsv_to_rgb_of((hue + beacon_delta(led_dy(i) * cos_v + led_dx(i) * sin_v)) as u8, sat, val)
}

pub fn render_dual_beacon(rgb: &mut RgbMatrix)
    ensures
        painted(*old(rgb), *final(rgb), Seq::new(LED_COUNT as nat, |i: int| dual_beacon_rule(old(rgb).hue, centred(cos8_of(time_of(old(rgb).anim_tick, old(rgb).speed, 4))), centred(sin8_of(time_of(old(rgb).anim_tick, old(rgb).speed, 4))), old(rgb).sat, old(rgb).val, i))),
{
    let time = compute_time(rgb.anim_tick, rgb.speed, 4);
    let cos_v: i8 = (cos8(time) as i16 - 128) as i8;
    let sin_v: i8 = (sin8(time) as i16 - 128) as i8;
    let hue = rgb.hue;
    let sat = rgb.sat;
    let val = rgb.val;
    let f = |i: usize| -> (c: Rgb)
        requires i < LED_COUNT
        ensures c == dual_beacon_rule(hue, cos_v, sin_v, sat, val, i as int)
    {
        let (dx, dy) = led_offsets(i);
        assert(-25 * 128 <= dy * cos_v <= 25 * 128 && -134 * 128 <= dx * sin_v <= 134 * 128) by (nonlinear_arith)
            requires -90 <= dx <= 134, -25 <= dy <= 25, -128 <= cos_v <= 127, -128 <= sin_v <= 127;
        let sum = (dy as i32) * (cos_v as i32) + (dx as i32) * (sin_v as i32);
        hsv_to_rgb(beacon_hue(hue, sum), sat, val)
    };
    let colors = led_colours(f, Ghost(|i: int| dual_beacon_rule(hue, cos_v, sin_v, sat, val, i)));
    assert(colors@ =~= Seq::new(LED_COUNT as nat, |i: int| dual_beacon_rule(old(rgb).hue, centred(cos8_of(time_of(old(rgb).anim_tick, old(rgb).speed, 4))), centred(sin8_of(time_of(old(rgb).anim_tick, old(rgb).speed, 4))), old(rgb).sat, old(rgb).val, i)));
    rgb.paint(&colors);
}

/// Mode 21: FLOWER_BLOOMING — hue `3x - 3y ± time` (+ below the centre line, where red and blue swap).
pub open spec fn flower_blooming_rule(time: u8, sat: u8, val: u8, i: int) -> Rgb {
    let (px, py) = led_pos(i);
    let base = ((px * 3) as u16).wrapping_sub((py * 3) as u16);
    if py > CENTER_Y {
        let c = hsv_to_rgb_of(base.wrapping_add(time as u16) as u8, sat, val);
        (c.2, c.1, c.0)
    } else {
        hsv_to_rgb_of(base.wrapping_sub(time as u16) as u8, sat, val)
    }
}

pub fn render_flower_blooming(rgb: &mut RgbMatrix)
    ensures
        painted(*old(rgb), *final(rgb), Seq::new(LED_COUNT as nat, |i: int| flower_blooming_rule(time_of(old(rgb).anim_tick, old(rgb).speed, 10), old(rgb).sat, old(rgb).val, i))),
{
    let time = compute_time(rgb.anim_tick, rgb.speed, 10);
    let sat = rgb.sat;
    let val = rgb.val;
    let f = |i: usize| -> (c: Rgb)
        requires i < LED_COUNT
        ensures c == flower_blooming_rule(time, sat, val, i as int)
    {
        let (px, py) = LED_POSITIONS[i];
        let base = (px as u16 * 3).wrapping_sub(py as u16 * 3);
        if py > CENTER_Y {
            let (r, g, b) = hsv_to_rgb(base.wrapping_add(time as u16) as u8, sat, val);
            (b, g, r)
        } else {
            hsv_to_rgb(base.wrapping_sub(time as u16) as u8, sat, val)
        }
    };
    let colors = led_colours(f, Ghost(|i: int| flower_blooming_rule(time, sat, val, i)));
    assert(colors@ =~= Seq::new(LED_COUNT as nat, |i: int| flower_blooming_rule(time_of(old(rgb).anim_tick, old(rgb).speed, 10), old(rgb).sat, old(rgb).val, i)));
    rgb.paint(&colors);
}

/// Mode 22: HUE_BREATHING — all LEDs at a hue breathing 12 steps up.
pub open spec fn hue_breathing_colour(m: RgbMatrix) -> Rgb {
    hsv_to_rgb_of(m.hue.wrapping_add(scale8_of(breath_level(time_of(m.anim_tick, m.speed, 8)), 12)), m.sat, m.val)
}

pub fn render_hue_breathing(rgb: &mut RgbMatrix)
    ensures
        all_set(*old(rgb), *final(rgb), hue_breathing_colour(*old(rgb))),
{
    let huedelta: u8 = 12;
    let time = compute_time(rgb.anim_tick, rgb.speed, 8);
    let raw = sin8(time);
    let diff: i8 = (raw as i16 - 128i16) as i8;
    let hue = rgb.hue.wrapping_add(scale8(abs8(diff).wrapping_mul(2), huedelta));
    let (r, g, b) = hsv_to_rgb(hue, rgb.sat, rgb.val);
    rgb.set_all(r, g, b);
}

/// Mode 23: HUE_PENDULUM — hue swinging 12 steps with `sin8(time) + x`.
pub open spec fn hue_pendulum_rule(hue: u8, wave: u8, sat: u8, val: u8, i: int) -> Rgb {
    let d = abs8_of(centred(wave.wrapping_add(led_pos(i).0))).wrapping_mul(2);
    hsv_to_rgb_of(hue.wrapping_add(scale8_of(d, 12)), sat, val)
}

pub fn render_hue_pendulum(rgb: &mut RgbMatrix)
    ensures
        painted(*old(rgb), *final(rgb), Seq::new(LED_COUNT as nat, |i: int| hue_pendulum_rule(old(rgb).hue, sin8_of(time_of(old(rgb).anim_tick, old(rgb).speed, 4)), old(rgb).sat, old(rgb).val, i))),
{
    let time = compute_time(rgb.anim_tick, rgb.speed, 4);
    let wave = sin8(time);
    let hue = rgb.hue;
    let sat = rgb.sat;
    let val = rgb.val;
    let f = |i: usize| -> (c: Rgb)
        requires i < LED_COUNT
        ensures c == hue_pendulum_rule(hue, wave, sat, val, i as int)
    {
        let (px, _) = LED_POSITIONS[i];
        let combined = wave.wrapping_add(px);
        let diff: i8 = (combined as i16 - 128i16) as i8;
        hsv_to_rgb(hue.wrapping_add(scale8(abs8(diff).wrapping_mul(2), 12)), sat, val)
    };
    let colors = led_colours(f, Ghost(|i: int| hue_pendulum_rule(hue, wave, sat, val, i)));
    assert(colors@ =~= Seq::new(LED_COUNT as nat, |i: int| hue_pendulum_rule(old(rgb).hue, sin8_of(time_of(old(rgb).anim_tick, old(rgb).speed, 4)), old(rgb).sat, old(rgb).val, i)));
    rgb.paint(&colors);
}

/// Mode 24: HUE_WAVE — hue `hue + scale8(|x - time|, 24)`.
pub open spec fn hue_wave_rule(hue: u8, time: u8, sat: u8, val: u8, i: int) -> Rgb {
    let px = led_pos(i).0;
    let d: u8 = if px > time { (px - time) as u8 } else { (time - px) as u8 };
    hsv_to_rgb_of(hue.wrapping_add(scale8_of(d, 24)), sat, val)
}

pub fn render_hue_wave(rgb: &mut RgbMatrix)
    ensures
        painted(*old(rgb), *final(rgb), Seq::new(LED_COUNT as nat, |i: int| hue_wave_rule(old(rgb).hue, time_of(old(rgb).anim_tick, old(rgb).speed, 4), old(rgb).sat, old(rgb).val, i))),
{
    let time = compute_time(rgb.anim_tick, rgb.speed, 4);
    let hue = rgb.hue;
    let sat = rgb.sat;
    let val = rgb.val;
    let f = |i: usize| -> (c: Rgb)
        requires i < LED_COUNT
        ensures c == hue_wave_rule(hue, time, sat, val, i as int)
    {
        let (px, _) = LED_POSITIONS[i];
        let diff = if px > time { px - time } else { time - px };
        hsv_to_rgb(hue.wrapping_add(scale8(diff, 24)), sat, val)
    };
    let colors = led_colours(f, Ghost(|i: int| hue_wave_rule(hue, time, sat, val, i)));
    assert(colors@ =~= Seq::new(LED_COUNT as nat, |i: int| hue_wave_rule(old(rgb).hue, time_of(old(rgb).anim_tick, old(rgb).speed, 4), old(rgb).sat, old(rgb).val, i)));
    rgb.paint(&colors);
}

/// Mode 29: RAINBOW_BEACON — hue `hue + (2 dy cos + 2 dx sin) / 128`.
pub open spec fn rainbow_beacon_rule(hue: u8, cos_v: i8, sin_v: i8, sat: u8, val: u8, i: int) -> Rgb {
    hsv_to_rgb_of((hue + beacon_delta(led_dy(i) * 2 * cos_v + led_dx(i) * 2 * sin_v)) as u8, sat, val)
}

pub fn render_rainbow_beacon(rgb: &mut RgbMatrix)
    ensures
        painted(*old(rgb), *final(rgb), Seq::new(LED_COUNT as nat, |i: int| rainbow_beacon_rule(old(rgb).hue, centred(cos8_of(time_of(old(rgb).anim_tick, old(rgb).speed, 4))), centred(sin8_of(time_of(old(rgb).anim_tick, old(rgb).speed, 4))), old(rgb).sat, old(rgb).val, i))),
{
    let time = compute_time(rgb.anim_tick, rgb.speed, 4);
    let cos_v: i8 = (cos8(time) as i16 - 128) as i8;
    let sin_v: i8 = (sin8(time) as i16 - 128) as i8;
    let hue = rgb.hue;
    let sat = rgb.sat;
    let val = rgb.val;
    let f = |i: usize| -> (c: Rgb)
        requires i < LED_COUNT
        ensures c == rainbow_beacon_rule(hue, cos_v, sin_v, sat, val, i as int)
    {
        let (dx, dy) = led_offsets(i);
        assert(-50 * 128 <= dy * 2 * cos_v <= 50 * 128 && -268 * 128 <= dx * 2 * sin_v <= 268 * 128) by (nonlinear_arith)
            requires -90 <= dx <= 134, -25 <= dy <= 25, -128 <= cos_v <= 127, -128 <= sin_v <= 127;
        let sum = (dy as i32) * 2 * (cos_v as i32) + (dx as i32) * 2 * (sin_v as i32);
        hsv_to_rgb(beacon_hue(hue, sum), sat, val)
    };
    let colors = led_colours(f, Ghost(|i: int| rainbow_beacon_rule(hue, cos_v, sin_v, sat, val, i)));
    assert(colors@ =~= Seq::new(LED_COUNT as nat, |i: int| rainbow_beacon_rule(old(rgb).hue, centred(cos8_of(time_of(old(rgb).anim_tick, old(rgb).speed, 4))), centred(sin8_of(time_of(old(rgb).anim_tick, old(rgb).speed, 4))), old(rgb).sat, old(rgb).val, i)));
    rgb.paint(&colors);
}

/// Mode 30: RAINBOW_PINWHEELS — hue `hue + (3 dy cos + 3 (56 - |dx|) sin) / 128`.
pub open spec fn rainbow_pinwheels_rule(hue: u8, cos_v: i8, sin_v: i8, sat: u8, val: u8, i: int) -> Rgb {
    let px = led_pos(i).0;
    let dx_abs: int = if px > CENTER_X { px - CENTER_X } else { CENTER_X - px };
    hsv_to_rgb_of((hue + beacon_delta(led_dy(i) * 3 * cos_v + (56 - dx_abs) * 3 * sin_v)) as u8, sat, val)
}

pub fn render_rainbow_pinwheels(rgb: &mut RgbMatrix)
    ensures
        painted(*old(rgb), *final(rgb), Seq::new(LED_COUNT as nat, |i: int| rainbow_pinwheels_rule(old(rgb).hue, centred(cos8_of(time_of(old(rgb).anim_tick, old(rgb).speed, 4))), centred(sin8_of(time_of(old(rgb).anim_tick, old(rgb).speed, 4))), old(rgb).sat, old(rgb).val, i))),
{
    let time = compute_time(rgb.anim_tick, rgb.speed, 4);
    let cos_v: i8 = (cos8(time) as i16 - 128) as i8;
    let sin_v: i8 = (sin8(time) as i16 - 128) as i8;
    let hue = rgb.hue;
    let sat = rgb.sat;
    let val = rgb.val;
    let f = |i: usize| -> (c: Rgb)
        requires i < LED_COUNT
        ensures c == rainbow_pinwheels_rule(hue, cos_v, sin_v, sat, val, i as int)
    {
        let (_, dy) = led_offsets(i);
        let (px, _) = LED_POSITIONS[i];
        let dx_abs = if px > CENTER_X { px - CENTER_X } else { CENTER_X - px };
        let w = 56 - dx_abs as i32;
        assert(-75 * 128 <= dy * 3 * cos_v <= 75 * 128 && -600 * 128 <= w * 3 * sin_v <= 600 * 128) by (nonlinear_arith)
            requires -200 <= w <= 56, -25 <= dy <= 25, -128 <= cos_v <= 127, -128 <= sin_v <= 127;
        let sum = (dy as i32) * 3 * (cos_v as i32) + w * 3 * (sin_v as i32);
        hsv_to_rgb(beacon_hue(hue, sum), sat, val)
    };
    let colors = led_colours(f, Ghost(|i: int| rainbow_pinwheels_rule(hue, cos_v, sin_v, sat, val, i)));
    assert(colors@ =~= Seq::new(LED_COUNT as nat, |i: int| rainbow_pinwheels_rule(old(rgb).hue, centred(cos8_of(time_of(old(rgb).anim_tick, old(rgb).speed, 4))), centred(sin8_of(time_of(old(rgb).anim_tick, old(rgb).speed, 4))), old(rgb).sat, old(rgb).val, i)));
    rgb.paint(&colors);
}

/// Mode 32: RIVERFLOW — each LED breathing with its own phase `tick + 315 i`.
pub open spec fn riverflow_rule(tick: u16, speed: u8, hue: u8, sat: u8, val: u8, i: int) -> Rgb {
    let timed = tick.wrapping_add((i * 315) as u16);
    let t8 = scale16by8_of(timed, speed / 8) as u8;
    hsv_to_rgb_of(hue, sat, scale8_of(breath_level(t8), val))
}

pub fn render_riverflow(rgb: &mut RgbMatrix)
    ensures
        painted(*old(rgb), *final(rgb), Seq::new(LED_COUNT as nat, |i: int| riverflow_rule(old(rgb).anim_tick, old(rgb).speed, old(rgb).hue, old(rgb).sat, old(rgb).val, i))),
{
    let tick = rgb.anim_tick;
    let speed = rgb.speed;
    let hue = rgb.hue;
    let sat = rgb.sat;
    let val = rgb.val;
    let f = |i: usize| -> (c: Rgb)
        requires i < LED_COUNT
        ensures c == riverflow_rule(tick, speed, hue, sat, val, i as int)
    {
        let timed = tick.wrapping_add((i * 315) as u16);
        let t8 = scale16by8(timed, speed / 8);
        let raw = sin8(t8 as u8);
        let diff: i8 = (raw as i16 - 128i16) as i8;
        let v = scale8(abs8(diff).wrapping_mul(2), val);
        hsv_to_rgb(hue, sat, v)
    };
    let colors = led_colours(f, Ghost(|i: int| riverflow_rule(tick, speed, hue, sat, val, i)));
    assert(colors@ =~= Seq::new(LED_COUNT as nat, |i: int| riverflow_rule(old(rgb).anim_tick, old(rgb).speed, old(rgb).hue, old(rgb).sat, old(rgb).val, i)));
    rgb.paint(&colors);
}

/// Mode 49: SOLID_COLOR — all LEDs at the current colour.
pub fn render_solid_color(rgb: &mut RgbMatrix)
    ensures
        all_set(*old(rgb), *final(rgb), hsv_to_rgb_of(old(rgb).hue, old(rgb).sat, old(rgb).val)),
{
    let (r, g, b) = hsv_to_rgb(rgb.hue, rgb.sat, rgb.val);
    rgb.set_all(r, g, b);
}

// ── Reactive effects ─────────────────────────────────────────────────
/// The hits the reactive effects read: the first `hit_count` ring entries,
/// at most 20.
pub open spec fn hit_end(m: RgbMatrix) -> int {
    if m.hit_count < 20 { m.hit_count as int } else { 20 }
}

/// Horizontal offset of LED `i` from hit `j`.
pub open spec fn hit_dx(m: RgbMatrix, i: int, j: int) -> int {
    led_pos(i).0 - m.hit_x@[j]
}

/// Vertical offset of LED `i` from hit `j`.
pub open spec fn hit_dy(m: RgbMatrix, i: int, j: int) -> int {
    led_pos(i).1 - m.hit_y@[j]
}

/// Distance of LED `i` from hit `j` (the squared distance taken as a
/// wrapping 16-bit value).
pub open spec fn hit_dist(m: RgbMatrix, i: int, j: int) -> u8 {
    isqrt16((hit_dx(m, i, j) * hit_dx(m, i, j) + hit_dy(m, i, j) * hit_dy(m, i, j)) as u16)
}

/// Time since hit `j`, scaled by `speed + 1` (saturating).
pub open spec fn hit_time(m: RgbMatrix, j: int) -> u16 {
    scale16by8_of(m.anim_tick.wrapping_sub(m.hit_tick@[j]), qadd8_of(m.speed, 1))
}

/// The value of the cross effect: `255 - min(255, tick + dist + 16 min(|dx|, |dy|))`
/// (the 16-fold offsets clamped to 255, the sums wrapping at 16 bits).
pub open spec fn cross_math_of(dx: i16, dy: i16, dist: u8, tick: u16) -> (u8, u8) {
    let abs_dx: int = if dx < 0 { -dx } else { dx as int };
    let abs_dy: int = if dy < 0 { -dy } else { dy as int };
    let dxc: u16 = if abs_dx * 16 > 255 { 255 } else { (abs_dx * 16) as u16 };
    let dyc: u16 = if abs_dy * 16 > 255 { 255 } else { (abs_dy * 16) as u16 };
    let e1 = tick.wrapping_add(dist as u16).wrapping_add(if dxc > dyc { dyc } else { dxc });
    let e = if e1 > 255 { 255u16 } else { e1 };
    (0u8, (255u16).wrapping_sub(e) as u8)
}

/// Cross effect math.
pub fn fn_solid_reactive_cross_math(dx: i16, dy: i16, dist: u8, tick: u16) -> (r: (u8, u8))
    requires
        -2047 <= dx <= 2047,
        -2047 <= dy <= 2047,
    ensures
        r == cross_math_of(dx, dy, dist, tick),
{
    let mut effect = tick.wrapping_add(dist as u16);
    let abs_dx: i16 = if dx < 0 { -dx } else { dx };
    let abs_dy: i16 = if dy < 0 { -dy } else { dy };
    let dx_clamped = (if abs_dx * 16 > 255 { 255 } else { abs_dx * 16 }) as u16;
    let dy_clamped = (if abs_dy * 16 > 255 { 255 } else { abs_dy * 16 }) as u16;
    effect = effect.wrapping_add(if dx_clamped > dy_clamped { dy_clamped } else { dx_clamped });
    if effect > 255 {
        effect = 255;
    }
    (0, 255u16.wrapping_sub(effect) as u8)
}

/// The reactive splash variants.
#[derive(Clone, Copy, PartialEq, Eq, Structural)]
pub enum SplashKind {
    /// Hue and value ripple out from the hits.
    Splash,
    /// The value ripples out from the hits.
    Solid,
    /// The value lights the row and column of the hits.
    Cross,
    /// The value lights a cross near the hits; the hue follows the last hit.
    Nexus,
    /// A wide, fast-fading glow around the hits.
    Wide,
}

/// Effect strength of hit `j` at LED `i` for the distance-based variants,
/// 0 (full) to 255 (none).
pub open spec fn hit_effect(m: RgbMatrix, i: int, j: int, kind: SplashKind) -> u16 {
    let dist = hit_dist(m, i, j);
    let tick = hit_time(m, j);
    let dx = hit_dx(m, i, j);
    let dy = hit_dy(m, i, j);
    if kind == SplashKind::Wide {
        let e = tick.wrapping_add((dist * 5) as u16);
        if e > 255 { 255 } else { e }
    } else {
        let e1 = tick.wrapping_sub(dist as u16);
        let e = if e1 > 255 { 255u16 } else { e1 };
        if kind == SplashKind::Nexus && (dist > 72 || (!(-8 <= dx <= 8) && !(-8 <= dy <= 8))) {
            255
        } else {
            e
        }
    }
}

/// Hue, value and whether a hit was seen, after hits `start..end` at LED `i`.
pub open spec fn splash_acc(m: RgbMatrix, i: int, kind: SplashKind, start: int, end: int) -> (u8, u8, bool)
    decreases end - start,
{
    if end <= start {
        (m.hue, 0u8, false)
    } else {
        let (h, v, _) = splash_acc(m, i, kind, start, end - 1);
        let j = end - 1;
        if kind == SplashKind::Cross {
            let add = cross_math_of(hit_dx(m, i, j) as i16, hit_dy(m, i, j) as i16, hit_dist(m, i, j), hit_time(m, j)).1;
            (h, qadd8_of(v, add), true)
        } else {
            let e = hit_effect(m, i, j, kind);
            let add = (255u16).wrapping_sub(e) as u8;
            let h2 = if kind == SplashKind::Splash {
                h.wrapping_add(e as u8)
            } else if kind == SplashKind::Nexus {
                m.hue.wrapping_add(tdiv(hit_dy(m, i, j), 4) as u8)
            } else {
                h
            };
            (h2, qadd8_of(v, add), true)
        }
    }
}

/// The colour of LED `i` under a splash variant over hits `start..`: the
/// accumulated value scaled by `val`; the hue accumulated for splash and
/// nexus, else the current hue.
pub open spec fn splash_colour(m: RgbMatrix, i: int, kind: SplashKind, start: int) -> Rgb {
    let (h, v, _) = splash_acc(m, i, kind, start, hit_end(m));
    let hue = if kind == SplashKind::Splash || kind == SplashKind::Nexus { h } else { m.hue };
    hsv_to_rgb_of(hue, m.sat, scale8_of(v, m.val))
}

/// Accumulates the hits `start..` at LED `i`.
fn hit_fold(rgb: &RgbMatrix, i: usize, start: u8, kind: SplashKind) -> (r: (u8, u8, bool))
    requires
        i < LED_COUNT,
    ensures
        r == splash_acc(*rgb, i as int, kind, start as int, hit_end(*rgb)),
{
    let count = rgb.hit_count;
    let end: u8 = if count < 20 { count } else { 20 };
    let (px, py) = LED_POSITIONS[i];
    let mut hsv_h = rgb.hue;
    let mut hsv_v: u8 = 0;
    let mut any_hit = false;
    let mut j: u8 = start;
    if j > end {
        j = end;
    }
    proof {
        if start > end {
            assert(splash_acc(*rgb, i as int, kind, start as int, hit_end(*rgb)) == (rgb.hue, 0u8, false));
        }
    }
    while j < end
        invariant
            end == hit_end(*rgb),
            end <= 20,
            i < LED_COUNT,
            (px, py) == LED_POSITIONS@[i as int],
            (start <= end ==> start <= j) && j <= end,
            start > end ==> j == end && (hsv_h, hsv_v, any_hit) == (rgb.hue, 0u8, false)
                && splash_acc(*rgb, i as int, kind, start as int, hit_end(*rgb)) == (rgb.hue, 0u8, false),
            start <= end ==> (hsv_h, hsv_v, any_hit) == splash_acc(*rgb, i as int, kind, start as int, j as int),
        decreases end - j,
    {
        let ju = j as usize;
        let dx = (px as i32) - (rgb.hit_x[ju] as i32);
        let dy = (py as i32) - (rgb.hit_y[ju] as i32);
        assert(0 <= dx * dx <= 255 * 255 && 0 <= dy * dy <= 255 * 255) by (nonlinear_arith)
            requires -255 <= dx <= 255, -255 <= dy <= 255;
        let dist = sqrt16((dx * dx + dy * dy) as u16);
        let elapsed = rgb.anim_tick.wrapping_sub(rgb.hit_tick[ju]);
        let tick = scale16by8(elapsed, qadd8(rgb.speed, 1));
        match kind {
            SplashKind::Cross => {
                let (_h, v) = fn_solid_reactive_cross_math(dx as i16, dy as i16, dist, tick);
                hsv_v = qadd8(hsv_v, v);
            },
            _ => {
                let mut effect: u16 = if kind == SplashKind::Wide {
                    tick.wrapping_add(dist as u16 * 5)
                } else {
                    tick.wrapping_sub(dist as u16)
                };
                if effect > 255 {
                    effect = 255;
                }
                if kind == SplashKind::Nexus {
                    if dist > 72 {
                        effect = 255;
                    }
                    if !(-8 <= dx && dx <= 8) && !(-8 <= dy && dy <= 8) {
                        effect = 255;
                    }
                    hsv_h = rgb.hue.wrapping_add(trunc_div(dy, 4) as u8);
                } else if kind == SplashKind::Splash {
                    hsv_h = hsv_h.wrapping_add(effect as u8);
                }
                hsv_v = qadd8(hsv_v, 255u16.wrapping_sub(effect) as u8);
            },
        }
        any_hit = true;
        j = j + 1;
    }
    (hsv_h, hsv_v, any_hit)
}

/// Paints every LED with a splash variant over hits `start..`.
fn render_splash_kind(rgb: &mut RgbMatrix, start: u8, kind: SplashKind)
    ensures
        painted(*old(rgb), *final(rgb), Seq::new(LED_COUNT as nat, |i: int| splash_colour(*old(rgb), i, kind, start as int))),
{
    let ghost m = *rgb;
    let snapshot: &RgbMatrix = rgb;
    let hue = snapshot.hue;
    let sat = snapshot.sat;
    let val = snapshot.val;
    let mut colors: Vec<(u8, u8, u8)> = Vec::new();
    let mut i: usize = 0;
    while i < LED_COUNT
        invariant
            i <= LED_COUNT,
            *snapshot == m,
            hue == m.hue && sat == m.sat && val == m.val,
            colors@ == Seq::new(i as nat, |k: int| splash_colour(m, k, kind, start as int)),
        decreases LED_COUNT - i,
    {
        let (h, v, _) = hit_fold(snapshot, i, start, kind);
        let hsv_h = if kind == SplashKind::Splash || kind == SplashKind::Nexus { h } else { hue };
        let c = hsv_to_rgb(hsv_h, sat, scale8(v, val));
        colors.push(c);
        i = i + 1;
        assert(colors@ =~= Seq::new(i as nat, |k: int| splash_colour(m, k, kind, start as int)));
    }
    rgb.paint(&colors);
}

/// Mode 35: SPLASH — hue and value ripple out from the latest hit.
pub fn render_splash(rgb: &mut RgbMatrix)
    ensures
        painted(
            *old(rgb),
            *final(rgb),
            Seq::new(LED_COUNT as nat, |i: int| splash_colour(*old(rgb), i, SplashKind::Splash, qsub8_of(old(rgb).hit_count, 1) as int)),
        ),
{
    let start = qsub8(rgb.hit_count, 1);
    render_splash_kind(rgb, start, SplashKind::Splash);
}

/// Mode 36: MULTISPLASH — hue and value ripple out from every hit.
pub fn render_multisplash(rgb: &mut RgbMatrix)
    ensures
        painted(
            *old(rgb),
            *final(rgb),
            Seq::new(LED_COUNT as nat, |i: int| splash_colour(*old(rgb), i, SplashKind::Splash, 0)),
        ),
{
    let start: u8 = 0;
    render_splash_kind(rgb, start, SplashKind::Splash);
}

/// Mode 37: SOLID_SPLASH — the value ripples out from the latest hit.
pub fn render_solid_splash(rgb: &mut RgbMatrix)
    ensures
        painted(
            *old(rgb),
            *final(rgb),
            Seq::new(LED_COUNT as nat, |i: int| splash_colour(*old(rgb), i, SplashKind::Solid, qsub8_of(old(rgb).hit_count, 1) as int)),
        ),
{
    let start = qsub8(rgb.hit_count, 1);
    render_splash_kind(rgb, start, SplashKind::Solid);
}

/// Mode 38: SOLID_MULTISPLASH — the value ripples out from every hit.
pub fn render_solid_multisplash(rgb: &mut RgbMatrix)
    ensures
        painted(
            *old(rgb),
            *final(rgb),
            Seq::new(LED_COUNT as nat, |i: int| splash_colour(*old(rgb), i, SplashKind::Solid, 0)),
        ),
{
    let start: u8 = 0;
    render_splash_kind(rgb, start, SplashKind::Solid);
}

/// Mode 39: SOLID_REACTIVE_CROSS — the row and column of the latest hit light up.
pub fn render_solid_reactive_cross(rgb: &mut RgbMatrix)
    ensures
        painted(
            *old(rgb),
            *final(rgb),
            Seq::new(LED_COUNT as nat, |i: int| splash_colour(*old(rgb), i, SplashKind::Cross, qsub8_of(old(rgb).hit_count, 1) as int)),
        ),
{
    let start = qsub8(rgb.hit_count, 1);
    render_splash_kind(rgb, start, SplashKind::Cross);
}

/// Mode 40: SOLID_REACTIVE_MULTICROSS — the rows and columns of every hit light up.
pub fn render_solid_reactive_multicross(rgb: &mut RgbMatrix)
    ensures
        painted(
            *old(rgb),
            *final(rgb),
            Seq::new(LED_COUNT as nat, |i: int| splash_colour(*old(rgb), i, SplashKind::Cross, 0)),
        ),
{
    let start: u8 = 0;
    render_splash_kind(rgb, start, SplashKind::Cross);
}

/// Mode 41: SOLID_REACTIVE_NEXUS — a cross near the latest hit; the hue follows its height.
pub fn render_solid_reactive_nexus_v2(rgb: &mut RgbMatrix)
    ensures
        painted(
            *old(rgb),
            *final(rgb),
            Seq::new(LED_COUNT as nat, |i: int| splash_colour(*old(rgb), i, SplashKind::Nexus, qsub8_of(old(rgb).hit_count, 1) as int)),
        ),
{
    let start = qsub8(rgb.hit_count, 1);
    render_splash_kind(rgb, start, SplashKind::Nexus);
}

/// Mode 42: SOLID_REACTIVE_MULTINEXUS — crosses near every hit; the hue follows the last.
pub fn render_solid_reactive_multinexus(rgb: &mut RgbMatrix)
    ensures
        painted(
            *old(rgb),
            *final(rgb),
            Seq::new(LED_COUNT as nat, |i: int| splash_colour(*old(rgb), i, SplashKind::Nexus, 0)),
        ),
{
    let start: u8 = 0;
    render_splash_kind(rgb, start, SplashKind::Nexus);
}

/// Mode 43: SOLID_REACTIVE_WIDE — a wide glow around the latest hit.
pub fn render_solid_reactive_wide(rgb: &mut RgbMatrix)
    ensures
        painted(
            *old(rgb),
            *final(rgb),
            Seq::new(LED_COUNT as nat, |i: int| splash_colour(*old(rgb), i, SplashKind::Wide, qsub8_of(old(rgb).hit_count, 1) as int)),
        ),
{
    let start = qsub8(rgb.hit_count, 1);
    render_splash_kind(rgb, start, SplashKind::Wide);
}

/// Mode 44: SOLID_REACTIVE_MULTIWIDE — a wide glow around every hit.
pub fn render_solid_reactive_multiwide(rgb: &mut RgbMatrix)
    ensures
        painted(
            *old(rgb),
            *final(rgb),
            Seq::new(LED_COUNT as nat, |i: int| splash_colour(*old(rgb), i, SplashKind::Wide, 0)),
        ),
{
    let start: u8 = 0;
    render_splash_kind(rgb, start, SplashKind::Wide);
}

/// The longest reactive time: 65535 scaled down by `speed + 1` (saturating).
pub open spec fn reactive_max(m: RgbMatrix) -> u32 {
    (65535int / (qadd8_of(m.speed, 1) as int)) as u32
}

/// The time since the latest of hits `0..n` at LED `i`, capped at the
/// longest reactive time (which is also the time without such a hit).
pub open spec fn reactive_search(m: RgbMatrix, i: int, n: int) -> u32
    decreases n,
{
    if n <= 0 {
        reactive_max(m)
    } else if m.hit_index@[n - 1] == i {
        let e = m.anim_tick.wrapping_sub(m.hit_tick@[n - 1]) as u32;
        if e < reactive_max(m) { e } else { reactive_max(m) }
    } else {
        reactive_search(m, i, n - 1)
    }
}

/// The reactive offset of LED `i`: the time since its latest hit, scaled
/// by `speed + 1`. More than 20 hits give the longest time.
pub open spec fn reactive_offset_of(m: RgbMatrix, i: int) -> u16 {
    let tick = if m.hit_count > 20 { reactive_max(m) } else { reactive_search(m, i, m.hit_count as int) };
    scale16by8_of(tick as u16, qadd8_of(m.speed, 1))
}

fn reactive_offset(rgb: &RgbMatrix, i: usize) -> (o: u16)
    requires
        i < LED_COUNT,
    ensures
        o == reactive_offset_of(*rgb, i as int),
{
    let q = qadd8(rgb.speed, 1);
    let max_tick = 65535u32 / q as u32;
    assert(max_tick <= 65535) by (nonlinear_arith)
        requires max_tick == 65535int / (q as int), q >= 1;
    let mut tick = max_tick;
    let current = rgb.anim_tick;
    if rgb.hit_count <= 20 {
        let mut j: u8 = rgb.hit_count;
        let mut found = false;
        while j > 0
            invariant
                j <= rgb.hit_count <= 20,
                max_tick == reactive_max(*rgb),
                max_tick <= 65535,
                current == rgb.anim_tick,
                i < LED_COUNT,
                found ==> j == 0 && tick == reactive_search(*rgb, i as int, rgb.hit_count as int),
                !found ==> tick == max_tick && reactive_search(*rgb, i as int, rgb.hit_count as int)
                    == reactive_search(*rgb, i as int, j as int),
            decreases j,
        {
            let k = (j - 1) as usize;
            if rgb.hit_index[k] == i as u8 {
                let e = current.wrapping_sub(rgb.hit_tick[k]) as u32;
                if e < tick {
                    tick = e;
                }
                found = true;
                j = 0;
            } else {
                j = j - 1;
            }
        }
    }
    scale16by8(tick as u16, qadd8(rgb.speed, 1))
}

/// Mode 33: SOLID_REACTIVE — hue shifted up to 64 steps by recent hits.
pub open spec fn solid_reactive_colour(m: RgbMatrix, i: int) -> Rgb {
    let offset = reactive_offset_of(m, i);
    hsv_to_rgb_of(m.hue.wrapping_add(scale8_of((255u8).wrapping_sub(offset as u8), 64)), m.sat, m.val)
}

pub fn render_solid_reactive(rgb: &mut RgbMatrix)
    ensures
        painted(*old(rgb), *final(rgb), Seq::new(LED_COUNT as nat, |i: int| solid_reactive_colour(*old(rgb), i))),
{
    let ghost m = *rgb;
    let snapshot: &RgbMatrix = rgb;
    let mut colors: Vec<(u8, u8, u8)> = Vec::new();
    let mut i: usize = 0;
    while i < LED_COUNT
        invariant
            i <= LED_COUNT,
            *snapshot == m,
            colors@ == Seq::new(i as nat, |k: int| solid_reactive_colour(m, k)),
        decreases LED_COUNT - i,
    {
        let offset = reactive_offset(snapshot, i);
        let hue = snapshot.hue.wrapping_add(scale8(255u8.wrapping_sub(offset as u8), 64));
        colors.push(hsv_to_rgb(hue, snapshot.sat, snapshot.val));
        i = i + 1;
        assert(colors@ =~= Seq::new(i as nat, |k: int| solid_reactive_colour(m, k)));
    }
    rgb.paint(&colors);
}

/// Mode 34: SOLID_REACTIVE_SIMPLE — value lit by recent hits.
pub open spec fn solid_reactive_simple_colour(m: RgbMatrix, i: int) -> Rgb {
    let offset = reactive_offset_of(m, i);
    hsv_to_rgb_of(m.hue, m.sat, scale8_of((255u8).wrapping_sub(offset as u8), m.val))
}

pub fn render_solid_reactive_simple(rgb: &mut RgbMatrix)
    ensures
        painted(*old(rgb), *final(rgb), Seq::new(LED_COUNT as nat, |i: int| solid_reactive_simple_colour(*old(rgb), i))),
{
    let ghost m = *rgb;
    let snapshot: &RgbMatrix = rgb;
    let mut colors: Vec<(u8, u8, u8)> = Vec::new();
    let mut i: usize = 0;
    while i < LED_COUNT
        invariant
            i <= LED_COUNT,
            *snapshot == m,
            colors@ == Seq::new(i as nat, |k: int| solid_reactive_simple_colour(m, k)),
        decreases LED_COUNT - i,
    {
        let offset = reactive_offset(snapshot, i);
        let val = scale8(255u8.wrapping_sub(offset as u8), snapshot.val);
        colors.push(hsv_to_rgb(snapshot.hue, snapshot.sat, val));
        i = i + 1;
        assert(colors@ =~= Seq::new(i as nat, |k: int| solid_reactive_simple_colour(m, k)));
    }
    rgb.paint(&colors);
}

/// The hue of the first nexus variant: shifted by a quarter of the last
/// hit's height above the centre (the centre itself when the last hit is
/// past the ring).
pub open spec fn nexus_hue(m: RgbMatrix, start: int) -> u8 {
    if m.hit_count > start {
        let j = m.hit_count - 1;
        let hy: int = if j < 20 { m.hit_y@[j] as int } else { CENTER_Y as int };
        m.hue.wrapping_add(tdiv(hy - CENTER_Y, 4) as u8)
    } else {
        m.hue
    }
}

/// Every LED dark.
pub open spec fn all_dark() -> Seq<Rgb> {
    Seq::new(LED_COUNT as nat, |_i: int| (0u8, 0u8, 0u8))
}

/// The colour of LED `i` under the first nexus variant.
pub open spec fn nexus_colour(m: RgbMatrix, i: int, start: int) -> Rgb {
    hsv_to_rgb_of(nexus_hue(m, start), m.sat, scale8_of(splash_acc(m, i, SplashKind::Nexus, start, hit_end(m)).1, m.val))
}

/// SOLID_REACTIVE_NEXUS, first variant: while the latest hit is in the ring
/// every LED is first cleared, then painted with the nexus value and the
/// hue of the last hit's height.
pub fn render_solid_reactive_nexus(rgb: &mut RgbMatrix)
    ensures
        ({
            let start = qsub8_of(old(rgb).hit_count, 1) as int;
            let colors = Seq::new(LED_COUNT as nat, |i: int| nexus_colour(*old(rgb), i, start));
            if start < hit_end(*old(rgb)) {
                exists|mid: RgbMatrix| #[trigger] painted(*old(rgb), mid, all_dark())
                    && painted(mid, *final(rgb), colors)
            } else {
                painted(*old(rgb), *final(rgb), colors)
            }
        }),
{
    let ghost m = *rgb;
    let count = rgb.hit_count;
    let start = qsub8(count, 1);
    let end: u8 = if count < 20 { count } else { 20 };
    if start < end {
        let f = |i: usize| -> (c: Rgb)
            requires i < LED_COUNT
            ensures c == (0u8, 0u8, 0u8)
        {
            (0, 0, 0)
        };
        let blacks = led_colours(f, Ghost(|_i: int| (0u8, 0u8, 0u8)));
        assert(blacks@ =~= all_dark());
        rgb.paint(&blacks);
    }
    let ghost mid = *rgb;
    let hue = if count > start {
        let j = (count - 1) as usize;
        let hy: u8 = if j < 20 { rgb.hit_y[j] } else { CENTER_Y };
        rgb.hue.wrapping_add(trunc_div(hy as i32 - CENTER_Y as i32, 4) as u8)
    } else {
        rgb.hue
    };
    let snapshot: &RgbMatrix = rgb;
    let mut colors: Vec<(u8, u8, u8)> = Vec::new();
    let mut i: usize = 0;
    while i < LED_COUNT
        invariant
            i <= LED_COUNT,
            *snapshot == mid,
            mid.hit_count == m.hit_count && mid.hit_x == m.hit_x && mid.hit_y == m.hit_y && mid.hit_tick == m.hit_tick
                && mid.anim_tick == m.anim_tick && mid.speed == m.speed && mid.hue == m.hue && mid.sat == m.sat
                && mid.val == m.val,
            hue == nexus_hue(m, start as int),
            colors@ == Seq::new(i as nat, |k: int| nexus_colour(m, k, start as int)),
        decreases LED_COUNT - i,
    {
        let (_h, v, _any) = hit_fold(snapshot, i, start, SplashKind::Nexus);
        assert(splash_acc(mid, i as int, SplashKind::Nexus, start as int, hit_end(mid)) == splash_acc(m, i as int, SplashKind::Nexus, start as int, hit_end(m))) by {
            lemma_splash_acc_hits(mid, m, i as int, SplashKind::Nexus, start as int, hit_end(m));
        }
        colors.push(hsv_to_rgb(hue, snapshot.sat, scale8(v, snapshot.val)));
        i = i + 1;
        assert(colors@ =~= Seq::new(i as nat, |k: int| nexus_colour(m, k, start as int)));
    }
    rgb.paint(&colors);
}

/// The splash accumulation reads only the hits, the tick, the speed and the hue.
proof fn lemma_splash_acc_hits(a: RgbMatrix, b: RgbMatrix, i: int, kind: SplashKind, start: int, end: int)
    requires
        a.hit_x == b.hit_x && a.hit_y == b.hit_y && a.hit_tick == b.hit_tick && a.anim_tick == b.anim_tick
            && a.speed == b.speed && a.hue == b.hue,
    ensures
        splash_acc(a, i, kind, start, end) == splash_acc(b, i, kind, start, end),
    decreases end - start,
{
    if end > start {
        lemma_splash_acc_hits(a, b, i, kind, start, end - 1);
    }
}

/// The PRNG state two draws after `seed`.
pub open spec fn seed2(seed: u16) -> u16 {
    rand16_next(rand16_next(seed))
}

/// The PRNG state three draws after `seed`.
pub open spec fn seed3(seed: u16) -> u16 {
    rand16_next(seed2(seed))
}

/// The PRNG state four draws after `seed`.
pub open spec fn seed4(seed: u16) -> u16 {
    rand16_next(seed3(seed))
}

/// Sets LED `idx` to `c` with the PRNG state moved to `seed`, when `due`.
fn place_led(rgb: &mut RgbMatrix, due: bool, seed: u16, idx: usize, c: Rgb)
    ensures
        due ==> color_set(RgbMatrix { rand16_seed: seed, ..*old(rgb) }, *final(rgb), idx as int, c),
        !due ==> *final(rgb) == *old(rgb),
{
    if !due {
        return;
    }
    rgb.rand16_seed = seed;
    rgb.set_color(idx, c.0, c.1, c.2);
}

/// A random LED: the drawn byte scaled into 0..110.
pub open spec fn random_led(seed: u16) -> int {
    scale8_of(rand8_of(seed), LED_COUNT as u8) as int
}

/// A random saturation in 127..255 (as `random8_min_max(127, 255)`).
pub open spec fn random_sat(seed: u16) -> u8 {
    ((scale8_of(rand8_of(seed), 128) + 127) % 256) as u8
}

/// Mode 25: JELLYBEAN_RAINDROPS — every fifth scaled tick one random LED
/// takes a random hue at a random saturation of at least 127.
pub open spec fn jellybean_drop(m: RgbMatrix) -> bool {
    scale16by8_of(m.anim_tick, qadd8_of(m.speed, 16)) % 5 == 0
}

#[verifier::rlimit(40)]
pub fn render_jellybean_raindrops(rgb: &mut RgbMatrix)
    ensures
        ({
            let s = old(rgb).rand16_seed;
            if jellybean_drop(*old(rgb)) {
                color_set(
                    RgbMatrix { rand16_seed: seed3(s), ..*old(rgb) },
                    *final(rgb),
                    random_led(rand16_next(s)),
                    hsv_to_rgb_of(rand8_of(seed2(s)), random_sat(seed3(s)), old(rgb).val),
                )
            } else {
                *final(rgb) == *old(rgb)
            }
        }),
{
    let scaled = scale16by8(rgb.anim_tick, qadd8(rgb.speed, 16));
    let mut seed = rgb.rand16_seed;
    let idx = random8_max(&mut seed, LED_COUNT as u8) as usize;
    let h = random8(&mut seed);
    let s = random8_min_max(&mut seed, 127, 255);
    let c = hsv_to_rgb(h, s, rgb.val);
    place_led(rgb, scaled % 5 == 0, seed, idx, c);
}

/// Mode 28: PIXEL_RAIN — once the timer passes, one random LED goes dark or
/// takes a random colour, and the timer moves `500 / speed-step` ahead.
pub open spec fn rain_interval(m: RgbMatrix, base: int) -> u32 {
    (base / (scale16by8_of(qadd8_of(m.speed, 16) as u16, 16) as int)) as u32
}

#[verifier::rlimit(40)]
pub fn render_pixel_rain(rgb: &mut RgbMatrix)
    ensures
        ({
            let s = old(rgb).rand16_seed;
            let timer = (old(rgb).anim_tick as u32).wrapping_add(rain_interval(*old(rgb), 500));
            if (old(rgb).anim_tick as u32) <= old(rgb).pixel_rain_timer {
                *final(rgb) == *old(rgb)
            } else if rand8_of(seed2(s)) % 4 >= 2 {
                color_set(
                    RgbMatrix { rand16_seed: seed2(s), pixel_rain_timer: timer, ..*old(rgb) },
                    *final(rgb),
                    random_led(rand16_next(s)),
                    (0u8, 0u8, 0u8),
                )
            } else {
                color_set(
                    RgbMatrix { rand16_seed: seed4(s), pixel_rain_timer: timer, ..*old(rgb) },
                    *final(rgb),
                    random_led(rand16_next(s)),
                    hsv_to_rgb_of(rand8_of(seed3(s)), random_sat(seed4(s)), old(rgb).val),
                )
            }
        }),
{
    let step = scale16by8(qadd8(rgb.speed, 16) as u16, 16);
    assert(step >= 1);
    let interval = 500u32 / step as u32;
    if (rgb.anim_tick as u32) <= rgb.pixel_rain_timer {
        return;
    }
    let mut seed = rgb.rand16_seed;
    let idx = random8_max(&mut seed, LED_COUNT as u8) as usize;
    let coin = random8(&mut seed);
    let dark = coin % 4 >= 2;
    let seed_dark = seed;
    let h = random8(&mut seed);
    let s = random8_min_max(&mut seed, 127, 255);
    let lit = hsv_to_rgb(h, s, rgb.val);
    let (c, next_seed) = if dark { ((0u8, 0u8, 0u8), seed_dark) } else { (lit, seed) };
    rgb.pixel_rain_timer = (rgb.anim_tick as u32).wrapping_add(interval);
    place_led(rgb, true, next_seed, idx, c);
}

/// Mode 31: RAINDROPS — every tenth scaled tick one random LED takes the
/// hue shifted by 0-3 steps of a quarter of `(hue + 180) * 4`.
pub open spec fn raindrop_hue(hue: u8, seed: u16) -> u8 {
    let delta_h = hue.wrapping_add(180).wrapping_mul(4) / 4;
    hue.wrapping_add((delta_h * (rand8_of(seed) % 4)) as u8)
}

#[verifier::rlimit(40)]
pub fn render_raindrops(rgb: &mut RgbMatrix)
    ensures
        ({
            let s = old(rgb).rand16_seed;
            if scale16by8_of(old(rgb).anim_tick, qadd8_of(old(rgb).speed, 16)) % 10 == 0 {
                color_set(
                    RgbMatrix { rand16_seed: seed2(s), ..*old(rgb) },
                    *final(rgb),
                    random_led(rand16_next(s)),
                    hsv_to_rgb_of(raindrop_hue(old(rgb).hue, seed2(s)), old(rgb).sat, old(rgb).val),
                )
            } else {
                *final(rgb) == *old(rgb)
            }
        }),
{
    let scaled = scale16by8(rgb.anim_tick, qadd8(rgb.speed, 16));
    let mut seed = rgb.rand16_seed;
    let idx = random8_max(&mut seed, LED_COUNT as u8) as usize;
    let delta_h: u8 = rgb.hue.wrapping_add(180).wrapping_mul(4) / 4;
    let k = random8(&mut seed) % 4;
    assert(delta_h * k <= 255 * 255) by (nonlinear_arith)
        requires delta_h <= 255, k <= 255;
    let h = rgb.hue.wrapping_add((delta_h as u16 * k as u16) as u8);
    let c = hsv_to_rgb(h, rgb.sat, rgb.val);
    place_led(rgb, scaled % 10 == 0, seed, idx, c);
}

/// Whether a starlight effect places a star this tick.
pub open spec fn star_due(m: RgbMatrix) -> bool {
    scale16by8_of(m.anim_tick, qadd8_of(m.speed, 5)) % 5 == 0
}

/// The breathing value of the starlight effects.
pub open spec fn star_val(m: RgbMatrix) -> u8 {
    scale8_of(breath_level(time_of(m.anim_tick, m.speed, 8)), m.val)
}

/// Mode 45: STARLIGHT — a random LED takes the breathing colour.
#[verifier::rlimit(40)]
pub fn render_starlight(rgb: &mut RgbMatrix)
    ensures
        ({
            let s = old(rgb).rand16_seed;
            if star_due(*old(rgb)) {
                color_set(
                    RgbMatrix { rand16_seed: rand16_next(s), ..*old(rgb) },
                    *final(rgb),
                    random_led(rand16_next(s)),
                    hsv_to_rgb_of(old(rgb).hue, old(rgb).sat, star_val(*old(rgb))),
                )
            } else {
                *final(rgb) == *old(rgb)
            }
        }),
{
    let time = compute_time(rgb.anim_tick, rgb.speed, 8);
    let raw = sin8(time);
    let diff: i8 = (raw as i16 - 128i16) as i8;
    let v = scale8(abs8(diff).wrapping_mul(2), rgb.val);
    let c = hsv_to_rgb(rgb.hue, rgb.sat, v);
    let due = scale16by8(rgb.anim_tick, qadd8(rgb.speed, 5)) % 5 == 0;
    let mut seed = rgb.rand16_seed;
    let idx = random8_max(&mut seed, LED_COUNT as u8) as usize;
    place_led(rgb, due, seed, idx, c);
}

/// A random offset in -30..=30.
pub open spec fn star_offset(seed: u16) -> int {
    (rand8_of(seed) % 61) - 30
}

/// Mode 46: STARLIGHT_DUAL_HUE — a random LED takes the breathing colour
/// with the hue moved up to 30 steps either way.
#[verifier::rlimit(40)]
pub fn render_starlight_dual_hue(rgb: &mut RgbMatrix)
    ensures
        ({
            let s = old(rgb).rand16_seed;
            if star_due(*old(rgb)) {
                color_set(
                    RgbMatrix { rand16_seed: seed2(s), ..*old(rgb) },
                    *final(rgb),
                    random_led(rand16_next(s)),
                    hsv_to_rgb_of((old(rgb).hue + star_offset(seed2(s))) as u8, old(rgb).sat, star_val(*old(rgb))),
                )
            } else {
                *final(rgb) == *old(rgb)
            }
        }),
{
    let time = compute_time(rgb.anim_tick, rgb.speed, 8);
    let raw = sin8(time);
    let diff: i8 = (raw as i16 - 128i16) as i8;
    let v = scale8(abs8(diff).wrapping_mul(2), rgb.val);
    let due = scale16by8(rgb.anim_tick, qadd8(rgb.speed, 5)) % 5 == 0;
    let mut seed = rgb.rand16_seed;
    let idx = random8_max(&mut seed, LED_COUNT as u8) as usize;
    let offset: i8 = (random8(&mut seed) % 61) as i8 - 30;
    let hue = (rgb.hue as i16 + offset as i16) as u8;
    let c = hsv_to_rgb(hue, rgb.sat, v);
    place_led(rgb, due, seed, idx, c);
}

/// Mode 47: STARLIGHT_DUAL_SAT — a random LED takes the breathing colour
/// with the saturation moved up to 30 steps either way (clamped).
#[verifier::rlimit(40)]
pub fn render_starlight_dual_sat(rgb: &mut RgbMatrix)
    ensures
        ({
            let s = old(rgb).rand16_seed;
            let sat: int = old(rgb).sat + star_offset(seed2(s));
            if star_due(*old(rgb)) {
                color_set(
                    RgbMatrix { rand16_seed: seed2(s), ..*old(rgb) },
                    *final(rgb),
                    random_led(rand16_next(s)),
                    hsv_to_rgb_of(old(rgb).hue, (if sat < 0 { 0 } else if sat > 255 { 255 } else { sat }) as u8, star_val(*old(rgb))),
                )
            } else {
                *final(rgb) == *old(rgb)
            }
        }),
{
    let time = compute_time(rgb.anim_tick, rgb.speed, 8);
    let raw = sin8(time);
    let diff: i8 = (raw as i16 - 128i16) as i8;
    let v = scale8(abs8(diff).wrapping_mul(2), rgb.val);
    let due = scale16by8(rgb.anim_tick, qadd8(rgb.speed, 5)) % 5 == 0;
    let mut seed = rgb.rand16_seed;
    let idx = random8_max(&mut seed, LED_COUNT as u8) as usize;
    let offset: i8 = (random8(&mut seed) % 61) as i8 - 30;
    let s16 = rgb.sat as i16 + offset as i16;
    let sat = (if s16 < 0 { 0 } else if s16 > 255 { 255 } else { s16 }) as u8;
    let c = hsv_to_rgb(rgb.hue, sat, v);
    place_led(rgb, due, seed, idx, c);
}

// ── Framebuffer effects ──────────────────────────────────────────────
/// The LED colours and the two dirty flags.
pub type LedView = (Seq<Rgb>, bool, bool);

/// The LED colours and dirty flags of a matrix.
pub open spec fn leds_of(m: RgbMatrix) -> LedView {
    (m.buffer@, m.dirty1, m.dirty2)
}

/// `v` after `set_color(index, c)`: a change marks the LED's chip dirty;
/// indices past the last LED are ignored.
pub open spec fn led_write(v: LedView, index: int, c: Rgb) -> LedView {
    if 0 <= index < LED_COUNT {
        let changed = v.0[index] != c;
        (
            v.0.update(index, c),
            v.1 || (changed && crate::led::rgb::led_driver(index) == 0),
            v.2 || (changed && crate::led::rgb::led_driver(index) != 0),
        )
    } else {
        v
    }
}

/// Sets LED `idx` to `c` when `cond`.
pub(crate) fn write_led_if(rgb: &mut RgbMatrix, cond: bool, idx: usize, c: Rgb)
    ensures
        leds_of(*final(rgb)) == (if cond { led_write(leds_of(*old(rgb)), idx as int, c) } else { leds_of(*old(rgb)) }),
        *final(rgb) == (RgbMatrix { buffer: final(rgb).buffer, dirty1: final(rgb).dirty1, dirty2: final(rgb).dirty2, ..*old(rgb) }),
{
    if cond {
        rgb.set_color(idx, c.0, c.1, c.2);
        assert(final(rgb).buffer@ =~= led_write(leds_of(*old(rgb)), idx as int, c).0);
    }
}

/// The LED of framebuffer cell `(row, col)`.
pub open spec fn ordered_led(row: int, col: int) -> u8 {
    ordered_scan(row, col, 100)
}

/// `ordered_scan` finds no LED or one of the first `n`.
pub proof fn lemma_ordered_scan_bound(row: int, col: int, n: int)
    ensures
        ordered_scan(row, col, n) == NO_LED || (ordered_scan(row, col, n) as int) < n,
    decreases n,
{
    if n > 0 {
        lemma_ordered_scan_bound(row, col, n - 1);
    }
}

/// The LED of a framebuffer cell, `NO_LED` outside the framebuffer.
fn cell_led(row: usize, col: usize) -> (led: u8)
    ensures
        led == (if row < MATRIX_ROWS && col < MATRIX_COLS { ordered_led(row as int, col as int) } else { NO_LED }),
        led == NO_LED || (led as int) < 100,
{
    proof {
        lemma_ordered_scan_bound(row as int, col as int, 100);
    }
    matrix_co_ordered(row, col)
}

const HEATMAP_INCREASE_STEP: u8 = 32;

const HEATMAP_DECREASE_DELAY_MS: u16 = 25;

const HEATMAP_SPREAD: u8 = 40;

const HEATMAP_AREA_LIMIT: u8 = 16;

/// The heat a key press at LED `led` adds to cell `(r, c)`: 32 to the
/// pressed key, `min(40 - dist, 16)` to keys within 40, nothing otherwise.
pub open spec fn heat_amount(led: u8, r: int, c: int) -> u8 {
    let target = ordered_led(r, c);
    if target == NO_LED {
        0
    } else if target == led {
        32
    } else {
        let dx: int = led_pos(target as int).0 - led_pos(led as int).0;
        let dy: int = led_pos(target as int).1 - led_pos(led as int).1;
        let d = isqrt16((dx * dx + dy * dy) as u16);
        if d <= 40 {
            let a = qsub8_of(40, d);
            if a > 16 { 16 } else { a }
        } else {
            0
        }
    }
}

/// `after` is `before` with a key press at framebuffer cell `(row, col)`
/// heating the cells around it; a cell without an LED changes nothing.
pub open spec fn heat_pressed(before: RgbMatrix, after: RgbMatrix, row: u8, col: u8) -> bool {
    let led = if (row as int) < MATRIX_ROWS && (col as int) < MATRIX_COLS {
        ordered_led(row as int, col as int)
    } else {
        NO_LED
    };
    if led == NO_LED {
        after == before
    } else {
        &&& forall|r: int, c: int|
            0 <= r < MATRIX_ROWS && 0 <= c < MATRIX_COLS ==> #[trigger] after.frame_buffer@[r]@[c]
                == qadd8_of(before.frame_buffer@[r]@[c], heat_amount(led, r, c))
        &&& after == (RgbMatrix { frame_buffer: after.frame_buffer, ..before })
    }
}

/// Called when a key is pressed to heat the framebuffer around it.
pub fn typing_heatmap_keypress(rgb: &mut RgbMatrix, row: u8, col: u8)
    ensures
        heat_pressed(*old(rgb), *final(rgb), row, col),
{
    let led_idx = cell_led(row as usize, col as usize);
    if led_idx == NO_LED {
        return;
    }
    let (tx, ty) = LED_POSITIONS[led_idx as usize];
    let mut fb = rgb.frame_buffer;
    let mut i_row: usize = 0;
    while i_row < MATRIX_ROWS
        invariant
            i_row <= MATRIX_ROWS,
            led_idx != NO_LED && (led_idx as int) < 100,
            (tx, ty) == LED_POSITIONS@[led_idx as int],
            forall|r: int, c: int|
                0 <= r < MATRIX_ROWS && 0 <= c < MATRIX_COLS ==> #[trigger] fb@[r]@[c] == (if r < i_row {
                    qadd8_of(rgb.frame_buffer@[r]@[c], heat_amount(led_idx, r, c))
                } else {
                    rgb.frame_buffer@[r]@[c]
                }),
        decreases MATRIX_ROWS - i_row,
    {
        let mut line = fb[i_row];
        let mut i_col: usize = 0;
        while i_col < MATRIX_COLS
            invariant
                i_col <= MATRIX_COLS,
                i_row < MATRIX_ROWS,
                led_idx != NO_LED && (led_idx as int) < 100,
                (tx, ty) == LED_POSITIONS@[led_idx as int],
                forall|c: int|
                    0 <= c < MATRIX_COLS ==> #[trigger] line@[c] == (if c < i_col {
                        qadd8_of(rgb.frame_buffer@[i_row as int]@[c], heat_amount(led_idx, i_row as int, c))
                    } else {
                        rgb.frame_buffer@[i_row as int]@[c]
                    }),
            decreases MATRIX_COLS - i_col,
        {
            let target_led = cell_led(i_row, i_col);
            if target_led != NO_LED {
                let (lx, ly) = LED_POSITIONS[target_led as usize];
                if target_led == led_idx {
                    line[i_col] = qadd8(line[i_col], HEATMAP_INCREASE_STEP);
                } else {
                    let dx = lx as i32 - tx as i32;
                    let dy = ly as i32 - ty as i32;
                    assert(0 <= dx * dx <= 255 * 255 && 0 <= dy * dy <= 255 * 255) by (nonlinear_arith)
                        requires -255 <= dx <= 255, -255 <= dy <= 255;
                    let distance = sqrt16((dx * dx + dy * dy) as u16);
                    if distance <= HEATMAP_SPREAD {
                        let mut amount = qsub8(HEATMAP_SPREAD, distance);
                        if amount > HEATMAP_AREA_LIMIT {
                            amount = HEATMAP_AREA_LIMIT;
                        }
                        line[i_col] = qadd8(line[i_col], amount);
                    }
                }
            }
            i_col = i_col + 1;
        }
        fb[i_row] = line;
        i_row = i_row + 1;
    }
    rgb.frame_buffer = fb;
}

/// The colour of a heat value: hue from blue (170) toward red, value rising
/// with the heat.
pub open spec fn heat_colour(heat: u8, sat: u8, val: u8) -> Rgb {
    let hue = (170u8).wrapping_sub(qsub8_of(heat, 85));
    let heat_val = qadd8_of(170, heat).wrapping_sub(170).wrapping_mul(3);
    hsv_to_rgb_of(hue, sat, scale8_of(heat_val, val))
}

/// The LED writes of a heatmap frame over the first `k` cells (row-major).
pub open spec fn heat_writes(v: LedView, m: RgbMatrix, k: int) -> LedView
    decreases k,
{
    if k <= 0 {
        v
    } else {
        let prev = heat_writes(v, m, k - 1);
        let (r, c) = ((k - 1) / 19, (k - 1) % 19);
        let led = ordered_led(r, c);
        if led == NO_LED {
            prev
        } else {
            led_write(prev, led as int, heat_colour(m.frame_buffer@[r]@[c], m.sat, m.val))
        }
    }
}

/// Mode 48: TYPING_HEATMAP — every framebuffer cell's LED shows its heat;
/// every 25 frames the heat cools by one.
pub fn render_typing_heatmap(rgb: &mut RgbMatrix)
    ensures
        ({
            let decrease = old(rgb).decrease_heatmap || old(rgb).heatmap_decrease_timer >= 25;
            &&& leds_of(*final(rgb)) == heat_writes(leds_of(*old(rgb)), *old(rgb), 114)
            &&& forall|r: int, c: int|
                0 <= r < MATRIX_ROWS && 0 <= c < MATRIX_COLS ==> #[trigger] final(rgb).frame_buffer@[r]@[c] == (if decrease
                    && ordered_led(r, c) != NO_LED {
                    qsub8_of(old(rgb).frame_buffer@[r]@[c], 1)
                } else {
                    old(rgb).frame_buffer@[r]@[c]
                })
            &&& *final(rgb) == (RgbMatrix {
                buffer: final(rgb).buffer,
                dirty1: final(rgb).dirty1,
                dirty2: final(rgb).dirty2,
                frame_buffer: final(rgb).frame_buffer,
                decrease_heatmap: false,
                heatmap_decrease_timer: if old(rgb).heatmap_decrease_timer >= 25 {
                    0
                } else {
                    old(rgb).heatmap_decrease_timer.wrapping_add(1)
                },
                ..*old(rgb)
            })
        }),
{
    let ghost m = *rgb;
    let decrease = rgb.decrease_heatmap || rgb.heatmap_decrease_timer >= HEATMAP_DECREASE_DELAY_MS;
    let timer = if rgb.heatmap_decrease_timer >= HEATMAP_DECREASE_DELAY_MS {
        0
    } else {
        rgb.heatmap_decrease_timer.wrapping_add(1)
    };
    let sat = rgb.sat;
    let val = rgb.val;
    let mut fb = rgb.frame_buffer;
    let mut k: usize = 0;
    while k < 114
        invariant
            k <= 114,
            sat == m.sat && val == m.val,
            leds_of(*rgb) == heat_writes(leds_of(m), m, k as int),
            *rgb == (RgbMatrix { buffer: rgb.buffer, dirty1: rgb.dirty1, dirty2: rgb.dirty2, ..m }),
            forall|r: int, c: int|
                0 <= r < MATRIX_ROWS && 0 <= c < MATRIX_COLS ==> #[trigger] fb@[r]@[c] == (if r * 19 + c < k && decrease
                    && ordered_led(r, c) != NO_LED {
                    qsub8_of(m.frame_buffer@[r]@[c], 1)
                } else {
                    m.frame_buffer@[r]@[c]
                }),
        decreases 114 - k,
    {
        let row = k / 19;
        let col = k % 19;
        let heat = fb[row][col];
        let led_idx = cell_led(row, col);
        let hue = 170u8.wrapping_sub(qsub8(heat, 85));
        let heat_val = qadd8(170, heat).wrapping_sub(170).wrapping_mul(3);
        let v = scale8(heat_val, val);
        let c = hsv_to_rgb(hue, sat, v);
        write_led_if(rgb, led_idx != NO_LED, led_idx as usize, c);
        if led_idx != NO_LED && decrease {
            let mut line = fb[row];
            line[col] = qsub8(heat, 1);
            fb[row] = line;
        }
        k = k + 1;
    }
    rgb.frame_buffer = fb;
    rgb.heatmap_decrease_timer = timer;
    rgb.decrease_heatmap = false;
}

/// The pixel flow interval: `base` over the speed step `scale16by8(speed + 16, 16)`.
pub open spec fn flow_interval(m: RgbMatrix, base: int) -> u32 {
    (base / (scale16by8_of(qadd8_of(m.speed, 16) as u16, 16) as int)) as u32
}

/// Mode 26: PIXEL_FLOW — once the timer passes, the colours move down one
/// LED and the last LED takes a random colour (or goes dark), all LEDs show
/// the flow, and the timer moves `3000 / speed-step` ahead.
pub fn render_pixel_flow(rgb: &mut RgbMatrix)
    ensures
        ({
            let s = old(rgb).rand16_seed;
            let dark = rand8_of(rand16_next(s)) % 4 >= 2;
            let last: Rgb = if dark {
                (0u8, 0u8, 0u8)
            } else {
                hsv_to_rgb_of(rand8_of(seed2(s)), random_sat(seed3(s)), old(rgb).val)
            };
            let flow = old(rgb).pixel_flow_state@.subrange(1, LED_COUNT as int).push(last);
            if (old(rgb).anim_tick as u32) < old(rgb).pixel_flow_wait_timer {
                *final(rgb) == *old(rgb)
            } else {
                &&& final(rgb).pixel_flow_state@ == flow
                &&& painted(
                    RgbMatrix {
                        pixel_flow_state: final(rgb).pixel_flow_state,
                        rand16_seed: if dark { rand16_next(s) } else { seed3(s) },
                        pixel_flow_wait_timer: (old(rgb).anim_tick as u32).wrapping_add(flow_interval(*old(rgb), 3000)),
                        ..*old(rgb)
                    },
                    *final(rgb),
                    flow,
                )
            }
        }),
{
    let step = scale16by8(qadd8(rgb.speed, 16) as u16, 16);
    assert(step >= 1);
    let interval = 3000u32 / step as u32;
    if (rgb.anim_tick as u32) < rgb.pixel_flow_wait_timer {
        return;
    }
    let mut state = rgb.pixel_flow_state;
    let mut j: usize = 0;
    while j < LED_COUNT - 1
        invariant
            j <= LED_COUNT - 1,
            state@.len() == LED_COUNT,
            forall|k: int| 0 <= k < LED_COUNT ==> #[trigger] state@[k] == (if k < j {
                rgb.pixel_flow_state@[k + 1]
            } else {
                rgb.pixel_flow_state@[k]
            }),
        decreases LED_COUNT - 1 - j,
    {
        state[j] = state[j + 1];
        j = j + 1;
    }
    let mut seed = rgb.rand16_seed;
    let coin = random8(&mut seed);
    let dark = coin % 4 >= 2;
    let seed_dark = seed;
    let h = random8(&mut seed);
    let s = random8_min_max(&mut seed, 127, 255);
    let lit = hsv_to_rgb(h, s, rgb.val);
    let (last, next_seed) = if dark { ((0u8, 0u8, 0u8), seed_dark) } else { (lit, seed) };
    state[LED_COUNT - 1] = last;
    assert(state@ =~= rgb.pixel_flow_state@.subrange(1, LED_COUNT as int).push(last));
    let colors = vstd::slice::slice_to_vec(vstd::array::array_as_slice(&state));
    let timer = (rgb.anim_tick as u32).wrapping_add(interval);
    rgb.pixel_flow_state = state;
    rgb.rand16_seed = next_seed;
    rgb.pixel_flow_wait_timer = timer;
    rgb.paint(&colors);
}

// ── Digital rain ─────────────────────────────────────────────────────
pub const DIGITAL_RAIN_DROPS: u8 = 24;

/// A framebuffer as rows of cells.
pub open spec fn fb_seq(fb: [[u8; 19]; 6]) -> Seq<Seq<u8>> {
    Seq::new(6, |r: int| fb@[r]@)
}

/// `fb` with cell `(r, c)` set to `v`.
pub open spec fn fb_set(fb: Seq<Seq<u8>>, r: int, c: int, v: u8) -> Seq<Seq<u8>> {
    fb.update(r, fb[r].update(c, v))
}

fn set_cell(fb: &mut [[u8; 19]; 6], r: usize, c: usize, v: u8)
    requires
        r < 6,
        c < 19,
    ensures
        fb_seq(*final(fb)) == fb_set(fb_seq(*old(fb)), r as int, c as int, v),
{
    let mut line = fb[r];
    line[c] = v;
    fb[r] = line;
    assert(fb_seq(*fb) =~= fb_set(fb_seq(*old(fb)), r as int, c as int, v));
}

/// The decay period of the rain: `255 / val` frames (1 when dark).
pub open spec fn rain_decay_ticks(max: u8) -> u8 {
    if max > 0 { 255u8 / max } else { 1 }
}

/// The colour of a rain cell of intensity `v` at brightness `max`: green up
/// to three quarters of `max`, then green with a white boost.
pub open spec fn rain_colour(v: u8, max: u8) -> Rgb {
    let pg = ((max * 3) / 4) as u8;
    if v > pg {
        let span: int = if max - pg < 1 { 1 } else { max - pg };
        let boost = ((pg * (v - pg)) / span) as u8;
        (boost, max, boost)
    } else {
        let green = if pg > 0 { ((max * v) / (pg as int)) as u8 } else { 0u8 };
        (0u8, green, 0u8)
    }
}

fn rain_color(v: u8, max: u8) -> (c: Rgb)
    ensures
        c == rain_colour(v, max),
{
    let pure_green_intensity = ((max as u16 * 3) / 4) as u8;
    let max_brightness_boost = pure_green_intensity;
    if v > pure_green_intensity {
        let span = max.wrapping_sub(pure_green_intensity);
        let span = if span < 1 { 1 } else { span };
        assert(max_brightness_boost * (v - pure_green_intensity) <= 255 * 255) by (nonlinear_arith)
            requires max_brightness_boost <= 255, v - pure_green_intensity <= 255, v > pure_green_intensity;
        let boost = ((max_brightness_boost as u16 * (v - pure_green_intensity) as u16) / span as u16) as u8;
        (boost, max, boost)
    } else {
        let green = if pure_green_intensity > 0 {
            assert(max * v <= 255 * 255) by (nonlinear_arith)
                requires max <= 255, v <= 255;
            ((max as u16 * v as u16) / pure_green_intensity as u16) as u8
        } else {
            0
        };
        (0, green, 0)
    }
}

/// Rain state: framebuffer, LEDs and PRNG state.
pub type RainState = (Seq<Seq<u8>>, LedView, u16);

/// One rain cell (column `c`, row `r`): on a drop frame the top row starts
/// a drop with chance 10/256; on a decay frame a lit cell below full
/// intensity fades by one; the cell's LED shows the cell.
pub open spec fn rain_cell(st: RainState, max: u8, drop: u8, decay: u8, c: int, r: int) -> RainState {
    let (fb, leds, seed) = st;
    let (fb1, seed1) = if r == 0 && drop == 0 {
        let s2 = rand16_next(seed);
        if rand8_of(s2) < 255int / (DIGITAL_RAIN_DROPS as int) {
            (fb_set(fb, r, c, max), s2)
        } else {
            (fb, s2)
        }
    } else if fb[r][c] > 0 && fb[r][c] < max && decay == rain_decay_ticks(max) {
        (fb_set(fb, r, c, (fb[r][c] - 1) as u8), seed)
    } else {
        (fb, seed)
    };
    let found = leds_at(((r * 10) % 256) as u8, ((c * 10) % 256) as u8, 100);
    let leds1 = if found.len() > 0 && (found[0] as int) < LED_COUNT {
        led_write(leds, found[0] as int, rain_colour(fb1[r][c], max))
    } else {
        leds
    };
    (fb1, leds1, seed1)
}

/// The first `k` rain cells, column by column, top to bottom.
pub open spec fn rain_cells(st: RainState, max: u8, drop: u8, decay: u8, k: int) -> RainState
    decreases k,
{
    if k <= 0 {
        st
    } else {
        rain_cell(rain_cells(st, max, drop, decay, k - 1), max, drop, decay, (k - 1) / 6, (k - 1) % 6)
    }
}

/// One step of the drop move: row `r` of column `c` (bottom up); a drop at
/// full intensity in the bottom row fades by one, and a full cell above
/// moves down, leaving a cell just below full behind.
pub open spec fn rain_move(fb: Seq<Seq<u8>>, max: u8, c: int, r: int) -> Seq<Seq<u8>> {
    let fb1 = if r == 5 && fb[5][c] == max { fb_set(fb, 5, c, max.wrapping_sub(1)) } else { fb };
    if fb1[r - 1][c] >= max {
        fb_set(fb_set(fb1, r - 1, c, max.wrapping_sub(1)), r, c, max)
    } else {
        fb1
    }
}

/// The first `k` steps of the drop move: column by column, rows 5 up to 1.
pub open spec fn rain_moves(fb: Seq<Seq<u8>>, max: u8, k: int) -> Seq<Seq<u8>>
    decreases k,
{
    if k <= 0 {
        fb
    } else {
        rain_move(rain_moves(fb, max, k - 1), max, (k - 1) / 5, 5 - (k - 1) % 5)
    }
}

/// Mode 19: DIGITAL_RAIN — drops start at random in the top row, fall one
/// row every 29 frames and fade every `255 / val` frames.
pub fn render_digital_rain(rgb: &mut RgbMatrix)
    ensures
        ({
            let max = old(rgb).val;
            let drop = old(rgb).digital_rain_drop.wrapping_add(1);
            let decay = old(rgb).digital_rain_decay.wrapping_add(1);
            let st = rain_cells(
                (fb_seq(old(rgb).frame_buffer), leds_of(*old(rgb)), old(rgb).rand16_seed),
                max,
                drop,
                decay,
                114,
            );
            &&& leds_of(*final(rgb)) == st.1
            &&& fb_seq(final(rgb).frame_buffer) == (if drop > 28 { rain_moves(st.0, max, 95) } else { st.0 })
            &&& *final(rgb) == (RgbMatrix {
                buffer: final(rgb).buffer,
                dirty1: final(rgb).dirty1,
                dirty2: final(rgb).dirty2,
                frame_buffer: final(rgb).frame_buffer,
                rand16_seed: st.2,
                digital_rain_drop: if drop > 28 { 0 } else { drop },
                digital_rain_decay: if decay == rain_decay_ticks(max) { 0 } else { decay },
                ..*old(rgb)
            })
        }),
{
    let ghost m = *rgb;
    let drop_ticks: u8 = 28;
    let max_intensity = rgb.val;
    let decay_ticks: u8 = if max_intensity > 0 { 0xff / max_intensity } else { 1 };
    let drop = rgb.digital_rain_drop.wrapping_add(1);
    let decay = rgb.digital_rain_decay.wrapping_add(1);
    let mut fb = rgb.frame_buffer;
    let mut seed = rgb.rand16_seed;
    let mut k: usize = 0;
    while k < 114
        invariant
            k <= 114,
            max_intensity == m.val,
            decay_ticks == rain_decay_ticks(max_intensity),
            drop == m.digital_rain_drop.wrapping_add(1),
            decay == m.digital_rain_decay.wrapping_add(1),
            (fb_seq(fb), leds_of(*rgb), seed) == rain_cells(
                (fb_seq(m.frame_buffer), leds_of(m), m.rand16_seed),
                max_intensity,
                drop,
                decay,
                k as int,
            ),
            *rgb == (RgbMatrix { buffer: rgb.buffer, dirty1: rgb.dirty1, dirty2: rgb.dirty2, ..m }),
        decreases 114 - k,
    {
        let col = k / 6;
        let row = k % 6;
        let cell = fb[row][col];
        if row == 0 && drop == 0 {
            let r = random8(&mut seed);
            if r < (255u16 / DIGITAL_RAIN_DROPS as u16) as u8 {
                set_cell(&mut fb, row, col, max_intensity);
            }
        } else if cell > 0 && cell < max_intensity && decay == decay_ticks {
            set_cell(&mut fb, row, col, cell - 1);
        }
        let fb_val = fb[row][col];
        let mut led_buf = [NO_LED; 8];
        let led_count = map_row_column_to_led(row as u8, col as u8, &mut led_buf);
        let led_idx = led_buf[0] as usize;
        let c = rain_color(fb_val, max_intensity);
        write_led_if(rgb, led_count > 0 && led_idx < LED_COUNT, led_idx, c);
        proof {
            assert(((row as u8 * 10) % 256) as u8 == ((row * 10) % 256) as u8);
        }
        k = k + 1;
    }
    let new_decay = if decay == decay_ticks { 0 } else { decay };
    let new_drop = if drop > drop_ticks { 0 } else { drop };
    if drop > drop_ticks {
        let mut j: usize = 0;
        let ghost fb0 = fb_seq(fb);
        while j < 95
            invariant
                j <= 95,
                fb_seq(fb) == rain_moves(fb0, max_intensity, j as int),
            decreases 95 - j,
        {
            let col = j / 5;
            let row = 5 - j % 5;
            if row == 5 && fb[row][col] == max_intensity {
                set_cell(&mut fb, row, col, max_intensity.wrapping_sub(1));
            }
            if fb[row - 1][col] >= max_intensity {
                set_cell(&mut fb, row - 1, col, max_intensity.wrapping_sub(1));
                set_cell(&mut fb, row, col, max_intensity);
            }
            j = j + 1;
        }
    }
    rgb.frame_buffer = fb;
    rgb.rand16_seed = seed;
    rgb.digital_rain_drop = new_drop;
    rgb.digital_rain_decay = new_decay;
}

// ── Pixel fractal ────────────────────────────────────────────────────
const MID_COL: usize = 9;

/// The PRNG state `n` draws after `seed`.
pub open spec fn seed_n(seed: u16, n: nat) -> u16
    decreases n,
{
    if n == 0 {
        seed
    } else {
        rand16_next(seed_n(seed, (n - 1) as nat))
    }
}

/// The LED writes of a fractal frame over its first `t` steps: step
/// `h * 9 + l` shows cell `(h, l)` of `st` (lit `c` or dark) on the LEDs of
/// columns `l` and `18 - l` of row `h`.
pub open spec fn fractal_writes(v: LedView, st: [[bool; 9]; 6], c: Rgb, t: int) -> LedView
    decreases t,
{
    if t <= 0 {
        v
    } else {
        let prev = fractal_writes(v, st, c, t - 1);
        let (h, l) = ((t - 1) / 9, (t - 1) % 9);
        let colour: Rgb = if st@[h]@[l] { c } else { (0u8, 0u8, 0u8) };
        let left = ordered_led(h, l);
        let right = ordered_led(h, 18 - l);
        let v1 = if left != NO_LED { led_write(prev, left as int, colour) } else { prev };
        if right != NO_LED { led_write(v1, right as int, colour) } else { v1 }
    }
}

/// One step of a fractal frame: cell `(h, l)` shown on both mirrored LEDs.
fn fractal_step(rgb: &mut RgbMatrix, st: &[[bool; 9]; 6], c: Rgb, h: usize, l: usize)
    requires
        h < 6,
        l < 9,
    ensures
        leds_of(*final(rgb)) == ({
            let colour: Rgb = if st@[h as int]@[l as int] { c } else { (0u8, 0u8, 0u8) };
            let left = ordered_led(h as int, l as int);
            let right = ordered_led(h as int, 18 - l);
            let v1 = if left != NO_LED { led_write(leds_of(*old(rgb)), left as int, colour) } else { leds_of(*old(rgb)) };
            if right != NO_LED { led_write(v1, right as int, colour) } else { v1 }
        }),
        *final(rgb) == (RgbMatrix { buffer: final(rgb).buffer, dirty1: final(rgb).dirty1, dirty2: final(rgb).dirty2, ..*old(rgb) }),
{
    let lit = st[h][l];
    let colour = if lit { c } else { (0u8, 0u8, 0u8) };
    let led_l = cell_led(h, l);
    let led_r = cell_led(h, MATRIX_COLS - 1 - l);
    write_led_if(rgb, led_l != NO_LED, led_l as usize, colour);
    write_led_if(rgb, led_r != NO_LED, led_r as usize, colour);
}

/// The next value of fractal cell `(h, l)`: its outer neighbour's, or for
/// the middle column a random draw lit with chance 1/4.
fn fractal_cell(old_state: &[[bool; 9]; 6], h: usize, l: usize, seed: &mut u16) -> (cell: bool)
    requires
        h < 6,
        l < 9,
    ensures
        l < 8 ==> cell == old_state@[h as int]@[l + 1] && *final(seed) == *old(seed),
        l == 8 ==> cell == (rand8_of(rand16_next(*old(seed))) % 4 == 0) && *final(seed) == rand16_next(*old(seed)),
{
    if l < MID_COL - 1 {
        old_state[h][l + 1]
    } else {
        let r = random8(seed);
        r % 4 == 0
    }
}

/// What a fractal frame has done after `t` of its 54 steps: the LEDs of the
/// first `t` cells written, the first `t` cells moved on, the PRNG advanced
/// once per finished row, and nothing else changed.
pub open spec fn fractal_inv(
    rgb: RgbMatrix,
    m: RgbMatrix,
    old_state: [[bool; 9]; 6],
    c: Rgb,
    state: [[bool; 9]; 6],
    seed: u16,
    t: int,
) -> bool {
    &&& old_state == m.pixel_fractal_state
    &&& c == hsv_to_rgb_of(m.hue, m.sat, m.val)
    &&& leds_of(rgb) == fractal_writes(leds_of(m), old_state, c, t)
    &&& rgb == (RgbMatrix { buffer: rgb.buffer, dirty1: rgb.dirty1, dirty2: rgb.dirty2, ..m })
    &&& seed == seed_n(m.rand16_seed, (t / 9) as nat)
    &&& forall|h: int, l: int|
        0 <= h < 6 && 0 <= l < 9 ==> #[trigger] state@[h]@[l] == (if h * 9 + l < t {
            if l < 8 {
                old_state@[h]@[l + 1]
            } else {
                rand8_of(seed_n(m.rand16_seed, (h + 1) as nat)) % 4 == 0
            }
        } else {
            old_state@[h]@[l]
        })
}

/// Step `t` of a fractal frame: cell `t` shown and moved on.
#[verifier::rlimit(40)]
fn fractal_iter(
    rgb: &mut RgbMatrix,
    old_state: &[[bool; 9]; 6],
    c: Rgb,
    state: &mut [[bool; 9]; 6],
    seed: &mut u16,
    t: usize,
    Ghost(m): Ghost<RgbMatrix>,
)
    requires
        t < 54,
        fractal_inv(*old(rgb), m, *old_state, c, *old(state), *old(seed), t as int),
    ensures
        fractal_inv(*final(rgb), m, *old_state, c, *final(state), *final(seed), t + 1),
{
    let h = t / 9;
    let l = t % 9;
    fractal_step(rgb, old_state, c, h, l);
    let cell = fractal_cell(old_state, h, l, seed);
    let mut line = state[h];
    line[l] = cell;
    state[h] = line;
    proof {
        if l == 8 {
            assert((t + 1) / 9 == h + 1);
        } else {
            assert((t + 1) / 9 == t / 9);
        }
    }
}

/// Mode 27: PIXEL_FRACTAL — once the timer passes, each row shows its
/// cells mirrored from the middle out, the cells move one column outward,
/// the middle column takes a random cell (lit with chance 1/4), and the
/// timer moves `3000 / speed-step` ahead.
#[verifier::rlimit(60)]
pub fn render_pixel_fractal(rgb: &mut RgbMatrix)
    ensures
        ({
            let m = *old(rgb);
            if (m.anim_tick as u32) <= m.pixel_fractal_timer {
                *final(rgb) == m
            } else {
                &&& leds_of(*final(rgb)) == fractal_writes(
                    leds_of(m),
                    m.pixel_fractal_state,
                    hsv_to_rgb_of(m.hue, m.sat, m.val),
                    54,
                )
                &&& forall|h: int, l: int|
                    0 <= h < 6 && 0 <= l < 9 ==> #[trigger] final(rgb).pixel_fractal_state@[h]@[l] == (if l < 8 {
                        m.pixel_fractal_state@[h]@[l + 1]
                    } else {
                        rand8_of(seed_n(m.rand16_seed, (h + 1) as nat)) % 4 == 0
                    })
                &&& *final(rgb) == (RgbMatrix {
                    buffer: final(rgb).buffer,
                    dirty1: final(rgb).dirty1,
                    dirty2: final(rgb).dirty2,
                    pixel_fractal_state: final(rgb).pixel_fractal_state,
                    rand16_seed: seed_n(m.rand16_seed, 6),
                    pixel_fractal_timer: (m.anim_tick as u32).wrapping_add(flow_interval(m, 3000)),
                    ..m
                })
            }
        }),
{
    let ghost m = *rgb;
    let step = scale16by8(qadd8(rgb.speed, 16) as u16, 16);
    assert(step >= 1);
    let interval = 3000u32 / step as u32;
    if (rgb.anim_tick as u32) <= rgb.pixel_fractal_timer {
        return;
    }
    let c = hsv_to_rgb(rgb.hue, rgb.sat, rgb.val);
    let old_state = rgb.pixel_fractal_state;
    let mut state = old_state;
    let mut seed = rgb.rand16_seed;
    let mut t: usize = 0;
    while t < 54
        invariant
            t <= 54,
            fractal_inv(*rgb, m, old_state, c, state, seed, t as int),
        decreases 54 - t,
    {
        fractal_iter(rgb, &old_state, c, &mut state, &mut seed, t, Ghost(m));
        t = t + 1;
    }
    rgb.pixel_fractal_state = state;
    rgb.rand16_seed = seed;
    rgb.pixel_fractal_timer = (rgb.anim_tick as u32).wrapping_add(interval);
}

// ── Dispatch ─────────────────────────────────────────────────────────
/// One animation frame of the current mode: mode 0 (solid colour, set by
/// hand) leaves everything as it is; modes 1-49 draw their effect; others
/// draw the left-right cycle.
pub open spec fn animation_frame(before: RgbMatrix, after: RgbMatrix) -> bool {
    match before.mode {
        0 => after == before,
        1 => all_set(before, after, breathing_colour(before)),
        2 => all_set(before, after, cycle_all_colour(before)),
        3 => painted(before, after, Seq::new(LED_COUNT as nat, |i: int| cycle_up_down_led(before, i))),
        4 => painted(before, after, Seq::new(LED_COUNT as nat, |i: int| cycle_left_right_rule(time_of(before.anim_tick, before.speed, 4), before.sat, before.val, i))),
        5 => painted(before, after, Seq::new(LED_COUNT as nat, |i: int| cycle_out_in_rule(time_of(before.anim_tick, before.speed, 2), before.sat, before.val, i))),
        6 => painted(before, after, Seq::new(LED_COUNT as nat, |i: int| gradient_up_down_rule(before.hue, scale8_of(64, before.speed), before.sat, before.val, i))),
        7 => painted(before, after, Seq::new(LED_COUNT as nat, |i: int| gradient_left_right_rule(before.hue, scale8_of(64, before.speed), before.sat, before.val, i))),
        8 => painted(before, after, Seq::new(LED_COUNT as nat, |i: int| rainbow_moving_chevron_rule(before.hue, time_of(before.anim_tick, before.speed, 4), before.sat, before.val, i))),
        9 => painted(before, after, Seq::new(LED_COUNT as nat, |i: int| alphas_mods_rule(hsv_to_rgb_of(before.hue, before.sat, before.val), hsv_to_rgb_of(before.hue.wrapping_add(before.speed), before.sat, before.val), i))),
        10 => painted(before, after, Seq::new(LED_COUNT as nat, |i: int| band_pinwheel_sat_rule(before.hue, time_half_of(before.anim_tick, before.speed), before.sat, before.val, i))),
        11 => painted(before, after, Seq::new(LED_COUNT as nat, |i: int| band_pinwheel_val_rule(before.hue, time_half_of(before.anim_tick, before.speed), before.sat, before.val, i))),
        12 => painted(before, after, Seq::new(LED_COUNT as nat, |i: int| band_sat_rule(before.hue, time_of(before.anim_tick, before.speed, 4), before.sat, before.val, i))),
        13 => painted(before, after, Seq::new(LED_COUNT as nat, |i: int| band_spiral_sat_rule(before.hue, time_half_of(before.anim_tick, before.speed), before.sat, before.val, i))),
        14 => painted(before, after, Seq::new(LED_COUNT as nat, |i: int| band_spiral_val_rule(before.hue, time_half_of(before.anim_tick, before.speed), before.sat, before.val, i))),
        15 => painted(before, after, Seq::new(LED_COUNT as nat, |i: int| band_val_rule(before.hue, time_of(before.anim_tick, before.speed, 4), before.sat, before.val, i))),
        16 => painted(before, after, Seq::new(LED_COUNT as nat, |i: int| cycle_out_in_dual_rule(time_half_of(before.anim_tick, before.speed), before.sat, before.val, i))),
        17 => painted(before, after, Seq::new(LED_COUNT as nat, |i: int| cycle_pinwheel_rule(time_half_of(before.anim_tick, before.speed), before.sat, before.val, i))),
        18 => painted(before, after, Seq::new(LED_COUNT as nat, |i: int| cycle_spiral_rule(time_half_of(before.anim_tick, before.speed), before.sat, before.val, i))),
        19 => ({
            let max = before.val;
            let drop = before.digital_rain_drop.wrapping_add(1);
            let decay = before.digital_rain_decay.wrapping_add(1);
            let st = rain_cells(
                (fb_seq(before.frame_buffer), leds_of(before), before.rand16_seed),
                max,
                drop,
                decay,
                114,
            );
            &&& leds_of(after) == st.1
            &&& fb_seq(after.frame_buffer) == (if drop > 28 { rain_moves(st.0, max, 95) } else { st.0 })
            &&& after == (RgbMatrix {
                buffer: after.buffer,
                dirty1: after.dirty1,
                dirty2: after.dirty2,
                frame_buffer: after.frame_buffer,
                rand16_seed: st.2,
                digital_rain_drop: if drop > 28 { 0 } else { drop },
                digital_rain_decay: if decay == rain_decay_ticks(max) { 0 } else { decay },
                ..before
            })
        }),
        20 => painted(before, after, Seq::new(LED_COUNT as nat, |i: int| dual_beacon_rule(before.hue, centred(cos8_of(time_of(before.anim_tick, before.speed, 4))), centred(sin8_of(time_of(before.anim_tick, before.speed, 4))), before.sat, before.val, i))),
        21 => painted(before, after, Seq::new(LED_COUNT as nat, |i: int| flower_blooming_rule(time_of(before.anim_tick, before.speed, 10), before.sat, before.val, i))),
        22 => all_set(before, after, hue_breathing_colour(before)),
        23 => painted(before, after, Seq::new(LED_COUNT as nat, |i: int| hue_pendulum_rule(before.hue, sin8_of(time_of(before.anim_tick, before.speed, 4)), before.sat, before.val, i))),
        24 => painted(before, after, Seq::new(LED_COUNT as nat, |i: int| hue_wave_rule(before.hue, time_of(before.anim_tick, before.speed, 4), before.sat, before.val, i))),
        25 => ({
            let s = before.rand16_seed;
            if jellybean_drop(before) {
                color_set(
                    RgbMatrix { rand16_seed: seed3(s), ..before },
                    after,
                    random_led(rand16_next(s)),
                    hsv_to_rgb_of(rand8_of(seed2(s)), random_sat(seed3(s)), before.val),
                )
            } else {
                after == before
            }
        }),
        26 => ({
            let s = before.rand16_seed;
            let dark = rand8_of(rand16_next(s)) % 4 >= 2;
            let last: Rgb = if dark {
                (0u8, 0u8, 0u8)
            } else {
                hsv_to_rgb_of(rand8_of(seed2(s)), random_sat(seed3(s)), before.val)
            };
            let flow = before.pixel_flow_state@.subrange(1, LED_COUNT as int).push(last);
            if (before.anim_tick as u32) < before.pixel_flow_wait_timer {
                after == before
            } else {
                &&& after.pixel_flow_state@ == flow
                &&& painted(
                    RgbMatrix {
                        pixel_flow_state: after.pixel_flow_state,
                        rand16_seed: if dark { rand16_next(s) } else { seed3(s) },
                        pixel_flow_wait_timer: (before.anim_tick as u32).wrapping_add(flow_interval(before, 3000)),
                        ..before
                    },
                    after,
                    flow,
                )
            }
        }),
        27 => ({
            let m = before;
            if (m.anim_tick as u32) <= m.pixel_fractal_timer {
                after == m
            } else {
                &&& leds_of(after) == fractal_writes(
                    leds_of(m),
                    m.pixel_fractal_state,
                    hsv_to_rgb_of(m.hue, m.sat, m.val),
                    54,
                )
                &&& forall|h: int, l: int|
                    0 <= h < 6 && 0 <= l < 9 ==> #[trigger] after.pixel_fractal_state@[h]@[l] == (if l < 8 {
                        m.pixel_fractal_state@[h]@[l + 1]
                    } else {
                        rand8_of(seed_n(m.rand16_seed, (h + 1) as nat)) % 4 == 0
                    })
                &&& after == (RgbMatrix {
                    buffer: after.buffer,
                    dirty1: after.dirty1,
                    dirty2: after.dirty2,
                    pixel_fractal_state: after.pixel_fractal_state,
                    rand16_seed: seed_n(m.rand16_seed, 6),
                    pixel_fractal_timer: (m.anim_tick as u32).wrapping_add(flow_interval(m, 3000)),
                    ..m
                })
            }
        }),
        28 => ({
            let s = before.rand16_seed;
            let timer = (before.anim_tick as u32).wrapping_add(rain_interval(before, 500));
            if (before.anim_tick as u32) <= before.pixel_rain_timer {
                after == before
            } else if rand8_of(seed2(s)) % 4 >= 2 {
                color_set(
                    RgbMatrix { rand16_seed: seed2(s), pixel_rain_timer: timer, ..before },
                    after,
                    random_led(rand16_next(s)),
                    (0u8, 0u8, 0u8),
                )
            } else {
                color_set(
                    RgbMatrix { rand16_seed: seed4(s), pixel_rain_timer: timer, ..before },
                    after,
                    random_led(rand16_next(s)),
                    hsv_to_rgb_of(rand8_of(seed3(s)), random_sat(seed4(s)), before.val),
                )
            }
        }),
        29 => painted(before, after, Seq::new(LED_COUNT as nat, |i: int| rainbow_beacon_rule(before.hue, centred(cos8_of(time_of(before.anim_tick, before.speed, 4))), centred(sin8_of(time_of(before.anim_tick, before.speed, 4))), before.sat, before.val, i))),
        30 => painted(before, after, Seq::new(LED_COUNT as nat, |i: int| rainbow_pinwheels_rule(before.hue, centred(cos8_of(time_of(before.anim_tick, before.speed, 4))), centred(sin8_of(time_of(before.anim_tick, before.speed, 4))), before.sat, before.val, i))),
        31 => ({
            let s = before.rand16_seed;
            if scale16by8_of(before.anim_tick, qadd8_of(before.speed, 16)) % 10 == 0 {
                color_set(
                    RgbMatrix { rand16_seed: seed2(s), ..before },
                    after,
                    random_led(rand16_next(s)),
                    hsv_to_rgb_of(raindrop_hue(before.hue, seed2(s)), before.sat, before.val),
                )
            } else {
                after == before
            }
        }),
        32 => painted(before, after, Seq::new(LED_COUNT as nat, |i: int| riverflow_rule(before.anim_tick, before.speed, before.hue, before.sat, before.val, i))),
        33 => painted(before, after, Seq::new(LED_COUNT as nat, |i: int| solid_reactive_colour(before, i))),
        34 => painted(before, after, Seq::new(LED_COUNT as nat, |i: int| solid_reactive_simple_colour(before, i))),
        35 => painted(
            before,
            after,
            Seq::new(LED_COUNT as nat, |i: int| splash_colour(before, i, SplashKind::Splash, qsub8_of(before.hit_count, 1) as int)),
        ),
        36 => painted(
            before,
            after,
            Seq::new(LED_COUNT as nat, |i: int| splash_colour(before, i, SplashKind::Splash, 0)),
        ),
        37 => painted(
            before,
            after,
            Seq::new(LED_COUNT as nat, |i: int| splash_colour(before, i, SplashKind::Solid, qsub8_of(before.hit_count, 1) as int)),
        ),
        38 => painted(
            before,
            after,
            Seq::new(LED_COUNT as nat, |i: int| splash_colour(before, i, SplashKind::Solid, 0)),
        ),
        39 => painted(
            before,
            after,
            Seq::new(LED_COUNT as nat, |i: int| splash_colour(before, i, SplashKind::Cross, qsub8_of(before.hit_count, 1) as int)),
        ),
        40 => painted(
            before,
            after,
            Seq::new(LED_COUNT as nat, |i: int| splash_colour(before, i, SplashKind::Cross, 0)),
        ),
        41 => painted(
            before,
            after,
            Seq::new(LED_COUNT as nat, |i: int| splash_colour(before, i, SplashKind::Nexus, qsub8_of(before.hit_count, 1) as int)),
        ),
        42 => painted(
            before,
            after,
            Seq::new(LED_COUNT as nat, |i: int| splash_colour(before, i, SplashKind::Nexus, 0)),
        ),
        43 => painted(
            before,
            after,
            Seq::new(LED_COUNT as nat, |i: int| splash_colour(before, i, SplashKind::Wide, qsub8_of(before.hit_count, 1) as int)),
        ),
        44 => painted(
            before,
            after,
            Seq::new(LED_COUNT as nat, |i: int| splash_colour(before, i, SplashKind::Wide, 0)),
        ),
        45 => ({
            let s = before.rand16_seed;
            if star_due(before) {
                color_set(
                    RgbMatrix { rand16_seed: rand16_next(s), ..before },
                    after,
                    random_led(rand16_next(s)),
                    hsv_to_rgb_of(before.hue, before.sat, star_val(before)),
                )
            } else {
                after == before
            }
        }),
        46 => ({
            let s = before.rand16_seed;
            if star_due(before) {
                color_set(
                    RgbMatrix { rand16_seed: seed2(s), ..before },
                    after,
                    random_led(rand16_next(s)),
                    hsv_to_rgb_of((before.hue + star_offset(seed2(s))) as u8, before.sat, star_val(before)),
                )
            } else {
                after == before
            }
        }),
        47 => ({
            let s = before.rand16_seed;
            let sat: int = before.sat + star_offset(seed2(s));
            if star_due(before) {
                color_set(
                    RgbMatrix { rand16_seed: seed2(s), ..before },
                    after,
                    random_led(rand16_next(s)),
                    hsv_to_rgb_of(before.hue, (if sat < 0 { 0 } else if sat > 255 { 255 } else { sat }) as u8, star_val(before)),
                )
            } else {
                after == before
            }
        }),
        48 => ({
            let decrease = before.decrease_heatmap || before.heatmap_decrease_timer >= 25;
            &&& leds_of(after) == heat_writes(leds_of(before), before, 114)
            &&& forall|r: int, c: int|
                0 <= r < MATRIX_ROWS && 0 <= c < MATRIX_COLS ==> #[trigger] after.frame_buffer@[r]@[c] == (if decrease
                    && ordered_led(r, c) != NO_LED {
                    qsub8_of(before.frame_buffer@[r]@[c], 1)
                } else {
                    before.frame_buffer@[r]@[c]
                })
            &&& after == (RgbMatrix {
                buffer: after.buffer,
                dirty1: after.dirty1,
                dirty2: after.dirty2,
                frame_buffer: after.frame_buffer,
                decrease_heatmap: false,
                heatmap_decrease_timer: if before.heatmap_decrease_timer >= 25 {
                    0
                } else {
                    before.heatmap_decrease_timer.wrapping_add(1)
                },
                ..before
            })
        }),
        49 => all_set(before, after, hsv_to_rgb_of(before.hue, before.sat, before.val)),
        _ => painted(before, after, Seq::new(LED_COUNT as nat, |i: int| cycle_left_right_rule(time_of(before.anim_tick, before.speed, 4), before.sat, before.val, i))),
    }
}

/// Dispatch an animation tick to the current mode.
pub fn tick_animation(rgb: &mut RgbMatrix)
    ensures
        animation_frame(*old(rgb), *final(rgb)),
{
    if rgb.mode == 0 {
        return;
    }
    match rgb.mode {
        1 => render_breathing(rgb),
        2 => render_cycle_all(rgb),
        3 => render_cycle_up_down(rgb),
        4 => render_cycle_left_right(rgb),
        5 => render_cycle_out_in(rgb),
        6 => render_gradient_up_down(rgb),
        7 => render_gradient_left_right(rgb),
        8 => render_rainbow_moving_chevron(rgb),
        9 => render_alphas_mods(rgb),
        10 => render_band_pinwheel_sat(rgb),
        11 => render_band_pinwheel_val(rgb),
        12 => render_band_sat(rgb),
        13 => render_band_spiral_sat(rgb),
        14 => render_band_spiral_val(rgb),
        15 => render_band_val(rgb),
        16 => render_cycle_out_in_dual(rgb),
        17 => render_cycle_pinwheel(rgb),
        18 => render_cycle_spiral(rgb),
        19 => render_digital_rain(rgb),
        20 => render_dual_beacon(rgb),
        21 => render_flower_blooming(rgb),
        22 => render_hue_breathing(rgb),
        23 => render_hue_pendulum(rgb),
        24 => render_hue_wave(rgb),
        25 => render_jellybean_raindrops(rgb),
        26 => render_pixel_flow(rgb),
        27 => render_pixel_fractal(rgb),
        28 => render_pixel_rain(rgb),
        29 => render_rainbow_beacon(rgb),
        30 => render_rainbow_pinwheels(rgb),
        31 => render_raindrops(rgb),
        32 => render_riverflow(rgb),
        33 => render_solid_reactive(rgb),
        34 => render_solid_reactive_simple(rgb),
        35 => render_splash(rgb),
        36 => render_multisplash(rgb),
        37 => render_solid_splash(rgb),
        38 => render_solid_multisplash(rgb),
        39 => render_solid_reactive_cross(rgb),
        40 => render_solid_reactive_multicross(rgb),
        41 => render_solid_reactive_nexus_v2(rgb),
        42 => render_solid_reactive_multinexus(rgb),
        43 => render_solid_reactive_wide(rgb),
        44 => render_solid_reactive_multiwide(rgb),
        45 => render_starlight(rgb),
        46 => render_starlight_dual_hue(rgb),
        47 => render_starlight_dual_sat(rgb),
        48 => render_typing_heatmap(rgb),
        49 => render_solid_color(rgb),
        _ => render_cycle_left_right(rgb),
    }
}

} // verus!
