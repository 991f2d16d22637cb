//! Remapping of logical pixels onto the physical byte layout of the two
//! LED drivers: the 13x9 matrix, whose wiring runs in alternating row
//! order with columns grouped in blocks of ten and color channel order
//! alternating by column parity, and the 28-LED shim, whose wiring is an
//! arbitrary per-LED lookup table.
//!
//! Slots are numbered `t = pixel * 3 + channel` (channel 0 red, 1 green,
//! 2 blue); each slot maps to one byte offset in the driver's pixel
//! register file. The wiring invariants are proved once and for all: the
//! matrix's formula-derived map is a bijection onto the driver's 351
//! bytes ([`lemma_matrix_wiring_bijective`]), and the shim's lookup table
//! never maps two slots to one byte ([`lemma_shim_wiring_injective`]), so
//! no write can collide with another.

use crate::codec::{scale_channel, spec_scaled, Frame, IntensityCurve, Pixel};
use vstd::prelude::*;

verus! {

/// Logical width of the LED matrix.
pub const MATRIX_WIDTH: usize = 13;

/// Logical height of the LED matrix.
pub const MATRIX_HEIGHT: usize = 9;

/// Number of channel slots (and of driver bytes) of the LED matrix.
pub const MATRIX_BYTES: usize = 351;

/// Bytes of the matrix driver's first write region; the rest go to the
/// second region.
pub const MATRIX_FIRST_REGION: usize = 180;

/// Number of LEDs on the shim.
pub const SHIM_PIXELS: usize = 28;

/// Size of the shim driver's pixel register file in bytes.
pub const SHIM_BYTES: usize = 144;

/// The physical row driven for a logical row of the matrix.
pub open spec fn spec_matrix_row(y: int) -> int {
    seq![8, 5, 4, 3, 2, 1, 0, 7, 6][y]
}

/// The base byte offset of a matrix pixel: columns below ten advance in
/// row-sized strides, the last three columns sit in a block after them.
pub open spec fn spec_matrix_base(x: int, y: int) -> int {
    let row = spec_matrix_row(y);
    if x < 10 {
        3 * (x + row * 10)
    } else {
        3 * (x + 80 + row * 3)
    }
}

/// The byte offset of channel `c` of matrix pixel `p` (row-major): the
/// channel order within a pixel alternates with column parity.
pub open spec fn spec_matrix_offset(p: int, c: int) -> int {
    let x = p % 13;
    let y = p / 13;
    let base = spec_matrix_base(x, y);
    if x % 2 == 1 || x == 12 {
        if c == 0 {
            base + 1
        } else if c == 1 {
            base
        } else {
            base + 2
        }
    } else {
        if c == 0 {
            base + 2
        } else if c == 1 {
            base + 1
        } else {
            base
        }
    }
}

/// The byte offset of flat slot `t = pixel * 3 + channel`.
pub open spec fn spec_matrix_slot(t: int) -> int {
    spec_matrix_offset(t / 3, t % 3)
}

/// Some slot's wiring offset is `o`.
pub open spec fn matrix_offset_used(o: int) -> bool {
    exists|t: int| 0 <= t < 351 && #[trigger] spec_matrix_slot(t) == o
}

/// The matrix wiring is a bijection between the 351 channel slots and the
/// 351 driver bytes: every offset is in range, no two slots share an
/// offset, and no offset is left unused.
pub open spec fn matrix_wiring_ok() -> bool {
    &&& forall|t: int| 0 <= t < 351 ==> 0 <= #[trigger] spec_matrix_slot(t) < 351
    &&& forall|t1: int, t2: int|
        0 <= t1 < 351 && 0 <= t2 < 351 && t1 != t2 ==> spec_matrix_slot(t1) != spec_matrix_slot(t2)
    &&& forall|o: int| 0 <= o < 351 ==> #[trigger] matrix_offset_used(o)
}

/// The logical row whose wiring drives a physical row: the inverse of
/// [`spec_matrix_row`].
pub open spec fn spec_matrix_row_inv(row: int) -> int {
    seq![6, 5, 4, 3, 2, 1, 8, 7, 0][row]
}

/// The slot that drives byte offset `o`: the inverse of
/// [`spec_matrix_slot`], recovered from the offset's position within the
/// two wiring blocks.
pub open spec fn spec_matrix_slot_inv(o: int) -> int {
    let k = o / 3;
    let co = o % 3;
    let x = if k < 90 {
        k % 10
    } else {
        10 + (k - 90) % 3
    };
    let row = if k < 90 {
        k / 10
    } else {
        (k - 90) / 3
    };
    let y = spec_matrix_row_inv(row);
    let c = if x % 2 == 1 || x == 12 {
        if co == 0 {
            1int
        } else if co == 1 {
            0int
        } else {
            2int
        }
    } else {
        2 - co
    };
    (y * 13 + x) * 3 + c
}

/// The row lookup and its inverse cancel.
proof fn lemma_matrix_row_inverts(y: int)
    requires
        0 <= y < 9,
    ensures
        0 <= spec_matrix_row(y) <= 8,
        spec_matrix_row_inv(spec_matrix_row(y)) == y,
{
    if y == 0 {
        assert(spec_matrix_row(0) == 8);
        assert(spec_matrix_row_inv(8) == 0);
    } else if y == 1 {
        assert(spec_matrix_row(1) == 5);
        assert(spec_matrix_row_inv(5) == 1);
    } else if y == 2 {
        assert(spec_matrix_row(2) == 4);
        assert(spec_matrix_row_inv(4) == 2);
    } else if y == 3 {
        assert(spec_matrix_row(3) == 3);
        assert(spec_matrix_row_inv(3) == 3);
    } else if y == 4 {
        assert(spec_matrix_row(4) == 2);
        assert(spec_matrix_row_inv(2) == 4);
    } else if y == 5 {
        assert(spec_matrix_row(5) == 1);
        assert(spec_matrix_row_inv(1) == 5);
    } else if y == 6 {
        assert(spec_matrix_row(6) == 0);
        assert(spec_matrix_row_inv(0) == 6);
    } else if y == 7 {
        assert(spec_matrix_row(7) == 7);
        assert(spec_matrix_row_inv(7) == 7);
    } else {
        assert(spec_matrix_row(8) == 6);
        assert(spec_matrix_row_inv(6) == 8);
    }
}

/// The physical row of an in-range offset, and its logical row, cancel
/// the other way around.
proof fn lemma_matrix_row_inv_inverts(row: int)
    requires
        0 <= row < 9,
    ensures
        0 <= spec_matrix_row_inv(row) <= 8,
        spec_matrix_row(spec_matrix_row_inv(row)) == row,
{
    if row == 0 {
        assert(spec_matrix_row_inv(0) == 6);
        assert(spec_matrix_row(6) == 0);
    } else if row == 1 {
        assert(spec_matrix_row_inv(1) == 5);
        assert(spec_matrix_row(5) == 1);
    } else if row == 2 {
        assert(spec_matrix_row_inv(2) == 4);
        assert(spec_matrix_row(4) == 2);
    } else if row == 3 {
        assert(spec_matrix_row_inv(3) == 3);
        assert(spec_matrix_row(3) == 3);
    } else if row == 4 {
        assert(spec_matrix_row_inv(4) == 2);
        assert(spec_matrix_row(2) == 4);
    } else if row == 5 {
        assert(spec_matrix_row_inv(5) == 1);
        assert(spec_matrix_row(1) == 5);
    } else if row == 6 {
        assert(spec_matrix_row_inv(6) == 8);
        assert(spec_matrix_row(8) == 6);
    } else if row == 7 {
        assert(spec_matrix_row_inv(7) == 7);
        assert(spec_matrix_row(7) == 7);
    } else {
        assert(spec_matrix_row_inv(8) == 0);
        assert(spec_matrix_row(0) == 8);
    }
}

/// Round trip slot -> offset -> slot: every slot's offset is in range and
/// the inverse recovers the slot, so no two slots collide.
#[verifier::rlimit(100)]
proof fn lemma_matrix_slot_inverts(t: int)
    requires
        0 <= t < 351,
    ensures
        0 <= spec_matrix_slot(t) < 351,
        spec_matrix_slot_inv(spec_matrix_slot(t)) == t,
{
    let p = t / 3;
    let c = t % 3;
    let x = p % 13;
    let y = p / 13;
    assert(t == (y * 13 + x) * 3 + c) by (nonlinear_arith)
        requires
            p == t / 3,
            c == t % 3,
            x == p % 13,
            y == p / 13,
            0 <= t < 351,
    ;
    let row = spec_matrix_row(y);
    lemma_matrix_row_inverts(y);
    let o = spec_matrix_slot(t);
    let off = o - spec_matrix_base(x, y);
    assert(0 <= off < 3);
    if x < 10 {
        let m = x + row * 10;
        assert(o == 3 * m + off);
        assert(m <= 89) by (nonlinear_arith)
            requires
                m == x + row * 10,
                0 <= x < 10,
                0 <= row <= 8,
        ;
        assert(o / 3 == m && o % 3 == off) by (nonlinear_arith)
            requires
                o == 3 * m + off,
                0 <= off < 3,
                m >= 0,
        ;
        assert(m % 10 == x && m / 10 == row) by (nonlinear_arith)
            requires
                m == x + row * 10,
                0 <= x < 10,
                0 <= row <= 8,
        ;
    } else {
        let m = x + 80 + row * 3;
        assert(o == 3 * m + off);
        assert(90 <= m <= 116) by (nonlinear_arith)
            requires
                m == x + 80 + row * 3,
                10 <= x < 13,
                0 <= row <= 8,
        ;
        assert(o / 3 == m && o % 3 == off) by (nonlinear_arith)
            requires
                o == 3 * m + off,
                0 <= off < 3,
                m >= 0,
        ;
        assert((m - 90) % 3 == x - 10 && (m - 90) / 3 == row) by (nonlinear_arith)
            requires
                m == x + 80 + row * 3,
                10 <= x < 13,
                0 <= row <= 8,
        ;
    }
}

/// Round trip offset -> slot -> offset: every offset's slot is in range
/// and maps back to it, so no offset is left unused.
#[verifier::rlimit(100)]
proof fn lemma_matrix_inv_inverts(o: int)
    requires
        0 <= o < 351,
    ensures
        0 <= spec_matrix_slot_inv(o) < 351,
        spec_matrix_slot(spec_matrix_slot_inv(o)) == o,
{
    let k = o / 3;
    let co = o % 3;
    assert(o == 3 * k + co && 0 <= co < 3 && 0 <= k < 117) by (nonlinear_arith)
        requires
            k == o / 3,
            co == o % 3,
            0 <= o < 351,
    ;
    let x = if k < 90 {
        k % 10
    } else {
        10 + (k - 90) % 3
    };
    let row = if k < 90 {
        k / 10
    } else {
        (k - 90) / 3
    };
    if k < 90 {
        assert(0 <= x < 10 && 0 <= row <= 8 && k == x + row * 10) by (nonlinear_arith)
            requires
                x == k % 10,
                row == k / 10,
                0 <= k < 90,
        ;
    } else {
        assert(10 <= x < 13 && 0 <= row <= 8 && k == x + 80 + row * 3) by (nonlinear_arith)
            requires
                x == 10 + (k - 90) % 3,
                row == (k - 90) / 3,
                90 <= k < 117,
        ;
    }
    lemma_matrix_row_inv_inverts(row);
    let y = spec_matrix_row_inv(row);
    let c = if x % 2 == 1 || x == 12 {
        if co == 0 {
            1int
        } else if co == 1 {
            0int
        } else {
            2int
        }
    } else {
        2 - co
    };
    let t = (y * 13 + x) * 3 + c;
    assert(t == spec_matrix_slot_inv(o));
    assert(0 <= t < 351 && t / 3 == y * 13 + x && t % 3 == c) by (nonlinear_arith)
        requires
            t == (y * 13 + x) * 3 + c,
            0 <= x < 13,
            0 <= y <= 8,
            0 <= c < 3,
    ;
    let p = y * 13 + x;
    assert(p % 13 == x && p / 13 == y) by (nonlinear_arith)
        requires
            p == y * 13 + x,
            0 <= x < 13,
            0 <= y <= 8,
    ;
}

/// The matrix wiring really is a bijection: the slot map and its inverse
/// cancel in both directions, for the fixed hardware wiring table.
pub proof fn lemma_matrix_wiring_bijective()
    ensures
        matrix_wiring_ok(),
{
    assert forall|t: int| 0 <= t < 351 implies 0 <= #[trigger] spec_matrix_slot(t) < 351 by {
        lemma_matrix_slot_inverts(t);
    }
    assert forall|t1: int, t2: int|
        0 <= t1 < 351 && 0 <= t2 < 351 && t1 != t2 implies spec_matrix_slot(t1)
        != spec_matrix_slot(t2) by {
        lemma_matrix_slot_inverts(t1);
        lemma_matrix_slot_inverts(t2);
    }
    assert forall|o: int| 0 <= o < 351 implies #[trigger] matrix_offset_used(o) by {
        lemma_matrix_inv_inverts(o);
        assert(0 <= spec_matrix_slot_inv(o) < 351 && spec_matrix_slot(spec_matrix_slot_inv(o))
            == o);
    }
}

/// The physical row for a logical matrix row.
fn matrix_row(y: usize) -> (r: usize)
    requires
        y < 9,
    ensures
        r == spec_matrix_row(y as int),
        r < 9,
{
    if y == 0 {
        8
    } else if y == 1 {
        5
    } else if y == 2 {
        4
    } else if y == 3 {
        3
    } else if y == 4 {
        2
    } else if y == 5 {
        1
    } else if y == 6 {
        0
    } else if y == 7 {
        7
    } else {
        6
    }
}

/// The driver byte offset of flat slot `t`.
pub fn matrix_slot(t: usize) -> (r: usize)
    requires
        t < 351,
    ensures
        r == spec_matrix_slot(t as int),
        r < 351,
{
    let p: usize = t / 3;
    let c: usize = t % 3;
    let x: usize = p % 13;
    let y: usize = p / 13;
    let row: usize = matrix_row(y);
    let base: usize = if x < 10 {
        3 * (x + row * 10)
    } else {
        3 * (x + 80 + row * 3)
    };
    if x % 2 == 1 || x == 12 {
        if c == 0 {
            base + 1
        } else if c == 1 {
            base
        } else {
            base + 2
        }
    } else {
        if c == 0 {
            base + 2
        } else if c == 1 {
            base + 1
        } else {
            base
        }
    }
}

/// Channel `c` of a pixel.
pub open spec fn spec_channel(p: Pixel, c: int) -> u8 {
    if c == 0 {
        p.red
    } else if c == 1 {
        p.green
    } else {
        p.blue
    }
}

/// The byte the matrix driver expects for slot `t`: the matrix is mounted
/// rotated, so pixel `p` reads from logical pixel `116 - p`, brightness
/// scaled and put through the intensity curve.
pub open spec fn spec_matrix_expected(f: Frame, curve: IntensityCurve, t: int) -> u8 {
    let p = t / 3;
    let c = t % 3;
    let pix = f.pixels[116 - p];
    curve.spec_at(spec_scaled(spec_channel(pix, c), pix.brightness) as u8)
}

/// The byte the matrix driver expects for slot `t`.
fn matrix_expected(frame: &Frame, curve: &IntensityCurve, t: usize) -> (r: u8)
    requires
        frame.wf(),
        frame.width == 13,
        frame.height == 9,
        curve.wf(),
        t < 351,
    ensures
        r == spec_matrix_expected(*frame, *curve, t as int),
{
    let p: usize = t / 3;
    let c: usize = t % 3;
    let pix: Pixel = frame.pixels[116 - p];
    let channel: u8 = if c == 0 {
        pix.red
    } else if c == 1 {
        pix.green
    } else {
        pix.blue
    };
    curve.apply(scale_channel(channel, pix.brightness))
}

/// Remaps a 13x9 frame onto the matrix driver's two write regions. Every
/// one of the 351 slot bytes lands at its wiring offset in the
/// concatenation of the two regions; the split after byte 180 matches the
/// driver's two register pages.
pub fn remap_matrix(frame: &Frame, curve: &IntensityCurve) -> (r: (Vec<u8>, Vec<u8>))
    requires
        frame.wf(),
        frame.width == 13,
        frame.height == 9,
        curve.wf(),
    ensures
        r.0@.len() == 180,
        r.1@.len() == 171,
        forall|t: int|
            0 <= t < 351 ==> (r.0@ + r.1@)[spec_matrix_slot(t)] == spec_matrix_expected(
                *frame,
                *curve,
                t,
            ),
{
    let mut full: Vec<u8> = Vec::new();
    let mut z: usize = 0;
    while z < 351
        invariant
            z <= 351,
            full@.len() == z,
        decreases 351 - z,
    {
        full.push(0);
        z = z + 1;
    }
    let mut t: usize = 0;
    while t < 351
        invariant
            frame.wf(),
            frame.width == 13,
            frame.height == 9,
            curve.wf(),
            t <= 351,
            full@.len() == 351,
            forall|u: int|
                0 <= u < t ==> full@[spec_matrix_slot(u)] == spec_matrix_expected(
                    *frame,
                    *curve,
                    u,
                ),
        decreases 351 - t,
    {
        proof {
            lemma_matrix_wiring_bijective();
        }
        let idx: usize = matrix_slot(t);
        let val: u8 = matrix_expected(frame, curve, t);
        full.set(idx, val);
        t = t + 1;
    }
    let mut first: Vec<u8> = Vec::new();
    let mut i: usize = 0;
    while i < 180
        invariant
            i <= 180,
            full@.len() == 351,
            first@ == full@.subrange(0, i as int),
        decreases 180 - i,
    {
        first.push(full[i]);
        proof {
            assert(first@ =~= full@.subrange(0, i + 1));
        }
        i = i + 1;
    }
    let mut second: Vec<u8> = Vec::new();
    let mut j: usize = 180;
    while j < 351
        invariant
            180 <= j <= 351,
            full@.len() == 351,
            second@ == full@.subrange(180, j as int),
        decreases 351 - j,
    {
        second.push(full[j]);
        proof {
            assert(second@ =~= full@.subrange(180, j + 1));
        }
        j = j + 1;
    }
    proof {
        assert(first@ + second@ =~= full@);
    }
    (first, second)
}

/// The shim's fixed wiring table: the byte offset of flat slot
/// `t = led * 3 + channel`.
pub open spec fn spec_shim_slot(t: int) -> int {
    seq![
        118, 69, 85, 117, 68, 101, 116, 84, 100, 115, 83, 99, 114, 82, 98, 113, 81, 97, 112, 80,
        96, 134, 21, 37, 133, 20, 36, 132, 19, 35, 131, 18, 34, 130, 17, 50, 129, 33, 49, 128, 32,
        48, 127, 47, 63, 121, 41, 57, 122, 25, 58, 123, 26, 42, 124, 27, 43, 125, 28, 44, 126, 29,
        45, 15, 95, 111, 8, 89, 105, 9, 90, 106, 10, 91, 107, 11, 92, 108, 12, 76, 109, 13, 77, 93,
    ][t]
}

/// The shim wiring never maps two slots to one driver byte, and every
/// slot's offset lies inside the 144-byte register file. Unlike the
/// matrix, the shim leaves driver bytes unused: it has 28 LEDs on a
/// 48-LED driver.
pub open spec fn shim_wiring_ok() -> bool {
    &&& forall|t: int| 0 <= t < 84 ==> 0 <= #[trigger] spec_shim_slot(t) < 144
    &&& forall|t1: int, t2: int|
        0 <= t1 < 84 && 0 <= t2 < 84 && t1 != t2 ==> spec_shim_slot(t1) != spec_shim_slot(t2)
}

/// The shim's wiring table as runtime data, equal to [`spec_shim_slot`]
/// entry for entry.
pub fn shim_table() -> (r: Vec<u8>)
    ensures
        r@.len() == 84,
        forall|t: int| 0 <= t < 84 ==> r@[t] == spec_shim_slot(t) as u8,
{
    let table: Vec<u8> = vec![
        118, 69, 85, 117, 68, 101, 116, 84, 100, 115, 83, 99, 114, 82, 98, 113, 81, 97, 112, 80,
        96, 134, 21, 37, 133, 20, 36, 132, 19, 35, 131, 18, 34, 130, 17, 50, 129, 33, 49, 128, 32,
        48, 127, 47, 63, 121, 41, 57, 122, 25, 58, 123, 26, 42, 124, 27, 43, 125, 28, 44, 126, 29,
        45, 15, 95, 111, 8, 89, 105, 9, 90, 106, 10, 91, 107, 11, 92, 108, 12, 76, 109, 13, 77, 93,
    ];
    proof {
        assert forall|t: int| 0 <= t < 84 implies table@[t] == spec_shim_slot(t) as u8 by {
            assert(table@[t] == spec_shim_slot(t) as u8);
        }
    }
    table
}

/// The byte the shim driver expects for slot `t`: the LED's channel,
/// brightness scaled and put through the intensity curve.
pub open spec fn spec_shim_expected(f: Frame, curve: IntensityCurve, t: int) -> u8 {
    let p = t / 3;
    let c = t % 3;
    let pix = f.pixels[p];
    curve.spec_at(spec_scaled(spec_channel(pix, c), pix.brightness) as u8)
}

/// Remaps a 28-LED frame onto the shim driver's 144-byte register file.
/// Each slot byte lands at its wiring offset; bytes the wiring does not
/// reach stay zero.
pub fn remap_shim(frame: &Frame, curve: &IntensityCurve) -> (r: Vec<u8>)
    requires
        frame.wf(),
        frame.width == 28,
        frame.height == 1,
        curve.wf(),
    ensures
        r@.len() == 144,
        forall|t: int|
            0 <= t < 84 ==> r@[spec_shim_slot(t)] == spec_shim_expected(*frame, *curve, t),
        forall|o: int|
            #![trigger r@[o]]
            0 <= o < 144 ==> ((forall|t: int| 0 <= t < 84 ==> #[trigger] spec_shim_slot(t) != o)
                ==> r@[o] == 0),
{
    let table: Vec<u8> = shim_table();
    let mut out: Vec<u8> = Vec::new();
    let mut z: usize = 0;
    while z < 144
        invariant
            z <= 144,
            out@.len() == z,
            forall|o: int| 0 <= o < z ==> out@[o] == 0,
        decreases 144 - z,
    {
        out.push(0);
        z = z + 1;
    }
    let mut t: usize = 0;
    while t < 84
        invariant
            frame.wf(),
            frame.width == 28,
            frame.height == 1,
            curve.wf(),
            t <= 84,
            out@.len() == 144,
            table@.len() == 84,
            forall|k: int| 0 <= k < 84 ==> table@[k] == spec_shim_slot(k) as u8,
            forall|u: int|
                0 <= u < t ==> out@[spec_shim_slot(u)] == spec_shim_expected(*frame, *curve, u),
            forall|o: int|
                #![trigger out@[o]]
                0 <= o < 144 ==> ((forall|u: int| 0 <= u < t ==> #[trigger] spec_shim_slot(u) != o)
                    ==> out@[o] == 0),
        decreases 84 - t,
    {
        proof {
            lemma_shim_wiring_injective();
        }
        let p: usize = t / 3;
        let c: usize = t % 3;
        let pix: Pixel = frame.pixels[p];
        let channel: u8 = if c == 0 {
            pix.red
        } else if c == 1 {
            pix.green
        } else {
            pix.blue
        };
        let val: u8 = curve.apply(scale_channel(channel, pix.brightness));
        let idx: usize = table[t] as usize;
        proof {
            assert(idx == spec_shim_slot(t as int));
            assert(val == spec_shim_expected(*frame, *curve, t as int));
        }
        out.set(idx, val);
        t = t + 1;
    }
    out
}

/// The slot that drives shim byte offset `o`, or -1 where no slot does:
/// the inverse of [`spec_shim_slot`] over the used offsets.
pub open spec fn spec_shim_slot_inv(o: int) -> int {
    seq![
        -1, -1, -1, -1, -1, -1, -1, -1, 66, 69, 72, 75, 78, 81, -1, 63, -1, 34, 31, 28,
        25, 22, -1, -1, -1, 49, 52, 55, 58, 61, -1, -1, 40, 37, 32, 29, 26, 23, -1, -1,
        -1, 46, 53, 56, 59, 62, -1, 43, 41, 38, 35, -1, -1, -1, -1, -1, -1, 47, 50, -1,
        -1, -1, -1, 44, -1, -1, -1, -1, 4, 1, -1, -1, -1, -1, -1, -1, 79, 82, -1, -1,
        19, 16, 13, 10, 7, 2, -1, -1, -1, 67, 70, 73, 76, 83, -1, 64, 20, 17, 14, 11,
        8, 5, -1, -1, -1, 68, 71, 74, 77, 80, -1, 65, 18, 15, 12, 9, 6, 3, 0, -1,
        -1, 45, 48, 51, 54, 57, 60, 42, 39, 36, 33, 30, 27, 24, 21, -1, -1, -1, -1, -1,
        -1, -1, -1, -1,
    ][o]
}

/// Round trip for slots 0 to 27.
proof fn lemma_shim_slot_inverts_low(t: int)
    requires
        0 <= t < 28,
    ensures
        0 <= spec_shim_slot(t) < 144,
        spec_shim_slot_inv(spec_shim_slot(t)) == t,
{
    if t == 0 {
        assert(spec_shim_slot(0) == 118);
        assert(spec_shim_slot_inv(118) == 0);
    } else if t == 1 {
        assert(spec_shim_slot(1) == 69);
        assert(spec_shim_slot_inv(69) == 1);
    } else if t == 2 {
        assert(spec_shim_slot(2) == 85);
        assert(spec_shim_slot_inv(85) == 2);
    } else if t == 3 {
        assert(spec_shim_slot(3) == 117);
        assert(spec_shim_slot_inv(117) == 3);
    } else if t == 4 {
        assert(spec_shim_slot(4) == 68);
        assert(spec_shim_slot_inv(68) == 4);
    } else if t == 5 {
        assert(spec_shim_slot(5) == 101);
        assert(spec_shim_slot_inv(101) == 5);
    } else if t == 6 {
        assert(spec_shim_slot(6) == 116);
        assert(spec_shim_slot_inv(116) == 6);
    } else if t == 7 {
        assert(spec_shim_slot(7) == 84);
        assert(spec_shim_slot_inv(84) == 7);
    } else if t == 8 {
        assert(spec_shim_slot(8) == 100);
        assert(spec_shim_slot_inv(100) == 8);
    } else if t == 9 {
        assert(spec_shim_slot(9) == 115);
        assert(spec_shim_slot_inv(115) == 9);
    } else if t == 10 {
        assert(spec_shim_slot(10) == 83);
        assert(spec_shim_slot_inv(83) == 10);
    } else if t == 11 {
        assert(spec_shim_slot(11) == 99);
        assert(spec_shim_slot_inv(99) == 11);
    } else if t == 12 {
        assert(spec_shim_slot(12) == 114);
        assert(spec_shim_slot_inv(114) == 12);
    } else if t == 13 {
        assert(spec_shim_slot(13) == 82);
        assert(spec_shim_slot_inv(82) == 13);
    } else if t == 14 {
        assert(spec_shim_slot(14) == 98);
        assert(spec_shim_slot_inv(98) == 14);
    } else if t == 15 {
        assert(spec_shim_slot(15) == 113);
        assert(spec_shim_slot_inv(113) == 15);
    } else if t == 16 {
        assert(spec_shim_slot(16) == 81);
        assert(spec_shim_slot_inv(81) == 16);
    } else if t == 17 {
        assert(spec_shim_slot(17) == 97);
        assert(spec_shim_slot_inv(97) == 17);
    } else if t == 18 {
        assert(spec_shim_slot(18) == 112);
        assert(spec_shim_slot_inv(112) == 18);
    } else if t == 19 {
        assert(spec_shim_slot(19) == 80);
        assert(spec_shim_slot_inv(80) == 19);
    } else if t == 20 {
        assert(spec_shim_slot(20) == 96);
        assert(spec_shim_slot_inv(96) == 20);
    } else if t == 21 {
        assert(spec_shim_slot(21) == 134);
        assert(spec_shim_slot_inv(134) == 21);
    } else if t == 22 {
        assert(spec_shim_slot(22) == 21);
        assert(spec_shim_slot_inv(21) == 22);
    } else if t == 23 {
        assert(spec_shim_slot(23) == 37);
        assert(spec_shim_slot_inv(37) == 23);
    } else if t == 24 {
        assert(spec_shim_slot(24) == 133);
        assert(spec_shim_slot_inv(133) == 24);
    } else if t == 25 {
        assert(spec_shim_slot(25) == 20);
        assert(spec_shim_slot_inv(20) == 25);
    } else if t == 26 {
        assert(spec_shim_slot(26) == 36);
        assert(spec_shim_slot_inv(36) == 26);
    } else {
        assert(spec_shim_slot(27) == 132);
        assert(spec_shim_slot_inv(132) == 27);
    }
}


/// Round trip for slots 28 to 55.
proof fn lemma_shim_slot_inverts_mid(t: int)
    requires
        28 <= t < 56,
    ensures
        0 <= spec_shim_slot(t) < 144,
        spec_shim_slot_inv(spec_shim_slot(t)) == t,
{
    if t == 28 {
        assert(spec_shim_slot(28) == 19);
        assert(spec_shim_slot_inv(19) == 28);
    } else if t == 29 {
        assert(spec_shim_slot(29) == 35);
        assert(spec_shim_slot_inv(35) == 29);
    } else if t == 30 {
        assert(spec_shim_slot(30) == 131);
        assert(spec_shim_slot_inv(131) == 30);
    } else if t == 31 {
        assert(spec_shim_slot(31) == 18);
        assert(spec_shim_slot_inv(18) == 31);
    } else if t == 32 {
        assert(spec_shim_slot(32) == 34);
        assert(spec_shim_slot_inv(34) == 32);
    } else if t == 33 {
        assert(spec_shim_slot(33) == 130);
        assert(spec_shim_slot_inv(130) == 33);
    } else if t == 34 {
        assert(spec_shim_slot(34) == 17);
        assert(spec_shim_slot_inv(17) == 34);
    } else if t == 35 {
        assert(spec_shim_slot(35) == 50);
        assert(spec_shim_slot_inv(50) == 35);
    } else if t == 36 {
        assert(spec_shim_slot(36) == 129);
        assert(spec_shim_slot_inv(129) == 36);
    } else if t == 37 {
        assert(spec_shim_slot(37) == 33);
        assert(spec_shim_slot_inv(33) == 37);
    } else if t == 38 {
        assert(spec_shim_slot(38) == 49);
        assert(spec_shim_slot_inv(49) == 38);
    } else if t == 39 {
        assert(spec_shim_slot(39) == 128);
        assert(spec_shim_slot_inv(128) == 39);
    } else if t == 40 {
        assert(spec_shim_slot(40) == 32);
        assert(spec_shim_slot_inv(32) == 40);
    } else if t == 41 {
        assert(spec_shim_slot(41) == 48);
        assert(spec_shim_slot_inv(48) == 41);
    } else if t == 42 {
        assert(spec_shim_slot(42) == 127);
        assert(spec_shim_slot_inv(127) == 42);
    } else if t == 43 {
        assert(spec_shim_slot(43) == 47);
        assert(spec_shim_slot_inv(47) == 43);
    } else if t == 44 {
        assert(spec_shim_slot(44) == 63);
        assert(spec_shim_slot_inv(63) == 44);
    } else if t == 45 {
        assert(spec_shim_slot(45) == 121);
        assert(spec_shim_slot_inv(121) == 45);
    } else if t == 46 {
        assert(spec_shim_slot(46) == 41);
        assert(spec_shim_slot_inv(41) == 46);
    } else if t == 47 {
        assert(spec_shim_slot(47) == 57);
        assert(spec_shim_slot_inv(57) == 47);
    } else if t == 48 {
        assert(spec_shim_slot(48) == 122);
        assert(spec_shim_slot_inv(122) == 48);
    } else if t == 49 {
        assert(spec_shim_slot(49) == 25);
        assert(spec_shim_slot_inv(25) == 49);
    } else if t == 50 {
        assert(spec_shim_slot(50) == 58);
        assert(spec_shim_slot_inv(58) == 50);
    } else if t == 51 {
        assert(spec_shim_slot(51) == 123);
        assert(spec_shim_slot_inv(123) == 51);
    } else if t == 52 {
        assert(spec_shim_slot(52) == 26);
        assert(spec_shim_slot_inv(26) == 52);
    } else if t == 53 {
        assert(spec_shim_slot(53) == 42);
        assert(spec_shim_slot_inv(42) == 53);
    } else if t == 54 {
        assert(spec_shim_slot(54) == 124);
        assert(spec_shim_slot_inv(124) == 54);
    } else {
        assert(spec_shim_slot(55) == 27);
        assert(spec_shim_slot_inv(27) == 55);
    }
}


/// Round trip for slots 56 to 83.
proof fn lemma_shim_slot_inverts_high(t: int)
    requires
        56 <= t < 84,
    ensures
        0 <= spec_shim_slot(t) < 144,
        spec_shim_slot_inv(spec_shim_slot(t)) == t,
{
    if t == 56 {
        assert(spec_shim_slot(56) == 43);
        assert(spec_shim_slot_inv(43) == 56);
    } else if t == 57 {
        assert(spec_shim_slot(57) == 125);
        assert(spec_shim_slot_inv(125) == 57);
    } else if t == 58 {
        assert(spec_shim_slot(58) == 28);
        assert(spec_shim_slot_inv(28) == 58);
    } else if t == 59 {
        assert(spec_shim_slot(59) == 44);
        assert(spec_shim_slot_inv(44) == 59);
    } else if t == 60 {
        assert(spec_shim_slot(60) == 126);
        assert(spec_shim_slot_inv(126) == 60);
    } else if t == 61 {
        assert(spec_shim_slot(61) == 29);
        assert(spec_shim_slot_inv(29) == 61);
    } else if t == 62 {
        assert(spec_shim_slot(62) == 45);
        assert(spec_shim_slot_inv(45) == 62);
    } else if t == 63 {
        assert(spec_shim_slot(63) == 15);
        assert(spec_shim_slot_inv(15) == 63);
    } else if t == 64 {
        assert(spec_shim_slot(64) == 95);
        assert(spec_shim_slot_inv(95) == 64);
    } else if t == 65 {
        assert(spec_shim_slot(65) == 111);
        assert(spec_shim_slot_inv(111) == 65);
    } else if t == 66 {
        assert(spec_shim_slot(66) == 8);
        assert(spec_shim_slot_inv(8) == 66);
    } else if t == 67 {
        assert(spec_shim_slot(67) == 89);
        assert(spec_shim_slot_inv(89) == 67);
    } else if t == 68 {
        assert(spec_shim_slot(68) == 105);
        assert(spec_shim_slot_inv(105) == 68);
    } else if t == 69 {
        assert(spec_shim_slot(69) == 9);
        assert(spec_shim_slot_inv(9) == 69);
    } else if t == 70 {
        assert(spec_shim_slot(70) == 90);
        assert(spec_shim_slot_inv(90) == 70);
    } else if t == 71 {
        assert(spec_shim_slot(71) == 106);
        assert(spec_shim_slot_inv(106) == 71);
    } else if t == 72 {
        assert(spec_shim_slot(72) == 10);
        assert(spec_shim_slot_inv(10) == 72);
    } else if t == 73 {
        assert(spec_shim_slot(73) == 91);
        assert(spec_shim_slot_inv(91) == 73);
    } else if t == 74 {
        assert(spec_shim_slot(74) == 107);
        assert(spec_shim_slot_inv(107) == 74);
    } else if t == 75 {
        assert(spec_shim_slot(75) == 11);
        assert(spec_shim_slot_inv(11) == 75);
    } else if t == 76 {
        assert(spec_shim_slot(76) == 92);
        assert(spec_shim_slot_inv(92) == 76);
    } else if t == 77 {
        assert(spec_shim_slot(77) == 108);
        assert(spec_shim_slot_inv(108) == 77);
    } else if t == 78 {
        assert(spec_shim_slot(78) == 12);
        assert(spec_shim_slot_inv(12) == 78);
    } else if t == 79 {
        assert(spec_shim_slot(79) == 76);
        assert(spec_shim_slot_inv(76) == 79);
    } else if t == 80 {
        assert(spec_shim_slot(80) == 109);
        assert(spec_shim_slot_inv(109) == 80);
    } else if t == 81 {
        assert(spec_shim_slot(81) == 13);
        assert(spec_shim_slot_inv(13) == 81);
    } else if t == 82 {
        assert(spec_shim_slot(82) == 77);
        assert(spec_shim_slot_inv(77) == 82);
    } else {
        assert(spec_shim_slot(83) == 93);
        assert(spec_shim_slot_inv(93) == 83);
    }
}

/// Round trip slot -> offset -> slot for the shim's whole wiring table.
proof fn lemma_shim_slot_inverts(t: int)
    requires
        0 <= t < 84,
    ensures
        0 <= spec_shim_slot(t) < 144,
        spec_shim_slot_inv(spec_shim_slot(t)) == t,
{
    if t < 28 {
        lemma_shim_slot_inverts_low(t);
    } else if t < 56 {
        lemma_shim_slot_inverts_mid(t);
    } else {
        lemma_shim_slot_inverts_high(t);
    }
}

/// The shim wiring really is injective and in range, for the fixed
/// hardware wiring table: the slot map and its inverse cancel.
pub proof fn lemma_shim_wiring_injective()
    ensures
        shim_wiring_ok(),
{
    assert forall|t: int| 0 <= t < 84 implies 0 <= #[trigger] spec_shim_slot(t) < 144 by {
        lemma_shim_slot_inverts(t);
    }
    assert forall|t1: int, t2: int|
        0 <= t1 < 84 && 0 <= t2 < 84 && t1 != t2 implies spec_shim_slot(t1) != spec_shim_slot(
        t2,
    ) by {
        lemma_shim_slot_inverts(t1);
        lemma_shim_slot_inverts(t2);
    }
}

} // verus!
