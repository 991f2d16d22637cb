//! The LED drivers' shared gamma curve: fixed perceptual-correction
//! data, shipped with the library and proved to satisfy the intensity
//! curve invariant once and for all.

use crate::codec::{curve_table_valid, lemma_adjacent_implies_sorted, IntensityCurve};
use vstd::prelude::*;

verus! {

/// The drivers' shared gamma curve: the fixed perceptual correction table
/// every LED peripheral uses, so perceived brightness is consistent
/// across differing hardware.
#[verifier::opaque]
pub open spec fn spec_led_gamma() -> Seq<u8> {
    seq![
        0, 0, 0, 0, 0, 0, 0, 0, 0, 0, 0, 0, 0, 0, 0, 0, 0, 0, 0, 0,
        0, 0, 1, 1, 1, 1, 1, 1, 1, 2, 2, 2, 2, 2, 2, 3, 3, 3, 3, 3,
        4, 4, 4, 4, 5, 5, 5, 5, 6, 6, 6, 7, 7, 7, 8, 8, 8, 9, 9, 9,
        10, 10, 11, 11, 11, 12, 12, 13, 13, 13, 14, 14, 15, 15, 16, 16, 17, 17, 18, 18,
        19, 19, 20, 21, 21, 22, 22, 23, 23, 24, 25, 25, 26, 27, 27, 28, 29, 29, 30, 31,
        31, 32, 33, 34, 34, 35, 36, 37, 37, 38, 39, 40, 40, 41, 42, 43, 44, 45, 46, 46,
        47, 48, 49, 50, 51, 52, 53, 54, 55, 56, 57, 58, 59, 60, 61, 62, 63, 64, 65, 66,
        67, 68, 69, 70, 71, 72, 73, 74, 76, 77, 78, 79, 80, 81, 83, 84, 85, 86, 88, 89,
        90, 91, 93, 94, 95, 96, 98, 99, 100, 102, 103, 104, 106, 107, 109, 110, 111, 113, 114, 116,
        117, 119, 120, 121, 123, 124, 126, 128, 129, 131, 132, 134, 135, 137, 138, 140, 142, 143, 145, 146,
        148, 150, 151, 153, 155, 157, 158, 160, 162, 163, 165, 167, 169, 170, 172, 174, 176, 178, 179, 181,
        183, 185, 187, 189, 191, 193, 194, 196, 198, 200, 202, 204, 206, 208, 210, 212, 214, 216, 218, 220,
        222, 224, 227, 229, 231, 233, 235, 237, 239, 241, 244, 246, 248, 250, 252, 255,
    ]
}

/// The gamma table is a valid intensity curve.
proof fn lemma_led_gamma_valid()
    ensures
        curve_table_valid(spec_led_gamma()),
{
    reveal(spec_led_gamma);
    let t = spec_led_gamma();
    assert(t.len() == 256);
    assert(t[0] == 0);
    assert(t[255] == 255);
    assert(forall|k: int| 0 <= k < t.len() - 1 ==> #[trigger] t[k] <= t[k + 1]);
    assert forall|i: int, j: int| 0 <= i <= j < 256 implies t[i] <= t[j] by {
        lemma_adjacent_implies_sorted(t, i, j);
    }
}

/// The gamma table as runtime data, equal to [`spec_led_gamma`] entry for
/// entry.
pub fn led_gamma_table() -> (r: Vec<u8>)
    ensures
        r@ == spec_led_gamma(),
{
    let table: Vec<u8> = vec![
        0, 0, 0, 0, 0, 0, 0, 0, 0, 0, 0, 0, 0, 0, 0, 0, 0, 0, 0, 0,
        0, 0, 1, 1, 1, 1, 1, 1, 1, 2, 2, 2, 2, 2, 2, 3, 3, 3, 3, 3,
        4, 4, 4, 4, 5, 5, 5, 5, 6, 6, 6, 7, 7, 7, 8, 8, 8, 9, 9, 9,
        10, 10, 11, 11, 11, 12, 12, 13, 13, 13, 14, 14, 15, 15, 16, 16, 17, 17, 18, 18,
        19, 19, 20, 21, 21, 22, 22, 23, 23, 24, 25, 25, 26, 27, 27, 28, 29, 29, 30, 31,
        31, 32, 33, 34, 34, 35, 36, 37, 37, 38, 39, 40, 40, 41, 42, 43, 44, 45, 46, 46,
        47, 48, 49, 50, 51, 52, 53, 54, 55, 56, 57, 58, 59, 60, 61, 62, 63, 64, 65, 66,
        67, 68, 69, 70, 71, 72, 73, 74, 76, 77, 78, 79, 80, 81, 83, 84, 85, 86, 88, 89,
        90, 91, 93, 94, 95, 96, 98, 99, 100, 102, 103, 104, 106, 107, 109, 110, 111, 113, 114, 116,
        117, 119, 120, 121, 123, 124, 126, 128, 129, 131, 132, 134, 135, 137, 138, 140, 142, 143, 145, 146,
        148, 150, 151, 153, 155, 157, 158, 160, 162, 163, 165, 167, 169, 170, 172, 174, 176, 178, 179, 181,
        183, 185, 187, 189, 191, 193, 194, 196, 198, 200, 202, 204, 206, 208, 210, 212, 214, 216, 218, 220,
        222, 224, 227, 229, 231, 233, 235, 237, 239, 241, 244, 246, 248, 250, 252, 255,
    ];
    proof {
        reveal(spec_led_gamma);
        assert(table@ =~= spec_led_gamma());
    }
    table
}

/// The drivers' shared gamma curve, ready to apply: the table invariant
/// is a proved fact of the fixed data, so construction cannot fail.
pub fn led_gamma_curve() -> (r: IntensityCurve)
    ensures
        r.wf(),
        r.spec_table() == spec_led_gamma(),
{
    proof {
        lemma_led_gamma_valid();
    }
    match IntensityCurve::new(led_gamma_table()) {
        Some(curve) => curve,
        None => vstd::pervasive::unreached(),
    }
}

} // verus!
