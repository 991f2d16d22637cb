//! Pure pixel transformations shared by every peripheral that displays
//! pixels: brightness scaling, the perceptual intensity curve, grayscale
//! conversion, and ordered dithering with bit packing for the e-ink and
//! wearable displays.

use vstd::prelude::*;

verus! {

/// One pixel of an abstract frame. The fourth channel is a brightness
/// multiplier, not transparency.
#[derive(Clone, Copy, PartialEq, Eq, Structural)]
pub struct Pixel {
    pub red: u8,
    pub green: u8,
    pub blue: u8,
    pub brightness: u8,
}

/// A rectangular frame of pixels in row-major order, produced by the
/// rendering layer and consumed once by a codec call.
pub struct Frame {
    pub width: usize,
    pub height: usize,
    pub pixels: Vec<Pixel>,
}

impl Frame {
    /// The pixel vector matches the declared dimensions.
    pub open spec fn wf(self) -> bool {
        &&& self.pixels@.len() == self.width * self.height
        &&& self.width <= 0xFFFF
        &&& self.height <= 0xFFFF
    }

    /// Builds a frame, rejecting any pixel vector whose length does not
    /// match the declared dimensions.
    pub fn new(width: usize, height: usize, pixels: Vec<Pixel>) -> (r: Option<Frame>)
        ensures
            match r {
                Some(f) => {
                    &&& f.wf()
                    &&& f.width == width
                    &&& f.height == height
                    &&& f.pixels@ == pixels@
                },
                None => !(width <= 0xFFFF && height <= 0xFFFF && pixels@.len() == width
                    * height),
            },
    {
        if width <= 0xFFFF && height <= 0xFFFF {
            proof {
                assert(width * height <= 0xFFFF * 0xFFFF) by (nonlinear_arith)
                    requires
                        width <= 0xFFFF,
                        height <= 0xFFFF,
                ;
            }
            let expected: usize = width * height;
            if pixels.len() == expected {
                return Some(Frame { width, height, pixels });
            }
        }
        None
    }

    /// Number of pixels in the frame.
    pub fn pixel_count(&self) -> (r: usize)
        requires
            self.wf(),
        ensures
            r == self.pixels@.len(),
    {
        self.pixels.len()
    }
}

/// What scaling a channel by the brightness multiplier yields.
pub open spec fn spec_scaled(value: u8, brightness: u8) -> int {
    (value * brightness) / 255
}

/// Scales a color channel by the frame's brightness channel.
pub fn scale_channel(value: u8, brightness: u8) -> (r: u8)
    ensures
        r == spec_scaled(value, brightness),
{
    proof {
        assert(value as int * brightness as int <= 255 * 255) by (nonlinear_arith)
            requires
                value <= 255,
                brightness <= 255,
        ;
    }
    let product: u32 = value as u32 * brightness as u32;
    (product / 255) as u8
}

/// The grayscale value of a pixel after brightness scaling, by the usual
/// luminosity weights.
pub open spec fn spec_luma(p: Pixel) -> int {
    (spec_scaled(p.red, p.brightness) * 299 + spec_scaled(p.green, p.brightness) * 587
        + spec_scaled(p.blue, p.brightness) * 114) / 1000
}

/// Converts one pixel to its grayscale value.
pub fn luma(p: Pixel) -> (r: u8)
    ensures
        r == spec_luma(p),
        r <= 255,
{
    let sr: u8 = scale_channel(p.red, p.brightness);
    let sg: u8 = scale_channel(p.green, p.brightness);
    let sb: u8 = scale_channel(p.blue, p.brightness);
    let weighted: u32 = sr as u32 * 299 + sg as u32 * 587 + sb as u32 * 114;
    (weighted / 1000) as u8
}

/// A fixed 256-entry lookup table mapping linear 0-255 input to
/// perceptually corrected output. Valid tables are monotonic
/// non-decreasing and fix both endpoints, so that perceived brightness is
/// consistent across differing LED hardware.
pub struct IntensityCurve {
    table: Vec<u8>,
}

/// What it means for a 256-entry table to be a valid intensity curve:
/// monotonic non-decreasing with endpoints fixed at 0 and 255.
pub open spec fn curve_table_valid(t: Seq<u8>) -> bool {
    &&& t.len() == 256
    &&& t[0] == 0
    &&& t[255] == 255
    &&& forall|i: int, j: int| 0 <= i <= j < 256 ==> t[i] <= t[j]
}

/// Adjacent monotonicity extends to all index pairs.
pub(crate) proof fn lemma_adjacent_implies_sorted(t: Seq<u8>, i: int, j: int)
    requires
        forall|k: int| 0 <= k < t.len() - 1 ==> #[trigger] t[k] <= t[k + 1],
        0 <= i <= j < t.len(),
    ensures
        t[i] <= t[j],
    decreases j - i,
{
    if i < j {
        assert(t[j - 1] <= t[j]);
        lemma_adjacent_implies_sorted(t, i, j - 1);
    }
}

impl IntensityCurve {
    /// The table this curve carries.
    pub closed spec fn spec_table(self) -> Seq<u8> {
        self.table@
    }

    /// Every constructed curve satisfies the table invariant.
    pub open spec fn wf(self) -> bool {
        curve_table_valid(self.spec_table())
    }

    /// The corrected intensity for an input value.
    pub open spec fn spec_at(self, value: u8) -> u8 {
        self.spec_table()[value as int]
    }

    /// Validates a candidate table once, at startup, rather than on every
    /// lookup: the table must have 256 entries, be monotonic non-decreasing
    /// and fix both endpoints.
    pub fn new(table: Vec<u8>) -> (r: Option<IntensityCurve>)
        ensures
            match r {
                Some(c) => c.wf() && c.spec_table() == table@,
                None => !curve_table_valid(table@),
            },
    {
        if table.len() != 256 {
            return None;
        }
        if table[0] != 0u8 || table[255] != 255u8 {
            return None;
        }
        let mut i: usize = 0;
        while i < 255
            invariant
                table@.len() == 256,
                i <= 255,
                forall|k: int| 0 <= k < i ==> #[trigger] table@[k] <= table@[k + 1],
            decreases 255 - i,
        {
            if table[i] > table[i + 1] {
                proof {
                    assert(table@[i as int] > table@[i as int + 1]);
                }
                return None;
            }
            i = i + 1;
        }
        proof {
            assert forall|a: int, b: int| 0 <= a <= b < 256 implies table@[a] <= table@[b] by {
                lemma_adjacent_implies_sorted(table@, a, b);
            }
        }
        Some(IntensityCurve { table })
    }

    /// Table lookup; the input is an un-scaled channel multiplied by
    /// brightness, the output is hardware-ready intensity.
    pub fn apply(&self, value: u8) -> (r: u8)
        requires
            self.wf(),
        ensures
            r == self.spec_at(value),
    {
        self.table[value as usize]
    }
}

/// The intensity curve is monotonic non-decreasing over its whole input
/// range and fixes both endpoints.
pub proof fn lemma_curve_monotonic(c: IntensityCurve, a: u8, b: u8)
    requires
        c.wf(),
        a <= b,
    ensures
        c.spec_at(a) <= c.spec_at(b),
        c.spec_at(0) == 0,
        c.spec_at(255) == 255,
{
}

/// The fixed ordered-dither threshold matrix, indexed by
/// `(y % 4) * 4 + (x % 4)`; entries range over 0..16.
pub open spec fn spec_dither_threshold(cell: int) -> int {
    seq![0, 8, 2, 10, 12, 4, 14, 6, 3, 11, 1, 9, 15, 7, 13, 5][cell]
}

/// The dither threshold for the matrix cell of a pixel position.
pub fn dither_threshold(cell: usize) -> (r: u8)
    requires
        cell < 16,
    ensures
        r == spec_dither_threshold(cell as int),
        r < 16,
{
    if cell == 0 {
        0
    } else if cell == 1 {
        8
    } else if cell == 2 {
        2
    } else if cell == 3 {
        10
    } else if cell == 4 {
        12
    } else if cell == 5 {
        4
    } else if cell == 6 {
        14
    } else if cell == 7 {
        6
    } else if cell == 8 {
        3
    } else if cell == 9 {
        11
    } else if cell == 10 {
        1
    } else if cell == 11 {
        9
    } else if cell == 12 {
        15
    } else if cell == 13 {
        7
    } else if cell == 14 {
        13
    } else {
        5
    }
}

/// Quantizes one grayscale value to `levels` gray levels under an ordered
/// dither threshold: the value is spread over `levels - 1` steps and the
/// fractional remainder is rounded up exactly when it clears the
/// threshold's fraction of a step.
pub open spec fn spec_quantize(v: int, threshold: int, levels: int) -> int {
    let scaled = v * (levels - 1);
    let base = scaled / 255;
    if (scaled % 255) * 16 >= (threshold + 1) * 255 {
        base + 1
    } else {
        base
    }
}

/// The quantized value stays below the level count.
proof fn lemma_quantize_bounds(v: int, threshold: int, levels: int)
    requires
        0 <= v <= 255,
        0 <= threshold < 16,
        levels == 2 || levels == 4,
    ensures
        0 <= spec_quantize(v, threshold, levels) < levels,
{
    let scaled = v * (levels - 1);
    assert(v * (levels - 1) <= 255 * (levels - 1)) by (nonlinear_arith)
        requires
            0 <= v <= 255,
            levels == 2 || levels == 4,
    ;
    if scaled / 255 == levels - 1 {
        assert(scaled == 255 * (levels - 1));
        assert(scaled % 255 == 0);
    }
}

/// Quantizes one grayscale value under a dither threshold.
pub fn quantize(v: u8, threshold: u8, levels: u8) -> (r: u8)
    requires
        threshold < 16,
        levels == 2 || levels == 4,
    ensures
        r == spec_quantize(v as int, threshold as int, levels as int),
        r < levels,
{
    proof {
        lemma_quantize_bounds(v as int, threshold as int, levels as int);
    }
    let scaled: u32 = v as u32 * (levels as u32 - 1);
    let base: u32 = scaled / 255;
    if (scaled % 255) * 16 >= (threshold as u32 + 1) * 255 {
        (base + 1) as u8
    } else {
        base as u8
    }
}

/// The quantized gray level of pixel `i` of a frame: its grayscale value
/// put through the ordered dither at the pixel's position in the fixed
/// threshold matrix. Indexes past the pixel count (padding of the last
/// packed byte) quantize to 0.
pub open spec fn spec_quantized_at(f: Frame, levels: int, i: int) -> int {
    if 0 <= i < f.pixels@.len() {
        let x = i % (f.width as int);
        let y = i / (f.width as int);
        spec_quantize(
            spec_luma(f.pixels@[i]),
            spec_dither_threshold((y % 4) * 4 + (x % 4)),
            levels,
        )
    } else {
        0
    }
}

/// How many quantized pixels one output byte holds: 8 one-bit pixels for
/// 2 levels, 4 two-bit pixels for 4 levels.
pub open spec fn spec_pixels_per_byte(levels: int) -> int {
    if levels == 2 {
        8
    } else {
        4
    }
}

/// The packed output byte `b`: quantized pixels in row-major order, most
/// significant bits first.
pub open spec fn spec_dither_byte(f: Frame, levels: int, b: int) -> int {
    if levels == 2 {
        spec_quantized_at(f, levels, b * 8) * 128 + spec_quantized_at(f, levels, b * 8 + 1) * 64
            + spec_quantized_at(f, levels, b * 8 + 2) * 32 + spec_quantized_at(f, levels, b * 8 + 3)
            * 16 + spec_quantized_at(f, levels, b * 8 + 4) * 8 + spec_quantized_at(
            f,
            levels,
            b * 8 + 5,
        ) * 4 + spec_quantized_at(f, levels, b * 8 + 6) * 2 + spec_quantized_at(f, levels, b * 8 + 7)
    } else {
        spec_quantized_at(f, levels, b * 4) * 64 + spec_quantized_at(f, levels, b * 4 + 1) * 16
            + spec_quantized_at(f, levels, b * 4 + 2) * 4 + spec_quantized_at(f, levels, b * 4 + 3)
    }
}

/// The whole dithered, packed buffer of a frame.
pub open spec fn spec_dithered(f: Frame, levels: int) -> Seq<u8> {
    let ppb = spec_pixels_per_byte(levels);
    let n = (f.pixels@.len() + ppb - 1) / ppb;
    Seq::new(n as nat, |b: int| spec_dither_byte(f, levels, b) as u8)
}

/// The quantized gray level of pixel index `i`, 0 past the end.
fn quantized_at(f: &Frame, levels: u8, i: usize) -> (r: u8)
    requires
        f.wf(),
        f.width > 0,
        levels == 2 || levels == 4,
    ensures
        r == spec_quantized_at(*f, levels as int, i as int),
        r < levels,
{
    if i < f.pixels.len() {
        let x: usize = i % f.width;
        let y: usize = i / f.width;
        let cell: usize = (y % 4) * 4 + (x % 4);
        let v: u8 = luma(f.pixels[i]);
        quantize(v, dither_threshold(cell), levels)
    } else {
        proof {
            lemma_quantize_bounds(0, 0, levels as int);
        }
        0
    }
}

/// Converts a frame to a dithered grayscale buffer: grayscale and
/// brightness adjustment, ordered dithering to `levels` gray levels, and
/// packing of several quantized pixels per byte, row-major, most
/// significant bits first. Deterministic: the output is a pure function
/// of the frame and the level count, so repeated conversions of one frame
/// cannot flicker on the display.
#[verifier::rlimit(100)]
pub fn dither_to_grayscale(frame: &Frame, levels: u8) -> (r: Vec<u8>)
    requires
        frame.wf(),
        frame.width > 0,
        levels == 2 || levels == 4,
    ensures
        r@ == spec_dithered(*frame, levels as int),
{
    let ppb: usize = if levels == 2 {
        8
    } else {
        4
    };
    let count: usize = frame.pixels.len();
    proof {
        assert(frame.width * frame.height <= 0xFFFF * 0xFFFF) by (nonlinear_arith)
            requires
                frame.width <= 0xFFFF,
                frame.height <= 0xFFFF,
        ;
    }
    let n: usize = (count + ppb - 1) / ppb;
    let mut out: Vec<u8> = Vec::new();
    let mut b: usize = 0;
    while b < n
        invariant
            frame.wf(),
            frame.width > 0,
            levels == 2 || levels == 4,
            ppb == spec_pixels_per_byte(levels as int),
            count == frame.pixels@.len(),
            n == (count + ppb - 1) / (ppb as int),
            count + ppb <= usize::MAX,
            b <= n,
            out@.len() == b,
            forall|k: int|
                0 <= k < b ==> out@[k] == spec_dither_byte(*frame, levels as int, k) as u8,
        decreases n - b,
    {
        let byte: u8 = if levels == 2 {
            let q0: u8 = quantized_at(frame, levels, b * 8);
            let q1: u8 = quantized_at(frame, levels, b * 8 + 1);
            let q2: u8 = quantized_at(frame, levels, b * 8 + 2);
            let q3: u8 = quantized_at(frame, levels, b * 8 + 3);
            let q4: u8 = quantized_at(frame, levels, b * 8 + 4);
            let q5: u8 = quantized_at(frame, levels, b * 8 + 5);
            let q6: u8 = quantized_at(frame, levels, b * 8 + 6);
            let q7: u8 = quantized_at(frame, levels, b * 8 + 7);
            q0 * 128 + q1 * 64 + q2 * 32 + q3 * 16 + q4 * 8 + q5 * 4 + q6 * 2 + q7
        } else {
            let q0: u8 = quantized_at(frame, levels, b * 4);
            let q1: u8 = quantized_at(frame, levels, b * 4 + 1);
            let q2: u8 = quantized_at(frame, levels, b * 4 + 2);
            let q3: u8 = quantized_at(frame, levels, b * 4 + 3);
            q0 * 64 + q1 * 16 + q2 * 4 + q3
        };
        out.push(byte);
        b = b + 1;
    }
    proof {
        assert(out@ =~= spec_dithered(*frame, levels as int));
    }
    out
}

/// Dithering is deterministic: the packed buffer is a pure function of
/// the frame and the level count, so two conversions of the same frame
/// yield byte-identical output.
pub proof fn lemma_dither_deterministic(f: Frame, levels: int, first: Seq<u8>, second: Seq<u8>)
    requires
        first == spec_dithered(f, levels),
        second == spec_dithered(f, levels),
    ensures
        first == second,
{
}

/// The transfer buffer for the round wearable display: the four-level
/// dithered image split into two one-bit planes, low plane first.
pub struct PuckImage {
    pub data: Vec<u8>,
}

/// Byte `j` of the low bit plane: the high bit of each of eight
/// consecutive quantized pixels, most significant bit first.
pub open spec fn spec_low_plane_byte(f: Frame, j: int) -> int {
    (spec_quantized_at(f, 4, j * 8) / 2) * 128 + (spec_quantized_at(f, 4, j * 8 + 1) / 2) * 64 + (
    spec_quantized_at(f, 4, j * 8 + 2) / 2) * 32 + (spec_quantized_at(f, 4, j * 8 + 3) / 2) * 16 + (
    spec_quantized_at(f, 4, j * 8 + 4) / 2) * 8 + (spec_quantized_at(f, 4, j * 8 + 5) / 2) * 4 + (
    spec_quantized_at(f, 4, j * 8 + 6) / 2) * 2 + (spec_quantized_at(f, 4, j * 8 + 7) / 2)
}

/// Byte `j` of the high bit plane: the low bit of each of eight
/// consecutive quantized pixels, most significant bit first.
pub open spec fn spec_high_plane_byte(f: Frame, j: int) -> int {
    (spec_quantized_at(f, 4, j * 8) % 2) * 128 + (spec_quantized_at(f, 4, j * 8 + 1) % 2) * 64 + (
    spec_quantized_at(f, 4, j * 8 + 2) % 2) * 32 + (spec_quantized_at(f, 4, j * 8 + 3) % 2) * 16 + (
    spec_quantized_at(f, 4, j * 8 + 4) % 2) * 8 + (spec_quantized_at(f, 4, j * 8 + 5) % 2) * 4 + (
    spec_quantized_at(f, 4, j * 8 + 6) % 2) * 2 + (spec_quantized_at(f, 4, j * 8 + 7) % 2)
}

/// The whole transfer buffer: the low plane's bytes followed by the high
/// plane's bytes.
pub open spec fn spec_puck_data(f: Frame) -> Seq<u8> {
    let half = f.pixels@.len() / 8;
    Seq::new(
        (half * 2) as nat,
        |i: int|
            if i < half {
                spec_low_plane_byte(f, i) as u8
            } else {
                spec_high_plane_byte(f, i - half) as u8
            },
    )
}

/// Splits a four-level dithered frame into the wearable display's two
/// one-bit planes.
#[verifier::rlimit(100)]
pub fn frame_to_puck_image(frame: &Frame) -> (r: PuckImage)
    requires
        frame.wf(),
        frame.width > 0,
        frame.pixels@.len() % 8 == 0,
    ensures
        r.data@ == spec_puck_data(*frame),
{
    proof {
        assert(frame.width * frame.height <= 0xFFFF * 0xFFFF) by (nonlinear_arith)
            requires
                frame.width <= 0xFFFF,
                frame.height <= 0xFFFF,
        ;
    }
    let half: usize = frame.pixels.len() / 8;
    let mut low: Vec<u8> = Vec::new();
    let mut high: Vec<u8> = Vec::new();
    let mut j: usize = 0;
    while j < half
        invariant
            frame.wf(),
            frame.width > 0,
            half == frame.pixels@.len() / 8,
            half * 8 <= usize::MAX,
            j <= half,
            low@.len() == j,
            high@.len() == j,
            forall|k: int| 0 <= k < j ==> low@[k] == spec_low_plane_byte(*frame, k) as u8,
            forall|k: int| 0 <= k < j ==> high@[k] == spec_high_plane_byte(*frame, k) as u8,
        decreases half - j,
    {
        let q0: u8 = quantized_at(frame, 4, j * 8);
        let q1: u8 = quantized_at(frame, 4, j * 8 + 1);
        let q2: u8 = quantized_at(frame, 4, j * 8 + 2);
        let q3: u8 = quantized_at(frame, 4, j * 8 + 3);
        let q4: u8 = quantized_at(frame, 4, j * 8 + 4);
        let q5: u8 = quantized_at(frame, 4, j * 8 + 5);
        let q6: u8 = quantized_at(frame, 4, j * 8 + 6);
        let q7: u8 = quantized_at(frame, 4, j * 8 + 7);
        let low_byte: u8 = (q0 / 2) * 128 + (q1 / 2) * 64 + (q2 / 2) * 32 + (q3 / 2) * 16 + (q4 / 2)
            * 8 + (q5 / 2) * 4 + (q6 / 2) * 2 + (q7 / 2);
        let high_byte: u8 = (q0 % 2) * 128 + (q1 % 2) * 64 + (q2 % 2) * 32 + (q3 % 2) * 16 + (q4
            % 2) * 8 + (q5 % 2) * 4 + (q6 % 2) * 2 + (q7 % 2);
        low.push(low_byte);
        high.push(high_byte);
        j = j + 1;
    }
    let mut data: Vec<u8> = low;
    data.append(&mut high);
    proof {
        assert(data@ =~= spec_puck_data(*frame));
    }
    PuckImage { data }
}

} // verus!
