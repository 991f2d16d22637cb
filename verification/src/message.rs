//! The structured serial vocabulary: one tagged key-value message per
//! line, plus one-letter-prefixed decimal shorthand lines for
//! high-frequency inputs (joystick axes, sensor readings) and one-letter
//! heartbeat lines. Encoding whole message lines is verified byte for
//! byte; decoding structured lines leans on serde_json behind the crate's
//! trusted boundary, while shorthand lines are parsed here exactly.

use crate::ble::MacAddress;
use crate::ext::{
    base64_encode, base64_of, json_as_array, json_as_i64, json_as_string_bytes, json_get,
    json_parse,
};
use crate::mac::parse_mac;
use vstd::prelude::*;

verus! {

/// The decimal digits of a non-negative number, most significant first.
pub open spec fn spec_decimal(n: nat) -> Seq<u8>
    decreases n,
{
    if n < 10 {
        seq![(48 + n) as u8]
    } else {
        spec_decimal(n / 10) + seq![(48 + n % 10) as u8]
    }
}

/// Formats a number in decimal.
pub fn decimal_u64(n: u64) -> (r: Vec<u8>)
    ensures
        r@ == spec_decimal(n as nat),
    decreases n,
{
    if n < 10 {
        let mut out: Vec<u8> = Vec::new();
        out.push(48 + n as u8);
        proof {
            assert(out@ =~= spec_decimal(n as nat));
        }
        out
    } else {
        let mut out: Vec<u8> = decimal_u64(n / 10);
        out.push(48 + (n % 10) as u8);
        proof {
            assert(out@ =~= spec_decimal((n / 10) as nat) + seq![(48 + n % 10) as u8]);
        }
        out
    }
}

/// The decimal digits of a number, with a leading minus sign where it is
/// negative.
pub open spec fn spec_signed_decimal(n: int) -> Seq<u8> {
    if n < 0 {
        seq![45u8] + spec_decimal((-n) as nat)
    } else {
        spec_decimal(n as nat)
    }
}

/// Formats a signed number in decimal.
pub fn decimal_i64(n: i64) -> (r: Vec<u8>)
    ensures
        r@ == spec_signed_decimal(n as int),
{
    if n >= 0 {
        decimal_u64(n as u64)
    } else {
        let magnitude: u64 = ((-(n + 1)) as u64) + 1;
        proof {
            assert(magnitude == -(n as int));
        }
        let mut out: Vec<u8> = Vec::new();
        out.push(45);
        let mut digits: Vec<u8> = decimal_u64(magnitude);
        out.append(&mut digits);
        proof {
            assert(out@ =~= seq![45u8] + spec_decimal((-(n as int)) as nat));
        }
        out
    }
}

/// Whether a byte is a decimal digit.
pub open spec fn spec_is_digit(b: u8) -> bool {
    48 <= b <= 57
}

/// Whether every byte of a sequence is a decimal digit.
pub open spec fn all_digits(s: Seq<u8>) -> bool {
    forall|i: int| 0 <= i < s.len() ==> spec_is_digit(#[trigger] s[i])
}

/// The value of a run of decimal digits, most significant first.
pub open spec fn spec_digits_value(s: Seq<u8>) -> int
    decreases s.len(),
{
    if s.len() == 0 {
        0
    } else {
        spec_digits_value(s.drop_last()) * 10 + (s.last() - 48)
    }
}

/// A run of digits has a non-negative value.
proof fn lemma_digits_value_nonneg(s: Seq<u8>)
    requires
        all_digits(s),
    ensures
        spec_digits_value(s) >= 0,
    decreases s.len(),
{
    if s.len() > 0 {
        assert(all_digits(s.drop_last()));
        lemma_digits_value_nonneg(s.drop_last());
    }
}

/// Every digit appended can only grow the value: a prefix's value bounds
/// the whole run's.
proof fn lemma_digits_value_monotone(s: Seq<u8>, k: int)
    requires
        all_digits(s),
        0 <= k <= s.len(),
    ensures
        spec_digits_value(s.subrange(0, k)) <= spec_digits_value(s),
    decreases s.len() - k,
{
    if k == s.len() {
        assert(s.subrange(0, k) =~= s);
    } else {
        let next = s.subrange(0, k + 1);
        assert(next.drop_last() =~= s.subrange(0, k));
        assert(all_digits(next.drop_last()));
        lemma_digits_value_nonneg(next.drop_last());
        assert(spec_digits_value(s.subrange(0, k)) * 10 >= spec_digits_value(s.subrange(0, k)))
            by (nonlinear_arith)
            requires
                spec_digits_value(s.subrange(0, k)) >= 0,
        ;
        lemma_digits_value_monotone(s, k + 1);
    }
}

/// Parses a non-empty run of decimal digits. `None` exactly where the
/// bytes are empty, hold a non-digit, or name a value above `u32::MAX`.
pub fn parse_u32(v: &Vec<u8>) -> (r: Option<u32>)
    ensures
        match r {
            Some(x) => {
                &&& v@.len() > 0
                &&& all_digits(v@)
                &&& x == spec_digits_value(v@)
            },
            None => !(v@.len() > 0 && all_digits(v@) && spec_digits_value(v@) <= u32::MAX),
        },
{
    if v.len() == 0 {
        return None;
    }
    let mut k: usize = 0;
    while k < v.len()
        invariant
            k <= v@.len(),
            forall|i: int| 0 <= i < k ==> spec_is_digit(#[trigger] v@[i]),
        decreases v@.len() - k,
    {
        let b: u8 = v[k];
        if b < 48 || b > 57 {
            proof {
                assert(!spec_is_digit(v@[k as int]));
            }
            return None;
        }
        k = k + 1;
    }
    proof {
        assert(all_digits(v@));
    }
    let mut acc: u64 = 0;
    let mut j: usize = 0;
    while j < v.len()
        invariant
            j <= v@.len(),
            all_digits(v@),
            acc <= u32::MAX,
            acc == spec_digits_value(v@.subrange(0, j as int)),
        decreases v@.len() - j,
    {
        let b: u8 = v[j];
        let next: u64 = acc * 10 + (b - 48) as u64;
        proof {
            let pre = v@.subrange(0, j + 1);
            assert(pre.drop_last() =~= v@.subrange(0, j as int));
            assert(next == spec_digits_value(pre));
        }
        if next > 0xFFFFFFFF {
            proof {
                lemma_digits_value_monotone(v@, j + 1);
            }
            return None;
        }
        acc = next;
        j = j + 1;
    }
    proof {
        assert(v@.subrange(0, v@.len() as int) =~= v@);
    }
    Some(acc as u32)
}

/// A well-formed signed decimal text for a 32-bit value: an optional
/// leading minus sign, then digits, within the two's-complement range.
pub open spec fn i32_text_valid(s: Seq<u8>) -> bool {
    if s.len() > 0 && s[0] == 45 {
        &&& s.len() > 1
        &&& all_digits(s.skip(1))
        &&& spec_digits_value(s.skip(1)) <= 0x80000000
    } else {
        &&& s.len() > 0
        &&& all_digits(s)
        &&& spec_digits_value(s) <= 0x7FFFFFFF
    }
}

/// The value a well-formed signed decimal text names.
pub open spec fn spec_i32_text_value(s: Seq<u8>) -> int {
    if s.len() > 0 && s[0] == 45 {
        -spec_digits_value(s.skip(1))
    } else {
        spec_digits_value(s)
    }
}

/// The bytes of a vector from an index on.
fn tail_from(v: &Vec<u8>, from: usize) -> (r: Vec<u8>)
    requires
        from <= v@.len(),
    ensures
        r@ == v@.subrange(from as int, v@.len() as int),
{
    let mut out: Vec<u8> = Vec::new();
    let mut k: usize = from;
    while k < v.len()
        invariant
            from <= k <= v@.len(),
            out@ == v@.subrange(from as int, k as int),
        decreases v@.len() - k,
    {
        out.push(v[k]);
        proof {
            assert(out@ =~= v@.subrange(from as int, k + 1));
        }
        k = k + 1;
    }
    out
}

/// Parses a signed decimal text into a 32-bit value. `None` exactly where
/// the text is not a well-formed value in range.
pub fn parse_i32(v: &Vec<u8>) -> (r: Option<i32>)
    ensures
        match r {
            Some(x) => {
                &&& i32_text_valid(v@)
                &&& x == spec_i32_text_value(v@)
            },
            None => !i32_text_valid(v@),
        },
{
    if v.len() == 0 {
        return None;
    }
    if v[0] == 45 {
        let magnitude_text: Vec<u8> = tail_from(v, 1);
        proof {
            assert(magnitude_text@ =~= v@.skip(1));
        }
        match parse_u32(&magnitude_text) {
            Some(m) => {
                if m <= 0x80000000 {
                    proof {
                        lemma_digits_value_nonneg(v@.skip(1));
                    }
                    let signed: i64 = -(m as i64);
                    Some(signed as i32)
                } else {
                    None
                }
            },
            None => {
                proof {
                    if v@.skip(1).len() > 0 && all_digits(v@.skip(1)) && spec_digits_value(
                        v@.skip(1),
                    ) <= 0x80000000 {
                        assert(spec_digits_value(v@.skip(1)) <= u32::MAX);
                    }
                }
                None
            },
        }
    } else {
        match parse_u32(v) {
            Some(x) => {
                if x <= 0x7FFFFFFF {
                    Some(x as i32)
                } else {
                    None
                }
            },
            None => None,
        }
    }
}

/// One lowercase hexadecimal digit byte.
pub open spec fn spec_hex_digit_byte(n: int) -> u8 {
    if n < 10 {
        (48 + n) as u8
    } else {
        (87 + n) as u8
    }
}

/// How one byte appears inside a JSON string: quotes and backslashes are
/// escaped, the common control bytes get their short escapes, other
/// control bytes a four-digit escape, and everything else passes through.
pub open spec fn spec_escape_byte(b: u8) -> Seq<u8> {
    if b == 34 {
        seq![92u8, 34]
    } else if b == 92 {
        seq![92u8, 92]
    } else if b == 10 {
        seq![92u8, 110]
    } else if b == 13 {
        seq![92u8, 114]
    } else if b == 9 {
        seq![92u8, 116]
    } else if b < 32 {
        seq![
            92u8,
            117,
            48,
            48,
            spec_hex_digit_byte(b as int / 16),
            spec_hex_digit_byte(b as int % 16),
        ]
    } else {
        seq![b]
    }
}

/// A byte sequence as it appears inside a JSON string.
pub open spec fn spec_escaped(s: Seq<u8>) -> Seq<u8>
    decreases s.len(),
{
    if s.len() == 0 {
        Seq::empty()
    } else {
        spec_escaped(s.drop_last()) + spec_escape_byte(s.last())
    }
}

/// Escapes text for embedding in a JSON string.
pub fn escape_json(v: &Vec<u8>) -> (r: Vec<u8>)
    ensures
        r@ == spec_escaped(v@),
{
    let mut out: Vec<u8> = Vec::new();
    let mut k: usize = 0;
    while k < v.len()
        invariant
            k <= v@.len(),
            out@ == spec_escaped(v@.subrange(0, k as int)),
        decreases v@.len() - k,
    {
        let b: u8 = v[k];
        let ghost before = out@;
        if b == 34 {
            out.push(92);
            out.push(34);
        } else if b == 92 {
            out.push(92);
            out.push(92);
        } else if b == 10 {
            out.push(92);
            out.push(110);
        } else if b == 13 {
            out.push(92);
            out.push(114);
        } else if b == 9 {
            out.push(92);
            out.push(116);
        } else if b < 32 {
            out.push(92);
            out.push(117);
            out.push(48);
            out.push(48);
            out.push(if b / 16 < 10 {
                48 + b / 16
            } else {
                87 + b / 16
            });
            out.push(if b % 16 < 10 {
                48 + b % 16
            } else {
                87 + b % 16
            });
        } else {
            out.push(b);
        }
        proof {
            assert(out@ =~= before + spec_escape_byte(b));
            let pre = v@.subrange(0, k + 1);
            assert(pre.drop_last() =~= v@.subrange(0, k as int));
            assert(out@ == spec_escaped(pre));
        }
        k = k + 1;
    }
    proof {
        assert(v@.subrange(0, v@.len() as int) =~= v@);
    }
    out
}

/// One escaped byte never holds a raw line terminator.
proof fn lemma_escape_byte_line_free(b: u8)
    ensures
        forall|j: int|
            0 <= j < spec_escape_byte(b).len() ==> #[trigger] spec_escape_byte(b)[j] != 10,
{
    let e = spec_escape_byte(b);
    assert forall|j: int| 0 <= j < e.len() implies #[trigger] e[j] != 10 by {
        if b == 34 || b == 92 || b == 10 || b == 13 || b == 9 {
            assert(j == 0 || j == 1);
        } else if b < 32 {
            assert(0 <= j < 6);
        } else {
            assert(j == 0);
            assert(e[0] == b && b >= 32);
        }
    }
}

/// Escaped text never holds a raw line terminator, so any escaped payload
/// can ride inside one line.
proof fn lemma_escaped_line_free(s: Seq<u8>)
    ensures
        forall|j: int| 0 <= j < spec_escaped(s).len() ==> #[trigger] spec_escaped(s)[j] != 10,
    decreases s.len(),
{
    if s.len() > 0 {
        lemma_escaped_line_free(s.drop_last());
        lemma_escape_byte_line_free(s.last());
        let whole = spec_escaped(s);
        let head = spec_escaped(s.drop_last());
        let tail = spec_escape_byte(s.last());
        assert forall|j: int| 0 <= j < whole.len() implies #[trigger] whole[j] != 10 by {
            if j < head.len() {
                assert(whole[j] == head[j]);
            } else {
                assert(whole[j] == tail[j - head.len()]);
            }
        }
    }
}

/// No byte of the sequence is the line terminator, so it can ride inside
/// one line of the wire protocol.
pub open spec fn line_free(s: Seq<u8>) -> bool {
    forall|j: int| 0 <= j < s.len() ==> #[trigger] s[j] != 10
}

/// Concatenation preserves terminator-freedom.
proof fn lemma_concat_line_free(a: Seq<u8>, b: Seq<u8>)
    requires
        line_free(a),
        line_free(b),
    ensures
        line_free(a + b),
{
    assert forall|j: int| 0 <= j < (a + b).len() implies #[trigger] (a + b)[j] != 10 by {
        if j < a.len() {
            assert((a + b)[j] == a[j]);
        } else {
            assert((a + b)[j] == b[j - a.len()]);
        }
    }
}

/// Decimal text never holds a line terminator.
proof fn lemma_decimal_line_free(n: nat)
    ensures
        forall|j: int| 0 <= j < spec_decimal(n).len() ==> #[trigger] spec_decimal(n)[j] != 10,
    decreases n,
{
    if n < 10 {
        assert(spec_decimal(n).len() == 1);
        assert(spec_decimal(n)[0] == (48 + n) as u8);
    } else {
        lemma_decimal_line_free(n / 10);
        let whole = spec_decimal(n);
        let head = spec_decimal(n / 10);
        assert forall|j: int| 0 <= j < whole.len() implies #[trigger] whole[j] != 10 by {
            if j < head.len() {
                assert(whole[j] == head[j]);
            } else {
                assert(whole[j] == (48 + n % 10) as u8);
            }
        }
    }
}

} // verus!

verus! {

/// Signed decimal text never holds a line terminator.
proof fn lemma_signed_decimal_line_free(n: int)
    ensures
        line_free(spec_signed_decimal(n)),
{
    if n < 0 {
        lemma_decimal_line_free((-n) as nat);
        assert(line_free(seq![45u8]));
        lemma_concat_line_free(seq![45u8], spec_decimal((-n) as nat));
    } else {
        lemma_decimal_line_free(n as nat);
    }
}

/// `{"kind":"` - every structured line opens with its kind tag.
pub open spec fn spec_obj_open() -> Seq<u8> {
    seq![123u8, 34, 107, 105, 110, 100, 34, 58, 34]
}

/// A whole structured line: `{"kind":"<kind>"<fields>}`.
pub open spec fn spec_line(kind: Seq<u8>, fields: Seq<u8>) -> Seq<u8> {
    spec_obj_open() + kind + seq![34u8] + fields + seq![125u8]
}

/// One numeric member: `,"<name>":<value>`.
pub open spec fn spec_int_field(name: Seq<u8>, value: int) -> Seq<u8> {
    seq![44u8, 34] + name + seq![34u8, 58] + spec_signed_decimal(value)
}

/// One string member: `,"<name>":"<payload>"`; the payload is already
/// escaped or encoded.
pub open spec fn spec_string_field(name: Seq<u8>, payload: Seq<u8>) -> Seq<u8> {
    seq![44u8, 34] + name + seq![34u8, 58, 34] + payload + seq![34u8]
}

/// The nested time-entry member:
/// `,"timeEntry":{"description":"<escaped>"}`.
pub open spec fn spec_time_entry_fields(escaped: Seq<u8>) -> Seq<u8> {
    seq![44u8, 34, 116, 105, 109, 101, 69, 110, 116, 114, 121, 34, 58, 123, 34, 100, 101, 115, 99,
        114, 105, 112, 116, 105, 111, 110, 34, 58, 34] + escaped + seq![34u8, 125]
}

/// `success`
pub open spec fn spec_kind_success() -> Seq<u8> {
    seq![115u8, 117, 99, 99, 101, 115, 115]
}

/// `error`
pub open spec fn spec_kind_error() -> Seq<u8> {
    seq![101u8, 114, 114, 111, 114]
}

/// `heartbeat`
pub open spec fn spec_kind_heartbeat() -> Seq<u8> {
    seq![104u8, 101, 97, 114, 116, 98, 101, 97, 116]
}

/// `timeEntry`
pub open spec fn spec_kind_time_entry() -> Seq<u8> {
    seq![116u8, 105, 109, 101, 69, 110, 116, 114, 121]
}

/// `light`
pub open spec fn spec_kind_light() -> Seq<u8> {
    seq![108u8, 105, 103, 104, 116]
}

/// `servoY`
pub open spec fn spec_kind_servo_y() -> Seq<u8> {
    seq![115u8, 101, 114, 118, 111, 89]
}

/// `displayData`
pub open spec fn spec_kind_display_data() -> Seq<u8> {
    seq![100u8, 105, 115, 112, 108, 97, 121, 68, 97, 116, 97]
}

/// `refreshDisplay`
pub open spec fn spec_kind_refresh_display() -> Seq<u8> {
    seq![114u8, 101, 102, 114, 101, 115, 104, 68, 105, 115, 112, 108, 97, 121]
}

/// `startAnimation`
pub open spec fn spec_kind_start_animation() -> Seq<u8> {
    seq![115u8, 116, 97, 114, 116, 65, 110, 105, 109, 97, 116, 105, 111, 110]
}

/// `stopAnimation`
pub open spec fn spec_kind_stop_animation() -> Seq<u8> {
    seq![115u8, 116, 111, 112, 65, 110, 105, 109, 97, 116, 105, 111, 110]
}

/// `adjustAnimationTime`
pub open spec fn spec_kind_adjust_animation_time() -> Seq<u8> {
    seq![97u8, 100, 106, 117, 115, 116, 65, 110, 105, 109, 97, 116, 105, 111, 110, 84, 105, 109,
        101]
}

/// `targetValue`
pub open spec fn spec_name_target_value() -> Seq<u8> {
    seq![116u8, 97, 114, 103, 101, 116, 86, 97, 108, 117, 101]
}

/// `speed`
pub open spec fn spec_name_speed() -> Seq<u8> {
    seq![115u8, 112, 101, 101, 100]
}

/// `offset`
pub open spec fn spec_name_offset() -> Seq<u8> {
    seq![111u8, 102, 102, 115, 101, 116]
}

/// `data`
pub open spec fn spec_name_data() -> Seq<u8> {
    seq![100u8, 97, 116, 97]
}

/// `minutes`
pub open spec fn spec_name_minutes() -> Seq<u8> {
    seq![109u8, 105, 110, 117, 116, 101, 115]
}

/// One structured message from the host to a peripheral.
pub enum HostEvent {
    /// The last command succeeded.
    Success,
    /// The last command failed.
    Error,
    /// Periodic liveness message.
    Heartbeat,
    /// One selectable time entry, by its description text (UTF-8 bytes).
    TimeEntry { description: Vec<u8> },
    /// Drive the display's light toward a target at a speed.
    Light { target_value: u32, speed: u32 },
    /// Drive the vertical servo toward a target at a speed.
    ServoY { target_value: u32, speed: u32 },
    /// One chunk of display data at its byte offset into the image.
    DisplayData { offset: u32, data: Vec<u8> },
    /// Repaint the e-ink panel from the data sent so far.
    RefreshDisplay,
    /// Start the work-session animation.
    StartAnimation,
    /// Stop the work-session animation.
    StopAnimation,
    /// Shift the running animation by a signed number of minutes.
    AdjustAnimationTime { minutes: i64 },
}

/// The exact line an event is encoded as (without the terminating
/// newline). Display data rides base64-encoded; description text rides
/// JSON-escaped.
pub open spec fn spec_encoded_event(e: HostEvent) -> Seq<u8> {
    match e {
        HostEvent::Success => spec_line(spec_kind_success(), Seq::empty()),
        HostEvent::Error => spec_line(spec_kind_error(), Seq::empty()),
        HostEvent::Heartbeat => spec_line(spec_kind_heartbeat(), Seq::empty()),
        HostEvent::TimeEntry { description } => spec_line(
            spec_kind_time_entry(),
            spec_time_entry_fields(spec_escaped(description@)),
        ),
        HostEvent::Light { target_value, speed } => spec_line(
            spec_kind_light(),
            spec_int_field(spec_name_target_value(), target_value as int) + spec_int_field(
                spec_name_speed(),
                speed as int,
            ),
        ),
        HostEvent::ServoY { target_value, speed } => spec_line(
            spec_kind_servo_y(),
            spec_int_field(spec_name_target_value(), target_value as int) + spec_int_field(
                spec_name_speed(),
                speed as int,
            ),
        ),
        HostEvent::DisplayData { offset, data } => spec_line(
            spec_kind_display_data(),
            spec_int_field(spec_name_offset(), offset as int) + spec_string_field(
                spec_name_data(),
                base64_of(data@),
            ),
        ),
        HostEvent::RefreshDisplay => spec_line(spec_kind_refresh_display(), Seq::empty()),
        HostEvent::StartAnimation => spec_line(spec_kind_start_animation(), Seq::empty()),
        HostEvent::StopAnimation => spec_line(spec_kind_stop_animation(), Seq::empty()),
        HostEvent::AdjustAnimationTime { minutes } => spec_line(
            spec_kind_adjust_animation_time(),
            spec_int_field(spec_name_minutes(), minutes as int),
        ),
    }
}

/// Appends a byte-for-byte copy.
fn append_bytes(out: &mut Vec<u8>, more: &Vec<u8>)
    ensures
        final (out)@ == old(out)@ + more@,
{
    let mut k: usize = 0;
    let ghost start = out@;
    while k < more.len()
        invariant
            k <= more@.len(),
            out@ == start + more@.subrange(0, k as int),
        decreases more@.len() - k,
    {
        out.push(more[k]);
        proof {
            assert(out@ =~= start + more@.subrange(0, k + 1));
        }
        k = k + 1;
    }
    proof {
        assert(out@ =~= start + more@);
    }
}

/// Opens a structured line: `{"kind":"<kind>"`.
fn line_start(kind: &Vec<u8>) -> (r: Vec<u8>)
    ensures
        r@ == spec_obj_open() + kind@ + seq![34u8],
        line_free(kind@) ==> line_free(r@),
{
    let mut out: Vec<u8> = Vec::new();
    out.push(123);
    out.push(34);
    out.push(107);
    out.push(105);
    out.push(110);
    out.push(100);
    out.push(34);
    out.push(58);
    out.push(34);
    proof {
        assert(out@ =~= spec_obj_open());
        assert(line_free(spec_obj_open()));
    }
    append_bytes(&mut out, kind);
    out.push(34);
    proof {
        assert(out@ =~= spec_obj_open() + kind@ + seq![34u8]);
        if line_free(kind@) {
            lemma_concat_line_free(spec_obj_open(), kind@);
            assert(line_free(seq![34u8]));
            lemma_concat_line_free(spec_obj_open() + kind@, seq![34u8]);
        }
    }
    out
}

/// Appends `,"<name>":<value>`.
fn append_int_field(out: &mut Vec<u8>, name: &Vec<u8>, value: i64)
    ensures
        final (out)@ == old(out)@ + spec_int_field(name@, value as int),
        line_free(old(out)@) && line_free(name@) ==> line_free(final (out)@),
{
    let ghost start = out@;
    out.push(44);
    out.push(34);
    append_bytes(out, name);
    out.push(34);
    out.push(58);
    let mut digits: Vec<u8> = decimal_i64(value);
    append_bytes(out, &digits);
    proof {
        assert(out@ =~= start + spec_int_field(name@, value as int));
        if line_free(start) && line_free(name@) {
            assert(line_free(seq![44u8, 34]));
            lemma_concat_line_free(seq![44u8, 34], name@);
            assert(line_free(seq![34u8, 58]));
            lemma_concat_line_free(seq![44u8, 34] + name@, seq![34u8, 58]);
            lemma_signed_decimal_line_free(value as int);
            lemma_concat_line_free(
                seq![44u8, 34] + name@ + seq![34u8, 58],
                spec_signed_decimal(value as int),
            );
            lemma_concat_line_free(start, spec_int_field(name@, value as int));
        }
    }
}

/// Appends `,"<name>":"<payload>"`.
fn append_string_field(out: &mut Vec<u8>, name: &Vec<u8>, payload: &Vec<u8>)
    ensures
        final (out)@ == old(out)@ + spec_string_field(name@, payload@),
        line_free(old(out)@) && line_free(name@) && line_free(payload@) ==> line_free(
            final (out)@,
        ),
{
    let ghost start = out@;
    out.push(44);
    out.push(34);
    append_bytes(out, name);
    out.push(34);
    out.push(58);
    out.push(34);
    append_bytes(out, payload);
    out.push(34);
    proof {
        assert(out@ =~= start + spec_string_field(name@, payload@));
        if line_free(start) && line_free(name@) && line_free(payload@) {
            assert(line_free(seq![44u8, 34]));
            lemma_concat_line_free(seq![44u8, 34], name@);
            assert(line_free(seq![34u8, 58, 34]));
            lemma_concat_line_free(seq![44u8, 34] + name@, seq![34u8, 58, 34]);
            lemma_concat_line_free(seq![44u8, 34] + name@ + seq![34u8, 58, 34], payload@);
            assert(line_free(seq![34u8]));
            lemma_concat_line_free(
                seq![44u8, 34] + name@ + seq![34u8, 58, 34] + payload@,
                seq![34u8],
            );
            lemma_concat_line_free(start, spec_string_field(name@, payload@));
        }
    }
}

/// Closes a structured line with `}`.
fn line_close(out: &mut Vec<u8>)
    ensures
        final (out)@ == old(out)@ + seq![125u8],
        line_free(old(out)@) ==> line_free(final (out)@),
{
    let ghost start = out@;
    out.push(125);
    proof {
        assert(out@ =~= start + seq![125u8]);
        if line_free(start) {
            assert(line_free(seq![125u8]));
            lemma_concat_line_free(start, seq![125u8]);
        }
    }
}

/// Encodes one event as its exact message line, terminator-free and ready
/// to be queued.
pub fn encode_event(event: &HostEvent) -> (r: Vec<u8>)
    requires
        event matches HostEvent::DisplayData { data, .. } ==> data@.len() <= 0x10000000,
    ensures
        r@ == spec_encoded_event(*event),
        line_free(r@),
{
    match event {
        HostEvent::Success => {
            let kind: Vec<u8> = vec![115, 117, 99, 99, 101, 115, 115];
            proof {
                assert(kind@ =~= spec_kind_success());
                assert(line_free(kind@));
            }
            let mut out: Vec<u8> = line_start(&kind);
            line_close(&mut out);
            proof {
                assert(out@ =~= spec_line(spec_kind_success(), Seq::empty()));
            }
            out
        },
        HostEvent::Error => {
            let kind: Vec<u8> = vec![101, 114, 114, 111, 114];
            proof {
                assert(kind@ =~= spec_kind_error());
                assert(line_free(kind@));
            }
            let mut out: Vec<u8> = line_start(&kind);
            line_close(&mut out);
            proof {
                assert(out@ =~= spec_line(spec_kind_error(), Seq::empty()));
            }
            out
        },
        HostEvent::Heartbeat => {
            let kind: Vec<u8> = vec![104, 101, 97, 114, 116, 98, 101, 97, 116];
            proof {
                assert(kind@ =~= spec_kind_heartbeat());
                assert(line_free(kind@));
            }
            let mut out: Vec<u8> = line_start(&kind);
            line_close(&mut out);
            proof {
                assert(out@ =~= spec_line(spec_kind_heartbeat(), Seq::empty()));
            }
            out
        },
        HostEvent::TimeEntry { description } => {
            let kind: Vec<u8> = vec![116, 105, 109, 101, 69, 110, 116, 114, 121];
            proof {
                assert(kind@ =~= spec_kind_time_entry());
                assert(line_free(kind@));
            }
            let mut out: Vec<u8> = line_start(&kind);
            let ghost opened = out@;
            let prefix: Vec<u8> = vec![44, 34, 116, 105, 109, 101, 69, 110, 116, 114, 121, 34, 58,
                123, 34, 100, 101, 115, 99, 114, 105, 112, 116, 105, 111, 110, 34, 58, 34];
            let escaped: Vec<u8> = escape_json(description);
            append_bytes(&mut out, &prefix);
            append_bytes(&mut out, &escaped);
            out.push(34);
            out.push(125);
            line_close(&mut out);
            proof {
                assert(out@ =~= spec_line(
                    spec_kind_time_entry(),
                    spec_time_entry_fields(spec_escaped(description@)),
                ));
                assert(line_free(prefix@));
                lemma_escaped_line_free(description@);
                lemma_concat_line_free(opened, prefix@);
                lemma_concat_line_free(opened + prefix@, escaped@);
                assert(line_free(seq![34u8, 125, 125]));
                lemma_concat_line_free(opened + prefix@ + escaped@, seq![34u8, 125, 125]);
                assert(out@ =~= opened + prefix@ + escaped@ + seq![34u8, 125, 125]);
            }
            out
        },
        HostEvent::Light { target_value, speed } => {
            let kind: Vec<u8> = vec![108, 105, 103, 104, 116];
            proof {
                assert(kind@ =~= spec_kind_light());
                assert(line_free(kind@));
            }
            let name_target: Vec<u8> = vec![116, 97, 114, 103, 101, 116, 86, 97, 108, 117, 101];
            let name_speed: Vec<u8> = vec![115, 112, 101, 101, 100];
            proof {
                assert(name_target@ =~= spec_name_target_value());
                assert(line_free(name_target@));
                assert(name_speed@ =~= spec_name_speed());
                assert(line_free(name_speed@));
            }
            let mut out: Vec<u8> = line_start(&kind);
            append_int_field(&mut out, &name_target, *target_value as i64);
            append_int_field(&mut out, &name_speed, *speed as i64);
            line_close(&mut out);
            proof {
                assert(out@ =~= spec_line(
                    spec_kind_light(),
                    spec_int_field(spec_name_target_value(), *target_value as int)
                        + spec_int_field(spec_name_speed(), *speed as int),
                ));
            }
            out
        },
        HostEvent::ServoY { target_value, speed } => {
            let kind: Vec<u8> = vec![115, 101, 114, 118, 111, 89];
            proof {
                assert(kind@ =~= spec_kind_servo_y());
                assert(line_free(kind@));
            }
            let name_target: Vec<u8> = vec![116, 97, 114, 103, 101, 116, 86, 97, 108, 117, 101];
            let name_speed: Vec<u8> = vec![115, 112, 101, 101, 100];
            proof {
                assert(name_target@ =~= spec_name_target_value());
                assert(line_free(name_target@));
                assert(name_speed@ =~= spec_name_speed());
                assert(line_free(name_speed@));
            }
            let mut out: Vec<u8> = line_start(&kind);
            append_int_field(&mut out, &name_target, *target_value as i64);
            append_int_field(&mut out, &name_speed, *speed as i64);
            line_close(&mut out);
            proof {
                assert(out@ =~= spec_line(
                    spec_kind_servo_y(),
                    spec_int_field(spec_name_target_value(), *target_value as int)
                        + spec_int_field(spec_name_speed(), *speed as int),
                ));
            }
            out
        },
        HostEvent::DisplayData { offset, data } => {
            let kind: Vec<u8> = vec![100, 105, 115, 112, 108, 97, 121, 68, 97, 116, 97];
            proof {
                assert(kind@ =~= spec_kind_display_data());
                assert(line_free(kind@));
            }
            let name_offset: Vec<u8> = vec![111, 102, 102, 115, 101, 116];
            let name_data: Vec<u8> = vec![100, 97, 116, 97];
            proof {
                assert(name_offset@ =~= spec_name_offset());
                assert(line_free(name_offset@));
                assert(name_data@ =~= spec_name_data());
                assert(line_free(name_data@));
            }
            let encoded: Vec<u8> = base64_encode(data);
            proof {
                assert(line_free(encoded@));
            }
            let mut out: Vec<u8> = line_start(&kind);
            append_int_field(&mut out, &name_offset, *offset as i64);
            append_string_field(&mut out, &name_data, &encoded);
            line_close(&mut out);
            proof {
                assert(out@ =~= spec_line(
                    spec_kind_display_data(),
                    spec_int_field(spec_name_offset(), *offset as int) + spec_string_field(
                        spec_name_data(),
                        base64_of(data@),
                    ),
                ));
            }
            out
        },
        HostEvent::RefreshDisplay => {
            let kind: Vec<u8> = vec![114, 101, 102, 114, 101, 115, 104, 68, 105, 115, 112, 108,
                97, 121];
            proof {
                assert(kind@ =~= spec_kind_refresh_display());
                assert(line_free(kind@));
            }
            let mut out: Vec<u8> = line_start(&kind);
            line_close(&mut out);
            proof {
                assert(out@ =~= spec_line(spec_kind_refresh_display(), Seq::empty()));
            }
            out
        },
        HostEvent::StartAnimation => {
            let kind: Vec<u8> = vec![115, 116, 97, 114, 116, 65, 110, 105, 109, 97, 116, 105, 111,
                110];
            proof {
                assert(kind@ =~= spec_kind_start_animation());
                assert(line_free(kind@));
            }
            let mut out: Vec<u8> = line_start(&kind);
            line_close(&mut out);
            proof {
                assert(out@ =~= spec_line(spec_kind_start_animation(), Seq::empty()));
            }
            out
        },
        HostEvent::StopAnimation => {
            let kind: Vec<u8> = vec![115, 116, 111, 112, 65, 110, 105, 109, 97, 116, 105, 111,
                110];
            proof {
                assert(kind@ =~= spec_kind_stop_animation());
                assert(line_free(kind@));
            }
            let mut out: Vec<u8> = line_start(&kind);
            line_close(&mut out);
            proof {
                assert(out@ =~= spec_line(spec_kind_stop_animation(), Seq::empty()));
            }
            out
        },
        HostEvent::AdjustAnimationTime { minutes } => {
            let kind: Vec<u8> = vec![97, 100, 106, 117, 115, 116, 65, 110, 105, 109, 97, 116, 105,
                111, 110, 84, 105, 109, 101];
            proof {
                assert(kind@ =~= spec_kind_adjust_animation_time());
                assert(line_free(kind@));
            }
            let name_minutes: Vec<u8> = vec![109, 105, 110, 117, 116, 101, 115];
            proof {
                assert(name_minutes@ =~= spec_name_minutes());
                assert(line_free(name_minutes@));
            }
            let mut out: Vec<u8> = line_start(&kind);
            append_int_field(&mut out, &name_minutes, *minutes);
            line_close(&mut out);
            proof {
                assert(out@ =~= spec_line(
                    spec_kind_adjust_animation_time(),
                    spec_int_field(spec_name_minutes(), *minutes as int),
                ));
            }
            out
        },
    }
}

/// Encodes one event and queues it on a connection: the line lands at the
/// back of the outbound queue with its terminator, in enqueue order. A
/// dead connection queues nothing.
pub fn send_event(conn: &mut crate::line::LineConnection, event: &HostEvent)
    requires
        event matches HostEvent::DisplayData { data, .. } ==> data@.len() <= 0x10000000,
    ensures
        final (conn).spec_inbound() == old(conn).spec_inbound(),
        final (conn).spec_alive() == old(conn).spec_alive(),
        old(conn).spec_alive() ==> final (conn).spec_outbound() == old(conn).spec_outbound()
            + spec_encoded_event(*event) + seq![crate::line::LINE_TERMINATOR],
        !old(conn).spec_alive() ==> final (conn).spec_outbound() == old(conn).spec_outbound(),
{
    let line: Vec<u8> = encode_event(event);
    conn.enqueue_line(&line);
}

} // verus!

verus! {

/// What one inbound line is: a heartbeat, a one-letter-prefixed decimal
/// shorthand, a structured message for the JSON decoder, or a malformed
/// unit to be discarded (the transport is not torn down for it).
#[derive(Clone, Copy, PartialEq, Eq, Structural)]
pub enum LineClass {
    /// The peripheral's one-letter liveness line.
    Heartbeat,
    /// `p<digits>`: the raw pressure/z-axis reading.
    ZAxis(u32),
    /// `x<signed digits>`: the raw x-axis reading.
    XAxis(i32),
    /// `y<signed digits>`: the raw y-axis reading.
    YAxis(i32),
    /// `ra1<digits>`: the raw soil-capacitance reading.
    SensorReading(u32),
    /// Anything else with content: hand it to the structured decoder.
    Structured,
    /// A shorthand line whose payload does not parse, or an empty line:
    /// discard it.
    Malformed,
}

/// Splits one line into the session vocabulary. Shorthand lines carry
/// their raw decimal value; scaling raw axis values to positions is the
/// consumer's business.
pub fn classify_line(line: &Vec<u8>, heartbeat: u8) -> (r: LineClass)
    ensures
        match r {
            LineClass::Heartbeat => line@ == seq![heartbeat],
            LineClass::ZAxis(v) => {
                &&& line@ != seq![heartbeat]
                &&& line@.len() > 1
                &&& line@[0] == 112
                &&& all_digits(line@.skip(1))
                &&& v == spec_digits_value(line@.skip(1))
            },
            LineClass::XAxis(x) => {
                &&& line@ != seq![heartbeat]
                &&& line@.len() > 1
                &&& line@[0] == 120
                &&& i32_text_valid(line@.skip(1))
                &&& x == spec_i32_text_value(line@.skip(1))
            },
            LineClass::YAxis(x) => {
                &&& line@ != seq![heartbeat]
                &&& line@.len() > 1
                &&& line@[0] == 121
                &&& i32_text_valid(line@.skip(1))
                &&& x == spec_i32_text_value(line@.skip(1))
            },
            LineClass::SensorReading(v) => {
                &&& line@ != seq![heartbeat]
                &&& line@.len() > 3
                &&& line@[0] == 114 && line@[1] == 97 && line@[2] == 49
                &&& all_digits(line@.skip(3))
                &&& v == spec_digits_value(line@.skip(3))
            },
            LineClass::Structured => {
                &&& line@ != seq![heartbeat]
                &&& line@.len() > 0
                &&& line@[0] != 112 && line@[0] != 120 && line@[0] != 121
                &&& !(line@.len() >= 3 && line@[0] == 114 && line@[1] == 97 && line@[2] == 49)
            },
            LineClass::Malformed => {
                &&& line@ != seq![heartbeat]
                &&& (line@.len() == 0 || (line@[0] == 112 && !(line@.len() > 1 && all_digits(
                    line@.skip(1),
                ) && spec_digits_value(line@.skip(1)) <= u32::MAX)) || (line@[0] == 120
                    && !i32_text_valid(line@.skip(1))) || (line@[0] == 121 && !i32_text_valid(
                    line@.skip(1),
                )) || (line@.len() >= 3 && line@[0] == 114 && line@[1] == 97 && line@[2] == 49 && !(
                line@.len() > 3 && all_digits(line@.skip(3)) && spec_digits_value(line@.skip(3))
                    <= u32::MAX)))
            },
        },
{
    if line.len() == 1 && line[0] == heartbeat {
        proof {
            assert(line@ =~= seq![heartbeat]);
        }
        return LineClass::Heartbeat;
    }
    proof {
        assert(line@ != seq![heartbeat]);
    }
    if line.len() == 0 {
        return LineClass::Malformed;
    }
    let first: u8 = line[0];
    if first == 112 {
        let payload: Vec<u8> = tail_from(line, 1);
        proof {
            assert(payload@ =~= line@.skip(1));
        }
        match parse_u32(&payload) {
            Some(v) => LineClass::ZAxis(v),
            None => LineClass::Malformed,
        }
    } else if first == 120 {
        let payload: Vec<u8> = tail_from(line, 1);
        proof {
            assert(payload@ =~= line@.skip(1));
        }
        match parse_i32(&payload) {
            Some(v) => LineClass::XAxis(v),
            None => LineClass::Malformed,
        }
    } else if first == 121 {
        let payload: Vec<u8> = tail_from(line, 1);
        proof {
            assert(payload@ =~= line@.skip(1));
        }
        match parse_i32(&payload) {
            Some(v) => LineClass::YAxis(v),
            None => LineClass::Malformed,
        }
    } else if line.len() >= 3 && first == 114 && line[1] == 97 && line[2] == 49 {
        let payload: Vec<u8> = tail_from(line, 3);
        proof {
            assert(payload@ =~= line@.skip(3));
        }
        match parse_u32(&payload) {
            Some(v) => LineClass::SensorReading(v),
            None => LineClass::Malformed,
        }
    } else {
        LineClass::Structured
    }
}

/// One structured command a peripheral sends the host.
#[derive(Debug)]
pub enum DeviceCommand {
    /// List the selectable time entries.
    GetTimeEntries,
    /// Start a time entry with this description (UTF-8 bytes).
    StartTimeEntry { description: Vec<u8> },
    /// Stop the running time entry.
    StopTimeEntry,
    /// Restart the most recent time entry.
    ContinueTimeEntry,
    /// Move the running time entry's start back by this many minutes.
    AdjustTime { minutes: i64 },
    /// Wake the workstation over the network.
    SendWakeOnLan,
    /// Hand the audio accessory to these devices.
    SwitchBoseDevices { devices: Vec<MacAddress> },
    /// Mark the message inbox read.
    ReadInbox,
    /// Clear the message inbox.
    ClearInbox,
    /// Start the wall clock display.
    StartClock,
    /// Start a countdown of this many minutes.
    StartCountdown { minutes: i64 },
}

/// Why a structured line was rejected; the line is discarded, the
/// transport stays up.
#[derive(Clone, Copy, PartialEq, Eq, Structural, Debug)]
pub enum DecodeError {
    /// The line is not a JSON document.
    NotJson,
    /// The document has no string member named `kind`.
    MissingKind,
    /// The kind names no command of the vocabulary.
    UnknownKind,
    /// The kind's required members are absent or of the wrong shape.
    BadArguments,
}

/// The command kind names of the vocabulary, as wire bytes.
/// `getTimeEntries`
pub open spec fn spec_cmd_get_time_entries() -> Seq<u8> {
    seq![103, 101, 116, 84, 105, 109, 101, 69, 110, 116, 114, 105, 101, 115]
}

/// `startTimeEntry`
pub open spec fn spec_cmd_start_time_entry() -> Seq<u8> {
    seq![115, 116, 97, 114, 116, 84, 105, 109, 101, 69, 110, 116, 114, 121]
}

/// `stopTimeEntry`
pub open spec fn spec_cmd_stop_time_entry() -> Seq<u8> {
    seq![115, 116, 111, 112, 84, 105, 109, 101, 69, 110, 116, 114, 121]
}

/// `continueTimeEntry`
pub open spec fn spec_cmd_continue_time_entry() -> Seq<u8> {
    seq![99, 111, 110, 116, 105, 110, 117, 101, 84, 105, 109, 101, 69, 110, 116, 114, 121]
}

/// `adjustTime`
pub open spec fn spec_cmd_adjust_time() -> Seq<u8> {
    seq![97, 100, 106, 117, 115, 116, 84, 105, 109, 101]
}

/// `sendWakeOnLan`
pub open spec fn spec_cmd_send_wake_on_lan() -> Seq<u8> {
    seq![115, 101, 110, 100, 87, 97, 107, 101, 79, 110, 76, 97, 110]
}

/// `switchBoseDevices`
pub open spec fn spec_cmd_switch_bose_devices() -> Seq<u8> {
    seq![115, 119, 105, 116, 99, 104, 66, 111, 115, 101, 68, 101, 118, 105, 99, 101, 115]
}

/// `readInbox`
pub open spec fn spec_cmd_read_inbox() -> Seq<u8> {
    seq![114, 101, 97, 100, 73, 110, 98, 111, 120]
}

/// `clearInbox`
pub open spec fn spec_cmd_clear_inbox() -> Seq<u8> {
    seq![99, 108, 101, 97, 114, 73, 110, 98, 111, 120]
}

/// `startClock`
pub open spec fn spec_cmd_start_clock() -> Seq<u8> {
    seq![115, 116, 97, 114, 116, 67, 108, 111, 99, 107]
}

/// `startCountdown`
pub open spec fn spec_cmd_start_countdown() -> Seq<u8> {
    seq![115, 116, 97, 114, 116, 67, 111, 117, 110, 116, 100, 111, 119, 110]
}

/// The plain members the JSON boundary extracted from one structured
/// line, each present exactly where the document carries it with the
/// right shape (a string description under `timeEntry`, an integer
/// `minutes`, an array of strings under `devices`).
pub struct CommandArguments {
    /// The `timeEntry.description` string, as UTF-8 bytes.
    pub description: Option<Vec<u8>>,
    /// The `minutes` integer.
    pub minutes: Option<i64>,
    /// The `devices` strings, as UTF-8 bytes each.
    pub devices: Option<Vec<Vec<u8>>>,
}

/// Parses every device text into an address: the result carries the
/// parsed addresses in array order, or rejects the unit where any text is
/// no well-formed address.
pub fn parse_device_texts(texts: Vec<Vec<u8>>) -> (r: Result<Vec<MacAddress>, DecodeError>)
    ensures
        if forall|i: int| 0 <= i < texts@.len() ==> crate::mac::mac_text_valid(
            (#[trigger] texts@[i])@,
        ) {
            r matches Ok(devices) && devices@.len() == texts@.len() && (forall|i: int, g: int|
                0 <= i < devices@.len() && 0 <= g < 6 ==> #[trigger] devices@[i].octets@[g]
                    == crate::mac::spec_mac_octet(texts@[i]@, g))
        } else {
            r == Err::<Vec<MacAddress>, DecodeError>(DecodeError::BadArguments)
        },
{
    let mut devices: Vec<MacAddress> = Vec::new();
    let mut i: usize = 0;
    while i < texts.len()
        invariant
            i <= texts@.len(),
            devices@.len() == i,
            forall|k: int| 0 <= k < i ==> crate::mac::mac_text_valid((#[trigger] texts@[k])@),
            forall|k: int, g: int|
                0 <= k < i && 0 <= g < 6 ==> #[trigger] devices@[k].octets@[g]
                    == crate::mac::spec_mac_octet(texts@[k]@, g),
        decreases texts@.len() - i,
    {
        match parse_mac(&texts[i]) {
            Some(address) => {
                devices.push(address);
            },
            None => {
                proof {
                    assert(!crate::mac::mac_text_valid((texts@[i as int])@));
                }
                return Err(DecodeError::BadArguments);
            },
        }
        i = i + 1;
    }
    Ok(devices)
}

/// Builds the command a kind and its plain members name: each kind
/// invokes exactly its matching command, built only from the members it
/// requires; a kind outside the vocabulary is unknown; a missing or
/// ill-shaped member, or a device string that is no well-formed address,
/// rejects the unit. The addresses of a switch command are the parsed
/// array members, in array order.
pub fn dispatch_command(kind: &Vec<u8>, args: CommandArguments) -> (r: Result<
    DeviceCommand,
    DecodeError,
>)
    ensures
        ({
            let k = kind@;
            if k == spec_cmd_get_time_entries() {
                r matches Ok(DeviceCommand::GetTimeEntries)
            } else if k == spec_cmd_start_time_entry() {
                match args.description {
                    Some(d) => (r matches Ok(DeviceCommand::StartTimeEntry { description })
                        && description@ == d@),
                    None => r == Err::<DeviceCommand, DecodeError>(DecodeError::BadArguments),
                }
            } else if k == spec_cmd_stop_time_entry() {
                r matches Ok(DeviceCommand::StopTimeEntry)
            } else if k == spec_cmd_continue_time_entry() {
                r matches Ok(DeviceCommand::ContinueTimeEntry)
            } else if k == spec_cmd_adjust_time() {
                match args.minutes {
                    Some(m) => (r matches Ok(DeviceCommand::AdjustTime { minutes }) && minutes
                        == m),
                    None => r == Err::<DeviceCommand, DecodeError>(DecodeError::BadArguments),
                }
            } else if k == spec_cmd_send_wake_on_lan() {
                r matches Ok(DeviceCommand::SendWakeOnLan)
            } else if k == spec_cmd_switch_bose_devices() {
                match args.devices {
                    Some(texts) => {
                        if forall|i: int|
                            0 <= i < texts@.len() ==> crate::mac::mac_text_valid(
                                (#[trigger] texts@[i])@,
                            ) {
                            r matches Ok(DeviceCommand::SwitchBoseDevices { devices })
                                && devices@.len() == texts@.len() && (forall|i: int, g: int|
                                0 <= i < devices@.len() && 0 <= g < 6
                                    ==> #[trigger] devices@[i].octets@[g]
                                    == crate::mac::spec_mac_octet(texts@[i]@, g))
                        } else {
                            r == Err::<DeviceCommand, DecodeError>(DecodeError::BadArguments)
                        }
                    },
                    None => r == Err::<DeviceCommand, DecodeError>(DecodeError::BadArguments),
                }
            } else if k == spec_cmd_read_inbox() {
                r matches Ok(DeviceCommand::ReadInbox)
            } else if k == spec_cmd_clear_inbox() {
                r matches Ok(DeviceCommand::ClearInbox)
            } else if k == spec_cmd_start_clock() {
                r matches Ok(DeviceCommand::StartClock)
            } else if k == spec_cmd_start_countdown() {
                match args.minutes {
                    Some(m) => (r matches Ok(DeviceCommand::StartCountdown { minutes })
                        && minutes == m),
                    None => r == Err::<DeviceCommand, DecodeError>(DecodeError::BadArguments),
                }
            } else {
                r == Err::<DeviceCommand, DecodeError>(DecodeError::UnknownKind)
            }
        }),
{
    let k_get_time_entries: Vec<u8> = vec![103, 101, 116, 84, 105, 109, 101, 69, 110, 116, 114, 105, 101, 115];
    proof {
        assert(k_get_time_entries@ =~= spec_cmd_get_time_entries());
    }
    let k_start_time_entry: Vec<u8> = vec![115, 116, 97, 114, 116, 84, 105, 109, 101, 69, 110, 116, 114, 121];
    proof {
        assert(k_start_time_entry@ =~= spec_cmd_start_time_entry());
    }
    let k_stop_time_entry: Vec<u8> = vec![115, 116, 111, 112, 84, 105, 109, 101, 69, 110, 116, 114, 121];
    proof {
        assert(k_stop_time_entry@ =~= spec_cmd_stop_time_entry());
    }
    let k_continue_time_entry: Vec<u8> = vec![99, 111, 110, 116, 105, 110, 117, 101, 84, 105, 109, 101, 69, 110, 116, 114, 121];
    proof {
        assert(k_continue_time_entry@ =~= spec_cmd_continue_time_entry());
    }
    let k_adjust_time: Vec<u8> = vec![97, 100, 106, 117, 115, 116, 84, 105, 109, 101];
    proof {
        assert(k_adjust_time@ =~= spec_cmd_adjust_time());
    }
    let k_send_wake_on_lan: Vec<u8> = vec![115, 101, 110, 100, 87, 97, 107, 101, 79, 110, 76, 97, 110];
    proof {
        assert(k_send_wake_on_lan@ =~= spec_cmd_send_wake_on_lan());
    }
    let k_switch_bose_devices: Vec<u8> = vec![115, 119, 105, 116, 99, 104, 66, 111, 115, 101, 68, 101, 118, 105, 99, 101, 115];
    proof {
        assert(k_switch_bose_devices@ =~= spec_cmd_switch_bose_devices());
    }
    let k_read_inbox: Vec<u8> = vec![114, 101, 97, 100, 73, 110, 98, 111, 120];
    proof {
        assert(k_read_inbox@ =~= spec_cmd_read_inbox());
    }
    let k_clear_inbox: Vec<u8> = vec![99, 108, 101, 97, 114, 73, 110, 98, 111, 120];
    proof {
        assert(k_clear_inbox@ =~= spec_cmd_clear_inbox());
    }
    let k_start_clock: Vec<u8> = vec![115, 116, 97, 114, 116, 67, 108, 111, 99, 107];
    proof {
        assert(k_start_clock@ =~= spec_cmd_start_clock());
    }
    let k_start_countdown: Vec<u8> = vec![115, 116, 97, 114, 116, 67, 111, 117, 110, 116, 100, 111, 119, 110];
    proof {
        assert(k_start_countdown@ =~= spec_cmd_start_countdown());
    }
    if crate::probe::bytes_equal(kind, &k_get_time_entries) {
        Ok(DeviceCommand::GetTimeEntries)
    } else if crate::probe::bytes_equal(kind, &k_start_time_entry) {
        match args.description {
            Some(description) => Ok(DeviceCommand::StartTimeEntry { description }),
            None => Err(DecodeError::BadArguments),
        }
    } else if crate::probe::bytes_equal(kind, &k_stop_time_entry) {
        Ok(DeviceCommand::StopTimeEntry)
    } else if crate::probe::bytes_equal(kind, &k_continue_time_entry) {
        Ok(DeviceCommand::ContinueTimeEntry)
    } else if crate::probe::bytes_equal(kind, &k_adjust_time) {
        match args.minutes {
            Some(minutes) => Ok(DeviceCommand::AdjustTime { minutes }),
            None => Err(DecodeError::BadArguments),
        }
    } else if crate::probe::bytes_equal(kind, &k_send_wake_on_lan) {
        Ok(DeviceCommand::SendWakeOnLan)
    } else if crate::probe::bytes_equal(kind, &k_switch_bose_devices) {
        match args.devices {
            Some(texts) => match parse_device_texts(texts) {
                Ok(devices) => Ok(DeviceCommand::SwitchBoseDevices { devices }),
                Err(e) => Err(e),
            },
            None => Err(DecodeError::BadArguments),
        }
    } else if crate::probe::bytes_equal(kind, &k_read_inbox) {
        Ok(DeviceCommand::ReadInbox)
    } else if crate::probe::bytes_equal(kind, &k_clear_inbox) {
        Ok(DeviceCommand::ClearInbox)
    } else if crate::probe::bytes_equal(kind, &k_start_clock) {
        Ok(DeviceCommand::StartClock)
    } else if crate::probe::bytes_equal(kind, &k_start_countdown) {
        match args.minutes {
            Some(minutes) => Ok(DeviceCommand::StartCountdown { minutes }),
            None => Err(DecodeError::BadArguments),
        }
    } else {
        Err(DecodeError::UnknownKind)
    }
}

/// Decodes one structured line: serde_json, behind the crate's trusted
/// boundary, parses the document and hands out its kind and plain
/// members; [`dispatch_command`], whose contract pins the result for
/// every kind and member shape, builds the command. Because the document
/// itself is opaque to the verifier, this function's own result cannot be
/// related to the line bytes; everything exact lives in the dispatch.
pub fn decode_command(line: &Vec<u8>) -> (r: Result<DeviceCommand, DecodeError>) {
    let parsed = match json_parse(line) {
        Some(v) => v,
        None => {
            return Err(DecodeError::NotJson);
        },
    };
    let kind_value = match json_get(&parsed, "kind") {
        Some(v) => v,
        None => {
            return Err(DecodeError::MissingKind);
        },
    };
    let kind: Vec<u8> = match json_as_string_bytes(kind_value) {
        Some(s) => s,
        None => {
            return Err(DecodeError::MissingKind);
        },
    };
    let description: Option<Vec<u8>> = match json_get(&parsed, "timeEntry") {
        Some(entry) => match json_get(entry, "description") {
            Some(d) => json_as_string_bytes(d),
            None => None,
        },
        None => None,
    };
    let minutes: Option<i64> = int_member(&parsed, "minutes");
    let devices: Option<Vec<Vec<u8>>> = match json_get(&parsed, "devices") {
        Some(v) => match json_as_array(v) {
            Some(entries) => string_array(entries),
            None => None,
        },
        None => None,
    };
    dispatch_command(&kind, CommandArguments { description, minutes, devices })
}

/// The elements of a JSON array as strings, through the trusted boundary;
/// `None` where any element is no string.
fn string_array(entries: &Vec<serde_json::Value>) -> Option<Vec<Vec<u8>>> {
    let mut texts: Vec<Vec<u8>> = Vec::new();
    let mut k: usize = 0;
    while k < entries.len()
        decreases entries@.len() - k,
    {
        match json_as_string_bytes(&entries[k]) {
            Some(t) => texts.push(t),
            None => {
                return None;
            },
        }
        k = k + 1;
    }
    Some(texts)
}

/// One signed integer member of a JSON object, through the trusted
/// boundary.
fn int_member(v: &serde_json::Value, key: &str) -> Option<i64> {
    match json_get(v, key) {
        Some(member) => json_as_i64(member),
        None => None,
    }
}

} // verus!

verus! {

/// Size of one display-data chunk on the line protocol.
pub const DISPLAY_CHUNK: usize = 256;

/// The messages that carry one packed e-ink image: one display-data event
/// per 256-byte chunk, tagged with its byte offset, in strictly
/// increasing offset order, followed by one refresh request - the panel
/// repaints only on that explicit refresh.
pub fn display_data_events(data: &Vec<u8>) -> (r: Vec<HostEvent>)
    requires
        data@.len() <= 0x10000000,
    ensures
        r@.len() == crate::chunking::spec_chunk_count(data@.len() as int, 256) + 1,
        forall|i: int|
            0 <= i < r@.len() - 1 ==> ((#[trigger] r@[i]) matches HostEvent::DisplayData {
                offset,
                data: d,
            } && offset == i * 256 && d@ == crate::chunking::spec_chunk_payload(data@, 256, i)),
        r@[r@.len() - 1] matches HostEvent::RefreshDisplay,
{
    let chunks: Vec<crate::chunking::Chunk> = crate::chunking::chunk(data, DISPLAY_CHUNK);
    let mut out: Vec<HostEvent> = Vec::new();
    let mut i: usize = 0;
    while i < chunks.len()
        invariant
            data@.len() <= 0x10000000,
            chunks@.len() == crate::chunking::spec_chunk_count(data@.len() as int, 256),
            forall|k: int| 0 <= k < chunks@.len() ==> (#[trigger] chunks@[k]).offset == k * 256,
            forall|k: int| 0 <= k < chunks@.len() ==> (#[trigger] chunks@[k]).offset < data@.len(),
            forall|k: int|
                0 <= k < chunks@.len() ==> (#[trigger] chunks@[k]).payload@
                    == crate::chunking::spec_chunk_payload(data@, 256, k),
            i <= chunks@.len(),
            out@.len() == i,
            forall|k: int|
                0 <= k < i ==> ((#[trigger] out@[k]) matches HostEvent::DisplayData {
                    offset,
                    data: d,
                } && offset == k * 256 && d@ == crate::chunking::spec_chunk_payload(data@, 256, k)),
        decreases chunks@.len() - i,
    {
        let c: &crate::chunking::Chunk = &chunks[i];
        let mut payload: Vec<u8> = Vec::new();
        let mut k: usize = 0;
        while k < c.payload.len()
            invariant
                k <= c.payload@.len(),
                payload@ == c.payload@.subrange(0, k as int),
            decreases c.payload@.len() - k,
        {
            payload.push(c.payload[k]);
            proof {
                assert(payload@ =~= c.payload@.subrange(0, k + 1));
            }
            k = k + 1;
        }
        proof {
            assert(payload@ =~= c.payload@);
        }
        let event = HostEvent::DisplayData { offset: c.offset as u32, data: payload };
        out.push(event);
        i = i + 1;
    }
    out.push(HostEvent::RefreshDisplay);
    out
}

} // verus!
