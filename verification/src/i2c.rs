//! Ordered operation batches for the shared I2C bus. The bus is one
//! exclusively owned resource behind a queue: callers submit whole
//! batches rather than taking the bus, which serializes all access
//! without locking. This module builds the exact batches the two LED
//! drivers expect around the remapped pixel buffers; performing them is
//! the bus owner's I/O.

use vstd::prelude::*;

verus! {

/// One operation on the I2C bus.
pub enum I2cOperation {
    /// Select the device to talk to.
    SetAddress(u16),
    /// Write one byte to one register.
    WriteByte(u8, u8),
    /// Write a raw buffer (the first byte selects the start register).
    Write(Vec<u8>),
}

/// Bus address of the LED matrix driver.
pub const MATRIX_ADDRESS: u16 = 0x30;

/// Bus address of the LED shim driver.
pub const SHIM_ADDRESS: u16 = 0x75;

/// The two batches that push one remapped matrix frame: each driver page
/// is unlocked, selected, and written with the page's bytes behind a
/// zero start-register byte.
pub fn matrix_pixel_batches(first: &Vec<u8>, second: &Vec<u8>) -> (r: (
    Vec<I2cOperation>,
    Vec<I2cOperation>,
))
    ensures
        r.0@.len() == 4,
        r.0@[0] matches I2cOperation::SetAddress(a) && a == MATRIX_ADDRESS,
        r.0@[1] matches I2cOperation::WriteByte(reg, v) && reg == 0xfe && v == 0xc5,
        r.0@[2] matches I2cOperation::WriteByte(reg, v) && reg == 0xfd && v == 0x00,
        r.0@[3] matches I2cOperation::Write(d) && d@ == seq![0u8] + first@,
        r.1@.len() == 3,
        r.1@[0] matches I2cOperation::WriteByte(reg, v) && reg == 0xfe && v == 0xc5,
        r.1@[1] matches I2cOperation::WriteByte(reg, v) && reg == 0xfd && v == 0x01,
        r.1@[2] matches I2cOperation::Write(d) && d@ == seq![0u8] + second@,
{
    let mut one: Vec<I2cOperation> = Vec::new();
    one.push(I2cOperation::SetAddress(MATRIX_ADDRESS));
    one.push(I2cOperation::WriteByte(0xfe, 0xc5));
    one.push(I2cOperation::WriteByte(0xfd, 0x00));
    one.push(I2cOperation::Write(prefixed(0x00, first)));
    let mut two: Vec<I2cOperation> = Vec::new();
    two.push(I2cOperation::WriteByte(0xfe, 0xc5));
    two.push(I2cOperation::WriteByte(0xfd, 0x01));
    two.push(I2cOperation::Write(prefixed(0x00, second)));
    (one, two)
}

/// A buffer with one register-select byte in front.
fn prefixed(register: u8, data: &Vec<u8>) -> (r: Vec<u8>)
    ensures
        r@ == seq![register] + data@,
{
    let mut out: Vec<u8> = Vec::new();
    out.push(register);
    let mut k: usize = 0;
    while k < data.len()
        invariant
            k <= data@.len(),
            out@ == seq![register] + data@.subrange(0, k as int),
        decreases data@.len() - k,
    {
        out.push(data[k]);
        proof {
            assert(out@ =~= seq![register] + data@.subrange(0, k + 1));
        }
        k = k + 1;
    }
    proof {
        assert(out@ =~= seq![register] + data@);
    }
    out
}

/// The batch that turns the matrix driver's output on.
pub fn matrix_enable_ops() -> (r: Vec<I2cOperation>)
    ensures
        r@.len() == 4,
        r@[0] matches I2cOperation::SetAddress(a) && a == MATRIX_ADDRESS,
        r@[1] matches I2cOperation::WriteByte(reg, v) && reg == 0xfe && v == 0xc5,
        r@[2] matches I2cOperation::WriteByte(reg, v) && reg == 0xfd && v == 0x04,
        r@[3] matches I2cOperation::WriteByte(reg, v) && reg == 0x00 && v == 0x01,
{
    let mut ops: Vec<I2cOperation> = Vec::new();
    ops.push(I2cOperation::SetAddress(MATRIX_ADDRESS));
    ops.push(I2cOperation::WriteByte(0xfe, 0xc5));
    ops.push(I2cOperation::WriteByte(0xfd, 0x04));
    ops.push(I2cOperation::WriteByte(0x00, 0x01));
    ops
}

/// The batch that blanks both matrix pages and turns the driver's output
/// off.
pub fn matrix_disable_ops() -> (r: Vec<I2cOperation>)
    ensures
        r@.len() == 10,
        r@[0] matches I2cOperation::SetAddress(a) && a == MATRIX_ADDRESS,
        r@[1] matches I2cOperation::WriteByte(reg, v) && reg == 0xfe && v == 0xc5,
        r@[2] matches I2cOperation::WriteByte(reg, v) && reg == 0xfd && v == 0x00,
        r@[3] matches I2cOperation::Write(d) && d@ == Seq::new(181, |i: int| 0u8),
        r@[4] matches I2cOperation::WriteByte(reg, v) && reg == 0xfe && v == 0xc5,
        r@[5] matches I2cOperation::WriteByte(reg, v) && reg == 0xfd && v == 0x01,
        r@[6] matches I2cOperation::Write(d) && d@ == Seq::new(172, |i: int| 0u8),
        r@[7] matches I2cOperation::WriteByte(reg, v) && reg == 0xfe && v == 0xc5,
        r@[8] matches I2cOperation::WriteByte(reg, v) && reg == 0xfd && v == 0x04,
        r@[9] matches I2cOperation::WriteByte(reg, v) && reg == 0x00 && v == 0x00,
{
    let mut ops: Vec<I2cOperation> = Vec::new();
    ops.push(I2cOperation::SetAddress(MATRIX_ADDRESS));
    ops.push(I2cOperation::WriteByte(0xfe, 0xc5));
    ops.push(I2cOperation::WriteByte(0xfd, 0x00));
    ops.push(I2cOperation::Write(zero_bytes(181)));
    ops.push(I2cOperation::WriteByte(0xfe, 0xc5));
    ops.push(I2cOperation::WriteByte(0xfd, 0x01));
    ops.push(I2cOperation::Write(zero_bytes(172)));
    ops.push(I2cOperation::WriteByte(0xfe, 0xc5));
    ops.push(I2cOperation::WriteByte(0xfd, 0x04));
    ops.push(I2cOperation::WriteByte(0x00, 0x00));
    ops
}

/// A run of zero bytes.
fn zero_bytes(n: usize) -> (r: Vec<u8>)
    ensures
        r@ == Seq::new(n as nat, |i: int| 0u8),
{
    let mut out: Vec<u8> = Vec::new();
    let mut k: usize = 0;
    while k < n
        invariant
            k <= n,
            out@ == Seq::new(k as nat, |i: int| 0u8),
        decreases n - k,
    {
        out.push(0);
        proof {
            assert(out@ =~= Seq::new((k + 1) as nat, |i: int| 0u8));
        }
        k = k + 1;
    }
    out
}

/// The batch that pushes one remapped shim register file, behind the
/// driver's pixel start register.
pub fn shim_pixel_batch(regfile: &Vec<u8>) -> (r: Vec<I2cOperation>)
    ensures
        r@.len() == 2,
        r@[0] matches I2cOperation::SetAddress(a) && a == SHIM_ADDRESS,
        r@[1] matches I2cOperation::Write(d) && d@ == seq![0x24u8] + regfile@,
{
    let mut ops: Vec<I2cOperation> = Vec::new();
    ops.push(I2cOperation::SetAddress(SHIM_ADDRESS));
    ops.push(I2cOperation::Write(prefixed(0x24, regfile)));
    ops
}

/// The batch that turns the shim driver's output on.
pub fn shim_enable_ops() -> (r: Vec<I2cOperation>)
    ensures
        r@.len() == 4,
        r@[0] matches I2cOperation::SetAddress(a) && a == SHIM_ADDRESS,
        r@[1] matches I2cOperation::WriteByte(reg, v) && reg == 0xfd && v == 0x0b,
        r@[2] matches I2cOperation::WriteByte(reg, v) && reg == 0x0a && v == 0x01,
        r@[3] matches I2cOperation::WriteByte(reg, v) && reg == 0xfd && v == 0x00,
{
    let mut ops: Vec<I2cOperation> = Vec::new();
    ops.push(I2cOperation::SetAddress(SHIM_ADDRESS));
    ops.push(I2cOperation::WriteByte(0xfd, 0x0b));
    ops.push(I2cOperation::WriteByte(0x0a, 0x01));
    ops.push(I2cOperation::WriteByte(0xfd, 0x00));
    ops
}

/// The batch that blanks the shim's pixel registers one by one and turns
/// the driver's output off.
pub fn shim_disable_ops() -> (r: Vec<I2cOperation>)
    ensures
        r@.len() == 147,
        r@[0] matches I2cOperation::SetAddress(a) && a == SHIM_ADDRESS,
        forall|i: int|
            0 <= i < 144 ==> (#[trigger] r@[1 + i] matches I2cOperation::WriteByte(reg, v) && reg == 0x24 + i
                && v == 0x00),
        r@[145] matches I2cOperation::WriteByte(reg, v) && reg == 0xfd && v == 0x0b,
        r@[146] matches I2cOperation::WriteByte(reg, v) && reg == 0x0a && v == 0x00,
{
    let mut ops: Vec<I2cOperation> = Vec::new();
    ops.push(I2cOperation::SetAddress(SHIM_ADDRESS));
    let mut reg: u8 = 0x24;
    while reg < 0xb4
        invariant
            0x24 <= reg <= 0xb4,
            ops@.len() == 1 + (reg - 0x24),
            ops@[0] matches I2cOperation::SetAddress(a) && a == SHIM_ADDRESS,
            forall|i: int|
                0 <= i < reg - 0x24 ==> (#[trigger] ops@[1 + i] matches I2cOperation::WriteByte(r2, v) && r2
                    == 0x24 + i && v == 0x00),
        decreases 0xb4 - reg,
    {
        ops.push(I2cOperation::WriteByte(reg, 0x00));
        reg = reg + 1;
    }
    ops.push(I2cOperation::WriteByte(0xfd, 0x0b));
    ops.push(I2cOperation::WriteByte(0x0a, 0x00));
    ops
}

} // verus!

verus! {

/// A scaling buffer: a zero start-register byte, then full scaling for
/// every register.
pub open spec fn spec_scaling_bytes(n: int) -> Seq<u8> {
    Seq::new(n as nat, |i: int| if i == 0 { 0u8 } else { 0x20u8 })
}

/// A run of scaling bytes behind the start-register byte.
fn scaling_bytes(n: usize) -> (r: Vec<u8>)
    ensures
        r@ == spec_scaling_bytes(n as int),
{
    let mut out: Vec<u8> = Vec::new();
    let mut k: usize = 0;
    while k < n
        invariant
            k <= n,
            out@ == spec_scaling_bytes(k as int),
        decreases n - k,
    {
        out.push(if k == 0 { 0x00 } else { 0x20 });
        proof {
            assert(out@ =~= spec_scaling_bytes(k + 1));
        }
        k = k + 1;
    }
    out
}

/// The one-time matrix driver setup: reset, full scaling on both pages,
/// a blank frame on both pages, and the output left disabled until the
/// first real frame.
pub fn matrix_init_ops() -> (r: Vec<I2cOperation>)
    ensures
        r@.len() == 23,
        r@[0] matches I2cOperation::SetAddress(a) && a == MATRIX_ADDRESS,
        r@[1] matches I2cOperation::WriteByte(reg, v) && reg == 0xfe && v == 0xc5,
        r@[2] matches I2cOperation::WriteByte(reg, v) && reg == 0xfd && v == 0x04,
        r@[3] matches I2cOperation::WriteByte(reg, v) && reg == 0x3f && v == 0xae,
        r@[4] matches I2cOperation::WriteByte(reg, v) && reg == 0x01 && v == 0x03,
        r@[5] matches I2cOperation::WriteByte(reg, v) && reg == 0xfe && v == 0xc5,
        r@[6] matches I2cOperation::WriteByte(reg, v) && reg == 0xfd && v == 0x02,
        r@[7] matches I2cOperation::Write(d) && d@ == spec_scaling_bytes(181),
        r@[8] matches I2cOperation::WriteByte(reg, v) && reg == 0xfe && v == 0xc5,
        r@[9] matches I2cOperation::WriteByte(reg, v) && reg == 0xfd && v == 0x03,
        r@[10] matches I2cOperation::Write(d) && d@ == spec_scaling_bytes(172),
        r@[11] matches I2cOperation::WriteByte(reg, v) && reg == 0xfe && v == 0xc5,
        r@[12] matches I2cOperation::WriteByte(reg, v) && reg == 0xfd && v == 0x04,
        r@[13] matches I2cOperation::WriteByte(reg, v) && reg == 0x00 && v == 0x01,
        r@[14] matches I2cOperation::WriteByte(reg, v) && reg == 0xfe && v == 0xc5,
        r@[15] matches I2cOperation::WriteByte(reg, v) && reg == 0xfd && v == 0x00,
        r@[16] matches I2cOperation::Write(d) && d@ == Seq::new(181, |i: int| 0u8),
        r@[17] matches I2cOperation::WriteByte(reg, v) && reg == 0xfe && v == 0xc5,
        r@[18] matches I2cOperation::WriteByte(reg, v) && reg == 0xfd && v == 0x01,
        r@[19] matches I2cOperation::Write(d) && d@ == Seq::new(172, |i: int| 0u8),
        r@[20] matches I2cOperation::WriteByte(reg, v) && reg == 0xfe && v == 0xc5,
        r@[21] matches I2cOperation::WriteByte(reg, v) && reg == 0xfd && v == 0x04,
        r@[22] matches I2cOperation::WriteByte(reg, v) && reg == 0x00 && v == 0x00,
{
    let mut ops: Vec<I2cOperation> = Vec::new();
    ops.push(I2cOperation::SetAddress(MATRIX_ADDRESS));
    ops.push(I2cOperation::WriteByte(0xfe, 0xc5));
    ops.push(I2cOperation::WriteByte(0xfd, 0x04));
    ops.push(I2cOperation::WriteByte(0x3f, 0xae));
    ops.push(I2cOperation::WriteByte(0x01, 0x03));
    ops.push(I2cOperation::WriteByte(0xfe, 0xc5));
    ops.push(I2cOperation::WriteByte(0xfd, 0x02));
    ops.push(I2cOperation::Write(scaling_bytes(181)));
    ops.push(I2cOperation::WriteByte(0xfe, 0xc5));
    ops.push(I2cOperation::WriteByte(0xfd, 0x03));
    ops.push(I2cOperation::Write(scaling_bytes(172)));
    ops.push(I2cOperation::WriteByte(0xfe, 0xc5));
    ops.push(I2cOperation::WriteByte(0xfd, 0x04));
    ops.push(I2cOperation::WriteByte(0x00, 0x01));
    ops.push(I2cOperation::WriteByte(0xfe, 0xc5));
    ops.push(I2cOperation::WriteByte(0xfd, 0x00));
    ops.push(I2cOperation::Write(zero_bytes(181)));
    ops.push(I2cOperation::WriteByte(0xfe, 0xc5));
    ops.push(I2cOperation::WriteByte(0xfd, 0x01));
    ops.push(I2cOperation::Write(zero_bytes(172)));
    ops.push(I2cOperation::WriteByte(0xfe, 0xc5));
    ops.push(I2cOperation::WriteByte(0xfd, 0x04));
    ops.push(I2cOperation::WriteByte(0x00, 0x00));
    ops
}

/// The shim driver's one-time mode selection: shutdown register cleared,
/// picture mode, frame zero.
pub fn shim_mode_ops() -> (r: Vec<I2cOperation>)
    ensures
        r@.len() == 4,
        r@[0] matches I2cOperation::SetAddress(a) && a == SHIM_ADDRESS,
        r@[1] matches I2cOperation::WriteByte(reg, v) && reg == 0xfd && v == 0x0b,
        r@[2] matches I2cOperation::WriteByte(reg, v) && reg == 0x00 && v == 0x00,
        r@[3] matches I2cOperation::WriteByte(reg, v) && reg == 0x06 && v == 0x00,
{
    let mut ops: Vec<I2cOperation> = Vec::new();
    ops.push(I2cOperation::SetAddress(SHIM_ADDRESS));
    ops.push(I2cOperation::WriteByte(0xfd, 0x0b));
    ops.push(I2cOperation::WriteByte(0x00, 0x00));
    ops.push(I2cOperation::WriteByte(0x06, 0x00));
    ops
}

/// The shim driver's fixed LED-enable pattern: which of the driver's
/// channels have an LED wired to them.
pub fn shim_pattern_ops() -> (r: Vec<I2cOperation>)
    ensures
        r@.len() == 19,
        r@[0] matches I2cOperation::WriteByte(reg, v) && reg == 0xfd && v == 0x0,
        r@[1] matches I2cOperation::WriteByte(reg, v) && reg == 0x0 && v == 0x0,
        r@[2] matches I2cOperation::WriteByte(reg, v) && reg == 0x1 && v == 0xbf,
        r@[3] matches I2cOperation::WriteByte(reg, v) && reg == 0x2 && v == 0x3e,
        r@[4] matches I2cOperation::WriteByte(reg, v) && reg == 0x3 && v == 0x3e,
        r@[5] matches I2cOperation::WriteByte(reg, v) && reg == 0x4 && v == 0x3f,
        r@[6] matches I2cOperation::WriteByte(reg, v) && reg == 0x5 && v == 0xbe,
        r@[7] matches I2cOperation::WriteByte(reg, v) && reg == 0x6 && v == 0x7,
        r@[8] matches I2cOperation::WriteByte(reg, v) && reg == 0x7 && v == 0x86,
        r@[9] matches I2cOperation::WriteByte(reg, v) && reg == 0x8 && v == 0x30,
        r@[10] matches I2cOperation::WriteByte(reg, v) && reg == 0x9 && v == 0x30,
        r@[11] matches I2cOperation::WriteByte(reg, v) && reg == 0xa && v == 0x3f,
        r@[12] matches I2cOperation::WriteByte(reg, v) && reg == 0xb && v == 0xbe,
        r@[13] matches I2cOperation::WriteByte(reg, v) && reg == 0xc && v == 0x3f,
        r@[14] matches I2cOperation::WriteByte(reg, v) && reg == 0xd && v == 0xbe,
        r@[15] matches I2cOperation::WriteByte(reg, v) && reg == 0xe && v == 0x7f,
        r@[16] matches I2cOperation::WriteByte(reg, v) && reg == 0xf && v == 0xfe,
        r@[17] matches I2cOperation::WriteByte(reg, v) && reg == 0x10 && v == 0x7f,
        r@[18] matches I2cOperation::WriteByte(reg, v) && reg == 0x11 && v == 0x0,
{
    let mut ops: Vec<I2cOperation> = Vec::new();
    ops.push(I2cOperation::WriteByte(0xfd, 0x0));
    ops.push(I2cOperation::WriteByte(0x0, 0x0));
    ops.push(I2cOperation::WriteByte(0x1, 0xbf));
    ops.push(I2cOperation::WriteByte(0x2, 0x3e));
    ops.push(I2cOperation::WriteByte(0x3, 0x3e));
    ops.push(I2cOperation::WriteByte(0x4, 0x3f));
    ops.push(I2cOperation::WriteByte(0x5, 0xbe));
    ops.push(I2cOperation::WriteByte(0x6, 0x7));
    ops.push(I2cOperation::WriteByte(0x7, 0x86));
    ops.push(I2cOperation::WriteByte(0x8, 0x30));
    ops.push(I2cOperation::WriteByte(0x9, 0x30));
    ops.push(I2cOperation::WriteByte(0xa, 0x3f));
    ops.push(I2cOperation::WriteByte(0xb, 0xbe));
    ops.push(I2cOperation::WriteByte(0xc, 0x3f));
    ops.push(I2cOperation::WriteByte(0xd, 0xbe));
    ops.push(I2cOperation::WriteByte(0xe, 0x7f));
    ops.push(I2cOperation::WriteByte(0xf, 0xfe));
    ops.push(I2cOperation::WriteByte(0x10, 0x7f));
    ops.push(I2cOperation::WriteByte(0x11, 0x0));
    ops
}

/// What a display refresh must do to the driver's output: the driver is
/// powered exactly when the logical display is enabled, and is toggled
/// only when the two disagree.
#[derive(Clone, Copy, PartialEq, Eq, Structural, Debug)]
pub enum PowerStep {
    /// Send the enable batch: the display came on.
    Enable,
    /// Send the disable batch: the display went off.
    Disable,
    /// The driver already agrees; send nothing.
    Keep,
}

/// Decides whether a refresh must toggle the driver's output.
pub fn driver_power_step(enabled: bool, driver_enabled: bool) -> (r: PowerStep)
    ensures
        (r == PowerStep::Enable) <==> (enabled && !driver_enabled),
        (r == PowerStep::Disable) <==> (!enabled && driver_enabled),
        (r == PowerStep::Keep) <==> (enabled == driver_enabled),
{
    if enabled && !driver_enabled {
        PowerStep::Enable
    } else if !enabled && driver_enabled {
        PowerStep::Disable
    } else {
        PowerStep::Keep
    }
}

} // verus!
