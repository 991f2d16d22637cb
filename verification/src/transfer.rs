//! The image-transfer protocol for the small wearable display: one
//! zero-length start command, then the packed image as a sequence of
//! fixed-size records - a 2-byte little-endian offset, a 1-byte true
//! payload length, and a fixed-size data block, the short final record
//! zero-padded - then one zero-length refresh command. Every write is
//! write-with-response: no record goes out before the previous one was
//! acknowledged. Any failure aborts the whole transfer.

use crate::chunking::{chunk, spec_chunk_count, spec_chunk_payload, Chunk};
use vstd::prelude::*;

verus! {

/// One wire record: `[offset low, offset high, true length]`, the chunk's
/// payload, and zero padding up to the fixed block size.
pub open spec fn spec_record(buf: Seq<u8>, block: int, i: int) -> Seq<u8> {
    let off = i * block;
    let payload = spec_chunk_payload(buf, block, i);
    seq![(off % 256) as u8, ((off / 256) % 256) as u8, payload.len() as u8] + payload + Seq::new(
        (block - payload.len()) as nat,
        |j: int| 0u8,
    )
}

/// Builds the wire records for an image buffer: one per chunk, in offset
/// order. Offsets must fit the 2-byte field, and a block fits one
/// transport write.
pub fn image_records(data: &Vec<u8>, block: usize) -> (r: Vec<Vec<u8>>)
    requires
        0 < block <= 250,
        data@.len() <= 0x10000,
    ensures
        r@.len() == spec_chunk_count(data@.len() as int, block as int),
        forall|i: int|
            0 <= i < r@.len() ==> (#[trigger] r@[i])@ == spec_record(data@, block as int, i),
{
    let chunks: Vec<Chunk> = chunk(data, block);
    let mut out: Vec<Vec<u8>> = Vec::new();
    let mut i: usize = 0;
    while i < chunks.len()
        invariant
            0 < block <= 250,
            data@.len() <= 0x10000,
            chunks@.len() == spec_chunk_count(data@.len() as int, block as int),
            forall|k: int| 0 <= k < chunks@.len() ==> (#[trigger] chunks@[k]).offset == k * block,
            forall|k: int|
                0 <= k < chunks@.len() ==> (#[trigger] chunks@[k]).payload@ == spec_chunk_payload(
                    data@,
                    block as int,
                    k,
                ),
            forall|k: int| 0 <= k < chunks@.len() ==> (#[trigger] chunks@[k]).offset < data@.len(),
            i <= chunks@.len(),
            out@.len() == i,
            forall|k: int|
                0 <= k < i ==> (#[trigger] out@[k])@ == spec_record(data@, block as int, k),
        decreases chunks@.len() - i,
    {
        let c: &Chunk = &chunks[i];
        proof {
            assert((i as int + 1) * block == i as int * block + block) by (nonlinear_arith);
            assert(c.offset == i * block);
            assert(i * block < data@.len());
            assert(c.payload@.len() <= block);
        }
        let mut rec: Vec<u8> = Vec::new();
        rec.push((c.offset % 256) as u8);
        rec.push(((c.offset / 256) % 256) as u8);
        rec.push(c.payload.len() as u8);
        let mut k: usize = 0;
        let ghost header = rec@;
        while k < c.payload.len()
            invariant
                k <= c.payload@.len(),
                rec@ == header + c.payload@.subrange(0, k as int),
            decreases c.payload@.len() - k,
        {
            rec.push(c.payload[k]);
            proof {
                assert(rec@ =~= header + c.payload@.subrange(0, k + 1));
            }
            k = k + 1;
        }
        let mut pad: usize = c.payload.len();
        while pad < block
            invariant
                c.payload@.len() <= pad <= block,
                rec@ == header + c.payload@.subrange(0, c.payload@.len() as int) + Seq::new(
                    (pad - c.payload@.len()) as nat,
                    |j: int| 0u8,
                ),
            decreases block - pad,
        {
            rec.push(0);
            proof {
                assert(rec@ =~= header + c.payload@.subrange(0, c.payload@.len() as int) + Seq::new(
                    (pad + 1 - c.payload@.len()) as nat,
                    |j: int| 0u8,
                ));
            }
            pad = pad + 1;
        }
        proof {
            assert(c.payload@.subrange(0, c.payload@.len() as int) =~= c.payload@);
            assert(rec@ =~= spec_record(data@, block as int, i as int));
        }
        out.push(rec);
        i = i + 1;
    }
    out
}

/// Where the transfer stands: what was last written and whose
/// acknowledgement is awaited.
#[derive(Clone, Copy, PartialEq, Eq, Structural)]
pub enum TransferPhase {
    /// The start command was written; its acknowledgement is awaited.
    AwaitStartAck,
    /// Record `i` was written; its acknowledgement is awaited.
    AwaitRecordAck(usize),
    /// The refresh command was written; its acknowledgement is awaited.
    AwaitRefreshAck,
    /// The display acknowledged the refresh; the transfer succeeded.
    Done,
    /// Some step failed; the whole transfer is aborted.
    Failed,
}

/// What the caller reports back to the machine.
pub enum TransferEvent {
    /// The peripheral acknowledged the last write.
    Ack,
    /// Write error or disconnect mid-sequence: the step failed.
    Failure,
}

/// What the caller must do next; every write is write-with-response.
pub enum TransferAction {
    /// Write this record to the data characteristic and await the
    /// acknowledgement.
    WriteRecord(Vec<u8>),
    /// Write the zero-length refresh command to the control
    /// characteristic and await the acknowledgement.
    WriteRefresh,
    /// The transfer is over; disconnect and report success.
    Succeed,
    /// The transfer is aborted; disconnect and report failure.
    Fail,
}

/// One run of the image transfer: the prebuilt records and the phase.
pub struct ImageTransfer {
    records: Vec<Vec<u8>>,
    phase: TransferPhase,
}

impl ImageTransfer {
    /// The wire records this transfer sends, in offset order.
    pub closed spec fn spec_records(self) -> Seq<Vec<u8>> {
        self.records@
    }

    /// The current phase.
    pub closed spec fn spec_phase(self) -> TransferPhase {
        self.phase
    }

    /// The current phase, for the caller's control flow.
    pub fn phase(&self) -> (r: TransferPhase)
        ensures
            r == self.spec_phase(),
    {
        self.phase
    }

    /// Starts a transfer of a packed image: the caller first writes the
    /// zero-length start command and awaits its acknowledgement.
    pub fn new(data: &Vec<u8>, block: usize) -> (r: ImageTransfer)
        requires
            0 < block <= 250,
            data@.len() <= 0x10000,
        ensures
            r.spec_phase() == TransferPhase::AwaitStartAck,
            r.spec_records().len() == spec_chunk_count(data@.len() as int, block as int),
            forall|i: int|
                0 <= i < r.spec_records().len() ==> (#[trigger] r.spec_records()[i])@
                    == spec_record(data@, block as int, i),
    {
        ImageTransfer { records: image_records(data, block), phase: TransferPhase::AwaitStartAck }
    }

    /// Feeds one event into the transfer and yields the next action. No
    /// record is sent before the previous write was acknowledged; a
    /// failure aborts the whole transfer.
    pub fn step(&mut self, event: TransferEvent) -> (r: TransferAction)
        requires
            !(old(self).spec_phase() == TransferPhase::Done),
            !(old(self).spec_phase() == TransferPhase::Failed),
            old(self).spec_phase() matches TransferPhase::AwaitRecordAck(i) ==> i < old(
                self,
            ).spec_records().len(),
        ensures
            final (self).spec_records() == old(self).spec_records(),
            match event {
                TransferEvent::Failure => {
                    &&& final (self).spec_phase() == TransferPhase::Failed
                    &&& r matches TransferAction::Fail
                },
                TransferEvent::Ack => match old(self).spec_phase() {
                    TransferPhase::AwaitStartAck => {
                        if old(self).spec_records().len() > 0 {
                            &&& final (self).spec_phase() == TransferPhase::AwaitRecordAck(0)
                            &&& r matches TransferAction::WriteRecord(rec) && rec@ == (old(
                                self,
                            ).spec_records()[0])@
                        } else {
                            &&& final (self).spec_phase() == TransferPhase::AwaitRefreshAck
                            &&& r matches TransferAction::WriteRefresh
                        }
                    },
                    TransferPhase::AwaitRecordAck(i) => {
                        if i + 1 < old(self).spec_records().len() {
                            &&& final (self).spec_phase() == TransferPhase::AwaitRecordAck(
                                (i + 1) as usize,
                            )
                            &&& r matches TransferAction::WriteRecord(rec) && rec@ == (old(
                                self,
                            ).spec_records()[i + 1])@
                        } else {
                            &&& final (self).spec_phase() == TransferPhase::AwaitRefreshAck
                            &&& r matches TransferAction::WriteRefresh
                        }
                    },
                    TransferPhase::AwaitRefreshAck => {
                        &&& final (self).spec_phase() == TransferPhase::Done
                        &&& r matches TransferAction::Succeed
                    },
                    _ => final (self).spec_phase() == TransferPhase::Failed,
                },
            },
    {
        match event {
            TransferEvent::Failure => {
                self.phase = TransferPhase::Failed;
                TransferAction::Fail
            },
            TransferEvent::Ack => {
                match self.phase {
                    TransferPhase::AwaitStartAck => {
                        if self.records.len() > 0 {
                            self.phase = TransferPhase::AwaitRecordAck(0);
                            TransferAction::WriteRecord(clone_bytes(&self.records[0]))
                        } else {
                            self.phase = TransferPhase::AwaitRefreshAck;
                            TransferAction::WriteRefresh
                        }
                    },
                    TransferPhase::AwaitRecordAck(i) => {
                        let n: usize = self.records.len();
                        proof {
                            assert(i < n);
                        }
                        if i + 1 < n {
                            self.phase = TransferPhase::AwaitRecordAck(i + 1);
                            TransferAction::WriteRecord(clone_bytes(&self.records[i + 1]))
                        } else {
                            self.phase = TransferPhase::AwaitRefreshAck;
                            TransferAction::WriteRefresh
                        }
                    },
                    TransferPhase::AwaitRefreshAck => {
                        self.phase = TransferPhase::Done;
                        TransferAction::Succeed
                    },
                    _ => {
                        self.phase = TransferPhase::Failed;
                        TransferAction::Fail
                    },
                }
            },
        }
    }
}

/// A byte-for-byte copy of a record.
fn clone_bytes(v: &Vec<u8>) -> (r: Vec<u8>)
    ensures
        r@ == v@,
{
    let mut out: Vec<u8> = Vec::new();
    let mut k: usize = 0;
    while k < v.len()
        invariant
            k <= v@.len(),
            out@ == v@.subrange(0, k as int),
        decreases v@.len() - k,
    {
        out.push(v[k]);
        proof {
            assert(out@ =~= v@.subrange(0, k + 1));
        }
        k = k + 1;
    }
    proof {
        assert(out@ =~= v@);
    }
    out
}

} // verus!
