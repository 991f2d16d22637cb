//! The device session: the translation boundary between structured
//! domain messages and wire bytes. A session owns one line connection
//! exclusively, turns its whole inbound lines into structured events in
//! arrival order - one at a time, no batching - and queues structured
//! host events as outbound lines in enqueue order. It holds no business
//! logic.

use crate::line::{spec_complete_lines, LineConnection, ReadOutcome};
use crate::message::{
    all_digits, classify_line, decode_command, i32_text_valid, send_event, spec_digits_value,
    spec_i32_text_value, DecodeError, DeviceCommand, HostEvent, LineClass,
};
use vstd::prelude::*;

verus! {

/// One structured event a session hands its consumer, in arrival order.
pub enum SessionEvent {
    /// The peripheral's liveness line.
    Heartbeat,
    /// A raw pressure/z-axis reading.
    ZAxis(u32),
    /// A raw x-axis reading.
    XAxis(i32),
    /// A raw y-axis reading.
    YAxis(i32),
    /// A raw soil-capacitance reading.
    SensorReading(u32),
    /// A structured command of the vocabulary.
    Command(DeviceCommand),
    /// A malformed unit, named for the log; the unit is dropped, the
    /// transport stays up.
    Discarded(DecodeError),
}

/// What event one whole line translates to. Heartbeats and the decimal
/// shorthands are pinned exactly; a structured line's decoding runs
/// through serde_json behind the trusted boundary, so for it only the
/// command-or-discarded shape is pinned here - the dispatch itself is
/// contracted at [`crate::message::dispatch_command`].
pub open spec fn spec_event_for_line(line: Seq<u8>, heartbeat: u8, e: SessionEvent) -> bool {
    if line == seq![heartbeat] {
        e matches SessionEvent::Heartbeat
    } else if line.len() == 0 {
        e matches SessionEvent::Discarded(_)
    } else if line[0] == 112 {
        if line.len() > 1 && all_digits(line.skip(1)) && spec_digits_value(line.skip(1))
            <= u32::MAX {
            e matches SessionEvent::ZAxis(v) && v == spec_digits_value(line.skip(1))
        } else {
            e matches SessionEvent::Discarded(_)
        }
    } else if line[0] == 120 {
        if i32_text_valid(line.skip(1)) {
            e matches SessionEvent::XAxis(v) && v == spec_i32_text_value(line.skip(1))
        } else {
            e matches SessionEvent::Discarded(_)
        }
    } else if line[0] == 121 {
        if i32_text_valid(line.skip(1)) {
            e matches SessionEvent::YAxis(v) && v == spec_i32_text_value(line.skip(1))
        } else {
            e matches SessionEvent::Discarded(_)
        }
    } else if line.len() >= 3 && line[0] == 114 && line[1] == 97 && line[2] == 49 {
        if line.len() > 3 && all_digits(line.skip(3)) && spec_digits_value(line.skip(3))
            <= u32::MAX {
            e matches SessionEvent::SensorReading(v) && v == spec_digits_value(line.skip(3))
        } else {
            e matches SessionEvent::Discarded(_)
        }
    } else {
        e matches SessionEvent::Command(_) || e matches SessionEvent::Discarded(_)
    }
}

/// One serial peripheral's session: its exclusively owned connection and
/// its one-letter heartbeat.
pub struct DeviceSession {
    /// The owned transport connection.
    pub connection: LineConnection,
    /// The liveness byte this peripheral greets and heartbeats with.
    pub heartbeat: u8,
}

impl DeviceSession {
    /// Wraps a fresh connection, as discovery handed it out.
    pub fn new(connection: LineConnection, heartbeat: u8) -> (r: DeviceSession)
        ensures
            r.connection == connection,
            r.heartbeat == heartbeat,
    {
        DeviceSession { connection, heartbeat }
    }

    /// Applies one read outcome and drains every whole buffered line into
    /// structured events, in the order the bytes were received. The
    /// outbound queue is untouched; afterwards no whole line stays
    /// buffered, so nothing is delivered late or split.
    pub fn poll_events(&mut self, outcome: ReadOutcome) -> (r: Vec<SessionEvent>)
        requires
            old(self).connection.spec_alive(),
        ensures
            final (self).heartbeat == old(self).heartbeat,
            outcome matches ReadOutcome::Failed ==> {
                &&& !final (self).connection.spec_alive()
                &&& final (self).connection.spec_inbound() == Seq::<u8>::empty()
                &&& final (self).connection.spec_outbound() == Seq::<u8>::empty()
            },
            !(outcome matches ReadOutcome::Failed) ==> {
                let buffered = match outcome {
                    ReadOutcome::Data(d) => old(self).connection.spec_inbound() + d@,
                    _ => old(self).connection.spec_inbound(),
                };
                &&& final (self).connection.spec_alive()
                &&& final (self).connection.spec_outbound() == old(
                    self,
                ).connection.spec_outbound()
                &&& forall|j: int|
                    0 <= j < final (self).connection.spec_inbound().len()
                        ==> final (self).connection.spec_inbound()[j]
                        != crate::line::LINE_TERMINATOR
                &&& r@.len() == spec_complete_lines(buffered).len()
                &&& forall|i: int|
                    0 <= i < r@.len() ==> spec_event_for_line(
                        spec_complete_lines(buffered)[i],
                        old(self).heartbeat,
                        #[trigger] r@[i],
                    )
            },
    {
        let failed: bool = match &outcome {
            ReadOutcome::Failed => true,
            _ => false,
        };
        self.connection.on_read_result(outcome);
        if failed {
            return Vec::new();
        }
        let ghost buffered = self.connection.spec_inbound();
        let lines: Vec<Vec<u8>> = self.connection.take_lines();
        proof {
            assert(lines@.map_values(|line: Vec<u8>| line@) == spec_complete_lines(buffered));
        }
        let mut events: Vec<SessionEvent> = Vec::new();
        let mut i: usize = 0;
        while i < lines.len()
            invariant
                self.heartbeat == old(self).heartbeat,
                self.connection.spec_outbound() == old(self).connection.spec_outbound(),
                self.connection.spec_alive() == old(self).connection.spec_alive(),
                forall|j: int|
                    0 <= j < self.connection.spec_inbound().len()
                        ==> self.connection.spec_inbound()[j] != crate::line::LINE_TERMINATOR,
                lines@.map_values(|line: Vec<u8>| line@) == spec_complete_lines(buffered),
                i <= lines@.len(),
                events@.len() == i,
                forall|k: int|
                    0 <= k < i ==> spec_event_for_line(
                        spec_complete_lines(buffered)[k],
                        old(self).heartbeat,
                        #[trigger] events@[k],
                    ),
            decreases lines@.len() - i,
        {
            let line: &Vec<u8> = &lines[i];
            proof {
                assert(lines@.map_values(|l: Vec<u8>| l@)[i as int] == line@);
            }
            let event: SessionEvent = match classify_line(line, self.heartbeat) {
                LineClass::Heartbeat => SessionEvent::Heartbeat,
                LineClass::ZAxis(v) => SessionEvent::ZAxis(v),
                LineClass::XAxis(v) => SessionEvent::XAxis(v),
                LineClass::YAxis(v) => SessionEvent::YAxis(v),
                LineClass::SensorReading(v) => SessionEvent::SensorReading(v),
                LineClass::Structured => match decode_command(line) {
                    Ok(command) => SessionEvent::Command(command),
                    Err(e) => SessionEvent::Discarded(e),
                },
                LineClass::Malformed => SessionEvent::Discarded(DecodeError::NotJson),
            };
            proof {
                assert(spec_event_for_line(line@, old(self).heartbeat, event));
            }
            events.push(event);
            i = i + 1;
        }
        events
    }

    /// Queues one structured host event as a message line, in enqueue
    /// order behind whatever is already queued.
    pub fn send(&mut self, event: &HostEvent)
        requires
            event matches HostEvent::DisplayData { data, .. } ==> data@.len() <= 0x10000000,
        ensures
            final (self).heartbeat == old(self).heartbeat,
            final (self).connection.spec_inbound() == old(self).connection.spec_inbound(),
            final (self).connection.spec_alive() == old(self).connection.spec_alive(),
            old(self).connection.spec_alive() ==> final (self).connection.spec_outbound() == old(
                self,
            ).connection.spec_outbound() + crate::message::spec_encoded_event(*event) + seq![
                crate::line::LINE_TERMINATOR,
            ],
            !old(self).connection.spec_alive() ==> final (self).connection.spec_outbound() == old(
                self,
            ).connection.spec_outbound(),
    {
        send_event(&mut self.connection, event);
    }
}

} // verus!
