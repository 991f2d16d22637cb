//! The newline-delimited serial connection: growable inbound and outbound
//! byte queues plus an "alive" flag. Inbound bytes are split into whole
//! lines only - a partial line is never surfaced; outbound lines are
//! queued and written opportunistically in bounded slices. A would-block
//! or timeout condition is transient and changes nothing; any other I/O
//! error flips the connection to disconnected and drops all queued state,
//! and a dead connection emits no further bytes until discovery builds a
//! fresh one.

use vstd::prelude::*;

verus! {

/// The newline byte that terminates every message on the wire.
pub const LINE_TERMINATOR: u8 = 10;

/// Largest slice handed to one transport write, matching the device
/// drivers' buffer size.
pub const WRITE_SLICE: usize = 256;

/// The outcome of one non-blocking transport read, as the caller saw it.
pub enum ReadOutcome {
    /// Bytes arrived.
    Data(Vec<u8>),
    /// Nothing to read right now; not a failure.
    WouldBlock,
    /// Any other read error: the transport is gone.
    Failed,
}

/// The outcome of one transport write, as the caller saw it.
pub enum WriteOutcome {
    /// The transport accepted this many bytes (possibly fewer than were
    /// handed to it).
    Wrote(usize),
    /// The transport would block; not a failure.
    WouldBlock,
    /// Any other write error: the transport is gone.
    Failed,
}

/// One open line-oriented serial connection.
pub struct LineConnection {
    inbound: Vec<u8>,
    outbound: Vec<u8>,
    alive: bool,
}

/// The bytes a live connection would hand to the next transport write:
/// the front of the outbound queue, at most [`WRITE_SLICE`] bytes. A dead
/// connection emits nothing.
pub open spec fn spec_write_slice(outbound: Seq<u8>, alive: bool) -> Seq<u8> {
    if alive {
        if outbound.len() <= 256 {
            outbound
        } else {
            outbound.subrange(0, 256)
        }
    } else {
        Seq::empty()
    }
}

impl LineConnection {
    /// Buffered inbound bytes not yet split into lines.
    pub closed spec fn spec_inbound(self) -> Seq<u8> {
        self.inbound@
    }

    /// Queued outbound bytes not yet accepted by the transport.
    pub closed spec fn spec_outbound(self) -> Seq<u8> {
        self.outbound@
    }

    /// Whether the connection is still considered up.
    pub closed spec fn spec_alive(self) -> bool {
        self.alive
    }

    /// A fresh connection, as discovery hands it out: alive, with empty
    /// queues.
    pub fn new() -> (r: LineConnection)
        ensures
            r.spec_alive(),
            r.spec_inbound() == Seq::<u8>::empty(),
            r.spec_outbound() == Seq::<u8>::empty(),
    {
        LineConnection { inbound: Vec::new(), outbound: Vec::new(), alive: true }
    }

    /// Whether the connection is still considered up.
    pub fn is_alive(&self) -> (r: bool)
        ensures
            r == self.spec_alive(),
    {
        self.alive
    }

    /// Applies the outcome of one non-blocking read: data is appended to
    /// the inbound buffer in arrival order, a would-block condition
    /// changes nothing, and any other error disconnects and drops all
    /// queued state.
    pub fn on_read_result(&mut self, outcome: ReadOutcome)
        requires
            old(self).spec_alive(),
        ensures
            match outcome {
                ReadOutcome::Data(data) => {
                    &&& final (self).spec_inbound() == old(self).spec_inbound() + data@
                    &&& final (self).spec_outbound() == old(self).spec_outbound()
                    &&& final (self).spec_alive()
                },
                ReadOutcome::WouldBlock => *final (self) == *old(self),
                ReadOutcome::Failed => {
                    &&& !final (self).spec_alive()
                    &&& final (self).spec_inbound() == Seq::<u8>::empty()
                    &&& final (self).spec_outbound() == Seq::<u8>::empty()
                },
            },
    {
        match outcome {
            ReadOutcome::Data(mut data) => {
                self.inbound.append(&mut data);
            },
            ReadOutcome::WouldBlock => {},
            ReadOutcome::Failed => {
                self.disconnect();
            },
        }
    }

    /// Forces the connection down, discarding all queued and partial
    /// state: recovery is rediscovery from zero, never a byte-level retry.
    pub fn disconnect(&mut self)
        ensures
            !final (self).spec_alive(),
            final (self).spec_inbound() == Seq::<u8>::empty(),
            final (self).spec_outbound() == Seq::<u8>::empty(),
    {
        self.alive = false;
        self.inbound = Vec::new();
        self.outbound = Vec::new();
    }

    /// Splits one whole line off the inbound buffer: the bytes before the
    /// first line terminator, which is consumed with them. Yields nothing
    /// while no terminator is buffered - a partial line is never surfaced.
    pub fn next_line(&mut self) -> (r: Option<Vec<u8>>)
        ensures
            final (self).spec_outbound() == old(self).spec_outbound(),
            final (self).spec_alive() == old(self).spec_alive(),
            match r {
                Some(line) => {
                    let i = line@.len() as int;
                    &&& 0 <= i < old(self).spec_inbound().len()
                    &&& old(self).spec_inbound()[i] == LINE_TERMINATOR
                    &&& forall|j: int| 0 <= j < i ==> old(self).spec_inbound()[j] != LINE_TERMINATOR
                    &&& line@ == old(self).spec_inbound().subrange(0, i)
                    &&& final (self).spec_inbound() == old(self).spec_inbound().subrange(
                        i + 1,
                        old(self).spec_inbound().len() as int,
                    )
                },
                None => {
                    &&& final (self).spec_inbound() == old(self).spec_inbound()
                    &&& forall|j: int|
                        0 <= j < old(self).spec_inbound().len() ==> old(self).spec_inbound()[j]
                            != LINE_TERMINATOR
                },
            },
    {
        let len: usize = self.inbound.len();
        let mut i: usize = 0;
        while i < len
            invariant
                self.spec_inbound() == old(self).spec_inbound(),
                self.spec_outbound() == old(self).spec_outbound(),
                self.spec_alive() == old(self).spec_alive(),
                len == self.inbound@.len(),
                i <= len,
                forall|j: int| 0 <= j < i ==> self.inbound@[j] != LINE_TERMINATOR,
            decreases len - i,
        {
            if self.inbound[i] == LINE_TERMINATOR {
                let mut line: Vec<u8> = Vec::new();
                let mut k: usize = 0;
                while k < i
                    invariant
                        self.spec_inbound() == old(self).spec_inbound(),
                        self.spec_outbound() == old(self).spec_outbound(),
                        self.spec_alive() == old(self).spec_alive(),
                        k <= i < self.inbound@.len(),
                        line@ == self.inbound@.subrange(0, k as int),
                    decreases i - k,
                {
                    line.push(self.inbound[k]);
                    proof {
                        assert(line@ =~= self.inbound@.subrange(0, k + 1));
                    }
                    k = k + 1;
                }
                let mut rest: Vec<u8> = Vec::new();
                let mut m: usize = i + 1;
                while m < len
                    invariant
                        self.spec_inbound() == old(self).spec_inbound(),
                        self.spec_outbound() == old(self).spec_outbound(),
                        self.spec_alive() == old(self).spec_alive(),
                        i + 1 <= m <= len,
                        len == self.inbound@.len(),
                        rest@ == self.inbound@.subrange(i + 1, m as int),
                    decreases len - m,
                {
                    rest.push(self.inbound[m]);
                    proof {
                        assert(rest@ =~= self.inbound@.subrange(i + 1, m + 1));
                    }
                    m = m + 1;
                }
                self.inbound = rest;
                return Some(line);
            }
            i = i + 1;
        }
        None
    }

    /// Queues one outbound line; the terminator is appended here, so the
    /// line itself must not contain one. A dead connection queues
    /// nothing - its state is already discarded.
    pub fn enqueue_line(&mut self, line: &Vec<u8>)
        requires
            forall|j: int| 0 <= j < line@.len() ==> line@[j] != LINE_TERMINATOR,
        ensures
            final (self).spec_inbound() == old(self).spec_inbound(),
            final (self).spec_alive() == old(self).spec_alive(),
            old(self).spec_alive() ==> final (self).spec_outbound() == old(self).spec_outbound()
                + line@ + seq![LINE_TERMINATOR],
            !old(self).spec_alive() ==> final (self).spec_outbound() == old(self).spec_outbound(),
    {
        if !self.alive {
            return ;
        }
        let mut k: usize = 0;
        let ghost start = self.outbound@;
        while k < line.len()
            invariant
                self.spec_inbound() == old(self).spec_inbound(),
                self.spec_alive() == old(self).spec_alive(),
                k <= line@.len(),
                self.outbound@ == start + line@.subrange(0, k as int),
            decreases line@.len() - k,
        {
            self.outbound.push(line[k]);
            proof {
                assert(self.outbound@ =~= start + line@.subrange(0, k + 1));
            }
            k = k + 1;
        }
        self.outbound.push(LINE_TERMINATOR);
        proof {
            assert(line@.subrange(0, line@.len() as int) =~= line@);
            assert(self.outbound@ =~= start + line@ + seq![LINE_TERMINATOR]);
        }
    }

    /// The bytes to hand to the next transport write: the front of the
    /// outbound queue, at most [`WRITE_SLICE`] bytes; nothing on a dead
    /// connection.
    pub fn next_write_slice(&self) -> (r: Vec<u8>)
        ensures
            r@ == spec_write_slice(self.spec_outbound(), self.spec_alive()),
    {
        let mut slice: Vec<u8> = Vec::new();
        if !self.alive {
            proof {
                assert(slice@ =~= spec_write_slice(self.spec_outbound(), self.spec_alive()));
            }
            return slice;
        }
        let n: usize = if self.outbound.len() <= WRITE_SLICE {
            self.outbound.len()
        } else {
            WRITE_SLICE
        };
        let mut k: usize = 0;
        while k < n
            invariant
                k <= n <= self.outbound@.len(),
                slice@ == self.outbound@.subrange(0, k as int),
            decreases n - k,
        {
            slice.push(self.outbound[k]);
            proof {
                assert(slice@ =~= self.outbound@.subrange(0, k + 1));
            }
            k = k + 1;
        }
        proof {
            assert(slice@ =~= spec_write_slice(self.spec_outbound(), self.spec_alive()));
        }
        slice
    }

    /// Applies the outcome of one transport write: accepted bytes leave
    /// the front of the queue (serial transports may truncate writes
    /// under backpressure, so fewer bytes than offered may go), a
    /// would-block condition changes nothing, and any other error
    /// disconnects and drops all queued state.
    pub fn on_write_result(&mut self, outcome: WriteOutcome)
        requires
            old(self).spec_alive(),
        ensures
            match outcome {
                WriteOutcome::Wrote(n) => {
                    let kept = if n <= old(self).spec_outbound().len() {
                        n as int
                    } else {
                        old(self).spec_outbound().len() as int
                    };
                    &&& final (self).spec_outbound() == old(self).spec_outbound().subrange(
                        kept,
                        old(self).spec_outbound().len() as int,
                    )
                    &&& final (self).spec_inbound() == old(self).spec_inbound()
                    &&& final (self).spec_alive()
                },
                WriteOutcome::WouldBlock => *final (self) == *old(self),
                WriteOutcome::Failed => {
                    &&& !final (self).spec_alive()
                    &&& final (self).spec_inbound() == Seq::<u8>::empty()
                    &&& final (self).spec_outbound() == Seq::<u8>::empty()
                },
            },
    {
        match outcome {
            WriteOutcome::Wrote(n) => {
                let drop: usize = if n <= self.outbound.len() {
                    n
                } else {
                    self.outbound.len()
                };
                let len: usize = self.outbound.len();
                let mut rest: Vec<u8> = Vec::new();
                let mut m: usize = drop;
                while m < len
                    invariant
                        self.spec_inbound() == old(self).spec_inbound(),
                        self.spec_alive() == old(self).spec_alive(),
                        self.spec_outbound() == old(self).spec_outbound(),
                        drop <= m <= len,
                        len == self.outbound@.len(),
                        rest@ == self.outbound@.subrange(drop as int, m as int),
                    decreases len - m,
                {
                    rest.push(self.outbound[m]);
                    proof {
                        assert(rest@ =~= self.outbound@.subrange(drop as int, m + 1));
                    }
                    m = m + 1;
                }
                self.outbound = rest;
            },
            WriteOutcome::WouldBlock => {},
            WriteOutcome::Failed => {
                self.disconnect();
            },
        }
    }
}

/// A connection that saw a non-timeout error emits nothing: once the
/// alive flag is down, the next write slice is empty, whatever sits in
/// the queues, and stays so until discovery replaces the connection.
pub proof fn lemma_dead_connection_is_silent(outbound: Seq<u8>)
    ensures
        spec_write_slice(outbound, false) == Seq::<u8>::empty(),
{
}

} // verus!

verus! {

/// The lines of a sequence joined back with their terminators: what the
/// inbound buffer held before whole lines were split off it.
pub open spec fn spec_join_lines(lines: Seq<Seq<u8>>) -> Seq<u8>
    decreases lines.len(),
{
    if lines.len() == 0 {
        Seq::empty()
    } else {
        spec_join_lines(lines.drop_last()) + lines.last() + seq![LINE_TERMINATOR]
    }
}

impl LineConnection {
    /// Splits every whole buffered line off the inbound buffer, in the
    /// order the bytes were received. Joining the yielded lines back with
    /// their terminators and appending what remains buffered reconstructs
    /// the old buffer exactly; no yielded line and no remainder holds a
    /// terminator, so nothing was reordered, coalesced or split early.
    pub fn take_lines(&mut self) -> (r: Vec<Vec<u8>>)
        ensures
            final (self).spec_outbound() == old(self).spec_outbound(),
            final (self).spec_alive() == old(self).spec_alive(),
            r@.map_values(|line: Vec<u8>| line@) == spec_complete_lines(old(self).spec_inbound()),
            spec_join_lines(r@.map_values(|line: Vec<u8>| line@)) + final (self).spec_inbound()
                == old(self).spec_inbound(),
            forall|i: int, j: int|
                0 <= i < r@.len() && 0 <= j < r@[i]@.len() ==> #[trigger] r@[i]@[j]
                    != LINE_TERMINATOR,
            forall|j: int|
                0 <= j < final (self).spec_inbound().len() ==> final (self).spec_inbound()[j]
                    != LINE_TERMINATOR,
    {
        let mut out: Vec<Vec<u8>> = Vec::new();
        proof {
            assert(spec_join_lines(out@.map_values(|line: Vec<u8>| line@)) + self.spec_inbound()
                =~= old(self).spec_inbound());
            assert(spec_complete_lines(old(self).spec_inbound()) =~= out@.map_values(
                |line: Vec<u8>| line@,
            ) + spec_complete_lines(self.spec_inbound()));
        }
        loop
            invariant
                self.spec_outbound() == old(self).spec_outbound(),
                self.spec_alive() == old(self).spec_alive(),
                spec_complete_lines(old(self).spec_inbound()) == out@.map_values(
                    |line: Vec<u8>| line@,
                ) + spec_complete_lines(self.spec_inbound()),
                spec_join_lines(out@.map_values(|line: Vec<u8>| line@)) + self.spec_inbound()
                    == old(self).spec_inbound(),
                forall|i: int, j: int|
                    0 <= i < out@.len() && 0 <= j < out@[i]@.len() ==> #[trigger] out@[i]@[j]
                        != LINE_TERMINATOR,
            ensures
                self.spec_outbound() == old(self).spec_outbound(),
                self.spec_alive() == old(self).spec_alive(),
                out@.map_values(|line: Vec<u8>| line@) == spec_complete_lines(
                    old(self).spec_inbound(),
                ),
                spec_join_lines(out@.map_values(|line: Vec<u8>| line@)) + self.spec_inbound()
                    == old(self).spec_inbound(),
                forall|i: int, j: int|
                    0 <= i < out@.len() && 0 <= j < out@[i]@.len() ==> #[trigger] out@[i]@[j]
                        != LINE_TERMINATOR,
                forall|j: int|
                    0 <= j < self.spec_inbound().len() ==> self.spec_inbound()[j]
                        != LINE_TERMINATOR,
            decreases self.spec_inbound().len(),
        {
            let ghost before = self.spec_inbound();
            let ghost out_before = out@;
            let ghost joined_before = spec_join_lines(out@.map_values(|line: Vec<u8>| line@));
            match self.next_line() {
                Some(line) => {
                    proof {
                        assert(before =~= line@ + seq![LINE_TERMINATOR] + self.spec_inbound());
                    }
                    out.push(line);
                    proof {
                        let mapped = out@.map_values(|l: Vec<u8>| l@);
                        assert(mapped.drop_last() =~= out_before.map_values(|l: Vec<u8>| l@));
                        assert(mapped.len() > 0);
                        assert(spec_join_lines(mapped) == spec_join_lines(mapped.drop_last())
                            + mapped.last() + seq![LINE_TERMINATOR]);
                        assert(mapped.last() == line@);
                        assert(spec_join_lines(mapped) + self.spec_inbound() =~= old(
                            self,
                        ).spec_inbound());
                        lemma_lines_acc_first(line@, self.spec_inbound(), Seq::empty());
                        assert(Seq::<u8>::empty() + line@ =~= line@);
                        assert(spec_complete_lines(before) =~= seq![line@]
                            + spec_complete_lines(self.spec_inbound()));
                        assert(mapped =~= mapped.drop_last() + seq![line@]);
                        assert(spec_complete_lines(old(self).spec_inbound()) =~= mapped
                            + spec_complete_lines(self.spec_inbound()));
                    }
                },
                None => {
                    proof {
                        lemma_lines_acc_none(self.spec_inbound(), Seq::empty());
                        assert(out@.map_values(|line: Vec<u8>| line@) =~= spec_complete_lines(
                            old(self).spec_inbound(),
                        ));
                    }
                    return out;
                },
            }
        }
    }
}

} // verus!

verus! {

/// The whole lines a buffer holds, in order: the maximal terminator-free
/// runs before each terminator, scanned from the front with `cur` as the
/// partial line carried in.
pub open spec fn spec_lines_acc(s: Seq<u8>, cur: Seq<u8>) -> Seq<Seq<u8>>
    decreases s.len(),
{
    if s.len() == 0 {
        Seq::empty()
    } else if s[0] == LINE_TERMINATOR {
        seq![cur] + spec_lines_acc(s.skip(1), Seq::empty())
    } else {
        spec_lines_acc(s.skip(1), cur.push(s[0]))
    }
}

/// The whole lines a buffer holds, in order; a trailing run without a
/// terminator is not among them.
pub open spec fn spec_complete_lines(s: Seq<u8>) -> Seq<Seq<u8>> {
    spec_lines_acc(s, Seq::empty())
}

/// A buffer without a terminator holds no whole line, whatever partial
/// line is carried in.
proof fn lemma_lines_acc_none(s: Seq<u8>, cur: Seq<u8>)
    requires
        forall|j: int| 0 <= j < s.len() ==> s[j] != LINE_TERMINATOR,
    ensures
        spec_lines_acc(s, cur) == Seq::<Seq<u8>>::empty(),
    decreases s.len(),
{
    if s.len() > 0 {
        assert(forall|j: int| 0 <= j < s.skip(1).len() ==> s.skip(1)[j] != LINE_TERMINATOR);
        lemma_lines_acc_none(s.skip(1), cur.push(s[0]));
    }
}

/// Splitting the first whole line off the front: a terminator-free line,
/// its terminator, and the rest decompose the scan.
proof fn lemma_lines_acc_first(line: Seq<u8>, rest: Seq<u8>, cur: Seq<u8>)
    requires
        forall|j: int| 0 <= j < line.len() ==> line[j] != LINE_TERMINATOR,
    ensures
        spec_lines_acc(line + seq![LINE_TERMINATOR] + rest, cur) == seq![cur + line]
            + spec_complete_lines(rest),
    decreases line.len(),
{
    let s = line + seq![LINE_TERMINATOR] + rest;
    if line.len() == 0 {
        assert(s[0] == LINE_TERMINATOR);
        assert(s.skip(1) =~= rest);
        assert(cur + line =~= cur);
        assert(spec_lines_acc(s, cur) =~= seq![cur + line] + spec_complete_lines(rest));
    } else {
        assert(s[0] == line[0] && line[0] != LINE_TERMINATOR);
        assert(s.skip(1) =~= line.skip(1) + seq![LINE_TERMINATOR] + rest);
        assert(forall|j: int| 0 <= j < line.skip(1).len() ==> line.skip(1)[j] != LINE_TERMINATOR);
        lemma_lines_acc_first(line.skip(1), rest, cur.push(line[0]));
        assert(cur.push(line[0]) + line.skip(1) =~= cur + line);
    }
}

} // verus!
