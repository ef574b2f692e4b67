use vstd::prelude::*;
use crate::protocol::copy_range;

verus! {

/// The largest chunk that one read of a copy loop takes from its source.
pub const CHUNK_SIZE: usize = 4096;

/// What one read from a copy loop's source gave.
pub enum ReadOutcome {
    /// A chunk of payload.
    Chunk(Vec<u8>),
    /// A unit that carries no payload for this loop (a frame of another kind).
    Skipped,
    /// The source reached its end.
    End,
    /// The read failed.
    Failed,
}

/// What a copy loop asks its runner to do next.
pub enum CopyStep {
    /// Read the next chunk from the source.
    Read,
    /// Write these bytes, verbatim, to the destination.
    Write(Vec<u8>),
    /// Half-close the destination's write side; the loop is over.
    CloseWrite,
}

/// One direction of a spliced session: copies what its source yields to its
/// destination, chunk by chunk and in order, until the source ends or either
/// side fails, and then half-closes the destination.
pub struct CopyLoop {
    running: bool,
    writing: bool,
    received: Ghost<Seq<u8>>,
    delivered: Ghost<Seq<u8>>,
    in_flight: Ghost<Seq<u8>>,
}

impl CopyLoop {
    /// Whether the loop still copies.
    pub closed spec fn is_running(&self) -> bool {
        self.running
    }

    /// Whether a chunk has been handed out for writing and its outcome is not known yet.
    pub closed spec fn is_writing(&self) -> bool {
        self.writing
    }

    /// Every byte read from the source so far, in order.
    pub closed spec fn received(&self) -> Seq<u8> {
        self.received@
    }

    /// Every byte whose write to the destination succeeded, in order.
    pub closed spec fn delivered(&self) -> Seq<u8> {
        self.delivered@
    }

    /// The chunk being written, or the one whose write failed.
    pub closed spec fn in_flight(&self) -> Seq<u8> {
        self.in_flight@
    }

    pub closed spec fn well_formed(&self) -> bool {
        &&& self.delivered@ + self.in_flight@ == self.received@
        &&& self.running && !self.writing ==> self.in_flight@.len() == 0
        &&& self.writing ==> self.running
    }

    /// A loop that has copied nothing yet.
    pub fn new() -> (r: Self)
        ensures
            r.well_formed(),
            r.is_running(),
            !r.is_writing(),
            r.received() == Seq::<u8>::empty(),
            r.delivered() == Seq::<u8>::empty(),
    {
        let r = CopyLoop {
            running: true,
            writing: false,
            received: Ghost(Seq::empty()),
            delivered: Ghost(Seq::empty()),
            in_flight: Ghost(Seq::empty()),
        };
        assert(r.delivered@ + r.in_flight@ =~= r.received@);
        r
    }

    /// Whether the loop still copies.
    pub fn running(&self) -> (r: bool)
        ensures
            r == self.is_running(),
    {
        self.running
    }

    /// Takes the outcome of a read: a chunk is handed out verbatim for writing;
    /// the end of the source or a failed read half-closes the destination and
    /// ends the loop.
    pub fn on_read(&mut self, outcome: ReadOutcome) -> (r: CopyStep)
        requires
            old(self).well_formed(),
            old(self).is_running(),
            !old(self).is_writing(),
        ensures
            final(self).well_formed(),
            final(self).delivered() == old(self).delivered(),
            match outcome {
                ReadOutcome::Chunk(c) => {
                    &&& r matches CopyStep::Write(w) && w@ == c@
                    &&& final(self).is_running() && final(self).is_writing()
                    &&& final(self).in_flight() == c@
                    &&& final(self).received() == old(self).received() + c@
                },
                ReadOutcome::Skipped => {
                    &&& r is Read
                    &&& final(self).is_running() && !final(self).is_writing()
                    &&& final(self).received() == old(self).received()
                },
                _ => {
                    &&& r is CloseWrite
                    &&& !final(self).is_running() && !final(self).is_writing()
                    &&& final(self).received() == old(self).received()
                    &&& final(self).in_flight().len() == 0
                },
            },
    {
        match outcome {
            ReadOutcome::Chunk(c) => {
                self.writing = true;
                self.received = Ghost(self.received@ + c@);
                self.in_flight = Ghost(c@);
                assert(self.delivered@ + self.in_flight@ =~= self.received@);
                CopyStep::Write(c)
            },
            ReadOutcome::Skipped => CopyStep::Read,
            _ => {
                self.running = false;
                CopyStep::CloseWrite
            },
        }
    }

    /// Takes the outcome of a read from a byte stream into `buf`: `n` bytes were
    /// read, and none means the end of the stream.
    pub fn on_bytes(&mut self, buf: &[u8], n: usize) -> (r: CopyStep)
        requires
            old(self).well_formed(),
            old(self).is_running(),
            !old(self).is_writing(),
            n <= buf@.len(),
        ensures
            final(self).well_formed(),
            final(self).delivered() == old(self).delivered(),
            n == 0 ==> {
                &&& r is CloseWrite
                &&& !final(self).is_running() && !final(self).is_writing()
                &&& final(self).received() == old(self).received()
                &&& final(self).in_flight().len() == 0
            },
            n > 0 ==> {
                &&& r matches CopyStep::Write(w) && w@ == buf@.subrange(0, n as int)
                &&& final(self).is_running() && final(self).is_writing()
                &&& final(self).in_flight() == buf@.subrange(0, n as int)
                &&& final(self).received() == old(self).received() + buf@.subrange(0, n as int)
            },
    {
        if n == 0 {
            self.on_read(ReadOutcome::End)
        } else {
            self.on_read(ReadOutcome::Chunk(copy_range(buf, 0, n)))
        }
    }

    /// Takes the outcome of writing the chunk in flight: on success the loop
    /// reads on; a failed write half-closes the destination and ends the loop.
    pub fn on_write(&mut self, ok: bool) -> (r: CopyStep)
        requires
            old(self).well_formed(),
            old(self).is_writing(),
        ensures
            final(self).well_formed(),
            !final(self).is_writing(),
            final(self).received() == old(self).received(),
            ok ==> {
                &&& r is Read
                &&& final(self).is_running()
                &&& final(self).delivered() == old(self).delivered() + old(self).in_flight()
            },
            !ok ==> {
                &&& r is CloseWrite
                &&& !final(self).is_running()
                &&& final(self).delivered() == old(self).delivered()
            },
    {
        self.writing = false;
        if ok {
            self.delivered = Ghost(self.delivered@ + self.in_flight@);
            self.in_flight = Ghost(Seq::empty());
            assert(self.delivered@ + self.in_flight@ =~= self.received@);
            CopyStep::Read
        } else {
            self.running = false;
            CopyStep::CloseWrite
        }
    }
}

/// Byte fidelity. The bytes delivered to the destination are the bytes read
/// from the source, in order, but for the one chunk in flight (or lost to a
/// failed write); while the loop waits for a read, and once it has ended at the
/// end of its source, they are exactly the bytes read.
pub proof fn lemma_delivered_matches_received(l: CopyLoop)
    requires
        l.well_formed(),
    ensures
        l.delivered() + l.in_flight() == l.received(),
        l.is_running() && !l.is_writing() ==> l.delivered() == l.received(),
        l.in_flight().len() == 0 ==> l.delivered() == l.received(),
{
    if l.in_flight().len() == 0 {
        assert(l.in_flight() =~= Seq::<u8>::empty());
        assert(l.delivered() + l.in_flight() =~= l.delivered());
    }
}

} // verus!
