//! The full-duplex relay between a client and a server.
//!
//! The relay is a state machine: the embedding program performs the reads,
//! writes and sleeps, and reports each outcome here. Besides the cursors the
//! machine keeps, as ghost state, every byte that was read from either peer
//! and every byte that was written to the other, so that its contracts can
//! say that the relay neither drops, adds nor reorders bytes.

use crate::error::Error;
use crate::proxy::conn::common::ConnectionBuffers;
use crate::proxy::conn::stream::{read_no_wait, spec_read_count, spec_write_no_wait, write_no_wait};
use crate::proxy::scap::common::{ScapEvent, ScapSender};
use std::time::Duration;
use vstd::prelude::*;
use vstd::slice::slice_subrange;

verus! {

/// The relay stops after this many idle iterations in a row are exceeded.
pub const MAX_IDLE_ITERATIONS: u64 = 32;

/// Milliseconds of sleep per idle iteration in a row.
pub const IDLE_SLEEP_STEP_MS: u64 = 10;

/// One of the two halves of the relay.
#[derive(Clone, Copy, Debug, PartialEq, Eq, Structural)]
pub enum Direction {
    /// From the client to the server.
    ClientToServer,
    /// From the server to the client.
    ServerToClient,
}

/// What a half of the relay does next.
#[derive(Clone, Copy, Debug, PartialEq, Eq, Structural)]
pub enum RelayStep {
    /// Nothing is pending: read from the source into the buffer.
    Read,
    /// Write the pending bytes to the sink.
    Write,
    /// All pending bytes were written: put the cursors back to 0.
    Rewind,
}

/// What the relay does between two iterations.
#[derive(Clone, Copy, Debug, PartialEq, Eq, Structural)]
pub enum Pause {
    /// Go on at once.
    Continue,
    /// Sleep this many milliseconds, then go on.
    Sleep(u64),
    /// The connection has been idle for too long: leave the relay.
    Stop,
}

/// State of the relay of one connection.
pub struct MitmStreamer {
    pub buffers: ConnectionBuffers,
    /// Count of bytes in the client buffer.
    pub creaded: usize,
    /// Count of bytes in the server buffer.
    pub sreaded: usize,
    /// Count of bytes of the client buffer already written to the client.
    pub cpos: usize,
    /// Count of bytes of the server buffer already written to the server.
    pub spos: usize,
    /// Count of idle iterations in a row.
    pub zero_counter: u64,
    /// Every byte read from the client so far.
    pub from_client: Ghost<Seq<u8>>,
    /// Every byte written to the server so far.
    pub to_server: Ghost<Seq<u8>>,
    /// Every byte read from the server so far.
    pub from_server: Ghost<Seq<u8>>,
    /// Every byte written to the client so far.
    pub to_client: Ghost<Seq<u8>>,
}

impl MitmStreamer {
    /// The buffer of a half.
    pub open spec fn buffer(&self, dir: Direction) -> Seq<u8> {
        match dir {
            Direction::ClientToServer => self.buffers.server_buffer@,
            Direction::ServerToClient => self.buffers.client_buffer@,
        }
    }

    /// Count of bytes in the buffer of a half.
    pub open spec fn count(&self, dir: Direction) -> usize {
        match dir {
            Direction::ClientToServer => self.sreaded,
            Direction::ServerToClient => self.creaded,
        }
    }

    /// Count of buffered bytes of a half that were written to its sink.
    pub open spec fn cursor(&self, dir: Direction) -> usize {
        match dir {
            Direction::ClientToServer => self.spos,
            Direction::ServerToClient => self.cpos,
        }
    }

    /// Every byte read from the source of a half so far.
    pub open spec fn bytes_read(&self, dir: Direction) -> Seq<u8> {
        match dir {
            Direction::ClientToServer => self.from_client@,
            Direction::ServerToClient => self.from_server@,
        }
    }

    /// Every byte written to the sink of a half so far.
    pub open spec fn bytes_written(&self, dir: Direction) -> Seq<u8> {
        match dir {
            Direction::ClientToServer => self.to_server@,
            Direction::ServerToClient => self.to_client@,
        }
    }

    /// The buffered bytes of a half that its sink has not taken yet.
    pub open spec fn spec_pending(&self, dir: Direction) -> Seq<u8> {
        self.buffer(dir).subrange(self.cursor(dir) as int, self.count(dir) as int)
    }

    /// A half is consistent: its cursors lie in the buffer, and what was
    /// written followed by what is pending is what was read.
    pub open spec fn half_wf(&self, dir: Direction) -> bool {
        &&& self.cursor(dir) <= self.count(dir) <= self.buffer(dir).len()
        &&& self.bytes_written(dir) + self.spec_pending(dir) == self.bytes_read(dir)
    }

    /// The relay is consistent.
    pub open spec fn wf(&self) -> bool {
        &&& self.half_wf(Direction::ClientToServer)
        &&& self.half_wf(Direction::ServerToClient)
        &&& self.zero_counter <= MAX_IDLE_ITERATIONS + 1
    }

    /// The relay has not stopped.
    pub open spec fn running(&self) -> bool {
        self.zero_counter <= MAX_IDLE_ITERATIONS
    }

    pub open spec fn spec_next_step(&self, dir: Direction) -> RelayStep {
        if self.count(dir) == 0 {
            RelayStep::Read
        } else if self.cursor(dir) < self.count(dir) {
            RelayStep::Write
        } else {
            RelayStep::Rewind
        }
    }

    /// The state that differs from `self` in one half only.
    pub open spec fn same_other_half(&self, after: &MitmStreamer, dir: Direction) -> bool {
        let other = match dir {
            Direction::ClientToServer => Direction::ServerToClient,
            Direction::ServerToClient => Direction::ClientToServer,
        };
        &&& after.buffers == self.buffers
        &&& after.count(other) == self.count(other)
        &&& after.cursor(other) == self.cursor(other)
        &&& after.bytes_read(other) == self.bytes_read(other)
        &&& after.bytes_written(other) == self.bytes_written(other)
        &&& after.zero_counter == self.zero_counter
    }

    /// A relay over `buffers` on which nothing has been read or written.
    pub fn new(buffers: ConnectionBuffers) -> (s: MitmStreamer)
        ensures
            s.wf(),
            s.buffers == buffers,
            s.creaded == 0 && s.sreaded == 0 && s.cpos == 0 && s.spos == 0,
            s.zero_counter == 0,
            s.from_client@.len() == 0 && s.to_server@.len() == 0,
            s.from_server@.len() == 0 && s.to_client@.len() == 0,
    {
        let s = MitmStreamer {
            buffers,
            creaded: 0,
            sreaded: 0,
            cpos: 0,
            spos: 0,
            zero_counter: 0,
            from_client: Ghost(Seq::empty()),
            to_server: Ghost(Seq::empty()),
            from_server: Ghost(Seq::empty()),
            to_client: Ghost(Seq::empty()),
        };
        assert(s.bytes_written(Direction::ClientToServer) + s.spec_pending(
            Direction::ClientToServer,
        ) =~= s.bytes_read(Direction::ClientToServer));
        assert(s.bytes_written(Direction::ServerToClient) + s.spec_pending(
            Direction::ServerToClient,
        ) =~= s.bytes_read(Direction::ServerToClient));
        s
    }

    /// The order in which the two halves take their step in an iteration:
    /// first the half from the client to the server, then the half from the
    /// server to the client.
    pub fn half_order() -> (order: (Direction, Direction))
        ensures
            order == (Direction::ClientToServer, Direction::ServerToClient),
    {
        (Direction::ClientToServer, Direction::ServerToClient)
    }

    /// Gives the buffers back for the next connection.
    pub fn into_buffers(self) -> (b: ConnectionBuffers)
        ensures
            b == self.buffers,
    {
        self.buffers
    }

    /// What the half `dir` does next.
    #[verifier::when_used_as_spec(spec_next_step)]
    pub fn next_step(&self, dir: Direction) -> (step: RelayStep)
        ensures
            step == self.spec_next_step(dir),
    {
        let (count, pos) = match dir {
            Direction::ClientToServer => (self.sreaded, self.spos),
            Direction::ServerToClient => (self.creaded, self.cpos),
        };
        if count == 0 {
            RelayStep::Read
        } else if pos < count {
            RelayStep::Write
        } else {
            RelayStep::Rewind
        }
    }

    /// The bytes that the half `dir` offers to its sink.
    pub fn pending(&self, dir: Direction) -> (bytes: &[u8])
        requires
            self.wf(),
        ensures
            bytes@ == self.spec_pending(dir),
    {
        match dir {
            Direction::ClientToServer => slice_subrange(
                self.buffers.server_buffer.as_slice(),
                self.spos,
                self.sreaded,
            ),
            Direction::ServerToClient => slice_subrange(
                self.buffers.client_buffer.as_slice(),
                self.cpos,
                self.creaded,
            ),
        }
    }

    /// Takes the outcome of the non-blocking read that the half `dir` made
    /// from its source into the start of its buffer.
    ///
    /// Bytes that were read become the pending bytes of the half and yield
    /// the capture event of a captured flow: the client's bytes go to the
    /// capture as sent, the server's as received. A source that would block
    /// leaves the half as it was. A source that reported zero bytes has
    /// closed, which is the error `WriteZero`; any other error stands.
    pub fn on_read(
        &mut self,
        dir: Direction,
        outcome: Result<usize, Error>,
        scap: &ScapSender,
        timestamp: Duration,
    ) -> (r: Result<Option<ScapEvent>, Error>)
        requires
            old(self).wf(),
            old(self).spec_next_step(dir) is Read,
            outcome matches Ok(n) ==> n <= old(self).buffer(dir).len(),
        ensures
            final(self).wf(),
            old(self).same_other_half(final(self), dir),
            final(self).cursor(dir) == 0,
            final(self).bytes_written(dir) == old(self).bytes_written(dir),
            match spec_read_count(outcome) {
                Some(n) => {
                    &&& r is Ok
                    &&& final(self).count(dir) == n
                    &&& final(self).bytes_read(dir) == old(self).bytes_read(dir) + old(self).buffer(dir).subrange(0, n as int)
                    &&& n == 0 ==> r->Ok_0 is None
                    &&& n > 0 ==> match r->Ok_0 {
                        Some(e) => Some(e@) == scap.write_event(
                            dir is ClientToServer,
                            timestamp,
                            old(self).buffer(dir).subrange(0, n as int),
                        ),
                        None => !scap.capture,
                    }
                },
                None => {
                    &&& r is Err
                    &&& final(self).count(dir) == 0
                    &&& final(self).bytes_read(dir) == old(self).bytes_read(dir)
                    &&& match outcome {
                        Ok(_) => r->Err_0.kind == crate::error::ErrorKind::WriteZero,
                        Err(o) => r->Err_0 == o,
                    }
                },
            },
    {
        match dir {
            Direction::ClientToServer => {
                let pcap = scap.from_client();
                let (n, event) = read_no_wait(
                    outcome,
                    self.buffers.server_buffer.as_slice(),
                    &pcap,
                    timestamp,
                )?;
                self.sreaded = n;
                proof {
                    let data = self.buffers.server_buffer@.subrange(0, n as int);
                    self.from_client@ = self.from_client@ + data;
                    assert(self.spec_pending(dir) =~= data);
                    assert(old(self).spec_pending(dir) =~= Seq::<u8>::empty());
                    assert(old(self).bytes_written(dir) =~= old(self).bytes_read(dir));
                }
                Ok(event)
            },
            Direction::ServerToClient => {
                let pcap = scap.from_server();
                let (n, event) = read_no_wait(
                    outcome,
                    self.buffers.client_buffer.as_slice(),
                    &pcap,
                    timestamp,
                )?;
                self.creaded = n;
                proof {
                    let data = self.buffers.client_buffer@.subrange(0, n as int);
                    self.from_server@ = self.from_server@ + data;
                    assert(self.spec_pending(dir) =~= data);
                    assert(old(self).spec_pending(dir) =~= Seq::<u8>::empty());
                    assert(old(self).bytes_written(dir) =~= old(self).bytes_read(dir));
                }
                Ok(event)
            },
        }
    }

    /// Takes the outcome of the non-blocking write of the pending bytes
    /// that the half `dir` made to its sink.
    ///
    /// The bytes that the sink took count as written. A sink that would
    /// block took none. Any other error stands and leaves the half as it
    /// was.
    pub fn on_write(&mut self, dir: Direction, outcome: Result<usize, Error>) -> (r: Result<
        (),
        Error,
    >)
        requires
            old(self).wf(),
            old(self).spec_next_step(dir) is Write,
            outcome matches Ok(n) ==> n <= old(self).spec_pending(dir).len(),
        ensures
            final(self).wf(),
            old(self).same_other_half(final(self), dir),
            final(self).count(dir) == old(self).count(dir),
            final(self).bytes_read(dir) == old(self).bytes_read(dir),
            match spec_write_no_wait(outcome) {
                Ok(n) => {
                    &&& r is Ok
                    &&& final(self).cursor(dir) == old(self).cursor(dir) + n
                    &&& final(self).bytes_written(dir) == old(self).bytes_written(dir) + old(self).spec_pending(dir).subrange(0, n as int)
                },
                Err(e) => {
                    &&& r == Err::<(), Error>(e)
                    &&& final(self).cursor(dir) == old(self).cursor(dir)
                    &&& final(self).bytes_written(dir) == old(self).bytes_written(dir)
                },
            },
    {
        let n = write_no_wait(outcome)?;
        let ghost taken = self.spec_pending(dir).subrange(0, n as int);
        let ghost before = self.spec_pending(dir);
        match dir {
            Direction::ClientToServer => {
                self.spos = self.spos + n;
                proof {
                    self.to_server@ = self.to_server@ + taken;
                }
            },
            Direction::ServerToClient => {
                self.cpos = self.cpos + n;
                proof {
                    self.to_client@ = self.to_client@ + taken;
                }
            },
        }
        proof {
            assert(before =~= taken + self.spec_pending(dir));
            assert(self.bytes_written(dir) + self.spec_pending(dir) =~= old(self).bytes_written(
                dir,
            ) + before);
        }
        Ok(())
    }

    /// Empties the buffer of the half `dir`, all of whose bytes were
    /// written.
    pub fn rewind(&mut self, dir: Direction)
        requires
            old(self).wf(),
            old(self).spec_next_step(dir) is Rewind,
        ensures
            final(self).wf(),
            old(self).same_other_half(final(self), dir),
            final(self).count(dir) == 0,
            final(self).cursor(dir) == 0,
            final(self).bytes_read(dir) == old(self).bytes_read(dir),
            final(self).bytes_written(dir) == old(self).bytes_written(dir),
            final(self).bytes_written(dir) == final(self).bytes_read(dir),
    {
        proof {
            assert(self.spec_pending(dir) =~= Seq::<u8>::empty());
            assert(self.bytes_written(dir) =~= self.bytes_read(dir));
        }
        match dir {
            Direction::ClientToServer => {
                self.sreaded = 0;
                self.spos = 0;
            },
            Direction::ServerToClient => {
                self.creaded = 0;
                self.cpos = 0;
            },
        }
        proof {
            assert(self.spec_pending(dir) =~= Seq::<u8>::empty());
            assert(self.bytes_written(dir) + self.spec_pending(dir) =~= self.bytes_read(dir));
        }
    }

    /// Whether neither half holds bytes.
    pub open spec fn idle(&self) -> bool {
        self.creaded == 0 && self.sreaded == 0
    }

    /// The idle count after an iteration.
    pub open spec fn spec_idle_after(&self) -> u64 {
        if self.idle() {
            (self.zero_counter + 1) as u64
        } else {
            0
        }
    }

    /// Closes an iteration in which each half took one step.
    ///
    /// An iteration after which neither half holds bytes is idle: it adds
    /// one to the idle count, any other puts the count back to 0. After an
    /// idle iteration the relay sleeps 10 ms times the idle count, and it
    /// stops once the count exceeds 32. A relay that stops has written to
    /// each peer exactly the bytes that it read from the other.
    pub fn end_iteration(&mut self) -> (pause: Pause)
        requires
            old(self).wf(),
            old(self).running(),
        ensures
            final(self).wf(),
            final(self).buffers == old(self).buffers,
            final(self).creaded == old(self).creaded && final(self).cpos == old(self).cpos,
            final(self).sreaded == old(self).sreaded && final(self).spos == old(self).spos,
            final(self).from_client == old(self).from_client,
            final(self).to_server == old(self).to_server,
            final(self).from_server == old(self).from_server,
            final(self).to_client == old(self).to_client,
            final(self).zero_counter == old(self).spec_idle_after(),
            pause == (if final(self).zero_counter == 0 {
                Pause::Continue
            } else if final(self).zero_counter > MAX_IDLE_ITERATIONS {
                Pause::Stop
            } else {
                Pause::Sleep((final(self).zero_counter * IDLE_SLEEP_STEP_MS) as u64)
            }),
            pause is Stop ==> final(self).to_server@ == final(self).from_client@ && final(self).to_client@ == final(self).from_server@,
    {
        if self.creaded == 0 && self.sreaded == 0 {
            self.zero_counter += 1;
        } else {
            self.zero_counter = 0;
        }
        proof {
            assert(self.half_wf(Direction::ClientToServer));
            assert(self.half_wf(Direction::ServerToClient));
            if self.creaded == 0 && self.sreaded == 0 {
                lemma_relay_byte_exact(*self);
            }
        }
        if self.zero_counter > 0 {
            if self.zero_counter > MAX_IDLE_ITERATIONS {
                return Pause::Stop;
            }
            return Pause::Sleep(self.zero_counter * IDLE_SLEEP_STEP_MS);
        }
        Pause::Continue
    }
}

/// The relay is byte-exact: what it wrote to a peer is always the start of
/// what it read from the other peer, and all of it once nothing is pending.
pub proof fn lemma_relay_byte_exact(s: MitmStreamer)
    requires
        s.wf(),
    ensures
        s.to_server@.is_prefix_of(s.from_client@),
        s.to_client@.is_prefix_of(s.from_server@),
        s.sreaded == s.spos ==> s.to_server@ == s.from_client@,
        s.creaded == s.cpos ==> s.to_client@ == s.from_server@,
{
    let c2s = Direction::ClientToServer;
    let s2c = Direction::ServerToClient;
    assert(s.half_wf(c2s));
    assert(s.half_wf(s2c));
    assert(s.bytes_written(c2s) + s.spec_pending(c2s) == s.from_client@);
    assert(s.bytes_written(s2c) + s.spec_pending(s2c) == s.from_server@);
    assert(s.to_server@ =~= s.from_client@.subrange(0, s.to_server@.len() as int));
    assert(s.to_client@ =~= s.from_server@.subrange(0, s.to_client@.len() as int));
    if s.sreaded == s.spos {
        assert(s.spec_pending(c2s) =~= Seq::<u8>::empty());
        assert(s.to_server@ =~= s.from_client@);
    }
    if s.creaded == s.cpos {
        assert(s.spec_pending(s2c) =~= Seq::<u8>::empty());
        assert(s.to_client@ =~= s.from_server@);
    }
}

} // verus!
