use vstd::prelude::*;

verus! {

/// Where a connection stands in its one-request life.
#[derive(PartialEq, Eq, Structural, Debug, Clone, Copy)]
pub enum Phase {
    AwaitingRead,
    Dispatching,
    AwaitingWrite,
    Closing,
}

/// The readiness events a connection asks to be told about next. Hang-up and
/// error are always reported.
#[derive(PartialEq, Eq, Structural, Debug, Clone, Copy)]
pub struct Interest {
    pub readable: bool,
    pub writable: bool,
}

/// What one non-blocking read attempt gave.
pub enum ReadOutcome {
    /// Nothing was available right now.
    WouldBlock,
    /// These bytes arrived.
    Data(Vec<u8>),
    /// The read failed, or the peer closed its end.
    Failed,
}

/// What one non-blocking write attempt gave.
#[derive(PartialEq, Eq, Structural, Debug, Clone, Copy)]
pub enum WriteOutcome {
    /// The socket took this many bytes from the front of the output buffer.
    Wrote(usize),
    /// The write failed.
    Failed,
}

/// The abstract state of a connection.
pub struct ConnView {
    pub token: usize,
    pub phase: Phase,
    pub interest: Interest,
    pub input: Seq<u8>,
    pub output: Seq<u8>,
}

/// The state of one client connection: the bytes received so far and the bytes
/// still to be sent.
pub struct Connection {
    pub token: usize,
    pub phase: Phase,
    pub interest: Interest,
    pub i_buf: Vec<u8>,
    pub o_buf: Vec<u8>,
}

/// The blank line that ends the head of a request.
pub open spec fn head_end_at(s: Seq<u8>, i: int) -> bool {
    0 <= i && i + 4 <= s.len() && s[i] == 13u8 && s[i + 1] == 10u8 && s[i + 2] == 13u8 && s[i + 3]
        == 10u8
}

/// A request is complete once the blank line after its head has arrived.
pub open spec fn request_complete(s: Seq<u8>) -> bool {
    exists|i: int| head_end_at(s, i)
}

/// The output buffer after the socket took `n` bytes from its front.
pub open spec fn after_write(buf: Seq<u8>, n: nat) -> Seq<u8> {
    buf.subrange(n as int, buf.len() as int)
}

pub open spec fn interest_read() -> Interest {
    Interest { readable: true, writable: false }
}

pub open spec fn interest_write() -> Interest {
    Interest { readable: false, writable: true }
}

pub open spec fn interest_none() -> Interest {
    Interest { readable: false, writable: false }
}

/// A fresh connection, waiting for its request.
pub open spec fn fresh(token: usize) -> ConnView {
    ConnView {
        token,
        phase: Phase::AwaitingRead,
        interest: interest_read(),
        input: Seq::empty(),
        output: Seq::empty(),
    }
}

/// The bytes a read attempt delivered, if it delivered any.
pub open spec fn read_data(o: ReadOutcome) -> Option<Seq<u8>> {
    match o {
        ReadOutcome::Data(d) => Some(d@),
        _ => None,
    }
}

/// The state after a read attempt with the given result.
pub open spec fn read_step(c: ConnView, data: Option<Seq<u8>>, failed: bool) -> ConnView {
    if failed {
        ConnView { phase: Phase::Closing, interest: interest_none(), ..c }
    } else {
        match data {
            None => ConnView { interest: interest_read(), ..c },
            Some(d) => {
                let input = c.input + d;
                if request_complete(input) {
                    ConnView { phase: Phase::Dispatching, interest: interest_write(), input, ..c }
                } else {
                    ConnView { interest: interest_read(), input, ..c }
                }
            },
        }
    }
}

/// The state after a write attempt with the given result.
pub open spec fn write_step(c: ConnView, w: WriteOutcome) -> ConnView {
    match w {
        WriteOutcome::Failed => ConnView { phase: Phase::Closing, interest: interest_none(), ..c },
        WriteOutcome::Wrote(n) => if n == c.output.len() {
            ConnView {
                phase: Phase::Closing,
                interest: interest_none(),
                output: Seq::empty(),
                ..c
            }
        } else {
            ConnView {
                interest: interest_write(),
                output: after_write(c.output, n as nat),
                ..c
            }
        },
    }
}

impl View for Connection {
    type V = ConnView;

    open spec fn view(&self) -> ConnView {
        ConnView {
            token: self.token,
            phase: self.phase,
            interest: self.interest,
            input: self.i_buf@,
            output: self.o_buf@,
        }
    }
}

/// Whether the blank line that ends a request head occurs in `s`.
pub fn has_head_end(s: &Vec<u8>) -> (r: bool)
    ensures
        r == request_complete(s@),
{
    let n: usize = s.len();
    if n < 4 {
        return false;
    }
    let mut i: usize = 0;
    while i <= n - 4
        invariant
            n == s@.len(),
            4 <= n,
            i <= n - 3,
            forall|j: int| 0 <= j < i ==> !head_end_at(s@, j),
        decreases n - i,
    {
        if s[i] == 13u8 && s[i + 1] == 10u8 && s[i + 2] == 13u8 && s[i + 3] == 10u8 {
            assert(head_end_at(s@, i as int));
            return true;
        }
        i = i + 1;
    }
    assert forall|j: int| !head_end_at(s@, j) by {
        if 0 <= j < i {
        }
    }
    false
}

impl Connection {
    /// A connection for `token` that waits for its request.
    pub fn new(token: usize) -> (r: Connection)
        ensures
            r@ == fresh(token),
    {
        Connection {
            token,
            phase: Phase::AwaitingRead,
            interest: Interest { readable: true, writable: false },
            i_buf: Vec::new(),
            o_buf: Vec::new(),
        }
    }

    /// The read transition. Returns whether a complete request is now buffered
    /// and waits for dispatch.
    pub fn readable(&mut self, outcome: ReadOutcome) -> (r: bool)
        requires
            old(self).phase == Phase::AwaitingRead,
        ensures
            final(self)@ == read_step(old(self)@, read_data(outcome), outcome is Failed),
            r == (final(self).phase == Phase::Dispatching),
    {
        match outcome {
            ReadOutcome::WouldBlock => {
                self.interest = Interest { readable: true, writable: false };
                false
            },
            ReadOutcome::Data(d) => {
                let mut d = d;
                self.i_buf.append(&mut d);
                if has_head_end(&self.i_buf) {
                    self.phase = Phase::Dispatching;
                    self.interest = Interest { readable: false, writable: true };
                    true
                } else {
                    self.interest = Interest { readable: true, writable: false };
                    false
                }
            },
            ReadOutcome::Failed => {
                self.phase = Phase::Closing;
                self.interest = Interest { readable: false, writable: false };
                false
            },
        }
    }

    /// Queues the serialised response of the buffered request.
    pub fn respond(&mut self, output: Vec<u8>)
        requires
            old(self).phase == Phase::Dispatching,
        ensures
            final(self)@ == (ConnView {
                phase: Phase::AwaitingWrite,
                interest: interest_write(),
                output: old(self)@.output + output@,
                ..old(self)@
            }),
    {
        let mut output = output;
        self.o_buf.append(&mut output);
        self.phase = Phase::AwaitingWrite;
        self.interest = Interest { readable: false, writable: true };
    }

    /// The write transition. Returns whether the whole response has gone out, so
    /// that the connection can be closed.
    pub fn writable(&mut self, outcome: WriteOutcome) -> (r: bool)
        requires
            old(self).phase == Phase::AwaitingWrite,
            outcome matches WriteOutcome::Wrote(n) ==> n <= old(self).o_buf@.len(),
        ensures
            final(self)@ == write_step(old(self)@, outcome),
            r == (outcome matches WriteOutcome::Wrote(n) && n == old(self).o_buf@.len()),
    {
        match outcome {
            WriteOutcome::Wrote(n) => {
                if n == self.o_buf.len() {
                    self.o_buf = Vec::new();
                    self.phase = Phase::Closing;
                    self.interest = Interest { readable: false, writable: false };
                    true
                } else {
                    let tail = self.o_buf.split_off(n);
                    self.o_buf = tail;
                    self.interest = Interest { readable: false, writable: true };
                    false
                }
            },
            WriteOutcome::Failed => {
                self.phase = Phase::Closing;
                self.interest = Interest { readable: false, writable: false };
                false
            },
        }
    }
}

/// A run of write attempts on `buf`, each taking at least one byte and no more
/// than is left.
pub open spec fn progressing_writes(buf: Seq<u8>, counts: Seq<nat>) -> bool
    decreases counts.len(),
{
    counts.len() == 0 || (1 <= counts[0] <= buf.len() && progressing_writes(
        after_write(buf, counts[0]),
        counts.drop_first(),
    ))
}

/// The bytes handed to the socket by a run of write attempts, in order.
pub open spec fn delivered(buf: Seq<u8>, counts: Seq<nat>) -> Seq<u8>
    decreases counts.len(),
{
    if counts.len() == 0 {
        Seq::empty()
    } else {
        buf.subrange(0, counts[0] as int) + delivered(after_write(buf, counts[0]), counts.drop_first())
    }
}

/// The output buffer left after a run of write attempts.
pub open spec fn remaining(buf: Seq<u8>, counts: Seq<nat>) -> Seq<u8>
    decreases counts.len(),
{
    if counts.len() == 0 {
        buf
    } else {
        remaining(after_write(buf, counts[0]), counts.drop_first())
    }
}

/// Partial writes converge: what was delivered followed by what is left is the
/// buffer it started from, and each attempt consumes at least one byte, so a buffer of
/// `N` bytes is gone after at most `N` attempts.
pub proof fn lemma_partial_writes_converge(buf: Seq<u8>, counts: Seq<nat>)
    requires
        progressing_writes(buf, counts),
    ensures
        delivered(buf, counts) + remaining(buf, counts) == buf,
        counts.len() + remaining(buf, counts).len() <= buf.len(),
        counts.len() == buf.len() ==> remaining(buf, counts).len() == 0,
    decreases counts.len(),
{
    if counts.len() > 0 {
        let rest = after_write(buf, counts[0]);
        lemma_partial_writes_converge(rest, counts.drop_first());
        assert(buf.subrange(0, counts[0] as int) + rest =~= buf);
        assert(delivered(buf, counts) + remaining(buf, counts) =~= buf.subrange(0, counts[0] as int)
            + (delivered(rest, counts.drop_first()) + remaining(rest, counts.drop_first())));
    }
}

} // verus!
