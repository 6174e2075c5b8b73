use vstd::prelude::*;
use crate::conn::{
    Connection, ConnView, Interest, Phase, ReadOutcome, WriteOutcome, fresh, read_data, read_step,
    write_step,
};
use crate::http::{Method, Request, method_of, method_word, request_path};
use crate::registry::Registry;
use crate::route::{ConfigError, RouteTable, RouteView, has_path, resolved};
use vstd::string::StringSliceAdditionalSpecFns;

verus! {

/// The token of the listening socket.
pub const LISTENER: usize = 1;

/// The first token handed to a client connection.
pub const FIRST_CLIENT: usize = 2;

/// A readiness notification for one token.
#[derive(PartialEq, Eq, Structural, Debug, Clone, Copy)]
pub struct Event {
    pub token: usize,
    pub readable: bool,
    pub writable: bool,
    pub hup_or_error: bool,
}

/// What the reactor does for one notification.
#[derive(PartialEq, Eq, Structural, Debug, Clone, Copy)]
pub enum EventKind {
    /// Drop the connection without further I/O.
    Reset,
    /// Accept one pending connection on the listener.
    Accept,
    /// Make one read attempt on the client.
    Read,
    /// Make one write attempt on the client.
    Write,
    /// Nothing to do.
    Ignore,
}

pub open spec fn kind_of(ev: Event, listener: usize) -> EventKind {
    if ev.hup_or_error {
        EventKind::Reset
    } else if ev.readable && ev.token == listener {
        EventKind::Accept
    } else if ev.readable {
        EventKind::Read
    } else if ev.writable && ev.token != listener {
        EventKind::Write
    } else {
        EventKind::Ignore
    }
}

/// What became of a connection after a read attempt.
pub enum ReadStep<H> {
    /// No live connection has this token.
    Unknown,
    /// The connection was not waiting for a request; nothing changed.
    Ignored,
    /// Still waiting for the rest of the request: re-arm with this interest.
    Rearm(Interest),
    /// The request is complete: run `handler` on it and queue what it returns.
    Dispatch(Request, H),
    /// The read failed; the connection was removed.
    Closed,
}

/// What became of a connection after a write attempt.
#[derive(PartialEq, Eq, Structural, Debug, Clone, Copy)]
pub enum WriteStep {
    /// No live connection has this token.
    Unknown,
    /// The connection had no response to send; nothing changed.
    Ignored,
    /// Part of the response is left: re-arm with this interest.
    Rearm(Interest),
    /// The whole response went out; the connection was removed.
    Done,
    /// The write failed; the connection was removed.
    Closed,
}

/// The server's state: its routes and its live connections.
pub struct Server<H> {
    routes: RouteTable<H>,
    conns: Registry,
}

impl<H: Copy> Server<H> {
    pub closed spec fn wf(&self) -> bool {
        &&& self.conns.wf()
        &&& self.conns.first_token() == FIRST_CLIENT
    }

    /// The live connections, by token.
    pub closed spec fn live(&self) -> Map<usize, ConnView> {
        self.conns.live()
    }

    /// How many connections may be live at once.
    pub closed spec fn capacity(&self) -> usize {
        self.conns.max_live()
    }

    pub closed spec fn routes_view(&self) -> Seq<RouteView<H>> {
        self.routes.routes_view()
    }

    pub closed spec fn default_handler(&self) -> H {
        self.routes.default_handler()
    }

    /// Every client token is in use.
    pub open spec fn full(&self) -> bool {
        forall|t: usize|
            FIRST_CLIENT <= t < FIRST_CLIENT + self.capacity() ==> #[trigger] self.live().contains_key(
                t,
            )
    }

    /// A server with no routes, no connections, `default` for unmatched requests
    /// and room for `capacity` connections.
    pub fn new(default: H, capacity: usize) -> (r: Server<H>)
        requires
            capacity <= usize::MAX - FIRST_CLIENT,
        ensures
            r.wf(),
            r.capacity() == capacity,
            r.live() == Map::<usize, ConnView>::empty(),
            r.routes_view() == Seq::<RouteView<H>>::empty(),
            r.default_handler() == default,
    {
        Server { routes: RouteTable::new(default), conns: Registry::new(FIRST_CLIENT, capacity) }
    }

    /// Registers a route; fails with `DuplicateRoute`, changing nothing, where
    /// one for the same path exists.
    pub fn add_route(&mut self, path: &str, methods: Vec<Method>, handler: H) -> (r: Result<
        (),
        ConfigError,
    >)
        ensures
            r is Err == has_path(old(self).routes_view(), path.spec_bytes()),
            r is Err ==> r == Err::<(), ConfigError>(ConfigError::DuplicateRoute),
            r is Err ==> final(self).routes_view() == old(self).routes_view(),
            r is Ok ==> final(self).routes_view() == old(self).routes_view().push(
                RouteView { path: path.spec_bytes(), methods: methods@, handler },
            ),
            final(self).default_handler() == old(self).default_handler(),
            final(self).live() == old(self).live(),
            final(self).capacity() == old(self).capacity(),
            final(self).wf() == old(self).wf(),
    {
        self.routes.add_route(path, methods, handler)
    }

    /// Replaces the handler for requests that no route serves.
    pub fn set_default(&mut self, handler: H)
        ensures
            final(self).default_handler() == handler,
            final(self).routes_view() == old(self).routes_view(),
            final(self).live() == old(self).live(),
            final(self).capacity() == old(self).capacity(),
            final(self).wf() == old(self).wf(),
    {
        self.routes.set_default(handler)
    }

    /// The handler for a request with `method` for `path`.
    pub fn resolve(&self, method: Method, path: &[u8]) -> (r: H)
        ensures
            r == resolved(self.routes_view(), self.default_handler(), method, path@),
    {
        *self.routes.resolve(method, path)
    }

    /// Whether a live connection has token `token`.
    pub fn contains(&self, token: usize) -> (r: bool)
        requires
            self.wf(),
        ensures
            r == self.live().contains_key(token),
    {
        self.conns.contains(token)
    }

    /// The live connection with token `token`, if any.
    pub fn lookup(&self, token: usize) -> (r: Option<&Connection>)
        requires
            self.wf(),
        ensures
            r is Some == self.live().contains_key(token),
            r matches Some(c) ==> c@ == self.live()[token],
    {
        self.conns.lookup(token)
    }

    /// Decides what a notification asks for.
    pub fn classify(&self, ev: &Event) -> (r: EventKind)
        ensures
            r == kind_of(*ev, LISTENER),
    {
        if ev.hup_or_error {
            EventKind::Reset
        } else if ev.readable && ev.token == LISTENER {
            EventKind::Accept
        } else if ev.readable {
            EventKind::Read
        } else if ev.writable && ev.token != LISTENER {
            EventKind::Write
        } else {
            EventKind::Ignore
        }
    }

    /// Registers a newly accepted connection and returns its token; returns
    /// `None`, changing nothing, when every client token is in use, in which
    /// case the new socket is to be closed.
    pub fn accept(&mut self) -> (r: Option<usize>)
        requires
            old(self).wf(),
        ensures
            final(self).wf(),
            final(self).capacity() == old(self).capacity(),
            final(self).routes_view() == old(self).routes_view(),
            final(self).default_handler() == old(self).default_handler(),
            r is None == old(self).full(),
            r is None ==> final(self).live() == old(self).live(),
            r matches Some(t) ==> {
                &&& FIRST_CLIENT <= t < FIRST_CLIENT + old(self).capacity()
                &&& !old(self).live().contains_key(t)
                &&& final(self).live() == old(self).live().insert(t, fresh(t))
            },
    {
        assert(old(self).full() == old(self).conns.full()) by {
            if old(self).conns.full() {
                assert forall|t: usize|
                    FIRST_CLIENT <= t < FIRST_CLIENT + old(self).capacity() implies #[trigger] old(
                        self,
                    ).live().contains_key(t) by {
                    assert(old(self).conns.in_range(t));
                }
            }
            if old(self).full() {
                assert forall|t: usize| old(self).conns.in_range(t) implies #[trigger] old(
                    self,
                ).conns.live().contains_key(t) by {
                    assert(old(self).live().contains_key(t));
                }
            }
        }
        self.conns.insert()
    }

    /// Drops the connection with token `token`, if there is one.
    pub fn reset_connection(&mut self, token: usize) -> (r: bool)
        requires
            old(self).wf(),
        ensures
            final(self).wf(),
            final(self).capacity() == old(self).capacity(),
            final(self).routes_view() == old(self).routes_view(),
            final(self).default_handler() == old(self).default_handler(),
            final(self).live() == old(self).live().remove(token),
            r == old(self).live().contains_key(token),
    {
        self.conns.remove(token).is_some()
    }

    /// Drives the read transition of connection `token` with the result of one
    /// read attempt; once the request is complete, hands it out with the
    /// handler that serves it.
    pub fn readable(&mut self, token: usize, outcome: ReadOutcome) -> (r: ReadStep<H>)
        requires
            old(self).wf(),
        ensures
            final(self).wf(),
            final(self).capacity() == old(self).capacity(),
            final(self).routes_view() == old(self).routes_view(),
            final(self).default_handler() == old(self).default_handler(),
            !old(self).live().contains_key(token) ==> r is Unknown && final(self).live() == old(
                self,
            ).live(),
            old(self).live().contains_key(token) && old(self).live()[token].phase
                != Phase::AwaitingRead ==> r is Ignored && final(self).live() == old(self).live(),
            old(self).live().contains_key(token) && old(self).live()[token].phase
                == Phase::AwaitingRead ==> {
                let next = read_step(old(self).live()[token], read_data(outcome), outcome is Failed);
                &&& next.phase == Phase::Closing ==> r is Closed && final(self).live() == old(
                    self,
                ).live().remove(token)
                &&& next.phase != Phase::Closing ==> final(self).live() == old(self).live().insert(
                    token,
                    next,
                )
                &&& next.phase == Phase::AwaitingRead ==> r == ReadStep::<H>::Rearm(next.interest)
                &&& next.phase == Phase::Dispatching ==> (r matches ReadStep::Dispatch(req, h) && {
                    &&& req.raw@ == next.input
                    &&& req.method == method_of(method_word(next.input))
                    &&& req.path@ == request_path(next.input)
                    &&& h == resolved(
                        old(self).routes_view(),
                        old(self).default_handler(),
                        req.method,
                        req.path@,
                    )
                })
            },
    {
        let taken = self.conns.remove(token);
        let mut c = match taken {
            None => {
                return ReadStep::Unknown;
            },
            Some(c) => c,
        };
        if c.phase != Phase::AwaitingRead {
            self.conns.restore(c);
            assert(self.conns.live() =~= old(self).live());
            return ReadStep::Ignored;
        }
        let complete = c.readable(outcome);
        if c.phase == Phase::Closing {
            return ReadStep::Closed;
        }
        let interest = c.interest;
        if complete {
            let req = Request::from_bytes(c.i_buf.clone());
            let h = *self.routes.resolve(req.method, req.path.as_slice());
            self.conns.restore(c);
            ReadStep::Dispatch(req, h)
        } else {
            self.conns.restore(c);
            ReadStep::Rearm(interest)
        }
    }

    /// Queues the serialised response for the request of connection `token`.
    /// Returns whether the connection was waiting for one.
    pub fn respond(&mut self, token: usize, output: Vec<u8>) -> (r: bool)
        requires
            old(self).wf(),
        ensures
            final(self).wf(),
            final(self).capacity() == old(self).capacity(),
            final(self).routes_view() == old(self).routes_view(),
            final(self).default_handler() == old(self).default_handler(),
            r == (old(self).live().contains_key(token) && old(self).live()[token].phase
                == Phase::Dispatching),
            !r ==> final(self).live() == old(self).live(),
            r ==> final(self).live() == old(self).live().insert(
                token,
                ConnView {
                    phase: Phase::AwaitingWrite,
                    interest: Interest { readable: false, writable: true },
                    output: old(self).live()[token].output + output@,
                    ..old(self).live()[token]
                },
            ),
    {
        let taken = self.conns.remove(token);
        let mut c = match taken {
            None => {
                assert(self.conns.live() =~= old(self).live());
                return false;
            },
            Some(c) => c,
        };
        if c.phase != Phase::Dispatching {
            self.conns.restore(c);
            assert(self.conns.live() =~= old(self).live());
            return false;
        }
        c.respond(output);
        self.conns.restore(c);
        true
    }

    /// Drives the write transition of connection `token` with the result of one
    /// write attempt. A count larger than what was pending is a fault of the
    /// socket and closes the connection.
    pub fn writable(&mut self, token: usize, outcome: WriteOutcome) -> (r: WriteStep)
        requires
            old(self).wf(),
        ensures
            final(self).wf(),
            final(self).capacity() == old(self).capacity(),
            final(self).routes_view() == old(self).routes_view(),
            final(self).default_handler() == old(self).default_handler(),
            !old(self).live().contains_key(token) ==> r is Unknown && final(self).live() == old(
                self,
            ).live(),
            old(self).live().contains_key(token) && old(self).live()[token].phase
                != Phase::AwaitingWrite ==> r is Ignored && final(self).live() == old(self).live(),
            old(self).live().contains_key(token) && old(self).live()[token].phase
                == Phase::AwaitingWrite ==> {
                let c = old(self).live()[token];
                let next = write_step(c, outcome);
                &&& outcome is Failed ==> r is Closed && final(self).live() == old(
                    self,
                ).live().remove(token)
                &&& (outcome matches WriteOutcome::Wrote(n) ==> if n > c.output.len() {
                    r is Closed && final(self).live() == old(self).live().remove(token)
                } else if n == c.output.len() {
                    r is Done && final(self).live() == old(self).live().remove(token)
                } else {
                    r == WriteStep::Rearm(next.interest) && final(self).live() == old(
                        self,
                    ).live().insert(token, next)
                })
            },
    {
        let taken = self.conns.remove(token);
        let mut c = match taken {
            None => {
                return WriteStep::Unknown;
            },
            Some(c) => c,
        };
        if c.phase != Phase::AwaitingWrite {
            self.conns.restore(c);
            assert(self.conns.live() =~= old(self).live());
            return WriteStep::Ignored;
        }
        match outcome {
            WriteOutcome::Wrote(n) => {
                if n > c.o_buf.len() {
                    return WriteStep::Closed;
                }
            },
            WriteOutcome::Failed => {},
        }
        let done = c.writable(outcome);
        if done {
            WriteStep::Done
        } else if c.phase == Phase::Closing {
            WriteStep::Closed
        } else {
            let interest = c.interest;
            self.conns.restore(c);
            WriteStep::Rearm(interest)
        }
    }
}

} // verus!
