//! The application-facing facade: start and stop a session, submit
//! execution requests, drain the event stream, observe connection-state
//! transitions.
//!
//! At most one session is active per handle; a second start fails with
//! `AlreadyConnected` instead of silently replacing the live session.
//! Starting and stopping are split into a begin and a complete step: the
//! surrounding application dials or closes the sockets in between and
//! reports the outcome, so every decision stays here while every socket
//! stays outside.

use vstd::prelude::*;

use crate::codec;
use crate::codec::{Frame, WireMessage, WireMessageView};
use crate::descriptor::ChannelRole;
use crate::errors::Error;
use crate::heartbeat::{BeatState, Monitor};
use crate::json;
use crate::messages;
use crate::router;
use crate::router::Delivery;
use crate::session;
use crate::session::{ChannelOutcomes, ConnectionState, Session, SessionView};
use crate::text;
use crate::text::ascii_bytes;

verus! {

/// The identifier this facade gives its `k`-th request: the session
/// identifier, a dash, and the decimal of `k`. Distinct counters give
/// distinct identifiers, which keeps every pending identifier unique.
pub open spec fn spec_request_id(session_id: Seq<u8>, k: nat) -> Seq<u8> {
    session_id + seq![45u8] + text::spec_decimal(k)
}

/// The execute request this facade builds for its `k`-th request: a fresh
/// header for message type `execute_request`, empty parent header and
/// metadata, the rendered execute content, no buffers.
pub open spec fn spec_execute_message(
    session_id: Seq<u8>,
    k: nat,
    date: Seq<u8>,
    code: Seq<u8>,
    allow_stdin: bool,
) -> WireMessageView {
    WireMessageView {
        header: messages::spec_header(
            spec_request_id(session_id, k),
            ascii_bytes("jute"@),
            session_id,
            date,
            ascii_bytes("execute_request"@),
            ascii_bytes("5.3"@),
        ),
        parent_header: json::spec_empty_object(),
        metadata: json::spec_empty_object(),
        content: messages::spec_execute_content(code, allow_stdin),
        buffers: Seq::empty(),
    }
}

/// The mathematical model of a server handle.
#[verifier::ext_equal]
pub struct ServerView {
    /// Observable connection state.
    pub state: ConnectionState,
    /// The live session, present exactly while connected.
    pub session: Option<SessionView>,
    /// Counter behind the next request identifier.
    pub next_seq: u64,
    /// Threshold handed to each session's heartbeat monitor.
    pub heartbeat_threshold: u64,
    /// Unsolicited messages, in arrival order, awaiting subscribers.
    pub events: Seq<WireMessageView>,
    /// Every connection state taken so far, in order.
    pub state_log: Seq<ConnectionState>,
}

impl ServerView {
    /// A live session exists exactly while connected, is itself
    /// well-formed and connected, carries this handle's heartbeat
    /// threshold, and every identifier it has pending was minted by this
    /// handle's counter — which is what keeps fresh identifiers fresh.
    pub open spec fn wf(self) -> bool {
        &&& self.heartbeat_threshold >= 1
        &&& (self.state == ConnectionState::Connected <==> self.session is Some)
        &&& match self.session {
            Some(s) => {
                &&& s.wf()
                &&& s.state == ConnectionState::Connected
                &&& s.monitor.threshold == self.heartbeat_threshold
                &&& forall|p: Seq<u8>|
                    #[trigger] s.pending.contains(p) ==> exists|k: nat|
                        k < self.next_seq && p == spec_request_id(s.session_id, k)
            },
            None => true,
        }
    }
}

/// One application-facing handle over at most one kernel session.
pub struct Server {
    state: ConnectionState,
    session: Option<Session>,
    next_seq: u64,
    heartbeat_threshold: u64,
    events: Vec<WireMessage>,
    state_log: Vec<ConnectionState>,
}

impl View for Server {
    type V = ServerView;

    closed spec fn view(&self) -> ServerView {
        ServerView {
            state: self.state,
            session: match self.session {
                Some(s) => Some(s@),
                None => None,
            },
            next_seq: self.next_seq,
            heartbeat_threshold: self.heartbeat_threshold,
            events: self.events@.map_values(|m: WireMessage| m@),
            state_log: self.state_log@,
        }
    }
}

/// Prepending the same sequence to two sequences preserves and reflects
/// equality.
proof fn lemma_prepend_cancel(a: Seq<u8>, b: Seq<u8>, c: Seq<u8>)
    requires
        a + b == a + c,
    ensures
        b == c,
{
    assert((a + b).len() == a.len() + b.len());
    assert((a + c).len() == a.len() + c.len());
    assert(b.len() == c.len());
    assert forall|i: int| 0 <= i < b.len() implies b[i] == c[i] by {
        assert((a + b)[a.len() + i] == b[i]);
        assert((a + c)[a.len() + i] == c[i]);
    }
    assert(b =~= c);
}

/// The minted-identifier invariant carries to any later view whose
/// session keeps the same pending table and identifier and whose counter
/// has not moved.
proof fn lemma_pending_invariant_carries(pre: ServerView, post: ServerView)
    requires
        pre.wf(),
        pre.session is Some,
        post.session is Some,
        post.session->Some_0.pending == pre.session->Some_0.pending,
        post.session->Some_0.session_id == pre.session->Some_0.session_id,
        post.next_seq == pre.next_seq,
    ensures
        forall|p: Seq<u8>|
            #[trigger] post.session->Some_0.pending.contains(p) ==> exists|k: nat|
                k < post.next_seq && p == spec_request_id(post.session->Some_0.session_id, k),
{
    assert forall|p: Seq<u8>| #[trigger]
        post.session->Some_0.pending.contains(p) implies exists|k: nat|
        k < post.next_seq && p == spec_request_id(post.session->Some_0.session_id, k) by {
        assert(pre.session->Some_0.pending.contains(p));
        let k = choose|k: nat|
            k < pre.next_seq && p == spec_request_id(pre.session->Some_0.session_id, k);
        assert(k < post.next_seq && p == spec_request_id(post.session->Some_0.session_id, k));
    }
}

impl Server {
    /// The view's well-formedness, on the handle itself.
    pub open spec fn wf(&self) -> bool {
        self@.wf()
    }

    /// A fresh handle: disconnected, nothing pending, no events, and the
    /// initial state on the log.
    pub fn new(heartbeat_threshold: u64) -> (r: Server)
        requires
            heartbeat_threshold >= 1,
        ensures
            r.wf(),
            r@.state == ConnectionState::Disconnected,
            r@.session is None,
            r@.next_seq == 0,
            r@.heartbeat_threshold == heartbeat_threshold,
            r@.events == Seq::<WireMessageView>::empty(),
            r@.state_log == seq![ConnectionState::Disconnected],
    {
        let mut state_log: Vec<ConnectionState> = Vec::new();
        state_log.push(ConnectionState::Disconnected);
        let r = Server {
            state: ConnectionState::Disconnected,
            session: None,
            next_seq: 0,
            heartbeat_threshold,
            events: Vec::new(),
            state_log,
        };
        proof {
            assert(r@.events =~= Seq::<WireMessageView>::empty());
            assert(r@.state_log =~= seq![ConnectionState::Disconnected]);
        }
        r
    }

    /// The current observable connection state.
    pub fn connection_state(&self) -> (s: ConnectionState)
        ensures
            s == self@.state,
    {
        self.state
    }

    /// Every connection state taken so far, oldest first: the observable
    /// stream of state transitions.
    pub fn state_history(&self) -> (r: &Vec<ConnectionState>)
        ensures
            r@ == self@.state_log,
    {
        &self.state_log
    }

    /// Begins a connection attempt. Fails with `AlreadyConnected` — and
    /// changes nothing — unless the handle is disconnected; otherwise the
    /// handle turns Connecting while the application dials the channels.
    pub fn start_begin(&mut self) -> (r: Result<(), Error>)
        requires
            old(self).wf(),
        ensures
            final(self).wf(),
            if old(self)@.state == ConnectionState::Disconnected {
                &&& r is Ok
                &&& final(self)@ == (ServerView {
                    state: ConnectionState::Connecting,
                    state_log: old(self)@.state_log.push(ConnectionState::Connecting),
                    ..old(self)@
                })
            } else {
                &&& r == Err::<(), Error>(Error::AlreadyConnected)
                &&& final(self)@ == old(self)@
            },
    {
        if matches!(self.state, ConnectionState::Disconnected) {
            self.state = ConnectionState::Connecting;
            self.state_log.push(ConnectionState::Connecting);
            proof {
                assert(final(self)@ =~= (ServerView {
                    state: ConnectionState::Connecting,
                    state_log: old(self)@.state_log.push(ConnectionState::Connecting),
                    ..old(self)@
                }));
            }
            Ok(())
        } else {
            proof {
                assert(final(self)@ =~= old(self)@);
            }
            Err(Error::AlreadyConnected)
        }
    }

    /// Completes a connection attempt with the dialed channel outcomes.
    /// Succeeds exactly when every required channel came up, installing a
    /// fresh session that owns the signing key and session identifier; a
    /// failed attempt leaves no partial session and reports
    /// `KernelConnect`.
    pub fn start_complete(
        &mut self,
        key: &Vec<u8>,
        session_id: &Vec<u8>,
        outcomes: ChannelOutcomes,
    ) -> (r: Result<(), Error>)
        requires
            old(self).wf(),
            old(self)@.state == ConnectionState::Connecting,
        ensures
            final(self).wf(),
            if outcomes.spec_required_ok() {
                &&& r is Ok
                &&& final(self)@ == (ServerView {
                    state: ConnectionState::Connected,
                    session: Some(
                        SessionView {
                            state: ConnectionState::Connected,
                            key: key@,
                            session_id: session_id@,
                            pending: Seq::<Seq<u8>>::empty(),
                            monitor: Monitor {
                                misses: 0,
                                threshold: old(self)@.heartbeat_threshold,
                            },
                            stdin_available: outcomes.stdin,
                        },
                    ),
                    state_log: old(self)@.state_log.push(ConnectionState::Connected),
                    ..old(self)@
                })
            } else {
                &&& r == Err::<(), Error>(Error::KernelConnect)
                &&& final(self)@ == (ServerView {
                    state: ConnectionState::Disconnected,
                    state_log: old(self)@.state_log.push(ConnectionState::Disconnected),
                    ..old(self)@
                })
            },
    {
        match Session::open(key, session_id, self.heartbeat_threshold, outcomes) {
            Ok(sess) => {
                self.session = Some(sess);
                self.state = ConnectionState::Connected;
                self.state_log.push(ConnectionState::Connected);
                proof {
                    assert(final(self)@ =~= (ServerView {
                        state: ConnectionState::Connected,
                        session: Some(
                            SessionView {
                                state: ConnectionState::Connected,
                                key: key@,
                                session_id: session_id@,
                                pending: Seq::<Seq<u8>>::empty(),
                                monitor: Monitor {
                                    misses: 0,
                                    threshold: old(self)@.heartbeat_threshold,
                                },
                                stdin_available: outcomes.stdin,
                            },
                        ),
                        state_log: old(self)@.state_log.push(ConnectionState::Connected),
                        ..old(self)@
                    }));
                }
                Ok(())
            },
            Err(e) => {
                self.state = ConnectionState::Disconnected;
                self.state_log.push(ConnectionState::Disconnected);
                proof {
                    assert(final(self)@ =~= (ServerView {
                        state: ConnectionState::Disconnected,
                        state_log: old(self)@.state_log.push(ConnectionState::Disconnected),
                        ..old(self)@
                    }));
                }
                Err(e)
            },
        }
    }

    /// Builds, signs and registers the next execute request. Returns the
    /// fresh request identifier and the signed frame to put on the shell
    /// channel; fails with `KernelDisconnect` — touching nothing — when no
    /// session is live. The identifier is minted from this handle's
    /// counter, so it can never collide with one still pending.
    pub fn execute(&mut self, code: &Vec<u8>, date: &Vec<u8>, allow_stdin: bool) -> (r: Result<
        (Vec<u8>, Frame),
        Error,
    >)
        requires
            old(self).wf(),
            old(self)@.next_seq < u64::MAX,
        ensures
            final(self).wf(),
            match r {
                Ok((id, frame)) => {
                    &&& old(self)@.session is Some
                    &&& id@ == spec_request_id(
                        old(self)@.session->Some_0.session_id,
                        old(self)@.next_seq as nat,
                    )
                    &&& frame@ == codec::spec_encode(
                        spec_execute_message(
                            old(self)@.session->Some_0.session_id,
                            old(self)@.next_seq as nat,
                            date@,
                            code@,
                            allow_stdin,
                        ),
                        old(self)@.session->Some_0.key,
                    )
                    &&& final(self)@ == (ServerView {
                        session: Some(
                            SessionView {
                                pending: old(self)@.session->Some_0.pending.push(id@),
                                ..old(self)@.session->Some_0
                            },
                        ),
                        next_seq: (old(self)@.next_seq + 1) as u64,
                        ..old(self)@
                    })
                },
                Err(e) => {
                    &&& e == Error::KernelDisconnect
                    &&& old(self)@.session is None
                    &&& final(self)@ == old(self)@
                },
            },
    {
        let ghost pre = self@;
        match &mut self.session {
            None => {
                proof {
                    assert(final(self)@ =~= old(self)@);
                }
                Err(Error::KernelDisconnect)
            },
            Some(sess) => {
                let mut id = sess.session_id().clone();
                id.push(45);
                text::push_decimal(&mut id, self.next_seq);
                proof {
                    assert(id@ =~= spec_request_id(sess@.session_id, pre.next_seq as nat));
                    if sess@.pending.contains(id@) {
                        let k = choose|k: nat|
                            k < pre.next_seq && id@ == spec_request_id(sess@.session_id, k);
                        assert(spec_request_id(sess@.session_id, k) == spec_request_id(
                            sess@.session_id,
                            pre.next_seq as nat,
                        ));
                        lemma_prepend_cancel(
                            sess@.session_id + seq![45u8],
                            text::spec_decimal(k),
                            text::spec_decimal(pre.next_seq as nat),
                        );
                        text::lemma_decimal_injective(k, pre.next_seq as nat);
                        assert(false);
                    }
                }
                let accepted = sess.submit_request(&id);
                proof {
                    assert(accepted);
                }
                let username = messages::username_vec();
                let msg_type = messages::execute_request_type();
                let version = messages::protocol_version();
                let sid = sess.session_id().clone();
                let header = messages::render_header(&id, &username, &sid, date, &msg_type, &version);
                let content = messages::render_execute_content(code, allow_stdin);
                let m = messages::request_message(header, content);
                let frame = sess.encode_message(&m);
                self.next_seq = self.next_seq + 1;
                proof {
                    assert(frame@ == codec::spec_encode(
                        spec_execute_message(
                            pre.session->Some_0.session_id,
                            pre.next_seq as nat,
                            date@,
                            code@,
                            allow_stdin,
                        ),
                        pre.session->Some_0.key,
                    )) by {
                        assert(m@ =~~= spec_execute_message(
                            pre.session->Some_0.session_id,
                            pre.next_seq as nat,
                            date@,
                            code@,
                            allow_stdin,
                        ));
                    }
                    assert(final(self)@ =~= (ServerView {
                        session: Some(
                            SessionView {
                                pending: pre.session->Some_0.pending.push(id@),
                                ..pre.session->Some_0
                            },
                        ),
                        next_seq: (pre.next_seq + 1) as u64,
                        ..pre
                    }));
                    assert forall|p: Seq<u8>| #[trigger]
                        final(self)@.session->Some_0.pending.contains(p) implies exists|k: nat|
                        k < final(self)@.next_seq && p == spec_request_id(
                            final(self)@.session->Some_0.session_id,
                            k,
                        ) by {
                        let pend = pre.session->Some_0.pending;
                        if pend.contains(p) {
                            let k = choose|k: nat|
                                k < pre.next_seq && p == spec_request_id(
                                    pre.session->Some_0.session_id,
                                    k,
                                );
                            assert(k < final(self)@.next_seq && p == spec_request_id(
                                final(self)@.session->Some_0.session_id,
                                k,
                            ));
                        } else {
                            let i = choose|i: int|
                                0 <= i < pend.push(id@).len() && pend.push(id@)[i] == p;
                            assert(p == id@);
                            assert(pre.next_seq < final(self)@.next_seq && p == spec_request_id(
                                final(self)@.session->Some_0.session_id,
                                pre.next_seq as nat,
                            ));
                        }
                    }
                }
                Ok((id, frame))
            },
        }
    }

    /// Routes one received frame through the live session: decodes it,
    /// resolves the matching request or appends the message to the event
    /// stream in arrival order. A frame that fails to decode is reported
    /// and dropped without touching anything; with no live session the
    /// frame is refused as `KernelDisconnect`.
    pub fn deliver(&mut self, f: &Frame, channel: ChannelRole, parent: &Option<Vec<u8>>) -> (r: Result<
        (Delivery, WireMessage),
        Error,
    >)
        requires
            old(self).wf(),
        ensures
            final(self).wf(),
            match old(self)@.session {
                None => r == Err::<(Delivery, WireMessage), Error>(Error::KernelDisconnect)
                    && final(self)@ == old(self)@,
                Some(s) => match r {
                    Ok((d, m)) => {
                        &&& codec::spec_decode(f@, s.key) == Ok::<WireMessageView, Error>(m@)
                        &&& if session::spec_matches_on(channel) {
                            match parent {
                                Some(p) => {
                                    &&& d == (if s.pending.contains(p@) {
                                        Delivery::Resolved
                                    } else {
                                        Delivery::Unsolicited
                                    })
                                    &&& final(self)@.session == Some(
                                        SessionView {
                                            pending: router::spec_resolve(s.pending, p@),
                                            ..s
                                        },
                                    )
                                },
                                None => d == Delivery::Unsolicited && final(self)@.session
                                    == Some(s),
                            }
                        } else {
                            d == Delivery::Unsolicited && final(self)@.session == Some(s)
                        }
                        &&& final(self)@.events == (if d == Delivery::Unsolicited {
                            old(self)@.events.push(m@)
                        } else {
                            old(self)@.events
                        })
                        &&& final(self)@ == (ServerView {
                            session: final(self)@.session,
                            events: final(self)@.events,
                            ..old(self)@
                        })
                    },
                    Err(e) => {
                        &&& codec::spec_decode(f@, s.key) == Err::<WireMessageView, Error>(e)
                        &&& final(self)@ == old(self)@
                    },
                },
            },
    {
        let ghost pre = self@;
        match &mut self.session {
            None => {
                proof {
                    assert(final(self)@ =~= old(self)@);
                }
                Err(Error::KernelDisconnect)
            },
            Some(sess) => {
                let res = sess.deliver_frame(f, channel, parent);
                match res {
                    Err(e) => {
                        proof {
                            assert(final(self)@ =~= old(self)@);
                        }
                        Err(e)
                    },
                    Ok((d, m)) => {
                        if matches!(d, Delivery::Unsolicited) {
                            let copy = m.duplicate();
                            self.events.push(copy);
                        }
                        proof {
                            let s = pre.session->Some_0;
                            if d == Delivery::Unsolicited {
                                assert(final(self)@.events =~= pre.events.push(m@));
                            } else {
                                assert(final(self)@.events =~= pre.events);
                            }
                            let newpend = self@.session->Some_0.pending;
                            assert forall|q: Seq<u8>| #[trigger] newpend.contains(q) implies exists|
                                k: nat,
                            |
                                k < self@.next_seq && q == spec_request_id(
                                    self@.session->Some_0.session_id,
                                    k,
                                ) by {
                                if session::spec_matches_on(channel) {
                                    match parent {
                                        Some(p) => {
                                            router::lemma_resolve_contains(s.pending, p@, q);
                                            assert(s.pending.contains(q));
                                        },
                                        None => {
                                            assert(s.pending.contains(q));
                                        },
                                    }
                                } else {
                                    assert(s.pending.contains(q));
                                }
                                let k = choose|k: nat|
                                    k < pre.next_seq && q == spec_request_id(s.session_id, k);
                                assert(k < self@.next_seq && q == spec_request_id(
                                    self@.session->Some_0.session_id,
                                    k,
                                ));
                            }
                            assert(final(self)@ == (ServerView {
                                session: final(self)@.session,
                                events: final(self)@.events,
                                ..old(self)@
                            })) by {
                                assert(final(self)@ =~= (ServerView {
                                    session: final(self)@.session,
                                    events: final(self)@.events,
                                    ..old(self)@
                                }));
                            }
                        }
                        Ok((d, m))
                    },
                }
            },
        }
    }

    /// Cancels a pending request before any reply: its entry leaves the
    /// matching table, so its handle never resolves a second time and a
    /// late reply for it is routed as unsolicited.
    pub fn cancel(&mut self, id: &Vec<u8>) -> (was_pending: bool)
        requires
            old(self).wf(),
        ensures
            final(self).wf(),
            match old(self)@.session {
                None => was_pending == false && final(self)@ == old(self)@,
                Some(s) => {
                    &&& was_pending == s.pending.contains(id@)
                    &&& final(self)@ == (ServerView {
                        session: Some(
                            SessionView { pending: router::spec_resolve(s.pending, id@), ..s },
                        ),
                        ..old(self)@
                    })
                },
            },
    {
        let ghost pre = self@;
        match &mut self.session {
            None => {
                proof {
                    assert(final(self)@ =~= old(self)@);
                }
                false
            },
            Some(sess) => {
                let was_pending = sess.cancel_request(id);
                proof {
                    let s = pre.session->Some_0;
                    assert(self@.session->Some_0.pending == router::spec_resolve(s.pending, id@));
                    assert forall|q: Seq<u8>| #[trigger]
                        self@.session->Some_0.pending.contains(q) implies exists|k: nat|
                        k < self@.next_seq && q == spec_request_id(
                            self@.session->Some_0.session_id,
                            k,
                        ) by {
                        router::lemma_resolve_contains(s.pending, id@, q);
                        assert(s.pending.contains(q));
                        let k = choose|k: nat|
                            k < pre.next_seq && q == spec_request_id(s.session_id, k);
                        assert(k < self@.next_seq && q == spec_request_id(
                            self@.session->Some_0.session_id,
                            k,
                        ));
                    }
                    assert(final(self)@ =~= (ServerView {
                        session: Some(
                            SessionView { pending: router::spec_resolve(s.pending, id@), ..s },
                        ),
                        ..old(self)@
                    }));
                }
                was_pending
            },
        }
    }

    /// Hands over every queued unsolicited message, oldest first, and
    /// empties the queue: the pull side of the event stream.
    pub fn take_events(&mut self) -> (r: Vec<WireMessage>)
        requires
            old(self).wf(),
        ensures
            final(self).wf(),
            r@.map_values(|m: WireMessage| m@) == old(self)@.events,
            final(self)@ == (ServerView { events: Seq::<WireMessageView>::empty(), ..old(self)@ }),
    {
        let mut out: Vec<WireMessage> = Vec::new();
        while self.events.len() > 0
            invariant
                out@.map_values(|m: WireMessage| m@) + self@.events =~= old(self)@.events,
                self@ == (ServerView { events: self@.events, ..old(self)@ }),
            decreases self.events@.len(),
        {
            let m = self.events.remove(0);
            out.push(m);
            proof {
                assert(out@.map_values(|m2: WireMessage| m2@) + self@.events =~= old(
                    self,
                )@.events);
                assert(self@ =~= (ServerView { events: self@.events, ..old(self)@ }));
            }
        }
        proof {
            assert(out@.map_values(|m: WireMessage| m@) =~= old(self)@.events);
            assert(final(self)@ =~= (ServerView {
                events: Seq::<WireMessageView>::empty(),
                ..old(self)@
            }));
            if self@.session is Some {
                lemma_pending_invariant_carries(old(self)@, self@);
            }
        }
        out
    }

    /// Records a heartbeat echo that came back in time.
    pub fn on_heartbeat_echo(&mut self)
        requires
            old(self).wf(),
        ensures
            final(self).wf(),
            match old(self)@.session {
                None => final(self)@ == old(self)@,
                Some(s) => final(self)@ == (ServerView {
                    session: Some(SessionView { monitor: s.monitor.spec_echo(), ..s }),
                    ..old(self)@
                }),
            },
    {
        match &mut self.session {
            None => {
                proof {
                    assert(final(self)@ =~= old(self)@);
                }
            },
            Some(sess) => {
                sess.on_heartbeat_echo();
                proof {
                    assert(final(self)@ =~= (ServerView {
                        session: Some(
                            SessionView {
                                monitor: old(self)@.session->Some_0.monitor.spec_echo(),
                                ..old(self)@.session->Some_0
                            },
                        ),
                        ..old(self)@
                    }));
                    lemma_pending_invariant_carries(old(self)@, self@);
                }
            },
        }
    }

    /// Records a missed heartbeat echo. When the threshold of consecutive
    /// misses is reached the kernel is declared unreachable: the session
    /// is torn down, the handle turns Disconnected, and the identifiers of
    /// every outstanding request come back so each resolves with
    /// `KernelDisconnect`.
    pub fn on_heartbeat_miss(&mut self) -> (r: Option<Vec<Vec<u8>>>)
        requires
            old(self).wf(),
        ensures
            final(self).wf(),
            match old(self)@.session {
                None => r is None && final(self)@ == old(self)@,
                Some(s) => if s.monitor.spec_miss().state() == BeatState::Dead {
                    &&& r is Some
                    &&& r->Some_0@.map_values(|v: Vec<u8>| v@) == s.pending
                    &&& final(self)@ == (ServerView {
                        state: ConnectionState::Disconnected,
                        session: None,
                        state_log: old(self)@.state_log.push(ConnectionState::Disconnected),
                        ..old(self)@
                    })
                } else {
                    &&& r is None
                    &&& final(self)@ == (ServerView {
                        session: Some(SessionView { monitor: s.monitor.spec_miss(), ..s }),
                        ..old(self)@
                    })
                },
            },
    {
        let outcome = match &mut self.session {
            None => None,
            Some(sess) => sess.on_heartbeat_miss(),
        };
        match outcome {
            None => {
                proof {
                    if old(self)@.session is Some {
                        let s = old(self)@.session->Some_0;
                        assert(final(self)@ =~= (ServerView {
                            session: Some(SessionView { monitor: s.monitor.spec_miss(), ..s }),
                            ..old(self)@
                        }));
                        lemma_pending_invariant_carries(old(self)@, self@);
                    } else {
                        assert(final(self)@ =~= old(self)@);
                    }
                }
                None
            },
            Some(cancelled) => {
                self.session = None;
                self.state = ConnectionState::Disconnected;
                self.state_log.push(ConnectionState::Disconnected);
                proof {
                    assert(final(self)@ =~= (ServerView {
                        state: ConnectionState::Disconnected,
                        session: None,
                        state_log: old(self)@.state_log.push(ConnectionState::Disconnected),
                        ..old(self)@
                    }));
                }
                Some(cancelled)
            },
        }
    }

    /// Escalates a `ChannelClosed` on any required channel: the session is
    /// torn down at once, the handle turns Disconnected, and every
    /// outstanding request comes back so each resolves with
    /// `KernelDisconnect` — none is left dangling.
    pub fn on_channel_closed(&mut self) -> (cancelled: Vec<Vec<u8>>)
        requires
            old(self).wf(),
        ensures
            final(self).wf(),
            final(self)@.state == ConnectionState::Disconnected,
            final(self)@.session is None,
            match old(self)@.session {
                None => cancelled@.len() == 0 && (if old(self)@.state
                    == ConnectionState::Disconnected {
                    final(self)@ == old(self)@
                } else {
                    final(self)@ == (ServerView {
                        state: ConnectionState::Disconnected,
                        state_log: old(self)@.state_log.push(ConnectionState::Disconnected),
                        ..old(self)@
                    })
                }),
                Some(s) => {
                    &&& cancelled@.map_values(|v: Vec<u8>| v@) == s.pending
                    &&& final(self)@ == (ServerView {
                        state: ConnectionState::Disconnected,
                        session: None,
                        state_log: old(self)@.state_log.push(ConnectionState::Disconnected),
                        ..old(self)@
                    })
                },
            },
    {
        let cancelled = match &mut self.session {
            None => Vec::new(),
            Some(sess) => sess.close(),
        };
        self.session = None;
        if !matches!(self.state, ConnectionState::Disconnected) {
            self.state = ConnectionState::Disconnected;
            self.state_log.push(ConnectionState::Disconnected);
        }
        proof {
            match old(self)@.session {
                Some(s) => {
                    assert(cancelled@.map_values(|v: Vec<u8>| v@) == s.pending);
                    assert(final(self)@ =~= (ServerView {
                        state: ConnectionState::Disconnected,
                        session: None,
                        state_log: old(self)@.state_log.push(ConnectionState::Disconnected),
                        ..old(self)@
                    }));
                },
                None => {
                    assert(cancelled@.map_values(|v: Vec<u8>| v@) =~= Seq::<Seq<u8>>::empty());
                    if old(self)@.state == ConnectionState::Disconnected {
                        assert(final(self)@ =~= old(self)@);
                    } else {
                        assert(final(self)@ =~= (ServerView {
                            state: ConnectionState::Disconnected,
                            state_log: old(self)@.state_log.push(ConnectionState::Disconnected),
                            ..old(self)@
                        }));
                    }
                },
            }
        }
        cancelled
    }

    /// Begins a caller-initiated stop: tears the session down, returns the
    /// outstanding request identifiers so each resolves with
    /// `KernelDisconnect`, and turns Disconnecting while the application
    /// closes the transports. A stop of a disconnected handle changes
    /// nothing.
    pub fn stop_begin(&mut self) -> (cancelled: Vec<Vec<u8>>)
        requires
            old(self).wf(),
        ensures
            final(self).wf(),
            if old(self)@.state == ConnectionState::Disconnected {
                cancelled@.len() == 0 && final(self)@ == old(self)@
            } else {
                &&& final(self)@.state == ConnectionState::Disconnecting
                &&& final(self)@.session is None
                &&& cancelled@.map_values(|v: Vec<u8>| v@) == (match old(self)@.session {
                    Some(s) => s.pending,
                    None => Seq::<Seq<u8>>::empty(),
                })
                &&& final(self)@ == (ServerView {
                    state: ConnectionState::Disconnecting,
                    session: None,
                    state_log: old(self)@.state_log.push(ConnectionState::Disconnecting),
                    ..old(self)@
                })
            },
    {
        if matches!(self.state, ConnectionState::Disconnected) {
            proof {
                assert(final(self)@ =~= old(self)@);
            }
            return Vec::new();
        }
        let cancelled = match &mut self.session {
            None => Vec::new(),
            Some(sess) => sess.close(),
        };
        self.session = None;
        self.state = ConnectionState::Disconnecting;
        self.state_log.push(ConnectionState::Disconnecting);
        proof {
            match old(self)@.session {
                Some(s) => {},
                None => {
                    assert(cancelled@.map_values(|v: Vec<u8>| v@) =~= Seq::<Seq<u8>>::empty());
                },
            }
            assert(final(self)@ =~= (ServerView {
                state: ConnectionState::Disconnecting,
                session: None,
                state_log: old(self)@.state_log.push(ConnectionState::Disconnecting),
                ..old(self)@
            }));
        }
        cancelled
    }

    /// Completes a caller-initiated stop once every transport and task has
    /// acknowledged teardown: the handle reaches Disconnected exactly
    /// once.
    pub fn stop_complete(&mut self)
        requires
            old(self).wf(),
            old(self)@.state == ConnectionState::Disconnecting,
        ensures
            final(self).wf(),
            final(self)@ == (ServerView {
                state: ConnectionState::Disconnected,
                state_log: old(self)@.state_log.push(ConnectionState::Disconnected),
                ..old(self)@
            }),
    {
        self.state = ConnectionState::Disconnected;
        self.state_log.push(ConnectionState::Disconnected);
        proof {
            assert(final(self)@ =~= (ServerView {
                state: ConnectionState::Disconnected,
                state_log: old(self)@.state_log.push(ConnectionState::Disconnected),
                ..old(self)@
            }));
        }
    }
}

} // verus!
