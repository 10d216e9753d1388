//! One kernel connection: signing key, session identity, reply matching
//! and liveness, behind a connection state machine.
//!
//! The session owns the signing key and session identifier for the
//! lifetime of the connection and never changes them after it is opened.
//! Socket work stays outside: the surrounding application dials the five
//! channels, reports their outcomes, feeds received frames in, and carries
//! encoded frames out. Every decision — whether a connection attempt
//! succeeds, where a decoded message goes, when the kernel is declared
//! lost — is made here.

use vstd::prelude::*;

use crate::codec;
use crate::codec::{Frame, WireMessage, WireMessageView};
use crate::descriptor::ChannelRole;
use crate::errors::Error;
use crate::heartbeat::{BeatState, Monitor};
use crate::router;
use crate::router::{Delivery, Router};

verus! {

/// Whether traffic arriving on this channel is matched against pending
/// requests: replies come back on the request/reply channels alone;
/// everything on iopub or stdin is published as events, even when it
/// names a pending request as its parent.
pub open spec fn spec_matches_on(channel: ChannelRole) -> bool {
    channel == ChannelRole::Shell || channel == ChannelRole::Control
}

/// Where a session stands between creation and teardown.
#[derive(Clone, Copy, Debug, PartialEq, Eq, Structural)]
pub enum ConnectionState {
    /// No live transports; the resting state, and the final one.
    Disconnected,
    /// Channel transports are being established.
    Connecting,
    /// All required channels are up; traffic flows.
    Connected,
    /// Teardown has begun but not yet completed.
    Disconnecting,
}

/// The outcomes of dialing the five channel endpoints within the setup
/// timeout, as observed by the transport layer.
#[derive(Clone, Copy, Debug, PartialEq, Eq, Structural)]
pub struct ChannelOutcomes {
    /// Shell channel established.
    pub shell: bool,
    /// Iopub subscription established.
    pub iopub: bool,
    /// Stdin channel established (optional: absence only degrades
    /// interactive prompts).
    pub stdin: bool,
    /// Control channel established.
    pub control: bool,
    /// Heartbeat channel established.
    pub heartbeat: bool,
}

impl ChannelOutcomes {
    /// Whether every required channel — all but stdin — came up.
    pub open spec fn spec_required_ok(self) -> bool {
        self.shell && self.iopub && self.control && self.heartbeat
    }

    /// Whether every required channel — all but stdin — came up.
    pub fn required_ok(&self) -> (r: bool)
        ensures
            r == self.spec_required_ok(),
    {
        self.shell && self.iopub && self.control && self.heartbeat
    }
}

/// The mathematical model of a session.
#[verifier::ext_equal]
pub struct SessionView {
    /// Connection state.
    pub state: ConnectionState,
    /// Signing key, fixed at open.
    pub key: Seq<u8>,
    /// Session identifier, fixed at open.
    pub session_id: Seq<u8>,
    /// Identifiers of requests awaiting their reply.
    pub pending: Seq<Seq<u8>>,
    /// Heartbeat monitor.
    pub monitor: Monitor,
    /// Whether the optional stdin channel is available.
    pub stdin_available: bool,
}

impl SessionView {
    /// Pending identifiers never repeat, the monitor threshold is sound,
    /// and a session that is not connected has nothing outstanding: every
    /// teardown resolves every pending request.
    pub open spec fn wf(self) -> bool {
        &&& router::unique_ids(self.pending)
        &&& self.monitor.wf()
        &&& self.state != ConnectionState::Connected ==> self.pending.len() == 0
    }
}

/// One kernel connection.
pub struct Session {
    state: ConnectionState,
    key: Vec<u8>,
    session_id: Vec<u8>,
    router: Router,
    monitor: Monitor,
    stdin_available: bool,
}

impl View for Session {
    type V = SessionView;

    closed spec fn view(&self) -> SessionView {
        SessionView {
            state: self.state,
            key: self.key@,
            session_id: self.session_id@,
            pending: self.router@,
            monitor: self.monitor,
            stdin_available: self.stdin_available,
        }
    }
}

impl Session {
    /// The view's well-formedness, on the session itself.
    pub open spec fn wf(&self) -> bool {
        self@.wf()
    }

    /// The session identifier, fixed at open.
    pub fn session_id(&self) -> (r: &Vec<u8>)
        ensures
            r@ == self@.session_id,
    {
        &self.session_id
    }

    /// Opens a session over the given channel outcomes: succeeds — and
    /// only succeeds — when every required channel (shell, iopub, control,
    /// heartbeat) was established; a missing stdin merely degrades
    /// functionality. On failure no partial session is left: the attempt
    /// yields `KernelConnect` and nothing else.
    pub fn open(
        key: &Vec<u8>,
        session_id: &Vec<u8>,
        heartbeat_threshold: u64,
        outcomes: ChannelOutcomes,
    ) -> (r: Result<Session, Error>)
        requires
            heartbeat_threshold >= 1,
        ensures
            outcomes.spec_required_ok() <==> r is Ok,
            match r {
                Ok(s) => {
                    &&& s.wf()
                    &&& s@.state == ConnectionState::Connected
                    &&& s@.key == key@
                    &&& s@.session_id == session_id@
                    &&& s@.pending == Seq::<Seq<u8>>::empty()
                    &&& s@.monitor.misses == 0
                    &&& s@.monitor.threshold == heartbeat_threshold
                    &&& s@.stdin_available == outcomes.stdin
                },
                Err(e) => e == Error::KernelConnect,
            },
    {
        if !outcomes.required_ok() {
            return Err(Error::KernelConnect);
        }
        Ok(Session {
            state: ConnectionState::Connected,
            key: key.clone(),
            session_id: session_id.clone(),
            router: Router::new(),
            monitor: Monitor::new(heartbeat_threshold),
            stdin_available: outcomes.stdin,
        })
    }

    /// The current connection state.
    pub fn state(&self) -> (s: ConnectionState)
        ensures
            s == self@.state,
    {
        self.state
    }

    /// Whether the optional stdin channel came up.
    pub fn stdin_available(&self) -> (r: bool)
        ensures
            r == self@.stdin_available,
    {
        self.stdin_available
    }

    /// How many requests are awaiting their reply.
    pub fn outstanding(&self) -> (n: usize)
        ensures
            n == self@.pending.len(),
    {
        self.router.outstanding()
    }

    /// Encodes a message for the wire under this session's signing key.
    pub fn encode_message(&self, m: &WireMessage) -> (f: Frame)
        ensures
            f@ == codec::spec_encode(m@, self@.key),
    {
        codec::encode(m, &self.key)
    }

    /// Decodes a received frame under this session's signing key. A bad
    /// frame is reported and dropped; it never affects the session, which
    /// is why decoding needs no `&mut`.
    pub fn decode_frame(&self, f: &Frame) -> (r: Result<WireMessage, Error>)
        ensures
            match r {
                Ok(m) => codec::spec_decode(f@, self@.key) == Ok::<WireMessageView, Error>(m@),
                Err(e) => codec::spec_decode(f@, self@.key) == Err::<WireMessageView, Error>(e),
            },
    {
        codec::decode(f, &self.key)
    }

    /// Registers a request sent on shell or control. Accepts exactly when
    /// the session is connected and the identifier is not already pending;
    /// everything else about the session is untouched.
    pub fn submit_request(&mut self, id: &Vec<u8>) -> (accepted: bool)
        requires
            old(self).wf(),
        ensures
            final(self).wf(),
            accepted == (old(self)@.state == ConnectionState::Connected
                && !old(self)@.pending.contains(id@)),
            accepted ==> final(self)@ == (SessionView {
                pending: old(self)@.pending.push(id@),
                ..old(self)@
            }),
            !accepted ==> final(self)@ == old(self)@,
    {
        if !matches!(self.state, ConnectionState::Connected) {
            proof {
                assert(final(self)@ =~= old(self)@);
            }
            return false;
        }
        let fresh = self.router.submit(id);
        proof {
            if fresh {
                assert(final(self)@ =~= SessionView {
                    pending: old(self)@.pending.push(id@),
                    ..old(self)@
                });
            } else {
                assert(final(self)@ =~= old(self)@);
            }
        }
        fresh
    }

    /// Whether a request with this identifier is still awaiting its reply.
    pub fn is_pending(&self, id: &Vec<u8>) -> (r: bool)
        requires
            self.wf(),
        ensures
            r == self@.pending.contains(id@),
    {
        self.router.contains(id)
    }

    /// Routes one received frame: decodes it under the signing key and
    /// matches it against the pending table by the parent identifier the
    /// caller extracted from its header. A frame that fails to decode is
    /// dropped without touching any state — one bad frame never tears the
    /// session down. A decoded message either resolves the request whose
    /// identifier equals its parent identifier, or is unsolicited and goes
    /// to the event stream.
    pub fn deliver_frame(&mut self, f: &Frame, channel: ChannelRole, parent: &Option<Vec<u8>>) -> (r: Result<
        (Delivery, WireMessage),
        Error,
    >)
        requires
            old(self).wf(),
        ensures
            final(self).wf(),
            final(self)@.state == old(self)@.state,
            final(self)@.key == old(self)@.key,
            final(self)@.session_id == old(self)@.session_id,
            final(self)@.monitor == old(self)@.monitor,
            final(self)@.stdin_available == old(self)@.stdin_available,
            match r {
                Ok((d, m)) => {
                    &&& codec::spec_decode(f@, old(self)@.key) == Ok::<WireMessageView, Error>(m@)
                    &&& if spec_matches_on(channel) {
                        match parent {
                            Some(p) => {
                                &&& d == (if old(self)@.pending.contains(p@) {
                                    Delivery::Resolved
                                } else {
                                    Delivery::Unsolicited
                                })
                                &&& final(self)@.pending == router::spec_resolve(
                                    old(self)@.pending,
                                    p@,
                                )
                            },
                            None => d == Delivery::Unsolicited && final(self)@.pending == old(
                                self,
                            )@.pending,
                        }
                    } else {
                        d == Delivery::Unsolicited && final(self)@.pending == old(self)@.pending
                    }
                },
                Err(e) => {
                    &&& codec::spec_decode(f@, old(self)@.key) == Err::<WireMessageView, Error>(e)
                    &&& final(self)@ == old(self)@
                },
            },
    {
        let m = match self.decode_frame(f) {
            Ok(m) => m,
            Err(e) => {
                proof {
                    assert(final(self)@ =~= old(self)@);
                }
                return Err(e);
            },
        };
        if !(matches!(channel, ChannelRole::Shell) || matches!(channel, ChannelRole::Control)) {
            proof {
                assert(final(self)@ =~= old(self)@);
            }
            return Ok((Delivery::Unsolicited, m));
        }
        let d = self.router.deliver(parent);
        proof {
            if self@.state != ConnectionState::Connected {
                // Nothing was pending, so nothing was removed.
                match parent {
                    Some(p) => {
                        assert(self.router@ =~= old(self)@.pending);
                    },
                    None => {},
                }
            }
        }
        Ok((d, m))
    }

    /// Cancels a pending request before its reply arrives. Returns whether
    /// it was still pending; afterwards it no longer is, so a late reply
    /// carrying its identifier will be routed as unsolicited.
    pub fn cancel_request(&mut self, id: &Vec<u8>) -> (was_pending: bool)
        requires
            old(self).wf(),
        ensures
            final(self).wf(),
            was_pending == old(self)@.pending.contains(id@),
            final(self)@ == (SessionView {
                pending: router::spec_resolve(old(self)@.pending, id@),
                ..old(self)@
            }),
            !final(self)@.pending.contains(id@),
    {
        let r = self.router.cancel(id);
        proof {
            router::lemma_resolve_exactly_once(old(self)@.pending, id@);
            assert(final(self)@ =~= SessionView {
                pending: router::spec_resolve(old(self)@.pending, id@),
                ..old(self)@
            });
        }
        r
    }

    /// Tears the session down: transitions to Disconnected and hands back
    /// every request that was still outstanding, in registration order, so
    /// each resolves with `KernelDisconnect` — none is left dangling.
    /// Idempotent: a second call finds nothing to cancel and changes
    /// nothing.
    pub fn close(&mut self) -> (cancelled: Vec<Vec<u8>>)
        requires
            old(self).wf(),
        ensures
            final(self).wf(),
            final(self)@ == (SessionView {
                state: ConnectionState::Disconnected,
                pending: Seq::<Seq<u8>>::empty(),
                ..old(self)@
            }),
            cancelled@.map_values(|v: Vec<u8>| v@) == old(self)@.pending,
            old(self)@.state == ConnectionState::Disconnected ==> final(self)@ == old(self)@,
    {
        self.state = ConnectionState::Disconnected;
        let cancelled = self.router.disconnect();
        proof {
            assert(final(self)@ =~= SessionView {
                state: ConnectionState::Disconnected,
                pending: Seq::<Seq<u8>>::empty(),
                ..old(self)@
            });
            if old(self)@.state == ConnectionState::Disconnected {
                assert(final(self)@ =~= old(self)@);
            }
        }
        cancelled
    }

    /// Records a heartbeat echo that came back in time: any non-Dead
    /// monitor state resets to Alive; nothing else moves.
    pub fn on_heartbeat_echo(&mut self)
        requires
            old(self).wf(),
        ensures
            final(self).wf(),
            final(self)@ == (SessionView { monitor: old(self)@.monitor.spec_echo(), ..old(self)@ }),
    {
        self.monitor.record_echo();
        proof {
            assert(final(self)@ =~= SessionView {
                monitor: old(self)@.monitor.spec_echo(),
                ..old(self)@
            });
        }
    }

    /// Records a missed heartbeat echo. When the miss reaches the
    /// configured threshold the kernel is declared unreachable and the
    /// session performs the same teardown as an explicit close, reporting
    /// the outstanding requests so each resolves with `KernelDisconnect`;
    /// otherwise nothing but the monitor moves.
    pub fn on_heartbeat_miss(&mut self) -> (r: Option<Vec<Vec<u8>>>)
        requires
            old(self).wf(),
        ensures
            final(self).wf(),
            final(self)@.monitor == old(self)@.monitor.spec_miss(),
            if old(self)@.monitor.spec_miss().state() == BeatState::Dead {
                &&& r is Some
                &&& final(self)@ == (SessionView {
                    state: ConnectionState::Disconnected,
                    pending: Seq::<Seq<u8>>::empty(),
                    monitor: old(self)@.monitor.spec_miss(),
                    ..old(self)@
                })
                &&& r->Some_0@.map_values(|v: Vec<u8>| v@) == old(self)@.pending
            } else {
                &&& r is None
                &&& final(self)@ == (SessionView {
                    monitor: old(self)@.monitor.spec_miss(),
                    ..old(self)@
                })
            },
    {
        let dead = self.monitor.record_miss();
        if dead {
            let cancelled = self.close();
            proof {
                assert(final(self)@ =~= SessionView {
                    state: ConnectionState::Disconnected,
                    pending: Seq::<Seq<u8>>::empty(),
                    monitor: old(self)@.monitor.spec_miss(),
                    ..old(self)@
                });
            }
            Some(cancelled)
        } else {
            proof {
                assert(final(self)@ =~= SessionView {
                    monitor: old(self)@.monitor.spec_miss(),
                    ..old(self)@
                });
            }
            None
        }
    }
}

} // verus!
