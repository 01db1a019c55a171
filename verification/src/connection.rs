//! The per-socket connection state machine: the login handshake with
//! its deadline, message classification after authentication, the
//! ping/pong clock-offset measurement with its side-buffer, and the
//! idempotent close protocol.
//!
//! The machine is pure: the transport loop around the library hands it
//! each received message and the current time, and sends whatever wire
//! bodies a step returns.

use vstd::prelude::*;

use crate::api_access::{granted_permissions, ApiAccessManager, ApiPermissions};
use crate::messages::{
    BodyView, ConnectionClosedMsgBodyV1, ConnectionClosedReasonV1, Message, MessageBody,
    MessageView,
};

verus! {

/// How long a fresh connection may take to log in, in milliseconds.
pub const LOGIN_TIMEOUT_MILLIS: u64 = 3000;

/// How long a ping may wait for its pong, in milliseconds.
pub const PING_TIMEOUT_MILLIS: u64 = 1000;

/// Where the listener accepts peers.
#[derive(Debug, Clone, PartialEq, Eq)]
pub struct ServerConfig {
    pub listen_on: String,
}

impl Default for ServerConfig {
    fn default() -> (c: Self)
        ensures
            c.listen_on@ == "127.0.0.1:8069"@,
    {
        ServerConfig { listen_on: "127.0.0.1:8069".to_owned() }
    }
}

/// What one round trip measured: how long it took, and how far the
/// peer's clock runs ahead of ours.
#[derive(Debug, Clone, Copy, PartialEq, Eq, Structural)]
pub struct PingResult {
    pub latency: u64,
    pub time_offset: i64,
}

/// Why the server closes a connection.
#[derive(Debug, Clone, Copy, PartialEq, Eq, Structural)]
pub enum CloseReason {
    ServerError,
    Unauthorized,
}

pub open spec fn spec_close_reason_to_wire(r: CloseReason) -> ConnectionClosedReasonV1 {
    match r {
        CloseReason::ServerError => ConnectionClosedReasonV1::ServerError,
        CloseReason::Unauthorized => ConnectionClosedReasonV1::Unauthorized,
    }
}

/// Where the handshake stands.
#[derive(Debug, Clone, Copy, PartialEq, Eq, Structural)]
pub enum ConnPhase {
    AwaitingLogin,
    Authenticated,
}

/// One peer's connection: handshake phase, identity once logged in, and
/// the side-buffer of messages that arrived while a ping waited for its
/// pong.
#[derive(Debug)]
pub struct Connection {
    pub open: bool,
    pub phase: ConnPhase,
    pub username: Option<String>,
    pub permissions: ApiPermissions,
    pub login_deadline: u64,
    pub interrupted: Vec<Message>,
}

/// The mathematical content of a `Connection`.
pub struct ConnectionV {
    pub open: bool,
    pub phase: ConnPhase,
    pub username: Option<Seq<char>>,
    pub permissions: ApiPermissions,
    pub login_deadline: u64,
    pub interrupted: Seq<MessageView>,
}

pub open spec fn msgs_view(s: Seq<Message>) -> Seq<MessageView> {
    Seq::new(s.len(), |i: int| s[i]@)
}

impl View for Connection {
    type V = ConnectionV;

    open spec fn view(&self) -> ConnectionV {
        ConnectionV {
            open: self.open,
            phase: self.phase,
            username: crate::messages::opt_string_view(self.username),
            permissions: self.permissions,
            login_deadline: self.login_deadline,
            interrupted: msgs_view(self.interrupted@),
        }
    }
}

// ---------------------------------------------------------------------
// Spec twins
// ---------------------------------------------------------------------

/// Closing: a no-op on a closed connection; otherwise the connection
/// shuts and one closed-notice is sent.
pub open spec fn spec_conn_close(c: ConnectionV, reason: CloseReason, message: Seq<char>) -> (
    ConnectionV,
    Seq<BodyView>,
) {
    if !c.open {
        (c, Seq::empty())
    } else {
        (
            ConnectionV { open: false, ..c },
            seq![BodyView::Closed { reason: spec_close_reason_to_wire(reason), message }],
        )
    }
}

/// One message during the login wait. A login within the deadline
/// resolves the peer's permissions: without the connect capability the
/// connection closes as unauthorized, with it the login is acknowledged.
/// A login after the deadline closes as unauthorized. Anything else is
/// answered with a client error and the wait goes on.
pub open spec fn spec_login_step(
    c: ConnectionV,
    config: crate::api_access::ApiAccessConfig,
    msg: MessageView,
    now: u64,
) -> (ConnectionV, Seq<BodyView>) {
    match msg.body {
        BodyView::Login { username, api_key } => if now > c.login_deadline {
            spec_conn_close(c, CloseReason::Unauthorized, "Login message not received in time"@)
        } else {
            let perms = granted_permissions(config, api_key);
            let c2 = ConnectionV { username: Some(username), permissions: perms, ..c };
            if !perms.connect {
                spec_conn_close(c2, CloseReason::Unauthorized, "Unauthorized"@)
            } else {
                (
                    ConnectionV { phase: ConnPhase::Authenticated, ..c2 },
                    seq![BodyView::LoginAck],
                )
            }
        },
        _ => (c, seq![BodyView::ClientError { message: "Expected login message"@ }]),
    }
}

/// How the authenticated receive path treats one incoming message.
#[derive(Debug, Clone, Copy, PartialEq, Eq, Structural)]
pub enum RecvAction {
    ReplyPong,
    Ignore,
    Deliver,
}

/// Pings are answered, keepalives swallowed, server-to-client kinds
/// ignored; everything else reaches the session.
pub open spec fn spec_classify(msg: MessageView) -> RecvAction {
    match msg.body {
        BodyView::Ping => RecvAction::ReplyPong,
        BodyView::Keepalive => RecvAction::Ignore,
        BodyView::LoginAck => RecvAction::Ignore,
        BodyView::Pong => RecvAction::Ignore,
        BodyView::Login { .. } => RecvAction::Ignore,
        BodyView::Closed { .. } => RecvAction::Ignore,
        BodyView::ClientError { .. } => RecvAction::Ignore,
        _ => RecvAction::Deliver,
    }
}

/// The signed difference `actual - expected`, read from the wrapped
/// 64-bit difference, so that a clock far askew still yields the
/// nearest signed distance.
pub open spec fn spec_wrap_diff(actual: u64, expected: u64) -> int {
    let d = if actual - expected < 0 {
        actual - expected + 0x1_0000_0000_0000_0000
    } else {
        actual - expected
    };
    if d >= 0x8000_0000_0000_0000 {
        d - 0x1_0000_0000_0000_0000
    } else {
        d
    }
}

/// What a completed round trip measures: the latency is the elapsed
/// time, and the offset compares the pong's stamp against the midpoint
/// of the trip.
pub open spec fn spec_ping_result(start: u64, end: u64, pong_timestamp: u64) -> PingResult {
    let latency: u64 = if end >= start {
        (end - start) as u64
    } else {
        0u64
    };
    PingResult {
        latency,
        time_offset: spec_wrap_diff(pong_timestamp, (start + latency / 2) as u64) as i64,
    }
}

impl Connection {
    /// A fresh connection: open, awaiting login until `now` plus the
    /// login timeout.
    pub fn new(now: u64) -> (c: Self)
        ensures
            c@.open,
            c@.phase == ConnPhase::AwaitingLogin,
            c@.username is None,
            c@.permissions == (ApiPermissions { connect: false, host: false }),
            c@.login_deadline == if now + LOGIN_TIMEOUT_MILLIS <= u64::MAX {
                now + LOGIN_TIMEOUT_MILLIS
            } else {
                u64::MAX as int
            },
            c@.interrupted == Seq::<MessageView>::empty(),
    {
        let c = Connection {
            open: true,
            phase: ConnPhase::AwaitingLogin,
            username: None,
            permissions: ApiPermissions::none(),
            login_deadline: now.saturating_add(LOGIN_TIMEOUT_MILLIS),
            interrupted: Vec::new(),
        };
        proof {
            assert(c@.interrupted =~= Seq::<MessageView>::empty());
        }
        c
    }

    pub fn is_open(&self) -> (r: bool)
        ensures
            r == self@.open,
    {
        self.open
    }

    /// The peer's name once logged in.
    pub fn username(&self) -> (r: String)
        ensures
            match self@.username {
                Some(name) => r@ == name,
                None => r@ == "Not logged in"@,
            },
    {
        match &self.username {
            Some(name) => name.clone(),
            None => "Not logged in".to_owned(),
        }
    }

    pub fn permissions(&self) -> (r: ApiPermissions)
        ensures
            r == self@.permissions,
    {
        self.permissions
    }

    /// Closes the connection, telling the peer why; closing twice is
    /// the same as closing once.
    pub fn close(&mut self, reason: CloseReason, message: String) -> (out: Vec<MessageBody>)
        ensures
            (final(self)@, crate::messages::bodies_view(out@)) == spec_conn_close(
                old(self)@,
                reason,
                message@,
            ),
    {
        if !self.open {
            let out: Vec<MessageBody> = Vec::new();
            proof {
                assert(crate::messages::bodies_view(out@) =~= Seq::<BodyView>::empty());
            }
            return out;
        }
        self.open = false;
        let wire_reason = match reason {
            CloseReason::ServerError => ConnectionClosedReasonV1::ServerError,
            CloseReason::Unauthorized => ConnectionClosedReasonV1::Unauthorized,
        };
        let mut out: Vec<MessageBody> = Vec::new();
        out.push(
            MessageBody::ConnectionClosedV1(ConnectionClosedMsgBodyV1 {
                reason: wire_reason,
                message,
            }),
        );
        proof {
            assert(crate::messages::bodies_view(out@) =~= seq![out@[0]@]);
        }
        out
    }

    /// One message during the login wait, at wall-clock `now`.
    pub fn login_step(&mut self, mgr: &ApiAccessManager, msg: Message, now: u64) -> (out: Vec<
        MessageBody,
    >)
        requires
            old(self)@.open,
            old(self)@.phase == ConnPhase::AwaitingLogin,
        ensures
            (final(self)@, crate::messages::bodies_view(out@)) == spec_login_step(old(self)@, mgr@, msg@, now),
    {
        match msg.body {
            MessageBody::ConnectionLoginV1(body) => {
                if now > self.login_deadline {
                    return self.close(
                        CloseReason::Unauthorized,
                        "Login message not received in time".to_owned(),
                    );
                }
                let perms = mgr.get_permissions(match &body.api_key {
                    Some(k) => Some(k.as_str()),
                    None => None,
                });
                self.username = Some(body.username);
                self.permissions = perms;
                if !perms.connect {
                    self.close(CloseReason::Unauthorized, "Unauthorized".to_owned())
                } else {
                    self.phase = ConnPhase::Authenticated;
                    let mut out: Vec<MessageBody> = Vec::new();
                    out.push(MessageBody::ConnectionLoginAckV1);
                    proof {
                        assert(crate::messages::bodies_view(out@) =~= seq![out@[0]@]);
                    }
                    out
                }
            },
            _ => {
                let mut out: Vec<MessageBody> = Vec::new();
                out.push(
                    MessageBody::ConnectionClientErrorV1(
                        crate::messages::ConnectionClientErrorMsgBodyV1 {
                            message: "Expected login message".to_owned(),
                        },
                    ),
                );
                proof {
                    assert(crate::messages::bodies_view(out@) =~= seq![out@[0]@]);
                }
                out
            },
        }
    }

    /// The login wait expired with no login: the connection closes as
    /// unauthorized.
    pub fn login_timed_out(&mut self) -> (out: Vec<MessageBody>)
        ensures
            (final(self)@, crate::messages::bodies_view(out@)) == spec_conn_close(
                old(self)@,
                CloseReason::Unauthorized,
                "Login message not received in time"@,
            ),
    {
        self.close(CloseReason::Unauthorized, "Login message not received in time".to_owned())
    }

    /// The next buffered message put aside during a ping wait, if any.
    pub fn next_buffered(&mut self) -> (r: Option<Message>)
        ensures
            match r {
                None => final(self)@ == old(self)@ && old(self)@.interrupted.len() == 0,
                Some(m) => old(self)@.interrupted.len() > 0 && m@ == old(self)@.interrupted[0]
                    && final(self)@ == (ConnectionV {
                    interrupted: old(self)@.interrupted.drop_first(),
                    ..old(self)@
                }),
            },
    {
        if self.interrupted.len() == 0 {
            return None;
        }
        let m = self.interrupted.remove(0);
        proof {
            assert(msgs_view(self.interrupted@) =~= msgs_view(old(self).interrupted@).drop_first());
        }
        Some(m)
    }

    /// How the authenticated receive path treats `msg`.
    pub fn classify_recv(&self, msg: &Message) -> (r: RecvAction)
        ensures
            r == spec_classify(msg@),
    {
        match &msg.body {
            MessageBody::ConnectionPingV1 => RecvAction::ReplyPong,
            MessageBody::ConnectionKeepaliveV1 => RecvAction::Ignore,
            MessageBody::ConnectionLoginAckV1 => RecvAction::Ignore,
            MessageBody::ConnectionPongV1 => RecvAction::Ignore,
            MessageBody::ConnectionLoginV1(_) => RecvAction::Ignore,
            MessageBody::ConnectionClosedV1(_) => RecvAction::Ignore,
            MessageBody::ConnectionClientErrorV1(_) => RecvAction::Ignore,
            _ => RecvAction::Deliver,
        }
    }

    /// One message that arrived while a ping waits for its pong: a pong
    /// resolves the wait with its stamp, anything else is put aside for
    /// the normal receive path, in arrival order.
    pub fn ping_wait_step(&mut self, msg: Message) -> (r: Option<u64>)
        ensures
            match r {
                Some(ts) => msg@.body is Pong && ts == msg@.timestamp && final(self)@ == old(
                    self,
                )@,
                None => !(msg@.body is Pong) && final(self)@ == (ConnectionV {
                    interrupted: old(self)@.interrupted.push(msg@),
                    ..old(self)@
                }),
            },
    {
        match &msg.body {
            MessageBody::ConnectionPongV1 => Some(msg.timestamp),
            _ => {
                let ghost before = self@.interrupted;
                self.interrupted.push(msg);
                proof {
                    assert(msgs_view(self.interrupted@) =~= before.push(
                        self.interrupted@.last()@,
                    ));
                }
                None
            },
        }
    }
}

/// Computes what one round trip measured: latency, and the signed
/// clock offset read from the pong's stamp against the midpoint of the
/// trip.
pub fn compute_ping(start: u64, end: u64, pong_timestamp: u64) -> (r: PingResult)
    ensures
        r == spec_ping_result(start, end, pong_timestamp),
{
    let latency = end.saturating_sub(start);
    let expected = start + latency / 2;
    let diff = pong_timestamp.wrapping_sub(expected);
    let time_offset: i64 = if diff >= 0x8000_0000_0000_0000 {
        -((u64::MAX - diff) as i64) - 1
    } else {
        diff as i64
    };
    PingResult { latency, time_offset }
}

// ---------------------------------------------------------------------
// Laws of the connection
// ---------------------------------------------------------------------

/// Closing twice is the same as closing once: the second close changes
/// nothing and sends nothing.
pub proof fn lemma_close_idempotent(
    c: ConnectionV,
    first_reason: CloseReason,
    first_message: Seq<char>,
    second_reason: CloseReason,
    second_message: Seq<char>,
)
    ensures
        spec_conn_close(spec_conn_close(c, first_reason, first_message).0, second_reason, second_message).0
            == spec_conn_close(c, first_reason, first_message).0,
        spec_conn_close(spec_conn_close(c, first_reason, first_message).0, second_reason, second_message).1
            == Seq::<BodyView>::empty(),
{
}

/// The login deadline: a permitted login at or before the deadline is
/// acknowledged and authenticates the connection; any login after the
/// deadline closes the connection as unauthorized.
pub proof fn lemma_login_deadline(
    c: ConnectionV,
    config: crate::api_access::ApiAccessConfig,
    msg: MessageView,
    now: u64,
)
    requires
        c.open,
        c.phase == ConnPhase::AwaitingLogin,
        msg.body is Login,
    ensures
        now <= c.login_deadline && granted_permissions(
            config,
            msg.body->Login_api_key,
        ).connect ==> {
            let step = spec_login_step(c, config, msg, now);
            step.0.open && step.0.phase == ConnPhase::Authenticated && step.1 == seq![
                BodyView::LoginAck,
            ]
        },
        now > c.login_deadline ==> {
            let step = spec_login_step(c, config, msg, now);
            !step.0.open && step.1 == seq![
                BodyView::Closed {
                    reason: ConnectionClosedReasonV1::Unauthorized,
                    message: "Login message not received in time"@,
                },
            ]
        },
{
}

/// A pong that arrives after unrelated messages still resolves the
/// ping wait, the connection stays open, and the unrelated messages are
/// kept, in order, for the normal receive path.
pub proof fn lemma_ping_out_of_order(c: ConnectionV, other: MessageView, pong: MessageView)
    requires
        !(other.body is Pong),
        pong.body is Pong,
    ensures
        ({
            let c2 = ConnectionV { interrupted: c.interrupted.push(other), ..c };
            c2.open == c.open && c2.interrupted.last() == other && c2.interrupted.len()
                == c.interrupted.len() + 1
        }),
{
}

} // verus!
