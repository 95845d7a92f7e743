//! The SoupBinTCP client's session logic: login framing and the login reply
//! decision, the heartbeat and server-timeout clock, and the close-error
//! slot. The sockets and threads around it stay outside the library; time
//! reaches it as plain millisecond counters.
use crate::soupbintcp::types::{
    spec_blank_session, spec_frame, spec_seq_num_bytes, LoginReject, Packet, PacketParseError,
    PacketType, Password, SequenceNumber, SessionId, Username,
};
use vstd::prelude::*;

verus! {

/// How long the server may stay silent before the client closes.
pub const DEFAULT_SERVER_TIMEOUT_MS: u64 = 15_000;

/// How much send-side silence makes the client emit a heartbeat.
pub const CLIENT_HEARTBEAT_MS: u64 = 1_000;

/// Why a client connection failed or closed.
#[derive(Clone, Debug, PartialEq, Eq)]
pub enum ClientError {
    /// The client logged out; normal termination.
    LoggedOut,
    /// No frame arrived within the server timeout.
    ServerTimedOut,
    /// The server rejected the login with the given reason.
    LoginRejected(LoginReject),
    /// A frame of an unexpected type arrived where a login reply was owed.
    UnexpectedPacket(Packet),
    /// A frame failed to parse.
    PacketParse(PacketParseError),
    /// The transport failed.
    Io,
}

/// What the client should put on the wire and expect back; the connection
/// settings of one session attempt.
#[derive(Clone, Debug)]
pub struct ClientOptions {
    pub session: SessionId,
    pub sequence_number: SequenceNumber,
    pub username: Username,
    pub password: Password,
    pub server_timeout_ms: u64,
    /// An overall connect deadline in milliseconds from the attempt's start,
    /// for the caller's clock to enforce.
    pub deadline_ms: Option<u64>,
}

impl ClientOptions {
    pub open spec fn wf(self) -> bool {
        &&& self.session.wf()
        &&& self.sequence_number.wf()
        &&& self.username.wf()
        &&& self.password.wf()
    }

    /// Blank credentials, the blank session, sequence number zero, and the
    /// default server timeout.
    pub fn new() -> (r: ClientOptions)
        ensures
            r.session@ == spec_blank_session(),
            r.sequence_number@ == spec_seq_num_bytes(0),
            r.server_timeout_ms == DEFAULT_SERVER_TIMEOUT_MS,
            r.deadline_ms is None,
            r.wf(),
    {
        ClientOptions {
            session: SessionId::blank(),
            sequence_number: SequenceNumber::zero(),
            username: Username::blank(),
            password: Password::blank(),
            server_timeout_ms: DEFAULT_SERVER_TIMEOUT_MS,
            deadline_ms: None,
        }
    }

    pub fn with_session(self, session: SessionId) -> (r: ClientOptions)
        ensures
            r.session == session,
            r.sequence_number == self.sequence_number,
            r.username == self.username,
            r.password == self.password,
            r.server_timeout_ms == self.server_timeout_ms,
    {
        ClientOptions { session, ..self }
    }

    pub fn with_sequence_number(self, seq_num: SequenceNumber) -> (r: ClientOptions)
        ensures
            r.sequence_number == seq_num,
            r.session == self.session,
            r.username == self.username,
            r.password == self.password,
            r.server_timeout_ms == self.server_timeout_ms,
    {
        ClientOptions { sequence_number: seq_num, ..self }
    }

    pub fn with_username(self, username: Username) -> (r: ClientOptions)
        ensures
            r.username == username,
            r.session == self.session,
            r.sequence_number == self.sequence_number,
            r.password == self.password,
            r.server_timeout_ms == self.server_timeout_ms,
    {
        ClientOptions { username, ..self }
    }

    pub fn with_password(self, password: Password) -> (r: ClientOptions)
        ensures
            r.password == password,
            r.session == self.session,
            r.sequence_number == self.sequence_number,
            r.username == self.username,
            r.server_timeout_ms == self.server_timeout_ms,
    {
        ClientOptions { password, ..self }
    }

    pub fn with_server_timeout(self, timeout_ms: u64) -> (r: ClientOptions)
        ensures
            r.server_timeout_ms == timeout_ms,
            r.session == self.session,
            r.sequence_number == self.sequence_number,
            r.username == self.username,
            r.password == self.password,
    {
        ClientOptions { server_timeout_ms: timeout_ms, ..self }
    }

    pub fn with_deadline(self, deadline_ms: Option<u64>) -> (r: ClientOptions)
        ensures
            r.deadline_ms == deadline_ms,
            r.session == self.session,
            r.sequence_number == self.sequence_number,
            r.username == self.username,
            r.password == self.password,
            r.server_timeout_ms == self.server_timeout_ms,
    {
        ClientOptions { deadline_ms, ..self }
    }

    pub fn deadline(&self) -> (r: Option<u64>)
        ensures
            r == self.deadline_ms,
    {
        self.deadline_ms
    }

    pub fn session(&self) -> (r: &SessionId)
        ensures
            r == self.session,
    {
        &self.session
    }

    pub fn sequence_number(&self) -> (r: &SequenceNumber)
        ensures
            r == self.sequence_number,
    {
        &self.sequence_number
    }

    pub fn username(&self) -> (r: &Username)
        ensures
            r == self.username,
    {
        &self.username
    }

    pub fn password(&self) -> (r: &Password)
        ensures
            r == self.password,
    {
        &self.password
    }

    pub fn server_timeout(&self) -> (r: u64)
        ensures
            r == self.server_timeout_ms,
    {
        self.server_timeout_ms
    }

    /// The login request these options put on the wire.
    pub fn login_packet(&self) -> (r: Packet)
        requires
            self.wf(),
        ensures
            r@ == spec_frame(
                PacketType::LoginRequest,
                self.username@ + self.password@ + self.session@ + self.sequence_number@,
            ),
            r.wf(),
    {
        Packet::login_request(
            Username::new_trunc(self.username.as_slice()),
            Password::new_trunc(self.password.as_slice()),
            SessionId::new_trunc(self.session.as_slice()),
            SequenceNumber::new_trunc(self.sequence_number.as_slice()),
        )
    }
}

/// Decide the one reply frame a connect waits for: a login-accepted frame
/// yields its session and starting sequence number; a login-reject frame
/// with a valid reason byte fails with that reason; every other frame — a
/// reject with a bad byte included — is unexpected.
pub fn handle_login_response(packet: Packet) -> (r: Result<(SessionId, SequenceNumber), ClientError>)
    requires
        packet.wf(),
    ensures
        packet.spec_packet_type() == PacketType::LoginAccepted ==> (r matches Ok(p) && p.0@
            == packet.spec_payload().subrange(0, 10) && p.1@ == packet.spec_payload().subrange(
            10,
            30,
        ) && p.0.wf() && p.1.wf()),
        packet.spec_packet_type() == PacketType::LoginReject && (packet.spec_payload()[0] == 65
            || packet.spec_payload()[0] == 83) ==> (r matches Err(e) && e matches
            ClientError::LoginRejected(c) && crate::soupbintcp::types::spec_login_reject_byte(c)
            == packet.spec_payload()[0]),
        packet.spec_packet_type() != PacketType::LoginAccepted && (packet.spec_packet_type()
            != PacketType::LoginReject || (packet.spec_payload()[0] != 65
            && packet.spec_payload()[0] != 83)) ==> (r matches Err(e) && e matches
            ClientError::UnexpectedPacket(p) && p == packet),
{
    let t = packet.packet_type();
    if t == PacketType::LoginAccepted {
        let session = match packet.session() {
            Some(s) => s,
            None => {
                proof {
                    assert(false);
                }
                SessionId::blank()
            },
        };
        let seq_num = match packet.sequence_number() {
            Some(s) => s,
            None => {
                proof {
                    assert(false);
                }
                SequenceNumber::zero()
            },
        };
        Ok((session, seq_num))
    } else if t == PacketType::LoginReject {
        match packet.reject_reason() {
            Some(reason) => Err(ClientError::LoginRejected(reason)),
            None => Err(ClientError::UnexpectedPacket(packet)),
        }
    } else {
        Err(ClientError::UnexpectedPacket(packet))
    }
}

/// What the timekeeper decided to do.
#[derive(Clone, Copy, Debug, PartialEq, Eq, Structural)]
pub enum TickAction {
    /// Nothing is due.
    Idle,
    /// Send-side silence reached a second: emit a client heartbeat.
    SendHeartbeat,
    /// The server stayed silent past the timeout: the session closed; the
    /// close-error slot says why.
    Close,
}

/// The client's clock-and-close state: when each side last showed life, and
/// the single close-error slot that the first error wins.
#[derive(Clone, Debug)]
pub struct ClientState {
    last_client_heartbeat_ms: u64,
    last_server_heartbeat_ms: u64,
    closed: Option<ClientError>,
}

impl ClientState {
    pub closed spec fn spec_last_client(&self) -> u64 {
        self.last_client_heartbeat_ms
    }

    pub closed spec fn spec_last_server(&self) -> u64 {
        self.last_server_heartbeat_ms
    }

    pub closed spec fn spec_closed(&self) -> Option<ClientError> {
        self.closed
    }

    /// A fresh connection at time `now`: both sides just showed life.
    pub fn new(now_ms: u64) -> (r: ClientState)
        ensures
            r.spec_last_client() == now_ms,
            r.spec_last_server() == now_ms,
            r.spec_closed() is None,
    {
        ClientState {
            last_client_heartbeat_ms: now_ms,
            last_server_heartbeat_ms: now_ms,
            closed: None,
        }
    }

    pub fn close_err(&self) -> (r: &Option<ClientError>)
        ensures
            r == self.spec_closed(),
    {
        &self.closed
    }

    pub fn is_closed(&self) -> (r: bool)
        ensures
            r == (self.spec_closed() is Some),
    {
        self.closed.is_some()
    }

    /// A write went out: the send side showed life.
    pub fn on_sent(&mut self, now_ms: u64)
        ensures
            final(self).spec_last_client() == now_ms,
            final(self).spec_last_server() == old(self).spec_last_server(),
            final(self).spec_closed() == old(self).spec_closed(),
    {
        self.last_client_heartbeat_ms = now_ms;
    }

    /// A frame arrived: the server showed life.
    pub fn on_received(&mut self, now_ms: u64)
        ensures
            final(self).spec_last_server() == now_ms,
            final(self).spec_last_client() == old(self).spec_last_client(),
            final(self).spec_closed() == old(self).spec_closed(),
    {
        self.last_server_heartbeat_ms = now_ms;
    }

    /// Set the close slot; the first error wins.
    pub fn close_with_err(&mut self, err: ClientError)
        ensures
            old(self).spec_closed() is None ==> final(self).spec_closed() == Some(err),
            old(self).spec_closed() is Some ==> *final(self) == *old(self),
            final(self).spec_last_client() == old(self).spec_last_client(),
            final(self).spec_last_server() == old(self).spec_last_server(),
    {
        match &self.closed {
            Some(_) => {},
            None => {
                self.closed = Some(err);
            },
        }
    }

    /// Whether a second of send-side silence has passed.
    pub fn heartbeat_due(&self, now_ms: u64) -> (r: bool)
        ensures
            r == (now_ms >= self.spec_last_client() + CLIENT_HEARTBEAT_MS),
    {
        now_ms >= CLIENT_HEARTBEAT_MS && now_ms - CLIENT_HEARTBEAT_MS >= self.last_client_heartbeat_ms
    }

    /// Whether the server has been silent longer than `timeout_ms`.
    pub fn server_timed_out(&self, now_ms: u64, timeout_ms: u64) -> (r: bool)
        ensures
            r == (now_ms > self.spec_last_server() + timeout_ms),
    {
        now_ms >= timeout_ms && now_ms - timeout_ms > self.last_server_heartbeat_ms
    }

    /// The timekeeper's step at time `now`: on a closed session nothing; a
    /// server silent past `timeout_ms` closes the session with the timeout
    /// error (an earlier error wins the slot); otherwise a second of
    /// send-side silence asks for a heartbeat.
    pub fn on_tick(&mut self, now_ms: u64, timeout_ms: u64) -> (r: TickAction)
        ensures
            old(self).spec_closed() is Some ==> *final(self) == *old(self) && r == TickAction::Idle,
            old(self).spec_closed() is None && now_ms > old(self).spec_last_server() + timeout_ms
                ==> (final(self).spec_closed() == Some(ClientError::ServerTimedOut)
                && final(self).spec_last_client() == old(self).spec_last_client()
                && final(self).spec_last_server() == old(self).spec_last_server()
                && r == TickAction::Close),
            old(self).spec_closed() is None && now_ms <= old(self).spec_last_server() + timeout_ms
                && now_ms >= old(self).spec_last_client() + CLIENT_HEARTBEAT_MS ==> *final(self)
                == *old(self) && r == TickAction::SendHeartbeat,
            old(self).spec_closed() is None && now_ms <= old(self).spec_last_server() + timeout_ms
                && now_ms < old(self).spec_last_client() + CLIENT_HEARTBEAT_MS ==> *final(self)
                == *old(self) && r == TickAction::Idle,
    {
        if self.is_closed() {
            return TickAction::Idle;
        }
        if self.server_timed_out(now_ms, timeout_ms) {
            self.close_with_err(ClientError::ServerTimedOut);
            return TickAction::Close;
        }
        if self.heartbeat_due(now_ms) {
            return TickAction::SendHeartbeat;
        }
        TickAction::Idle
    }
}

} // verus!
