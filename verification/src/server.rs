//! The protocol of one client session: authentication by password, the
//! heartbeat, and what is sent for each thing that happens, as a state
//! machine that the host drives with the frames and timers it sees.

use sha2::{Digest, Sha256};
use vstd::prelude::*;
use vstd::string::*;
use vstd::utf8::encode_utf8;
use crate::config::{server_port, Config, BASE_PORT};
use crate::plugin_system::{ActionIdentifier, Notification, NotificationView};
use crate::text::{strip_prefix, text_of, has_prefix};

verus! {

/// Time between two pings of the server, in milliseconds.
pub const HEARTBEAT_INTERVAL_MS: u64 = 5000;

/// Time without a sign of life after which a client is dropped, in
/// milliseconds.
pub const CLIENT_TIMEOUT_MS: u64 = 10000;

/// Time that a client has to authenticate, in milliseconds.
pub const AUTH_TIMEOUT_MS: u64 = 5000;

/// Close code after a wrong or missing password.
pub const CLOSE_CODE_AUTH: u16 = 1;

/// Close code after no frame arrived in time.
pub const CLOSE_CODE_AUTH_TIMEOUT: u16 = 2;

/// What the first frame of a client begins with.
pub const PASSWORD_PREFIX: &'static str = "Password ";

/// The answer to a client's request.
#[derive(Debug, Clone, PartialEq, Eq)]
pub struct ServerResponse {
    pub request_id: String,
    pub success: bool,
    pub message: Option<String>,
}

/// What a [`ServerResponse`] holds.
pub ghost struct ServerResponseView {
    pub request_id: Seq<char>,
    pub success: bool,
    pub message: Option<Seq<char>>,
}

impl View for ServerResponse {
    type V = ServerResponseView;

    open spec fn view(&self) -> ServerResponseView {
        ServerResponseView {
            request_id: self.request_id@,
            success: self.success,
            message: text_of(self.message),
        }
    }
}

impl ServerResponse {
    /// A response with the given parts.
    pub fn new(request_id: String, success: bool, message: Option<String>) -> (r: ServerResponse)
        ensures
            r@ == (ServerResponseView {
                request_id: request_id@,
                success,
                message: text_of(message),
            }),
    {
        ServerResponse { request_id, success, message }
    }

    /// The response to a request that was carried out: success, no message.
    pub fn new_success(request_id: String) -> (r: ServerResponse)
        ensures
            r@ == (ServerResponseView { request_id: request_id@, success: true, message: None }),
    {
        ServerResponse::new(request_id, true, None)
    }

    /// The response to a request that nothing answered: failure, with the
    /// message `Internal Server Error`.
    pub fn new_internal_error(request_id: String) -> (r: ServerResponse)
        ensures
            r@ == (ServerResponseView {
                request_id: request_id@,
                success: false,
                message: Some("Internal Server Error"@),
            }),
    {
        ServerResponse::new(request_id, false, Some(String::from_str("Internal Server Error")))
    }

    /// The response to a request that failed: failure, with the error's
    /// wording as the message.
    pub fn from_error(request_id: String, error: String) -> (r: ServerResponse)
        ensures
            r@ == (ServerResponseView {
                request_id: request_id@,
                success: false,
                message: Some(error@),
            }),
    {
        ServerResponse::new(request_id, false, Some(error))
    }
}

/// The SHA-256 digest of a sequence of bytes.
pub uninterp spec fn sha256_digest(data: Seq<u8>) -> Seq<u8>;

/// The SHA-256 digest of `data`.
///
/// Trusted: `Sha256::new()`, `chain_update` and `finalize` of the sha2 crate,
/// which hash exactly the bytes handed in; the digest depends on those bytes
/// alone.
#[verifier::external_body]
fn sha256(data: &[u8]) -> (r: Vec<u8>)
    ensures
        r@ == sha256_digest(data@),
{
    Sha256::new().chain_update(data).finalize().to_vec()
}

/// The digest under which a password is kept: the SHA-256 digest of its
/// UTF-8 bytes.
pub fn password_hash(password: &str) -> (r: Vec<u8>)
    ensures
        r@ == sha256_digest(encode_utf8(password@)),
{
    sha256(password.as_bytes())
}

/// Whether two digests hold the same bytes.
pub fn hashes_match(got: &Vec<u8>, expected: &Vec<u8>) -> (r: bool)
    ensures
        r == (got@ == expected@),
{
    if got.len() != expected.len() {
        return false;
    }
    let mut i: usize = 0;
    while i < got.len()
        invariant
            i <= got.len(),
            got.len() == expected.len(),
            forall|k: int| 0 <= k < i ==> got@[k] == expected@[k],
        decreases got.len() - i,
    {
        if got[i] != expected[i] {
            return false;
        }
        i += 1;
    }
    assert(got@ =~= expected@);
    true
}

/// The password that a client's first frame gives: what follows `Password `,
/// where the frame begins with it.
pub fn password_of_frame(frame: &str) -> (r: Option<String>)
    ensures
        match r {
            Some(password) => has_prefix(frame@, PASSWORD_PREFIX@) && password@ == frame@.skip(
                PASSWORD_PREFIX@.len() as int,
            ),
            None => !has_prefix(frame@, PASSWORD_PREFIX@),
        },
{
    strip_prefix(frame, PASSWORD_PREFIX)
}

/// Whether a first frame authenticates a client: it is a text that begins
/// with `Password `, and the digest of what follows is the expected one.
pub open spec fn authenticates(frame: Option<Seq<char>>, expected_hash: Seq<u8>) -> bool {
    match frame {
        Some(text) => has_prefix(text, PASSWORD_PREFIX@) && sha256_digest(
            encode_utf8(text.skip(PASSWORD_PREFIX@.len() as int)),
        ) == expected_hash,
        None => false,
    }
}

/// Whether a client's first frame authenticates it.
pub fn check_auth_frame(frame: &Option<String>, expected_hash: &Vec<u8>) -> (r: bool)
    ensures
        r == authenticates(text_of(*frame), expected_hash@),
{
    match frame {
        Some(text) => match password_of_frame(text.as_str()) {
            Some(password) => {
                let got = password_hash(password.as_str());
                hashes_match(&got, expected_hash)
            },
            None => false,
        },
        None => false,
    }
}

/// What the server works with: the port it listens on and the digest that a
/// client's password has to have.
#[derive(Debug, Clone, PartialEq, Eq)]
pub struct WebContext {
    pub port: u16,
    pub websocket_password_hash: Vec<u8>,
}

/// Prepares the server of a channel: it listens on the channel's port and
/// knows the configured password by its digest only.
pub fn start(config: &Config) -> (r: WebContext)
    ensures
        r.port == BASE_PORT + config.channel,
        r.websocket_password_hash@ == sha256_digest(encode_utf8(config.websocket_password@)),
{
    WebContext {
        port: server_port(config.channel),
        websocket_password_hash: password_hash(config.websocket_password.as_str()),
    }
}

/// How the call of an action for a client ended.
#[derive(Debug, Clone, PartialEq, Eq)]
pub enum CallOutcome {
    /// The action ran.
    Done,
    /// The action failed; the error's wording.
    Failed(String),
    /// Nothing answered the request.
    NoReply,
}

/// The response that tells a client how its request ended.
pub open spec fn response_for(request_id: Seq<char>, outcome: CallOutcome) -> ServerResponseView {
    match outcome {
        CallOutcome::Done => ServerResponseView { request_id, success: true, message: None },
        CallOutcome::Failed(error) => ServerResponseView {
            request_id,
            success: false,
            message: Some(error@),
        },
        CallOutcome::NoReply => ServerResponseView {
            request_id,
            success: false,
            message: Some("Internal Server Error"@),
        },
    }
}

/// The response that tells a client how its request ended.
pub fn respond(request_id: String, outcome: CallOutcome) -> (r: ServerResponse)
    ensures
        r@ == response_for(request_id@, outcome),
{
    match outcome {
        CallOutcome::Done => ServerResponse::new_success(request_id),
        CallOutcome::Failed(error) => ServerResponse::from_error(request_id, error),
        CallOutcome::NoReply => ServerResponse::new_internal_error(request_id),
    }
}

/// Where a session stands.
#[derive(Debug, PartialEq, Eq, Copy, Clone, Structural)]
pub enum SessionState {
    /// The client has not yet sent its first frame.
    AwaitingAuth,
    /// The client is authenticated; it was last heard of at the given time,
    /// in milliseconds.
    Active { last_heartbeat: u64 },
    /// The session is over.
    Closed,
}

/// What happened on a session.
#[derive(Debug, Clone)]
pub enum SessionEvent {
    /// The first frame arrived in time: its text, or nothing for a frame
    /// that is no text or a connection that ended.
    FirstFrame { text: Option<String>, now: u64 },
    /// No frame arrived within the time allowed for authentication.
    AuthTimeout,
    /// The heartbeat timer fired.
    HeartbeatTick { now: u64 },
    /// The notification bus delivered a notification.
    Notified(Notification),
    /// The session fell behind the notification bus and missed notifications.
    Lagged { skipped: u64 },
    /// The notification bus was closed.
    BusClosed,
    /// The client sent a ping.
    Ping { now: u64 },
    /// The client sent a pong.
    Pong { now: u64 },
    /// The client asked for an action to be called.
    CallRequested { request_id: String, identifier: ActionIdentifier },
    /// The client sent a text that is no message; the parser's complaint.
    Unparseable { complaint: String },
    /// The client sent a frame that is no text, or the connection ended.
    Disconnected,
    /// The call of an action for the client ended.
    CallFinished { request_id: String, outcome: CallOutcome },
}

/// What the host does for a session after an event.
#[derive(Debug, Clone, PartialEq, Eq)]
pub enum SessionAction {
    /// Send a close frame with the code and the reason, and end the session.
    Close { code: u16, reason: String },
    /// Fetch the state of the system and send it.
    SendSystemInfo,
    /// Send a ping.
    SendPing,
    /// Send a pong.
    SendPong,
    /// Send the notification.
    SendNotification(Notification),
    /// Send the response.
    SendResponse(ServerResponse),
    /// Send the complaint about a text that was no message.
    SendParseError(String),
    /// Have the action called, and come back with how it ended.
    CallAction { request_id: String, identifier: ActionIdentifier },
    /// Nothing.
    Nothing,
    /// End the session.
    Terminate,
}

/// What a [`SessionAction`] holds.
pub ghost enum SessionActionView {
    Close { code: u16, reason: Seq<char> },
    SendSystemInfo,
    SendPing,
    SendPong,
    SendNotification(NotificationView),
    SendResponse(ServerResponseView),
    SendParseError(Seq<char>),
    CallAction { request_id: Seq<char>, plugin_instance: Seq<char>, module: Seq<char>, action: Seq<char> },
    Nothing,
    Terminate,
}

impl View for SessionAction {
    type V = SessionActionView;

    open spec fn view(&self) -> SessionActionView {
        match *self {
            SessionAction::Close { code, reason } => SessionActionView::Close {
                code,
                reason: reason@,
            },
            SessionAction::SendSystemInfo => SessionActionView::SendSystemInfo,
            SessionAction::SendPing => SessionActionView::SendPing,
            SessionAction::SendPong => SessionActionView::SendPong,
            SessionAction::SendNotification(n) => SessionActionView::SendNotification(n@),
            SessionAction::SendResponse(r) => SessionActionView::SendResponse(r@),
            SessionAction::SendParseError(e) => SessionActionView::SendParseError(e@),
            SessionAction::CallAction { request_id, identifier } => SessionActionView::CallAction {
                request_id: request_id@,
                plugin_instance: identifier.plugin_instance@,
                module: identifier.module@,
                action: identifier.action@,
            },
            SessionAction::Nothing => SessionActionView::Nothing,
            SessionAction::Terminate => SessionActionView::Terminate,
        }
    }
}

/// Whether a client that was last heard of at `last_heartbeat` has been
/// silent for longer than allowed at `now`.
pub open spec fn timed_out(last_heartbeat: u64, now: u64) -> bool {
    now - last_heartbeat > CLIENT_TIMEOUT_MS
}

/// The state of a session after an event.
///
/// A session that awaits authentication becomes active with a first frame
/// that authenticates, and is closed by any other event. An active session
/// notes the time of each ping and pong, is closed by a heartbeat tick after
/// too long a silence, by the end of the connection and by the end of the
/// notification bus, and stays as it is otherwise. A closed session stays
/// closed.
pub open spec fn next_state(state: SessionState, expected_hash: Seq<u8>, event: SessionEvent) -> SessionState {
    match state {
        SessionState::AwaitingAuth => match event {
            SessionEvent::FirstFrame { text, now } => if authenticates(
                text_of(text),
                expected_hash,
            ) {
                SessionState::Active { last_heartbeat: now }
            } else {
                SessionState::Closed
            },
            _ => SessionState::Closed,
        },
        SessionState::Active { last_heartbeat } => match event {
            SessionEvent::HeartbeatTick { now } => if timed_out(last_heartbeat, now) {
                SessionState::Closed
            } else {
                state
            },
            SessionEvent::Ping { now } => SessionState::Active { last_heartbeat: now },
            SessionEvent::Pong { now } => SessionState::Active { last_heartbeat: now },
            SessionEvent::BusClosed => SessionState::Closed,
            SessionEvent::Disconnected => SessionState::Closed,
            _ => state,
        },
        SessionState::Closed => SessionState::Closed,
    }
}

/// What the host does after an event.
///
/// While authentication is awaited: a first frame that authenticates has the
/// state of the system sent; one that does not has the connection closed with
/// code 1 and reason `auth`; the timeout has it closed with code 2 and reason
/// `auth_timeout`; anything else ends the session. In an active session: a
/// tick sends a ping, or ends the session after too long a silence; a
/// notification is passed on; after missed notifications the state of the
/// system is sent anew; a ping is answered with a pong; a request has the
/// action called, and its end is answered with the response; a text that is
/// no message is answered with the complaint; the end of the connection or
/// of the bus ends the session. In a closed session nothing is done.
pub open spec fn next_action(
    state: SessionState,
    expected_hash: Seq<u8>,
    event: SessionEvent,
) -> SessionActionView {
    match state {
        SessionState::AwaitingAuth => match event {
            SessionEvent::FirstFrame { text, now } => if authenticates(
                text_of(text),
                expected_hash,
            ) {
                SessionActionView::SendSystemInfo
            } else {
                SessionActionView::Close { code: CLOSE_CODE_AUTH, reason: "auth"@ }
            },
            SessionEvent::AuthTimeout => SessionActionView::Close {
                code: CLOSE_CODE_AUTH_TIMEOUT,
                reason: "auth_timeout"@,
            },
            _ => SessionActionView::Terminate,
        },
        SessionState::Active { last_heartbeat } => match event {
            SessionEvent::FirstFrame { .. } => SessionActionView::Nothing,
            SessionEvent::AuthTimeout => SessionActionView::Nothing,
            SessionEvent::HeartbeatTick { now } => if timed_out(last_heartbeat, now) {
                SessionActionView::Terminate
            } else {
                SessionActionView::SendPing
            },
            SessionEvent::Notified(n) => SessionActionView::SendNotification(n@),
            SessionEvent::Lagged { .. } => SessionActionView::SendSystemInfo,
            SessionEvent::BusClosed => SessionActionView::Terminate,
            SessionEvent::Ping { .. } => SessionActionView::SendPong,
            SessionEvent::Pong { .. } => SessionActionView::Nothing,
            SessionEvent::CallRequested { request_id, identifier } => SessionActionView::CallAction {
                request_id: request_id@,
                plugin_instance: identifier.plugin_instance@,
                module: identifier.module@,
                action: identifier.action@,
            },
            SessionEvent::Unparseable { complaint } => SessionActionView::SendParseError(
                complaint@,
            ),
            SessionEvent::Disconnected => SessionActionView::Terminate,
            SessionEvent::CallFinished { request_id, outcome } => SessionActionView::SendResponse(
                response_for(request_id@, outcome),
            ),
        },
        SessionState::Closed => SessionActionView::Nothing,
    }
}

/// One client session.
#[derive(Debug)]
pub struct Session {
    state: SessionState,
    password_hash: Vec<u8>,
}

impl Session {
    /// Where the session stands.
    pub closed spec fn state_of(&self) -> SessionState {
        self.state
    }

    /// The digest that the client's password has to have.
    pub closed spec fn expected_hash(&self) -> Seq<u8> {
        self.password_hash@
    }

    /// A session that awaits authentication by the password with the given
    /// digest.
    pub fn new(password_hash: Vec<u8>) -> (r: Session)
        ensures
            r.state_of() == SessionState::AwaitingAuth,
            r.expected_hash() == password_hash@,
    {
        Session { state: SessionState::AwaitingAuth, password_hash }
    }

    /// Where the session stands.
    pub fn state(&self) -> (r: SessionState)
        ensures
            r == self.state_of(),
    {
        self.state
    }

    /// Takes note of an event and says what to do.
    pub fn handle(&mut self, event: SessionEvent) -> (action: SessionAction)
        ensures
            final(self).expected_hash() == old(self).expected_hash(),
            final(self).state_of() == next_state(
                old(self).state_of(),
                old(self).expected_hash(),
                event,
            ),
            action@ == next_action(old(self).state_of(), old(self).expected_hash(), event),
    {
        match self.state {
            SessionState::AwaitingAuth => match event {
                SessionEvent::FirstFrame { text, now } => {
                    if check_auth_frame(&text, &self.password_hash) {
                        self.state = SessionState::Active { last_heartbeat: now };
                        SessionAction::SendSystemInfo
                    } else {
                        self.state = SessionState::Closed;
                        SessionAction::Close {
                            code: CLOSE_CODE_AUTH,
                            reason: String::from_str("auth"),
                        }
                    }
                },
                SessionEvent::AuthTimeout => {
                    self.state = SessionState::Closed;
                    SessionAction::Close {
                        code: CLOSE_CODE_AUTH_TIMEOUT,
                        reason: String::from_str("auth_timeout"),
                    }
                },
                _ => {
                    self.state = SessionState::Closed;
                    SessionAction::Terminate
                },
            },
            SessionState::Active { last_heartbeat } => match event {
                SessionEvent::FirstFrame { .. } => SessionAction::Nothing,
                SessionEvent::AuthTimeout => SessionAction::Nothing,
                SessionEvent::HeartbeatTick { now } => {
                    if now > last_heartbeat && now - last_heartbeat > CLIENT_TIMEOUT_MS {
                        self.state = SessionState::Closed;
                        SessionAction::Terminate
                    } else {
                        SessionAction::SendPing
                    }
                },
                SessionEvent::Notified(n) => SessionAction::SendNotification(n),
                SessionEvent::Lagged { .. } => SessionAction::SendSystemInfo,
                SessionEvent::BusClosed => {
                    self.state = SessionState::Closed;
                    SessionAction::Terminate
                },
                SessionEvent::Ping { now } => {
                    self.state = SessionState::Active { last_heartbeat: now };
                    SessionAction::SendPong
                },
                SessionEvent::Pong { now } => {
                    self.state = SessionState::Active { last_heartbeat: now };
                    SessionAction::Nothing
                },
                SessionEvent::CallRequested { request_id, identifier } => SessionAction::CallAction {
                    request_id,
                    identifier,
                },
                SessionEvent::Unparseable { complaint } => SessionAction::SendParseError(
                    complaint,
                ),
                SessionEvent::Disconnected => {
                    self.state = SessionState::Closed;
                    SessionAction::Terminate
                },
                SessionEvent::CallFinished { request_id, outcome } => SessionAction::SendResponse(
                    respond(request_id, outcome),
                ),
            },
            SessionState::Closed => SessionAction::Nothing,
        }
    }
}

} // verus!
