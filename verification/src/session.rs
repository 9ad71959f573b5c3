//! The session-managed polling client, as a pure state machine.
//!
//! The machine owns the session token and the credential, and advances one
//! transport event at a time: each event is either a reply (status, session
//! cookie, body) or a transport fault described by plain flags. The machine
//! decides — retry under the throttle, fail, re-handshake, or finish — and
//! the surrounding I/O layer performs the chosen request and hands back the
//! next event. Every decision is specified by [`spec_step`], and a whole
//! exchange over a sequence of events by [`run_steps`].
//!
//! The token is an explicit field owned exclusively by the client value:
//! replaced, never merged, on every successful exchange.

use vstd::prelude::*;

use crate::text::{str_eq, str_starts_with};

verus! {

/// Command code of the login RPC.
pub const CMD_LOGIN: usize = 15;

/// Command code of the logout RPC.
pub const CMD_LOGOUT: usize = 16;

/// Command code of the list-devices RPC.
pub const CMD_DEVICES: usize = 123;

/// Command code of the read-temperature RPC.
pub const CMD_TEMPERATURE: usize = 136;

/// The error taxonomy surfaced to callers.
///
/// A transient network failure is retried indefinitely under the throttle
/// and surfaces only if the surrounding loop is canceled; a protocol
/// violation ends the current operation at once; an authentication rejection
/// is distinguished so a caller can stop instead of looping on bad
/// credentials.
#[derive(Clone, Copy, Debug, PartialEq, Eq, Structural)]
pub enum SessionError {
    TransientNetwork,
    ProtocolViolation,
    AuthenticationRejected,
}

/// A failed transport attempt, described by plain flags at the transport
/// boundary: connection error, response timeout, incomplete message, or an
/// overall request timeout.
#[derive(Clone, Copy, Debug, PartialEq, Eq, Structural)]
pub struct TransportFault {
    pub connect_error: bool,
    pub response_timeout: bool,
    pub incomplete_message: bool,
    pub request_timeout: bool,
}

/// A fault is transient exactly when one of its flags is set.
pub open spec fn spec_is_transient(f: TransportFault) -> bool {
    f.connect_error || f.response_timeout || f.incomplete_message || f.request_timeout
}

/// Classifies a transport fault: transient faults are retried, everything
/// else is a protocol violation surfaced immediately.
pub fn is_transient(f: &TransportFault) -> (r: bool)
    ensures
        r == spec_is_transient(*f),
{
    f.connect_error || f.response_timeout || f.incomplete_message || f.request_timeout
}

/// One HTTP reply, reduced to the plain values the session logic reads.
#[derive(Debug, PartialEq)]
pub struct HttpReply {
    pub status: u16,
    pub session_cookie: Option<String>,
    pub body: String,
}

/// One transport event: a reply, or a fault.
pub type TransportEvent = Result<HttpReply, TransportFault>;

/// What the machine resumes once a re-handshake has succeeded.
#[derive(Clone, Copy, Debug, PartialEq, Eq, Structural)]
pub enum Resume {
    /// Nothing pending: the handshake itself was the goal.
    Ready,
    /// Retry the original get request with this command code.
    Refetch(usize),
}

/// The machine's phase: which request is in flight, or how the current
/// operation ended.
#[derive(Debug, PartialEq)]
pub enum Phase {
    /// A get RPC with this command code is in flight.
    Fetching(usize),
    /// A set RPC with this command code is in flight.
    Setting(usize),
    /// Handshake step one: the login page fetch is in flight.
    HandshakeIndex(Resume),
    /// Handshake step two: the login RPC is in flight.
    HandshakeLogin(Resume),
    /// The operation finished with this response body.
    Done(String),
    /// The operation failed.
    Failed(SessionError),
}

/// The phase is terminal: the current operation is over.
pub open spec fn phase_terminal(p: Phase) -> bool {
    match p {
        Phase::Done(_) => true,
        Phase::Failed(_) => true,
        _ => false,
    }
}

/// The session client: credential, current token, and phase.
pub struct SessionClient {
    pub password: String,
    pub token: String,
    pub phase: Phase,
}

/// The body marker the router sends for rejected credentials.
pub open spec fn login_failed_marker() -> Seq<char> {
    "idloginincorrect"@
}

/// The prefix of a successful login response body.
pub open spec fn login_success_prefix() -> Seq<char> {
    "successful;"@
}

/// The prefix by which an HTML page — the router's way of signaling a lost
/// session — is recognized.
pub open spec fn html_page_prefix() -> Seq<char> {
    "<!doctype html>"@
}

/// One decision of the session machine: from the current client and one
/// transport event to the next client, whether a throttle wait is owed, and
/// whether a re-handshake begins.
///
/// Every reply first has the fresh token extracted from its session cookie;
/// a non-success status or a missing cookie is a protocol violation. A
/// transient fault leaves the state unchanged and owes one throttle wait; any
/// other fault fails the operation. A get reply whose body is an HTML page
/// starts the silent re-handshake and remembers the original command.
pub open spec fn spec_step(s: SessionClient, ev: TransportEvent) -> (SessionClient, bool, bool) {
    if phase_terminal(s.phase) {
        (s, false, false)
    } else {
        match ev {
            Result::Err(f) => if spec_is_transient(f) {
                (s, true, false)
            } else {
                (
                    SessionClient {
                        phase: Phase::Failed(SessionError::ProtocolViolation),
                        ..s
                    },
                    false,
                    false,
                )
            },
            Result::Ok(reply) => {
                if reply.status != 200 {
                    (
                        SessionClient {
                            phase: Phase::Failed(SessionError::ProtocolViolation),
                            ..s
                        },
                        false,
                        false,
                    )
                } else {
                    match reply.session_cookie {
                        Option::None => (
                            SessionClient {
                                phase: Phase::Failed(SessionError::ProtocolViolation),
                                ..s
                            },
                            false,
                            false,
                        ),
                        Option::Some(t) => {
                            let s2 = SessionClient { token: t, ..s };
                            match s.phase {
                                Phase::Fetching(cmd) => if html_page_prefix().is_prefix_of(
                                    reply.body@,
                                ) {
                                    (
                                        SessionClient {
                                            phase: Phase::HandshakeIndex(Resume::Refetch(cmd)),
                                            ..s2
                                        },
                                        false,
                                        true,
                                    )
                                } else {
                                    (
                                        SessionClient { phase: Phase::Done(reply.body), ..s2 },
                                        false,
                                        false,
                                    )
                                },
                                Phase::Setting(_) => (
                                    SessionClient { phase: Phase::Done(reply.body), ..s2 },
                                    false,
                                    false,
                                ),
                                Phase::HandshakeIndex(r) => (
                                    SessionClient { phase: Phase::HandshakeLogin(r), ..s2 },
                                    false,
                                    false,
                                ),
                                Phase::HandshakeLogin(r) => if reply.body@
                                    == login_failed_marker() {
                                    (
                                        SessionClient {
                                            phase: Phase::Failed(
                                                SessionError::AuthenticationRejected,
                                            ),
                                            ..s2
                                        },
                                        false,
                                        false,
                                    )
                                } else if login_success_prefix().is_prefix_of(reply.body@) {
                                    match r {
                                        Resume::Ready => (
                                            SessionClient { phase: Phase::Done(reply.body), ..s2 },
                                            false,
                                            false,
                                        ),
                                        Resume::Refetch(cmd) => (
                                            SessionClient { phase: Phase::Fetching(cmd), ..s2 },
                                            false,
                                            false,
                                        ),
                                    }
                                } else {
                                    (
                                        SessionClient {
                                            phase: Phase::Failed(SessionError::ProtocolViolation),
                                            ..s2
                                        },
                                        false,
                                        false,
                                    )
                                },
                                _ => (s2, false, false),
                            }
                        },
                    }
                }
            },
        }
    }
}

/// Folding the machine over a sequence of transport events until it reaches
/// a terminal phase or the events run out. Returns the final client, the
/// number of throttle waits owed, and the number of re-handshakes begun.
pub open spec fn run_steps(s: SessionClient, script: Seq<TransportEvent>) -> (
    SessionClient,
    nat,
    nat,
)
    decreases script.len(),
{
    if phase_terminal(s.phase) || script.len() == 0 {
        (s, 0, 0)
    } else {
        let (s2, w, h) = spec_step(s, script[0]);
        let (sf, ws, hs) = run_steps(s2, script.drop_first());
        (sf, ws + if w {
            1nat
        } else {
            0nat
        }, hs + if h {
            1nat
        } else {
            0nat
        })
    }
}

impl SessionClient {
    /// A fresh, unauthenticated client: the handshake (login page fetch,
    /// then login RPC) is its first pending operation.
    pub fn new(password: String) -> (s: SessionClient)
        ensures
            s.password == password,
            s.token@ == Seq::<char>::empty(),
            s.phase == Phase::HandshakeIndex(Resume::Ready),
    {
        SessionClient { password, token: String::new(), phase: Phase::HandshakeIndex(Resume::Ready) }
    }

    /// Begins the list-devices operation.
    pub fn start_devices(&mut self)
        ensures
            final(self).phase == Phase::Fetching(CMD_DEVICES),
            final(self).token == old(self).token,
            final(self).password == old(self).password,
    {
        self.phase = Phase::Fetching(CMD_DEVICES);
    }

    /// Begins the read-temperature operation.
    pub fn start_temperature(&mut self)
        ensures
            final(self).phase == Phase::Fetching(CMD_TEMPERATURE),
            final(self).token == old(self).token,
            final(self).password == old(self).password,
    {
        self.phase = Phase::Fetching(CMD_TEMPERATURE);
    }

    /// Begins the best-effort logout operation.
    pub fn start_logout(&mut self)
        ensures
            final(self).phase == Phase::Setting(CMD_LOGOUT),
            final(self).token == old(self).token,
            final(self).password == old(self).password,
    {
        self.phase = Phase::Setting(CMD_LOGOUT);
    }

    /// Advances the machine by one transport event.
    ///
    /// Returns whether a throttle wait is owed before the next attempt, and
    /// whether a re-handshake was begun.
    pub fn step(&mut self, ev: TransportEvent) -> (eff: (bool, bool))
        ensures
            ({
                let (s2, w, h) = spec_step(*old(self), ev);
                *final(self) == s2 && eff.0 == w && eff.1 == h
            }),
    {
        let terminal = match &self.phase {
            Phase::Done(_) => true,
            Phase::Failed(_) => true,
            _ => false,
        };
        if terminal {
            return (false, false);
        }
        match ev {
            Result::Err(f) => {
                if is_transient(&f) {
                    (true, false)
                } else {
                    self.phase = Phase::Failed(SessionError::ProtocolViolation);
                    (false, false)
                }
            },
            Result::Ok(reply) => {
                if reply.status != 200 {
                    self.phase = Phase::Failed(SessionError::ProtocolViolation);
                    return (false, false);
                }
                match reply.session_cookie {
                    Option::None => {
                        self.phase = Phase::Failed(SessionError::ProtocolViolation);
                        (false, false)
                    },
                    Option::Some(t) => {
                        self.token = t;
                        match &self.phase {
                            Phase::Fetching(cmd) => {
                                let cmd: usize = *cmd;
                                if str_starts_with(reply.body.as_str(), "<!doctype html>") {
                                    self.phase = Phase::HandshakeIndex(Resume::Refetch(cmd));
                                    (false, true)
                                } else {
                                    self.phase = Phase::Done(reply.body);
                                    (false, false)
                                }
                            },
                            Phase::Setting(_) => {
                                self.phase = Phase::Done(reply.body);
                                (false, false)
                            },
                            Phase::HandshakeIndex(r) => {
                                let r: Resume = *r;
                                self.phase = Phase::HandshakeLogin(r);
                                (false, false)
                            },
                            Phase::HandshakeLogin(r) => {
                                let r: Resume = *r;
                                if str_eq(reply.body.as_str(), "idloginincorrect") {
                                    self.phase = Phase::Failed(
                                        SessionError::AuthenticationRejected,
                                    );
                                    (false, false)
                                } else if str_starts_with(reply.body.as_str(), "successful;") {
                                    match r {
                                        Resume::Ready => {
                                            self.phase = Phase::Done(reply.body);
                                            (false, false)
                                        },
                                        Resume::Refetch(cmd) => {
                                            self.phase = Phase::Fetching(cmd);
                                            (false, false)
                                        },
                                    }
                                } else {
                                    self.phase = Phase::Failed(SessionError::ProtocolViolation);
                                    (false, false)
                                }
                            },
                            _ => (false, false),
                        }
                    },
                }
            },
        }
    }
}

/// The request the machine asks the transport layer to issue next.
#[derive(Debug, PartialEq)]
pub enum RpcRequest {
    /// Fetch the login page, to harvest the initial token from its cookies.
    FetchLoginPage,
    /// Submit the current token and a command code to the getter endpoint.
    Getter { token: String, command: usize },
    /// Submit the current token, a command code and parameters to the setter
    /// endpoint.
    Setter { token: String, command: usize, params: Vec<(String, String)> },
}

impl SessionClient {
    /// The request owed in the current phase, or nothing when the current
    /// operation is over.
    ///
    /// A get or set in flight carries the current token and its command; the
    /// handshake first fetches the login page, then submits the credentials
    /// via the login RPC.
    pub fn pending_request(&self) -> (r: Option<RpcRequest>)
        ensures
            match self.phase {
                Phase::Fetching(cmd) => r == Option::Some(
                    RpcRequest::Getter { token: self.token, command: cmd },
                ),
                Phase::Setting(cmd) => (match r {
                    Option::Some(RpcRequest::Setter { token, command, params }) => token == self.token
                        && command == cmd && params@.len() == 0,
                    _ => false,
                }),
                Phase::HandshakeIndex(_) => r == Option::Some(RpcRequest::FetchLoginPage),
                Phase::HandshakeLogin(_) => (match r {
                    Option::Some(RpcRequest::Setter { token, command, params }) => token == self.token
                        && command == CMD_LOGIN && params@.len() == 2 && params@[0].0@
                        == "Username"@ && params@[0].1@ == "NULL"@ && params@[1].0@ == "Password"@
                        && params@[1].1 == self.password,
                    _ => false,
                }),
                Phase::Done(_) => r is None,
                Phase::Failed(_) => r is None,
            },
    {
        match &self.phase {
            Phase::Fetching(cmd) => Option::Some(
                RpcRequest::Getter { token: self.token.clone(), command: *cmd },
            ),
            Phase::Setting(cmd) => Option::Some(
                RpcRequest::Setter { token: self.token.clone(), command: *cmd, params: Vec::new() },
            ),
            Phase::HandshakeIndex(_) => Option::Some(RpcRequest::FetchLoginPage),
            Phase::HandshakeLogin(_) => {
                let mut params: Vec<(String, String)> = Vec::new();
                params.push((String::from_str("Username"), String::from_str("NULL")));
                params.push((String::from_str("Password"), self.password.clone()));
                Option::Some(
                    RpcRequest::Setter { token: self.token.clone(), command: CMD_LOGIN, params },
                )
            },
            Phase::Done(_) => Option::None,
            Phase::Failed(_) => Option::None,
        }
    }
}

/// Copies a transport event, preserving its value.
pub fn clone_event(e: &TransportEvent) -> (r: TransportEvent)
    ensures
        r == *e,
{
    match e {
        Result::Err(f) => Result::Err(*f),
        Result::Ok(reply) => Result::Ok(
            HttpReply {
                status: reply.status,
                session_cookie: crate::types::clone_opt_string(&reply.session_cookie),
                body: reply.body.clone(),
            },
        ),
    }
}

impl SessionClient {
    /// Drives the machine over a whole sequence of transport events, until a
    /// terminal phase is reached or the events run out.
    ///
    /// Returns the number of throttle waits owed and the number of
    /// re-handshakes performed, exactly as [`run_steps`] counts them.
    pub fn run_script(&mut self, script: &Vec<TransportEvent>) -> (r: (usize, usize))
        ensures
            ({
                let (sf, ws, hs) = run_steps(*old(self), script@);
                *final(self) == sf && r.0 == ws && r.1 == hs
            }),
    {
        let ghost s0 = *self;
        let mut waits: usize = 0;
        let mut handshakes: usize = 0;
        let mut k: usize = 0;
        proof {
            assert(script@.skip(0) =~= script@);
        }
        loop
            invariant
                k <= script@.len(),
                waits <= k,
                handshakes <= k,
                ({
                    let (sf, ws, hs) = run_steps(s0, script@);
                    let (sf2, ws2, hs2) = run_steps(*self, script@.skip(k as int));
                    sf == sf2 && ws == waits + ws2 && hs == handshakes + hs2
                }),
            ensures
                run_steps(s0, script@) == (*self, waits as nat, handshakes as nat),
            decreases script@.len() - k,
        {
            let ghost rem = script@.skip(k as int);
            let terminal = match &self.phase {
                Phase::Done(_) => true,
                Phase::Failed(_) => true,
                _ => false,
            };
            if terminal || k == script.len() {
                proof {
                    assert(rem.len() == script@.len() - k);
                    assert(run_steps(*self, rem) == (*self, 0nat, 0nat));
                    let (sf, ws, hs) = run_steps(s0, script@);
                    assert(sf == *self && ws == waits as nat && hs == handshakes as nat);
                }
                break ;
            }
            proof {
                assert(rem[0] == script@[k as int]);
                assert(rem.drop_first() =~= script@.skip(k as int + 1));
            }
            let ev = clone_event(&script[k]);
            let ghost before = *self;
            let eff = self.step(ev);
            if eff.0 {
                waits = waits + 1;
            }
            if eff.1 {
                handshakes = handshakes + 1;
            }
            k = k + 1;
            proof {
                let (s2, w, h) = spec_step(before, rem[0]);
                let (sf3, ws3, hs3) = run_steps(s2, rem.drop_first());
                assert(run_steps(before, rem) == (
                    sf3,
                    ws3 + if w {
                        1nat
                    } else {
                        0nat
                    },
                    hs3 + if h {
                        1nat
                    } else {
                        0nat
                    },
                ));
            }
        }
        (waits, handshakes)
    }
}

} // verus!
