use connect_box::session::is_transient;
use connect_box::session::{
    HttpReply, Phase, RpcRequest, SessionClient, SessionError, TransportEvent, TransportFault,
    CMD_DEVICES, CMD_LOGIN, CMD_LOGOUT,
};

fn reply(cookie: &str, body: &str) -> TransportEvent {
    Ok(HttpReply {
        status: 200,
        session_cookie: Some(cookie.to_owned()),
        body: body.to_owned(),
    })
}

fn transient() -> TransportEvent {
    Err(TransportFault {
        connect_error: true,
        response_timeout: false,
        incomplete_message: false,
        request_timeout: false,
    })
}

fn fatal() -> TransportEvent {
    Err(TransportFault {
        connect_error: false,
        response_timeout: false,
        incomplete_message: false,
        request_timeout: false,
    })
}

#[test]
fn transient_failures_retry_until_success() {
    // Three transient faults, then a success: the operation succeeds after
    // exactly three throttle waits.
    let mut c = SessionClient::new("pw".to_owned());
    c.start_logout();
    let script = vec![transient(), transient(), transient(), reply("tok-9", "OK")];
    let (waits, handshakes) = c.run_script(&script);
    assert_eq!(waits, 3);
    assert_eq!(handshakes, 0);
    assert_eq!(c.phase, Phase::Done("OK".to_owned()));
    assert_eq!(c.token, "tok-9");
}

#[test]
fn non_transient_failure_returns_immediately() {
    let mut c = SessionClient::new("pw".to_owned());
    c.start_logout();
    let script = vec![fatal(), reply("tok", "never reached")];
    let (waits, handshakes) = c.run_script(&script);
    assert_eq!(waits, 0);
    assert_eq!(handshakes, 0);
    assert_eq!(c.phase, Phase::Failed(SessionError::ProtocolViolation));
}

#[test]
fn session_loss_recovers_with_one_silent_rehandshake() {
    // The first devices reply is an HTML page; the machine re-runs the full
    // handshake and retries, and the caller sees only the valid data.
    let mut c = SessionClient::new("pw".to_owned());
    c.token = "tok-0".to_owned();
    c.start_devices();
    let script = vec![
        reply("tok-1", "<!doctype html>\n<html>login page</html>"),
        reply("tok-2", ""),
        reply("tok-3", "successful;user"),
        reply("tok-4", "<LanUserTable/>"),
    ];
    let (waits, handshakes) = c.run_script(&script);
    assert_eq!(waits, 0);
    assert_eq!(handshakes, 1);
    assert_eq!(c.phase, Phase::Done("<LanUserTable/>".to_owned()));
    assert_eq!(c.token, "tok-4");
}

#[test]
fn rejected_credentials_fail_distinctly_with_zero_retries() {
    // Handshake from scratch: login page, then the rejection marker.
    let mut c = SessionClient::new("wrong".to_owned());
    let script = vec![
        reply("tok-1", ""),
        reply("tok-2", "idloginincorrect"),
        reply("tok-3", "never reached"),
    ];
    let (waits, handshakes) = c.run_script(&script);
    assert_eq!(waits, 0);
    assert_eq!(handshakes, 0);
    assert_eq!(c.phase, Phase::Failed(SessionError::AuthenticationRejected));
}

#[test]
fn unexpected_login_body_is_a_protocol_violation() {
    let mut c = SessionClient::new("pw".to_owned());
    let script = vec![reply("tok-1", ""), reply("tok-2", "something else")];
    let (waits, _) = c.run_script(&script);
    assert_eq!(waits, 0);
    assert_eq!(c.phase, Phase::Failed(SessionError::ProtocolViolation));
}

#[test]
fn successful_handshake_finishes_with_fresh_token() {
    let mut c = SessionClient::new("pw".to_owned());
    let script = vec![reply("tok-1", ""), reply("tok-2", "successful;admin")];
    let (waits, handshakes) = c.run_script(&script);
    assert_eq!(waits, 0);
    assert_eq!(handshakes, 0);
    assert_eq!(c.phase, Phase::Done("successful;admin".to_owned()));
    assert_eq!(c.token, "tok-2");
}

#[test]
fn bad_status_is_a_protocol_violation() {
    let mut c = SessionClient::new("pw".to_owned());
    c.start_devices();
    let script = vec![Ok(HttpReply {
        status: 500,
        session_cookie: Some("tok".to_owned()),
        body: "oops".to_owned(),
    })];
    c.run_script(&script);
    assert_eq!(c.phase, Phase::Failed(SessionError::ProtocolViolation));
}

#[test]
fn missing_session_cookie_is_a_protocol_violation() {
    let mut c = SessionClient::new("pw".to_owned());
    c.start_devices();
    let script = vec![Ok(HttpReply {
        status: 200,
        session_cookie: None,
        body: "<LanUserTable/>".to_owned(),
    })];
    c.run_script(&script);
    assert_eq!(c.phase, Phase::Failed(SessionError::ProtocolViolation));
}

#[test]
fn pending_requests_follow_the_phases() {
    let mut c = SessionClient::new("secret".to_owned());
    // A fresh client starts with the login-page fetch.
    assert_eq!(c.pending_request(), Some(RpcRequest::FetchLoginPage));

    // After the login page, the login RPC with the credentials.
    let mut c2 = SessionClient::new("secret".to_owned());
    c2.step(reply("tok-1", ""));
    match c2.pending_request() {
        Some(RpcRequest::Setter { token, command, params }) => {
            assert_eq!(token, "tok-1");
            assert_eq!(command, CMD_LOGIN);
            assert_eq!(
                params,
                vec![
                    ("Username".to_owned(), "NULL".to_owned()),
                    ("Password".to_owned(), "secret".to_owned()),
                ]
            );
        }
        other => panic!("unexpected pending request {other:?}"),
    }

    // A devices poll submits the token and the devices command.
    c.token = "tok-5".to_owned();
    c.start_devices();
    assert_eq!(
        c.pending_request(),
        Some(RpcRequest::Getter { token: "tok-5".to_owned(), command: CMD_DEVICES })
    );

    // Logout is a set command with no parameters.
    c.start_logout();
    match c.pending_request() {
        Some(RpcRequest::Setter { token, command, params }) => {
            assert_eq!(token, "tok-5");
            assert_eq!(command, CMD_LOGOUT);
            assert!(params.is_empty());
        }
        other => panic!("unexpected pending request {other:?}"),
    }

    // A finished operation asks for nothing.
    let mut done = SessionClient::new("pw".to_owned());
    done.start_logout();
    done.run_script(&vec![reply("tok", "OK")]);
    assert_eq!(done.pending_request(), None);
}

#[test]
fn transient_classification_reads_the_flags() {
    let mut f = TransportFault {
        connect_error: false,
        response_timeout: false,
        incomplete_message: false,
        request_timeout: false,
    };
    assert!(!is_transient(&f));
    f.request_timeout = true;
    assert!(is_transient(&f));
    f = TransportFault {
        connect_error: false,
        response_timeout: false,
        incomplete_message: true,
        request_timeout: false,
    };
    assert!(is_transient(&f));
}
