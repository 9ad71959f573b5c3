//! Laws of the session machine: the retry policy, silent session-loss
//! recovery, and the non-retried authentication rejection.

use vstd::prelude::*;

use crate::session::{
    html_page_prefix, login_failed_marker, login_success_prefix, phase_terminal, run_steps,
    spec_is_transient, spec_step, HttpReply, Phase, Resume, SessionClient, SessionError,
    TransportEvent, TransportFault,
};

verus! {

/// The event is a transient transport fault.
pub open spec fn transient_err(e: TransportEvent) -> bool {
    match e {
        Result::Err(f) => spec_is_transient(f),
        Result::Ok(_) => false,
    }
}

/// The event is a reply that carries a fresh token: success status and a
/// session cookie.
pub open spec fn good_reply(e: TransportEvent) -> bool {
    match e {
        Result::Ok(r) => r.status == 200 && r.session_cookie is Some,
        Result::Err(_) => false,
    }
}

/// The reply carried by an event.
pub open spec fn reply_of(e: TransportEvent) -> HttpReply
    recommends
        e is Ok,
{
    match e {
        Result::Ok(r) => r,
        Result::Err(_) => vstd::pervasive::arbitrary(),
    }
}

/// The token carried by a reply's session cookie.
pub open spec fn cookie_of(r: HttpReply) -> String
    recommends
        r.session_cookie is Some,
{
    match r.session_cookie {
        Option::Some(t) => t,
        Option::None => vstd::pervasive::arbitrary(),
    }
}

/// Retry policy, first half: an operation in flight (a set, or a get whose
/// answer is not a session-loss page) whose transport fails with a
/// transient fault `n` times and then replies successfully returns the
/// success body, having owed exactly `n` throttle waits and no re-handshake;
/// the token is replaced by the successful reply's cookie.
pub proof fn lemma_retry_transient_then_success(
    s: SessionClient,
    script: Seq<TransportEvent>,
    n: int,
)
    requires
        s.phase is Setting || s.phase is Fetching,
        0 <= n < script.len(),
        forall|k: int| 0 <= k < n ==> transient_err(#[trigger] script[k]),
        good_reply(script[n]),
        s.phase is Fetching ==> !html_page_prefix().is_prefix_of(reply_of(script[n]).body@),
    ensures
        ({
            let (sf, ws, hs) = run_steps(s, script);
            &&& sf.phase == Phase::Done(reply_of(script[n]).body)
            &&& sf.token == cookie_of(reply_of(script[n]))
            &&& sf.password == s.password
            &&& ws == n
            &&& hs == 0
        }),
    decreases n,
{
    if n == 0 {
        let (s2, w, h) = spec_step(s, script[0]);
        assert(s2.phase == Phase::Done(reply_of(script[0]).body));
        let (sf, ws, hs) = run_steps(s2, script.drop_first());
        assert(sf == s2 && ws == 0 && hs == 0);
    } else {
        assert(transient_err(script[0]));
        let (s2, w, h) = spec_step(s, script[0]);
        assert(s2 == s && w && !h);
        let tail = script.drop_first();
        assert forall|k: int| 0 <= k < n - 1 implies transient_err(#[trigger] tail[k]) by {
            assert(tail[k] == script[k + 1]);
        }
        assert(tail[n - 1] == script[n]);
        lemma_retry_transient_then_success(s, tail, n - 1);
    }
}

/// Retry policy, second half: a non-transient transport fault fails the
/// operation immediately — no waits, no re-handshake, and nothing further
/// of the event stream is consumed (the machine is terminal).
pub proof fn lemma_nontransient_fails_immediately(s: SessionClient, script: Seq<TransportEvent>)
    requires
        !phase_terminal(s.phase),
        script.len() > 0,
        ({
            match script[0] {
                Result::Err(f) => !spec_is_transient(f),
                Result::Ok(_) => false,
            }
        }),
    ensures
        ({
            let (sf, ws, hs) = run_steps(s, script);
            &&& sf.phase == Phase::Failed(SessionError::ProtocolViolation)
            &&& sf.token == s.token
            &&& ws == 0
            &&& hs == 0
        }),
{
    let (s2, w, h) = spec_step(s, script[0]);
    assert(s2.phase == Phase::Failed(SessionError::ProtocolViolation));
    let (sf, ws, hs) = run_steps(s2, script.drop_first());
    assert(sf == s2 && ws == 0 && hs == 0);
}

/// Session-loss recovery: when a get request is answered with an HTML page,
/// the machine performs exactly one silent re-handshake (login page fetch,
/// then a successful login) and then retries the original request; a valid
/// reply then finishes the operation with that data and no error, and with
/// no throttle wait.
pub proof fn lemma_session_loss_recovery(
    s: SessionClient,
    cmd: usize,
    r1: HttpReply,
    r2: HttpReply,
    r3: HttpReply,
    r4: HttpReply,
)
    requires
        s.phase == Phase::Fetching(cmd),
        r1.status == 200 && r1.session_cookie is Some,
        r2.status == 200 && r2.session_cookie is Some,
        r3.status == 200 && r3.session_cookie is Some,
        r4.status == 200 && r4.session_cookie is Some,
        html_page_prefix().is_prefix_of(r1.body@),
        login_success_prefix().is_prefix_of(r3.body@),
        !html_page_prefix().is_prefix_of(r4.body@),
    ensures
        ({
            let script = seq![
                Result::<HttpReply, TransportFault>::Ok(r1),
                Result::<HttpReply, TransportFault>::Ok(r2),
                Result::<HttpReply, TransportFault>::Ok(r3),
                Result::<HttpReply, TransportFault>::Ok(r4),
            ];
            let (sf, ws, hs) = run_steps(s, script);
            &&& sf.phase == Phase::Done(r4.body)
            &&& sf.token == cookie_of(r4)
            &&& ws == 0
            &&& hs == 1
        }),
{
    // A successful login body cannot be the rejection marker: the two texts
    // start with different characters.
    assert(r3.body@ != login_failed_marker()) by {
        reveal_strlit("idloginincorrect");
        reveal_strlit("successful;");
        if r3.body@ == login_failed_marker() {
            assert(login_failed_marker().subrange(0, login_success_prefix().len() as int)[0]
                == 'i');
            assert(login_success_prefix()[0] == 's');
        }
    }
    let script = seq![
        Result::<HttpReply, TransportFault>::Ok(r1),
        Result::<HttpReply, TransportFault>::Ok(r2),
        Result::<HttpReply, TransportFault>::Ok(r3),
        Result::<HttpReply, TransportFault>::Ok(r4),
    ];
    let (s1, w1, h1) = spec_step(s, script[0]);
    assert(s1.phase == Phase::HandshakeIndex(Resume::Refetch(cmd)) && !w1 && h1);
    let t1 = script.drop_first();
    assert(t1 =~= seq![
        Result::<HttpReply, TransportFault>::Ok(r2),
        Result::<HttpReply, TransportFault>::Ok(r3),
        Result::<HttpReply, TransportFault>::Ok(r4),
    ]);
    let (s2, w2, h2) = spec_step(s1, t1[0]);
    assert(s2.phase == Phase::HandshakeLogin(Resume::Refetch(cmd)) && !w2 && !h2);
    let t2 = t1.drop_first();
    assert(t2 =~= seq![
        Result::<HttpReply, TransportFault>::Ok(r3),
        Result::<HttpReply, TransportFault>::Ok(r4),
    ]);
    let (s3, w3, h3) = spec_step(s2, t2[0]);
    assert(s3.phase == Phase::Fetching(cmd) && !w3 && !h3);
    let t3 = t2.drop_first();
    assert(t3 =~= seq![Result::<HttpReply, TransportFault>::Ok(r4)]);
    let (s4, w4, h4) = spec_step(s3, t3[0]);
    assert(s4.phase == Phase::Done(r4.body) && !w4 && !h4);
    let t4 = t3.drop_first();
    assert(t4 =~= Seq::<TransportEvent>::empty());
    assert(run_steps(s4, t4) == (s4, 0nat, 0nat));
    assert(run_steps(s3, t3) == (s4, 0nat, 0nat));
    assert(run_steps(s2, t2) == (s4, 0nat, 0nat));
    assert(run_steps(s1, t1) == (s4, 0nat, 0nat));
    assert(run_steps(s, script) == (s4, 0nat, 1nat));
}

/// A login reply whose body is the rejection marker fails the operation at
/// once with the distinct authentication error: zero retries, zero waits,
/// whatever events may still follow.
pub proof fn lemma_login_rejected(
    s: SessionClient,
    r: Resume,
    reply: HttpReply,
    rest: Seq<TransportEvent>,
)
    requires
        s.phase == Phase::HandshakeLogin(r),
        reply.status == 200,
        reply.session_cookie is Some,
        reply.body@ == login_failed_marker(),
    ensures
        ({
            let script = seq![Result::<HttpReply, TransportFault>::Ok(reply)] + rest;
            let (sf, ws, hs) = run_steps(s, script);
            &&& sf.phase == Phase::Failed(SessionError::AuthenticationRejected)
            &&& ws == 0
            &&& hs == 0
        }),
{
    let script = seq![Result::<HttpReply, TransportFault>::Ok(reply)] + rest;
    assert(script[0] == Result::<HttpReply, TransportFault>::Ok(reply));
    let (s1, w1, h1) = spec_step(s, script[0]);
    assert(s1.phase == Phase::Failed(SessionError::AuthenticationRejected) && !w1 && !h1);
    assert(script.drop_first() =~= rest);
    let (sf, ws, hs) = run_steps(s1, script.drop_first());
    assert(sf == s1 && ws == 0 && hs == 0);
}

} // verus!
