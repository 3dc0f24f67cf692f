//! The session-carrying transport: request URLs, the session token, and the
//! retry-once-after-reauthentication policy as a state machine. The caller
//! performs each action (send, reauthenticate) and feeds back what happened.
use crate::text::{chars_of, concat2, find_exec, find_from, lemma_find_from_found, occurs_at};
use vstd::prelude::*;
use vstd::string::*;

verus! {

/// Why a dispatch did not succeed.
#[derive(Clone, Copy, Debug, PartialEq, Eq, Structural)]
pub enum DispatchError {
    /// Reauthentication failed, or the backend refused the fresh session too.
    AuthenticationFailed,
    /// The request never got a response.
    Transport,
    /// The backend answered with another non-success status.
    Rejected(u16),
}

/// What a response says, by its HTTP status.
#[derive(Clone, Copy, Debug, PartialEq, Eq, Structural)]
pub enum Response {
    Success,
    Unauthorized,
    Failed(u16),
}

pub open spec fn response_of(status: u16) -> Response {
    if 200 <= status < 300 {
        Response::Success
    } else if status == 401 {
        Response::Unauthorized
    } else {
        Response::Failed(status)
    }
}

impl Response {
    pub fn from_status(status: u16) -> (r: Response)
        ensures
            r == response_of(status),
    {
        if 200 <= status && status < 300 {
            Response::Success
        } else if status == 401 {
            Response::Unauthorized
        } else {
            Response::Failed(status)
        }
    }
}

/// A session counts as valid when a probe request succeeds.
pub fn session_is_valid(probe: Option<Response>) -> (r: bool)
    ensures
        r == (probe == Some(Response::Success)),
{
    match probe {
        Some(Response::Success) => true,
        _ => false,
    }
}

/// What the caller reports back to a dispatch.
#[derive(Clone, Copy, Debug, PartialEq, Eq, Structural)]
pub enum DispatchEvent {
    Responded(Response),
    TransportFailed,
    Reauthenticated,
    ReauthenticationFailed,
}

/// What a dispatch asks the caller to do next.
#[derive(Clone, Copy, Debug, PartialEq, Eq, Structural)]
pub enum DispatchAction {
    /// Send the request with the current session token.
    Send,
    /// Obtain a fresh session token.
    Reauthenticate,
    Succeed,
    Fail(DispatchError),
    /// The event did not fit the dispatch's state; nothing to do.
    Wait,
}

/// Where a dispatch stands.
#[derive(Clone, Copy, Debug, PartialEq, Eq, Structural)]
pub enum DispatchPhase {
    /// A request is out; `retried` once it is the attempt after
    /// reauthentication.
    Sending { retried: bool },
    Reauthenticating,
    Succeeded,
    Failed(DispatchError),
}

/// The transition of a dispatch on one event.
pub open spec fn dispatch_step(p: DispatchPhase, e: DispatchEvent) -> (DispatchPhase, DispatchAction) {
    match (p, e) {
        (DispatchPhase::Sending { .. }, DispatchEvent::Responded(Response::Success)) => (
            DispatchPhase::Succeeded,
            DispatchAction::Succeed,
        ),
        (DispatchPhase::Sending { retried }, DispatchEvent::Responded(Response::Unauthorized)) => {
            if retried {
                (
                    DispatchPhase::Failed(DispatchError::AuthenticationFailed),
                    DispatchAction::Fail(DispatchError::AuthenticationFailed),
                )
            } else {
                (DispatchPhase::Reauthenticating, DispatchAction::Reauthenticate)
            }
        },
        (DispatchPhase::Sending { .. }, DispatchEvent::Responded(Response::Failed(s))) => (
            DispatchPhase::Failed(DispatchError::Rejected(s)),
            DispatchAction::Fail(DispatchError::Rejected(s)),
        ),
        (DispatchPhase::Sending { .. }, DispatchEvent::TransportFailed) => (
            DispatchPhase::Failed(DispatchError::Transport),
            DispatchAction::Fail(DispatchError::Transport),
        ),
        (DispatchPhase::Reauthenticating, DispatchEvent::Reauthenticated) => (
            DispatchPhase::Sending { retried: true },
            DispatchAction::Send,
        ),
        (DispatchPhase::Reauthenticating, DispatchEvent::ReauthenticationFailed) => (
            DispatchPhase::Failed(DispatchError::AuthenticationFailed),
            DispatchAction::Fail(DispatchError::AuthenticationFailed),
        ),
        _ => (p, DispatchAction::Wait),
    }
}

impl DispatchPhase {
    /// A new dispatch: its first request goes out at once.
    pub open spec fn initial() -> DispatchPhase {
        DispatchPhase::Sending { retried: false }
    }

    pub fn start() -> (r: (DispatchPhase, DispatchAction))
        ensures
            r == (DispatchPhase::initial(), DispatchAction::Send),
    {
        (DispatchPhase::Sending { retried: false }, DispatchAction::Send)
    }

    pub fn step(self, event: DispatchEvent) -> (r: (DispatchPhase, DispatchAction))
        ensures
            r == dispatch_step(self, event),
    {
        match (self, event) {
            (DispatchPhase::Sending { .. }, DispatchEvent::Responded(Response::Success)) => (
                DispatchPhase::Succeeded,
                DispatchAction::Succeed,
            ),
            (
                DispatchPhase::Sending { retried },
                DispatchEvent::Responded(Response::Unauthorized),
            ) => {
                if retried {
                    (
                        DispatchPhase::Failed(DispatchError::AuthenticationFailed),
                        DispatchAction::Fail(DispatchError::AuthenticationFailed),
                    )
                } else {
                    (DispatchPhase::Reauthenticating, DispatchAction::Reauthenticate)
                }
            },
            (DispatchPhase::Sending { .. }, DispatchEvent::Responded(Response::Failed(s))) => (
                DispatchPhase::Failed(DispatchError::Rejected(s)),
                DispatchAction::Fail(DispatchError::Rejected(s)),
            ),
            (DispatchPhase::Sending { .. }, DispatchEvent::TransportFailed) => (
                DispatchPhase::Failed(DispatchError::Transport),
                DispatchAction::Fail(DispatchError::Transport),
            ),
            (DispatchPhase::Reauthenticating, DispatchEvent::Reauthenticated) => (
                DispatchPhase::Sending { retried: true },
                DispatchAction::Send,
            ),
            (DispatchPhase::Reauthenticating, DispatchEvent::ReauthenticationFailed) => (
                DispatchPhase::Failed(DispatchError::AuthenticationFailed),
                DispatchAction::Fail(DispatchError::AuthenticationFailed),
            ),
            _ => (self, DispatchAction::Wait),
        }
    }

    /// The dispatch has come to an end.
    pub fn is_finished(&self) -> (r: bool)
        ensures
            r == (self is Succeeded || self is Failed),
    {
        match self {
            DispatchPhase::Succeeded | DispatchPhase::Failed(_) => true,
            _ => false,
        }
    }
}

/// The actions a dispatch asks for when fed `events` from phase `p`.
pub open spec fn dispatch_actions(p: DispatchPhase, events: Seq<DispatchEvent>) -> Seq<
    DispatchAction,
>
    decreases events.len(),
{
    if events.len() == 0 {
        Seq::empty()
    } else {
        let (q, a) = dispatch_step(p, events[0]);
        seq![a] + dispatch_actions(q, events.drop_first())
    }
}

/// The phase a dispatch reaches when fed `events` from phase `p`.
pub open spec fn dispatch_phase_after(p: DispatchPhase, events: Seq<DispatchEvent>) -> DispatchPhase
    decreases events.len(),
{
    if events.len() == 0 {
        p
    } else {
        dispatch_phase_after(dispatch_step(p, events[0]).0, events.drop_first())
    }
}

/// How many of `acts` are `a`.
pub open spec fn count_action(acts: Seq<DispatchAction>, a: DispatchAction) -> nat
    decreases acts.len(),
{
    if acts.len() == 0 {
        0
    } else {
        (if acts[0] == a {
            1nat
        } else {
            0nat
        }) + count_action(acts.drop_first(), a)
    }
}

pub open spec fn reauth_budget(p: DispatchPhase) -> nat {
    if p == (DispatchPhase::Sending { retried: false }) {
        1
    } else {
        0
    }
}

pub open spec fn resend_budget(p: DispatchPhase) -> nat {
    match p {
        DispatchPhase::Sending { retried } => if retried {
            0
        } else {
            1
        },
        DispatchPhase::Reauthenticating => 1,
        _ => 0,
    }
}

proof fn lemma_count_concat(x: Seq<DispatchAction>, y: Seq<DispatchAction>, a: DispatchAction)
    ensures
        count_action(x + y, a) == count_action(x, a) + count_action(y, a),
    decreases x.len(),
{
    if x.len() > 0 {
        assert((x + y).drop_first() =~= x.drop_first() + y);
        lemma_count_concat(x.drop_first(), y, a);
    } else {
        assert(x + y =~= y);
    }
}

proof fn lemma_count_single(a: DispatchAction, x: DispatchAction)
    ensures
        count_action(seq![a], x) == if a == x {
            1nat
        } else {
            0nat
        },
{
    assert(seq![a].drop_first() =~= Seq::<DispatchAction>::empty());
    assert(count_action(Seq::<DispatchAction>::empty(), x) == 0);
}

/// Counting the actions of a non-empty run: the first one, then the rest.
proof fn lemma_count_run(p: DispatchPhase, events: Seq<DispatchEvent>, x: DispatchAction)
    requires
        events.len() > 0,
    ensures
        count_action(dispatch_actions(p, events), x) == count_action(
            seq![dispatch_step(p, events[0]).1],
            x,
        ) + count_action(dispatch_actions(dispatch_step(p, events[0]).0, events.drop_first()), x),
{
    let (q, a) = dispatch_step(p, events[0]);
    assert(dispatch_actions(p, events) == seq![a] + dispatch_actions(q, events.drop_first()));
    lemma_count_concat(seq![a], dispatch_actions(q, events.drop_first()), x);
}

proof fn lemma_budgets(p: DispatchPhase, events: Seq<DispatchEvent>)
    ensures
        count_action(dispatch_actions(p, events), DispatchAction::Reauthenticate) <= reauth_budget(
            p,
        ),
        count_action(dispatch_actions(p, events), DispatchAction::Send) <= resend_budget(p),
    decreases events.len(),
{
    if events.len() > 0 {
        let (q, a) = dispatch_step(p, events[0]);
        lemma_budgets(q, events.drop_first());
        lemma_count_run(p, events, DispatchAction::Reauthenticate);
        lemma_count_run(p, events, DispatchAction::Send);
        lemma_count_single(a, DispatchAction::Reauthenticate);
        lemma_count_single(a, DispatchAction::Send);
    } else {
        assert(dispatch_actions(p, events) =~= Seq::<DispatchAction>::empty());
        assert(count_action(Seq::<DispatchAction>::empty(), DispatchAction::Send) == 0);
        assert(count_action(Seq::<DispatchAction>::empty(), DispatchAction::Reauthenticate) == 0);
    }
}

/// Whatever the caller reports, one dispatch asks for at most one
/// reauthentication and at most one request beyond the first.
pub proof fn lemma_dispatch_retries_at_most_once(events: Seq<DispatchEvent>)
    ensures
        count_action(
            dispatch_actions(DispatchPhase::initial(), events),
            DispatchAction::Reauthenticate,
        ) <= 1,
        count_action(dispatch_actions(DispatchPhase::initial(), events), DispatchAction::Send)
            <= 1,
{
    lemma_budgets(DispatchPhase::initial(), events);
}

proof fn lemma_finished_stays(p: DispatchPhase, events: Seq<DispatchEvent>)
    requires
        p is Succeeded || p is Failed,
    ensures
        dispatch_phase_after(p, events) == p,
        count_action(dispatch_actions(p, events), DispatchAction::Reauthenticate) == 0,
        count_action(dispatch_actions(p, events), DispatchAction::Send) == 0,
    decreases events.len(),
{
    if events.len() > 0 {
        lemma_finished_stays(p, events.drop_first());
        lemma_count_run(p, events, DispatchAction::Reauthenticate);
        lemma_count_run(p, events, DispatchAction::Send);
        lemma_count_single(DispatchAction::Wait, DispatchAction::Reauthenticate);
        lemma_count_single(DispatchAction::Wait, DispatchAction::Send);
    } else {
        assert(dispatch_actions(p, events) =~= Seq::<DispatchAction>::empty());
        assert(count_action(Seq::<DispatchAction>::empty(), DispatchAction::Send) == 0);
        assert(count_action(Seq::<DispatchAction>::empty(), DispatchAction::Reauthenticate) == 0);
    }
}

/// One unauthorized response, a successful reauthentication and then a
/// successful response: the dispatch succeeds, whatever comes after, having
/// asked for exactly one reauthentication.
pub proof fn lemma_unauthorized_once_then_success(rest: Seq<DispatchEvent>)
    ensures
        ({
            let events = seq![
                DispatchEvent::Responded(Response::Unauthorized),
                DispatchEvent::Reauthenticated,
                DispatchEvent::Responded(Response::Success),
            ] + rest;
            &&& dispatch_phase_after(DispatchPhase::initial(), events) == DispatchPhase::Succeeded
            &&& count_action(
                dispatch_actions(DispatchPhase::initial(), events),
                DispatchAction::Reauthenticate,
            ) == 1
        }),
{
    let e0 = DispatchEvent::Responded(Response::Unauthorized);
    let e1 = DispatchEvent::Reauthenticated;
    let e2 = DispatchEvent::Responded(Response::Success);
    let events = seq![e0, e1, e2] + rest;
    let q_start = DispatchPhase::initial();
    let q_reauth = DispatchPhase::Reauthenticating;
    let q_retry = DispatchPhase::Sending { retried: true };
    let q_done = DispatchPhase::Succeeded;
    assert(events.drop_first() =~= seq![e1, e2] + rest);
    assert(events.drop_first().drop_first() =~= seq![e2] + rest);
    assert(events.drop_first().drop_first().drop_first() =~= rest);
    lemma_finished_stays(q_done, rest);
    let a3 = dispatch_actions(q_done, rest);
    let a2 = dispatch_actions(q_retry, seq![e2] + rest);
    let a1 = dispatch_actions(q_reauth, seq![e1, e2] + rest);
    let a0 = dispatch_actions(q_start, events);
    assert(a2 == seq![DispatchAction::Succeed] + a3);
    assert(a1 == seq![DispatchAction::Send] + a2);
    assert(a0 == seq![DispatchAction::Reauthenticate] + a1);
    let r = DispatchAction::Reauthenticate;
    lemma_count_concat(seq![DispatchAction::Succeed], a3, r);
    lemma_count_concat(seq![DispatchAction::Send], a2, r);
    lemma_count_concat(seq![r], a1, r);
    lemma_count_single(DispatchAction::Succeed, r);
    lemma_count_single(DispatchAction::Send, r);
    lemma_count_single(r, r);
    assert(dispatch_phase_after(q_start, events) == dispatch_phase_after(q_reauth, seq![e1, e2] + rest));
    assert(dispatch_phase_after(q_reauth, seq![e1, e2] + rest) == dispatch_phase_after(q_retry, seq![e2] + rest));
    assert(dispatch_phase_after(q_retry, seq![e2] + rest) == dispatch_phase_after(q_done, rest));
}

/// Two unauthorized responses around a successful reauthentication: the
/// dispatch fails with `AuthenticationFailed`, whatever comes after, and
/// never sends a third request.
pub proof fn lemma_unauthorized_twice_fails(rest: Seq<DispatchEvent>)
    ensures
        ({
            let events = seq![
                DispatchEvent::Responded(Response::Unauthorized),
                DispatchEvent::Reauthenticated,
                DispatchEvent::Responded(Response::Unauthorized),
            ] + rest;
            &&& dispatch_phase_after(DispatchPhase::initial(), events) == DispatchPhase::Failed(
                DispatchError::AuthenticationFailed,
            )
            &&& count_action(dispatch_actions(DispatchPhase::initial(), events), DispatchAction::Send)
                == 1
        }),
{
    let e0 = DispatchEvent::Responded(Response::Unauthorized);
    let e1 = DispatchEvent::Reauthenticated;
    let events = seq![e0, e1, e0] + rest;
    let q_start = DispatchPhase::initial();
    let q_reauth = DispatchPhase::Reauthenticating;
    let q_retry = DispatchPhase::Sending { retried: true };
    let q_done = DispatchPhase::Failed(DispatchError::AuthenticationFailed);
    let f = DispatchAction::Fail(DispatchError::AuthenticationFailed);
    assert(events.drop_first() =~= seq![e1, e0] + rest);
    assert(events.drop_first().drop_first() =~= seq![e0] + rest);
    assert(events.drop_first().drop_first().drop_first() =~= rest);
    lemma_finished_stays(q_done, rest);
    let a3 = dispatch_actions(q_done, rest);
    let a2 = dispatch_actions(q_retry, seq![e0] + rest);
    let a1 = dispatch_actions(q_reauth, seq![e1, e0] + rest);
    let a0 = dispatch_actions(q_start, events);
    assert(a2 == seq![f] + a3);
    assert(a1 == seq![DispatchAction::Send] + a2);
    assert(a0 == seq![DispatchAction::Reauthenticate] + a1);
    let snd = DispatchAction::Send;
    lemma_count_concat(seq![f], a3, snd);
    lemma_count_concat(seq![snd], a2, snd);
    lemma_count_concat(seq![DispatchAction::Reauthenticate], a1, snd);
    lemma_count_single(f, snd);
    lemma_count_single(snd, snd);
    lemma_count_single(DispatchAction::Reauthenticate, snd);
    assert(dispatch_phase_after(q_start, events) == dispatch_phase_after(q_reauth, seq![e1, e0] + rest));
    assert(dispatch_phase_after(q_reauth, seq![e1, e0] + rest) == dispatch_phase_after(q_retry, seq![e0] + rest));
    assert(dispatch_phase_after(q_retry, seq![e0] + rest) == dispatch_phase_after(q_done, rest));
}

} // verus!
