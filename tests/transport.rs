use knx_homekit_bridge::session::{
    browser_page_url, control_url, extract_session_id, login_url, page_url, LoginAction, LoginError, LoginEvent,
    LoginPhase, Session, SessionIdError,
};
use knx_homekit_bridge::transport::{
    session_is_valid, DispatchAction, DispatchError, DispatchEvent, DispatchPhase, Response,
};

fn run(events: &[DispatchEvent]) -> (DispatchPhase, Vec<DispatchAction>) {
    let (mut phase, first) = DispatchPhase::start();
    let mut actions = vec![first];
    for e in events {
        let (next, a) = phase.step(*e);
        phase = next;
        actions.push(a);
    }
    (phase, actions)
}

fn count(actions: &[DispatchAction], a: DispatchAction) -> usize {
    actions.iter().filter(|x| **x == a).count()
}

#[test]
fn status_classification() {
    assert_eq!(Response::from_status(200), Response::Success);
    assert_eq!(Response::from_status(204), Response::Success);
    assert_eq!(Response::from_status(401), Response::Unauthorized);
    assert_eq!(Response::from_status(403), Response::Failed(403));
    assert_eq!(Response::from_status(500), Response::Failed(500));
    assert!(session_is_valid(Some(Response::Success)));
    assert!(!session_is_valid(Some(Response::Unauthorized)));
    assert!(!session_is_valid(None));
}

#[test]
fn dispatch_succeeds_first_time() {
    let (phase, actions) = run(&[DispatchEvent::Responded(Response::Success)]);
    assert_eq!(phase, DispatchPhase::Succeeded);
    assert_eq!(actions, vec![DispatchAction::Send, DispatchAction::Succeed]);
}

#[test]
fn unauthorized_once_then_success_reauthenticates_once() {
    let (phase, actions) = run(&[
        DispatchEvent::Responded(Response::Unauthorized),
        DispatchEvent::Reauthenticated,
        DispatchEvent::Responded(Response::Success),
    ]);
    assert_eq!(phase, DispatchPhase::Succeeded);
    assert_eq!(count(&actions, DispatchAction::Reauthenticate), 1);
    assert_eq!(count(&actions, DispatchAction::Send), 2);
}

#[test]
fn unauthorized_twice_fails_without_third_attempt() {
    let (phase, actions) = run(&[
        DispatchEvent::Responded(Response::Unauthorized),
        DispatchEvent::Reauthenticated,
        DispatchEvent::Responded(Response::Unauthorized),
        DispatchEvent::Reauthenticated,
        DispatchEvent::Responded(Response::Success),
    ]);
    assert_eq!(phase, DispatchPhase::Failed(DispatchError::AuthenticationFailed));
    assert_eq!(count(&actions, DispatchAction::Send), 2);
    assert_eq!(count(&actions, DispatchAction::Reauthenticate), 1);
    assert_eq!(actions[3], DispatchAction::Fail(DispatchError::AuthenticationFailed));
}

#[test]
fn reauthentication_failure_is_fatal() {
    let (phase, actions) = run(&[
        DispatchEvent::Responded(Response::Unauthorized),
        DispatchEvent::ReauthenticationFailed,
    ]);
    assert_eq!(phase, DispatchPhase::Failed(DispatchError::AuthenticationFailed));
    assert_eq!(actions.last(), Some(&DispatchAction::Fail(DispatchError::AuthenticationFailed)));
}

#[test]
fn transport_and_status_errors_are_not_retried() {
    let (phase, _) = run(&[DispatchEvent::TransportFailed]);
    assert_eq!(phase, DispatchPhase::Failed(DispatchError::Transport));
    let (phase, actions) = run(&[DispatchEvent::Responded(Response::Failed(500))]);
    assert_eq!(phase, DispatchPhase::Failed(DispatchError::Rejected(500)));
    assert_eq!(count(&actions, DispatchAction::Reauthenticate), 0);
    assert!(phase.is_finished());
}

#[test]
fn stray_events_are_ignored() {
    let (phase, actions) = run(&[DispatchEvent::Reauthenticated]);
    assert_eq!(phase, DispatchPhase::Sending { retried: false });
    assert_eq!(actions[1], DispatchAction::Wait);
    assert!(!phase.is_finished());
}

#[test]
fn session_replacement_and_generations() {
    let mut s = Session::new();
    assert_eq!(s.token, "");
    assert!(s.needs_refresh(0));
    s.replace("abc".to_string());
    assert_eq!(s.token, "abc");
    assert_eq!(s.generation, 1);
    assert!(!s.needs_refresh(0));
    assert!(s.needs_refresh(1));
    s.generation = u64::MAX;
    s.replace("def".to_string());
    assert_eq!(s.generation, 0);
}

#[test]
fn request_urls() {
    assert_eq!(
        control_url("https://h", "3+01+00+01", "tok"),
        "https://h/visu/controlKNX?3+01+00+01&session_id=tok"
    );
    assert_eq!(page_url("https://h", "02", "tok"), "https://h/visu/index.fcgi?02&session_id=tok&lang=en");
    assert_eq!(login_url("https://h"), "https://h/visu/index.fcgi?00");
    assert_eq!(browser_page_url("https://h", "03"), "https://h/visu/index.fcgi?03");
}

#[test]
fn session_id_extraction() {
    assert_eq!(extract_session_id("https://h/visu/index.fcgi?00&session_id=abc123&lang=en").unwrap(), "abc123");
    assert_eq!(extract_session_id("https://h/x?session_id=xyz").unwrap(), "xyz");
    assert_eq!(extract_session_id("a?session_id=ab session_id=cd").unwrap(), "ab ");
    assert_eq!(extract_session_id("a?session_id=absession_id=cd").unwrap(), "ab");
    assert_eq!(extract_session_id("https://h/visu/index.fcgi?00"), Err(SessionIdError::Missing));
    assert_eq!(extract_session_id("https://h/?session_id=&lang=en"), Err(SessionIdError::Empty));
    assert_eq!(extract_session_id("session_id="), Err(SessionIdError::Empty));
}

fn token_of(a: LoginAction) -> Result<String, LoginError> {
    match a {
        LoginAction::Finish(r) => r,
        _ => panic!("login not finished"),
    }
}

#[test]
fn login_with_restored_session() {
    let (phase, action) = LoginPhase::CheckingSession.step(
        LoginEvent::SessionChecked { logged_in: true },
        "https://h/visu/index.fcgi?00&session_id=s1&lang=en",
    );
    assert_eq!(phase, LoginPhase::Finished);
    assert_eq!(token_of(action).unwrap(), "s1");
}

#[test]
fn login_through_form_and_redirect() {
    let url = "https://login.example/form";
    let (p, a) = LoginPhase::CheckingSession.step(LoginEvent::SessionChecked { logged_in: false }, url);
    assert!(matches!(a, LoginAction::WaitForLoginForm));
    let (p, a) = p.step(LoginEvent::LoginFormSearched { found: true }, url);
    assert!(matches!(a, LoginAction::FillAndSubmit));
    let (p, a) = p.step(LoginEvent::Submitted { ok: true }, url);
    assert!(matches!(a, LoginAction::PollRedirect));
    assert_eq!(p, LoginPhase::AwaitingRedirect { attempts: 0 });
    let (p, a) = p.step(LoginEvent::RedirectPolled, url);
    assert!(matches!(a, LoginAction::PollRedirect));
    let (p, a) = p.step(LoginEvent::RedirectPolled, "https://h/visu/index.fcgi?00&session_id=fresh");
    assert_eq!(p, LoginPhase::Finished);
    assert_eq!(token_of(a).unwrap(), "fresh");
}

#[test]
fn login_redirect_times_out_after_twenty_polls() {
    let url = "https://login.example/wait";
    let mut p = LoginPhase::AwaitingRedirect { attempts: 0 };
    let mut polls = 0;
    loop {
        let (next, a) = p.step(LoginEvent::RedirectPolled, url);
        polls += 1;
        p = next;
        match a {
            LoginAction::PollRedirect => continue,
            LoginAction::Finish(r) => {
                assert_eq!(r, Err(LoginError::RedirectTimeout));
                break;
            }
            _ => panic!("unexpected action"),
        }
    }
    assert_eq!(polls, 20);
}

#[test]
fn login_without_form_or_session_fails() {
    let (_, a) = LoginPhase::AwaitingLoginForm.step(LoginEvent::LoginFormSearched { found: false }, "https://h/other");
    assert_eq!(token_of(a), Err(LoginError::LoginPageNotFound));
    let (_, a) = LoginPhase::AwaitingLoginForm.step(LoginEvent::LoginFormSearched { found: false }, "https://h/?session_id=k2");
    assert_eq!(token_of(a).unwrap(), "k2");
    let (_, a) = LoginPhase::AwaitingLoginForm.step(LoginEvent::LoginFormSearched { found: false }, "https://h/?session_id=");
    assert_eq!(token_of(a), Err(LoginError::SessionIdEmpty));
    let (_, a) = LoginPhase::Submitting.step(LoginEvent::Submitted { ok: false }, "https://h/");
    assert_eq!(token_of(a), Err(LoginError::FormFailed));
    let (p, a) = LoginPhase::Finished.step(LoginEvent::RedirectPolled, "https://h/");
    assert_eq!(p, LoginPhase::Finished);
    assert!(matches!(a, LoginAction::Wait));
}
