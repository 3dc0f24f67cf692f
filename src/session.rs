//! The vendor session: the token, the URLs that carry it, how a token is read
//! out of the URL the login lands on, and the login flow's decisions.
use crate::text::{
    chars_of, concat2, find_exec, find_from, lemma_find_from_found, occurs_at, occurs_at_exec,
};
use vstd::prelude::*;
use vstd::string::*;

verus! {

/// The one session token of the bridge. `generation` counts replacements,
/// so that a dispatcher can tell whether the token it was refused with has
/// already been replaced by someone else.
pub struct Session {
    pub token: String,
    pub generation: u64,
}

impl Session {
    pub fn new() -> (r: Session)
        ensures
            r.token@ == Seq::<char>::empty(),
            r.generation == 0,
    {
        Session { token: String::new(), generation: 0 }
    }

    /// Replaces the token as a whole.
    pub fn replace(&mut self, token: String)
        ensures
            final(self).token == token,
            final(self).generation == if old(self).generation == u64::MAX {
                0
            } else {
                (old(self).generation + 1) as u64
            },
    {
        self.token = token;
        self.generation = if self.generation == u64::MAX {
            0
        } else {
            self.generation + 1
        };
    }

    /// A refusal seen under `observed` calls for a new login only if no
    /// replacement has happened since.
    pub fn needs_refresh(&self, observed: u64) -> (r: bool)
        ensures
            r == (self.generation == observed),
    {
        self.generation == observed
    }
}

/// `{base}/visu/controlKNX?{command}&session_id={token}`
pub open spec fn control_url_spec(base: Seq<char>, command: Seq<char>, token: Seq<char>) -> Seq<
    char,
> {
    base + "/visu/controlKNX?"@ + command + "&session_id="@ + token
}

/// `{base}/visu/index.fcgi?{page}&session_id={token}&lang=en`
pub open spec fn page_url_spec(base: Seq<char>, page: Seq<char>, token: Seq<char>) -> Seq<char> {
    base + "/visu/index.fcgi?"@ + page + "&session_id="@ + token + "&lang=en"@
}

/// `{base}/visu/index.fcgi?{page}`, the page as a logged-in browser opens it.
pub open spec fn browser_page_url_spec(base: Seq<char>, page: Seq<char>) -> Seq<char> {
    base + "/visu/index.fcgi?"@ + page
}

/// `{base}/visu/index.fcgi?00`
pub open spec fn login_url_spec(base: Seq<char>) -> Seq<char> {
    base + "/visu/index.fcgi?00"@
}

pub fn control_url(base: &str, command: &str, token: &str) -> (r: String)
    ensures
        r@ == control_url_spec(base@, command@, token@),
{
    let mut r = concat2(base, "/visu/controlKNX?");
    r.append(command);
    r.append("&session_id=");
    r.append(token);
    r
}

pub fn page_url(base: &str, page: &str, token: &str) -> (r: String)
    ensures
        r@ == page_url_spec(base@, page@, token@),
{
    let mut r = concat2(base, "/visu/index.fcgi?");
    r.append(page);
    r.append("&session_id=");
    r.append(token);
    r.append("&lang=en");
    r
}

pub fn browser_page_url(base: &str, page: &str) -> (r: String)
    ensures
        r@ == browser_page_url_spec(base@, page@),
{
    let mut r = concat2(base, "/visu/index.fcgi?");
    r.append(page);
    r
}

pub fn login_url(base: &str) -> (r: String)
    ensures
        r@ == login_url_spec(base@),
{
    concat2(base, "/visu/index.fcgi?00")
}

pub open spec fn session_key() -> Seq<char> {
    "session_id="@
}

/// Where the token that starts `rest` stops, looking from `j`: at an `&`,
/// at another `session_id=`, or at the end.
pub open spec fn token_end(rest: Seq<char>, j: int) -> int
    decreases rest.len() - j,
{
    if j < 0 || j >= rest.len() {
        rest.len() as int
    } else if rest[j] == '&' || occurs_at(rest, session_key(), j) {
        j
    } else {
        token_end(rest, j + 1)
    }
}

/// The text after the first `session_id=` of `url`, up to the next `&` or
/// `session_id=`; `None` when `url` holds no `session_id=`.
pub open spec fn session_id_in(url: Seq<char>) -> Option<Seq<char>> {
    let i = find_from(url, session_key(), 0);
    if i < 0 {
        None
    } else {
        let rest = url.subrange(i + session_key().len(), url.len() as int);
        Some(rest.subrange(0, token_end(rest, 0)))
    }
}

#[derive(Clone, Copy, Debug, PartialEq, Eq, Structural)]
pub enum SessionIdError {
    /// The URL holds no `session_id=`.
    Missing,
    /// The URL holds `session_id=` with nothing after it.
    Empty,
}

proof fn lemma_token_end_bounds(rest: Seq<char>, j: int)
    requires
        0 <= j <= rest.len(),
    ensures
        j <= token_end(rest, j) <= rest.len(),
    decreases rest.len() - j,
{
    if j < rest.len() && !(rest[j] == '&' || occurs_at(rest, session_key(), j)) {
        lemma_token_end_bounds(rest, j + 1);
    }
}

/// Looking at position `j` of `s` or at the same place in its suffix from
/// `start` sees the same character and the same key occurrence.
proof fn lemma_suffix_char(s: Seq<char>, start: int, j: int)
    requires
        0 <= start <= j < s.len(),
    ensures
        s.subrange(start, s.len() as int)[j - start] == s[j],
        occurs_at(s.subrange(start, s.len() as int), session_key(), j - start) == occurs_at(
            s,
            session_key(),
            j,
        ),
{
    let rest = s.subrange(start, s.len() as int);
    let k = session_key();
    if j - start + k.len() <= rest.len() {
        assert(rest.subrange(j - start, j - start + k.len()) =~= s.subrange(j, j + k.len()));
    }
}

/// Reads the session token out of a URL.
pub fn extract_session_id(url: &str) -> (r: Result<String, SessionIdError>)
    ensures
        match r {
            Ok(t) => session_id_in(url@) == Some(t@) && t@.len() > 0,
            Err(SessionIdError::Missing) => session_id_in(url@) is None,
            Err(SessionIdError::Empty) => session_id_in(url@) == Some(Seq::<char>::empty()),
        },
{
    let u = chars_of(url);
    let key = chars_of("session_id=");
    let found = find_exec(&u, &key, 0);
    match found {
        None => Err(SessionIdError::Missing),
        Some(i) => {
            proof {
                lemma_find_from_found(url@, session_key(), 0);
            }
            let ulen = u.len();
            let klen = key.len();
            assert(i + klen <= ulen);
            let start = i + klen;
            let ghost rest = url@.subrange(start as int, url@.len() as int);
            let mut j: usize = start;
            while j < u.len() && u[j] != '&' && !occurs_at_exec(&u, &key, j)
                invariant
                    u@ == url@,
                    key@ == session_key(),
                    start <= j <= u@.len(),
                    rest == url@.subrange(start as int, url@.len() as int),
                    token_end(rest, 0) == token_end(rest, j - start),
                decreases u.len() - j,
            {
                proof {
                    lemma_suffix_char(url@, start as int, j as int);
                }
                j = j + 1;
            }
            proof {
                if j < u.len() {
                    lemma_suffix_char(url@, start as int, j as int);
                }
                assert(token_end(rest, j - start) == j - start);
                lemma_token_end_bounds(rest, 0);
            }
            let token = url.substring_char(start, j);
            assert(token@ =~= rest.subrange(0, token_end(rest, 0)));
            if j == start {
                Err(SessionIdError::Empty)
            } else {
                Ok(String::from_str(token))
            }
        },
    }
}

/// Redirect polls, one second apart, before a login gives up.
pub const MAX_REDIRECT_POLLS: u8 = 20;

#[derive(Clone, Copy, Debug, PartialEq, Eq, Structural)]
pub enum LoginError {
    /// The landing URL named an empty session.
    SessionIdEmpty,
    /// Neither a login form nor a session turned up.
    LoginPageNotFound,
    /// Filling in or submitting the login form failed.
    FormFailed,
    /// The redirect after submitting never arrived.
    RedirectTimeout,
}

/// Where a login stands. It starts in `CheckingSession`, after the browser
/// has opened the start page.
#[derive(Clone, Copy, Debug, PartialEq, Eq, Structural)]
pub enum LoginPhase {
    CheckingSession,
    AwaitingLoginForm,
    Submitting,
    AwaitingRedirect { attempts: u8 },
    Finished,
}

/// What the browser reports; each comes with the page's current URL.
#[derive(Clone, Copy, Debug, PartialEq, Eq, Structural)]
pub enum LoginEvent {
    SessionChecked { logged_in: bool },
    LoginFormSearched { found: bool },
    Submitted { ok: bool },
    RedirectPolled,
}

/// What the login asks the browser to do next.
pub enum LoginAction {
    WaitForLoginForm,
    FillAndSubmit,
    PollRedirect,
    Finish(Result<String, LoginError>),
    Wait,
}

/// `LoginAction` with the token as a character sequence.
pub enum LoginStep {
    WaitForLoginForm,
    FillAndSubmit,
    PollRedirect,
    Finish(Result<Seq<char>, LoginError>),
    Wait,
}

impl View for LoginAction {
    type V = LoginStep;

    open spec fn view(&self) -> LoginStep {
        match self {
            LoginAction::WaitForLoginForm => LoginStep::WaitForLoginForm,
            LoginAction::FillAndSubmit => LoginStep::FillAndSubmit,
            LoginAction::PollRedirect => LoginStep::PollRedirect,
            LoginAction::Finish(Ok(t)) => LoginStep::Finish(Ok(t@)),
            LoginAction::Finish(Err(e)) => LoginStep::Finish(Err(*e)),
            LoginAction::Wait => LoginStep::Wait,
        }
    }
}

/// The token of a landing URL that names a session.
pub open spec fn token_from_url(url: Seq<char>) -> Result<Seq<char>, LoginError> {
    match session_id_in(url) {
        Some(t) if t.len() > 0 => Ok(t),
        _ => Err(LoginError::SessionIdEmpty),
    }
}

/// The login's transition on one event, seen at `url`.
pub open spec fn login_step(p: LoginPhase, e: LoginEvent, url: Seq<char>) -> (LoginPhase, LoginStep) {
    let has_session = session_id_in(url) is Some;
    match (p, e) {
        (LoginPhase::CheckingSession, LoginEvent::SessionChecked { logged_in }) => {
            if logged_in && has_session {
                (LoginPhase::Finished, LoginStep::Finish(token_from_url(url)))
            } else {
                (LoginPhase::AwaitingLoginForm, LoginStep::WaitForLoginForm)
            }
        },
        (LoginPhase::AwaitingLoginForm, LoginEvent::LoginFormSearched { found }) => {
            if found {
                (LoginPhase::Submitting, LoginStep::FillAndSubmit)
            } else if has_session {
                (LoginPhase::Finished, LoginStep::Finish(token_from_url(url)))
            } else {
                (LoginPhase::Finished, LoginStep::Finish(Err(LoginError::LoginPageNotFound)))
            }
        },
        (LoginPhase::Submitting, LoginEvent::Submitted { ok }) => {
            if ok {
                (LoginPhase::AwaitingRedirect { attempts: 0 }, LoginStep::PollRedirect)
            } else {
                (LoginPhase::Finished, LoginStep::Finish(Err(LoginError::FormFailed)))
            }
        },
        (LoginPhase::AwaitingRedirect { attempts }, LoginEvent::RedirectPolled) => {
            if has_session {
                (LoginPhase::Finished, LoginStep::Finish(token_from_url(url)))
            } else if attempts + 1 >= MAX_REDIRECT_POLLS {
                (LoginPhase::Finished, LoginStep::Finish(Err(LoginError::RedirectTimeout)))
            } else {
                (LoginPhase::AwaitingRedirect { attempts: (attempts + 1) as u8 }, LoginStep::PollRedirect)
            }
        },
        _ => (p, LoginStep::Wait),
    }
}

/// The token of `url` as a login result.
fn token_result(url: &str) -> (r: Result<String, LoginError>)
    ensures
        session_id_in(url@) is Some ==> match r {
            Ok(t) => token_from_url(url@) == Ok::<Seq<char>, LoginError>(t@),
            Err(e) => token_from_url(url@) == Err::<Seq<char>, LoginError>(e),
        },
{
    match extract_session_id(url) {
        Ok(t) => Ok(t),
        Err(_) => Err(LoginError::SessionIdEmpty),
    }
}

/// Whether `url` names a session at all.
fn has_session(url: &str) -> (r: bool)
    ensures
        r == (session_id_in(url@) is Some),
{
    match extract_session_id(url) {
        Err(SessionIdError::Missing) => false,
        _ => true,
    }
}

impl LoginPhase {
    pub fn step(self, event: LoginEvent, url: &str) -> (r: (LoginPhase, LoginAction))
        ensures
            r.0 == login_step(self, event, url@).0,
            r.1@ == login_step(self, event, url@).1,
    {
        match (self, event) {
            (LoginPhase::CheckingSession, LoginEvent::SessionChecked { logged_in }) => {
                if logged_in && has_session(url) {
                    (LoginPhase::Finished, LoginAction::Finish(token_result(url)))
                } else {
                    (LoginPhase::AwaitingLoginForm, LoginAction::WaitForLoginForm)
                }
            },
            (LoginPhase::AwaitingLoginForm, LoginEvent::LoginFormSearched { found }) => {
                if found {
                    (LoginPhase::Submitting, LoginAction::FillAndSubmit)
                } else if has_session(url) {
                    (LoginPhase::Finished, LoginAction::Finish(token_result(url)))
                } else {
                    (
                        LoginPhase::Finished,
                        LoginAction::Finish(Err(LoginError::LoginPageNotFound)),
                    )
                }
            },
            (LoginPhase::Submitting, LoginEvent::Submitted { ok }) => {
                if ok {
                    (LoginPhase::AwaitingRedirect { attempts: 0 }, LoginAction::PollRedirect)
                } else {
                    (LoginPhase::Finished, LoginAction::Finish(Err(LoginError::FormFailed)))
                }
            },
            (LoginPhase::AwaitingRedirect { attempts }, LoginEvent::RedirectPolled) => {
                if has_session(url) {
                    (LoginPhase::Finished, LoginAction::Finish(token_result(url)))
                } else if attempts >= MAX_REDIRECT_POLLS - 1 {
                    (LoginPhase::Finished, LoginAction::Finish(Err(LoginError::RedirectTimeout)))
                } else {
                    (LoginPhase::AwaitingRedirect { attempts: attempts + 1 }, LoginAction::PollRedirect)
                }
            },
            _ => (self, LoginAction::Wait),
        }
    }
}

} // verus!
