use vstd::prelude::*;

use crate::text::{
    second_word, second_word_bounds, span, to_chars, trim, trimmed, is_blank,
};

verus! {

/// The start of the request target that carries a credential.
pub const CALLBACK_PREFIX: &'static str = "/callback?key=";

/// The character of a decimal digit.
pub open spec fn digit_char(d: nat) -> char {
    seq!['0', '1', '2', '3', '4', '5', '6', '7', '8', '9'][d as int]
}

/// The decimal digits of `n`, most significant first.
pub open spec fn decimal(n: nat) -> Seq<char>
    decreases n,
{
    if n < 10 {
        seq![digit_char(n)]
    } else {
        decimal(n / 10).push(digit_char(n % 10))
    }
}

fn digit_str(d: u16) -> (r: &'static str)
    requires
        d < 10,
    ensures
        r@ == seq![digit_char(d as nat)],
{
    proof {
        reveal_strlit("0");
        reveal_strlit("1");
        reveal_strlit("2");
        reveal_strlit("3");
        reveal_strlit("4");
        reveal_strlit("5");
        reveal_strlit("6");
        reveal_strlit("7");
        reveal_strlit("8");
        reveal_strlit("9");
    }
    let r = if d == 0 {
        "0"
    } else if d == 1 {
        "1"
    } else if d == 2 {
        "2"
    } else if d == 3 {
        "3"
    } else if d == 4 {
        "4"
    } else if d == 5 {
        "5"
    } else if d == 6 {
        "6"
    } else if d == 7 {
        "7"
    } else if d == 8 {
        "8"
    } else {
        "9"
    };
    assert(r@ =~= seq![digit_char(d as nat)]);
    r
}

/// `n` written in decimal.
pub fn decimal_string(n: u16) -> (r: String)
    ensures
        r@ == decimal(n as nat),
    decreases n,
{
    if n < 10 {
        String::from_str(digit_str(n))
    } else {
        let mut r = decimal_string(n / 10);
        r.append(digit_str(n % 10));
        r
    }
}

/// The page that the browser opens to sign in, told to call back `port`.
pub open spec fn callback_url_of(api_url: Seq<char>, port: u16) -> Seq<char> {
    api_url + "/cli-auth?port="@ + decimal(port as nat)
}

/// The sign-in page for a local listener on `port`.
pub fn callback_url(api_url: &str, port: u16) -> (r: String)
    ensures
        r@ == callback_url_of(api_url@, port),
{
    let mut r = String::from_str(api_url);
    r.append("/cli-auth?port=");
    let digits = decimal_string(port);
    r.append(digits.as_str());
    r
}

/// The credential that a callback request line carries: its request target,
/// the second word of the line, with the callback prefix taken off.
pub open spec fn callback_key(line: Seq<char>) -> Option<Seq<char>> {
    let w = second_word(line);
    let p = CALLBACK_PREFIX@;
    if w.len() >= p.len() && w.take(p.len() as int) == p {
        Some(w.skip(p.len() as int))
    } else {
        None
    }
}

/// Reads the credential out of the first line of a callback request
/// (`GET /callback?key=<credential> HTTP/1.1`).
pub fn extract_callback_key(line: &str) -> (r: Option<String>)
    ensures
        match r {
            Some(k) => callback_key(line@) == Some(k@),
            None => callback_key(line@) is None,
        },
{
    let chars = to_chars(line);
    let (a, b) = second_word_bounds(&chars);
    let p = to_chars(CALLBACK_PREFIX);
    let plen = p.len();
    let ghost w = chars@.subrange(a as int, b as int);
    assert(w == second_word(line@));
    if b - a < plen {
        return None;
    }
    let mut i: usize = 0;
    while i < plen
        invariant
            chars@ == line@,
            p@ == CALLBACK_PREFIX@,
            plen == p@.len(),
            a + plen <= b <= chars@.len(),
            w == chars@.subrange(a as int, b as int),
            w == second_word(line@),
            i <= plen,
            forall|j: int| 0 <= j < i ==> w[j] == p@[j],
        decreases plen - i,
    {
        if chars[a + i] != p[i] {
            assert(w.take(plen as int)[i as int] != p@[i as int]);
            assert(w.take(plen as int) != p@);
            return None;
        }
        i = i + 1;
    }
    assert(w.take(plen as int) =~= p@);
    assert(w.skip(plen as int) =~= chars@.subrange(a + plen, b as int));
    Some(String::from_str(line.substring_char(a + plen, b)))
}

/// The credential typed in by hand: the input trimmed, where anything is left.
pub fn manual_key(input: &str) -> (r: Option<String>)
    ensures
        match r {
            Some(k) => k@ == trim(input@) && k@.len() > 0,
            None => trim(input@).len() == 0,
        },
{
    if is_blank(input) {
        None
    } else {
        Some(trimmed(input))
    }
}

/// Why a login failed as a whole.
#[derive(Clone, Copy, PartialEq, Eq, Structural, Debug)]
pub enum LoginError {
    /// Nothing was typed in when a credential was asked for.
    NoKeyProvided,
    /// The service refused the credential; nothing was saved.
    CredentialInvalid,
}

/// Where a login stands.
pub enum LoginState {
    /// Nothing done yet.
    Start { api_url: String },
    /// Waiting for a local listener on an ephemeral port.
    Binding { api_url: String },
    /// Waiting for the one connection that the listener will accept.
    AwaitingCallback { api_url: String },
    /// Waiting for a credential typed in by hand.
    AwaitingManual,
    /// Waiting for the service to accept the credential.
    Validating { key: String },
    /// Finished: signed in, or already signed in before.
    Done,
    /// Finished without a credential.
    Failed,
}

/// What the outside world reports back for the action last asked for.
pub enum LoginEvent {
    /// Whether a credential is already stored.
    Begin { authenticated: bool },
    /// The listener is bound on `port`.
    Bound { port: u16 },
    BindFailed,
    /// The first line of the one request received.
    CallbackLine(String),
    /// Accepting the connection, or reading from it, failed.
    CallbackFailed,
    /// The line typed in by hand.
    ManualInput(String),
    Validated,
    Rejected,
}

/// What the caller is to do next.
pub enum LoginAction {
    /// Say that a credential is already stored; nothing else happens.
    AlreadyLoggedIn,
    /// Bind a listener on an ephemeral local port.
    Bind,
    /// Show and open `url`, then accept exactly one connection.
    AwaitCallback { url: String },
    /// Close any listener and ask for a credential by hand.
    PromptManual { api_url: String },
    /// Answer the connection with the success page, close the listener, and
    /// check `key` with the service.
    RespondAndValidate { key: String },
    /// Check `key` with the service.
    Validate { key: String },
    /// Store `key` as the credential.
    Persist { key: String },
    /// Report the failure; nothing is stored.
    Fail(LoginError),
    /// The event does not belong to the current step: nothing to do.
    Ignore,
}

/// A login state over plain values.
pub enum LoginPhase {
    Start { api_url: Seq<char> },
    Binding { api_url: Seq<char> },
    AwaitingCallback { api_url: Seq<char> },
    AwaitingManual,
    Validating { key: Seq<char> },
    Done,
    Failed,
}

/// A login event over plain values.
pub enum LoginInput {
    Begin { authenticated: bool },
    Bound { port: u16 },
    BindFailed,
    CallbackLine(Seq<char>),
    CallbackFailed,
    ManualInput(Seq<char>),
    Validated,
    Rejected,
}

/// A login action over plain values.
pub enum LoginOutput {
    AlreadyLoggedIn,
    Bind,
    AwaitCallback { url: Seq<char> },
    PromptManual { api_url: Seq<char> },
    RespondAndValidate { key: Seq<char> },
    Validate { key: Seq<char> },
    Persist { key: Seq<char> },
    Fail(LoginError),
    Ignore,
}

impl View for LoginState {
    type V = LoginPhase;

    open spec fn view(&self) -> LoginPhase {
        match self {
            LoginState::Start { api_url } => LoginPhase::Start { api_url: api_url@ },
            LoginState::Binding { api_url } => LoginPhase::Binding { api_url: api_url@ },
            LoginState::AwaitingCallback { api_url } => LoginPhase::AwaitingCallback {
                api_url: api_url@,
            },
            LoginState::AwaitingManual => LoginPhase::AwaitingManual,
            LoginState::Validating { key } => LoginPhase::Validating { key: key@ },
            LoginState::Done => LoginPhase::Done,
            LoginState::Failed => LoginPhase::Failed,
        }
    }
}

impl View for LoginEvent {
    type V = LoginInput;

    open spec fn view(&self) -> LoginInput {
        match self {
            LoginEvent::Begin { authenticated } => LoginInput::Begin {
                authenticated: *authenticated,
            },
            LoginEvent::Bound { port } => LoginInput::Bound { port: *port },
            LoginEvent::BindFailed => LoginInput::BindFailed,
            LoginEvent::CallbackLine(l) => LoginInput::CallbackLine(l@),
            LoginEvent::CallbackFailed => LoginInput::CallbackFailed,
            LoginEvent::ManualInput(t) => LoginInput::ManualInput(t@),
            LoginEvent::Validated => LoginInput::Validated,
            LoginEvent::Rejected => LoginInput::Rejected,
        }
    }
}

impl View for LoginAction {
    type V = LoginOutput;

    open spec fn view(&self) -> LoginOutput {
        match self {
            LoginAction::AlreadyLoggedIn => LoginOutput::AlreadyLoggedIn,
            LoginAction::Bind => LoginOutput::Bind,
            LoginAction::AwaitCallback { url } => LoginOutput::AwaitCallback { url: url@ },
            LoginAction::PromptManual { api_url } => LoginOutput::PromptManual {
                api_url: api_url@,
            },
            LoginAction::RespondAndValidate { key } => LoginOutput::RespondAndValidate {
                key: key@,
            },
            LoginAction::Validate { key } => LoginOutput::Validate { key: key@ },
            LoginAction::Persist { key } => LoginOutput::Persist { key: key@ },
            LoginAction::Fail(e) => LoginOutput::Fail(*e),
            LoginAction::Ignore => LoginOutput::Ignore,
        }
    }
}

/// One step of the login.
pub open spec fn next_login(state: LoginPhase, event: LoginInput) -> (LoginPhase, LoginOutput) {
    match state {
        LoginPhase::Start { api_url } => match event {
            LoginInput::Begin { authenticated } => if authenticated {
                (LoginPhase::Done, LoginOutput::AlreadyLoggedIn)
            } else {
                (LoginPhase::Binding { api_url }, LoginOutput::Bind)
            },
            _ => (state, LoginOutput::Ignore),
        },
        LoginPhase::Binding { api_url } => match event {
            LoginInput::Bound { port } => (
                LoginPhase::AwaitingCallback { api_url },
                LoginOutput::AwaitCallback { url: callback_url_of(api_url, port) },
            ),
            LoginInput::BindFailed => (
                LoginPhase::AwaitingManual,
                LoginOutput::PromptManual { api_url },
            ),
            _ => (state, LoginOutput::Ignore),
        },
        LoginPhase::AwaitingCallback { api_url } => match event {
            LoginInput::CallbackLine(line) => match callback_key(line) {
                Some(key) => (
                    LoginPhase::Validating { key },
                    LoginOutput::RespondAndValidate { key },
                ),
                None => (LoginPhase::AwaitingManual, LoginOutput::PromptManual { api_url }),
            },
            LoginInput::CallbackFailed => (
                LoginPhase::AwaitingManual,
                LoginOutput::PromptManual { api_url },
            ),
            _ => (state, LoginOutput::Ignore),
        },
        LoginPhase::AwaitingManual => match event {
            LoginInput::ManualInput(text) => if trim(text).len() == 0 {
                (LoginPhase::Failed, LoginOutput::Fail(LoginError::NoKeyProvided))
            } else {
                (LoginPhase::Validating { key: trim(text) }, LoginOutput::Validate { key: trim(text) })
            },
            _ => (state, LoginOutput::Ignore),
        },
        LoginPhase::Validating { key } => match event {
            LoginInput::Validated => (LoginPhase::Done, LoginOutput::Persist { key }),
            LoginInput::Rejected => (
                LoginPhase::Failed,
                LoginOutput::Fail(LoginError::CredentialInvalid),
            ),
            _ => (state, LoginOutput::Ignore),
        },
        _ => (state, LoginOutput::Ignore),
    }
}

/// The actions that a sequence of events draws from `state`, one per event.
pub open spec fn run_login(state: LoginPhase, events: Seq<LoginInput>) -> Seq<LoginOutput>
    decreases events.len(),
{
    if events.len() == 0 {
        Seq::empty()
    } else {
        let (s, a) = next_login(state, events[0]);
        seq![a] + run_login(s, events.drop_first())
    }
}

/// Begins a login against the service at `api_url`.
pub fn start_login(api_url: String) -> (r: LoginState)
    ensures
        r@ == (LoginPhase::Start { api_url: api_url@ }),
{
    LoginState::Start { api_url }
}

/// Advances the login by one reported event.
pub fn login_step(state: LoginState, event: LoginEvent) -> (r: (LoginState, LoginAction))
    ensures
        (r.0@, r.1@) == next_login(state@, event@),
{
    match state {
        LoginState::Start { api_url } => match event {
            LoginEvent::Begin { authenticated } => if authenticated {
                (LoginState::Done, LoginAction::AlreadyLoggedIn)
            } else {
                (LoginState::Binding { api_url }, LoginAction::Bind)
            },
            _ => (LoginState::Start { api_url }, LoginAction::Ignore),
        },
        LoginState::Binding { api_url } => match event {
            LoginEvent::Bound { port } => {
                let url = callback_url(api_url.as_str(), port);
                (LoginState::AwaitingCallback { api_url }, LoginAction::AwaitCallback { url })
            },
            LoginEvent::BindFailed => (
                LoginState::AwaitingManual,
                LoginAction::PromptManual { api_url },
            ),
            _ => (LoginState::Binding { api_url }, LoginAction::Ignore),
        },
        LoginState::AwaitingCallback { api_url } => match event {
            LoginEvent::CallbackLine(line) => match extract_callback_key(line.as_str()) {
                Some(key) => {
                    let sent = key.clone();
                    (LoginState::Validating { key }, LoginAction::RespondAndValidate { key: sent })
                },
                None => (LoginState::AwaitingManual, LoginAction::PromptManual { api_url }),
            },
            LoginEvent::CallbackFailed => (
                LoginState::AwaitingManual,
                LoginAction::PromptManual { api_url },
            ),
            _ => (LoginState::AwaitingCallback { api_url }, LoginAction::Ignore),
        },
        LoginState::AwaitingManual => match event {
            LoginEvent::ManualInput(text) => match manual_key(text.as_str()) {
                None => (LoginState::Failed, LoginAction::Fail(LoginError::NoKeyProvided)),
                Some(key) => {
                    let sent = key.clone();
                    (LoginState::Validating { key }, LoginAction::Validate { key: sent })
                },
            },
            _ => (LoginState::AwaitingManual, LoginAction::Ignore),
        },
        LoginState::Validating { key } => match event {
            LoginEvent::Validated => (LoginState::Done, LoginAction::Persist { key }),
            LoginEvent::Rejected => (
                LoginState::Failed,
                LoginAction::Fail(LoginError::CredentialInvalid),
            ),
            _ => (LoginState::Validating { key }, LoginAction::Ignore),
        },
        LoginState::Done => (LoginState::Done, LoginAction::Ignore),
        LoginState::Failed => (LoginState::Failed, LoginAction::Ignore),
    }
}

/// Whether an action touches the local listener.
pub open spec fn uses_listener(a: LoginOutput) -> bool {
    a is Bind || a is AwaitCallback || a is RespondAndValidate
}

/// Whether the login is past its browser step.
pub open spec fn past_listening(s: LoginPhase) -> bool {
    s is AwaitingManual || s is Validating || s is Done || s is Failed
}

pub proof fn lemma_login_run_length(state: LoginPhase, events: Seq<LoginInput>)
    ensures
        run_login(state, events).len() == events.len(),
    decreases events.len(),
{
    if events.len() > 0 {
        lemma_login_run_length(next_login(state, events[0]).0, events.drop_first());
    }
}

/// Once the browser step is over, no event brings the listener back.
pub proof fn lemma_listener_stays_closed(state: LoginPhase, events: Seq<LoginInput>)
    requires
        past_listening(state),
    ensures
        forall|i: int|
            0 <= i < events.len() ==> !uses_listener(#[trigger] run_login(state, events)[i]),
    decreases events.len(),
{
    if events.len() > 0 {
        let (s, a) = next_login(state, events[0]);
        lemma_listener_stays_closed(s, events.drop_first());
        lemma_login_run_length(s, events.drop_first());
        let r = run_login(state, events);
        assert forall|i: int| 0 <= i < events.len() implies !uses_listener(#[trigger] r[i]) by {
            if i > 0 {
                assert(r[i] == run_login(s, events.drop_first())[i - 1]);
            }
        }
    }
}

/// Once finished, the login ignores every event.
pub proof fn lemma_done_login_is_inert(events: Seq<LoginInput>)
    ensures
        forall|i: int|
            0 <= i < events.len() ==> #[trigger] run_login(LoginPhase::Done, events)[i]
                is Ignore,
    decreases events.len(),
{
    if events.len() > 0 {
        lemma_done_login_is_inert(events.drop_first());
        lemma_login_run_length(LoginPhase::Done, events.drop_first());
        let r = run_login(LoginPhase::Done, events);
        assert forall|i: int| 0 <= i < events.len() implies #[trigger] r[i] is Ignore by {
            if i > 0 {
                assert(r[i] == run_login(LoginPhase::Done, events.drop_first())[i - 1]);
            }
        }
    }
}

/// Logging in while a credential is stored only says so: no listener is
/// bound, no browser opened, no credential asked for, checked or stored,
/// whatever is reported afterwards.
pub proof fn lemma_login_when_authenticated_is_noop(api_url: Seq<char>, later: Seq<LoginInput>)
    ensures
        ({
            let r = run_login(
                LoginPhase::Start { api_url },
                seq![LoginInput::Begin { authenticated: true }] + later,
            );
            &&& r.len() == later.len() + 1
            &&& r[0] == LoginOutput::AlreadyLoggedIn
            &&& forall|i: int| 1 <= i < r.len() ==> #[trigger] r[i] is Ignore
        }),
{
    let events = seq![LoginInput::Begin { authenticated: true }] + later;
    assert(events.drop_first() =~= later);
    lemma_done_login_is_inert(later);
    lemma_login_run_length(LoginPhase::Done, later);
    let r = run_login(LoginPhase::Start { api_url }, events);
    assert forall|i: int| 1 <= i < r.len() implies #[trigger] r[i] is Ignore by {
        assert(r[i] == run_login(LoginPhase::Done, later)[i - 1]);
    }
}

/// A well-formed callback yields its credential once, and the listener is
/// never used again: no later event binds, listens or answers a callback.
pub proof fn lemma_single_callback(api_url: Seq<char>, line: Seq<char>, later: Seq<LoginInput>)
    requires
        callback_key(line) is Some,
    ensures
        ({
            let r = run_login(
                LoginPhase::AwaitingCallback { api_url },
                seq![LoginInput::CallbackLine(line)] + later,
            );
            &&& r.len() == later.len() + 1
            &&& r[0] == LoginOutput::RespondAndValidate { key: callback_key(line)->0 }
            &&& forall|i: int| 1 <= i < r.len() ==> !uses_listener(#[trigger] r[i])
        }),
{
    let events = seq![LoginInput::CallbackLine(line)] + later;
    assert(events.drop_first() =~= later);
    let s = LoginPhase::Validating { key: callback_key(line)->0 };
    lemma_listener_stays_closed(s, later);
    lemma_login_run_length(s, later);
    let r = run_login(LoginPhase::AwaitingCallback { api_url }, events);
    assert forall|i: int| 1 <= i < r.len() implies !uses_listener(#[trigger] r[i]) by {
        assert(r[i] == run_login(s, later)[i - 1]);
    }
}

/// The two ways of obtaining a credential meet before it is stored: a key
/// typed in by hand and the same key brought by the callback are, once the
/// service accepts them, stored alike.
pub proof fn lemma_login_paths_converge(api_url: Seq<char>, line: Seq<char>, text: Seq<char>)
    requires
        callback_key(line) == Some(trim(text)),
        trim(text).len() > 0,
    ensures
        run_login(
            LoginPhase::AwaitingCallback { api_url },
            seq![LoginInput::CallbackLine(line), LoginInput::Validated],
        ) == seq![
            LoginOutput::RespondAndValidate { key: trim(text) },
            LoginOutput::Persist { key: trim(text) },
        ],
        run_login(
            LoginPhase::AwaitingManual,
            seq![LoginInput::ManualInput(text), LoginInput::Validated],
        ) == seq![LoginOutput::Validate { key: trim(text) }, LoginOutput::Persist { key: trim(text) }],
{
    let k = trim(text);
    let e1 = seq![LoginInput::CallbackLine(line), LoginInput::Validated];
    let e2 = seq![LoginInput::ManualInput(text), LoginInput::Validated];
    assert(e1.drop_first() =~= seq![LoginInput::Validated]);
    assert(e2.drop_first() =~= seq![LoginInput::Validated]);
    assert(seq![LoginInput::Validated].drop_first() =~= Seq::<LoginInput>::empty());
    assert(next_login(LoginPhase::AwaitingCallback { api_url }, LoginInput::CallbackLine(line))
        == (LoginPhase::Validating { key: k }, LoginOutput::RespondAndValidate { key: k }));
    assert(run_login(LoginPhase::Done, Seq::<LoginInput>::empty()) =~= Seq::<LoginOutput>::empty());
    assert(run_login(LoginPhase::Validating { key: k }, seq![LoginInput::Validated]) =~= seq![
        LoginOutput::Persist { key: k },
    ]);
    assert(run_login(
        LoginPhase::AwaitingCallback { api_url },
        e1,
    ) =~= seq![LoginOutput::RespondAndValidate { key: k }, LoginOutput::Persist { key: k }]);
    assert(run_login(LoginPhase::AwaitingManual, e2) =~= seq![
        LoginOutput::Validate { key: k },
        LoginOutput::Persist { key: k },
    ]);
}

} // verus!
