//! Reading the captive portal's redirect page and deciding each step of a login.

use vstd::prelude::*;

use crate::config::{Config, ConfigView};
use crate::error::LoginError;
use crate::percent::{percent_encode, url_encode};
use crate::text::{chars_of, contains, find_chars, find_first, find_from, lemma_find_from, matches_at};

verus! {

/// The text of `t` between the first occurrence of `prefix` and the first
/// occurrence of `suffix` after it.
pub open spec fn extract_spec(t: Seq<char>, prefix: Seq<char>, suffix: Seq<char>) -> Option<
    Seq<char>,
> {
    match find_first(t, prefix) {
        None => None,
        Some(l) => {
            let start = l + prefix.len();
            match find_from(t, suffix, start) {
                None => None,
                Some(r) => Some(t.subrange(start, r)),
            }
        },
    }
}

/// The text between the first `prefix` in `text` and the first `suffix` after it;
/// `InvalidData` when either is missing.
pub fn extract<'a>(text: &'a str, prefix: &'a str, suffix: &'a str) -> (r: Result<
    &'a str,
    LoginError,
>)
    ensures
        match r {
            Ok(v) => extract_spec(text@, prefix@, suffix@) == Some(v@),
            Err(e) => extract_spec(text@, prefix@, suffix@) is None && e == LoginError::InvalidData,
        },
{
    let t = chars_of(text);
    let p = chars_of(prefix);
    let s = chars_of(suffix);
    let n = t.len();
    proof {
        lemma_find_from(t@, p@, 0);
    }
    match find_chars(&t, &p, 0) {
        None => Err(LoginError::InvalidData),
        Some(l) => {
            assert(matches_at(t@, p@, l as int));
            assert(l + p@.len() <= n);
            let start = l + p.len();
            proof {
                lemma_find_from(t@, s@, start as int);
            }
            match find_chars(&t, &s, start) {
                None => Err(LoginError::InvalidData),
                Some(r) => {
                    assert(matches_at(t@, s@, r as int));
                    assert(start <= r <= t@.len());
                    Ok(text.substring_char(start, r))
                },
            }
        },
    }
}

/// What `extract` returns stands in the text between the first `prefix` and the
/// `suffix` that follows it, and holds no (non-empty) `suffix` itself.
pub proof fn law_extract_between(t: Seq<char>, prefix: Seq<char>, suffix: Seq<char>, v: Seq<char>)
    requires
        extract_spec(t, prefix, suffix) == Some(v),
        suffix.len() > 0,
    ensures
        find_first(t, prefix) matches Some(l) && matches_at(t, prefix + v + suffix, l),
        find_first(v, suffix) is None,
{
    lemma_find_from(t, prefix, 0);
    let l = find_first(t, prefix)->0;
    let start = l + prefix.len();
    lemma_find_from(t, suffix, start);
    let r = find_from(t, suffix, start)->0;
    assert(v == t.subrange(start, r));
    assert(t.subrange(l, l + (prefix + v + suffix).len()) =~= prefix + v + suffix) by {
        assert(t.subrange(l, start) =~= prefix);
        assert(t.subrange(r, r + suffix.len()) =~= suffix);
    }
    lemma_find_from(v, suffix, 0);
    if find_first(v, suffix) is Some {
        let k = find_first(v, suffix)->0;
        assert(t.subrange(start + k, start + k + suffix.len()) =~= v.subrange(k, k + suffix.len()));
        assert(matches_at(t, suffix, start + k));
    }
}

/// `extract` finds something exactly when the text holds `prefix` and, after its
/// first occurrence, `suffix`.
pub proof fn law_extract_found(t: Seq<char>, prefix: Seq<char>, suffix: Seq<char>)
    ensures
        extract_spec(t, prefix, suffix) is Some <==> (find_first(t, prefix) matches Some(l)
            && exists|j: int| l + prefix.len() <= j && #[trigger] matches_at(t, suffix, j)),
{
    lemma_find_from(t, prefix, 0);
    if find_first(t, prefix) is Some {
        let l = find_first(t, prefix)->0;
        lemma_find_from(t, suffix, l + prefix.len());
        if find_from(t, suffix, l + prefix.len()) is Some {
            let r = find_from(t, suffix, l + prefix.len())->0;
            assert(matches_at(t, suffix, r));
        }
    }
}

/// Marks a page that sends the browser on to the captive portal.
pub const PORTAL_PAGE: &'static str = "/eportal/index.jsp";

/// Opens the redirect script of the captive portal's page; the portal's address follows it.
pub const REDIRECT_SCRIPT: &'static str = "<script>top.self.location.href='http://";

/// What the captive portal's redirect page tells: the portal's address, the
/// device's MAC address and the query string of the portal link.
pub struct PortalInfo {
    pub portal_ip: String,
    pub mac: String,
    pub query_string: String,
}

/// The login request to send to the portal.
pub struct LoginRequest {
    pub url: String,
    pub body: String,
    pub timeout_secs: u64,
}

/// Where a login attempt stands.
pub enum LoginState {
    /// Waiting for the connectivity probe's outcome.
    Probing,
    /// The probe met the captive portal; waiting for the encrypted password.
    Encrypting(PortalInfo),
    /// Waiting for the portal's answer to the login request.
    Posting(LoginRequest),
    /// The attempt is over.
    Finished(Result<(), LoginError>),
}

/// What the outside world reports back.
pub enum LoginEvent {
    /// The probe could not be sent; the error's message.
    ProbeFailed { message: String },
    /// The probe's reply: its status code, and its body when that is text.
    ProbeReplied { status_code: i32, body: Option<String> },
    /// The password material, encrypted.
    Encrypted { cipher: String },
    /// The login request could not be sent.
    PostFailed,
    /// The portal's reply to the login request, when that is text.
    PostReplied { body: Option<String> },
}

/// What the outside world is asked to do next.
pub enum LoginAction {
    /// Fetch `url`, giving up after `timeout_secs`.
    Probe { url: String, timeout_secs: u64 },
    /// Encrypt `plaintext` with the portal's public key.
    Encrypt { plaintext: String },
    /// Send the login request.
    Post(LoginRequest),
    /// Report how the attempt ended.
    Report(Result<(), LoginError>),
}

/// `PortalInfo` as mathematical values.
pub struct PortalView {
    pub portal_ip: Seq<char>,
    pub mac: Seq<char>,
    pub query_string: Seq<char>,
}

/// `LoginRequest` as mathematical values.
pub struct RequestView {
    pub url: Seq<char>,
    pub body: Seq<char>,
    pub timeout_secs: u64,
}

/// `LoginState` as mathematical values.
pub enum StateView {
    Probing,
    Encrypting(PortalView),
    Posting(RequestView),
    Finished(Result<(), LoginError>),
}

/// `LoginEvent` as mathematical values.
pub enum EventView {
    ProbeFailed(Seq<char>),
    ProbeReplied(i32, Option<Seq<char>>),
    Encrypted(Seq<char>),
    PostFailed,
    PostReplied(Option<Seq<char>>),
}

/// `LoginAction` as mathematical values.
pub enum ActionView {
    Probe(Seq<char>, u64),
    Encrypt(Seq<char>),
    Post(RequestView),
    Report(Result<(), LoginError>),
}

/// The characters of an optional string.
pub open spec fn opt_string_view(o: Option<String>) -> Option<Seq<char>> {
    match o {
        Some(s) => Some(s@),
        None => None,
    }
}

impl View for PortalInfo {
    type V = PortalView;

    open spec fn view(&self) -> PortalView {
        PortalView { portal_ip: self.portal_ip@, mac: self.mac@, query_string: self.query_string@ }
    }
}

impl View for LoginRequest {
    type V = RequestView;

    open spec fn view(&self) -> RequestView {
        RequestView { url: self.url@, body: self.body@, timeout_secs: self.timeout_secs }
    }
}

impl View for LoginState {
    type V = StateView;

    open spec fn view(&self) -> StateView {
        match self {
            LoginState::Probing => StateView::Probing,
            LoginState::Encrypting(p) => StateView::Encrypting(p@),
            LoginState::Posting(r) => StateView::Posting(r@),
            LoginState::Finished(x) => StateView::Finished(*x),
        }
    }
}

impl View for LoginEvent {
    type V = EventView;

    open spec fn view(&self) -> EventView {
        match self {
            LoginEvent::ProbeFailed { message } => EventView::ProbeFailed(message@),
            LoginEvent::ProbeReplied { status_code, body } => EventView::ProbeReplied(
                *status_code,
                opt_string_view(*body),
            ),
            LoginEvent::Encrypted { cipher } => EventView::Encrypted(cipher@),
            LoginEvent::PostFailed => EventView::PostFailed,
            LoginEvent::PostReplied { body } => EventView::PostReplied(opt_string_view(*body)),
        }
    }
}

impl View for LoginAction {
    type V = ActionView;

    open spec fn view(&self) -> ActionView {
        match self {
            LoginAction::Probe { url, timeout_secs } => ActionView::Probe(url@, *timeout_secs),
            LoginAction::Encrypt { plaintext } => ActionView::Encrypt(plaintext@),
            LoginAction::Post(r) => ActionView::Post(r@),
            LoginAction::Report(x) => ActionView::Report(*x),
        }
    }
}

/// Whether `page` is, or leads to, the captive portal.
pub open spec fn is_portal_page(page: Seq<char>) -> bool {
    find_first(page, PORTAL_PAGE@) is Some || find_first(page, REDIRECT_SCRIPT@) is Some
}

/// What the portal's redirect page tells, when all three parts can be found in it.
pub open spec fn portal_info_spec(page: Seq<char>) -> Option<PortalView> {
    match (
        extract_spec(page, REDIRECT_SCRIPT@, PORTAL_PAGE@),
        extract_spec(page, "mac="@, "&t="@),
        extract_spec(page, "/eportal/index.jsp?"@, "'</script>\r\n"@),
    ) {
        (Some(ip), Some(mac), Some(q)) => Some(
            PortalView { portal_ip: ip, mac: mac, query_string: q },
        ),
        _ => None,
    }
}

/// The state after the probe could not be sent: an https redirect means the
/// network is already reachable; anything else refuses the connection.
pub open spec fn probe_failed_spec(message: Seq<char>) -> StateView {
    if find_first(message, "https"@) is Some {
        StateView::Finished(Ok(()))
    } else {
        StateView::Finished(Err(LoginError::ConnectionRefused))
    }
}

/// The state after the probe's reply.
pub open spec fn probe_replied_spec(c: ConfigView, status_code: i32, body: Option<Seq<char>>) -> StateView {
    if c.expect_204_response && status_code == 204 {
        StateView::Finished(Ok(()))
    } else {
        match body {
            None => StateView::Finished(Err(LoginError::InvalidData)),
            Some(page) => if !is_portal_page(page) {
                if c.expect_204_response {
                    StateView::Finished(Err(LoginError::InvalidData))
                } else {
                    StateView::Finished(Ok(()))
                }
            } else {
                match portal_info_spec(page) {
                    Some(p) => StateView::Encrypting(p),
                    None => StateView::Finished(Err(LoginError::InvalidData)),
                }
            },
        }
    }
}

/// What is encrypted as the password: the password, `>`, and the MAC address.
pub open spec fn password_material(c: ConfigView, p: PortalView) -> Seq<char> {
    c.password + ">"@ + p.mac
}

/// The login request for the portal `p` and the encrypted password `cipher`.
pub open spec fn login_request_spec(c: ConfigView, p: PortalView, cipher: Seq<char>) -> RequestView {
    RequestView {
        url: "http://"@ + p.portal_ip + "/eportal/InterFace.do?method=login"@,
        body: "userId="@ + c.username + "&password="@ + cipher + "&service=&queryString="@
            + percent_encode(vstd::utf8::encode_utf8(p.query_string)) + "&passwordEncrypt=true"@,
        timeout_secs: c.login_timeout_secs,
    }
}

/// The state after the portal's reply to the login request.
pub open spec fn post_replied_spec(body: Option<Seq<char>>) -> StateView {
    match body {
        None => StateView::Finished(Err(LoginError::InvalidData)),
        Some(page) => if find_first(page, "success"@) is Some {
            StateView::Finished(Ok(()))
        } else {
            StateView::Finished(Err(LoginError::PermissionDenied))
        },
    }
}

/// The next state after `e` in state `s`; an event that does not answer the
/// state's pending action leaves the state as it is.
pub open spec fn step_spec(c: ConfigView, s: StateView, e: EventView) -> StateView {
    match (s, e) {
        (StateView::Probing, EventView::ProbeFailed(m)) => probe_failed_spec(m),
        (StateView::Probing, EventView::ProbeReplied(code, body)) => probe_replied_spec(c, code, body),
        (StateView::Encrypting(p), EventView::Encrypted(cipher)) => StateView::Posting(
            login_request_spec(c, p, cipher),
        ),
        (StateView::Posting(_), EventView::PostFailed) => StateView::Finished(
            Err(LoginError::ConnectionRefused),
        ),
        (StateView::Posting(_), EventView::PostReplied(body)) => post_replied_spec(body),
        _ => s,
    }
}

/// The action that state `s` waits on.
pub open spec fn action_spec(c: ConfigView, s: StateView) -> ActionView {
    match s {
        StateView::Probing => ActionView::Probe(c.test_url, c.probe_timeout_secs),
        StateView::Encrypting(p) => ActionView::Encrypt(password_material(c, p)),
        StateView::Posting(r) => ActionView::Post(r),
        StateView::Finished(x) => ActionView::Report(x),
    }
}

/// How far along an attempt is: probing, encrypting, posting, finished.
pub open spec fn stage(s: StateView) -> int {
    match s {
        StateView::Probing => 0,
        StateView::Encrypting(_) => 1,
        StateView::Posting(_) => 2,
        StateView::Finished(_) => 3,
    }
}

/// A finished attempt stays finished, whatever is reported, and keeps reporting its outcome.
pub proof fn law_finished_is_final(c: ConfigView, x: Result<(), LoginError>, e: EventView)
    ensures
        step_spec(c, StateView::Finished(x), e) == StateView::Finished(x),
        action_spec(c, step_spec(c, StateView::Finished(x), e)) == ActionView::Report(x),
{
}

/// Every event either answers the pending action and moves the attempt forward,
/// or leaves the state as it is; so an attempt ends after three answers at most.
pub proof fn law_step_moves_forward(c: ConfigView, s: StateView, e: EventView)
    ensures
        step_spec(c, s, e) == s || stage(step_spec(c, s, e)) > stage(s),
{
}

/// A login request ends in success only when the portal's reply says `success`.
pub proof fn law_success_needs_portal_word(c: ConfigView, r: RequestView, e: EventView)
    requires
        step_spec(c, StateView::Posting(r), e) == StateView::Finished(Ok(())),
    ensures
        e matches EventView::PostReplied(Some(page)) && find_first(page, "success"@) is Some,
{
}

/// A probe ends in success only when its test page answered 204 while 204 is
/// expected, when the probe was refused for https (the network redirects, so it is
/// reachable), or when 204 is not expected and the page is not the portal's.
pub proof fn law_probe_success(c: ConfigView, e: EventView)
    requires
        step_spec(c, StateView::Probing, e) == StateView::Finished(Ok(())),
    ensures
        match e {
            EventView::ProbeFailed(m) => find_first(m, "https"@) is Some,
            EventView::ProbeReplied(code, body) => ((c.expect_204_response && code == 204) || (
            !c.expect_204_response && (body matches Some(page) && !is_portal_page(page)))),
            _ => false,
        },
{
}

/// When 204 is expected, a reply that is neither 204 nor the portal's page is a
/// mismatch of the probe page; when it is not expected, any page but the portal's
/// means the network is reachable.
pub proof fn law_non_portal_reply(c: ConfigView, code: i32, page: Seq<char>)
    requires
        !(c.expect_204_response && code == 204),
        !is_portal_page(page),
    ensures
        step_spec(c, StateView::Probing, EventView::ProbeReplied(code, Some(page)))
            == if c.expect_204_response {
            StateView::Finished(Err(LoginError::InvalidData))
        } else {
            StateView::Finished(Ok(()))
        },
{
}

/// Every attempt starts by fetching the configured test page, with the probe's
/// own timeout (not the login timeout).
pub proof fn law_probe_uses_probe_settings(c: ConfigView)
    ensures
        action_spec(c, StateView::Probing) == ActionView::Probe(c.test_url, c.probe_timeout_secs),
{
}

/// When the probe cannot be sent, an error that mentions https means the network
/// is reachable; any other error refuses the connection.
pub proof fn law_probe_failure(c: ConfigView, message: Seq<char>)
    ensures
        step_spec(c, StateView::Probing, EventView::ProbeFailed(message)) == if find_first(
            message,
            "https"@,
        ) is Some {
            StateView::Finished(Ok(()))
        } else {
            StateView::Finished(Err(LoginError::ConnectionRefused))
        },
{
}

/// A 204 answer while 204 is expected means the network is reachable, whatever the body.
pub proof fn law_probe_204(c: ConfigView, body: Option<Seq<char>>)
    requires
        c.expect_204_response,
    ensures
        step_spec(c, StateView::Probing, EventView::ProbeReplied(204, body)) == StateView::Finished(
            Ok(()),
        ),
{
}

/// Unless a 204 settles it, a probe reply that is not text is invalid data.
pub proof fn law_probe_reply_not_text(c: ConfigView, code: i32)
    requires
        !(c.expect_204_response && code == 204),
    ensures
        step_spec(c, StateView::Probing, EventView::ProbeReplied(code, None)) == StateView::Finished(
            Err(LoginError::InvalidData),
        ),
{
}

/// Unless a 204 settles it, a reply that is the portal's page is scraped and the
/// client goes on to log in, whether or not 204 is expected: the portal's address,
/// the MAC address and the query string are taken from the page, and the password
/// material to encrypt is the password, `>` and the MAC address; when a part is
/// missing, the reply is invalid data.
pub proof fn law_portal_reply_leads_to_login(c: ConfigView, code: i32, page: Seq<char>)
    requires
        !(c.expect_204_response && code == 204),
        find_first(page, "/eportal/index.jsp"@) is Some || find_first(
            page,
            "<script>top.self.location.href='http://"@,
        ) is Some,
    ensures
        step_spec(c, StateView::Probing, EventView::ProbeReplied(code, Some(page))) == match (
            extract_spec(page, "<script>top.self.location.href='http://"@, "/eportal/index.jsp"@),
            extract_spec(page, "mac="@, "&t="@),
            extract_spec(page, "/eportal/index.jsp?"@, "'</script>\r\n"@),
        ) {
            (Some(ip), Some(mac), Some(q)) => StateView::Encrypting(
                PortalView { portal_ip: ip, mac: mac, query_string: q },
            ),
            _ => StateView::Finished(Err(LoginError::InvalidData)),
        },
        step_spec(c, StateView::Probing, EventView::ProbeReplied(code, Some(page))) matches StateView::Encrypting(p)
            ==> action_spec(
            c,
            StateView::Encrypting(p),
        ) == ActionView::Encrypt(c.password + ">"@ + p.mac),
{
}

/// Once the password is encrypted, the login request goes to the portal's login
/// address, carries the user name, the encrypted password and the percent-encoded
/// query string, and waits at most the login timeout (not the probe timeout).
pub proof fn law_login_request(c: ConfigView, p: PortalView, cipher: Seq<char>)
    ensures
        step_spec(c, StateView::Encrypting(p), EventView::Encrypted(cipher)) matches StateView::Posting(r)
            && r.timeout_secs == c.login_timeout_secs && r.url == "http://"@ + p.portal_ip
            + "/eportal/InterFace.do?method=login"@ && r.body == "userId="@ + c.username
            + "&password="@ + cipher + "&service=&queryString="@ + percent_encode(
            vstd::utf8::encode_utf8(p.query_string),
        ) + "&passwordEncrypt=true"@ && action_spec(c, StateView::Posting(r)) == ActionView::Post(r),
{
}

/// The portal's answer to the login request: not sent is a refused connection, not
/// text is invalid data, a reply with `success` is a success, and any other reply
/// is a denied permission.
pub proof fn law_login_reply(c: ConfigView, r: RequestView, e: EventView)
    ensures
        e is PostFailed ==> step_spec(c, StateView::Posting(r), e) == StateView::Finished(
            Err(LoginError::ConnectionRefused),
        ),
        e == EventView::PostReplied(None) ==> step_spec(c, StateView::Posting(r), e)
            == StateView::Finished(Err(LoginError::InvalidData)),
        e matches EventView::PostReplied(Some(page)) ==> step_spec(c, StateView::Posting(r), e) == if find_first(
            page,
            "success"@,
        ) is Some {
            StateView::Finished(Ok(()))
        } else {
            StateView::Finished(Err(LoginError::PermissionDenied))
        },
{
}

/// A copy of `s`.
fn copy_str(s: &String) -> (r: String)
    ensures
        r@ == s@,
{
    s.clone()
}

impl PortalInfo {
    /// What the captive portal's redirect page tells, or `InvalidData` when a part is missing.
    pub fn from_page(page: &str) -> (r: Result<Self, LoginError>)
        ensures
            match r {
                Ok(p) => portal_info_spec(page@) == Some(p@),
                Err(e) => portal_info_spec(page@) is None && e == LoginError::InvalidData,
            },
    {
        let portal_ip = extract(page, REDIRECT_SCRIPT, PORTAL_PAGE)?;
        let mac = extract(page, "mac=", "&t=")?;
        let query_string = extract(page, "/eportal/index.jsp?", "'</script>\r\n")?;
        Ok(
            PortalInfo {
                portal_ip: portal_ip.to_owned(),
                mac: mac.to_owned(),
                query_string: query_string.to_owned(),
            },
        )
    }
}

impl LoginRequest {
    /// The login request for `portal`, with `cipher` as the encrypted password.
    pub fn new(config: &Config, portal: &PortalInfo, cipher: &str) -> (r: Self)
        ensures
            r@ == login_request_spec(config@, portal@, cipher@),
    {
        let mut url = String::new();
        url.append("http://");
        url.append(portal.portal_ip.as_str());
        url.append("/eportal/InterFace.do?method=login");
        let query = url_encode(portal.query_string.as_str());
        let mut body = String::new();
        body.append("userId=");
        body.append(config.username.as_str());
        body.append("&password=");
        body.append(cipher);
        body.append("&service=&queryString=");
        body.append(query.as_str());
        body.append("&passwordEncrypt=true");
        LoginRequest { url, body, timeout_secs: config.login_timeout_secs }
    }
}

/// The action that `state` waits on.
pub fn login_action(config: &Config, state: &LoginState) -> (a: LoginAction)
    ensures
        a@ == action_spec(config@, state@),
{
    match state {
        LoginState::Probing => LoginAction::Probe {
            url: copy_str(&config.test_url),
            timeout_secs: config.probe_timeout_secs,
        },
        LoginState::Encrypting(p) => {
            let mut plaintext = copy_str(&config.password);
            plaintext.append(">");
            plaintext.append(p.mac.as_str());
            LoginAction::Encrypt { plaintext }
        },
        LoginState::Posting(r) => LoginAction::Post(
            LoginRequest { url: copy_str(&r.url), body: copy_str(&r.body), timeout_secs: r.timeout_secs },
        ),
        LoginState::Finished(x) => LoginAction::Report(*x),
    }
}

/// The start of a login attempt: probe the test page.
pub fn begin_login(config: &Config) -> (r: (LoginState, LoginAction))
    ensures
        r.0@ == StateView::Probing,
        r.1@ == action_spec(config@, StateView::Probing),
{
    let state = LoginState::Probing;
    let action = login_action(config, &state);
    (state, action)
}

/// Whether `page` is, or leads to, the captive portal.
pub fn portal_page(page: &str) -> (r: bool)
    ensures
        r == is_portal_page(page@),
{
    contains(page, PORTAL_PAGE) || contains(page, REDIRECT_SCRIPT)
}

/// The state after the probe's reply.
fn probe_replied(config: &Config, status_code: i32, body: Option<String>) -> (r: LoginState)
    ensures
        r@ == probe_replied_spec(config@, status_code, opt_string_view(body)),
{
    if config.expect_204_response && status_code == 204 {
        return LoginState::Finished(Ok(()));
    }
    let page = match body {
        None => {
            return LoginState::Finished(Err(LoginError::InvalidData));
        },
        Some(page) => page,
    };
    if !portal_page(page.as_str()) {
        if config.expect_204_response {
            return LoginState::Finished(Err(LoginError::InvalidData));
        } else {
            return LoginState::Finished(Ok(()));
        }
    }
    match PortalInfo::from_page(page.as_str()) {
        Ok(p) => LoginState::Encrypting(p),
        Err(e) => LoginState::Finished(Err(e)),
    }
}

/// The state after the portal's reply to the login request.
fn post_replied(body: Option<String>) -> (r: LoginState)
    ensures
        r@ == post_replied_spec(opt_string_view(body)),
{
    match body {
        None => LoginState::Finished(Err(LoginError::InvalidData)),
        Some(page) => if contains(page.as_str(), "success") {
            LoginState::Finished(Ok(()))
        } else {
            LoginState::Finished(Err(LoginError::PermissionDenied))
        },
    }
}

/// One step of a login attempt: the state after `event`, and the action it waits on.
pub fn login_step(config: &Config, state: LoginState, event: LoginEvent) -> (r: (
    LoginState,
    LoginAction,
))
    ensures
        r.0@ == step_spec(config@, state@, event@),
        r.1@ == action_spec(config@, r.0@),
{
    let next = match (state, event) {
        (LoginState::Probing, LoginEvent::ProbeFailed { message }) => {
            if contains(message.as_str(), "https") {
                LoginState::Finished(Ok(()))
            } else {
                LoginState::Finished(Err(LoginError::ConnectionRefused))
            }
        },
        (LoginState::Probing, LoginEvent::ProbeReplied { status_code, body }) => probe_replied(
            config,
            status_code,
            body,
        ),
        (LoginState::Encrypting(p), LoginEvent::Encrypted { cipher }) => LoginState::Posting(
            LoginRequest::new(config, &p, cipher.as_str()),
        ),
        (LoginState::Posting(_), LoginEvent::PostFailed) => LoginState::Finished(
            Err(LoginError::ConnectionRefused),
        ),
        (LoginState::Posting(_), LoginEvent::PostReplied { body }) => post_replied(body),
        (s, _) => s,
    };
    let action = login_action(config, &next);
    (next, action)
}

} // verus!
