use hust_network_login::config::Config;
use hust_network_login::extract;
use hust_network_login::login::{
    begin_login, login_step, portal_page, LoginAction, LoginEvent, LoginRequest, LoginState, PortalInfo,
};
use hust_network_login::LoginError;

const PAGE: &str = "<script>top.self.location.href='http://192.168.50.3:8080/eportal/index.jsp?wlanuserip=10.1.2.3&wlanacname=HUST&mac=6c4b90b5a123&t=wireless-v2&url=http://x/'</script>\r\n";

fn config() -> Config {
    Config::with_main_defaults("M2020123123".to_owned(), "pw".to_owned())
}

fn finished(state: &LoginState) -> Option<Result<(), LoginError>> {
    match state {
        LoginState::Finished(r) => Some(*r),
        _ => None,
    }
}

#[test]
fn extract_takes_text_between_markers() {
    assert_eq!(extract(PAGE, "mac=", "&t="), Ok("6c4b90b5a123"));
    assert_eq!(
        extract(PAGE, "<script>top.self.location.href='http://", "/eportal/index.jsp"),
        Ok("192.168.50.3:8080")
    );
    assert_eq!(extract("a[b]c[d]", "[", "]"), Ok("b"));
    assert_eq!(extract("a]b[c", "[", "]"), Err(LoginError::InvalidData));
    assert_eq!(extract("abc", "x", "c"), Err(LoginError::InvalidData));
}

#[test]
fn portal_page_gives_address_mac_and_query() {
    let p = PortalInfo::from_page(PAGE).ok().unwrap();
    assert_eq!(p.portal_ip, "192.168.50.3:8080");
    assert_eq!(p.mac, "6c4b90b5a123");
    assert_eq!(
        p.query_string,
        "wlanuserip=10.1.2.3&wlanacname=HUST&mac=6c4b90b5a123&t=wireless-v2&url=http://x/"
    );
    assert!(PortalInfo::from_page("<script>top.self.location.href='http://1.2.3.4/eportal/index.jsp?x").is_err());
}

#[test]
fn start_probes_the_test_page() {
    let c = config();
    let (state, action) = begin_login(&c);
    assert!(matches!(state, LoginState::Probing));
    match action {
        LoginAction::Probe { url, timeout_secs } => {
            assert_eq!(url, c.test_url);
            assert_eq!(timeout_secs, 10);
        }
        _ => panic!("expected a probe"),
    }
}

#[test]
fn answer_204_means_online() {
    let c = config();
    let (s, a) = login_step(
        &c,
        LoginState::Probing,
        LoginEvent::ProbeReplied { status_code: 204, body: Some(String::new()) },
    );
    assert_eq!(finished(&s), Some(Ok(())));
    assert!(matches!(a, LoginAction::Report(Ok(()))));
}

#[test]
fn https_probe_error_means_online() {
    let c = config();
    let (s, _) = login_step(
        &c,
        LoginState::Probing,
        LoginEvent::ProbeFailed { message: "HttpsFeatureNotEnabled: https not enabled".to_owned() },
    );
    assert_eq!(finished(&s), Some(Ok(())));
    let (s, _) = login_step(
        &c,
        LoginState::Probing,
        LoginEvent::ProbeFailed { message: "connection timed out".to_owned() },
    );
    assert_eq!(finished(&s), Some(Err(LoginError::ConnectionRefused)));
}

#[test]
fn other_replies_depend_on_expect_204() {
    let mut c = config();
    let reply = || LoginEvent::ProbeReplied { status_code: 200, body: Some("<html>hi</html>".to_owned()) };
    let (s, _) = login_step(&c, LoginState::Probing, reply());
    assert_eq!(finished(&s), Some(Err(LoginError::InvalidData)));
    c.expect_204_response = false;
    let (s, _) = login_step(&c, LoginState::Probing, reply());
    assert_eq!(finished(&s), Some(Ok(())));
    let (s, _) = login_step(
        &c,
        LoginState::Probing,
        LoginEvent::ProbeReplied { status_code: 204, body: None },
    );
    assert_eq!(finished(&s), Some(Err(LoginError::InvalidData)));
}

#[test]
fn portal_page_asks_for_encryption_then_posts() {
    let c = config();
    let (s, a) = login_step(
        &c,
        LoginState::Probing,
        LoginEvent::ProbeReplied { status_code: 200, body: Some(PAGE.to_owned()) },
    );
    assert!(matches!(s, LoginState::Encrypting(_)));
    match a {
        LoginAction::Encrypt { plaintext } => assert_eq!(plaintext, "pw>6c4b90b5a123"),
        _ => panic!("expected encryption"),
    }
    let (s, a) = login_step(&c, s, LoginEvent::Encrypted { cipher: "abc123".to_owned() });
    assert!(matches!(s, LoginState::Posting(_)));
    match a {
        LoginAction::Post(r) => {
            assert_eq!(r.url, "http://192.168.50.3:8080/eportal/InterFace.do?method=login");
            assert_eq!(
                r.body,
                "userId=M2020123123&password=abc123&service=&queryString=wlanuserip%3D10.1.2.3%26wlanacname%3DHUST%26mac%3D6c4b90b5a123%26t%3Dwireless-v2%26url%3Dhttp%3A%2F%2Fx%2F&passwordEncrypt=true"
            );
            assert_eq!(r.timeout_secs, 10);
        }
        _ => panic!("expected a post"),
    }
    let (done, a) = login_step(&c, s, LoginEvent::PostReplied { body: Some("{\"result\":\"success\"}".to_owned()) });
    assert_eq!(finished(&done), Some(Ok(())));
    assert!(matches!(a, LoginAction::Report(Ok(()))));
}

#[test]
fn query_string_is_percent_encoded_bytewise() {
    let c = config();
    let p = PortalInfo { portal_ip: "h".to_owned(), mac: "m".to_owned(), query_string: "a b~é".to_owned() };
    let r = LoginRequest::new(&c, &p, "x");
    assert!(r.body.contains("queryString=a%20b~%C3%A9&"));
}

#[test]
fn portal_page_without_mac_is_invalid() {
    let c = config();
    let page = "<script>top.self.location.href='http://1.2.3.4/eportal/index.jsp?a=b'</script>\r\n";
    let (s, _) = login_step(
        &c,
        LoginState::Probing,
        LoginEvent::ProbeReplied { status_code: 302, body: Some(page.to_owned()) },
    );
    assert_eq!(finished(&s), Some(Err(LoginError::InvalidData)));
}

fn posting() -> LoginState {
    LoginState::Posting(LoginRequest { url: "u".to_owned(), body: "b".to_owned(), timeout_secs: 1 })
}

#[test]
fn login_reply_decides() {
    let c = config();
    let (s, _) = login_step(&c, posting(), LoginEvent::PostReplied { body: Some("fail".to_owned()) });
    assert_eq!(finished(&s), Some(Err(LoginError::PermissionDenied)));
    let (s, _) = login_step(&c, posting(), LoginEvent::PostReplied { body: None });
    assert_eq!(finished(&s), Some(Err(LoginError::InvalidData)));
    let (s, _) = login_step(&c, posting(), LoginEvent::PostFailed);
    assert_eq!(finished(&s), Some(Err(LoginError::ConnectionRefused)));
}

#[test]
fn unrelated_events_are_ignored_and_finished_stays() {
    let c = config();
    let (s, a) = login_step(&c, LoginState::Probing, LoginEvent::PostFailed);
    assert!(matches!(s, LoginState::Probing));
    assert!(matches!(a, LoginAction::Probe { .. }));
    let (s, a) = login_step(
        &c,
        LoginState::Finished(Err(LoginError::PermissionDenied)),
        LoginEvent::PostReplied { body: Some("success".to_owned()) },
    );
    assert_eq!(finished(&s), Some(Err(LoginError::PermissionDenied)));
    assert!(matches!(a, LoginAction::Report(Err(LoginError::PermissionDenied))));
}

#[test]
fn encoded_query_cannot_split_the_form() {
    let c = config();
    let p = PortalInfo {
        portal_ip: "h".to_owned(),
        mac: "m".to_owned(),
        query_string: "a&b=c+d #e".to_owned(),
    };
    let r = LoginRequest::new(&c, &p, "x");
    assert_eq!(
        r.body,
        "userId=M2020123123&password=x&service=&queryString=a%26b%3Dc%2Bd%20%23e&passwordEncrypt=true"
    );
}

#[test]
fn portal_page_recognised_by_either_marker() {
    assert!(portal_page(PAGE));
    assert!(portal_page("see /eportal/index.jsp"));
    assert!(!portal_page("<html>ok</html>"));
}
