use hust_network_login::config::{
    Config, ConfigSource, ConfigWarning, EmbeddedSettings, LoadError, SearchAction, ValueProblem,
};
use std::num::IntErrorKind;
use hust_network_login::LoginError;

fn defaults(username: &str, password: &str) -> Config {
    Config::with_main_defaults(username.to_owned(), password.to_owned())
}

#[test]
fn defaults_are_the_documented_ones() {
    let c = defaults("M2020123123", "secret");
    assert_eq!(c.username, "M2020123123");
    assert_eq!(c.password, "secret");
    assert_eq!(c.test_url, "http://connectivitycheck.platform.hicloud.com/generate_204");
    assert_eq!(c.probe_timeout_secs, 10);
    assert_eq!(c.login_timeout_secs, 10);
    assert_eq!(c.retry_delay_secs, 1);
    assert_eq!(c.ok_sleep_secs, 15);
    assert!(c.expect_204_response);
}

#[test]
fn missing_credentials_are_named() {
    assert_eq!(Config::validate_and_assemble(Some("u"), None).err(), Some("NO password"));
    assert_eq!(Config::validate_and_assemble(None, Some("p")).err(), Some("NO username"));
    assert_eq!(
        Config::validate_and_assemble(None, None).err(),
        Some("NO username and password")
    );
    let c = Config::validate_and_assemble(Some("u"), Some("p")).ok().unwrap();
    assert_eq!(c.username, "u");
    assert_eq!(c.password, "p");
    assert_eq!(c.ok_sleep_secs, 15);
}

#[test]
fn numbers_read_as_std_reads_them() {
    for s in [
        "0",
        "15",
        "+7",
        "-1",
        "",
        "+",
        " 5",
        "5 ",
        "18446744073709551615",
        "18446744073709551616",
        "99999999999999999999x",
        "00012",
        "1_000",
    ] {
        assert_eq!(Config::parse_u64(s), s.parse::<u64>().ok(), "input {:?}", s);
    }
}

#[test]
fn switches_read_in_any_case() {
    assert_eq!(Config::parse_bool(" TRUE "), Some(true));
    assert_eq!(Config::parse_bool("Yes"), Some(true));
    assert_eq!(Config::parse_bool("1"), Some(true));
    assert_eq!(Config::parse_bool("on"), Some(true));
    assert_eq!(Config::parse_bool("Off"), Some(false));
    assert_eq!(Config::parse_bool("0"), Some(false));
    assert_eq!(Config::parse_bool("no"), Some(false));
    assert_eq!(Config::parse_bool("FALSE\t"), Some(false));
    assert_eq!(Config::parse_bool("maybe"), None);
    assert_eq!(Config::parse_bool(""), None);
}

#[test]
fn overrides_set_each_key() {
    let mut c = defaults("u", "p");
    c.apply_override("hust_url", "http://example.com/");
    c.apply_override("probe_timeout_secs", "3");
    c.apply_override("login_timeout_secs", "4");
    c.apply_override("retry_delay_secs", "5");
    c.apply_override("ok_sleep_secs", "6");
    c.apply_override("expect_204_response", "false");
    assert_eq!(c.test_url, "http://example.com/");
    assert_eq!(c.probe_timeout_secs, 3);
    assert_eq!(c.login_timeout_secs, 4);
    assert_eq!(c.retry_delay_secs, 5);
    assert_eq!(c.ok_sleep_secs, 6);
    assert!(!c.expect_204_response);
}

#[test]
fn bad_values_and_unknown_keys_change_nothing() {
    let mut c = defaults("u", "p");
    c.apply_override("probe_timeout_secs", "soon");
    c.apply_override("expect_204_response", "perhaps");
    c.apply_override("username", "intruder");
    c.apply_override("HUST_URL", "http://x/");
    assert_eq!(c.probe_timeout_secs, 10);
    assert!(c.expect_204_response);
    assert_eq!(c.username, "u");
    assert_eq!(c.test_url, "http://connectivitycheck.platform.hicloud.com/generate_204");
}

#[test]
fn readme_example_file() {
    let text = "M2020123123\nmypasswordmypassword\nhust_url=http://connectivitycheck.platform.hicloud.com/generate_204\nprobe_timeout_secs=3\nlogin_timeout_secs=10\nretry_delay_secs=1\nok_sleep_secs=15\nexpect_204_response=true\n";
    let c = Config::from_text(text).unwrap();
    assert_eq!(c.username, "M2020123123");
    assert_eq!(c.password, "mypasswordmypassword");
    assert_eq!(c.probe_timeout_secs, 3);
    assert_eq!(c.login_timeout_secs, 10);
    assert_eq!(c.ok_sleep_secs, 15);
    assert!(c.expect_204_response);
}

#[test]
fn file_lines_are_trimmed_commented_and_split_at_first_equals() {
    let text = "user\r\n pass \r\n\r\n# ok_sleep_secs=1\n  ok_sleep_secs = 30  \nnot a setting\nhust_url = http://a/?x=y\n";
    let c = Config::from_text(text).unwrap();
    assert_eq!(c.username, "user");
    assert_eq!(c.password, " pass ");
    assert_eq!(c.ok_sleep_secs, 30);
    assert_eq!(c.test_url, "http://a/?x=y");
}

#[test]
fn file_needs_two_lines() {
    assert!(Config::from_text("").is_none());
    assert!(Config::from_text("only-user\n").is_none());
    let c = Config::from_text("u\n\n").unwrap();
    assert_eq!(c.password, "");
}

#[test]
fn later_lines_win() {
    let c = Config::from_text("u\np\nok_sleep_secs=1\nok_sleep_secs=2\n").unwrap();
    assert_eq!(c.ok_sleep_secs, 2);
}

#[test]
fn file_bytes_must_be_utf8() {
    assert!(Config::from_file_contents(vec![0xff, 0xfe, b'\n', b'p']).is_none());
    let c = Config::from_file_contents("用户\n密码\n".as_bytes().to_vec()).unwrap();
    assert_eq!(c.username, "用户");
    assert_eq!(c.password, "密码");
}

#[test]
fn file_size_limit_is_ten_kib() {
    assert!(Config::file_size_acceptable(0));
    assert!(Config::file_size_acceptable(10240));
    assert!(!Config::file_size_acceptable(10241));
}

#[test]
fn arguments_choose_the_source() {
    assert!(matches!(Config::source_from_args(vec![]), ConfigSource::DefaultLocations));
    match Config::source_from_args(vec!["./my.conf".to_owned()]) {
        ConfigSource::File(p) => assert_eq!(p, "./my.conf"),
        _ => panic!("expected a file"),
    }
    assert!(matches!(
        Config::source_from_args(vec!["a".to_owned(), "b".to_owned()]),
        ConfigSource::TooManyArguments(2)
    ));
}

#[test]
fn candidates_list_each_path_once() {
    let paths = Config::candidate_paths(vec![
        "/opt/bin/hust-network-login.conf".to_owned(),
        "my.conf".to_owned(),
        "/opt/bin/config.txt".to_owned(),
    ]);
    assert_eq!(
        paths,
        vec![
            "hust-network-login.conf",
            "my.conf",
            "config.txt",
            "/opt/bin/hust-network-login.conf",
            "/opt/bin/config.txt",
        ]
    );
    assert_eq!(Config::candidate_paths(vec![]).len(), 3);
}

fn embedded(username: &str, password: &str) -> EmbeddedSettings {
    EmbeddedSettings {
        available: true,
        use_embedded: true,
        username: username.to_owned(),
        password: password.to_owned(),
        test_url: "http://hust.edu.cn/".to_owned(),
        probe_timeout_secs: 7,
        login_timeout_secs: 8,
        retry_delay_secs: 2,
        ok_sleep_secs: 20,
        expect_204_response: false,
    }
}

#[test]
fn embedded_settings_used_when_complete() {
    let c = Config::from_embedded(&embedded("U1", "pw")).unwrap();
    assert_eq!(c.username, "U1");
    assert_eq!(c.test_url, "http://hust.edu.cn/");
    assert_eq!(c.probe_timeout_secs, 7);
    assert_eq!(c.ok_sleep_secs, 20);
    assert!(!c.expect_204_response);
    assert!(Config::from_embedded(&embedded("  ", "pw")).is_none());
    assert!(Config::from_embedded(&embedded("U1", "\t")).is_none());
    let mut off = embedded("U1", "pw");
    off.use_embedded = false;
    assert!(Config::from_embedded(&off).is_none());
    let mut missing = embedded("U1", "pw");
    missing.available = false;
    assert!(Config::from_embedded(&missing).is_none());
}

#[test]
fn pause_depends_on_outcome() {
    let c = defaults("u", "p");
    assert_eq!(c.pause_after(Ok(())), 15);
    assert_eq!(c.pause_after(Err(LoginError::PermissionDenied)), 1);
}

#[test]
fn same_override_twice_is_same_as_once() {
    let mut once = defaults("u", "p");
    once.apply_override("retry_delay_secs", "9");
    let mut twice = defaults("u", "p");
    twice.apply_override("retry_delay_secs", "9");
    twice.apply_override("retry_delay_secs", "9");
    assert_eq!(once.retry_delay_secs, twice.retry_delay_secs);
    assert_eq!(twice.retry_delay_secs, 9);
}

fn warning_text(w: &ConfigWarning) -> String {
    match w {
        ConfigWarning::InvalidLine(l) => format!("line:{l}"),
        ConfigWarning::UnknownKey(k) => format!("key:{k}"),
        ConfigWarning::InvalidValue { key, value, problem } => {
            format!("value:{key}={value}:{problem:?}")
        }
    }
}

#[test]
fn load_text_reports_what_it_ignored() {
    let text = "u\np\n# comment\n\njunk line\ncolor=blue\nok_sleep_secs=soon\nexpect_204_response=maybe\nhust_url=http://x/\nretry_delay_secs=4\n";
    let (c, warnings) = Config::load_text(text).ok().unwrap();
    assert_eq!(c.test_url, "http://x/");
    assert_eq!(c.retry_delay_secs, 4);
    assert_eq!(c.ok_sleep_secs, 15);
    let shown: Vec<String> = warnings.iter().map(warning_text).collect();
    assert_eq!(
        shown,
        vec![
            "line:junk line",
            "key:color",
            "value:ok_sleep_secs=soon:InvalidDigit",
            "value:expect_204_response=maybe:NotASwitch",
        ]
    );
}

#[test]
fn load_text_names_what_is_missing() {
    assert_eq!(Config::load_text("").err(), Some("NO username and password"));
    assert_eq!(Config::load_text("user\n").err(), Some("NO password"));
}

#[test]
fn load_file_contents_tells_why() {
    assert!(matches!(Config::load_file_contents(vec![0xc3]), Err(LoadError::NotUtf8)));
    assert!(matches!(
        Config::load_file_contents(b"only".to_vec()),
        Err(LoadError::Invalid("NO password"))
    ));
    let (c, w) = Config::load_file_contents(b"a\nb\nx\n".to_vec()).ok().unwrap();
    assert_eq!(c.username, "a");
    assert_eq!(w.len(), 1);
}

#[test]
fn search_reads_candidates_in_order_and_stops_at_first_valid() {
    let candidates: Vec<String> = vec!["a".to_owned(), "b".to_owned(), "c".to_owned()];
    match Config::first_candidate(&candidates) {
        SearchAction::Read(p) => assert_eq!(p, "a"),
        _ => panic!("expected to read the first candidate"),
    }
    match Config::next_candidate(&candidates, 0, None) {
        SearchAction::Read(p) => assert_eq!(p, "b"),
        _ => panic!("expected to read the second candidate"),
    }
    match Config::next_candidate(&candidates, 1, Some(defaults("u", "p"))) {
        SearchAction::Finish(Some(c)) => assert_eq!(c.username, "u"),
        _ => panic!("expected the search to end with the settings"),
    }
    assert!(matches!(Config::next_candidate(&candidates, 2, None), SearchAction::Finish(None)));
    assert!(matches!(Config::first_candidate(&vec![]), SearchAction::Finish(None)));
}

#[test]
fn number_problems_are_those_std_reports() {
    for s in [
        "", "+", "-", "-1", "12a", "a12", "+5", "18446744073709551615",
        "18446744073709551616", "99999999999999999999x", "1_0", "007",
    ] {
        let expected = match s.parse::<u64>() {
            Ok(_) => None,
            Err(e) => Some(match e.kind() {
                IntErrorKind::Empty => ValueProblem::EmptyNumber,
                IntErrorKind::InvalidDigit => ValueProblem::InvalidDigit,
                IntErrorKind::PosOverflow => ValueProblem::NumberTooLarge,
                _ => panic!("unexpected kind for {:?}", s),
            }),
        };
        assert_eq!(Config::number_problem(s), expected, "input {:?}", s);
    }
}

#[test]
fn switch_reading_ignores_space_and_case() {
    for v in [" TRUE ", "\tOff", "YeS", "nO\n", "maybe", " On "] {
        let w = v.trim().to_ascii_lowercase();
        assert_eq!(Config::parse_bool(v), Config::parse_bool(&w), "input {:?}", v);
    }
}
