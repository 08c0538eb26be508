//! The client's settings: defaults, the configuration file's format, and where
//! the file is looked for.

use vstd::prelude::*;

use crate::error::LoginError;
use crate::text::{
    ascii_lower_eq, ascii_lower_is, is_white_space, lemma_trim_of_trimmed, lemma_trimmed_ends,
    lower_code, chars_of, lines, lines_of, split_once, split_once_spec,
    str_eq, trim, trim_spec, views_of,
};

verus! {

/// The page probed to learn whether the network is reachable.
pub const MAIN_DEFAULT_TEST_URL: &'static str = "http://connectivitycheck.platform.hicloud.com/generate_204";

/// Seconds the connectivity probe may take.
pub const MAIN_DEFAULT_PROBE_TIMEOUT_SECS: u64 = 10;

/// Seconds the login request may take.
pub const MAIN_DEFAULT_LOGIN_TIMEOUT_SECS: u64 = 10;

/// Seconds to wait after a failed attempt.
pub const MAIN_DEFAULT_RETRY_DELAY_SECS: u64 = 1;

/// Seconds to wait after a successful check before probing again.
pub const MAIN_DEFAULT_OK_SLEEP_SECS: u64 = 15;

/// Whether the probe page must answer 204 when the network is reachable.
pub const MAIN_DEFAULT_EXPECT_204_RESPONSE: bool = true;

/// Largest configuration file, in bytes, that is read.
pub const MAX_CONFIG_FILE_BYTES: u64 = 10240;

/// The client's settings.
pub struct Config {
    pub username: String,
    pub password: String,
    pub test_url: String,
    pub probe_timeout_secs: u64,
    pub login_timeout_secs: u64,
    pub retry_delay_secs: u64,
    pub ok_sleep_secs: u64,
    pub expect_204_response: bool,
}

/// The settings as mathematical values.
pub struct ConfigView {
    pub username: Seq<char>,
    pub password: Seq<char>,
    pub test_url: Seq<char>,
    pub probe_timeout_secs: u64,
    pub login_timeout_secs: u64,
    pub retry_delay_secs: u64,
    pub ok_sleep_secs: u64,
    pub expect_204_response: bool,
}

impl View for Config {
    type V = ConfigView;

    open spec fn view(&self) -> ConfigView {
        ConfigView {
            username: self.username@,
            password: self.password@,
            test_url: self.test_url@,
            probe_timeout_secs: self.probe_timeout_secs,
            login_timeout_secs: self.login_timeout_secs,
            retry_delay_secs: self.retry_delay_secs,
            ok_sleep_secs: self.ok_sleep_secs,
            expect_204_response: self.expect_204_response,
        }
    }
}

/// The settings for `username` and `password`, everything else at its default.
pub open spec fn defaults_spec(username: Seq<char>, password: Seq<char>) -> ConfigView {
    ConfigView {
        username,
        password,
        test_url: MAIN_DEFAULT_TEST_URL@,
        probe_timeout_secs: MAIN_DEFAULT_PROBE_TIMEOUT_SECS,
        login_timeout_secs: MAIN_DEFAULT_LOGIN_TIMEOUT_SECS,
        retry_delay_secs: MAIN_DEFAULT_RETRY_DELAY_SECS,
        ok_sleep_secs: MAIN_DEFAULT_OK_SLEEP_SECS,
        expect_204_response: MAIN_DEFAULT_EXPECT_204_RESPONSE,
    }
}

/// The characters of an optional string.
pub open spec fn opt_view(o: Option<&str>) -> Option<Seq<char>> {
    match o {
        Some(s) => Some(s@),
        None => None,
    }
}

/// Settings from an optional user name and password: the defaults when both are
/// there, else the message that names what is missing.
pub open spec fn assemble_spec(username: Option<Seq<char>>, password: Option<Seq<char>>) -> Result<
    ConfigView,
    Seq<char>,
> {
    match (username, password) {
        (Some(_), None) => Err("NO password"@),
        (None, Some(_)) => Err("NO username"@),
        (None, None) => Err("NO username and password"@),
        (Some(u), Some(p)) => Ok(defaults_spec(u, p)),
    }
}

/// A decimal digit.
pub open spec fn is_digit(c: char) -> bool {
    '0' <= c && c <= '9'
}

/// The value of the decimal digits `d`.
pub open spec fn decimal_value(d: Seq<char>) -> int
    decreases d.len(),
{
    if d.len() == 0 {
        0
    } else {
        decimal_value(d.drop_last()) * 10 + (d.last() as int - '0' as int)
    }
}

/// The digits of an unsigned number: `s` without one leading `+`.
pub open spec fn unsigned_digits(s: Seq<char>) -> Seq<char> {
    if s.len() > 0 && s[0] == '+' {
        s.drop_first()
    } else {
        s
    }
}

/// `s` read as a `u64` the way `str::parse::<u64>` reads it: an optional `+`, then
/// one or more decimal digits whose value fits in 64 bits.
pub open spec fn parse_u64_spec(s: Seq<char>) -> Option<u64> {
    let d = unsigned_digits(s);
    if d.len() > 0 && (forall|i: int| 0 <= i < d.len() ==> is_digit(#[trigger] d[i]))
        && decimal_value(d) <= u64::MAX {
        Some(decimal_value(d) as u64)
    } else {
        None
    }
}

/// `s` read as a switch: after trimming and with ASCII letters made small, one of
/// `1 true yes on` gives true, one of `0 false no off` gives false.
pub open spec fn parse_bool_spec(s: Seq<char>) -> Option<bool> {
    let t = trim_spec(s);
    if ascii_lower_is(t, "1"@) || ascii_lower_is(t, "true"@) || ascii_lower_is(t, "yes"@)
        || ascii_lower_is(t, "on"@) {
        Some(true)
    } else if ascii_lower_is(t, "0"@) || ascii_lower_is(t, "false"@) || ascii_lower_is(t, "no"@)
        || ascii_lower_is(t, "off"@) {
        Some(false)
    } else {
        None
    }
}

/// A number setting replaced by `value` when it reads as one.
pub open spec fn number_or(old: u64, value: Seq<char>) -> u64 {
    match parse_u64_spec(value) {
        Some(v) => v,
        None => old,
    }
}

/// `c` with the setting named `key` set from `value`; an unknown key, or a value
/// that does not read, changes nothing.
pub open spec fn override_spec(c: ConfigView, key: Seq<char>, value: Seq<char>) -> ConfigView {
    if key == "hust_url"@ {
        ConfigView { test_url: value, ..c }
    } else if key == "probe_timeout_secs"@ {
        ConfigView { probe_timeout_secs: number_or(c.probe_timeout_secs, value), ..c }
    } else if key == "login_timeout_secs"@ {
        ConfigView { login_timeout_secs: number_or(c.login_timeout_secs, value), ..c }
    } else if key == "retry_delay_secs"@ {
        ConfigView { retry_delay_secs: number_or(c.retry_delay_secs, value), ..c }
    } else if key == "ok_sleep_secs"@ {
        ConfigView { ok_sleep_secs: number_or(c.ok_sleep_secs, value), ..c }
    } else if key == "expect_204_response"@ {
        match parse_bool_spec(value) {
            Some(b) => ConfigView { expect_204_response: b, ..c },
            None => c,
        }
    } else {
        c
    }
}

/// `c` after one line of the file's override section: blank lines, lines that
/// start with `#` and lines without `=` change nothing; otherwise the trimmed
/// text before the first `=` names the setting and the trimmed rest is its value.
pub open spec fn apply_line(c: ConfigView, line: Seq<char>) -> ConfigView {
    let t = trim_spec(line);
    if t.len() == 0 || t[0] == '#' {
        c
    } else {
        match split_once_spec(t, '=') {
            None => c,
            Some((k, v)) => override_spec(c, trim_spec(k), trim_spec(v)),
        }
    }
}

/// `c` after the lines `ls`, in order.
pub open spec fn apply_lines(c: ConfigView, ls: Seq<Seq<char>>) -> ConfigView
    decreases ls.len(),
{
    if ls.len() == 0 {
        c
    } else {
        apply_line(apply_lines(c, ls.drop_last()), ls.last())
    }
}

/// The settings a configuration file's text gives: its first line is the user
/// name, its second the password, and the lines after them override defaults.
pub open spec fn from_text_spec(text: Seq<char>) -> Option<ConfigView> {
    let ls = lines_of(text);
    if ls.len() < 2 {
        None
    } else {
        Some(apply_lines(defaults_spec(ls[0], ls[1]), ls.subrange(2, ls.len() as int)))
    }
}

/// Settings built into the program when it was compiled.
pub struct EmbeddedSettings {
    pub available: bool,
    pub use_embedded: bool,
    pub username: String,
    pub password: String,
    pub test_url: String,
    pub probe_timeout_secs: u64,
    pub login_timeout_secs: u64,
    pub retry_delay_secs: u64,
    pub ok_sleep_secs: u64,
    pub expect_204_response: bool,
}

/// The settings built into the program, when they are there, switched on, and
/// give a user name and a password that are not blank.
pub open spec fn from_embedded_spec(e: EmbeddedSettings) -> Option<ConfigView> {
    if !e.available || !e.use_embedded || trim_spec(e.username@).len() == 0 || trim_spec(
        e.password@,
    ).len() == 0 {
        None
    } else {
        Some(
            ConfigView {
                username: e.username@,
                password: e.password@,
                test_url: e.test_url@,
                probe_timeout_secs: e.probe_timeout_secs,
                login_timeout_secs: e.login_timeout_secs,
                retry_delay_secs: e.retry_delay_secs,
                ok_sleep_secs: e.ok_sleep_secs,
                expect_204_response: e.expect_204_response,
            },
        )
    }
}

/// Why a value does not read for its setting; the number cases are those that
/// `str::parse::<u64>` reports.
#[derive(Debug, Clone, Copy, PartialEq, Eq, Structural)]
pub enum ValueProblem {
    /// A number setting was given nothing.
    EmptyNumber,
    /// A number setting was given a character that is not a digit.
    InvalidDigit,
    /// A number setting was given a number above the largest `u64`.
    NumberTooLarge,
    /// A switch setting was given something that is not one of the switch words.
    NotASwitch,
}

/// The first problem met when reading the digits `d` from index `i` on, one digit at
/// a time: a character that is not a digit, or a running value above the largest `u64`.
pub open spec fn digits_problem(d: Seq<char>, i: int) -> Option<ValueProblem>
    decreases d.len() - i,
{
    if i < 0 || i >= d.len() {
        None
    } else if !is_digit(d[i]) {
        Some(ValueProblem::InvalidDigit)
    } else if decimal_value(d.subrange(0, i + 1)) > u64::MAX {
        Some(ValueProblem::NumberTooLarge)
    } else {
        digits_problem(d, i + 1)
    }
}

/// Why `s` does not read as a `u64`, as `str::parse::<u64>` reports it: nothing at
/// all, a sign with nothing after it, or the first problem met in the digits.
pub open spec fn number_problem(s: Seq<char>) -> Option<ValueProblem> {
    if s.len() == 0 {
        Some(ValueProblem::EmptyNumber)
    } else if s.len() == 1 && (s[0] == '+' || s[0] == '-') {
        Some(ValueProblem::InvalidDigit)
    } else {
        digits_problem(unsigned_digits(s), 0)
    }
}

/// Digits with no problem from `i` on are digits whose running values fit.
proof fn lemma_no_digits_problem(d: Seq<char>, i: int)
    requires
        0 <= i,
        digits_problem(d, i) is None,
    ensures
        forall|j: int| i <= j < d.len() ==> is_digit(#[trigger] d[j]) && decimal_value(
            d.subrange(0, j + 1),
        ) <= u64::MAX,
    decreases d.len() - i,
{
    if i < d.len() {
        lemma_no_digits_problem(d, i + 1);
    }
}

/// Digits whose running values fit from `i` on have no problem there.
proof fn lemma_digits_fit(d: Seq<char>, i: int)
    requires
        0 <= i,
        forall|j: int| 0 <= j < d.len() ==> is_digit(#[trigger] d[j]),
        decimal_value(d) <= u64::MAX,
    ensures
        digits_problem(d, i) is None,
    decreases d.len() - i,
{
    if i < d.len() {
        lemma_decimal_prefix(d, i + 1);
        lemma_digits_fit(d, i + 1);
    }
}

/// A value has a number problem exactly when it does not read as a `u64`, so the
/// warnings and the settings agree.
pub proof fn law_number_problem_iff_unreadable(s: Seq<char>)
    ensures
        number_problem(s) is None <==> parse_u64_spec(s) is Some,
{
    let d = unsigned_digits(s);
    if number_problem(s) is None {
        lemma_no_digits_problem(d, 0);
        assert(d.len() > 0);
        assert(d.subrange(0, d.len() as int) =~= d);
        assert(is_digit(d[d.len() - 1]));
    }
    if parse_u64_spec(s) is Some {
        lemma_digits_fit(d, 0);
        if s.len() == 1 && (s[0] == '+' || s[0] == '-') {
            assert(d.len() == 0 || !is_digit(d[0]));
        }
    }
}

/// Something in a configuration file that was not taken as a setting.
pub enum ConfigWarning {
    /// A line, trimmed, that is neither blank, a comment, nor `key=value`.
    InvalidLine(String),
    /// A key that names no setting.
    UnknownKey(String),
    /// A value that does not read for its setting, and why.
    InvalidValue { key: String, value: String, problem: ValueProblem },
}

/// `ConfigWarning` as mathematical values.
pub enum WarningView {
    InvalidLine(Seq<char>),
    UnknownKey(Seq<char>),
    InvalidValue(Seq<char>, Seq<char>, ValueProblem),
}

impl View for ConfigWarning {
    type V = WarningView;

    open spec fn view(&self) -> WarningView {
        match self {
            ConfigWarning::InvalidLine(l) => WarningView::InvalidLine(l@),
            ConfigWarning::UnknownKey(k) => WarningView::UnknownKey(k@),
            ConfigWarning::InvalidValue { key, value, problem } => WarningView::InvalidValue(
                key@,
                value@,
                *problem,
            ),
        }
    }
}

/// The views of warnings, in order.
pub open spec fn warning_views(ws: Seq<ConfigWarning>) -> Seq<WarningView> {
    ws.map_values(|w: ConfigWarning| w@)
}

/// The view of an optional warning.
pub open spec fn opt_warning_view(w: Option<ConfigWarning>) -> Option<WarningView> {
    match w {
        Some(x) => Some(x@),
        None => None,
    }
}

/// What is wrong with setting `key` to `value`, if anything: a key that names no
/// setting, or a value that does not read for a number or switch setting.
pub open spec fn override_warning(key: Seq<char>, value: Seq<char>) -> Option<WarningView> {
    if key == "hust_url"@ {
        None
    } else if key == "probe_timeout_secs"@ || key == "login_timeout_secs"@ || key
        == "retry_delay_secs"@ || key == "ok_sleep_secs"@ {
        match number_problem(value) {
            Some(p) => Some(WarningView::InvalidValue(key, value, p)),
            None => None,
        }
    } else if key == "expect_204_response"@ {
        if parse_bool_spec(value) is None {
            Some(WarningView::InvalidValue(key, value, ValueProblem::NotASwitch))
        } else {
            None
        }
    } else {
        Some(WarningView::UnknownKey(key))
    }
}

/// What is wrong with one line of the override section, if anything.
pub open spec fn line_warning(line: Seq<char>) -> Option<WarningView> {
    let t = trim_spec(line);
    if t.len() == 0 || t[0] == '#' {
        None
    } else {
        match split_once_spec(t, '=') {
            None => Some(WarningView::InvalidLine(t)),
            Some((k, v)) => override_warning(trim_spec(k), trim_spec(v)),
        }
    }
}

/// The warnings for the lines `ls`, in order.
pub open spec fn warnings_of(ls: Seq<Seq<char>>) -> Seq<WarningView>
    decreases ls.len(),
{
    if ls.len() == 0 {
        Seq::empty()
    } else {
        let w = warnings_of(ls.drop_last());
        match line_warning(ls.last()) {
            Some(x) => w.push(x),
            None => w,
        }
    }
}

/// Line `i` of `ls`, when there is one.
pub open spec fn line_at(ls: Seq<Seq<char>>, i: int) -> Option<Seq<char>> {
    if 0 <= i < ls.len() {
        Some(ls[i])
    } else {
        None
    }
}

/// What a configuration file's text gives: the settings and the warnings for its
/// override lines, or the message that names what is missing of the user name and
/// password.
pub open spec fn load_text_spec(text: Seq<char>) -> Result<(ConfigView, Seq<WarningView>), Seq<char>> {
    let ls = lines_of(text);
    match assemble_spec(line_at(ls, 0), line_at(ls, 1)) {
        Err(m) => Err(m),
        Ok(c) => Ok(
            (
                apply_lines(c, ls.subrange(2, ls.len() as int)),
                warnings_of(ls.subrange(2, ls.len() as int)),
            ),
        ),
    }
}

/// Why the bytes of a configuration file give no settings.
pub enum LoadError {
    /// They are not UTF-8 text.
    NotUtf8,
    /// The text lacks a user name or a password; the message names what is missing.
    Invalid(&'static str),
}

/// What to do next while searching for a configuration file.
pub enum SearchAction {
    /// Read the file at this path, and report what it gave.
    Read(String),
    /// The search is over, with the settings found, if any.
    Finish(Option<Config>),
}

/// `SearchAction` with the file to read given by its place in the list.
pub enum SearchView {
    Read(int),
    Finish(Option<ConfigView>),
}

/// The view of optional settings.
pub open spec fn opt_config_view(c: Option<Config>) -> Option<ConfigView> {
    match c {
        Some(x) => Some(x@),
        None => None,
    }
}

/// The first step of a search through `n` candidate files: read the first, or
/// finish with nothing when there is none.
pub open spec fn first_search_step(n: int) -> SearchView {
    if n <= 0 {
        SearchView::Finish(None)
    } else {
        SearchView::Read(0)
    }
}

/// The step after candidate `tried` of `n` gave `found`: settings end the search;
/// otherwise the next candidate is read, or the search ends with nothing.
pub open spec fn next_search_step(n: int, tried: int, found: Option<ConfigView>) -> SearchView {
    match found {
        Some(c) => SearchView::Finish(Some(c)),
        None => if tried + 1 < n {
            SearchView::Read(tried + 1)
        } else {
            SearchView::Finish(None)
        },
    }
}

/// How a search that reads candidate `i` ends, when each candidate `k` gives `outcomes[k]`.
pub open spec fn search_from(outcomes: Seq<Option<ConfigView>>, i: int) -> Option<ConfigView>
    decreases outcomes.len() - i,
{
    if i < 0 || i >= outcomes.len() {
        None
    } else {
        match next_search_step(outcomes.len() as int, i, outcomes[i]) {
            SearchView::Finish(r) => r,
            SearchView::Read(j) => search_from(outcomes, j),
        }
    }
}

/// How a whole search ends, when each candidate `k` gives `outcomes[k]`.
pub open spec fn search_result(outcomes: Seq<Option<ConfigView>>) -> Option<ConfigView> {
    match first_search_step(outcomes.len() as int) {
        SearchView::Finish(r) => r,
        SearchView::Read(j) => search_from(outcomes, j),
    }
}

/// The search ends with the settings of the earliest candidate that gives any:
/// earlier candidates win over later ones, and candidates that give nothing
/// (missing, unreadable or rejected files) are passed over.
pub proof fn law_earliest_valid_file_wins(outcomes: Seq<Option<ConfigView>>, k: int)
    requires
        0 <= k < outcomes.len(),
        outcomes[k] is Some,
        forall|j: int| 0 <= j < k ==> outcomes[j] is None,
    ensures
        search_result(outcomes) == outcomes[k],
{
    lemma_search_from(outcomes, 0, k);
}

/// A search where no candidate gives settings ends with nothing.
pub proof fn law_no_valid_file(outcomes: Seq<Option<ConfigView>>)
    requires
        forall|j: int| 0 <= j < outcomes.len() ==> outcomes[j] is None,
    ensures
        search_result(outcomes) is None,
{
    if outcomes.len() > 0 {
        lemma_search_from_none(outcomes, 0);
    }
}

proof fn lemma_search_from(outcomes: Seq<Option<ConfigView>>, i: int, k: int)
    requires
        0 <= i <= k < outcomes.len(),
        outcomes[k] is Some,
        forall|j: int| 0 <= j < k ==> outcomes[j] is None,
    ensures
        search_from(outcomes, i) == outcomes[k],
    decreases k - i,
{
    if i < k {
        lemma_search_from(outcomes, i + 1, k);
    }
}

proof fn lemma_search_from_none(outcomes: Seq<Option<ConfigView>>, i: int)
    requires
        0 <= i,
        forall|j: int| 0 <= j < outcomes.len() ==> outcomes[j] is None,
    ensures
        search_from(outcomes, i) is None,
    decreases outcomes.len() - i,
{
    if i < outcomes.len() {
        lemma_search_from_none(outcomes, i + 1);
    }
}

/// Where the settings come from, given the program's arguments.
pub enum ConfigSource {
    /// No argument: the default locations are searched.
    DefaultLocations,
    /// One argument: the file it names.
    File(String),
    /// More arguments than one, which is refused; the count is kept.
    TooManyArguments(usize),
}

/// The file names looked for, in order, in the working directory and then beside the program.
pub open spec fn default_config_names() -> Seq<Seq<char>> {
    seq!["hust-network-login.conf"@, "my.conf"@, "config.txt"@]
}

/// `acc` followed by the paths of `extra` that it does not hold yet, in order.
pub open spec fn append_new(acc: Seq<Seq<char>>, extra: Seq<Seq<char>>) -> Seq<Seq<char>>
    decreases extra.len(),
{
    if extra.len() == 0 {
        acc
    } else {
        let before = append_new(acc, extra.drop_last());
        if before.contains(extra.last()) {
            before
        } else {
            before.push(extra.last())
        }
    }
}

/// The characters of each string in `v`.
pub open spec fn string_views(v: Seq<String>) -> Seq<Seq<char>> {
    v.map_values(|x: String| x@)
}

/// Reading a switch ignores white space around it and the case of ASCII letters:
/// any `w` that is the trimmed `v` with its ASCII letters made small reads the same.
pub proof fn law_parse_bool_ignores_space_and_case(v: Seq<char>, w: Seq<char>)
    requires
        ascii_lower_is(trim_spec(v), w),
    ensures
        parse_bool_spec(v) == parse_bool_spec(w),
{
    let t = trim_spec(v);
    lemma_trimmed_ends(v);
    assert forall|i: int| 0 <= i < w.len() implies lower_code(#[trigger] w[i]) == w[i] as u32 && (
    !is_white_space(t[i]) ==> !is_white_space(w[i])) by {
        let c = t[i];
        let d = w[i];
        assert(lower_code(c) == d as u32);
        if !(0x41 <= c as u32 && c as u32 <= 0x5a) {
            assert(c as u32 == d as u32);
            vstd::utf8::char_u32_cast(c, c as u32);
            vstd::utf8::char_u32_cast(d, d as u32);
        }
    }
    if w.len() > 0 {
        assert(!is_white_space(w[0]));
        assert(!is_white_space(w.last())) by {
            assert(w.last() == w[w.len() - 1]);
            assert(t.last() == t[t.len() - 1]);
        }
    }
    lemma_trim_of_trimmed(w);
    assert forall|lit: Seq<char>| ascii_lower_is(t, lit) <==> #[trigger] ascii_lower_is(w, lit) by {
        if ascii_lower_is(t, lit) {
            assert forall|i: int| 0 <= i < w.len() implies lower_code(#[trigger] w[i]) == lit[i] as u32 by {
                assert(lower_code(t[i]) == w[i] as u32);
                assert(lower_code(t[i]) == lit[i] as u32);
            }
        }
        if ascii_lower_is(w, lit) {
            assert forall|i: int| 0 <= i < t.len() implies lower_code(#[trigger] t[i]) == lit[i] as u32 by {
                assert(lower_code(t[i]) == w[i] as u32);
                assert(lower_code(w[i]) == w[i] as u32);
            }
        }
    }
    assert(ascii_lower_is(t, "1"@) == ascii_lower_is(w, "1"@));
    assert(ascii_lower_is(t, "true"@) == ascii_lower_is(w, "true"@));
    assert(ascii_lower_is(t, "yes"@) == ascii_lower_is(w, "yes"@));
    assert(ascii_lower_is(t, "on"@) == ascii_lower_is(w, "on"@));
    assert(ascii_lower_is(t, "0"@) == ascii_lower_is(w, "0"@));
    assert(ascii_lower_is(t, "false"@) == ascii_lower_is(w, "false"@));
    assert(ascii_lower_is(t, "no"@) == ascii_lower_is(w, "no"@));
    assert(ascii_lower_is(t, "off"@) == ascii_lower_is(w, "off"@));
}

/// An override never touches the user name or the password.
pub proof fn law_override_keeps_credentials(c: ConfigView, key: Seq<char>, value: Seq<char>)
    ensures
        override_spec(c, key, value).username == c.username,
        override_spec(c, key, value).password == c.password,
{
}

/// A key that names no setting changes nothing.
pub proof fn law_unknown_key_ignored(c: ConfigView, key: Seq<char>, value: Seq<char>)
    requires
        key != "hust_url"@,
        key != "probe_timeout_secs"@,
        key != "login_timeout_secs"@,
        key != "retry_delay_secs"@,
        key != "ok_sleep_secs"@,
        key != "expect_204_response"@,
    ensures
        override_spec(c, key, value) == c,
{
}

/// Setting the same key to the same value twice is the same as setting it once.
pub proof fn law_override_idempotent(c: ConfigView, key: Seq<char>, value: Seq<char>)
    ensures
        override_spec(override_spec(c, key, value), key, value) == override_spec(c, key, value),
{
}

/// The settings for a user name and password take the documented defaults: the
/// hicloud 204 page, 10 s to probe, 10 s to log in, 1 s before a retry, 15 s after
/// a success, and 204 expected.
pub proof fn law_defaults(username: Seq<char>, password: Seq<char>)
    ensures
        defaults_spec(username, password) == (ConfigView {
            username: username,
            password: password,
            test_url: "http://connectivitycheck.platform.hicloud.com/generate_204"@,
            probe_timeout_secs: 10,
            login_timeout_secs: 10,
            retry_delay_secs: 1,
            ok_sleep_secs: 15,
            expect_204_response: true,
        }),
{
}

/// Each override key sets its own setting and no other: the test page to the
/// value, a number setting to the value when it reads as a `u64`, the switch to
/// the value when it reads as one; every other field keeps its value.
pub proof fn law_override_frame(c: ConfigView, key: Seq<char>, value: Seq<char>)
    ensures
        override_spec(c, key, value).username == c.username,
        override_spec(c, key, value).password == c.password,
        override_spec(c, key, value).test_url == if key == "hust_url"@ {
            value
        } else {
            c.test_url
        },
        override_spec(c, key, value).probe_timeout_secs == if key == "probe_timeout_secs"@ {
            match parse_u64_spec(value) {
                Some(n) => n,
                None => c.probe_timeout_secs,
            }
        } else {
            c.probe_timeout_secs
        },
        override_spec(c, key, value).login_timeout_secs == if key == "login_timeout_secs"@ {
            match parse_u64_spec(value) {
                Some(n) => n,
                None => c.login_timeout_secs,
            }
        } else {
            c.login_timeout_secs
        },
        override_spec(c, key, value).retry_delay_secs == if key == "retry_delay_secs"@ {
            match parse_u64_spec(value) {
                Some(n) => n,
                None => c.retry_delay_secs,
            }
        } else {
            c.retry_delay_secs
        },
        override_spec(c, key, value).ok_sleep_secs == if key == "ok_sleep_secs"@ {
            match parse_u64_spec(value) {
                Some(n) => n,
                None => c.ok_sleep_secs,
            }
        } else {
            c.ok_sleep_secs
        },
        override_spec(c, key, value).expect_204_response == if key == "expect_204_response"@ {
            match parse_bool_spec(value) {
                Some(b) => b,
                None => c.expect_204_response,
            }
        } else {
            c.expect_204_response
        },
{
    reveal_strlit("hust_url");
    reveal_strlit("probe_timeout_secs");
    reveal_strlit("login_timeout_secs");
    reveal_strlit("retry_delay_secs");
    reveal_strlit("ok_sleep_secs");
    reveal_strlit("expect_204_response");
    assert("hust_url"@.len() == 8);
    assert("probe_timeout_secs"@.len() == 18);
    assert("login_timeout_secs"@.len() == 18);
    assert("retry_delay_secs"@.len() == 16);
    assert("ok_sleep_secs"@.len() == 13);
    assert("expect_204_response"@.len() == 19);
    assert("probe_timeout_secs"@[0] != "login_timeout_secs"@[0]);
    assert("probe_timeout_secs"@ != "login_timeout_secs"@);
}

/// The compiled-in settings are used exactly when they are there, switched on, and
/// give a user name and a password that are not blank; then every setting is the
/// compiled-in one, the password included.
pub proof fn law_embedded_settings(e: EmbeddedSettings)
    ensures
        from_embedded_spec(e) is Some <==> (e.available && e.use_embedded && trim_spec(
            e.username@,
        ).len() > 0 && trim_spec(e.password@).len() > 0),
        from_embedded_spec(e) matches Some(c) ==> c.username == e.username@ && c.password
            == e.password@ && c.test_url == e.test_url@ && c.probe_timeout_secs
            == e.probe_timeout_secs && c.login_timeout_secs == e.login_timeout_secs
            && c.retry_delay_secs == e.retry_delay_secs && c.ok_sleep_secs == e.ok_sleep_secs
            && c.expect_204_response == e.expect_204_response,
{
}

/// The decimal digit for `k` (below 10).
pub open spec fn digit_char(k: int) -> char {
    seq!['0', '1', '2', '3', '4', '5', '6', '7', '8', '9'][k]
}

/// How `n` is written in decimal, without leading zeros.
pub open spec fn decimal_digits(n: nat) -> Seq<char>
    decreases n,
{
    if n < 10 {
        seq![digit_char(n as int)]
    } else {
        decimal_digits(n / 10) + seq![digit_char((n % 10) as int)]
    }
}

proof fn lemma_digit_char(k: int)
    requires
        0 <= k < 10,
    ensures
        is_digit(digit_char(k)),
        digit_char(k) as int - '0' as int == k,
{
    let t = seq!['0', '1', '2', '3', '4', '5', '6', '7', '8', '9'];
    assert(t[0] == '0' && t[1] == '1' && t[2] == '2' && t[3] == '3' && t[4] == '4');
    assert(t[5] == '5' && t[6] == '6' && t[7] == '7' && t[8] == '8' && t[9] == '9');
}

proof fn lemma_decimal_digits(n: nat)
    ensures
        decimal_digits(n).len() > 0,
        forall|i: int| 0 <= i < decimal_digits(n).len() ==> is_digit(#[trigger] decimal_digits(n)[i]),
        decimal_value(decimal_digits(n)) == n,
    decreases n,
{
    if n < 10 {
        lemma_digit_char(n as int);
        let d = decimal_digits(n);
        assert(d.drop_last() =~= Seq::<char>::empty());
        assert(decimal_value(d) == decimal_value(d.drop_last()) * 10 + (d.last() as int - '0' as int));
    } else {
        lemma_decimal_digits(n / 10);
        lemma_digit_char((n % 10) as int);
        let d = decimal_digits(n);
        assert(d.drop_last() =~= decimal_digits(n / 10));
        assert(d.last() == digit_char((n % 10) as int));
        assert(forall|i: int| 0 <= i < d.len() ==> is_digit(#[trigger] d[i])) by {
            assert forall|i: int| 0 <= i < d.len() implies is_digit(#[trigger] d[i]) by {
                if i < d.len() - 1 {
                    assert(d[i] == decimal_digits(n / 10)[i]);
                }
            }
        }
        assert((n / 10) * 10 + n % 10 == n) by (nonlinear_arith);
        assert(decimal_value(d) == decimal_value(d.drop_last()) * 10 + (d.last() as int - '0' as int));
        assert(decimal_value(d.drop_last()) == n / 10);
        assert(d.last() as int - '0' as int == n % 10);
    }
}

/// Every `u64`, written in decimal, reads back as itself, and with a leading `+` too.
pub proof fn law_decimal_roundtrip(n: u64)
    ensures
        parse_u64_spec(decimal_digits(n as nat)) == Some(n),
        parse_u64_spec(seq!['+'] + decimal_digits(n as nat)) == Some(n),
{
    let d = decimal_digits(n as nat);
    lemma_decimal_digits(n as nat);
    assert(is_digit(d[0]));
    assert(unsigned_digits(d) == d);
    assert((seq!['+'] + d).drop_first() =~= d);
    assert(unsigned_digits(seq!['+'] + d) == d);
}

/// A value reads as a number only when it is made of digits, after at most one
/// leading `+`: a `-`, a space or any other character refuses it.
pub proof fn law_number_shape(s: Seq<char>)
    requires
        parse_u64_spec(s) is Some,
    ensures
        s.len() > 0,
        forall|i: int| 0 <= i < s.len() ==> is_digit(#[trigger] s[i]) || (i == 0 && s[i] == '+'),
{
    let d = unsigned_digits(s);
    assert forall|i: int| 0 <= i < s.len() implies is_digit(#[trigger] s[i]) || (i == 0 && s[i]
        == '+') by {
        if s[0] == '+' {
            if i > 0 {
                assert(s[i] == d[i - 1]);
            }
        } else {
            assert(s[i] == d[i]);
        }
    }
}

/// The switch words: after trimming and with ASCII letters made small, `1`, `true`,
/// `yes` and `on` read as true, `0`, `false`, `no` and `off` as false, and nothing
/// else reads.
pub proof fn law_switch_words(v: Seq<char>)
    ensures
        parse_bool_spec(v) == Some(true) <==> (ascii_lower_is(trim_spec(v), "1"@) || ascii_lower_is(
            trim_spec(v),
            "true"@,
        ) || ascii_lower_is(trim_spec(v), "yes"@) || ascii_lower_is(trim_spec(v), "on"@)),
        parse_bool_spec(v) == Some(false) <==> (!(ascii_lower_is(trim_spec(v), "1"@)
            || ascii_lower_is(trim_spec(v), "true"@) || ascii_lower_is(trim_spec(v), "yes"@)
            || ascii_lower_is(trim_spec(v), "on"@)) && (ascii_lower_is(trim_spec(v), "0"@)
            || ascii_lower_is(trim_spec(v), "false"@) || ascii_lower_is(trim_spec(v), "no"@)
            || ascii_lower_is(trim_spec(v), "off"@))),
{
}

/// The message for missing credentials names exactly what is missing, and when
/// both are there they are taken as they stand.
pub proof fn law_missing_credentials(u: Seq<char>, p: Seq<char>)
    ensures
        assemble_spec(Some(u), None) == Err::<ConfigView, Seq<char>>("NO password"@),
        assemble_spec(None, Some(p)) == Err::<ConfigView, Seq<char>>("NO username"@),
        assemble_spec(None, None) == Err::<ConfigView, Seq<char>>("NO username and password"@),
        assemble_spec(Some(u), Some(p)) matches Ok(c) && c.username == u && c.password == p,
{
}

/// Override lines are applied in file order, so a later line wins over an earlier one.
pub proof fn law_later_line_applied_last(c: ConfigView, ls: Seq<Seq<char>>, line: Seq<char>)
    ensures
        apply_lines(c, ls.push(line)) == apply_line(apply_lines(c, ls), line),
{
    assert(ls.push(line).drop_last() =~= ls);
}

/// Files larger than 10 KiB are not read.
pub proof fn law_size_limit()
    ensures
        MAX_CONFIG_FILE_BYTES == 10240,
{
}

/// The override lines of a file never touch the user name or the password.
pub proof fn law_lines_keep_credentials(c: ConfigView, ls: Seq<Seq<char>>)
    ensures
        apply_lines(c, ls).username == c.username,
        apply_lines(c, ls).password == c.password,
    decreases ls.len(),
{
    if ls.len() > 0 {
        law_lines_keep_credentials(c, ls.drop_last());
        let before = apply_lines(c, ls.drop_last());
        let t = trim_spec(ls.last());
        if !(t.len() == 0 || t[0] == '#') {
            match split_once_spec(t, '=') {
                None => {},
                Some((k, v)) => law_override_keeps_credentials(before, trim_spec(k), trim_spec(v)),
            }
        }
    }
}

/// A configuration file gives settings exactly when it has two lines or more; its
/// first line is then the user name and its second the password, as they stand.
pub proof fn law_file_header(text: Seq<char>)
    ensures
        from_text_spec(text) is Some <==> lines_of(text).len() >= 2,
        from_text_spec(text) matches Some(c) ==> c.username == lines_of(text)[0] && c.password
            == lines_of(text)[1],
{
    let ls = lines_of(text);
    if ls.len() >= 2 {
        law_lines_keep_credentials(defaults_spec(ls[0], ls[1]), ls.subrange(2, ls.len() as int));
    }
}

/// `acc` followed by new paths from `extra`: `acc` stays in front, every path of
/// `extra` is listed, and nothing is listed twice when `acc` lists nothing twice.
proof fn lemma_append_new(acc: Seq<Seq<char>>, extra: Seq<Seq<char>>)
    requires
        acc.no_duplicates(),
    ensures
        append_new(acc, extra).no_duplicates(),
        append_new(acc, extra).subrange(0, acc.len() as int) == acc,
        acc.len() <= append_new(acc, extra).len(),
        forall|i: int| 0 <= i < extra.len() ==> append_new(acc, extra).contains(#[trigger] extra[i]),
    decreases extra.len(),
{
    if extra.len() > 0 {
        let rest = extra.drop_last();
        lemma_append_new(acc, rest);
        let before = append_new(acc, rest);
        assert forall|i: int| 0 <= i < extra.len() implies append_new(acc, extra).contains(
            #[trigger] extra[i],
        ) by {
            if i < extra.len() - 1 {
                assert(rest[i] == extra[i]);
                assert(before.contains(rest[i]));
                if !before.contains(extra.last()) {
                    let k = choose|k: int| 0 <= k < before.len() && before[k] == rest[i];
                    assert(before.push(extra.last())[k] == extra[i]);
                }
            } else {
                if !before.contains(extra.last()) {
                    assert(before.push(extra.last())[before.len() as int] == extra[i]);
                }
            }
        }
        if !before.contains(extra.last()) {
            assert(before.push(extra.last()).subrange(0, acc.len() as int) =~= before.subrange(
                0,
                acc.len() as int,
            ));
        }
    }
}

/// The candidate files: the default names first, each path listed once, and
/// every path beside the program among them.
pub proof fn law_candidates_listed_once(beside_program: Seq<Seq<char>>)
    ensures
        append_new(default_config_names(), beside_program).subrange(0, 3) == default_config_names(),
        append_new(default_config_names(), beside_program).no_duplicates(),
        forall|i: int|
            0 <= i < beside_program.len() ==> append_new(default_config_names(), beside_program).contains(
                #[trigger] beside_program[i],
            ),
{
    reveal_strlit("hust-network-login.conf");
    reveal_strlit("my.conf");
    reveal_strlit("config.txt");
    let d = default_config_names();
    assert(d.len() == 3);
    assert(d[0].len() != d[1].len() && d[0].len() != d[2].len() && d[1].len() != d[2].len());
    assert(d.no_duplicates());
    lemma_append_new(d, beside_program);
}

/// The value of a prefix of a run of digits is at most the value of the whole run.
pub proof fn lemma_decimal_prefix(d: Seq<char>, k: int)
    requires
        0 <= k <= d.len(),
        forall|i: int| 0 <= i < d.len() ==> is_digit(#[trigger] d[i]),
    ensures
        0 <= decimal_value(d.subrange(0, k)) <= decimal_value(d),
    decreases d.len() - k,
{
    if k == d.len() {
        assert(d.subrange(0, k) =~= d);
        lemma_decimal_nonneg(d);
    } else {
        lemma_decimal_prefix(d, k + 1);
        let pre = d.subrange(0, k + 1);
        assert(pre.drop_last() =~= d.subrange(0, k));
        assert(is_digit(pre.last()));
        lemma_decimal_nonneg(d.subrange(0, k));
    }
}

/// Digits have a value of at least zero.
pub proof fn lemma_decimal_nonneg(d: Seq<char>)
    requires
        forall|i: int| 0 <= i < d.len() ==> is_digit(#[trigger] d[i]),
    ensures
        decimal_value(d) >= 0,
    decreases d.len(),
{
    if d.len() > 0 {
        lemma_decimal_nonneg(d.drop_last());
        assert(is_digit(d[d.len() - 1]));
    }
}

/// Calls `String::from_utf8`: the text whose UTF-8 form is `raw`, or `None` when
/// `raw` is not the UTF-8 form of any text.
#[verifier::external_body]
fn decode_utf8(raw: Vec<u8>) -> (r: Option<String>)
    ensures
        r matches Some(s) ==> vstd::utf8::encode_utf8(s@) == raw@,
        r is None ==> forall|text: Seq<char>| vstd::utf8::encode_utf8(text) != raw@,
{
    String::from_utf8(raw).ok()
}

impl Config {
    /// Settings for `username` and `password`, everything else at its default.
    pub fn with_main_defaults(username: String, password: String) -> (c: Self)
        ensures
            c@ == defaults_spec(username@, password@),
    {
        Self {
            username,
            password,
            test_url: MAIN_DEFAULT_TEST_URL.to_owned(),
            probe_timeout_secs: MAIN_DEFAULT_PROBE_TIMEOUT_SECS,
            login_timeout_secs: MAIN_DEFAULT_LOGIN_TIMEOUT_SECS,
            retry_delay_secs: MAIN_DEFAULT_RETRY_DELAY_SECS,
            ok_sleep_secs: MAIN_DEFAULT_OK_SLEEP_SECS,
            expect_204_response: MAIN_DEFAULT_EXPECT_204_RESPONSE,
        }
    }

    /// Settings from an optional user name and password; when one is missing, the
    /// message that names what is missing.
    pub fn validate_and_assemble(username: Option<&str>, password: Option<&str>) -> (r: Result<
        Self,
        &'static str,
    >)
        ensures
            match r {
                Ok(c) => assemble_spec(opt_view(username), opt_view(password)) == Ok::<
                    ConfigView,
                    Seq<char>,
                >(c@),
                Err(m) => assemble_spec(opt_view(username), opt_view(password)) == Err::<
                    ConfigView,
                    Seq<char>,
                >(m@),
            },
    {
        match (username, password) {
            (Some(_), None) => Err("NO password"),
            (None, Some(_)) => Err("NO username"),
            (None, None) => Err("NO username and password"),
            (Some(username), Some(password)) => Ok(
                Self::with_main_defaults(username.to_owned(), password.to_owned()),
            ),
        }
    }
}

impl Config {
    /// `value` read as a `u64`, as `str::parse::<u64>` reads it; `None` when it does not read.
    pub fn parse_u64(value: &str) -> (r: Option<u64>)
        ensures
            r == parse_u64_spec(value@),
    {
        let v = chars_of(value);
        let n = v.len();
        let start: usize = if n > 0 && v[0] == '+' {
            1
        } else {
            0
        };
        let ghost d = unsigned_digits(value@);
        assert(d =~= v@.subrange(start as int, n as int));
        if start == n {
            return None;
        }
        let mut acc: u64 = 0;
        let mut i: usize = start;
        assert(v@.subrange(start as int, start as int) =~= Seq::<char>::empty());
        while i < n
            invariant
                start <= i <= n,
                n == v.len(),
                d == v@.subrange(start as int, n as int),
                d == unsigned_digits(value@),
                forall|k: int| start <= k < i ==> is_digit(#[trigger] v@[k]),
                acc == decimal_value(v@.subrange(start as int, i as int)),
            decreases n - i,
        {
            let c = v[i];
            if !('0' <= c && c <= '9') {
                assert(!is_digit(d[i - start]));
                return None;
            }
            let digit: u64 = (c as u32 - '0' as u32) as u64;
            let ghost pre = v@.subrange(start as int, i + 1);
            assert(pre.drop_last() =~= v@.subrange(start as int, i as int));
            assert(forall|k: int| 0 <= k < pre.len() ==> is_digit(#[trigger] pre[k]));
            match acc.checked_mul(10) {
                None => {
                    proof {
                        assert(forall|k: int| 0 <= k < d.len() ==> #[trigger] d[k] == v@[start + k]);
                        if forall|k: int| 0 <= k < d.len() ==> is_digit(#[trigger] d[k]) {
                            lemma_decimal_prefix(d, i + 1 - start);
                            assert(d.subrange(0, i + 1 - start) =~= pre);
                            lemma_decimal_nonneg(pre.drop_last());
                        }
                    }
                    return None;
                },
                Some(m) => match m.checked_add(digit) {
                    None => {
                        proof {
                            assert(forall|k: int| 0 <= k < d.len() ==> #[trigger] d[k] == v@[start + k]);
                            if forall|k: int| 0 <= k < d.len() ==> is_digit(#[trigger] d[k]) {
                                lemma_decimal_prefix(d, i + 1 - start);
                                assert(d.subrange(0, i + 1 - start) =~= pre);
                            }
                        }
                        return None;
                    },
                    Some(next) => {
                        acc = next;
                    },
                },
            }
            i = i + 1;
        }
        assert forall|k: int| 0 <= k < d.len() implies is_digit(#[trigger] d[k]) by {
            assert(d[k] == v@[start + k]);
        }
        assert(v@.subrange(start as int, n as int) == d);
        Some(acc)
    }

    /// Why `value` does not read as a `u64`, as `str::parse::<u64>` reports it; `None`
    /// when it reads.
    pub fn number_problem(value: &str) -> (r: Option<ValueProblem>)
        ensures
            r == number_problem(value@),
    {
        let v = chars_of(value);
        let n = v.len();
        if n == 0 {
            return Some(ValueProblem::EmptyNumber);
        }
        if n == 1 && (v[0] == '+' || v[0] == '-') {
            return Some(ValueProblem::InvalidDigit);
        }
        let start: usize = if v[0] == '+' {
            1
        } else {
            0
        };
        let ghost d = unsigned_digits(value@);
        assert(d =~= v@.subrange(start as int, n as int));
        let mut acc: u64 = 0;
        let mut i: usize = start;
        assert(d.subrange(0, 0) =~= Seq::<char>::empty());
        while i < n
            invariant
                start <= i <= n,
                n == v.len(),
                d == v@.subrange(start as int, n as int),
                number_problem(value@) == digits_problem(d, i - start),
                acc == decimal_value(d.subrange(0, i - start)),
            decreases n - i,
        {
            let c = v[i];
            let k = i - start;
            assert(d[k as int] == c);
            if !('0' <= c && c <= '9') {
                return Some(ValueProblem::InvalidDigit);
            }
            let digit: u64 = (c as u32 - '0' as u32) as u64;
            assert(d.subrange(0, k + 1).drop_last() =~= d.subrange(0, k as int));
            match acc.checked_mul(10) {
                None => {
                    return Some(ValueProblem::NumberTooLarge);
                },
                Some(m) => match m.checked_add(digit) {
                    None => {
                        return Some(ValueProblem::NumberTooLarge);
                    },
                    Some(next) => {
                        acc = next;
                    },
                },
            }
            i = i + 1;
        }
        None
    }

    /// `value` read as a switch (`1 true yes on` or `0 false no off`, trimmed,
    /// ASCII case ignored); `None` when it is neither.
    pub fn parse_bool(value: &str) -> (r: Option<bool>)
        ensures
            r == parse_bool_spec(value@),
    {
        let t = chars_of(trim(value));
        if ascii_lower_eq(&t, "1") || ascii_lower_eq(&t, "true") || ascii_lower_eq(&t, "yes")
            || ascii_lower_eq(&t, "on") {
            Some(true)
        } else if ascii_lower_eq(&t, "0") || ascii_lower_eq(&t, "false") || ascii_lower_eq(
            &t,
            "no",
        ) || ascii_lower_eq(&t, "off") {
            Some(false)
        } else {
            None
        }
    }

    /// Sets the setting named `key` from `value`; an unknown key, or a value that
    /// does not read, changes nothing.
    pub fn apply_override(&mut self, key: &str, value: &str)
        ensures
            final(self)@ == override_spec(old(self)@, key@, value@),
    {
        if str_eq(key, "hust_url") {
            self.test_url = value.to_owned();
        } else if str_eq(key, "probe_timeout_secs") {
            if let Some(v) = Self::parse_u64(value) {
                self.probe_timeout_secs = v;
            }
        } else if str_eq(key, "login_timeout_secs") {
            if let Some(v) = Self::parse_u64(value) {
                self.login_timeout_secs = v;
            }
        } else if str_eq(key, "retry_delay_secs") {
            if let Some(v) = Self::parse_u64(value) {
                self.retry_delay_secs = v;
            }
        } else if str_eq(key, "ok_sleep_secs") {
            if let Some(v) = Self::parse_u64(value) {
                self.ok_sleep_secs = v;
            }
        } else if str_eq(key, "expect_204_response") {
            if let Some(v) = Self::parse_bool(value) {
                self.expect_204_response = v;
            }
        }
    }

    /// What is wrong with setting `key` to `value`, if anything.
    fn override_warning_of(key: &str, value: &str) -> (w: Option<ConfigWarning>)
        ensures
            opt_warning_view(w) == override_warning(key@, value@),
    {
        if str_eq(key, "hust_url") {
            None
        } else if str_eq(key, "probe_timeout_secs") || str_eq(key, "login_timeout_secs") || str_eq(
            key,
            "retry_delay_secs",
        ) || str_eq(key, "ok_sleep_secs") {
            match Self::number_problem(value) {
                Some(problem) => Some(
                    ConfigWarning::InvalidValue {
                        key: key.to_owned(),
                        value: value.to_owned(),
                        problem,
                    },
                ),
                None => None,
            }
        } else if str_eq(key, "expect_204_response") {
            if Self::parse_bool(value).is_none() {
                Some(
                    ConfigWarning::InvalidValue {
                        key: key.to_owned(),
                        value: value.to_owned(),
                        problem: ValueProblem::NotASwitch,
                    },
                )
            } else {
                None
            }
        } else {
            Some(ConfigWarning::UnknownKey(key.to_owned()))
        }
    }

    /// Applies one line of the file's override section, and tells what was wrong with it.
    fn apply_line(&mut self, line: &str) -> (w: Option<ConfigWarning>)
        ensures
            final(self)@ == apply_line(old(self)@, line@),
            opt_warning_view(w) == line_warning(line@),
    {
        let line = trim(line);
        let first = chars_of(line);
        if first.len() == 0 || first[0] == '#' {
            return None;
        }
        match split_once(line, '=') {
            Some((key, value)) => {
                let key = trim(key);
                let value = trim(value);
                let w = Self::override_warning_of(key, value);
                self.apply_override(key, value);
                w
            },
            None => Some(ConfigWarning::InvalidLine(line.to_owned())),
        }
    }

    /// What the text of a configuration file gives: the settings, with the user name
    /// on its first line, the password on its second and overrides after them, and
    /// the warnings for the override lines in order; or the message that names what
    /// is missing of the user name and password.
    pub fn load_text(configuration: &str) -> (r: Result<(Self, Vec<ConfigWarning>), &'static str>)
        ensures
            match r {
                Ok((c, ws)) => load_text_spec(configuration@) == Ok::<
                    (ConfigView, Seq<WarningView>),
                    Seq<char>,
                >((c@, warning_views(ws@))),
                Err(m) => load_text_spec(configuration@) == Err::<
                    (ConfigView, Seq<WarningView>),
                    Seq<char>,
                >(m@),
            },
    {
        let ls = lines(configuration);
        let ghost lv = lines_of(configuration@);
        assert(ls@.len() == lv.len());
        let username: Option<&str> = if ls.len() > 0 {
            Some(ls[0])
        } else {
            None
        };
        let password: Option<&str> = if ls.len() > 1 {
            Some(ls[1])
        } else {
            None
        };
        assert(opt_view(username) == line_at(lv, 0));
        assert(opt_view(password) == line_at(lv, 1));
        let mut result = match Self::validate_and_assemble(username, password) {
            Ok(c) => c,
            Err(m) => {
                return Err(m);
            },
        };
        let ghost start = result@;
        let mut warnings: Vec<ConfigWarning> = Vec::new();
        let mut i: usize = 2;
        assert(lv.subrange(2, 2) =~= Seq::<Seq<char>>::empty());
        assert(warning_views(warnings@) =~= Seq::<WarningView>::empty());
        while i < ls.len()
            invariant
                2 <= i <= ls.len(),
                ls@.len() == lv.len(),
                views_of(ls@) == lv,
                lv == lines_of(configuration@),
                result@ == apply_lines(start, lv.subrange(2, i as int)),
                warning_views(warnings@) == warnings_of(lv.subrange(2, i as int)),
            decreases ls.len() - i,
        {
            let ghost before = lv.subrange(2, i as int);
            let ghost ws_before = warnings@;
            let w = result.apply_line(ls[i]);
            assert(ls@[i as int]@ == lv[i as int]);
            assert(lv.subrange(2, i + 1).drop_last() =~= before);
            match w {
                Some(x) => {
                    warnings.push(x);
                    assert(warning_views(warnings@) =~= warning_views(ws_before).push(x@));
                },
                None => {},
            }
            i = i + 1;
        }
        assert(lv.subrange(2, lv.len() as int) == lv.subrange(2, i as int));
        Ok((result, warnings))
    }

    /// The bytes of a configuration file read as its text, then as `load_text` reads
    /// that text; `NotUtf8` when they are not UTF-8.
    pub fn load_file_contents(raw: Vec<u8>) -> (r: Result<(Self, Vec<ConfigWarning>), LoadError>)
        ensures
            match r {
                Ok((c, ws)) => exists|text: Seq<char>|
                    vstd::utf8::encode_utf8(text) == raw@ && #[trigger] load_text_spec(text) == Ok::<
                        (ConfigView, Seq<WarningView>),
                        Seq<char>,
                    >((c@, warning_views(ws@))),
                Err(LoadError::Invalid(m)) => exists|text: Seq<char>|
                    vstd::utf8::encode_utf8(text) == raw@ && #[trigger] load_text_spec(text) == Err::<
                        (ConfigView, Seq<WarningView>),
                        Seq<char>,
                    >(m@),
                Err(LoadError::NotUtf8) => forall|text: Seq<char>|
                    vstd::utf8::encode_utf8(text) != raw@,
            },
    {
        match decode_utf8(raw) {
            None => Err(LoadError::NotUtf8),
            Some(text) => match Self::load_text(text.as_str()) {
                Ok(found) => Ok(found),
                Err(m) => Err(LoadError::Invalid(m)),
            },
        }
    }

    /// The first step of a search through `candidates`, in order: read the first,
    /// or finish with nothing when there is none.
    pub fn first_candidate(candidates: &Vec<String>) -> (r: SearchAction)
        ensures
            candidates.len() == 0 ==> (r matches SearchAction::Finish(None)),
            candidates.len() > 0 ==> (r matches SearchAction::Read(p) && p@ == candidates@[0]@),
            match first_search_step(candidates.len() as int) {
                SearchView::Read(k) => r matches SearchAction::Read(p) && p@ == candidates@[k]@,
                SearchView::Finish(x) => r matches SearchAction::Finish(d) && opt_config_view(d) == x,
            },
    {
        if candidates.len() == 0 {
            SearchAction::Finish(None)
        } else {
            SearchAction::Read(candidates[0].clone())
        }
    }

    /// The step after candidate `tried` gave `found`: settings end the search;
    /// otherwise the next candidate is read, or the search ends with nothing.
    pub fn next_candidate(candidates: &Vec<String>, tried: usize, found: Option<Config>) -> (r:
        SearchAction)
        ensures
            found matches Some(c) ==> (r matches SearchAction::Finish(Some(d)) && d@ == c@),
            found is None && tried + 1 < candidates.len() ==> (r matches SearchAction::Read(p) && p@
                == candidates@[tried + 1]@),
            found is None && tried + 1 >= candidates.len() ==> (r matches SearchAction::Finish(None)),
            match next_search_step(candidates.len() as int, tried as int, opt_config_view(found)) {
                SearchView::Read(k) => r matches SearchAction::Read(p) && p@ == candidates@[k]@,
                SearchView::Finish(x) => r matches SearchAction::Finish(d) && opt_config_view(d) == x,
            },
    {
        match found {
            Some(c) => SearchAction::Finish(Some(c)),
            None => if candidates.len() > 0 && tried < candidates.len() - 1 {
                SearchAction::Read(candidates[tried + 1].clone())
            } else {
                SearchAction::Finish(None)
            },
        }
    }

    /// The settings that the text of a configuration file gives: the user name on
    /// its first line, the password on its second, and overrides after them.
    pub fn from_text(configuration: &str) -> (r: Option<Self>)
        ensures
            match r {
                Some(c) => from_text_spec(configuration@) == Some(c@),
                None => from_text_spec(configuration@) is None,
            },
    {
        match Self::load_text(configuration) {
            Ok((c, _)) => Some(c),
            Err(_) => None,
        }
    }

    /// The settings that the bytes of a configuration file give, when they are
    /// UTF-8 text; `None` when they are not, or when the text gives no settings.
    pub fn from_file_contents(raw: Vec<u8>) -> (r: Option<Self>)
        ensures
            match r {
                Some(c) => exists|text: Seq<char>|
                    vstd::utf8::encode_utf8(text) == raw@ && #[trigger] from_text_spec(text) == Some(
                        c@,
                    ),
                None => forall|text: Seq<char>|
                    vstd::utf8::encode_utf8(text) == raw@ ==> #[trigger] from_text_spec(text) is None,
            },
    {
        let ghost bytes = raw@;
        match decode_utf8(raw) {
            None => None,
            Some(text) => {
                proof {
                    assert forall|other: Seq<char>| vstd::utf8::encode_utf8(other) == bytes implies other
                        == text@ by {
                        vstd::utf8::encode_utf8_decode_utf8(other);
                        vstd::utf8::encode_utf8_decode_utf8(text@);
                    }
                }
                Self::from_text(text.as_str())
            },
        }
    }

    /// Whether a configuration file of `len` bytes is small enough to be read.
    pub fn file_size_acceptable(len: u64) -> (r: bool)
        ensures
            r == (len <= MAX_CONFIG_FILE_BYTES),
    {
        len <= MAX_CONFIG_FILE_BYTES
    }

    /// The settings built into the program, when they are there, switched on, and
    /// give a user name and a password that are not blank.
    pub fn from_embedded(e: &EmbeddedSettings) -> (r: Option<Self>)
        ensures
            match r {
                Some(c) => from_embedded_spec(*e) == Some(c@),
                None => from_embedded_spec(*e) is None,
            },
    {
        if !e.available || !e.use_embedded {
            return None;
        }
        if trim(e.username.as_str()).is_empty() || trim(e.password.as_str()).is_empty() {
            return None;
        }
        Some(
            Self {
                username: e.username.clone(),
                password: e.password.clone(),
                test_url: e.test_url.clone(),
                probe_timeout_secs: e.probe_timeout_secs,
                login_timeout_secs: e.login_timeout_secs,
                retry_delay_secs: e.retry_delay_secs,
                ok_sleep_secs: e.ok_sleep_secs,
                expect_204_response: e.expect_204_response,
            },
        )
    }

    /// Where the settings come from: the default locations for no argument, the
    /// named file for one, and a refusal for more.
    pub fn source_from_args(args: Vec<String>) -> (r: ConfigSource)
        ensures
            args.len() == 0 ==> r is DefaultLocations,
            args.len() == 1 ==> (r matches ConfigSource::File(p) && p@ == args@[0]@),
            args.len() > 1 ==> (r matches ConfigSource::TooManyArguments(n) && n == args.len()),
    {
        let mut args = args;
        let n = args.len();
        if n == 0 {
            ConfigSource::DefaultLocations
        } else if n == 1 {
            let p = args.pop();
            match p {
                Some(p) => ConfigSource::File(p),
                None => ConfigSource::DefaultLocations,
            }
        } else {
            ConfigSource::TooManyArguments(n)
        }
    }

    /// The names of the configuration files looked for, in order of preference.
    pub fn config_file_names() -> (r: Vec<String>)
        ensures
            string_views(r@) == default_config_names(),
    {
        let mut names: Vec<String> = Vec::new();
        names.push("hust-network-login.conf".to_owned());
        names.push("my.conf".to_owned());
        names.push("config.txt".to_owned());
        assert(string_views(names@) =~= default_config_names());
        names
    }

    /// The configuration files to look for, in order: the default names in the
    /// working directory, then `beside_program` (the same names in the program's
    /// directory) without those already listed.
    pub fn candidate_paths(beside_program: Vec<String>) -> (r: Vec<String>)
        ensures
            string_views(r@) == append_new(default_config_names(), string_views(beside_program@)),
    {
        let mut paths = Self::config_file_names();
        let ghost extra = string_views(beside_program@);
        let mut i: usize = 0;
        assert(extra.subrange(0, 0) =~= Seq::<Seq<char>>::empty());
        while i < beside_program.len()
            invariant
                i <= beside_program.len(),
                extra == string_views(beside_program@),
                string_views(paths@) == append_new(default_config_names(), extra.subrange(0, i as int)),
            decreases beside_program.len() - i,
        {
            let candidate = &beside_program[i];
            let mut j: usize = 0;
            let mut present = false;
            while j < paths.len()
                invariant
                    j <= paths.len(),
                    present == exists|k: int| 0 <= k < j && #[trigger] paths@[k]@ == candidate@,
                decreases paths.len() - j,
            {
                if paths[j] == *candidate {
                    present = true;
                }
                j = j + 1;
            }
            let ghost before = string_views(paths@);
            assert(extra.subrange(0, i + 1).drop_last() =~= extra.subrange(0, i as int));
            assert(extra.subrange(0, i + 1).last() == candidate@);
            if present {
                proof {
                    let k = choose|k: int| 0 <= k < paths@.len() && #[trigger] paths@[k]@ == candidate@;
                    assert(before[k] == candidate@);
                }
            } else {
                assert(!before.contains(candidate@)) by {
                    if before.contains(candidate@) {
                        let k = choose|k: int| 0 <= k < before.len() && before[k] == candidate@;
                        assert(paths@[k]@ == candidate@);
                    }
                }
                paths.push(candidate.clone());
                assert(string_views(paths@) =~= before.push(candidate@));
            }
            i = i + 1;
        }
        assert(extra.subrange(0, i as int) =~= extra);
        paths
    }

    /// Seconds to wait before the next attempt: the success pause after a login
    /// check that succeeded, the retry delay after one that failed.
    pub fn pause_after(&self, outcome: Result<(), LoginError>) -> (secs: u64)
        ensures
            secs == match outcome {
                Ok(()) => self.ok_sleep_secs,
                Err(_) => self.retry_delay_secs,
            },
    {
        match outcome {
            Ok(()) => self.ok_sleep_secs,
            Err(_) => self.retry_delay_secs,
        }
    }
}

} // verus!
