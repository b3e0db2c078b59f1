//! The observation every probe produces, and the rules that decide whether
//! it is a success.

use vstd::prelude::*;
use crate::domain::monitor::{
    HeaderMatchMode, HttpHeaderMatch, HttpHeaderMatchView, Monitor, MonitorConfig,
    MonitorConfigView, MonitorKind, MonitorView, header_rule_views,
};
use crate::pattern::{regex_compile_error, regex_finds_match, regex_search};
use crate::text::{
    ascii_lowercase, lemma_ascii_lowercase_idempotent, decimal, decimal_string, join_texts, join_with, push_text, same_text,
    string_from_chars, texts, to_ascii_lowercase, trim, trimmed,
};

verus! {

/// One response header, its name lower-cased.
#[derive(Debug)]
pub struct HttpHeader {
    pub name: String,
    pub value: String,
}

/// What a probe observed; the success rules read only this.
#[derive(Debug)]
pub struct ProbeObservation {
    /// HTTP status code.
    pub http_status: Option<u16>,
    /// HTTP body, read only when a rule needs it.
    pub http_body: Option<String>,
    /// HTTP headers with lower-cased names; a later header overrides an
    /// earlier one of the same name.
    pub http_headers: Vec<HttpHeader>,
    /// DNS answers, as text.
    pub dns_answers: Vec<String>,
}

pub struct ObservationView {
    pub http_status: Option<u16>,
    pub http_body: Option<Seq<char>>,
    pub http_headers: Seq<(Seq<char>, Seq<char>)>,
    pub dns_answers: Seq<Seq<char>>,
}

pub open spec fn header_pairs(s: Seq<HttpHeader>) -> Seq<(Seq<char>, Seq<char>)> {
    s.map_values(|h: HttpHeader| (h.name@, h.value@))
}

impl View for ProbeObservation {
    type V = ObservationView;

    open spec fn view(&self) -> ObservationView {
        ObservationView {
            http_status: self.http_status,
            http_body: match self.http_body {
                Some(b) => Some(b@),
                None => None,
            },
            http_headers: header_pairs(self.http_headers@),
            dns_answers: texts(self.dns_answers@),
        }
    }
}

impl ProbeObservation {
    /// An empty observation, which each probe then fills in.
    pub fn new() -> (o: ProbeObservation)
        ensures
            o@.http_status is None,
            o@.http_body is None,
            o@.http_headers == Seq::<(Seq<char>, Seq<char>)>::empty(),
            o@.dns_answers == Seq::<Seq<char>>::empty(),
    {
        let o = ProbeObservation {
            http_status: None,
            http_body: None,
            http_headers: Vec::new(),
            dns_answers: Vec::new(),
        };
        assert(o@.http_headers =~= Seq::<(Seq<char>, Seq<char>)>::empty());
        assert(o@.dns_answers =~= Seq::<Seq<char>>::empty());
        o
    }

    /// Records a response header.
    pub fn insert_header(&mut self, name: String, value: String)
        ensures
            final(self)@ == (ObservationView {
                http_headers: old(self)@.http_headers.push((name@, value@)),
                ..old(self)@
            }),
    {
        self.http_headers.push(HttpHeader { name, value });
        assert(header_pairs(self.http_headers@) =~= header_pairs(old(self).http_headers@).push((name@, value@)));
    }
}

/// The value of the header named `key`: the last one recorded under that name.
pub open spec fn header_lookup(hs: Seq<(Seq<char>, Seq<char>)>, key: Seq<char>) -> Option<Seq<char>>
    decreases hs.len(),
{
    if hs.len() == 0 {
        None
    } else if hs.last().0 == key {
        Some(hs.last().1)
    } else {
        header_lookup(hs.drop_last(), key)
    }
}

/// Looks up a header by its exact (lower-cased) name.
pub fn header_value(headers: &Vec<HttpHeader>, key: &str) -> (r: Option<String>)
    ensures
        match header_lookup(header_pairs(headers@), key@) {
            None => r is None,
            Some(v) => r matches Some(s) && s@ == v,
        },
{
    let ghost all = header_pairs(headers@);
    let mut i = headers.len();
    assert(all.subrange(0, i as int) =~= all);
    while i > 0
        invariant
            i <= headers@.len(),
            all == header_pairs(headers@),
            header_lookup(all, key@) == header_lookup(all.subrange(0, i as int), key@),
        decreases i,
    {
        let ghost pre = all.subrange(0, i as int);
        assert(pre.drop_last() =~= all.subrange(0, i - 1));
        assert(pre.last() == (headers@[i - 1].name@, headers@[i - 1].value@));
        if same_text(headers[i - 1].name.as_str(), key) {
            return Some(headers[i - 1].value.clone());
        }
        i = i - 1;
    }
    None
}

/// Whether one header rule holds: the header is looked up by the rule's
/// key lower-cased and must match the rule's pattern; a missing header does
/// not match, and a pattern that does not compile is an error (only checked
/// when the header is present).
pub open spec fn rule_outcome(key: Seq<char>, pattern: Seq<char>, o: ObservationView) -> Result<bool, Seq<char>> {
    match header_lookup(o.http_headers, ascii_lowercase(key)) {
        None => Ok(false),
        Some(actual) => match regex_compile_error(pattern) {
            Some(e) => Err("响应头 "@ + key + " 的正则无效："@ + e),
            None => Ok(regex_finds_match(pattern, actual)),
        },
    }
}

/// Header rules ignore the case of their key: a rule keyed `k` has the
/// outcome of the rule keyed by `k` ASCII-lower-cased, the same match or
/// mismatch, and an error exactly when that one has one.
pub proof fn lemma_rule_key_case_insensitive(key: Seq<char>, pattern: Seq<char>, o: ObservationView)
    ensures
        match (rule_outcome(key, pattern, o), rule_outcome(ascii_lowercase(key), pattern, o)) {
            (Ok(a), Ok(b)) => a == b,
            (Err(_), Err(_)) => true,
            _ => false,
        },
{
    lemma_ascii_lowercase_idempotent(key);
}

/// The outcome of a rule as written: key and pattern trimmed.
pub open spec fn rule_outcome_of(rule: HttpHeaderMatchView, o: ObservationView) -> Result<bool, Seq<char>> {
    rule_outcome(trimmed(rule.key), trimmed(rule.value), o)
}

/// Some rule holds.
pub open spec fn some_rule_matches(rules: Seq<HttpHeaderMatchView>, o: ObservationView) -> bool {
    exists|i: int| 0 <= i < rules.len() && rule_outcome_of(#[trigger] rules[i], o) == Ok::<bool, Seq<char>>(true)
}

/// The error of the first rule whose pattern does not compile, if any.
pub open spec fn first_rule_error(rules: Seq<HttpHeaderMatchView>, o: ObservationView) -> Option<Seq<char>>
    decreases rules.len(),
{
    if rules.len() == 0 {
        None
    } else {
        match rule_outcome_of(rules[0], o) {
            Err(e) => Some(e),
            Ok(_) => first_rule_error(rules.drop_first(), o),
        }
    }
}

/// With `Any`, one matching rule is enough; otherwise the first rule error
/// is reported, or that no rule matched.
pub open spec fn any_mode_failure(rules: Seq<HttpHeaderMatchView>, o: ObservationView) -> Option<Seq<char>> {
    if some_rule_matches(rules, o) {
        None
    } else {
        match first_rule_error(rules, o) {
            Some(e) => Some(e),
            None => Some("没有任何响应头规则匹配"@),
        }
    }
}

/// What a rule that did not match reports about the actual header.
pub open spec fn actual_header_text(key: Seq<char>, o: ObservationView) -> Seq<char> {
    match header_lookup(o.http_headers, ascii_lowercase(key)) {
        Some(v) => "实际值："@ + v,
        None => "未返回"@,
    }
}

/// With `All`, the first rule that does not hold is reported.
pub open spec fn all_mode_failure(rules: Seq<HttpHeaderMatchView>, o: ObservationView) -> Option<Seq<char>>
    decreases rules.len(),
{
    if rules.len() == 0 {
        None
    } else {
        let key = trimmed(rules[0].key);
        let expected = trimmed(rules[0].value);
        match rule_outcome(key, expected, o) {
            Ok(true) => all_mode_failure(rules.drop_first(), o),
            Ok(false) => Some("响应头 "@ + key + " 未匹配 "@ + expected + "（"@ + actual_header_text(key, o) + "）"@),
            Err(e) => Some(e),
        }
    }
}

/// Why the headers fail the monitor's header rules, if they do.
pub open spec fn headers_failure(c: MonitorConfigView, o: ObservationView) -> Option<Seq<char>> {
    let rules = match c.expected_headers {
        Some(r) => r,
        None => Seq::empty(),
    };
    if rules.len() == 0 {
        None
    } else if c.header_match_mode == Some(HeaderMatchMode::Any) {
        any_mode_failure(rules, o)
    } else {
        all_mode_failure(rules, o)
    }
}

/// Why an HTTP observation fails, if it does: a status is required; it must
/// equal the expected status when one is set, else lie in
/// `[min, max)` (default `[200, 400)`); the body must match the keyword
/// pattern when one is set; then the header rules apply.
pub open spec fn http_failure(c: MonitorConfigView, o: ObservationView) -> Option<Seq<char>> {
    match o.http_status {
        None => Some("未收到 HTTP 响应状态码"@),
        Some(status) => {
            let min: u16 = match c.expected_status_min { Some(v) => v, None => 200 };
            let max: u16 = match c.expected_status_max { Some(v) => v, None => 400 };
            let max_display: int = if max > 0 { max - 1 } else { 0 };
            if c.expected_status is Some && status != c.expected_status->0 {
                Some("HTTP 状态码为 "@ + decimal(status as nat) + "，期望 "@ + decimal(c.expected_status->0 as nat))
            } else if c.expected_status is None && (status < min || status >= max) {
                Some("HTTP 状态码为 "@ + decimal(status as nat) + "，不在期望范围 "@ + decimal(min as nat) + "-"@
                    + decimal(max_display as nat))
            } else if c.keyword is Some && o.http_body is None {
                Some("响应体未读取，无法匹配关键词"@)
            } else if c.keyword is Some && regex_compile_error(c.keyword->0) is Some {
                Some("响应关键词正则无效："@ + regex_compile_error(c.keyword->0)->0)
            } else if c.keyword is Some && !regex_finds_match(c.keyword->0, o.http_body->0) {
                Some("响应体未匹配关键词/正则："@ + c.keyword->0)
            } else {
                headers_failure(c, o)
            }
        },
    }
}

/// Why a DNS observation fails, if it does: some answer is required, and
/// when an expected value is set one answer must equal it.
pub open spec fn dns_failure(c: MonitorConfigView, o: ObservationView) -> Option<Seq<char>> {
    if o.dns_answers.len() == 0 {
        Some("DNS 未返回任何记录"@)
    } else if c.expected_value is Some && !o.dns_answers.contains(c.expected_value->0) {
        Some("DNS 结果未包含期望值 "@ + c.expected_value->0 + "，实际为 "@ + join_with(o.dns_answers, ", "@))
    } else {
        None
    }
}

/// Why an observation does not satisfy a monitor, if it does not. Ping and
/// TCP probes succeed whenever they produce an observation.
pub open spec fn failure_reason_of(m: MonitorView, o: ObservationView) -> Option<Seq<char>> {
    match m.kind {
        MonitorKind::Http => http_failure(m.config, o),
        MonitorKind::Ping | MonitorKind::Tcp => None,
        MonitorKind::Dns => dns_failure(m.config, o),
    }
}

/// `a + b`.
pub fn cat2(a: &str, b: &str) -> (r: String)
    ensures
        r@ == a@ + b@,
{
    let mut buf: Vec<char> = Vec::new();
    push_text(&mut buf, a);
    push_text(&mut buf, b);
    assert(buf@ =~= a@ + b@);
    string_from_chars(&buf)
}

/// `a + b + c`.
pub fn cat3(a: &str, b: &str, c: &str) -> (r: String)
    ensures
        r@ == a@ + b@ + c@,
{
    let mut buf: Vec<char> = Vec::new();
    push_text(&mut buf, a);
    push_text(&mut buf, b);
    push_text(&mut buf, c);
    assert(buf@ =~= a@ + b@ + c@);
    string_from_chars(&buf)
}

/// `a + b + c + d`.
pub fn cat4(a: &str, b: &str, c: &str, d: &str) -> (r: String)
    ensures
        r@ == a@ + b@ + c@ + d@,
{
    let mut buf: Vec<char> = Vec::new();
    push_text(&mut buf, a);
    push_text(&mut buf, b);
    push_text(&mut buf, c);
    push_text(&mut buf, d);
    assert(buf@ =~= a@ + b@ + c@ + d@);
    string_from_chars(&buf)
}

/// The outcome of one header rule with trimmed key and pattern.
fn rule_outcome_exec(key: &str, pattern: &str, observation: &ProbeObservation) -> (r: Result<bool, String>)
    ensures
        match rule_outcome(key@, pattern@, observation@) {
            Ok(b) => r == Ok::<bool, String>(b),
            Err(e) => r matches Err(m) && m@ == e,
        },
{
    let normalized = to_ascii_lowercase(key);
    match header_value(&observation.http_headers, normalized.as_str()) {
        None => Ok(false),
        Some(actual) => match regex_search(pattern, actual.as_str()) {
            Ok(found) => Ok(found),
            Err(error) => Err(cat4("响应头 ", key, " 的正则无效：", error.as_str())),
        },
    }
}

fn any_mode_exec(rules: &Vec<HttpHeaderMatch>, observation: &ProbeObservation) -> (r: Option<String>)
    ensures
        match any_mode_failure(header_rule_views(rules@), observation@) {
            None => r is None,
            Some(e) => r matches Some(m) && m@ == e,
        },
{
    let ghost views = header_rule_views(rules@);
    let mut first_error: Option<String> = None;
    let mut i: usize = 0;
    assert(views.subrange(0, views.len() as int) =~= views);
    while i < rules.len()
        invariant
            i <= rules@.len(),
            views == header_rule_views(rules@),
            forall|j: int| 0 <= j < i ==> rule_outcome_of(#[trigger] views[j], observation@) != Ok::<bool, Seq<char>>(true),
            match first_error {
                None => first_rule_error(views, observation@) == first_rule_error(views.subrange(i as int, views.len() as int), observation@),
                Some(m) => first_rule_error(views, observation@) == Some(m@),
            },
        decreases rules.len() - i,
    {
        let ghost rest = views.subrange(i as int, views.len() as int);
        assert(rest[0] == views[i as int]);
        assert(rest.drop_first() =~= views.subrange(i + 1, views.len() as int));
        assert(views[i as int] == rules@[i as int]@);
        let key = trim(rules[i].key.as_str());
        let pattern = trim(rules[i].value.as_str());
        match rule_outcome_exec(key.as_str(), pattern.as_str(), observation) {
            Ok(true) => {
                return None;
            },
            Ok(false) => {},
            Err(error) => {
                if first_error.is_none() {
                    first_error = Some(error);
                }
            },
        }
        i = i + 1;
    }
    assert(!some_rule_matches(views, observation@));
    match first_error {
        Some(e) => Some(e),
        None => {
            assert(first_rule_error(views.subrange(i as int, views.len() as int), observation@) is None);
            Some(crate::text::copy_str("没有任何响应头规则匹配"))
        },
    }
}

fn all_mode_exec(rules: &Vec<HttpHeaderMatch>, observation: &ProbeObservation) -> (r: Option<String>)
    ensures
        match all_mode_failure(header_rule_views(rules@), observation@) {
            None => r is None,
            Some(e) => r matches Some(m) && m@ == e,
        },
{
    let ghost views = header_rule_views(rules@);
    let mut i: usize = 0;
    assert(views.subrange(0, views.len() as int) =~= views);
    while i < rules.len()
        invariant
            i <= rules@.len(),
            views == header_rule_views(rules@),
            all_mode_failure(views, observation@) == all_mode_failure(views.subrange(i as int, views.len() as int), observation@),
        decreases rules.len() - i,
    {
        let ghost rest = views.subrange(i as int, views.len() as int);
        assert(rest[0] == views[i as int]);
        assert(rest.drop_first() =~= views.subrange(i + 1, views.len() as int));
        assert(views[i as int] == rules@[i as int]@);
        let key = trim(rules[i].key.as_str());
        let expected = trim(rules[i].value.as_str());
        match rule_outcome_exec(key.as_str(), expected.as_str(), observation) {
            Ok(true) => {},
            Ok(false) => {
                let normalized = to_ascii_lowercase(key.as_str());
                let actual = match header_value(&observation.http_headers, normalized.as_str()) {
                    Some(value) => cat2("实际值：", value.as_str()),
                    None => crate::text::copy_str("未返回"),
                };
                let mut buf: Vec<char> = Vec::new();
                push_text(&mut buf, "响应头 ");
                push_text(&mut buf, key.as_str());
                push_text(&mut buf, " 未匹配 ");
                push_text(&mut buf, expected.as_str());
                push_text(&mut buf, "（");
                push_text(&mut buf, actual.as_str());
                push_text(&mut buf, "）");
                assert(buf@ =~= "响应头 "@ + key@ + " 未匹配 "@ + expected@ + "（"@ + actual@ + "）"@);
                return Some(string_from_chars(&buf));
            },
            Err(error) => {
                return Some(error);
            },
        }
        i = i + 1;
    }
    None
}

fn headers_failure_reason(config: &MonitorConfig, observation: &ProbeObservation) -> (r: Option<String>)
    ensures
        match headers_failure(config@, observation@) {
            None => r is None,
            Some(e) => r matches Some(m) && m@ == e,
        },
{
    match &config.expected_headers {
        None => None,
        Some(rules) => {
            if rules.len() == 0 {
                return None;
            }
            match config.header_match_mode {
                Some(HeaderMatchMode::Any) => any_mode_exec(rules, observation),
                _ => all_mode_exec(rules, observation),
            }
        },
    }
}

fn http_failure_reason(config: &MonitorConfig, observation: &ProbeObservation) -> (r: Option<String>)
    ensures
        match http_failure(config@, observation@) {
            None => r is None,
            Some(e) => r matches Some(m) && m@ == e,
        },
{
    let status = match observation.http_status {
        None => return Some(crate::text::copy_str("未收到 HTTP 响应状态码")),
        Some(s) => s,
    };
    match config.expected_status {
        Some(expected) => {
            if status != expected {
                let a = decimal_string(status as u64);
                let b = decimal_string(expected as u64);
                return Some(cat4("HTTP 状态码为 ", a.as_str(), "，期望 ", b.as_str()));
            }
        },
        None => {
            let min: u16 = match config.expected_status_min { Some(v) => v, None => 200 };
            let max: u16 = match config.expected_status_max { Some(v) => v, None => 400 };
            if status < min || status >= max {
                let max_display: u16 = if max > 0 { max - 1 } else { 0 };
                let a = decimal_string(status as u64);
                let b = decimal_string(min as u64);
                let c = decimal_string(max_display as u64);
                let mut buf: Vec<char> = Vec::new();
                push_text(&mut buf, "HTTP 状态码为 ");
                push_text(&mut buf, a.as_str());
                push_text(&mut buf, "，不在期望范围 ");
                push_text(&mut buf, b.as_str());
                push_text(&mut buf, "-");
                push_text(&mut buf, c.as_str());
                assert(buf@ =~= "HTTP 状态码为 "@ + a@ + "，不在期望范围 "@ + b@ + "-"@ + c@);
                return Some(string_from_chars(&buf));
            }
        },
    }
    if let Some(keyword) = &config.keyword {
        let body = match &observation.http_body {
            None => return Some(crate::text::copy_str("响应体未读取，无法匹配关键词")),
            Some(b) => b,
        };
        match regex_search(keyword.as_str(), body.as_str()) {
            Err(error) => return Some(cat2("响应关键词正则无效：", error.as_str())),
            Ok(found) => {
                if !found {
                    return Some(cat2("响应体未匹配关键词/正则：", keyword.as_str()));
                }
            },
        }
    }
    headers_failure_reason(config, observation)
}

fn answers_contain(answers: &Vec<String>, expected: &str) -> (b: bool)
    ensures
        b == texts(answers@).contains(expected@),
{
    let mut i: usize = 0;
    while i < answers.len()
        invariant
            i <= answers@.len(),
            forall|j: int| 0 <= j < i ==> #[trigger] texts(answers@)[j] != expected@,
        decreases answers.len() - i,
    {
        if same_text(answers[i].as_str(), expected) {
            assert(texts(answers@)[i as int] == expected@);
            return true;
        }
        i = i + 1;
    }
    false
}

fn dns_failure_reason(config: &MonitorConfig, observation: &ProbeObservation) -> (r: Option<String>)
    ensures
        match dns_failure(config@, observation@) {
            None => r is None,
            Some(e) => r matches Some(m) && m@ == e,
        },
{
    if observation.dns_answers.len() == 0 {
        return Some(crate::text::copy_str("DNS 未返回任何记录"));
    }
    match &config.expected_value {
        None => None,
        Some(expected) => {
            if answers_contain(&observation.dns_answers, expected.as_str()) {
                None
            } else {
                let joined = join_texts(&observation.dns_answers, ", ");
                Some(cat4("DNS 结果未包含期望值 ", expected.as_str(), "，实际为 ", joined.as_str()))
            }
        },
    }
}

/// The first readable reason why `observation` does not satisfy `monitor`.
pub fn failure_reason(monitor: &Monitor, observation: &ProbeObservation) -> (r: Option<String>)
    ensures
        match failure_reason_of(monitor@, observation@) {
            None => r is None,
            Some(e) => r matches Some(m) && m@ == e,
        },
{
    match monitor.kind {
        MonitorKind::Http => http_failure_reason(&monitor.config, observation),
        MonitorKind::Ping | MonitorKind::Tcp => None,
        MonitorKind::Dns => dns_failure_reason(&monitor.config, observation),
    }
}

/// Whether `observation` satisfies `monitor`.
pub fn is_success(monitor: &Monitor, observation: &ProbeObservation) -> (b: bool)
    ensures
        b == (failure_reason_of(monitor@, observation@) is None),
{
    failure_reason(monitor, observation).is_none()
}

} // verus!
