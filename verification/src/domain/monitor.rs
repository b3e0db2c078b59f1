//! Monitors: what is probed, how often, and what counts as success.

use vstd::prelude::*;
use crate::error::AppError;
use crate::pattern::{regex_compile_error, regex_compiles};
use crate::text::{is_blank, is_blank_str, join2, trim, trimmed};

verus! {

/// The protocol a monitor probes with.
#[derive(Debug, Clone, Copy, PartialEq, Eq, Structural)]
pub enum MonitorKind {
    Http,
    Ping,
    Dns,
    Tcp,
}

/// The stable stored text of a monitor kind.
pub open spec fn kind_text(k: MonitorKind) -> Seq<char> {
    match k {
        MonitorKind::Http => "http"@,
        MonitorKind::Ping => "ping"@,
        MonitorKind::Dns => "dns"@,
        MonitorKind::Tcp => "tcp"@,
    }
}

/// The kind whose stored text is `s`, if any.
pub open spec fn kind_from_text(s: Seq<char>) -> Option<MonitorKind> {
    if s == "http"@ {
        Some(MonitorKind::Http)
    } else if s == "ping"@ {
        Some(MonitorKind::Ping)
    } else if s == "dns"@ {
        Some(MonitorKind::Dns)
    } else if s == "tcp"@ {
        Some(MonitorKind::Tcp)
    } else {
        None
    }
}

impl MonitorKind {
    /// The stable text used when the kind is stored.
    pub fn as_str(&self) -> (r: &'static str)
        ensures
            r@ == kind_text(*self),
    {
        match self {
            MonitorKind::Http => "http",
            MonitorKind::Ping => "ping",
            MonitorKind::Dns => "dns",
            MonitorKind::Tcp => "tcp",
        }
    }

    /// Reads a stored kind; unknown text is a bad request.
    pub fn try_from(value: &str) -> (r: Result<MonitorKind, AppError>)
        ensures
            r matches Ok(k) ==> kind_from_text(value@) == Some(k),
            r is Err <==> kind_from_text(value@) is None,
            r matches Err(e) ==> e matches AppError::BadRequest(m)
                && m@ == "unknown monitor kind: "@ + value@,
    {
        if crate::text::same_text(value, "http") {
            Ok(MonitorKind::Http)
        } else if crate::text::same_text(value, "ping") {
            Ok(MonitorKind::Ping)
        } else if crate::text::same_text(value, "dns") {
            Ok(MonitorKind::Dns)
        } else if crate::text::same_text(value, "tcp") {
            Ok(MonitorKind::Tcp)
        } else {
            Err(AppError::BadRequest(join2("unknown monitor kind: ", value)))
        }
    }
}

/// One expected response header: the header named `key` must match the
/// regular expression `value`.
#[derive(Debug)]
pub struct HttpHeaderMatch {
    pub key: String,
    pub value: String,
}

pub struct HttpHeaderMatchView {
    pub key: Seq<char>,
    pub value: Seq<char>,
}

impl View for HttpHeaderMatch {
    type V = HttpHeaderMatchView;

    open spec fn view(&self) -> HttpHeaderMatchView {
        HttpHeaderMatchView { key: self.key@, value: self.value@ }
    }
}

impl HttpHeaderMatch {
    pub fn duplicate(&self) -> (r: HttpHeaderMatch)
        ensures
            r@ == self@,
    {
        HttpHeaderMatch { key: self.key.clone(), value: self.value.clone() }
    }
}

/// How several header rules combine.
#[derive(Debug, Clone, Copy, PartialEq, Eq, Structural)]
pub enum HeaderMatchMode {
    /// Every rule must match.
    All,
    /// One matching rule is enough.
    Any,
}

/// DNS record types a monitor can ask for.
#[derive(Debug, Clone, Copy, PartialEq, Eq, Structural)]
#[allow(non_camel_case_types)]
pub enum DnsRecordType {
    A,
    AAAA,
    CNAME,
    MX,
    TXT,
    NS,
    SOA,
    CAA,
    SRV,
}

/// The text of a record type.
pub open spec fn record_type_text(t: DnsRecordType) -> Seq<char> {
    match t {
        DnsRecordType::A => "A"@,
        DnsRecordType::AAAA => "AAAA"@,
        DnsRecordType::CNAME => "CNAME"@,
        DnsRecordType::MX => "MX"@,
        DnsRecordType::TXT => "TXT"@,
        DnsRecordType::NS => "NS"@,
        DnsRecordType::SOA => "SOA"@,
        DnsRecordType::CAA => "CAA"@,
        DnsRecordType::SRV => "SRV"@,
    }
}

impl DnsRecordType {
    pub fn as_str(&self) -> (r: &'static str)
        ensures
            r@ == record_type_text(*self),
    {
        match self {
            DnsRecordType::A => "A",
            DnsRecordType::AAAA => "AAAA",
            DnsRecordType::CNAME => "CNAME",
            DnsRecordType::MX => "MX",
            DnsRecordType::TXT => "TXT",
            DnsRecordType::NS => "NS",
            DnsRecordType::SOA => "SOA",
            DnsRecordType::CAA => "CAA",
            DnsRecordType::SRV => "SRV",
        }
    }
}

/// The text of an optional string.
pub open spec fn text_opt(o: Option<String>) -> Option<Seq<char>> {
    match o {
        Some(s) => Some(s@),
        None => None,
    }
}

/// The views of header rules.
pub open spec fn header_rule_views(s: Seq<HttpHeaderMatch>) -> Seq<HttpHeaderMatchView> {
    s.map_values(|h: HttpHeaderMatch| h@)
}

/// Protocol settings shared by all monitor kinds.
#[derive(Debug)]
pub struct MonitorConfig {
    /// HTTP: the one accepted status code, when set.
    pub expected_status: Option<u16>,
    /// HTTP: lowest accepted status code (default 200).
    pub expected_status_min: Option<u16>,
    /// HTTP: first status code no longer accepted (default 400).
    pub expected_status_max: Option<u16>,
    /// HTTP: a regular expression the response body must match.
    pub keyword: Option<String>,
    /// HTTP: expected response headers.
    pub expected_headers: Option<Vec<HttpHeaderMatch>>,
    /// HTTP: how header rules combine (all must match unless `Any`).
    pub header_match_mode: Option<HeaderMatchMode>,
    /// DNS: the record type asked for.
    pub dns_record: Option<DnsRecordType>,
    /// DNS: a value one of the answers must equal.
    pub expected_value: Option<String>,
}

pub struct MonitorConfigView {
    pub expected_status: Option<u16>,
    pub expected_status_min: Option<u16>,
    pub expected_status_max: Option<u16>,
    pub keyword: Option<Seq<char>>,
    pub expected_headers: Option<Seq<HttpHeaderMatchView>>,
    pub header_match_mode: Option<HeaderMatchMode>,
    pub dns_record: Option<DnsRecordType>,
    pub expected_value: Option<Seq<char>>,
}

impl View for MonitorConfig {
    type V = MonitorConfigView;

    open spec fn view(&self) -> MonitorConfigView {
        MonitorConfigView {
            expected_status: self.expected_status,
            expected_status_min: self.expected_status_min,
            expected_status_max: self.expected_status_max,
            keyword: text_opt(self.keyword),
            expected_headers: match self.expected_headers {
                Some(v) => Some(header_rule_views(v@)),
                None => None,
            },
            header_match_mode: self.header_match_mode,
            dns_record: self.dns_record,
            expected_value: text_opt(self.expected_value),
        }
    }
}

/// Copies header rules.
pub fn duplicate_rules(rules: &Vec<HttpHeaderMatch>) -> (r: Vec<HttpHeaderMatch>)
    ensures
        header_rule_views(r@) == header_rule_views(rules@),
{
    let mut out: Vec<HttpHeaderMatch> = Vec::new();
    let mut i: usize = 0;
    while i < rules.len()
        invariant
            i <= rules@.len(),
            out@.len() == i,
            forall|j: int| 0 <= j < i ==> #[trigger] out@[j]@ == rules@[j]@,
        decreases rules.len() - i,
    {
        out.push(rules[i].duplicate());
        i = i + 1;
    }
    assert(header_rule_views(out@) =~= header_rule_views(rules@));
    out
}

/// Copies an optional string.
pub fn duplicate_text(o: &Option<String>) -> (r: Option<String>)
    ensures
        text_opt(r) == text_opt(*o),
{
    match o {
        Some(s) => Some(s.clone()),
        None => None,
    }
}

impl MonitorConfig {
    pub fn duplicate(&self) -> (r: MonitorConfig)
        ensures
            r@ == self@,
    {
        MonitorConfig {
            expected_status: self.expected_status,
            expected_status_min: self.expected_status_min,
            expected_status_max: self.expected_status_max,
            keyword: duplicate_text(&self.keyword),
            expected_headers: match &self.expected_headers {
                Some(v) => Some(duplicate_rules(v)),
                None => None,
            },
            header_match_mode: self.header_match_mode,
            dns_record: self.dns_record,
            expected_value: duplicate_text(&self.expected_value),
        }
    }
}

/// The default configuration: all headers must match, DNS asks for `A`.
pub open spec fn default_config_view() -> MonitorConfigView {
    MonitorConfigView {
        expected_status: None,
        expected_status_min: None,
        expected_status_max: None,
        keyword: None,
        expected_headers: None,
        header_match_mode: Some(HeaderMatchMode::All),
        dns_record: Some(DnsRecordType::A),
        expected_value: None,
    }
}

impl Default for MonitorConfig {
    fn default() -> (r: MonitorConfig)
        ensures
            r@ == default_config_view(),
    {
        MonitorConfig {
            expected_status: None,
            expected_status_min: None,
            expected_status_max: None,
            keyword: None,
            expected_headers: None,
            header_match_mode: Some(HeaderMatchMode::All),
            dns_record: Some(DnsRecordType::A),
            expected_value: None,
        }
    }
}

/// A stored monitor. Instants are milliseconds since the Unix epoch.
#[derive(Debug)]
pub struct Monitor {
    /// Storage id; 0 before the monitor is stored.
    pub id: i64,
    pub name: String,
    pub kind: MonitorKind,
    /// What is probed; each probe reads it its own way.
    pub target: String,
    pub config: MonitorConfig,
    /// Least time between two probes.
    pub interval_seconds: u64,
    /// Time a single probe may take; below the interval.
    pub timeout_seconds: u64,
    /// Disabled monitors are not probed.
    pub enabled: bool,
    pub created_at: i64,
    pub updated_at: i64,
}

pub struct MonitorView {
    pub id: i64,
    pub name: Seq<char>,
    pub kind: MonitorKind,
    pub target: Seq<char>,
    pub config: MonitorConfigView,
    pub interval_seconds: u64,
    pub timeout_seconds: u64,
    pub enabled: bool,
    pub created_at: i64,
    pub updated_at: i64,
}

impl View for Monitor {
    type V = MonitorView;

    open spec fn view(&self) -> MonitorView {
        MonitorView {
            id: self.id,
            name: self.name@,
            kind: self.kind,
            target: self.target@,
            config: self.config@,
            interval_seconds: self.interval_seconds,
            timeout_seconds: self.timeout_seconds,
            enabled: self.enabled,
            created_at: self.created_at,
            updated_at: self.updated_at,
        }
    }
}

impl Monitor {
    pub fn duplicate(&self) -> (r: Monitor)
        ensures
            r@ == self@,
    {
        Monitor {
            id: self.id,
            name: self.name.clone(),
            kind: self.kind,
            target: self.target.clone(),
            config: self.config.duplicate(),
            interval_seconds: self.interval_seconds,
            timeout_seconds: self.timeout_seconds,
            enabled: self.enabled,
            created_at: self.created_at,
            updated_at: self.updated_at,
        }
    }
}

/// The input that creates a monitor.
#[derive(Debug)]
pub struct CreateMonitor {
    pub name: String,
    pub kind: MonitorKind,
    pub target: String,
    pub config: MonitorConfig,
    pub interval_seconds: u64,
    pub timeout_seconds: u64,
    pub enabled: bool,
}

/// The input that changes a monitor; absent fields keep their value.
#[derive(Debug)]
pub struct UpdateMonitor {
    pub name: Option<String>,
    pub target: Option<String>,
    pub config: Option<MonitorConfig>,
    pub interval_seconds: Option<u64>,
    pub timeout_seconds: Option<u64>,
    pub enabled: Option<bool>,
}

/// The first header rule that is not acceptable, as a message.
pub open spec fn header_rules_error(rules: Seq<HttpHeaderMatchView>) -> Option<Seq<char>>
    decreases rules.len(),
{
    if rules.len() == 0 {
        None
    } else {
        let rule = rules[0];
        if is_blank(rule.key) {
            Some("header match key must not be empty"@)
        } else if is_blank(rule.value) {
            Some("header match value must not be empty"@)
        } else if regex_compile_error(trimmed(rule.value)) is Some {
            Some("header match regex is invalid: "@ + regex_compile_error(trimmed(rule.value))->0)
        } else {
            header_rules_error(rules.drop_first())
        }
    }
}

/// Why an HTTP configuration is not acceptable, if it is not: a non-empty
/// keyword must compile, and every header rule needs a key and a value that
/// compiles. Other kinds accept any configuration.
pub open spec fn config_error(kind: MonitorKind, config: MonitorConfigView) -> Option<Seq<char>> {
    if kind != MonitorKind::Http {
        None
    } else if config.keyword is Some && config.keyword->0.len() > 0
        && regex_compile_error(config.keyword->0) is Some {
        Some("keyword regex is invalid: "@ + regex_compile_error(config.keyword->0)->0)
    } else {
        match config.expected_headers {
            Some(rules) => header_rules_error(rules),
            None => None,
        }
    }
}

/// Why a monitor's settings are not acceptable, if they are not.
pub open spec fn monitor_input_error(
    name: Seq<char>,
    target: Seq<char>,
    kind: MonitorKind,
    config: MonitorConfigView,
    interval_seconds: u64,
    timeout_seconds: u64,
) -> Option<Seq<char>> {
    if is_blank(name) {
        Some("monitor name is required"@)
    } else if is_blank(target) {
        Some("monitor target is required"@)
    } else if interval_seconds < 2 {
        Some("interval_seconds must be at least 2"@)
    } else if timeout_seconds == 0 || timeout_seconds >= interval_seconds {
        Some("timeout_seconds must be greater than 0 and less than interval_seconds"@)
    } else {
        config_error(kind, config)
    }
}

/// The error for a message, as a validation result.
pub open spec fn validation_result(error: Option<Seq<char>>, r: Result<(), AppError>) -> bool {
    &&& r is Ok <==> error is None
    &&& r matches Err(e) ==> e matches AppError::BadRequest(m) && Some(m@) == error
}

fn validate_header_rules(rules: &Vec<HttpHeaderMatch>) -> (r: Result<(), AppError>)
    ensures
        validation_result(header_rules_error(header_rule_views(rules@)), r),
{
    let mut i: usize = 0;
    assert(header_rule_views(rules@).subrange(0, rules@.len() as int) =~= header_rule_views(rules@));
    while i < rules.len()
        invariant
            i <= rules@.len(),
            header_rules_error(header_rule_views(rules@))
                == header_rules_error(header_rule_views(rules@).subrange(i as int, rules@.len() as int)),
        decreases rules.len() - i,
    {
        let ghost rest = header_rule_views(rules@).subrange(i as int, rules@.len() as int);
        assert(rest[0] == rules@[i as int]@);
        assert(rest.drop_first() =~= header_rule_views(rules@).subrange(i + 1, rules@.len() as int));
        let rule = &rules[i];
        if is_blank_str(rule.key.as_str()) {
            return Err(AppError::BadRequest(crate::text::copy_str("header match key must not be empty")));
        }
        if is_blank_str(rule.value.as_str()) {
            return Err(AppError::BadRequest(crate::text::copy_str("header match value must not be empty")));
        }
        let pattern = trim(rule.value.as_str());
        match regex_compiles(pattern.as_str()) {
            Ok(()) => {},
            Err(error) => {
                return Err(AppError::BadRequest(join2("header match regex is invalid: ", error.as_str())));
            },
        }
        i = i + 1;
    }
    assert(header_rule_views(rules@).subrange(i as int, rules@.len() as int).len() == 0);
    Ok(())
}

/// Checks the protocol settings of a monitor of kind `kind`.
pub fn validate_monitor_config(kind: MonitorKind, config: &MonitorConfig) -> (r: Result<(), AppError>)
    ensures
        validation_result(config_error(kind, config@), r),
{
    if kind != MonitorKind::Http {
        return Ok(());
    }
    if let Some(keyword) = &config.keyword {
        if keyword.as_str().unicode_len() > 0 {
            match regex_compiles(keyword.as_str()) {
                Ok(()) => {},
                Err(error) => {
                    return Err(AppError::BadRequest(join2("keyword regex is invalid: ", error.as_str())));
                },
            }
        }
    }
    match &config.expected_headers {
        Some(rules) => validate_header_rules(rules),
        None => Ok(()),
    }
}

/// Checks the settings that keep scheduling stable: a name and a target,
/// an interval of at least two seconds, a positive timeout below the interval, and
/// a valid protocol configuration.
pub fn validate_monitor_input(
    name: &str,
    target: &str,
    kind: MonitorKind,
    config: &MonitorConfig,
    interval_seconds: u64,
    timeout_seconds: u64,
) -> (r: Result<(), AppError>)
    ensures
        validation_result(
            monitor_input_error(name@, target@, kind, config@, interval_seconds, timeout_seconds),
            r,
        ),
{
    if is_blank_str(name) {
        return Err(AppError::BadRequest(crate::text::copy_str("monitor name is required")));
    }
    if is_blank_str(target) {
        return Err(AppError::BadRequest(crate::text::copy_str("monitor target is required")));
    }
    if interval_seconds < 2 {
        return Err(AppError::BadRequest(crate::text::copy_str("interval_seconds must be at least 2")));
    }
    if timeout_seconds == 0 || timeout_seconds >= interval_seconds {
        return Err(AppError::BadRequest(crate::text::copy_str(
            "timeout_seconds must be greater than 0 and less than interval_seconds",
        )));
    }
    validate_monitor_config(kind, config)
}

/// Default probe interval of a new monitor.
pub fn default_interval_seconds() -> (s: u64)
    ensures
        s == 60,
{
    60
}

/// Default probe timeout of a new monitor.
pub fn default_timeout_seconds() -> (s: u64)
    ensures
        s == 10,
{
    10
}

/// New monitors are enabled unless asked otherwise.
pub fn default_enabled() -> (b: bool)
    ensures
        b,
{
    true
}

impl CreateMonitor {
    /// The monitor this input describes, created at `now` (the caller reads
    /// the clock); refused when the input does not validate.
    pub fn into_monitor(self, now: i64) -> (r: Result<Monitor, AppError>)
        ensures
            validation_result(
                monitor_input_error(self.name@, self.target@, self.kind, self.config@,
                    self.interval_seconds, self.timeout_seconds),
                match r { Ok(_) => Ok(()), Err(e) => Err(e) },
            ),
            r matches Ok(m) ==> {
                &&& m.id == 0
                &&& m.name@ == self.name@
                &&& m.kind == self.kind
                &&& m.target@ == self.target@
                &&& m.config@ == self.config@
                &&& m.interval_seconds == self.interval_seconds
                &&& m.timeout_seconds == self.timeout_seconds
                &&& m.enabled == self.enabled
                &&& m.created_at == now
                &&& m.updated_at == now
            },
    {
        match validate_monitor_input(
            self.name.as_str(),
            self.target.as_str(),
            self.kind,
            &self.config,
            self.interval_seconds,
            self.timeout_seconds,
        ) {
            Ok(()) => {},
            Err(e) => return Err(e),
        }
        Ok(Monitor {
            id: 0,
            name: self.name,
            kind: self.kind,
            target: self.target,
            config: self.config,
            interval_seconds: self.interval_seconds,
            timeout_seconds: self.timeout_seconds,
            enabled: self.enabled,
            created_at: now,
            updated_at: now,
        })
    }
}

/// A monitor after a change, and whether its history must be cleared
/// because its interval changed.
pub struct MonitorUpdate {
    pub monitor: Monitor,
    pub clear_history: bool,
}

/// `current` with the fields of `input` that are present.
pub open spec fn updated_view(current: MonitorView, input: UpdateMonitor) -> MonitorView {
    MonitorView {
        name: match input.name { Some(n) => n@, None => current.name },
        target: match input.target { Some(t) => t@, None => current.target },
        config: match input.config { Some(c) => c@, None => current.config },
        interval_seconds: match input.interval_seconds { Some(i) => i, None => current.interval_seconds },
        timeout_seconds: match input.timeout_seconds { Some(t) => t, None => current.timeout_seconds },
        enabled: match input.enabled { Some(e) => e, None => current.enabled },
        ..current
    }
}

/// A change replaces exactly the fields it holds: a present field's value
/// becomes the monitor's, an absent one keeps the current value, and the
/// identity, kind and creation time are never changed.
pub proof fn lemma_update_replaces_present_fields(current: MonitorView, input: UpdateMonitor)
    ensures
        ({
            let m = updated_view(current, input);
            &&& input.name matches Some(n) ==> m.name == n@
            &&& input.name is None ==> m.name == current.name
            &&& input.target matches Some(t) ==> m.target == t@
            &&& input.target is None ==> m.target == current.target
            &&& input.config matches Some(c) ==> m.config == c@
            &&& input.config is None ==> m.config == current.config
            &&& input.interval_seconds matches Some(i) ==> m.interval_seconds == i
            &&& input.interval_seconds is None ==> m.interval_seconds == current.interval_seconds
            &&& input.timeout_seconds matches Some(t) ==> m.timeout_seconds == t
            &&& input.timeout_seconds is None ==> m.timeout_seconds == current.timeout_seconds
            &&& input.enabled matches Some(e) ==> m.enabled == e
            &&& input.enabled is None ==> m.enabled == current.enabled
            &&& m.id == current.id
            &&& m.kind == current.kind
            &&& m.created_at == current.created_at
        }),
{
}

/// Applies a change to a monitor: present fields replace the current ones,
/// the result must validate, it is stamped as updated at `now`, and a changed
/// interval asks for the monitor's history to be cleared.
pub fn apply_monitor_update(current: Monitor, input: UpdateMonitor, now: i64) -> (r: Result<MonitorUpdate, AppError>)
    ensures
        ({
            let merged = updated_view(current@, input);
            &&& validation_result(
                monitor_input_error(merged.name, merged.target, merged.kind, merged.config,
                    merged.interval_seconds, merged.timeout_seconds),
                match r { Ok(_) => Ok(()), Err(e) => Err(e) },
            )
            &&& r matches Ok(u) ==> {
                &&& u.monitor@ == MonitorView { updated_at: now, ..merged }
                &&& u.clear_history == (merged.interval_seconds != current.interval_seconds)
            }
        }),
        r matches Ok(u) ==> {
            &&& input.name matches Some(n) ==> u.monitor@.name == n@
            &&& input.name is None ==> u.monitor@.name == current@.name
            &&& input.target matches Some(t) ==> u.monitor@.target == t@
            &&& input.target is None ==> u.monitor@.target == current@.target
            &&& input.config matches Some(c) ==> u.monitor@.config == c@
            &&& input.config is None ==> u.monitor@.config == current@.config
            &&& input.interval_seconds matches Some(i) ==> u.monitor@.interval_seconds == i
            &&& input.interval_seconds is None ==> u.monitor@.interval_seconds == current@.interval_seconds
            &&& input.timeout_seconds matches Some(t) ==> u.monitor@.timeout_seconds == t
            &&& input.timeout_seconds is None ==> u.monitor@.timeout_seconds == current@.timeout_seconds
            &&& input.enabled matches Some(e) ==> u.monitor@.enabled == e
            &&& input.enabled is None ==> u.monitor@.enabled == current@.enabled
            &&& u.monitor@.id == current@.id
            &&& u.monitor@.kind == current@.kind
            &&& u.monitor@.created_at == current@.created_at
            &&& u.monitor.updated_at == now
            &&& u.clear_history == (u.monitor.interval_seconds != current.interval_seconds)
        },
{
    let ghost merged = updated_view(current@, input);
    let old_interval = current.interval_seconds;
    let mut monitor = current;
    match input.name {
        Some(n) => { monitor.name = n; },
        None => {},
    }
    match input.target {
        Some(t) => { monitor.target = t; },
        None => {},
    }
    match input.config {
        Some(c) => { monitor.config = c; },
        None => {},
    }
    match input.interval_seconds {
        Some(i) => { monitor.interval_seconds = i; },
        None => {},
    }
    match input.timeout_seconds {
        Some(t) => { monitor.timeout_seconds = t; },
        None => {},
    }
    match input.enabled {
        Some(e) => { monitor.enabled = e; },
        None => {},
    }
    assert(monitor@ == merged);
    match validate_monitor_input(
        monitor.name.as_str(),
        monitor.target.as_str(),
        monitor.kind,
        &monitor.config,
        monitor.interval_seconds,
        monitor.timeout_seconds,
    ) {
        Ok(()) => {},
        Err(e) => return Err(e),
    }
    monitor.updated_at = now;
    let clear_history = old_interval != monitor.interval_seconds;
    Ok(MonitorUpdate { monitor, clear_history })
}

} // verus!
