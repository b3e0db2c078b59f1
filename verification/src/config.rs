//! Runtime configuration: values read from the environment, with defaults
//! suited to running on one's own machine.

use vstd::prelude::*;
use crate::numbers::{IntErrorKind, digit_run, digits_value, is_digit, parse_integer, parse_integer_text};
use crate::scheduler::compact::{fixed_offset_of, fits_i32, valid_offset};
use crate::text::{copy_str, decimal, decimal_string, digit_char, is_blank, is_blank_str};

verus! {

/// The service configuration. Periods are in seconds.
#[derive(Debug)]
pub struct Config {
    /// Address the HTTP service binds to.
    pub host: String,
    /// Port the HTTP service listens on.
    pub port: u16,
    /// SQLite connection string, such as `sqlite://netwatch.db`.
    pub database_url: String,
    /// How often the scheduler scans the monitors.
    pub scheduler_tick: u64,
    /// How many failures in a row raise an alert.
    pub failure_threshold: u32,
    /// Calendar zone of the aggregates; the machine's offset when not configured.
    pub aggregation_timezone: String,
    /// How often aggregates are compacted.
    pub compact_interval: u64,
    /// How often buffered results are stored.
    pub check_flush_interval: u64,
    /// Webhook address; without it alerts are only recorded.
    pub webhook_url: Option<String>,
}

pub struct ConfigView {
    pub host: Seq<char>,
    pub port: u16,
    pub database_url: Seq<char>,
    pub scheduler_tick: u64,
    pub failure_threshold: u32,
    pub aggregation_timezone: Seq<char>,
    pub compact_interval: u64,
    pub check_flush_interval: u64,
    pub webhook_url: Option<Seq<char>>,
}

impl View for Config {
    type V = ConfigView;

    open spec fn view(&self) -> ConfigView {
        ConfigView {
            host: self.host@,
            port: self.port,
            database_url: self.database_url@,
            scheduler_tick: self.scheduler_tick,
            failure_threshold: self.failure_threshold,
            aggregation_timezone: self.aggregation_timezone@,
            compact_interval: self.compact_interval,
            check_flush_interval: self.check_flush_interval,
            webhook_url: match self.webhook_url { Some(w) => Some(w@), None => None },
        }
    }
}

/// The aggregation zone: the explicit value if given, else the system's;
/// a blank choice falls back to `UTC`.
pub open spec fn resolved_timezone(explicit: Option<Seq<char>>, system: Option<Seq<char>>) -> Seq<char> {
    let chosen = if explicit is Some { explicit } else { system };
    match chosen {
        Some(v) => if is_blank(v) { "UTC"@ } else { v },
        None => "UTC"@,
    }
}

/// Chooses the aggregation zone.
pub fn resolve_aggregation_timezone(explicit: Option<String>, system: Option<String>) -> (zone: String)
    ensures
        zone@ == resolved_timezone(
            match explicit { Some(s) => Some(s@), None => None },
            match system { Some(s) => Some(s@), None => None },
        ),
{
    let chosen = match explicit {
        Some(e) => Some(e),
        None => system,
    };
    match chosen {
        Some(v) => {
            if is_blank_str(v.as_str()) {
                copy_str("UTC")
            } else {
                v
            }
        },
        None => copy_str("UTC"),
    }
}

/// Two-digit zero padding (`{:02}`).
pub open spec fn pad2(d: Seq<char>) -> Seq<char> {
    if d.len() < 2 { seq!['0'] + d } else { d }
}

/// An offset of `seconds` east of UTC as `+hh:mm` / `-hh:mm`.
pub open spec fn offset_text(seconds: int) -> Seq<char> {
    let sign = if seconds >= 0 { '+' } else { '-' };
    let a: nat = (if seconds >= 0 { seconds } else { -seconds }) as nat;
    seq![sign] + pad2(decimal(a / 3600)) + ":"@ + pad2(decimal((a % 3600) / 60))
}

fn padded(n: u64) -> (r: Vec<char>)
    ensures
        r@ == pad2(decimal(n as nat)),
{
    let digits = decimal_string(n);
    let mut buf: Vec<char> = Vec::new();
    if digits.as_str().unicode_len() < 2 {
        buf.push('0');
    }
    crate::text::push_text(&mut buf, digits.as_str());
    assert(buf@ =~= pad2(decimal(n as nat)));
    buf
}

/// Formats an offset; the one value whose magnitude does not fit (`i32::MIN`) has none.
pub fn format_offset(seconds: i32) -> (r: Option<String>)
    ensures
        r is None <==> seconds == i32::MIN,
        r matches Some(s) ==> s@ == offset_text(seconds as int),
{
    if seconds == i32::MIN {
        return None;
    }
    let sign = if seconds >= 0 { '+' } else { '-' };
    let a: u64 = if seconds >= 0 { seconds as u64 } else { (-(seconds as i64)) as u64 };
    let hours = padded(a / 3600);
    let minutes = padded((a % 3600) / 60);
    let mut buf: Vec<char> = Vec::new();
    buf.push(sign);
    let mut i: usize = 0;
    while i < hours.len()
        invariant
            i <= hours@.len(),
            buf@ == seq![sign] + hours@.subrange(0, i as int),
        decreases hours.len() - i,
    {
        buf.push(hours[i]);
        i = i + 1;
    }
    buf.push(':');
    let mut j: usize = 0;
    let ghost mid = buf@;
    while j < minutes.len()
        invariant
            j <= minutes@.len(),
            buf@ == mid + minutes@.subrange(0, j as int),
        decreases minutes.len() - j,
    {
        buf.push(minutes[j]);
        j = j + 1;
    }
    proof {
        reveal_strlit(":");
        assert(hours@.subrange(0, hours@.len() as int) =~= hours@);
        assert(minutes@.subrange(0, minutes@.len() as int) =~= minutes@);
        assert(buf@ =~= offset_text(seconds as int));
    }
    Some(crate::text::string_from_chars(&buf))
}

/// The zone text of the machine's offset from UTC: `+hh:mm` / `-hh:mm`,
/// or `UTC` for the one offset that has no such text.
pub open spec fn system_zone_text(offset_seconds: int) -> Seq<char> {
    if offset_seconds == i32::MIN { "UTC"@ } else { offset_text(offset_seconds) }
}

/// The machine's offset from UTC, `offset_seconds` east (the caller reads
/// it from the system), as a zone text.
pub fn system_timezone_offset(offset_seconds: i32) -> (zone: String)
    ensures
        zone@ == system_zone_text(offset_seconds as int),
{
    match format_offset(offset_seconds) {
        Some(s) => s,
        None => copy_str("UTC"),
    }
}

/// The raw settings read from the environment (absent when unset).
pub struct EnvSettings {
    pub host: Option<String>,
    pub port: Option<String>,
    pub database_url: Option<String>,
    pub scheduler_tick: Option<String>,
    pub failure_threshold: Option<String>,
    pub aggregation_timezone: Option<String>,
    pub compact_interval: Option<String>,
    pub check_flush_interval: Option<String>,
    pub webhook_url: Option<String>,
}

/// A setting that is not a number of its type.
#[derive(Debug)]
pub struct ConfigError {
    /// The environment variable.
    pub key: String,
    pub kind: IntErrorKind,
}

pub open spec fn text_of_opt(o: Option<String>) -> Option<Seq<char>> {
    match o {
        Some(s) => Some(s@),
        None => None,
    }
}

/// A numeric setting: its default when unset, else its value when it reads
/// as a number in `[0, max]`.
pub open spec fn numeric_setting(raw: Option<Seq<char>>, default: int, max: int) -> Result<int, IntErrorKind> {
    match raw {
        None => Ok(default),
        Some(s) => parse_integer(s, false, 0, max),
    }
}

fn read_number(raw: &Option<String>, default: u64, max: u64, key: &str) -> (r: Result<u64, ConfigError>)
    requires
        default <= max,
    ensures
        match numeric_setting(text_of_opt(*raw), default as int, max as int) {
            Ok(v) => r == Ok::<u64, ConfigError>(v as u64),
            Err(k) => r matches Err(e) && e.kind == k && e.key@ == key@,
        },
{
    match raw {
        None => Ok(default),
        Some(s) => match parse_integer_text(s.as_str(), false, 0, max) {
            Ok(v) => Ok(v as u64),
            Err(kind) => Err(ConfigError { key: copy_str(key), kind }),
        },
    }
}

/// The configuration the settings describe, given the machine's zone text.
pub open spec fn config_from(s: EnvSettings, system_zone: Seq<char>) -> Result<ConfigView, (Seq<char>, IntErrorKind)> {
    let port = numeric_setting(text_of_opt(s.port), 4311, u16::MAX as int);
    let tick = numeric_setting(text_of_opt(s.scheduler_tick), 5, u64::MAX as int);
    let threshold = numeric_setting(text_of_opt(s.failure_threshold), 3, u32::MAX as int);
    let compact = numeric_setting(text_of_opt(s.compact_interval), 600, u64::MAX as int);
    let flush = numeric_setting(text_of_opt(s.check_flush_interval), 60, u64::MAX as int);
    let explicit_zone = match s.aggregation_timezone {
        Some(z) => if is_blank(z@) { None } else { Some(z@) },
        None => None,
    };
    if port is Err {
        Err(("NETWATCH_PORT"@, port->Err_0))
    } else if tick is Err {
        Err(("NETWATCH_SCHEDULER_TICK_SECONDS"@, tick->Err_0))
    } else if threshold is Err {
        Err(("NETWATCH_FAILURE_THRESHOLD"@, threshold->Err_0))
    } else if compact is Err {
        Err(("NETWATCH_COMPACT_INTERVAL_SECONDS"@, compact->Err_0))
    } else if flush is Err {
        Err(("NETWATCH_CHECK_FLUSH_INTERVAL_SECONDS"@, flush->Err_0))
    } else {
        Ok(ConfigView {
            host: match s.host { Some(h) => h@, None => "127.0.0.1"@ },
            port: port->Ok_0 as u16,
            database_url: match s.database_url { Some(d) => d@, None => "sqlite://netwatch.db"@ },
            scheduler_tick: tick->Ok_0 as u64,
            failure_threshold: threshold->Ok_0 as u32,
            aggregation_timezone: resolved_timezone(explicit_zone, Some(system_zone)),
            compact_interval: compact->Ok_0 as u64,
            check_flush_interval: flush->Ok_0 as u64,
            webhook_url: match s.webhook_url {
                Some(w) => if w@.len() == 0 { None } else { Some(w@) },
                None => None,
            },
        })
    }
}

impl Config {
    /// The configuration the settings give when the machine's offset from
    /// UTC reads `system_zone`: unset values take their defaults, numbers
    /// must read as numbers of their type (an error names the setting), and
    /// the aggregation zone falls back to `system_zone`.
    pub fn from_settings_in_zone(settings: EnvSettings, system_zone: String) -> (r: Result<Config, ConfigError>)
        ensures
            match config_from(settings, system_zone@) {
                Ok(v) => r matches Ok(c) && c@ == v,
                Err((key, kind)) => r matches Err(e) && e.key@ == key && e.kind == kind,
            },
    {
        let port = match read_number(&settings.port, 4311, u16::MAX as u64, "NETWATCH_PORT") {
            Ok(v) => v as u16,
            Err(e) => return Err(e),
        };
        let tick = match read_number(&settings.scheduler_tick, 5, u64::MAX, "NETWATCH_SCHEDULER_TICK_SECONDS") {
            Ok(v) => v,
            Err(e) => return Err(e),
        };
        let threshold = match read_number(&settings.failure_threshold, 3, u32::MAX as u64, "NETWATCH_FAILURE_THRESHOLD") {
            Ok(v) => v as u32,
            Err(e) => return Err(e),
        };
        let explicit_zone = match settings.aggregation_timezone {
            Some(z) => if is_blank_str(z.as_str()) { None } else { Some(z) },
            None => None,
        };
        let aggregation_timezone = resolve_aggregation_timezone(explicit_zone, Some(system_zone));
        let compact = match read_number(&settings.compact_interval, 600, u64::MAX, "NETWATCH_COMPACT_INTERVAL_SECONDS") {
            Ok(v) => v,
            Err(e) => return Err(e),
        };
        let flush = match read_number(&settings.check_flush_interval, 60, u64::MAX, "NETWATCH_CHECK_FLUSH_INTERVAL_SECONDS") {
            Ok(v) => v,
            Err(e) => return Err(e),
        };
        let webhook_url = match settings.webhook_url {
            Some(w) => if w.as_str().unicode_len() == 0 { None } else { Some(w) },
            None => None,
        };
        Ok(Config {
            host: match settings.host { Some(h) => h, None => copy_str("127.0.0.1") },
            port,
            database_url: match settings.database_url { Some(d) => d, None => copy_str("sqlite://netwatch.db") },
            scheduler_tick: tick,
            failure_threshold: threshold,
            aggregation_timezone,
            compact_interval: compact,
            check_flush_interval: flush,
            webhook_url,
        })
    }

    /// The configuration the settings give on a machine whose offset from
    /// UTC is `local_offset_seconds` east: as `from_settings_in_zone`, with
    /// that offset's zone text.
    pub fn from_settings(settings: EnvSettings, local_offset_seconds: i32) -> (r: Result<Config, ConfigError>)
        ensures
            match config_from(settings, system_zone_text(local_offset_seconds as int)) {
                Ok(v) => r matches Ok(c) && c@ == v,
                Err((key, kind)) => r matches Err(e) && e.key@ == key && e.kind == kind,
            },
    {
        let system_zone = system_timezone_offset(local_offset_seconds);
        Config::from_settings_in_zone(settings, system_zone)
    }
}

} // verus!
verus! {

/// A digit's character is a digit, and reads back as that digit.
proof fn lemma_digit_char(d: nat)
    requires
        d < 10,
    ensures
        is_digit(digit_char(d)),
        digit_char(d) != ':',
        ((digit_char(d) as u32) - ('0' as u32)) as nat == d,
{
}

/// A number below a hundred, padded to two digits.
proof fn lemma_pad2_two_digits(n: nat)
    requires
        n < 100,
    ensures
        pad2(decimal(n)) == seq![digit_char(n / 10), digit_char(n % 10)],
{
    if n < 10 {
        assert(digit_char(0) == '0');
        assert(pad2(decimal(n)) =~= seq![digit_char(n / 10), digit_char(n % 10)]);
    } else {
        assert(decimal(n / 10) == seq![digit_char(n / 10)]);
        assert(pad2(decimal(n)) =~= seq![digit_char(n / 10), digit_char(n % 10)]);
    }
}

/// Two digits read back as the number they render.
proof fn lemma_two_digits_parse(n: nat)
    requires
        n < 100,
    ensures
        parse_integer(seq![digit_char(n / 10), digit_char(n % 10)], true, i32::MIN as int, i32::MAX as int)
            == Ok::<int, IntErrorKind>(n as int),
{
    let hi = digit_char(n / 10);
    let lo = digit_char(n % 10);
    let s = seq![hi, lo];
    lemma_digit_char(n / 10);
    lemma_digit_char(n % 10);
    let tail = s.drop_first();
    assert(tail =~= seq![lo]);
    assert(tail.drop_first() =~= Seq::<char>::empty());
    assert(digit_run(tail.drop_first()) == 0);
    assert(digit_run(tail) == 1);
    assert(digit_run(s) == 2);
    assert(s.subrange(0, 2) =~= s);
    let one = seq![hi];
    assert(one.drop_last() =~= Seq::<char>::empty());
    assert(digits_value(Seq::<char>::empty()) == 0);
    assert(one.last() == hi);
    assert(digits_value(one) == n / 10);
    assert(s.drop_last() =~= one);
    assert(digits_value(s) == (n / 10) * 10 + n % 10);
}

/// The hours and minutes of a whole-minute offset within a day.
proof fn lemma_offset_parts(a: nat)
    requires
        a < 86_400,
        a % 60 == 0,
    ensures
        a / 3600 < 24,
        (a % 3600) / 60 < 60,
        a == (a / 3600) * 3600 + ((a % 3600) / 60) * 60,
{
    assert(a == (a / 3600) * 3600 + ((a % 3600) / 60) * 60) by (nonlinear_arith)
        requires
            a % 60 == 0,
    {
        assert(a == (a / 3600) * 3600 + a % 3600);
        assert((a % 3600) % 60 == 0);
        assert(a % 3600 == ((a % 3600) / 60) * 60 + (a % 3600) % 60);
    }
}

/// The text of an offset: its sign, two digits of hours, a colon and two
/// digits of minutes.
proof fn lemma_offset_text_shape(seconds: int, sign: char, h: nat, m: nat)
    requires
        h < 100,
        m < 100,
        sign == (if seconds >= 0 { '+' } else { '-' }),
        h == (if seconds >= 0 { seconds } else { -seconds }) as nat / 3600,
        m == ((if seconds >= 0 { seconds } else { -seconds }) as nat % 3600) / 60,
    ensures
        offset_text(seconds) == seq![sign, digit_char(h / 10), digit_char(h % 10), ':', digit_char(m / 10),
            digit_char(m % 10)],
{
    lemma_pad2_two_digits(h);
    lemma_pad2_two_digits(m);
    reveal_strlit(":");
    assert(offset_text(seconds) =~= seq![sign, digit_char(h / 10), digit_char(h % 10), ':', digit_char(m / 10),
        digit_char(m % 10)]);
}

/// A text `±hh:mm` with hours below 24 and minutes below 60 reads as that
/// offset.
proof fn lemma_fixed_offset_of_shape(t: Seq<char>, sign: char, h: nat, m: nat)
    requires
        h < 24,
        m < 60,
        sign == '+' || sign == '-',
        t == seq![sign, digit_char(h / 10), digit_char(h % 10), ':', digit_char(m / 10), digit_char(m % 10)],
    ensures
        fixed_offset_of(t) == Some((if sign == '+' { 1int } else { -1int }) * (h * 3600 + m * 60)),
{
    let hs = seq![digit_char(h / 10), digit_char(h % 10)];
    let ms = seq![digit_char(m / 10), digit_char(m % 10)];
    let rest = t.drop_first();
    assert(rest =~= seq![digit_char(h / 10), digit_char(h % 10), ':', digit_char(m / 10), digit_char(m % 10)]);
    lemma_digit_char(h / 10);
    lemma_digit_char(h % 10);
    assert(rest[2] == ':');
    assert(rest[0] != ':' && rest[1] != ':');
    assert(forall|j: int| 0 <= j < 2 ==> rest[j] != ':');
    assert(exists|i: int| 0 <= i < rest.len() && rest[i] == ':' && forall|j: int| 0 <= j < i ==> rest[j] != ':');
    let c = choose|i: int| 0 <= i < rest.len() && rest[i] == ':' && forall|j: int| 0 <= j < i ==> rest[j] != ':';
    assert(c == 2) by {
        if c < 2 {
            assert(rest[c] != ':');
        } else if c > 2 {
            assert(rest[2] != ':');
        }
    }
    assert(rest.subrange(0, 2) =~= hs);
    assert(rest.subrange(3, rest.len() as int) =~= ms);
    lemma_two_digits_parse(h);
    lemma_two_digits_parse(m);
    let hp = parse_integer(rest.subrange(0, c), true, i32::MIN as int, i32::MAX as int);
    let mp = parse_integer(rest.subrange(c + 1, rest.len() as int), true, i32::MIN as int, i32::MAX as int);
    assert(hp == Ok::<int, IntErrorKind>(h as int));
    assert(mp == Ok::<int, IntErrorKind>(m as int));
    assert(0 <= h * 3600 <= 82_800 && 0 <= m * 60 <= 3_540 && 0 <= h * 60 <= 1_380) by (nonlinear_arith)
        requires
            h < 24,
            m < 60,
    ;
    let sign_value: int = if sign == '+' { 1 } else { -1 };
    let total = sign_value * (h * 3600 + m * 60);
    assert(-86_340 <= total <= 86_340) by (nonlinear_arith)
        requires
            sign_value == 1 || sign_value == -1,
            0 <= h * 3600 + m * 60 <= 86_340,
            total == sign_value * (h * 3600 + m * 60),
    ;
}

/// Reading back a written offset: a whole-minute offset strictly within a
/// day, written as `+hh:mm` / `-hh:mm`, reads back as the same offset.
pub proof fn lemma_offset_round_trip(seconds: int)
    requires
        valid_offset(seconds),
        seconds % 60 == 0,
    ensures
        fixed_offset_of(offset_text(seconds)) == Some(seconds),
{
    let a: nat = (if seconds >= 0 { seconds } else { -seconds }) as nat;
    assert(a % 60 == 0);
    lemma_offset_parts(a);
    let h = a / 3600;
    let m = (a % 3600) / 60;
    let sign = if seconds >= 0 { '+' } else { '-' };
    lemma_offset_text_shape(seconds, sign, h, m);
    lemma_fixed_offset_of_shape(offset_text(seconds), sign, h, m);
}

} // verus!
