//! TCP probe decisions: the address to connect to.

use vstd::prelude::*;
use crate::domain::monitor::text_opt;
use crate::error::AppError;
use crate::text::{chars_of, copy_str, decimal, decimal_string};

verus! {

/// What `url::Url::parse(target)` yields for a TCP probe: `None` when the
/// text is not a URL, otherwise the URL's `host_str()` and
/// `port_or_known_default()`.
pub uninterp spec fn url_endpoint(target: Seq<char>) -> Option<(Option<Seq<char>>, Option<u16>)>;

/// Parses `target` with `url::Url::parse` and reads the host and the port
/// (explicit, or the scheme's default) of the URL.
#[verifier::external_body]
fn parse_url_endpoint(target: &str) -> (r: Option<(Option<String>, Option<u16>)>)
    ensures
        match url_endpoint(target@) {
            None => r is None,
            Some((host, port)) => r matches Some((h, p)) && text_opt(h) == host && p == port,
        },
{
    match url::Url::parse(target) {
        Ok(url) => Some((url.host_str().map(|host| host.to_string()), url.port_or_known_default())),
        Err(_) => None,
    }
}

/// `s` contains `pat` somewhere.
pub open spec fn contains_text(s: Seq<char>, pat: Seq<char>) -> bool {
    exists|i: int| 0 <= i && i + pat.len() <= s.len() && #[trigger] s.subrange(i, i + pat.len()) == pat
}

/// `s` contains `c`.
pub open spec fn contains_char(s: Seq<char>, c: char) -> bool {
    exists|i: int| 0 <= i < s.len() && s[i] == c
}

/// The address a TCP monitor connects to: a `host:port` target as it is,
/// else the host and port of the target read as a URL.
pub open spec fn tcp_address(target: Seq<char>) -> Result<Seq<char>, Seq<char>> {
    if contains_char(target, ':') && !contains_text(target, "://"@) {
        Ok(target)
    } else {
        match url_endpoint(target) {
            None => Err("tcp target must be host:port or URL with an explicit port"@),
            Some((None, _)) => Err("tcp target URL is missing host"@),
            Some((Some(_), None)) => Err("tcp target URL is missing port"@),
            Some((Some(host), Some(port))) => Ok(host + ":"@ + decimal(port as nat)),
        }
    }
}

fn has_scheme_separator(v: &Vec<char>) -> (b: bool)
    ensures
        b == contains_text(v@, "://"@),
{
    proof {
        reveal_strlit("://");
    }
    let mut i: usize = 0;
    while i < v.len() && v.len() - i >= 3
        invariant
            i <= v@.len(),
            forall|j: int| 0 <= j < i && j + 3 <= v@.len() ==> #[trigger] v@.subrange(j, j + 3) != "://"@,
            "://"@ == seq![':', '/', '/'],
        decreases v.len() - i,
    {
        if v[i] == ':' && v[i + 1] == '/' && v[i + 2] == '/' {
            assert(v@.subrange(i as int, i + 3) =~= "://"@);
            assert(v@.subrange(i as int, i + "://"@.len()) == "://"@);
            return true;
        }
        assert(v@.subrange(i as int, i + 3) != "://"@) by {
            let w = v@.subrange(i as int, i + 3);
            assert(w[0] == v@[i as int] && w[1] == v@[i + 1] && w[2] == v@[i + 2]);
        }
        i = i + 1;
    }
    assert forall|j: int| 0 <= j && j + "://"@.len() <= v@.len() implies #[trigger] v@.subrange(j, j + "://"@.len()) != "://"@ by {
        assert(j < i);
    }
    false
}

/// The address to connect to, or why the target does not name one.
pub fn parse_target(target: &str) -> (r: Result<String, AppError>)
    ensures
        match tcp_address(target@) {
            Ok(a) => r matches Ok(s) && s@ == a,
            Err(m) => r matches Err(e) && (e matches AppError::BadRequest(t) && t@ == m),
        },
{
    let v = chars_of(target);
    let mut has_colon = false;
    let mut i: usize = 0;
    while i < v.len()
        invariant
            i <= v@.len(),
            v@ == target@,
            has_colon ==> contains_char(target@, ':'),
            !has_colon ==> forall|j: int| 0 <= j < i ==> v@[j] != ':',
        decreases v.len() - i,
    {
        if v[i] == ':' {
            has_colon = true;
        }
        i = i + 1;
    }
    if has_colon && !has_scheme_separator(&v) {
        return Ok(copy_str(target));
    }
    match parse_url_endpoint(target) {
        None => Err(AppError::BadRequest(copy_str("tcp target must be host:port or URL with an explicit port"))),
        Some((None, _)) => Err(AppError::BadRequest(copy_str("tcp target URL is missing host"))),
        Some((Some(_), None)) => Err(AppError::BadRequest(copy_str("tcp target URL is missing port"))),
        Some((Some(host), Some(port))) => {
            let digits = decimal_string(port as u64);
            Ok(crate::probes::observation::cat3(host.as_str(), ":", digits.as_str()))
        },
    }
}

} // verus!
