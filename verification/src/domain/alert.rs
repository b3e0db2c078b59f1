//! Alert events: a monitor went down, or came back.

use vstd::prelude::*;
use crate::text::same_text;

verus! {

/// What an alert event reports.
#[derive(Debug, Clone, Copy, PartialEq, Eq, Structural)]
pub enum AlertKind {
    Triggered,
    Recovered,
    CertificateExpiring,
}

/// The stable stored text of an alert kind.
pub open spec fn alert_kind_text(k: AlertKind) -> Seq<char> {
    match k {
        AlertKind::Triggered => "triggered"@,
        AlertKind::Recovered => "recovered"@,
        AlertKind::CertificateExpiring => "certificate_expiring"@,
    }
}

/// Reads a stored kind; unknown text reads as `Triggered`.
pub open spec fn alert_kind_from_text(s: Seq<char>) -> AlertKind {
    if s == "recovered"@ {
        AlertKind::Recovered
    } else if s == "certificate_expiring"@ {
        AlertKind::CertificateExpiring
    } else {
        AlertKind::Triggered
    }
}

impl AlertKind {
    /// The stable text used when the kind is stored.
    pub fn as_str(&self) -> (r: &'static str)
        ensures
            r@ == alert_kind_text(*self),
    {
        match self {
            AlertKind::Triggered => "triggered",
            AlertKind::Recovered => "recovered",
            AlertKind::CertificateExpiring => "certificate_expiring",
        }
    }
}

impl<'a> From<&'a str> for AlertKind {
    fn from(value: &'a str) -> (r: AlertKind) {
        if same_text(value, "recovered") {
            AlertKind::Recovered
        } else if same_text(value, "certificate_expiring") {
            AlertKind::CertificateExpiring
        } else {
            AlertKind::Triggered
        }
    }
}

impl<'a> vstd::std_specs::convert::FromSpecImpl<&'a str> for AlertKind {
    open spec fn obeys_from_spec() -> bool {
        true
    }

    open spec fn from_spec(v: &'a str) -> AlertKind {
        alert_kind_from_text(v@)
    }
}

/// An alert event; events are only ever appended. Instants are milliseconds
/// since the Unix epoch.
#[derive(Debug)]
pub struct AlertEvent {
    pub id: Option<i64>,
    pub monitor_id: i64,
    pub kind: AlertKind,
    pub message: String,
    /// Whether a notification reached an outside channel.
    pub delivered: bool,
    pub created_at: i64,
}

} // verus!
