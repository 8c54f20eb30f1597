//! A read-only view of the connection shield (the GoodbyeDPI service): is it
//! installed, running, and set to start on its own. A service that is not
//! installed is a state the card shows, not an error.

use vstd::prelude::*;
use crate::text::{opt_view, owned, str_eq};

verus! {

/// The service the shield card watches.
pub const SHIELD_SERVICE: &'static str = "GoodbyeDPI";

/// What the service manager answered about a service.
pub enum ServiceQuery {
    /// The service does not exist.
    Absent,
    /// The service manager could not be opened, or refused to open the
    /// service for another reason; the message says why.
    Failed(String),
    /// The service exists. `start_code` is the start type from its
    /// configuration (none when the configuration could not be read);
    /// `config` is its command line.
    Found { running: bool, start_code: Option<u32>, config: Option<String> },
}

/// A service start type as the card names it: automatic (2), on demand (3),
/// disabled (4); anything else, or no configuration, is unknown.
pub open spec fn start_type_name(code: Option<u32>) -> Seq<char> {
    match code {
        Some(2) => "auto"@,
        Some(3) => "manual"@,
        Some(4) => "disabled"@,
        _ => "unknown"@,
    }
}

pub fn start_type_of(code: Option<u32>) -> (r: String)
    ensures
        r@ == start_type_name(code),
{
    match code {
        Some(2) => owned("auto"),
        Some(3) => owned("manual"),
        Some(4) => owned("disabled"),
        _ => owned("unknown"),
    }
}

/// Healthy: installed, running, and starting on its own.
pub open spec fn is_healthy(running: bool, start_type: Seq<char>) -> bool {
    running && start_type == "auto"@
}

pub struct ShieldStatus {
    pub installed: bool,
    pub running: bool,
    /// "auto" | "manual" | "disabled" | "unknown"
    pub start_type: String,
    /// The service's command line, so the card can show what it does.
    pub config: Option<String>,
    /// installed && running && start_type == "auto"
    pub healthy: bool,
}

impl ShieldStatus {
    /// The status of a service that is not installed.
    pub fn absent() -> (r: Self)
        ensures
            !r.installed,
            !r.running,
            r.start_type@ == "unknown"@,
            r.config is None,
            !r.healthy,
    {
        ShieldStatus {
            installed: false,
            running: false,
            start_type: owned("unknown"),
            config: None,
            healthy: false,
        }
    }
}

/// The shield's status from the service manager's answer.
pub fn status(query: ServiceQuery) -> (r: Result<ShieldStatus, String>)
    ensures
        match query {
            ServiceQuery::Absent => r matches Ok(s) && !s.installed && !s.running
                && s.start_type@ == "unknown"@ && s.config is None && !s.healthy,
            ServiceQuery::Failed(e) => r matches Err(m) && m@ == e@,
            ServiceQuery::Found { running, start_code, config } => r matches Ok(s)
                && s.installed && s.running == running && s.start_type@ == start_type_name(
                start_code,
            ) && opt_view(s.config) == opt_view(config) && s.healthy == is_healthy(
                running,
                start_type_name(start_code),
            ),
        },
{
    match query {
        ServiceQuery::Absent => Ok(ShieldStatus::absent()),
        ServiceQuery::Failed(e) => Err(e),
        ServiceQuery::Found { running, start_code, config } => {
            let start_type = start_type_of(start_code);
            let healthy = running && str_eq(start_type.as_str(), "auto");
            Ok(ShieldStatus { installed: true, running, start_type, config, healthy })
        },
    }
}

} // verus!
