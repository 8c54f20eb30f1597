//! Updates, as decisions: which check results are announced, when an
//! install may go ahead, and the receipt every applied update leaves. A
//! failed or impossible check is never alarming: it resolves to nothing to
//! do. The update service itself is reached by the caller.

use vstd::prelude::*;
use crate::audit::AuditRecord;
use crate::text::{opt_view, owned, push_str};

verus! {

/// What the frontend needs to show the "new version ready" line.
pub struct UpdateInfo {
    pub version: String,
    pub current_version: String,
    pub notes: Option<String>,
}

/// The background check announces a newer version only when one was found;
/// "up to date" and a failed check both stay quiet.
pub fn update_to_announce(checked: Result<Option<UpdateInfo>, String>) -> (r: Option<UpdateInfo>)
    ensures
        match checked {
            Ok(Some(info)) => r matches Some(a) && a.version@ == info.version@
                && a.current_version@ == info.current_version@ && opt_view(a.notes) == opt_view(
                info.notes,
            ),
            _ => r is None,
        },
{
    match checked {
        Ok(Some(info)) => Some(info),
        _ => None,
    }
}

/// An install needs a pending update: a failed check passes its error on,
/// and "up to date" is the error "no-update".
pub fn pending_update(checked: Result<Option<UpdateInfo>, String>) -> (r: Result<UpdateInfo, String>)
    ensures
        match checked {
            Ok(Some(info)) => r matches Ok(a) && a.version@ == info.version@
                && a.current_version@ == info.current_version@,
            Ok(None) => r matches Err(e) && e@ == "no-update"@,
            Err(e) => r matches Err(m) && m@ == e@,
        },
{
    match checked {
        Ok(Some(info)) => Ok(info),
        Ok(None) => Err(owned("no-update")),
        Err(e) => Err(e),
    }
}

/// The receipt of an applied update. Updates cannot be undone, so it carries
/// no hive or path: the history shows it as a plain line without Undo.
pub fn update_record(id: String, time_ms: u64, from: &str, to: &str) -> (r: AuditRecord)
    ensures
        r.id@ == id@,
        r.time_ms == time_ms,
        r.action@ == "update"@,
        r.hive@.len() == 0,
        r.approved_path@.len() == 0,
        r.value_name@ == "to "@ + to@,
        r.old_value_hex is None,
        r.undoes is None,
        opt_view(r.detail) == Some("from "@ + from@),
{
    let mut value_name = owned("to ");
    push_str(&mut value_name, to);
    let mut detail = owned("from ");
    push_str(&mut detail, from);
    AuditRecord {
        id,
        time_ms,
        action: owned("update"),
        hive: String::new(),
        approved_path: String::new(),
        value_name,
        old_value_hex: None,
        undoes: None,
        detail: Some(detail),
    }
}

} // verus!
