//! The rules of process control: which processes are never touched, how a
//! live process's name is read, and what the guard decides. Not knowing what
//! a process is means not touching it.

use vstd::prelude::*;
use crate::text::{
    after_last, after_last_chars, chars_of, lowercase, owned, str_eq, string_from, to_lowercase,
    trim_end_pat, trim_end_pat_chars,
};

verus! {

/// Processes that keep the session, boot, or the user's security alive, and
/// Mganga itself: the healer does not operate on itself. Names are lowercase
/// executable names without ".exe".
pub open spec fn protected_process(name: Seq<char>) -> bool {
    ||| name == "system"@
    ||| name == "registry"@
    ||| name == "memory compression"@
    ||| name == "smss"@
    ||| name == "csrss"@
    ||| name == "wininit"@
    ||| name == "winlogon"@
    ||| name == "services"@
    ||| name == "lsass"@
    ||| name == "svchost"@
    ||| name == "dwm"@
    ||| name == "fontdrvhost"@
    ||| name == "sihost"@
    ||| name == "explorer"@
    ||| name == "ctfmon"@
    ||| name == "audiodg"@
    ||| name == "ntoskrnl"@
    ||| name == "msmpeng"@
    ||| name == "nissrv"@
    ||| name == "mpdefendercoreservice"@
    ||| name == "securityhealthservice"@
    ||| name == "securityhealthsystray"@
    ||| name == "mganga"@
    ||| name == "mganga-broker"@
}

pub fn is_protected_process(name: &str) -> (r: bool)
    ensures
        r == protected_process(name@),
{
    str_eq(name, "system") || str_eq(name, "registry") || str_eq(name, "memory compression")
        || str_eq(name, "smss") || str_eq(name, "csrss") || str_eq(name, "wininit") || str_eq(
        name,
        "winlogon",
    ) || str_eq(name, "services") || str_eq(name, "lsass") || str_eq(name, "svchost") || str_eq(
        name,
        "dwm",
    ) || str_eq(name, "fontdrvhost") || str_eq(name, "sihost") || str_eq(name, "explorer")
        || str_eq(name, "ctfmon") || str_eq(name, "audiodg") || str_eq(name, "ntoskrnl") || str_eq(
        name,
        "msmpeng",
    ) || str_eq(name, "nissrv") || str_eq(name, "mpdefendercoreservice") || str_eq(
        name,
        "securityhealthservice",
    ) || str_eq(name, "securityhealthsystray") || str_eq(name, "mganga") || str_eq(
        name,
        "mganga-broker",
    )
}

/// The name the guard judges a process by: the last part of its full image
/// path, lowercase, without trailing ".exe".
pub open spec fn base_name(full: Seq<char>) -> Seq<char> {
    trim_end_pat(lowercase(after_last(full, '\\')), ".exe"@)
}

pub fn process_base_name(full: &str) -> (r: String)
    ensures
        r@ == base_name(full@),
{
    let v = chars_of(full);
    let last = after_last_chars(v.as_slice(), '\\');
    let lower = to_lowercase(string_from(last.as_slice()).as_str());
    let lv = chars_of(lower.as_str());
    let pat = chars_of(".exe");
    let t = trim_end_pat_chars(lv.as_slice(), pat.as_slice());
    string_from(t.as_slice())
}

/// The guard before every process operation, given the name resolved from
/// the live process (none when it could not be resolved): an unresolved or
/// protected name is refused as "protected".
pub fn guard_protected(resolved: Option<&str>) -> (r: Result<(), String>)
    ensures
        r is Ok <==> (resolved matches Some(n) && !protected_process(n@)),
        r matches Err(e) ==> e@ == "protected"@,
{
    match resolved {
        Some(n) => if is_protected_process(n) {
            Err(owned("protected"))
        } else {
            Ok(())
        },
        None => Err(owned("protected")),
    }
}

} // verus!
