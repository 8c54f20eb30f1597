//! The elevated broker's decisions. The broker is the security boundary: it
//! never trusts the caller, and checks every write itself with the same
//! guard as the GUI. Requests arrive one per line as JSON; the caller decodes
//! them into a `BrokerRequest` and carries out the plan chosen here.

use vstd::prelude::*;
use crate::actions::vec_view;
use crate::guard::{approved_bytes, filetime_of, from_hex_checked, hex_decoded, make_approved_bytes};
use crate::text::{owned, push_str, str_eq};

verus! {

/// A request as read off the pipe. Missing or mistyped arguments read as
/// empty text, `false`, no hex, and no PIDs.
pub struct BrokerRequest {
    pub op: String,
    pub path: String,
    pub name: String,
    pub enable: bool,
    /// The receipt to restore, when the argument is a string.
    pub old_value_hex: Option<String>,
    pub action: String,
    /// The numeric items of the `pids` argument.
    pub pids: Vec<u64>,
}

/// What the broker does for a request.
pub enum BrokerPlan {
    /// Report that it is alive (and whether it is elevated).
    Ping,
    /// Read one HKLM value.
    ReadHklm { path: String, name: String },
    /// Write (or, with no bytes, delete) one HKLM StartupApproved value,
    /// after the guard.
    WriteApproved { path: String, name: String, new_bytes: Option<Vec<u8>> },
    /// Act on processes the GUI could not open.
    ProcessAction { action: String, pids: Vec<u32> },
    /// Answer with this error and do nothing.
    Refuse(String),
}

/// PIDs as the broker uses them: each number cut to 32 bits.
pub open spec fn pids_u32(pids: Seq<u64>) -> Seq<u32> {
    pids.map_values(|p: u64| p as u32)
}

/// Choose what to do for a request. A receipt that is not valid hex
/// (including one whose byte pairs would cut a character in two) is refused
/// with "bad hex"; an unknown operation with "unknown op: <op>".
pub fn plan_request(req: BrokerRequest) -> (r: BrokerPlan)
    ensures
        req.op@ == "ping"@ ==> r is Ping,
        req.op@ == "read_hklm"@ ==> (r matches BrokerPlan::ReadHklm { path, name } && path@
            == req.path@ && name@ == req.name@),
        req.op@ == "set_startup_approved"@ ==> (r matches BrokerPlan::WriteApproved {
            path,
            name,
            new_bytes,
        } && path@ == req.path@ && name@ == req.name@ && (new_bytes matches Some(b) && (exists|
            nanos: Option<u128>,
        | b@ == approved_bytes(req.enable, filetime_of(nanos))))),
        req.op@ == "restore_startup_approved"@ ==> match req.old_value_hex {
            Some(h) => match hex_decoded(h@) {
                Some(bytes) => r matches BrokerPlan::WriteApproved { path, name, new_bytes }
                    && path@ == req.path@ && name@ == req.name@ && vec_view(new_bytes) == Some(
                    bytes,
                ),
                None => r matches BrokerPlan::Refuse(e) && e@ == "bad hex"@,
            },
            None => r matches BrokerPlan::WriteApproved { path, name, new_bytes } && path@
                == req.path@ && name@ == req.name@ && new_bytes is None,
        },
        req.op@ == "process_action"@ ==> (r matches BrokerPlan::ProcessAction { action, pids }
            && action@ == req.action@ && pids@ == pids_u32(req.pids@)),
        !(req.op@ == "ping"@ || req.op@ == "read_hklm"@ || req.op@ == "set_startup_approved"@
            || req.op@ == "restore_startup_approved"@ || req.op@ == "process_action"@) ==> (
        r matches BrokerPlan::Refuse(e) && e@ == "unknown op: "@ + req.op@),
{
    let op = req.op.as_str();
    proof {
        reveal_strlit("ping");
        reveal_strlit("read_hklm");
        reveal_strlit("set_startup_approved");
        reveal_strlit("restore_startup_approved");
        reveal_strlit("process_action");
        assert("ping"@.len() == 4);
        assert("read_hklm"@.len() == 9);
        assert("set_startup_approved"@.len() == 20);
        assert("restore_startup_approved"@.len() == 24);
        assert("process_action"@.len() == 14);
    }
    if str_eq(op, "ping") {
        BrokerPlan::Ping
    } else if str_eq(op, "read_hklm") {
        BrokerPlan::ReadHklm { path: req.path, name: req.name }
    } else if str_eq(op, "set_startup_approved") {
        BrokerPlan::WriteApproved {
            path: req.path,
            name: req.name,
            new_bytes: Some(make_approved_bytes(req.enable)),
        }
    } else if str_eq(op, "restore_startup_approved") {
        match &req.old_value_hex {
            Some(hex) => match from_hex_checked(hex.as_str()) {
                Some(b) => BrokerPlan::WriteApproved {
                    path: req.path,
                    name: req.name,
                    new_bytes: Some(b),
                },
                None => BrokerPlan::Refuse(owned("bad hex")),
            },
            None => BrokerPlan::WriteApproved { path: req.path, name: req.name, new_bytes: None },
        }
    } else if str_eq(op, "process_action") {
        let mut pids: Vec<u32> = Vec::new();
        let mut i: usize = 0;
        while i < req.pids.len()
            invariant
                0 <= i <= req.pids@.len(),
                pids@ == pids_u32(req.pids@.subrange(0, i as int)),
            decreases req.pids@.len() - i,
        {
            pids.push(req.pids[i] as u32);
            i = i + 1;
            proof {
                assert(pids@ =~= pids_u32(req.pids@.subrange(0, i as int)));
            }
        }
        proof {
            assert(req.pids@.subrange(0, req.pids@.len() as int) =~= req.pids@);
        }
        BrokerPlan::ProcessAction { action: req.action, pids }
    } else {
        let mut e = owned("unknown op: ");
        push_str(&mut e, op);
        BrokerPlan::Refuse(e)
    }
}

/// The broker's own count of a process action. Unlike the GUI it has no one
/// to hand refusals to: every error but "protected" is only remembered (the
/// first one), and "protected" stops the whole request.
pub struct BrokerTally {
    pub ok: u32,
    pub first_error: Option<String>,
}

impl BrokerTally {
    pub fn new() -> (r: Self)
        ensures
            r.ok == 0,
            r.first_error is None,
    {
        BrokerTally { ok: 0, first_error: None }
    }

    /// Count one process's result; `Err("protected")` stops the request.
    pub fn record(&mut self, result: Result<(), String>) -> (r: Result<(), String>)
        requires
            old(self).ok < u32::MAX,
        ensures
            match result {
                Ok(()) => r is Ok && final(self).ok == old(self).ok + 1
                    && crate::text::opt_view(final(self).first_error) == crate::text::opt_view(
                    old(self).first_error,
                ),
                Err(e) => if e@ == "protected"@ {
                    r matches Err(m) && m@ == "protected"@
                } else {
                    r is Ok && final(self).ok == old(self).ok && crate::text::opt_view(
                        final(self).first_error,
                    ) == match old(self).first_error {
                        Some(f) => Some(f@),
                        None => Some(e@),
                    }
                },
            },
    {
        match result {
            Ok(()) => {
                self.ok = self.ok + 1;
                Ok(())
            },
            Err(e) => {
                if str_eq(e.as_str(), "protected") {
                    Err(owned("protected"))
                } else {
                    if self.first_error.is_none() {
                        self.first_error = Some(e);
                    }
                    Ok(())
                }
            },
        }
    }
}

// ------------------------------------------------------------ the GUI's side

/// Why launching the broker failed, from the Windows error code: the user
/// declining the elevation prompt (ERROR_CANCELLED, 1223) is "uac-declined";
/// anything else is "launch-failed: code <n>".
pub open spec fn launch_error_text(code: u32) -> Seq<char> {
    if code == 1223 {
        "uac-declined"@
    } else {
        "launch-failed: code "@ + crate::text::decimal(code as nat)
    }
}

pub fn launch_error(code: u32) -> (r: String)
    ensures
        r@ == launch_error_text(code),
{
    if code == 1223 {
        owned("uac-declined")
    } else {
        let mut e = owned("launch-failed: code ");
        crate::text::push_decimal(&mut e, code as u64);
        e
    }
}

/// The broker's answer to one request: its result when it says `ok: true`,
/// otherwise its error, or "unknown broker error" when it gave none.
pub fn broker_answer<T>(ok: Option<bool>, result: T, error: Option<String>) -> (r: Result<T, String>)
    ensures
        ok == Some(true) ==> r == Ok::<T, String>(result),
        ok != Some(true) ==> (r matches Err(e) && e@ == match error {
            Some(m) => m@,
            None => "unknown broker error"@,
        }),
{
    let accepted = match ok {
        Some(b) => b,
        None => false,
    };
    if accepted {
        Ok(result)
    } else {
        match error {
            Some(m) => Err(m),
            None => Err(owned("unknown broker error")),
        }
    }
}

} // verus!
