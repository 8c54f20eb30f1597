//! The decisions behind the app's commands: which autostart writes go where,
//! what the audit log records for each change and for its undo, how a
//! process action is tallied over many processes, and what Mganga remembers
//! of the processes it throttled or suspended. The registry, the broker and
//! the processes themselves are reached by the caller, between these steps.

use vstd::prelude::*;
use crate::actions::write_refusal;
use crate::audit::AuditRecord;
use crate::guard::{is_allowed_approved_path, is_protected_autostart};
use crate::judge::{judge_process, judged_process, Rule};
use crate::proc_control::{is_protected_process, protected_process};
use crate::text::{ascii_fold, decimal, lowercase, opt_view, owned, push_decimal, push_str, str_eq, to_lowercase};

verus! {

// ------------------------------------------------------------ autostart writes

/// Where a StartupApproved write goes: the user's own hive is written
/// directly; the machine hive goes through the elevated broker.
#[derive(Clone, Copy, PartialEq, Eq, Debug, Structural)]
pub enum WriteRoute {
    User,
    Machine,
}

pub open spec fn route_of(hive: Seq<char>) -> Option<WriteRoute> {
    if hive == "HKCU"@ {
        Some(WriteRoute::User)
    } else if hive == "HKLM"@ {
        Some(WriteRoute::Machine)
    } else {
        None
    }
}

pub fn route_for_hive(hive: &str) -> (r: Result<WriteRoute, String>)
    ensures
        match route_of(hive@) {
            Some(w) => r == Ok::<WriteRoute, String>(w),
            None => r matches Err(e) && e@ == "bad-hive"@,
        },
{
    if str_eq(hive, "HKCU") {
        Ok(WriteRoute::User)
    } else if str_eq(hive, "HKLM") {
        Ok(WriteRoute::Machine)
    } else {
        Err(owned("bad-hive"))
    }
}

/// A toggle request is checked before anything is written: the path must be
/// a StartupApproved key ("bad-path"), the name must not be protected
/// ("protected"), and the hive must be one of the two ("bad-hive").
pub fn check_autostart_request(hive: &str, approved_path: &str, value_name: &str) -> (r: Result<
    WriteRoute,
    String,
>)
    ensures
        match write_refusal(approved_path@, value_name@) {
            Some(e) => r matches Err(m) && m@ == e,
            None => match route_of(hive@) {
                Some(w) => r == Ok::<WriteRoute, String>(w),
                None => r matches Err(e) && e@ == "bad-hive"@,
            },
        },
        crate::text::all_ascii(value_name@) ==> lowercase(value_name@) == ascii_fold(value_name@),
{
    let protected = is_protected_autostart(value_name);
    if !is_allowed_approved_path(approved_path) {
        return Err(owned("bad-path"));
    }
    if protected {
        return Err(owned("protected"));
    }
    route_for_hive(hive)
}

/// The receipt of a toggle.
pub fn autostart_record(
    id: String,
    time_ms: u64,
    enable: bool,
    hive: String,
    approved_path: String,
    value_name: String,
    old_value_hex: Option<String>,
) -> (r: AuditRecord)
    ensures
        r.id@ == id@,
        r.time_ms == time_ms,
        r.action@ == (if enable {
            "enable-autostart"@
        } else {
            "disable-autostart"@
        }),
        r.hive@ == hive@,
        r.approved_path@ == approved_path@,
        r.value_name@ == value_name@,
        opt_view(r.old_value_hex) == opt_view(old_value_hex),
        r.undoes is None,
        r.detail is None,
{
    AuditRecord {
        id,
        time_ms,
        action: if enable {
            owned("enable-autostart")
        } else {
            owned("disable-autostart")
        },
        hive,
        approved_path,
        value_name,
        old_value_hex,
        undoes: None,
        detail: None,
    }
}

// ------------------------------------------------------------ history and undo

/// The audit log, newest first (the log itself is kept oldest first).
pub fn newest_first(records: Vec<AuditRecord>) -> (r: Vec<AuditRecord>)
    ensures
        r@ == records@.reverse(),
{
    let ghost given = records@;
    let mut rest = records;
    let mut out: Vec<AuditRecord> = Vec::new();
    while rest.len() > 0
        invariant
            rest@.len() + out@.len() == given.len(),
            rest@ == given.subrange(0, rest@.len() as int),
            out@ == given.subrange(rest@.len() as int, given.len() as int).reverse(),
        decreases rest@.len(),
    {
        let ghost n = rest@.len();
        let last = rest.pop().unwrap();
        out.push(last);
        proof {
            assert(out@ =~= given.subrange(n - 1, given.len() as int).reverse());
        }
    }
    proof {
        assert(given.subrange(0, given.len() as int) =~= given);
    }
    out
}

/// The first record whose id is `id`, searching from `from`.
pub open spec fn record_index_from(records: Seq<AuditRecord>, id: Seq<char>, from: int) -> Option<int>
    decreases records.len() - from,
{
    if from < 0 || from >= records.len() {
        None
    } else if records[from].id@ == id {
        Some(from)
    } else {
        record_index_from(records, id, from + 1)
    }
}

/// How an undo of the change `id` proceeds: the record it reverses and where
/// the restore goes. Unknown ids, applied updates (there is no old version to
/// go back to) and unknown hives are refused.
pub open spec fn undo_plan(records: Seq<AuditRecord>, id: Seq<char>) -> Result<(int, WriteRoute), Seq<char>> {
    match record_index_from(records, id, 0) {
        None => Err("no such change in the log"@),
        Some(i) => if records[i].action@ == "update"@ {
            Err("updates cannot be undone"@)
        } else {
            match route_of(records[i].hive@) {
                Some(w) => Ok((i, w)),
                None => Err("bad-hive"@),
            }
        },
    }
}

pub fn plan_undo(records: &[AuditRecord], id: &str) -> (r: Result<(usize, WriteRoute), String>)
    ensures
        match undo_plan(records@, id@) {
            Ok((i, w)) => r matches Ok((j, v)) && j == i && v == w,
            Err(e) => r matches Err(m) && m@ == e,
        },
{
    let mut i: usize = 0;
    while i < records.len()
        invariant
            0 <= i <= records@.len(),
            record_index_from(records@, id@, 0) == record_index_from(records@, id@, i as int),
        decreases records@.len() - i,
    {
        if str_eq(records[i].id.as_str(), id) {
            if str_eq(records[i].action.as_str(), "update") {
                return Err(owned("updates cannot be undone"));
            }
            return match route_for_hive(records[i].hive.as_str()) {
                Ok(w) => Ok((i, w)),
                Err(e) => Err(e),
            };
        }
        i = i + 1;
    }
    Err(owned("no such change in the log"))
}

/// The receipt of an undo: the same value, the bytes it held just before the
/// undo, and the id of the change it reversed.
pub fn undo_record(id: String, time_ms: u64, undone: AuditRecord, before_undo: Option<String>) -> (r:
    AuditRecord)
    ensures
        r.id@ == id@,
        r.time_ms == time_ms,
        r.action@ == "undo"@,
        r.hive@ == undone.hive@,
        r.approved_path@ == undone.approved_path@,
        r.value_name@ == undone.value_name@,
        opt_view(r.old_value_hex) == opt_view(before_undo),
        opt_view(r.undoes) == Some(undone.id@),
        r.detail is None,
{
    AuditRecord {
        id,
        time_ms,
        action: owned("undo"),
        hive: undone.hive,
        approved_path: undone.approved_path,
        value_name: undone.value_name,
        old_value_hex: before_undo,
        undoes: Some(undone.id),
        detail: None,
    }
}

// ------------------------------------------------------------ process actions

#[derive(Clone, Copy, PartialEq, Eq, Debug, Structural)]
pub enum ProcessAction {
    Throttle,
    Unthrottle,
    Suspend,
    Resume,
    Kill,
}

pub open spec fn action_of(s: Seq<char>) -> Option<ProcessAction> {
    if s == "throttle"@ {
        Some(ProcessAction::Throttle)
    } else if s == "unthrottle"@ {
        Some(ProcessAction::Unthrottle)
    } else if s == "suspend"@ {
        Some(ProcessAction::Suspend)
    } else if s == "resume"@ {
        Some(ProcessAction::Resume)
    } else if s == "kill"@ {
        Some(ProcessAction::Kill)
    } else {
        None
    }
}

/// The action a request names; anything else is "bad-action".
pub fn parse_process_action(s: &str) -> (r: Result<ProcessAction, String>)
    ensures
        match action_of(s@) {
            Some(a) => r == Ok::<ProcessAction, String>(a),
            None => r matches Err(e) && e@ == "bad-action"@,
        },
{
    if str_eq(s, "throttle") {
        Ok(ProcessAction::Throttle)
    } else if str_eq(s, "unthrottle") {
        Ok(ProcessAction::Unthrottle)
    } else if str_eq(s, "suspend") {
        Ok(ProcessAction::Suspend)
    } else if str_eq(s, "resume") {
        Ok(ProcessAction::Resume)
    } else if str_eq(s, "kill") {
        Ok(ProcessAction::Kill)
    } else {
        Err(owned("bad-action"))
    }
}

/// How an action went over a group of processes: the ones it worked on,
/// the ones Windows refused to open (to be retried through the broker), and
/// the first other error.
pub struct ActionTally {
    pub ok: Vec<u32>,
    pub denied: Vec<u32>,
    pub first_error: Option<String>,
}

impl ActionTally {
    pub fn new() -> (r: Self)
        ensures
            r.ok@.len() == 0,
            r.denied@.len() == 0,
            r.first_error is None,
    {
        ActionTally { ok: Vec::new(), denied: Vec::new(), first_error: None }
    }

    /// Count one process's result. A protected process stops the whole
    /// action with "protected", leaving the tally as it was so that what was
    /// already done can still be recorded; "access-denied" is kept for the
    /// broker; any other error is remembered if it is the first.
    pub fn record(&mut self, pid: u32, result: Result<(), String>) -> (r: Result<(), String>)
        ensures
            match result {
                Ok(()) => r is Ok && final(self).ok@ == old(self).ok@.push(pid)
                    && final(self).denied@ == old(self).denied@ && opt_view(final(self).first_error)
                    == opt_view(old(self).first_error),
                Err(e) => if e@ == "access-denied"@ {
                    r is Ok && final(self).denied@ == old(self).denied@.push(pid)
                        && final(self).ok@ == old(self).ok@ && opt_view(final(self).first_error)
                        == opt_view(old(self).first_error)
                } else if e@ == "protected"@ {
                    r matches Err(m) && m@ == "protected"@ && final(self).ok@ == old(self).ok@
                        && final(self).denied@ == old(self).denied@ && opt_view(
                        final(self).first_error,
                    ) == opt_view(old(self).first_error)
                } else {
                    r is Ok && final(self).ok@ == old(self).ok@ && final(self).denied@
                        == old(self).denied@ && opt_view(final(self).first_error) == (
                    match old(self).first_error {
                        Some(f) => Some(f@),
                        None => Some(e@),
                    })
                },
            },
    {
        match result {
            Ok(()) => {
                self.ok.push(pid);
                Ok(())
            },
            Err(e) => {
                if str_eq(e.as_str(), "access-denied") {
                    self.denied.push(pid);
                    Ok(())
                } else if str_eq(e.as_str(), "protected") {
                    Err(owned("protected"))
                } else {
                    if self.first_error.is_none() {
                        self.first_error = Some(e);
                    }
                    Ok(())
                }
            },
        }
    }

    /// A refusal as protected ends the action: what was already acted on is
    /// handed back, to be remembered and logged, together with the error to
    /// report.
    pub fn into_refusal(self, error: String) -> (r: (Vec<u32>, String))
        ensures
            r.0@ == self.ok@,
            r.1@ == error@,
    {
        (self.ok, error)
    }

    /// The broker's answer for the refused processes: when it acted on all of
    /// them they count as done; otherwise its error, if any, is remembered
    /// if it is the first.
    pub fn broker_reply(&mut self, ok_count: u64, error: Option<String>)
        ensures
            final(self).denied@ == old(self).denied@,
            ok_count == old(self).denied@.len() ==> final(self).ok@ == old(self).ok@ + old(
                self,
            ).denied@ && opt_view(final(self).first_error) == opt_view(old(self).first_error),
            ok_count != old(self).denied@.len() ==> final(self).ok@ == old(self).ok@ && opt_view(
                final(self).first_error,
            ) == match old(self).first_error {
                Some(f) => Some(f@),
                None => opt_view(error),
            },
    {
        if ok_count == self.denied.len() as u64 {
            let mut i: usize = 0;
            let ghost start = self.ok@;
            while i < self.denied.len()
                invariant
                    0 <= i <= self.denied@.len(),
                    self.denied@ == old(self).denied@,
                    start == old(self).ok@,
                    self.ok@ == start + self.denied@.subrange(0, i as int),
                    opt_view(self.first_error) == opt_view(old(self).first_error),
                decreases self.denied@.len() - i,
            {
                let p = self.denied[i];
                self.ok.push(p);
                i = i + 1;
                proof {
                    assert(self.ok@ =~= start + self.denied@.subrange(0, i as int));
                }
            }
            proof {
                assert(self.denied@.subrange(0, self.denied@.len() as int) =~= self.denied@);
            }
        } else {
            if self.first_error.is_none() {
                self.first_error = error;
            }
        }
    }
}

/// What a process action reports: how many processes it acted on, how many
/// still need the elevated helper, and the first error.
pub struct ActionOutcome {
    pub ok_count: usize,
    pub needs_helper: usize,
    pub error: Option<String>,
}

/// The report once the tally is complete. `broker_ran` tells whether the
/// refused processes were handed to the broker; when they were not, they
/// all still need it.
pub fn outcome(tally: ActionTally, broker_ran: bool) -> (r: ActionOutcome)
    ensures
        r.ok_count == tally.ok@.len(),
        r.needs_helper == (if broker_ran || tally.denied@.len() == 0 {
            0
        } else {
            tally.denied@.len()
        }),
        opt_view(r.error) == opt_view(tally.first_error),
{
    let needs_helper = if broker_ran || tally.denied.len() == 0 {
        0
    } else {
        tally.denied.len()
    };
    ActionOutcome { ok_count: tally.ok.len(), needs_helper, error: tally.first_error }
}

pub open spec fn action_word(a: ProcessAction) -> Seq<char> {
    match a {
        ProcessAction::Throttle => "throttle"@,
        ProcessAction::Unthrottle => "unthrottle"@,
        ProcessAction::Suspend => "suspend"@,
        ProcessAction::Resume => "resume"@,
        ProcessAction::Kill => "kill"@,
    }
}

/// "1 process", "7 processes".
pub open spec fn process_count_text(n: nat) -> Seq<char> {
    decimal(n) + if n == 1 {
        " process"@
    } else {
        " processes"@
    }
}

/// The receipt of a process action that worked on `ok_count` processes of
/// the group `name`.
pub fn process_record(id: String, time_ms: u64, action: ProcessAction, name: String, ok_count: usize) -> (r:
    AuditRecord)
    ensures
        r.id@ == id@,
        r.time_ms == time_ms,
        r.action@ == action_word(action) + "-process"@,
        r.hive@.len() == 0,
        r.approved_path@.len() == 0,
        r.value_name@ == name@,
        r.old_value_hex is None,
        r.undoes is None,
        opt_view(r.detail) == Some(process_count_text(ok_count as nat)),
{
    let mut act = match action {
        ProcessAction::Throttle => owned("throttle"),
        ProcessAction::Unthrottle => owned("unthrottle"),
        ProcessAction::Suspend => owned("suspend"),
        ProcessAction::Resume => owned("resume"),
        ProcessAction::Kill => owned("kill"),
    };
    push_str(&mut act, "-process");
    let mut detail = String::new();
    push_decimal(&mut detail, ok_count as u64);
    if ok_count == 1 {
        push_str(&mut detail, " process");
    } else {
        push_str(&mut detail, " processes");
    }
    proof {
        assert(detail@ =~= process_count_text(ok_count as nat));
    }
    AuditRecord {
        id,
        time_ms,
        action: act,
        hive: String::new(),
        approved_path: String::new(),
        value_name: name,
        old_value_hex: None,
        undoes: None,
        detail: Some(detail),
    }
}

// ------------------------------------------------------------ own processes

/// The parent of `p` in a snapshot of (process, parent) pairs.
pub open spec fn parent_in(parents: Seq<(u32, u32)>, p: u32, from: int) -> Option<u32>
    decreases parents.len() - from,
{
    if from < 0 || from >= parents.len() {
        None
    } else if parents[from].0 == p {
        Some(parents[from].1)
    } else {
        parent_in(parents, p, from + 1)
    }
}

/// `me` is among the first `steps` ancestors of `p`.
pub open spec fn has_ancestor(parents: Seq<(u32, u32)>, p: u32, me: u32, steps: nat) -> bool
    decreases steps,
{
    if steps == 0 {
        false
    } else {
        match parent_in(parents, p, 0) {
            Some(q) => q == me || has_ancestor(parents, q, me, (steps - 1) as nat),
            None => false,
        }
    }
}

/// Mganga never acts on itself or its descendants (its UI lives in a
/// webview process whose name other apps share). The parent chain is walked
/// at most 32 steps up; trees are shallow.
pub open spec fn is_own(parents: Seq<(u32, u32)>, p: u32, me: u32) -> bool {
    p == me || has_ancestor(parents, p, me, 32)
}

fn parent_of(parents: &[(u32, u32)], p: u32) -> (r: Option<u32>)
    ensures
        r == parent_in(parents@, p, 0),
{
    let mut i: usize = 0;
    while i < parents.len()
        invariant
            0 <= i <= parents@.len(),
            parent_in(parents@, p, 0) == parent_in(parents@, p, i as int),
        decreases parents@.len() - i,
    {
        if parents[i].0 == p {
            return Some(parents[i].1);
        }
        i = i + 1;
    }
    None
}

fn is_own_process(parents: &[(u32, u32)], p: u32, me: u32) -> (r: bool)
    ensures
        r == is_own(parents@, p, me),
{
    if p == me {
        return true;
    }
    let mut current = p;
    let mut steps: u32 = 32;
    while steps > 0
        invariant
            steps <= 32,
            p != me,
            has_ancestor(parents@, p, me, 32) == has_ancestor(parents@, current, me, steps as nat),
        decreases steps,
    {
        match parent_of(parents, current) {
            Some(q) => {
                if q == me {
                    return true;
                }
                current = q;
            },
            None => {
                return false;
            },
        }
        steps = steps - 1;
    }
    false
}

pub open spec fn not_own(parents: Seq<(u32, u32)>, pids: Seq<u32>, me: u32) -> Seq<u32>
    decreases pids.len(),
{
    if pids.len() == 0 {
        Seq::empty()
    } else {
        let prev = not_own(parents, pids.drop_last(), me);
        if is_own(parents, pids.last(), me) {
            prev
        } else {
            prev.push(pids.last())
        }
    }
}

/// The PIDs that are neither Mganga (`me`) nor one of its descendants, in
/// order.
pub fn filter_own_descendants(pids: &[u32], me: u32, parents: &[(u32, u32)]) -> (r: Vec<u32>)
    ensures
        r@ == not_own(parents@, pids@, me),
{
    let mut out: Vec<u32> = Vec::new();
    let mut i: usize = 0;
    while i < pids.len()
        invariant
            0 <= i <= pids@.len(),
            out@ == not_own(parents@, pids@.subrange(0, i as int), me),
        decreases pids@.len() - i,
    {
        proof {
            assert(pids@.subrange(0, i + 1).drop_last() =~= pids@.subrange(0, i as int));
        }
        if !is_own_process(parents, pids[i], me) {
            out.push(pids[i]);
        }
        i = i + 1;
    }
    proof {
        assert(pids@.subrange(0, pids@.len() as int) =~= pids@);
    }
    out
}

/// The processes an action may touch: those that are neither Mganga nor one
/// of its descendants, in order. When none is left the action is refused.
pub fn actionable_pids(pids: &[u32], me: u32, parents: &[(u32, u32)]) -> (r: Result<Vec<u32>, String>)
    ensures
        not_own(parents@, pids@, me).len() == 0 ==> (r matches Err(e) && e@
            == "Those processes belong to Mganga itself."@),
        not_own(parents@, pids@, me).len() > 0 ==> (r matches Ok(v) && v@ == not_own(
            parents@,
            pids@,
            me,
        )),
{
    let v = filter_own_descendants(pids, me, parents);
    if v.len() == 0 {
        Err(owned("Those processes belong to Mganga itself."))
    } else {
        Ok(v)
    }
}

// ------------------------------------------------------------ what Mganga remembers

pub open spec fn pid_set(s: Seq<u32>) -> Set<u32> {
    Set::new(|p: u32| s.contains(p))
}

fn contains_pid(v: &Vec<u32>, p: u32) -> (r: bool)
    ensures
        r == v@.contains(p),
{
    let mut i: usize = 0;
    while i < v.len()
        invariant
            0 <= i <= v@.len(),
            forall|j: int| 0 <= j < i ==> v@[j] != p,
        decreases v@.len() - i,
    {
        if v[i] == p {
            return true;
        }
        i = i + 1;
    }
    false
}

proof fn lemma_push_contains(s: Seq<u32>, x: u32, q: u32)
    ensures
        s.push(x).contains(q) <==> (s.contains(q) || q == x),
{
    if s.push(x).contains(q) {
        let k = choose|k: int| 0 <= k < s.push(x).len() && #[trigger] s.push(x)[k] == q;
        if k < s.len() {
            assert(s[k] == q);
        }
    }
    if s.contains(q) {
        let k = choose|k: int| 0 <= k < s.len() && #[trigger] s[k] == q;
        assert(s.push(x)[k] == q);
    }
    if q == x {
        assert(s.push(x)[s.len() as int] == x);
    }
}

/// `v` with every item of `add` that is not there yet appended.
fn add_all(v: &mut Vec<u32>, add: &[u32])
    ensures
        pid_set(final(v)@) == pid_set(old(v)@).union(pid_set(add@)),
{
    let mut i: usize = 0;
    proof {
        assert(add@.subrange(0, 0) =~= Seq::<u32>::empty());
    }
    while i < add.len()
        invariant
            0 <= i <= add@.len(),
            forall|q: u32| #[trigger] v@.contains(q) <==> (old(v)@.contains(q) || add@.subrange(
                0,
                i as int,
            ).contains(q)),
        decreases add@.len() - i,
    {
        let p = add[i];
        let ghost before = v@;
        if !contains_pid(v, p) {
            v.push(p);
        }
        proof {
            assert(add@.subrange(0, i + 1) =~= add@.subrange(0, i as int).push(p));
            assert forall|q: u32| #[trigger] v@.contains(q) <==> (old(v)@.contains(q)
                || add@.subrange(0, i + 1).contains(q)) by {
                lemma_push_contains(add@.subrange(0, i as int), p, q);
                lemma_push_contains(before, p, q);
            }
        }
        i = i + 1;
    }
    proof {
        assert(add@.subrange(0, add@.len() as int) =~= add@);
        assert(pid_set(v@) =~= pid_set(old(v)@).union(pid_set(add@)));
    }
}

/// `v` keeping only the items that are in `other` (`keep_members`) or only
/// those that are not.
fn retain_where(v: &mut Vec<u32>, other: &[u32], keep_members: bool)
    ensures
        pid_set(final(v)@) == (if keep_members {
            pid_set(old(v)@).intersect(pid_set(other@))
        } else {
            pid_set(old(v)@).difference(pid_set(other@))
        }),
{
    let mut out: Vec<u32> = Vec::new();
    let mut i: usize = 0;
    let ghost src = v@;
    proof {
        assert(src.subrange(0, 0) =~= Seq::<u32>::empty());
    }
    while i < v.len()
        invariant
            0 <= i <= v@.len(),
            v@ == src,
            forall|q: u32| #[trigger] out@.contains(q) <==> (src.subrange(0, i as int).contains(q)
                && (other@.contains(q) == keep_members)),
        decreases v@.len() - i,
    {
        let p = v[i];
        let member = contains_pid_slice(other, p);
        let ghost before = out@;
        if member == keep_members {
            out.push(p);
        }
        proof {
            assert(src.subrange(0, i + 1) =~= src.subrange(0, i as int).push(p));
            assert forall|q: u32| #[trigger] out@.contains(q) <==> (src.subrange(0, i + 1).contains(
                q,
            ) && (other@.contains(q) == keep_members)) by {
                lemma_push_contains(src.subrange(0, i as int), p, q);
                lemma_push_contains(before, p, q);
            }
        }
        i = i + 1;
    }
    proof {
        assert(src.subrange(0, src.len() as int) =~= src);
        let target = if keep_members {
            pid_set(src).intersect(pid_set(other@))
        } else {
            pid_set(src).difference(pid_set(other@))
        };
        assert(pid_set(out@) =~= target);
    }
    *v = out;
}

fn contains_pid_slice(v: &[u32], p: u32) -> (r: bool)
    ensures
        r == v@.contains(p),
{
    let mut i: usize = 0;
    while i < v.len()
        invariant
            0 <= i <= v@.len(),
            forall|j: int| 0 <= j < i ==> v@[j] != p,
        decreases v@.len() - i,
    {
        if v[i] == p {
            return true;
        }
        i = i + 1;
    }
    false
}

/// Mganga's own memory of what it throttled or suspended. Windows lets a
/// program set efficiency mode but not read it back, so this is the only
/// record.
pub struct ProcessMemory {
    pub throttled: Vec<u32>,
    pub suspended: Vec<u32>,
}

impl ProcessMemory {
    pub open spec fn throttled_set(self) -> Set<u32> {
        pid_set(self.throttled@)
    }

    pub open spec fn suspended_set(self) -> Set<u32> {
        pid_set(self.suspended@)
    }

    pub fn new() -> (r: Self)
        ensures
            r.throttled_set() == Set::<u32>::empty(),
            r.suspended_set() == Set::<u32>::empty(),
    {
        let r = ProcessMemory { throttled: Vec::new(), suspended: Vec::new() };
        proof {
            assert(r.throttled_set() =~= Set::<u32>::empty());
            assert(r.suspended_set() =~= Set::<u32>::empty());
        }
        r
    }

    /// Remember what an action did to the processes it worked on.
    pub fn remember(&mut self, action: ProcessAction, done: &[u32])
        ensures
            final(self).throttled_set() == match action {
                ProcessAction::Throttle => old(self).throttled_set().union(pid_set(done@)),
                ProcessAction::Unthrottle => old(self).throttled_set().difference(pid_set(done@)),
                _ => old(self).throttled_set(),
            },
            final(self).suspended_set() == match action {
                ProcessAction::Suspend => old(self).suspended_set().union(pid_set(done@)),
                ProcessAction::Resume => old(self).suspended_set().difference(pid_set(done@)),
                _ => old(self).suspended_set(),
            },
    {
        match action {
            ProcessAction::Throttle => add_all(&mut self.throttled, done),
            ProcessAction::Unthrottle => retain_where(&mut self.throttled, done, false),
            ProcessAction::Suspend => add_all(&mut self.suspended, done),
            ProcessAction::Resume => retain_where(&mut self.suspended, done, false),
            ProcessAction::Kill => {},
        }
    }

    /// Forget processes that are gone.
    pub fn prune(&mut self, live: &[u32])
        ensures
            final(self).throttled_set() == old(self).throttled_set().intersect(pid_set(live@)),
            final(self).suspended_set() == old(self).suspended_set().intersect(pid_set(live@)),
    {
        retain_where(&mut self.throttled, live, true);
        retain_where(&mut self.suspended, live, true);
    }
}

/// Throttling a group and then unthrottling it leaves none of its
/// processes marked as throttled, and leaves every other process as it was.
pub proof fn law_unthrottle_undoes_throttle(before: Set<u32>, group: Set<u32>)
    ensures
        before.union(group).difference(group) == before.difference(group),
        forall|p: u32| !group.contains(p) ==> (before.union(group).difference(group).contains(p)
            == before.contains(p)),
{
    assert(before.union(group).difference(group) =~= before.difference(group));
}

// ------------------------------------------------------------ the process list

/// What the process list shows for a group besides its costs.
pub struct GroupFlags {
    pub protected: bool,
    pub throttled: bool,
    pub suspended: bool,
    pub verdict: Option<String>,
    pub reason: Option<String>,
}

pub open spec fn any_in(pids: Seq<u32>, s: Set<u32>) -> bool {
    exists|i: int| 0 <= i < pids.len() && s.contains(pids[i])
}

fn any_member(pids: &[u32], v: &Vec<u32>) -> (r: bool)
    ensures
        r == any_in(pids@, pid_set(v@)),
{
    let mut i: usize = 0;
    while i < pids.len()
        invariant
            0 <= i <= pids@.len(),
            forall|j: int| 0 <= j < i ==> !pid_set(v@).contains(pids@[j]),
        decreases pids@.len() - i,
    {
        if contains_pid(v, pids[i]) {
            return true;
        }
        i = i + 1;
    }
    false
}

/// A group's flags: protected by its lowercase name (with the fixed reason),
/// otherwise the known cost of stopping it when Mganga knows one; throttled
/// or suspended when Mganga did that to any of its processes.
pub fn group_flags(name: &str, pids: &[u32], memory: &ProcessMemory, rules: &[Rule]) -> (r: GroupFlags)
    ensures
        r.protected == protected_process(lowercase(name@)),
        r.throttled == any_in(pids@, memory.throttled_set()),
        r.suspended == any_in(pids@, memory.suspended_set()),
        r.protected ==> opt_view(r.verdict) == Some("protected"@) && opt_view(r.reason) == Some(
            "This keeps Windows running. Mganga won't touch it."@,
        ),
        !r.protected ==> match judged_process(lowercase(name@), rules@) {
            Some((v, why)) => opt_view(r.verdict) == Some(v) && opt_view(r.reason) == Some(why),
            None => r.verdict is None && r.reason is None,
        },
{
    let lower = to_lowercase(name);
    let protected = is_protected_process(lower.as_str());
    let throttled = any_member(pids, &memory.throttled);
    let suspended = any_member(pids, &memory.suspended);
    if protected {
        GroupFlags {
            protected,
            throttled,
            suspended,
            verdict: Some(owned("protected")),
            reason: Some(owned("This keeps Windows running. Mganga won't touch it.")),
        }
    } else {
        match judge_process(lower.as_str(), rules) {
            Some((v, why)) => GroupFlags {
                protected,
                throttled,
                suspended,
                verdict: Some(v),
                reason: Some(why),
            },
            None => GroupFlags { protected, throttled, suspended, verdict: None, reason: None },
        }
    }
}

} // verus!

verus! {

// ------------------------------------------------------------ laws of undo

proof fn lemma_record_index_from(records: Seq<AuditRecord>, id: Seq<char>, from: int, i: int)
    requires
        0 <= from <= i < records.len(),
        records[i].id@ == id,
        forall|j: int| from <= j < i ==> (#[trigger] records[j]).id@ != id,
    ensures
        record_index_from(records, id, from) == Some(i),
    decreases i - from,
{
    if from < i {
        lemma_record_index_from(records, id, from + 1, i);
    }
}

proof fn lemma_record_index_absent(records: Seq<AuditRecord>, id: Seq<char>, from: int)
    requires
        0 <= from,
        forall|j: int| from <= j < records.len() ==> (#[trigger] records[j]).id@ != id,
    ensures
        record_index_from(records, id, from) is None,
    decreases records.len() - from,
{
    if from < records.len() {
        lemma_record_index_absent(records, id, from + 1);
    }
}

/// Undoing the change `id` reverses the first record with that id, and
/// writes back where the change was made: a change in the user's hive
/// (HKCU) directly, a machine-wide one (HKLM) through the elevated broker.
/// An applied update cannot be undone, a record of any other hive is
/// refused, and an id that no record carries is answered as unknown.
pub proof fn law_undo_goes_where_the_change_was(records: Seq<AuditRecord>, id: Seq<char>, i: int)
    requires
        0 <= i < records.len(),
        records[i].id@ == id,
        forall|j: int| 0 <= j < i ==> (#[trigger] records[j]).id@ != id,
    ensures
        undo_plan(records, id) == if records[i].action@ == "update"@ {
            Err("updates cannot be undone"@)
        } else if records[i].hive@ == "HKLM"@ {
            Ok((i, WriteRoute::Machine))
        } else if records[i].hive@ == "HKCU"@ {
            Ok((i, WriteRoute::User))
        } else {
            Err("bad-hive"@)
        },
{
    reveal_strlit("HKLM");
    reveal_strlit("HKCU");
    assert("HKLM"@[2] != "HKCU"@[2]);
    lemma_record_index_from(records, id, 0, i);
    assert(record_index_from(records, id, 0) == Some(i));
}

/// An id that no record carries cannot be undone.
pub proof fn law_undo_of_unknown_id(records: Seq<AuditRecord>, id: Seq<char>)
    requires
        forall|j: int| 0 <= j < records.len() ==> (#[trigger] records[j]).id@ != id,
    ensures
        undo_plan(records, id) == Err::<(int, WriteRoute), Seq<char>>("no such change in the log"@),
{
    lemma_record_index_absent(records, id, 0);
}

} // verus!
