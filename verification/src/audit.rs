//! The audit log's records: every state-changing action leaves a receipt
//! with what changed, when, and the exact old bytes, so any change can be
//! reversed from the log.

use vstd::prelude::*;
use crate::clock::unix_time_nanos;
use crate::text::{decimal, lemma_decimal_injective, lemma_decimal_is_digits, push_char, push_decimal};

verus! {

pub struct AuditRecord {
    /// Unique id, also the sort key (unix millis plus a counter suffix).
    pub id: String,
    /// Unix milliseconds, for display.
    pub time_ms: u64,
    /// "disable-autostart" | "enable-autostart" | "undo" | "update" |
    /// "<action>-process"
    pub action: String,
    /// "HKCU" | "HKLM" (empty for changes outside the registry)
    pub hive: String,
    pub approved_path: String,
    pub value_name: String,
    /// Hex of the value bytes before the change. None means the value did
    /// not exist, so undo deletes it.
    pub old_value_hex: Option<String>,
    /// The id of the record this one undid, for an undo.
    pub undoes: Option<String>,
    /// Free-form extra, e.g. "7 processes" for process actions.
    pub detail: Option<String>,
}

/// A record id: the time in milliseconds, a dash, and the number the
/// process-wide counter handed out for it.
pub open spec fn id_text(time_ms: u64, seq: u32) -> Seq<char> {
    decimal(time_ms as nat) + seq!['-'] + decimal(seq as nat)
}

/// Record ids are unique: two ids are equal only when both the time and the
/// counter number are, since neither decimal part holds a dash.
pub proof fn law_ids_are_distinct(t1: u64, s1: u32, t2: u64, s2: u32)
    requires
        t1 != t2 || s1 != s2,
    ensures
        id_text(t1, s1) != id_text(t2, s2),
{
    let a = decimal(t1 as nat);
    let b = decimal(s1 as nat);
    let c = decimal(t2 as nat);
    let d = decimal(s2 as nat);
    lemma_decimal_is_digits(t1 as nat);
    lemma_decimal_is_digits(s1 as nat);
    lemma_decimal_is_digits(t2 as nat);
    lemma_decimal_is_digits(s2 as nat);
    let x = id_text(t1, s1);
    let y = id_text(t2, s2);
    if x == y {
        assert(x[a.len() as int] == '-');
        assert(y[c.len() as int] == '-');
        if a.len() < c.len() {
            assert(y[a.len() as int] == c[a.len() as int]);
            assert(48 <= (c[a.len() as int] as u32) <= 57);
        } else if c.len() < a.len() {
            assert(x[c.len() as int] == a[c.len() as int]);
            assert(48 <= (a[c.len() as int] as u32) <= 57);
        } else {
            assert(a =~= x.subrange(0, a.len() as int));
            assert(c =~= y.subrange(0, c.len() as int));
            assert(b =~= x.subrange(a.len() as int + 1, x.len() as int));
            assert(d =~= y.subrange(c.len() as int + 1, y.len() as int));
            lemma_decimal_injective(t1 as nat, t2 as nat);
            lemma_decimal_injective(s1 as nat, s2 as nat);
        }
    }
}

pub fn new_id(time_ms: u64, seq: u32) -> (r: String)
    ensures
        r@ == id_text(time_ms, seq),
{
    let mut r = String::new();
    push_decimal(&mut r, time_ms);
    push_char(&mut r, '-');
    push_decimal(&mut r, seq as u64);
    proof {
        assert(r@ =~= id_text(time_ms, seq));
    }
    r
}

/// Milliseconds since the Unix epoch of a clock reading in nanoseconds
/// (truncated to 64 bits, as `as_millis() as u64` does); zero when the clock
/// read earlier than the epoch.
pub open spec fn millis_of(nanos: Option<u128>) -> u64 {
    match nanos {
        Some(n) => (n / 1_000_000) as u64,
        None => 0,
    }
}

pub fn millis_from_nanos(nanos: Option<u128>) -> (r: u64)
    ensures
        r == millis_of(nanos),
{
    match nanos {
        Some(n) => (n / 1_000_000) as u64,
        None => 0,
    }
}

/// The current time in Unix milliseconds.
pub fn now_ms() -> (r: u64)
    ensures
        exists|nanos: Option<u128>| r == millis_of(nanos),
{
    millis_from_nanos(unix_time_nanos())
}

} // verus!
