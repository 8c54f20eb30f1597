//! The HKCU side of toggling autostarters, as decisions: whether a write may
//! happen at all, what it does to the stored value, and how an old value is
//! read back from its hex receipt. The registry itself is touched by the
//! caller, between these steps.

use vstd::prelude::*;
use crate::guard::{
    allowed_approved_path, approved_bytes, filetime_of, from_hex_checked, from_hex_panics,
    hex_decoded, hex_of, is_allowed_approved_path, is_protected_autostart, lemma_hex_roundtrip,
    make_approved_bytes, protected_autostart, to_hex,
};
use crate::text::{ascii_fold, lowercase, owned};

verus! {

/// The error a write gets before the key is even opened, if any.
pub open spec fn write_refusal(approved_path: Seq<char>, value_name: Seq<char>) -> Option<Seq<char>> {
    if !allowed_approved_path(approved_path) {
        Some("bad-path"@)
    } else if protected_autostart(value_name) {
        Some("protected"@)
    } else {
        None
    }
}

/// The guard every StartupApproved write passes first: a path off the
/// whitelist is "bad-path", a protected value name is "protected".
pub fn check_write_target(approved_path: &str, value_name: &str) -> (r: Result<(), String>)
    ensures
        r is Ok <==> write_refusal(approved_path@, value_name@) is None,
        r matches Err(e) ==> write_refusal(approved_path@, value_name@) == Some(e@),
        crate::text::all_ascii(value_name@) ==> lowercase(value_name@) == ascii_fold(value_name@),
{
    let protected = is_protected_autostart(value_name);
    if !is_allowed_approved_path(approved_path) {
        return Err(owned("bad-path"));
    }
    if protected {
        return Err(owned("protected"));
    }
    Ok(())
}

pub open spec fn slice_view(o: Option<&[u8]>) -> Option<Seq<u8>> {
    match o {
        Some(b) => Some(b@),
        None => None,
    }
}

pub open spec fn vec_view(o: Option<Vec<u8>>) -> Option<Seq<u8>> {
    match o {
        Some(b) => Some(b@),
        None => None,
    }
}

pub open spec fn str_view(o: Option<&str>) -> Option<Seq<char>> {
    match o {
        Some(h) => Some(h@),
        None => None,
    }
}

/// What a write does to the stored value.
pub enum ValueChange {
    /// Store these bytes.
    Write(Vec<u8>),
    /// Delete the value.
    Delete,
    /// Leave the key as it is.
    Keep,
}

/// The stored value after `change` is applied to `current`.
pub open spec fn value_after(current: Option<Seq<u8>>, change: ValueChange) -> Option<Seq<u8>> {
    match change {
        ValueChange::Write(b) => Some(b@),
        ValueChange::Delete => None,
        ValueChange::Keep => current,
    }
}

/// The receipt of a value: its bytes as hex, or nothing when it did not
/// exist.
pub open spec fn receipt(current: Option<Seq<u8>>) -> Option<Seq<char>> {
    match current {
        Some(b) => Some(hex_of(b)),
        None => None,
    }
}

/// Shared write: `Some(bytes)` sets the value, `None` deletes it (deleting a
/// value that is already gone changes nothing). Returns the receipt of the
/// value as it was, so every change can be audited, and the change to make.
pub fn plan_value_write(current: Option<&[u8]>, new_bytes: Option<Vec<u8>>) -> (r: (
    Option<String>,
    ValueChange,
))
    ensures
        r.0 matches Some(h) ==> receipt(slice_view(current)) == Some(h@),
        r.0 is None ==> current is None,
        value_after(slice_view(current), r.1) == vec_view(new_bytes),
        new_bytes is None && current is None ==> r.1 is Keep,
{
    let old = match current {
        Some(b) => Some(to_hex(b)),
        None => None,
    };
    let change = match new_bytes {
        Some(bytes) => ValueChange::Write(bytes),
        None => if current.is_some() {
            ValueChange::Delete
        } else {
            ValueChange::Keep
        },
    };
    (old, change)
}

/// What a receipt decodes to: the old bytes, nothing (the value did not
/// exist), or an error when the hex is damaged (including hex that would be
/// cut inside a character).
pub open spec fn decoded_receipt(old_value_hex: Option<Seq<char>>) -> Result<Option<Seq<u8>>, Seq<char>> {
    match old_value_hex {
        None => Ok(None),
        Some(h) => match hex_decoded(h) {
            Some(b) => Ok(Some(b)),
            None => Err("bad hex in audit record"@),
        },
    }
}

/// The bytes a restore writes back: the receipt decoded.
pub fn decode_receipt(old_value_hex: Option<&str>) -> (r: Result<Option<Vec<u8>>, String>)
    ensures
        r matches Ok(o) ==> decoded_receipt(str_view(old_value_hex)) == Ok::<
            Option<Seq<u8>>,
            Seq<char>,
        >(vec_view(o)),
        r matches Err(e) ==> decoded_receipt(str_view(old_value_hex)) == Err::<
            Option<Seq<u8>>,
            Seq<char>,
        >(e@),
{
    match old_value_hex {
        Some(hex) => match from_hex_checked(hex) {
            Some(b) => Ok(Some(b)),
            None => Err(owned("bad hex in audit record")),
        },
        None => Ok(None),
    }
}

/// A toggle can always be undone from its receipt: whatever the value was
/// before (present with any bytes, or absent), its receipt decodes without
/// error, and without a panic, to exactly that value. Writing the decoded
/// value back (`plan_value_write` stores exactly the bytes it is given, and
/// deletes when given none) therefore restores the stored value.
pub proof fn lemma_receipt_restores(current: Option<Seq<u8>>)
    ensures
        decoded_receipt(receipt(current)) == Ok::<Option<Seq<u8>>, Seq<char>>(current),
        receipt(current) matches Some(h) ==> !from_hex_panics(h),
{
    match current {
        Some(b) => {
            lemma_hex_roundtrip(b);
        },
        None => {},
    }
}

/// Flip one HKCU StartupApproved value: after the guard, the 12 bytes to
/// store (enabled: 0x02 and zeros; disabled: 0x03 stamped with the time of
/// the change). The caller writes them and keeps the old value's receipt.
pub fn set_enabled_hkcu(approved_path: &str, value_name: &str, enable: bool) -> (r: Result<
    Vec<u8>,
    String,
>)
    ensures
        r is Err <==> write_refusal(approved_path@, value_name@) is Some,
        r matches Err(e) ==> write_refusal(approved_path@, value_name@) == Some(e@),
        r matches Ok(b) ==> exists|nanos: Option<u128>| b@ == approved_bytes(
            enable,
            filetime_of(nanos),
        ),
        r matches Ok(b) ==> (enable ==> b@ == approved_bytes(true, 0)),
{
    check_write_target(approved_path, value_name)?;
    Ok(make_approved_bytes(enable))
}

/// Restore a value to exactly what it was: the old bytes decoded from the
/// receipt (none: the value did not exist, so it is deleted). A damaged
/// receipt is refused before the guard is asked.
pub fn restore_hkcu(approved_path: &str, value_name: &str, old_value_hex: Option<&str>) -> (r:
    Result<Option<Vec<u8>>, String>)
    ensures
        match decoded_receipt(str_view(old_value_hex)) {
            Err(e) => r matches Err(m) && m@ == e,
            Ok(bytes) => match write_refusal(approved_path@, value_name@) {
                Some(e) => r matches Err(m) && m@ == e,
                None => r matches Ok(o) && vec_view(o) == bytes,
            },
        },
{
    let bytes = decode_receipt(old_value_hex)?;
    check_write_target(approved_path, value_name)?;
    Ok(bytes)
}

/// What undoing a change from its receipt does, given the value stored now:
/// the decoded receipt becomes the stored value (none: the value is deleted),
/// and the value as it stood before the undo becomes the undo's own receipt.
/// A damaged receipt, then the guard, refuse first.
pub open spec fn undo_outcome(
    approved_path: Seq<char>,
    value_name: Seq<char>,
    old_value_hex: Option<Seq<char>>,
    current: Option<Seq<u8>>,
) -> Result<(Option<Seq<u8>>, Option<Seq<char>>), Seq<char>> {
    match decoded_receipt(old_value_hex) {
        Err(e) => Err(e),
        Ok(bytes) => match write_refusal(approved_path, value_name) {
            Some(e) => Err(e),
            None => Ok((bytes, receipt(current))),
        },
    }
}

/// Undo one change of an HKCU value from its receipt, given the value stored
/// now: the receipt of the value as it stands (for the undo's own record)
/// and the change that writes the old value back.
pub fn undo_hkcu(
    approved_path: &str,
    value_name: &str,
    old_value_hex: Option<&str>,
    current: Option<&[u8]>,
) -> (r: Result<(Option<String>, ValueChange), String>)
    ensures
        match undo_outcome(approved_path@, value_name@, str_view(old_value_hex), slice_view(current)) {
            Err(e) => r matches Err(m) && m@ == e,
            Ok((after, logged)) => r matches Ok((old, change)) && value_after(
                slice_view(current),
                change,
            ) == after && crate::text::opt_view(old) == logged,
        },
{
    let bytes = restore_hkcu(approved_path, value_name, old_value_hex)?;
    let (old, change) = plan_value_write(current, bytes);
    proof {
        if old is None {
            assert(receipt(slice_view(current)) is None);
        }
    }
    Ok((old, change))
}

/// Undo gives back exactly what a change replaced: when the receipt kept for
/// a change is the receipt of the value before it, undoing writes that value
/// back (or deletes the value when there was none), whatever the value is
/// now, and records the value it found as its own receipt.
pub proof fn law_undo_restores_the_recorded_value(
    approved_path: Seq<char>,
    value_name: Seq<char>,
    before: Option<Seq<u8>>,
    current: Option<Seq<u8>>,
)
    requires
        write_refusal(approved_path, value_name) is None,
    ensures
        undo_outcome(approved_path, value_name, receipt(before), current) == Ok::<
            (Option<Seq<u8>>, Option<Seq<char>>),
            Seq<char>,
        >((before, receipt(current))),
{
    lemma_receipt_restores(before);
}

/// The guard cannot be talked around: a protected name is refused whatever
/// path comes with it, and a path off the whitelist is refused whatever
/// name comes with it; so no such write ever reaches the registry, from the
/// GUI or from the broker.
pub proof fn law_guard_refuses_protected_and_foreign(approved_path: Seq<char>, value_name: Seq<char>)
    ensures
        protected_autostart(value_name) ==> write_refusal(approved_path, value_name) is Some,
        !allowed_approved_path(approved_path) ==> write_refusal(approved_path, value_name)
            == Some("bad-path"@),
{
}

} // verus!
