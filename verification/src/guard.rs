//! Shared guard logic: the StartupApproved paths a write may touch, the
//! autostart names that are never toggled, the 12-byte StartupApproved value,
//! and the hex form in which old values are kept for undo.

use vstd::prelude::*;
use vstd::utf8::*;
use crate::text::{push_char, ascii_fold, eq_ignore_ascii_case, has_infix, lowercase, str_contains, to_lowercase};
use crate::clock::unix_time_nanos;

verus! {

// ------------------------------------------------------------ paths

pub open spec fn approved_run_path() -> Seq<char> {
    "Software\\Microsoft\\Windows\\CurrentVersion\\Explorer\\StartupApproved\\Run"@
}

pub open spec fn approved_run32_path() -> Seq<char> {
    "Software\\Microsoft\\Windows\\CurrentVersion\\Explorer\\StartupApproved\\Run32"@
}

pub open spec fn approved_folder_path() -> Seq<char> {
    "Software\\Microsoft\\Windows\\CurrentVersion\\Explorer\\StartupApproved\\StartupFolder"@
}

/// The only registry paths a StartupApproved write may ever touch, compared
/// without regard to ASCII case.
pub open spec fn allowed_approved_path(p: Seq<char>) -> bool {
    ||| ascii_fold(p) == ascii_fold(approved_run_path())
    ||| ascii_fold(p) == ascii_fold(approved_run32_path())
    ||| ascii_fold(p) == ascii_fold(approved_folder_path())
}

pub fn is_allowed_approved_path(path: &str) -> (r: bool)
    ensures
        r == allowed_approved_path(path@),
{
    eq_ignore_ascii_case(
        path,
        "Software\\Microsoft\\Windows\\CurrentVersion\\Explorer\\StartupApproved\\Run",
    ) || eq_ignore_ascii_case(
        path,
        "Software\\Microsoft\\Windows\\CurrentVersion\\Explorer\\StartupApproved\\Run32",
    ) || eq_ignore_ascii_case(
        path,
        "Software\\Microsoft\\Windows\\CurrentVersion\\Explorer\\StartupApproved\\StartupFolder",
    )
}

// ------------------------------------------------------------ protected names

/// Autostart value names that must never be toggled: the pieces of Windows'
/// own protection that live in Run keys. Substring match on the lowercase
/// form.
pub open spec fn protected_autostart(value_name: Seq<char>) -> bool {
    let lower = lowercase(value_name);
    ||| has_infix(lower, "securityhealth"@)
    ||| has_infix(lower, "windowsdefender"@)
    ||| has_infix(lower, "windows defender"@)
}

/// On an ASCII name the lowercase form is just the ASCII fold, so the answer
/// can be worked out for any concrete ASCII name.
pub fn is_protected_autostart(value_name: &str) -> (r: bool)
    ensures
        r == protected_autostart(value_name@),
        crate::text::all_ascii(value_name@) ==> lowercase(value_name@) == ascii_fold(value_name@),
{
    let lower = to_lowercase(value_name);
    let l = lower.as_str();
    str_contains(l, "securityhealth") || str_contains(l, "windowsdefender") || str_contains(
        l,
        "windows defender",
    )
}

// ------------------------------------------------------------ StartupApproved bytes

/// The FILETIME of the Unix epoch: 100 ns ticks since 1601-01-01.
pub open spec fn filetime_unix_epoch() -> u64 {
    116_444_736_000_000_000
}

/// Byte `i` of the little-endian encoding of `x`.
pub open spec fn le_byte(x: u64, i: int) -> u8 {
    ((x >> ((8 * i) as u64)) & 0xff) as u8
}

/// The 12-byte StartupApproved value. Enabled is 0x02 with zeroed trailing
/// bytes; disabled is 0x03 followed at offset 4 by the FILETIME at which it
/// was disabled.
pub open spec fn approved_bytes(enable: bool, filetime: u64) -> Seq<u8> {
    Seq::new(
        12,
        |i: int|
            if i == 0 {
                if enable {
                    2u8
                } else {
                    3u8
                }
            } else if i < 4 || enable {
                0u8
            } else {
                le_byte(filetime, i - 4)
            },
    )
}

/// The value for `enable`, stamped with `filetime` when disabling.
pub fn approved_bytes_at(enable: bool, filetime: u64) -> (r: Vec<u8>)
    ensures
        r@ == approved_bytes(enable, filetime),
{
    let mut bytes: Vec<u8> = Vec::new();
    bytes.push(if enable {
        2u8
    } else {
        3u8
    });
    bytes.push(0);
    bytes.push(0);
    bytes.push(0);
    let mut k: u64 = 0;
    while k < 8
        invariant
            0 <= k <= 8,
            bytes@.len() == 4 + k,
            forall|i: int| 0 <= i < 4 + k ==> #[trigger] bytes@[i] == approved_bytes(enable, filetime)[i],
        decreases 8 - k,
    {
        let b: u8 = if enable {
            0
        } else {
            ((filetime >> (8 * k)) & 0xff) as u8
        };
        bytes.push(b);
        k = k + 1;
    }
    proof {
        assert(bytes@ =~= approved_bytes(enable, filetime));
    }
    bytes
}

/// The FILETIME for a reading of the clock in nanoseconds since the Unix
/// epoch; zero when the clock read earlier than the epoch.
pub open spec fn filetime_of(nanos: Option<u128>) -> u64 {
    match nanos {
        Some(n) => (filetime_unix_epoch() + (n as u64) / 100) as u64,
        None => 0,
    }
}

pub fn filetime_from_nanos(nanos: Option<u128>) -> (r: u64)
    ensures
        r == filetime_of(nanos),
{
    match nanos {
        Some(n) => 116_444_736_000_000_000u64 + (n as u64) / 100,
        None => 0,
    }
}

/// The current time as a FILETIME.
pub fn now_filetime() -> (r: u64)
    ensures
        exists|nanos: Option<u128>| r == filetime_of(nanos),
{
    let nanos = unix_time_nanos();
    filetime_from_nanos(nanos)
}

/// The StartupApproved value for `enable`, stamped with the current time
/// when disabling.
pub fn make_approved_bytes(enable: bool) -> (r: Vec<u8>)
    ensures
        exists|nanos: Option<u128>| r@ == approved_bytes(enable, filetime_of(nanos)),
        enable ==> r@ == approved_bytes(true, 0),
{
    let ft = now_filetime();
    let r = approved_bytes_at(enable, ft);
    proof {
        if enable {
            assert(r@ =~= approved_bytes(true, 0));
        }
    }
    r
}

} // verus!

verus! {

// ------------------------------------------------------------ hex

/// The lowercase hex digit for `d` (`d < 16`).
pub open spec fn hex_digit(d: nat) -> char {
    if d < 10 {
        ((d + 48) as u32) as char
    } else {
        ((d + 87) as u32) as char
    }
}

/// Two lowercase hex digits per byte, high nibble first
/// (`format!("{b:02x}")` for each byte).
pub open spec fn hex_of(bytes: Seq<u8>) -> Seq<char> {
    Seq::new(
        2 * bytes.len(),
        |i: int|
            if i % 2 == 0 {
                hex_digit((bytes[i / 2] / 16) as nat)
            } else {
                hex_digit((bytes[i / 2] % 16) as nat)
            },
    )
}

fn hex_digit_char(d: u8) -> (r: char)
    requires
        d < 16,
    ensures
        r == hex_digit(d as nat),
{
    if d < 10 {
        (d + 48) as char
    } else {
        (d + 87) as char
    }
}

pub fn to_hex(bytes: &[u8]) -> (r: String)
    ensures
        r@ == hex_of(bytes@),
{
    let mut r = String::new();
    let mut i: usize = 0;
    while i < bytes.len()
        invariant
            0 <= i <= bytes@.len(),
            r@ == hex_of(bytes@.subrange(0, i as int)),
        decreases bytes@.len() - i,
    {
        let b = bytes[i];
        let ghost before = r@;
        push_char(&mut r, hex_digit_char(b / 16));
        push_char(&mut r, hex_digit_char(b % 16));
        i = i + 1;
        proof {
            assert(r@ =~= hex_of(bytes@.subrange(0, i as int)));
        }
    }
    proof {
        assert(bytes@.subrange(0, i as int) =~= bytes@);
    }
    r
}

/// The value of one ASCII hex digit byte, either case.
pub open spec fn hex_value(c: u8) -> Option<u8> {
    if 48 <= c <= 57 {
        Some((c - 48) as u8)
    } else if 97 <= c <= 102 {
        Some((c - 87) as u8)
    } else if 65 <= c <= 70 {
        Some((c - 55) as u8)
    } else {
        None
    }
}

/// `u8::from_str_radix(chunk, 16)` on a two-byte chunk: an optional leading
/// `+` followed by hex digits.
pub open spec fn hex_pair(b0: u8, b1: u8) -> Option<u8> {
    if b0 == 43 {
        hex_value(b1)
    } else {
        match (hex_value(b0), hex_value(b1)) {
            (Some(h), Some(l)) => Some((16 * h + l) as u8),
            _ => None,
        }
    }
}

/// Decoding two bytes at a time; the first bad pair makes the whole `None`.
pub open spec fn decode_hex_bytes(b: Seq<u8>) -> Option<Seq<u8>>
    decreases b.len(),
{
    if b.len() < 2 {
        Some(Seq::empty())
    } else {
        match hex_pair(b[0], b[1]) {
            None => None,
            Some(v) => match decode_hex_bytes(b.subrange(2, b.len() as int)) {
                Some(rest) => Some(seq![v] + rest),
                None => None,
            },
        }
    }
}

/// Slicing a two-byte chunk that ends inside a character panics; decoding
/// stops at the first bad pair, so only chunks up to that one are sliced.
pub open spec fn decode_hex_panics(b: Seq<u8>) -> bool
    decreases b.len(),
{
    if b.len() < 2 {
        false
    } else if b.len() > 2 && is_continuation_byte(b[2]) {
        true
    } else if hex_pair(b[0], b[1]) is None {
        false
    } else {
        decode_hex_panics(b.subrange(2, b.len() as int))
    }
}

/// What `from_hex` returns for `hex`.
pub open spec fn from_hex_result(hex: Seq<char>) -> Option<Seq<u8>> {
    let b = encode_utf8(hex);
    if b.len() % 2 != 0 {
        None
    } else {
        decode_hex_bytes(b)
    }
}

/// The inputs on which `from_hex` slices through a character.
pub open spec fn from_hex_panics(hex: Seq<char>) -> bool {
    let b = encode_utf8(hex);
    b.len() % 2 == 0 && decode_hex_panics(b)
}

fn hex_value_exec(c: u8) -> (r: Option<u8>)
    ensures
        r == hex_value(c),
{
    if 48 <= c && c <= 57 {
        Some(c - 48)
    } else if 97 <= c && c <= 102 {
        Some(c - 87)
    } else if 65 <= c && c <= 70 {
        Some(c - 55)
    } else {
        None
    }
}

fn hex_pair_exec(b0: u8, b1: u8) -> (r: Option<u8>)
    ensures
        r == hex_pair(b0, b1),
{
    if b0 == 43 {
        hex_value_exec(b1)
    } else {
        match (hex_value_exec(b0), hex_value_exec(b1)) {
            (Some(h), Some(l)) => Some(16 * h + l),
            _ => None,
        }
    }
}

/// Whether `from_hex` would slice through a character on `hex`.
pub fn from_hex_would_panic(hex: &str) -> (r: bool)
    ensures
        r == from_hex_panics(hex@),
{
    let b = hex.as_bytes();
    if b.len() % 2 != 0 {
        return false;
    }
    let n = b.len();
    let mut i: usize = 0;
    proof {
        assert(b@.subrange(0, n as int) =~= b@);
    }
    while i < n
        invariant
            n == b@.len(),
            b@ == encode_utf8(hex@),
            n % 2 == 0,
            i % 2 == 0,
            0 <= i <= n,
            decode_hex_panics(b@) == decode_hex_panics(b@.subrange(i as int, n as int)),
        decreases n - i,
    {
        let ghost rest = b@.subrange(i as int, n as int);
        proof {
            assert(rest.subrange(2, rest.len() as int) =~= b@.subrange(i + 2, n as int));
        }
        if i + 2 < n && 0x80 <= b[i + 2] && b[i + 2] <= 0xbf {
            return true;
        }
        if hex_pair_exec(b[i], b[i + 1]).is_none() {
            return false;
        }
        i = i + 2;
    }
    false
}

/// What a receipt's hex decodes to when it is read without risk: none for
/// hex that `from_hex` refuses and for hex on which it would slice through a
/// character.
pub open spec fn hex_decoded(hex: Seq<char>) -> Option<Seq<u8>> {
    if from_hex_panics(hex) {
        None
    } else {
        from_hex_result(hex)
    }
}

/// `from_hex` for any text: none where it would slice through a character.
pub fn from_hex_checked(hex: &str) -> (r: Option<Vec<u8>>)
    ensures
        match hex_decoded(hex@) {
            Some(b) => r matches Some(v) && v@ == b,
            None => r is None,
        },
{
    if from_hex_would_panic(hex) {
        None
    } else {
        from_hex(hex)
    }
}

/// Prepends `p` to a decoded suffix.
pub open spec fn prepend(p: Seq<u8>, o: Option<Seq<u8>>) -> Option<Seq<u8>> {
    match o {
        Some(r) => Some(p + r),
        None => None,
    }
}

/// Hex back to bytes. `None` on an odd byte length or any pair that is not
/// hex.
pub fn from_hex(hex: &str) -> (r: Option<Vec<u8>>)
    requires
        !from_hex_panics(hex@),
    ensures
        r matches Some(v) ==> from_hex_result(hex@) == Some(v@),
        r is None ==> from_hex_result(hex@) is None,
{
    let b = hex.as_bytes();
    if b.len() % 2 != 0 {
        return None;
    }
    let n = b.len();
    let mut out: Vec<u8> = Vec::new();
    let mut i: usize = 0;
    proof {
        assert(b@.subrange(0, n as int) =~= b@);
    }
    while i < n
        invariant
            n == b@.len(),
            b@ == encode_utf8(hex@),
            n % 2 == 0,
            i % 2 == 0,
            0 <= i <= n,
            decode_hex_bytes(b@) == prepend(out@, decode_hex_bytes(b@.subrange(i as int, n as int))),
        decreases n - i,
    {
        let ghost rest = b@.subrange(i as int, n as int);
        proof {
            assert(rest.subrange(2, rest.len() as int) =~= b@.subrange(i + 2, n as int));
        }
        match hex_pair_exec(b[i], b[i + 1]) {
            None => {
                proof {
                    assert(decode_hex_bytes(rest) is None);
                }
                return None;
            },
            Some(v) => {
                proof {
                    let tail = decode_hex_bytes(b@.subrange(i + 2, n as int));
                    match tail {
                        Some(t) => {
                            assert(out@.push(v) + t =~= out@ + (seq![v] + t));
                        },
                        None => {},
                    }
                }
                out.push(v);
                i = i + 2;
            },
        }
    }
    proof {
        assert(b@.subrange(n as int, n as int) =~= Seq::<u8>::empty());
        assert(out@ + Seq::<u8>::empty() =~= out@);
    }
    Some(out)
}

} // verus!

verus! {

/// The bytes of `hex_of(b)`: each hex digit is one ASCII byte.
pub open spec fn hex_bytes_of(b: Seq<u8>) -> Seq<u8> {
    Seq::new(2 * b.len(), |i: int| hex_of(b)[i] as u8)
}

proof fn lemma_hex_digit_value(d: nat)
    requires
        d < 16,
    ensures
        (hex_digit(d) as u32) < 128,
        hex_value(hex_digit(d) as u8) == Some(d as u8),
        hex_digit(d) as u8 != 43,
{
}

proof fn lemma_hex_bytes_decode(b: Seq<u8>)
    ensures
        decode_hex_bytes(hex_bytes_of(b)) == Some(b),
        !decode_hex_panics(hex_bytes_of(b)),
    decreases b.len(),
{
    let h = hex_bytes_of(b);
    if b.len() > 0 {
        let x = b[0];
        lemma_hex_digit_value((x / 16) as nat);
        lemma_hex_digit_value((x % 16) as nat);
        assert(h[0] == hex_digit((x / 16) as nat) as u8);
        assert(h[1] == hex_digit((x % 16) as nat) as u8);
        assert(hex_pair(h[0], h[1]) == Some(x));
        lemma_hex_bytes_decode(b.drop_first());
        assert(h.subrange(2, h.len() as int) =~= hex_bytes_of(b.drop_first()));
        if h.len() > 2 {
            let y = b[1];
            lemma_hex_digit_value((y / 16) as nat);
            assert(h[2] == hex_digit((y / 16) as nat) as u8);
        }
        assert(seq![x] + b.drop_first() =~= b);
    } else {
        assert(b =~= Seq::<u8>::empty());
    }
}

/// Hex written by `to_hex` reads back to the same bytes: `from_hex` never
/// panics on it and returns exactly the bytes it started from. This is what makes
/// every recorded change reversible from its hex receipt.
pub proof fn lemma_hex_roundtrip(b: Seq<u8>)
    ensures
        !from_hex_panics(hex_of(b)),
        from_hex_result(hex_of(b)) == Some(b),
{
    let s = hex_of(b);
    assert forall|i: int| 0 <= i < s.len() implies '\0' <= #[trigger] s[i] <= '\u{7f}' by {
        if i % 2 == 0 {
            lemma_hex_digit_value((b[i / 2] / 16) as nat);
        } else {
            lemma_hex_digit_value((b[i / 2] % 16) as nat);
        }
    }
    assert(is_ascii_chars(s));
    is_ascii_chars_encode_utf8(s);
    assert(encode_utf8(s) =~= hex_bytes_of(b));
    lemma_hex_bytes_decode(b);
}

} // verus!

