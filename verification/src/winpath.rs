//! Windows path rules, the way the standard library reads paths on Windows:
//! both `\` and `/` separate components, a drive (`C:`) or a network/device
//! prefix (`\\server\share`, `\\?\`, `\\.\`) may lead the path, `.`
//! components vanish and a trailing `..` names no file.
//!
//! These run the same on every machine, so the library gives the same answer
//! on a build host as on the Windows machine it is meant for.

use vstd::prelude::*;
use crate::text::{chars_of, slice_to_vec, string_from};

verus! {

pub open spec fn is_separator(c: char) -> bool {
    c == '\\' || c == '/'
}

pub open spec fn is_ascii_letter(c: char) -> bool {
    ('a' <= c && c <= 'z') || ('A' <= c && c <= 'Z')
}

/// The path starts with a drive, such as `C:`.
pub open spec fn has_drive(p: Seq<char>) -> bool {
    p.len() >= 2 && is_ascii_letter(p[0]) && p[1] == ':'
}

/// The path starts with two separators: a network share or a device path.
pub open spec fn has_share_prefix(p: Seq<char>) -> bool {
    p.len() >= 2 && is_separator(p[0]) && is_separator(p[1])
}

/// The index of the first separator at or after `i`; the length when there
/// is none.
pub open spec fn first_separator_from(s: Seq<char>, i: int) -> int
    decreases s.len() - i,
{
    if i >= s.len() {
        s.len() as int
    } else if is_separator(s[i]) {
        i
    } else {
        first_separator_from(s, i + 1)
    }
}

/// How many leading characters form the prefix: the drive, or for a share
/// prefix the two separators, the server, the share and the separator after
/// it.
pub open spec fn prefix_len(p: Seq<char>) -> int {
    if has_share_prefix(p) {
        let a = first_separator_from(p, 2);
        if a >= p.len() {
            p.len() as int
        } else {
            let b = first_separator_from(p, a + 1);
            if b >= p.len() {
                p.len() as int
            } else {
                b + 1
            }
        }
    } else if has_drive(p) {
        2
    } else {
        0
    }
}

/// What follows the last separator; all of `s` when there is none.
pub open spec fn last_piece(s: Seq<char>) -> Seq<char>
    decreases s.len(),
{
    if s.len() == 0 {
        s
    } else if is_separator(s.last()) {
        Seq::empty()
    } else {
        last_piece(s.drop_last()).push(s.last())
    }
}

pub open spec fn is_dot(s: Seq<char>) -> bool {
    s.len() == 1 && s[0] == '.'
}

pub open spec fn is_dot_dot(s: Seq<char>) -> bool {
    s.len() == 2 && s[0] == '.' && s[1] == '.'
}

/// The file name among components that carry no prefix: the last component
/// once trailing separators and `.` components are dropped; none when that
/// component is `..` or there is no component at all.
pub open spec fn file_name_in(s: Seq<char>) -> Option<Seq<char>>
    decreases s.len(),
{
    if s.len() == 0 {
        None
    } else if is_separator(s.last()) {
        file_name_in(s.drop_last())
    } else if is_dot(last_piece(s)) {
        file_name_in(s.drop_last())
    } else if is_dot_dot(last_piece(s)) {
        None
    } else {
        Some(last_piece(s))
    }
}

/// `Path::file_name` on Windows.
pub open spec fn windows_file_name(p: Seq<char>) -> Option<Seq<char>> {
    file_name_in(p.subrange(prefix_len(p), p.len() as int))
}

/// `Path::is_absolute` on Windows: a share prefix, or a drive followed by a
/// separator.
pub open spec fn is_absolute(p: Seq<char>) -> bool {
    has_share_prefix(p) || (has_drive(p) && p.len() >= 3 && is_separator(p[2]))
}

/// `PathBuf::join` on Windows for the paths met here: a path with its own
/// prefix replaces the base; a path that starts at a root keeps only the
/// base's drive; anything else is appended after a separator, unless the
/// base is empty, already ends in one, or is a bare drive.
pub open spec fn joined(base: Seq<char>, p: Seq<char>) -> Seq<char> {
    if has_drive(p) || has_share_prefix(p) {
        p
    } else if p.len() > 0 && is_separator(p[0]) {
        if has_drive(base) {
            base.subrange(0, 2) + p
        } else {
            p
        }
    } else if base.len() > 0 && !is_separator(base.last()) && !(base.len() == 2 && has_drive(
        base,
    )) {
        base + seq!['\\'] + p
    } else {
        base + p
    }
}

fn is_separator_char(c: char) -> (r: bool)
    ensures
        r == is_separator(c),
{
    c == '\\' || c == '/'
}

fn has_drive_chars(v: &[char]) -> (r: bool)
    ensures
        r == has_drive(v@),
{
    v.len() >= 2 && (('a' <= v[0] && v[0] <= 'z') || ('A' <= v[0] && v[0] <= 'Z')) && v[1] == ':'
}

fn has_share_prefix_chars(v: &[char]) -> (r: bool)
    ensures
        r == has_share_prefix(v@),
{
    v.len() >= 2 && is_separator_char(v[0]) && is_separator_char(v[1])
}

fn first_separator_from_exec(v: &[char], i: usize) -> (r: usize)
    requires
        i <= v@.len(),
    ensures
        r as int == first_separator_from(v@, i as int),
        i <= r <= v@.len(),
{
    let mut j = i;
    while j < v.len() && !is_separator_char(v[j])
        invariant
            i <= j <= v@.len(),
            first_separator_from(v@, i as int) == first_separator_from(v@, j as int),
        decreases v@.len() - j,
    {
        j = j + 1;
    }
    j
}

fn prefix_len_exec(v: &[char]) -> (r: usize)
    ensures
        r as int == prefix_len(v@),
        r <= v@.len(),
{
    if has_share_prefix_chars(v) {
        let a = first_separator_from_exec(v, 2);
        if a >= v.len() {
            v.len()
        } else {
            let b = first_separator_from_exec(v, a + 1);
            if b >= v.len() {
                v.len()
            } else {
                b + 1
            }
        }
    } else if has_drive_chars(v) {
        2
    } else {
        0
    }
}

/// The last piece of `s` starts at `k` when no separator follows `k` and a
/// separator (or the start) precedes it.
proof fn lemma_last_piece_is(s: Seq<char>, k: int)
    requires
        0 <= k <= s.len(),
        forall|i: int| k <= i < s.len() ==> !is_separator(#[trigger] s[i]),
        k > 0 ==> is_separator(s[k - 1]),
    ensures
        last_piece(s) == s.subrange(k, s.len() as int),
    decreases s.len(),
{
    if s.len() == 0 {
        assert(s.subrange(0, 0) =~= s);
    } else if k == s.len() {
        assert(s.subrange(k, k) =~= Seq::<char>::empty());
    } else {
        let d = s.drop_last();
        assert forall|i: int| k <= i < d.len() implies !is_separator(#[trigger] d[i]) by {
            assert(d[i] == s[i]);
        }
        if k > 0 {
            assert(d[k - 1] == s[k - 1]);
        }
        lemma_last_piece_is(d, k);
        assert(d.subrange(k, d.len() as int).push(s.last()) =~= s.subrange(k, s.len() as int));
    }
}

/// Where the last piece of `v[..end]` starts.
fn last_piece_start(v: &[char], end: usize) -> (j: usize)
    requires
        end <= v@.len(),
    ensures
        j <= end,
        forall|i: int| j <= i < end ==> !is_separator(#[trigger] v@[i]),
        j > 0 ==> is_separator(v@[j - 1]),
{
    let mut j: usize = end;
    while j > 0 && !is_separator_char(v[j - 1])
        invariant
            j <= end <= v@.len(),
            forall|i: int| j <= i < end ==> !is_separator(#[trigger] v@[i]),
        decreases j,
    {
        j = j - 1;
    }
    j
}

/// The file name within `v[from..end]`.
fn file_name_between(v: &[char], from: usize, end: usize) -> (r: Option<Vec<char>>)
    requires
        from <= end <= v@.len(),
    ensures
        match r {
            Some(f) => file_name_in(v@.subrange(from as int, end as int)) == Some(f@),
            None => file_name_in(v@.subrange(from as int, end as int)) is None,
        },
    decreases end - from,
{
    let ghost s = v@.subrange(from as int, end as int);
    if end == from {
        return None;
    }
    proof {
        assert(s.drop_last() =~= v@.subrange(from as int, end - 1));
    }
    if is_separator_char(v[end - 1]) {
        return file_name_between(v, from, end - 1);
    }
    let j0 = last_piece_start(v, end);
    let j = if j0 < from {
        from
    } else {
        j0
    };
    proof {
        assert forall|i: int| j - from <= i < s.len() implies !is_separator(#[trigger] s[i]) by {
            assert(s[i] == v@[from + i]);
        }
        if j > from {
            assert(s[j - from - 1] == v@[j - 1]);
        }
        lemma_last_piece_is(s, j - from);
        assert(s.subrange(j - from, s.len() as int) =~= v@.subrange(j as int, end as int));
    }
    if end - j == 1 && v[j] == '.' {
        return file_name_between(v, from, end - 1);
    }
    if end - j == 2 && v[j] == '.' && v[j + 1] == '.' {
        return None;
    }
    Some(slice_to_vec(v, j, end))
}

/// `Path::file_name` on Windows.
pub fn file_name(path: &str) -> (r: Option<String>)
    ensures
        crate::text::opt_view(r) == windows_file_name(path@),
{
    let v = chars_of(path);
    let start = prefix_len_exec(v.as_slice());
    match file_name_between(v.as_slice(), start, v.len()) {
        Some(f) => Some(string_from(f.as_slice())),
        None => None,
    }
}

/// `Path::is_relative` on Windows.
pub fn is_relative(path: &str) -> (r: bool)
    ensures
        r == !is_absolute(path@),
{
    let v = chars_of(path);
    !(has_share_prefix_chars(v.as_slice()) || (has_drive_chars(v.as_slice()) && v.len() >= 3
        && is_separator_char(v[2])))
}

/// `PathBuf::from(base).join(p)` on Windows.
pub fn join(base: &str, p: &str) -> (r: String)
    ensures
        r@ == joined(base@, p@),
{
    let b = chars_of(base);
    let q = chars_of(p);
    let mut out: Vec<char> = Vec::new();
    if has_drive_chars(q.as_slice()) || has_share_prefix_chars(q.as_slice()) {
        return string_from(q.as_slice());
    }
    if q.len() > 0 && is_separator_char(q[0]) {
        if has_drive_chars(b.as_slice()) {
            out.push(b[0]);
            out.push(b[1]);
        }
    } else {
        let mut i: usize = 0;
        while i < b.len()
            invariant
                0 <= i <= b@.len(),
                out@ == b@.subrange(0, i as int),
            decreases b@.len() - i,
        {
            out.push(b[i]);
            i = i + 1;
            proof {
                assert(out@ =~= b@.subrange(0, i as int));
            }
        }
        proof {
            assert(out@ =~= b@);
        }
        if b.len() > 0 && !is_separator_char(b[b.len() - 1]) && !(b.len() == 2 && has_drive_chars(
            b.as_slice(),
        )) {
            out.push('\\');
        }
    }
    let ghost head = out@;
    let mut i: usize = 0;
    while i < q.len()
        invariant
            0 <= i <= q@.len(),
            out@ == head + q@.subrange(0, i as int),
        decreases q@.len() - i,
    {
        out.push(q[i]);
        i = i + 1;
        proof {
            assert(out@ =~= head + q@.subrange(0, i as int));
        }
    }
    proof {
        assert(q@.subrange(0, q@.len() as int) =~= q@);
        if q@.len() > 0 && is_separator(q@[0]) && has_drive(b@) {
            assert(head =~= b@.subrange(0, 2));
        }
    }
    string_from(out.as_slice())
}

/// `s` without trailing separators, never cutting below `keep` characters.
pub open spec fn strip_trailing_separators(s: Seq<char>, keep: int) -> Seq<char>
    decreases s.len(),
{
    if s.len() > keep && s.len() > 0 && is_separator(s.last()) {
        strip_trailing_separators(s.drop_last(), keep)
    } else {
        s
    }
}

/// How many leading characters `Path::parent` never removes: the prefix and
/// the root separator after it.
pub open spec fn anchor_len(p: Seq<char>) -> int {
    let pl = prefix_len(p);
    if !has_share_prefix(p) && pl < p.len() && is_separator(p[pl]) {
        pl + 1
    } else {
        pl
    }
}

/// `Path::parent` on Windows: the path without its last component (and the
/// separators before it); none for a path that is only a prefix and root.
pub open spec fn windows_parent(p: Seq<char>) -> Option<Seq<char>> {
    let keep = anchor_len(p);
    let t = strip_trailing_separators(p, keep);
    if t.len() <= keep {
        None
    } else {
        let body = t.subrange(keep, t.len() as int);
        let rest = body.subrange(0, body.len() - last_piece(body).len());
        Some(strip_trailing_separators(t.subrange(0, keep) + rest, keep))
    }
}

fn strip_end(v: &[char], end: usize, keep: usize) -> (r: usize)
    requires
        end <= v@.len(),
    ensures
        r <= end,
        strip_trailing_separators(v@.subrange(0, end as int), keep as int) == v@.subrange(0, r as int),
{
    let mut e = end;
    while e > keep && e > 0 && is_separator_char(v[e - 1])
        invariant
            e <= end <= v@.len(),
            strip_trailing_separators(v@.subrange(0, end as int), keep as int)
                == strip_trailing_separators(v@.subrange(0, e as int), keep as int),
        decreases e,
    {
        proof {
            assert(v@.subrange(0, e as int).drop_last() =~= v@.subrange(0, e - 1));
        }
        e = e - 1;
    }
    e
}

/// `Path::new(p).parent()` on Windows, as a string.
pub fn parent(path: &str) -> (r: Option<String>)
    ensures
        crate::text::opt_view(r) == windows_parent(path@),
{
    let v = chars_of(path);
    let pl = prefix_len_exec(v.as_slice());
    let keep = if !has_share_prefix_chars(v.as_slice()) && pl < v.len() && is_separator_char(v[pl]) {
        pl + 1
    } else {
        pl
    };
    proof {
        assert(v@.subrange(0, v@.len() as int) =~= v@);
    }
    let tl = strip_end(v.as_slice(), v.len(), keep);
    if tl <= keep {
        return None;
    }
    let j0 = last_piece_start(v.as_slice(), tl);
    let j = if j0 < keep {
        keep
    } else {
        j0
    };
    let ghost t = v@.subrange(0, tl as int);
    let ghost body = t.subrange(keep as int, t.len() as int);
    proof {
        assert forall|i: int| j - keep <= i < body.len() implies !is_separator(#[trigger] body[i]) by {
            assert(body[i] == v@[keep + i]);
        }
        if j > keep {
            assert(body[j - keep - 1] == v@[j - 1]);
        }
        lemma_last_piece_is(body, j - keep);
        assert(t.subrange(0, keep as int) + body.subrange(0, body.len() - last_piece(body).len())
            =~= v@.subrange(0, j as int));
    }
    let e = strip_end(v.as_slice(), j, keep);
    Some(string_from(slice_to_vec(v.as_slice(), 0, e).as_slice()))
}

} // verus!
