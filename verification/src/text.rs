//! Text primitives shared by every rule: character-level views of strings,
//! ASCII case folding, searching, and decimal formatting.

use vstd::prelude::*;

verus! {

/// The lowercase form of a string as `str::to_lowercase` computes it
/// (Unicode `Lowercase` mapping).
pub uninterp spec fn lowercase(s: Seq<char>) -> Seq<char>;

/// Every character of `s` is ASCII.
pub open spec fn all_ascii(s: Seq<char>) -> bool {
    forall|i: int| 0 <= i < s.len() ==> (s[i] as u32) < 128
}

/// `str::to_lowercase`. The result is named: it is the Unicode lowercase
/// mapping of the argument. Of that mapping only what the documentation
/// makes plain is claimed: on ASCII text it turns `A`–`Z` into `a`–`z` and
/// keeps every other character.
#[verifier::external_body]
pub(crate) fn to_lowercase(s: &str) -> (r: String)
    ensures
        r@ == lowercase(s@),
        all_ascii(s@) ==> r@ == ascii_fold(s@),
{
    s.to_lowercase()
}

/// `String::push`: appends one character.
#[verifier::external_body]
pub(crate) fn push_char(s: &mut String, c: char)
    ensures
        final(s)@ == old(s)@.push(c),
{
    s.push(c)
}

/// The characters of a string, in order.
pub fn chars_of(s: &str) -> (v: Vec<char>)
    ensures
        v@ == s@,
{
    let mut v: Vec<char> = Vec::new();
    for c in it: s.chars()
        invariant
            v@ == it.seq().take(it.index() as int),
    {
        v.push(c);
    }
    v
}

} // verus!

verus! {

// ------------------------------------------------------------ ASCII folding

/// `c` with an ASCII capital letter replaced by its small letter.
pub open spec fn ascii_lower(c: char) -> char {
    if 'A' <= c <= 'Z' {
        ((c as u32) + 32) as char
    } else {
        c
    }
}

/// `s` with every ASCII capital letter replaced by its small letter; every
/// other character is kept as it is.
pub open spec fn ascii_fold(s: Seq<char>) -> Seq<char> {
    s.map_values(|c: char| ascii_lower(c))
}

pub fn ascii_lower_char(c: char) -> (r: char)
    ensures
        r == ascii_lower(c),
{
    if 'A' <= c && c <= 'Z' {
        ((c as u8) + 32) as char
    } else {
        c
    }
}

/// `str::eq_ignore_ascii_case`: the two strings are equal once ASCII
/// letters are folded to small letters.
pub fn eq_ignore_ascii_case(a: &str, b: &str) -> (r: bool)
    ensures
        r == (ascii_fold(a@) == ascii_fold(b@)),
{
    let va = chars_of(a);
    let vb = chars_of(b);
    if va.len() != vb.len() {
        proof {
            assert(ascii_fold(a@).len() != ascii_fold(b@).len());
        }
        return false;
    }
    let n = va.len();
    let mut i: usize = 0;
    while i < n
        invariant
            n == va.len(),
            n == vb.len(),
            va@ == a@,
            vb@ == b@,
            0 <= i <= n,
            forall|j: int| 0 <= j < i ==> ascii_lower(#[trigger] va@[j]) == ascii_lower(vb@[j]),
        decreases n - i,
    {
        if ascii_lower_char(va[i]) != ascii_lower_char(vb[i]) {
            proof {
                assert(ascii_fold(a@)[i as int] != ascii_fold(b@)[i as int]);
            }
            return false;
        }
        i = i + 1;
    }
    proof {
        assert(ascii_fold(a@) =~= ascii_fold(b@));
    }
    true
}

} // verus!

verus! {

// ------------------------------------------------------------ searching

/// `n` occurs in `h` starting at index `i`.
pub open spec fn occurs_at<T>(h: Seq<T>, n: Seq<T>, i: int) -> bool {
    0 <= i && i + n.len() <= h.len() && h.subrange(i, i + n.len()) == n
}

/// `n` occurs somewhere in `h` (an empty `n` occurs everywhere).
pub open spec fn has_infix<T>(h: Seq<T>, n: Seq<T>) -> bool {
    exists|i: int| #[trigger] occurs_at(h, n, i)
}

/// The first index at which `n` occurs in `h`, if it occurs.
pub open spec fn first_occurrence<T>(h: Seq<T>, n: Seq<T>) -> Option<int> {
    if has_infix(h, n) {
        Some(
            choose|i: int|
                #[trigger] occurs_at(h, n, i) && forall|j: int| 0 <= j < i ==> !occurs_at(h, n, j),
        )
    } else {
        None
    }
}

/// The first occurrence is the one with no occurrence before it.
pub proof fn lemma_first_occurrence_at<T>(h: Seq<T>, n: Seq<T>, i: int)
    requires
        occurs_at(h, n, i),
        forall|j: int| 0 <= j < i ==> !occurs_at(h, n, j),
    ensures
        first_occurrence(h, n) == Some(i),
{
    assert(has_infix(h, n));
    let c = choose|c: int|
        #[trigger] occurs_at(h, n, c) && forall|j: int| 0 <= j < c ==> !occurs_at(h, n, j);
    if c < i {
        assert(!occurs_at(h, n, c));
    } else if c > i {
        assert(!occurs_at(h, n, i));
    }
}


pub open spec fn is_prefix<T>(p: Seq<T>, s: Seq<T>) -> bool {
    p.len() <= s.len() && s.subrange(0, p.len() as int) == p
}

pub open spec fn is_suffix<T>(p: Seq<T>, s: Seq<T>) -> bool {
    p.len() <= s.len() && s.subrange(s.len() - p.len(), s.len() as int) == p
}

/// Whether `n` occurs in `h` at index `i`.
pub fn occurs_at_exec(h: &[char], n: &[char], i: usize) -> (r: bool)
    ensures
        r == occurs_at(h@, n@, i as int),
{
    if i > h.len() || n.len() > h.len() - i {
        return false;
    }
    let mut k: usize = 0;
    while k < n.len()
        invariant
            i + n@.len() <= h@.len(),
            h@.len() <= usize::MAX,
            0 <= k <= n@.len(),
                forall|j: int| 0 <= j < k ==> h@[i + j] == n@[j],
        decreases n@.len() - k,
    {
        if !(h[i + k] == n[k]) {
            proof {
                assert(h@.subrange(i as int, i + n@.len())[k as int] != n@[k as int]);
            }
            return false;
        }
        k = k + 1;
    }
    proof {
        assert(h@.subrange(i as int, i + n@.len()) =~= n@);
    }
    true
}

/// The first index at which `n` occurs in `h`.
pub fn find_seq(h: &[char], n: &[char]) -> (r: Option<usize>)
    ensures
        r matches Some(i) ==> first_occurrence(h@, n@) == Some(i as int) && occurs_at(
            h@,
            n@,
            i as int,
        ),
        r is None ==> first_occurrence(h@, n@) is None,
{
    let mut i: usize = 0;
    loop
        invariant
            0 <= i <= h@.len(),
            forall|j: int| 0 <= j < i ==> !occurs_at(h@, n@, j),
        decreases h@.len() - i,
    {
        if occurs_at_exec(h, n, i) {
            proof {
                lemma_first_occurrence_at(h@, n@, i as int);
            }
            return Some(i);
        }
        if i == h.len() {
            proof {
                assert forall|j: int| !(#[trigger] occurs_at(h@, n@, j)) by {
                    if 0 <= j < i {
                    }
                }
            }
            return None;
        }
        i = i + 1;
    }
}

/// Whether `n` occurs in `h`.
pub fn contains_seq(h: &[char], n: &[char]) -> (r: bool)
    ensures
        r == has_infix(h@, n@),
{
    find_seq(h, n).is_some()
}

/// Whether `n` occurs in `h` at index `i`.
pub fn occurs_at_bytes(h: &[u8], n: &[u8], i: usize) -> (r: bool)
    ensures
        r == occurs_at(h@, n@, i as int),
{
    if i > h.len() || n.len() > h.len() - i {
        return false;
    }
    let mut k: usize = 0;
    while k < n.len()
        invariant
            i + n@.len() <= h@.len(),
            h@.len() <= usize::MAX,
            0 <= k <= n@.len(),
                forall|j: int| 0 <= j < k ==> h@[i + j] == n@[j],
        decreases n@.len() - k,
    {
        if !(h[i + k] == n[k]) {
            proof {
                assert(h@.subrange(i as int, i + n@.len())[k as int] != n@[k as int]);
            }
            return false;
        }
        k = k + 1;
    }
    proof {
        assert(h@.subrange(i as int, i + n@.len()) =~= n@);
    }
    true
}

/// The first index at which `n` occurs in `h`.
pub fn find_bytes(h: &[u8], n: &[u8]) -> (r: Option<usize>)
    ensures
        r matches Some(i) ==> first_occurrence(h@, n@) == Some(i as int) && occurs_at(
            h@,
            n@,
            i as int,
        ),
        r is None ==> first_occurrence(h@, n@) is None,
{
    let mut i: usize = 0;
    loop
        invariant
            0 <= i <= h@.len(),
            forall|j: int| 0 <= j < i ==> !occurs_at(h@, n@, j),
        decreases h@.len() - i,
    {
        if occurs_at_bytes(h, n, i) {
            proof {
                lemma_first_occurrence_at(h@, n@, i as int);
            }
            return Some(i);
        }
        if i == h.len() {
            proof {
                assert forall|j: int| !(#[trigger] occurs_at(h@, n@, j)) by {
                    if 0 <= j < i {
                    }
                }
            }
            return None;
        }
        i = i + 1;
    }
}

/// `str::contains` with a string pattern.
pub fn str_contains(h: &str, n: &str) -> (r: bool)
    ensures
        r == has_infix(h@, n@),
{
    let vh = chars_of(h);
    let vn = chars_of(n);
    contains_seq(vh.as_slice(), vn.as_slice())
}

/// `str::starts_with` with a string pattern.
pub fn str_starts_with(s: &str, p: &str) -> (r: bool)
    ensures
        r == is_prefix(p@, s@),
{
    let vs = chars_of(s);
    let vp = chars_of(p);
    let r = occurs_at_exec(vs.as_slice(), vp.as_slice(), 0);
    proof {
        if r {
            assert(vs@.subrange(0, vp@.len() as int) == vp@);
        }
    }
    r
}

/// `str::ends_with` with a string pattern.
pub fn str_ends_with(s: &str, p: &str) -> (r: bool)
    ensures
        r == is_suffix(p@, s@),
{
    let vs = chars_of(s);
    let vp = chars_of(p);
    if vp.len() > vs.len() {
        return false;
    }
    occurs_at_exec(vs.as_slice(), vp.as_slice(), vs.len() - vp.len())
}

} // verus!

verus! {

// ------------------------------------------------------------ building strings

/// A string holding exactly the given characters.
pub fn string_from(v: &[char]) -> (r: String)
    ensures
        r@ == v@,
{
    let mut r = String::new();
    let mut i: usize = 0;
    while i < v.len()
        invariant
            0 <= i <= v@.len(),
            r@ == v@.subrange(0, i as int),
        decreases v@.len() - i,
    {
        push_char(&mut r, v[i]);
        i = i + 1;
        proof {
            assert(r@ =~= v@.subrange(0, i as int));
        }
    }
    proof {
        assert(r@ =~= v@);
    }
    r
}

/// Appends a string slice.
pub fn push_str(s: &mut String, t: &str)
    ensures
        final(s)@ == old(s)@ + t@,
{
    let v = chars_of(t);
    let ghost start = s@;
    let mut i: usize = 0;
    while i < v.len()
        invariant
            0 <= i <= v@.len(),
            v@ == t@,
            s@ == start + v@.subrange(0, i as int),
        decreases v@.len() - i,
    {
        push_char(s, v[i]);
        i = i + 1;
        proof {
            assert(s@ =~= start + v@.subrange(0, i as int));
        }
    }
    proof {
        assert(v@.subrange(0, v@.len() as int) =~= v@);
    }
}

/// An owned copy of a string slice.
pub fn owned(t: &str) -> (r: String)
    ensures
        r@ == t@,
{
    let mut r = String::new();
    push_str(&mut r, t);
    proof {
        assert(r@ =~= t@);
    }
    r
}

// ------------------------------------------------------------ decimal numbers

/// The ASCII digit for `d` (`d < 10`).
pub open spec fn digit(d: nat) -> char {
    ((d + 48) as u32) as char
}

/// The decimal notation of `n`, without leading zeros.
pub open spec fn decimal(n: nat) -> Seq<char>
    decreases n,
{
    if n < 10 {
        seq![digit(n)]
    } else {
        decimal(n / 10).push(digit(n % 10))
    }
}

/// Every character of a decimal notation is an ASCII digit, and there is
/// at least one.
pub(crate) proof fn lemma_decimal_is_digits(n: nat)
    ensures
        decimal(n).len() >= 1,
        forall|i: int| 0 <= i < decimal(n).len() ==> 48 <= #[trigger] (decimal(n)[i] as u32) <= 57,
    decreases n,
{
    if n >= 10 {
        lemma_decimal_is_digits(n / 10);
        assert forall|i: int| 0 <= i < decimal(n).len() implies 48 <= #[trigger] (decimal(n)[i] as u32) <= 57 by {
            if i < decimal(n / 10).len() {
                assert(decimal(n)[i] == decimal(n / 10)[i]);
            }
        }
    }
}

/// Distinct numbers have distinct decimal notations.
pub(crate) proof fn lemma_decimal_injective(a: nat, b: nat)
    requires
        decimal(a) == decimal(b),
    ensures
        a == b,
    decreases a,
{
    lemma_decimal_is_digits(a / 10);
    lemma_decimal_is_digits(b / 10);
    if a < 10 && b < 10 {
        assert(decimal(a)[0] == digit(a));
        assert(decimal(b)[0] == digit(b));
    } else if a < 10 {
        assert(decimal(b).len() >= 2);
    } else if b < 10 {
        assert(decimal(a).len() >= 2);
    } else {
        assert(decimal(a).last() == digit(a % 10));
        assert(decimal(b).last() == digit(b % 10));
        assert(decimal(a / 10) =~= decimal(a).drop_last());
        assert(decimal(b / 10) =~= decimal(b).drop_last());
        lemma_decimal_injective(a / 10, b / 10);
    }
}

/// Appends the decimal notation of `n`.
pub fn push_decimal(s: &mut String, n: u64)
    ensures
        final(s)@ == old(s)@ + decimal(n as nat),
    decreases n,
{
    if n >= 10 {
        push_decimal(s, n / 10);
    }
    let d = (n % 10) as u8;
    push_char(s, (d + 48) as char);
    proof {
        assert(old(s)@ + decimal(n as nat) =~= if n >= 10 {
            old(s)@ + decimal((n / 10) as nat) + seq![digit((n % 10) as nat)]
        } else {
            old(s)@ + seq![digit(n as nat)]
        });
    }
}

} // verus!

verus! {

// ------------------------------------------------------------ whitespace and trimming

/// `char::is_whitespace`: the Unicode `White_Space` property.
pub open spec fn is_whitespace(c: char) -> bool {
    let u = c as u32;
    (9 <= u <= 13) || u == 32 || u == 0x85 || u == 0xA0 || u == 0x1680 || (0x2000 <= u <= 0x200A)
        || u == 0x2028 || u == 0x2029 || u == 0x202F || u == 0x205F || u == 0x3000
}

pub fn is_whitespace_char(c: char) -> (r: bool)
    ensures
        r == is_whitespace(c),
{
    let u = c as u32;
    (9 <= u && u <= 13) || u == 32 || u == 0x85 || u == 0xA0 || u == 0x1680 || (0x2000 <= u && u
        <= 0x200A) || u == 0x2028 || u == 0x2029 || u == 0x202F || u == 0x205F || u == 0x3000
}

/// `s` without its leading whitespace.
pub open spec fn trim_start(s: Seq<char>) -> Seq<char>
    decreases s.len(),
{
    if s.len() > 0 && is_whitespace(s[0]) {
        trim_start(s.drop_first())
    } else {
        s
    }
}

/// `s` without its trailing whitespace.
pub open spec fn trim_end(s: Seq<char>) -> Seq<char>
    decreases s.len(),
{
    if s.len() > 0 && is_whitespace(s.last()) {
        trim_end(s.drop_last())
    } else {
        s
    }
}

/// `str::trim`.
pub open spec fn trim(s: Seq<char>) -> Seq<char> {
    trim_end(trim_start(s))
}

/// `s` without leading copies of `c`.
pub open spec fn trim_start_char(s: Seq<char>, c: char) -> Seq<char>
    decreases s.len(),
{
    if s.len() > 0 && s[0] == c {
        trim_start_char(s.drop_first(), c)
    } else {
        s
    }
}

/// `s` without trailing copies of `c`.
pub open spec fn trim_end_char(s: Seq<char>, c: char) -> Seq<char>
    decreases s.len(),
{
    if s.len() > 0 && s.last() == c {
        trim_end_char(s.drop_last(), c)
    } else {
        s
    }
}

/// `s` with repeated leading copies of `p` removed (`trim_start_matches`).
pub open spec fn trim_start_pat(s: Seq<char>, p: Seq<char>) -> Seq<char>
    decreases s.len(),
{
    if p.len() > 0 && is_prefix(p, s) {
        trim_start_pat(s.subrange(p.len() as int, s.len() as int), p)
    } else {
        s
    }
}

/// `s` with repeated trailing copies of `p` removed (`trim_end_matches`).
pub open spec fn trim_end_pat(s: Seq<char>, p: Seq<char>) -> Seq<char>
    decreases s.len(),
{
    if p.len() > 0 && is_suffix(p, s) {
        trim_end_pat(s.subrange(0, s.len() - p.len()), p)
    } else {
        s
    }
}

/// Leading whitespace removed.
pub fn trim_start_chars(v: &[char]) -> (r: Vec<char>)
    ensures
        r@ == trim_start(v@),
{
    let mut i: usize = 0;
    proof {
        assert(v@.subrange(0, v@.len() as int) =~= v@);
    }
    while i < v.len() && is_whitespace_char(v[i])
        invariant
            0 <= i <= v@.len(),
            trim_start(v@.subrange(i as int, v@.len() as int)) == trim_start(v@),
        decreases v@.len() - i,
    {
        proof {
            assert(v@.subrange(i as int, v@.len() as int).drop_first() =~= v@.subrange(
                i + 1,
                v@.len() as int,
            ));
        }
        i = i + 1;
    }
    let r = slice_to_vec(v, i, v.len());
    proof {
        assert(r@ == v@.subrange(i as int, v@.len() as int));
    }
    r
}

/// Trailing whitespace removed.
pub fn trim_end_chars(v: &[char]) -> (r: Vec<char>)
    ensures
        r@ == trim_end(v@),
{
    let mut j: usize = v.len();
    proof {
        assert(v@.subrange(0, v@.len() as int) =~= v@);
    }
    while j > 0 && is_whitespace_char(v[j - 1])
        invariant
            0 <= j <= v@.len(),
            trim_end(v@.subrange(0, j as int)) == trim_end(v@),
        decreases j,
    {
        proof {
            assert(v@.subrange(0, j as int).drop_last() =~= v@.subrange(0, j - 1));
        }
        j = j - 1;
    }
    let r = slice_to_vec(v, 0, j);
    proof {
        assert(v@.subrange(0, v@.len() as int) =~= v@);
    }
    r
}

/// `str::trim` on characters.
pub fn trim_chars(v: &[char]) -> (r: Vec<char>)
    ensures
        r@ == trim(v@),
{
    let a = trim_start_chars(v);
    trim_end_chars(a.as_slice())
}

/// `str::trim`.
pub fn trim_str(s: &str) -> (r: String)
    ensures
        r@ == trim(s@),
{
    let v = chars_of(s);
    let t = trim_chars(v.as_slice());
    string_from(t.as_slice())
}

/// Leading copies of `c` removed.
pub fn trim_start_char_chars(v: &[char], c: char) -> (r: Vec<char>)
    ensures
        r@ == trim_start_char(v@, c),
{
    let mut i: usize = 0;
    proof {
        assert(v@.subrange(0, v@.len() as int) =~= v@);
    }
    while i < v.len() && v[i] == c
        invariant
            0 <= i <= v@.len(),
            trim_start_char(v@.subrange(i as int, v@.len() as int), c) == trim_start_char(v@, c),
        decreases v@.len() - i,
    {
        proof {
            assert(v@.subrange(i as int, v@.len() as int).drop_first() =~= v@.subrange(
                i + 1,
                v@.len() as int,
            ));
        }
        i = i + 1;
    }
    slice_to_vec(v, i, v.len())
}

/// Trailing copies of `c` removed.
pub fn trim_end_char_chars(v: &[char], c: char) -> (r: Vec<char>)
    ensures
        r@ == trim_end_char(v@, c),
{
    let mut j: usize = v.len();
    proof {
        assert(v@.subrange(0, v@.len() as int) =~= v@);
    }
    while j > 0 && v[j - 1] == c
        invariant
            0 <= j <= v@.len(),
            trim_end_char(v@.subrange(0, j as int), c) == trim_end_char(v@, c),
        decreases j,
    {
        proof {
            assert(v@.subrange(0, j as int).drop_last() =~= v@.subrange(0, j - 1));
        }
        j = j - 1;
    }
    let r = slice_to_vec(v, 0, j);
    proof {
        assert(v@.subrange(0, v@.len() as int) =~= v@);
    }
    r
}

/// Repeated trailing copies of `p` removed.
pub fn trim_end_pat_chars(v: &[char], p: &[char]) -> (r: Vec<char>)
    ensures
        r@ == trim_end_pat(v@, p@),
{
    if p.len() == 0 {
        return slice_to_vec(v, 0, v.len());
    }
    let mut j: usize = v.len();
    proof {
        assert(v@.subrange(0, v@.len() as int) =~= v@);
    }
    while j >= p.len() && occurs_at_exec(v, p, j - p.len())
        invariant
            0 <= j <= v@.len(),
            p@.len() > 0,
            trim_end_pat(v@.subrange(0, j as int), p@) == trim_end_pat(v@, p@),
        decreases j,
    {
        proof {
            let w = v@.subrange(0, j as int);
            assert(w.subrange(w.len() - p@.len(), w.len() as int) =~= v@.subrange(
                j - p@.len(),
                j as int,
            ));
            assert(w.subrange(0, w.len() - p@.len()) =~= v@.subrange(0, j - p@.len()));
        }
        j = j - p.len();
    }
    proof {
        let w = v@.subrange(0, j as int);
        if j >= p@.len() && is_suffix(p@, w) {
            assert(w.subrange(w.len() - p@.len(), w.len() as int) =~= v@.subrange(
                j - p@.len(),
                j as int,
            ));
        }
        assert(v@.subrange(0, v@.len() as int) =~= v@);
    }
    slice_to_vec(v, 0, j)
}

/// Repeated leading copies of `p` removed.
pub fn trim_start_pat_chars(v: &[char], p: &[char]) -> (r: Vec<char>)
    ensures
        r@ == trim_start_pat(v@, p@),
{
    if p.len() == 0 {
        return slice_to_vec(v, 0, v.len());
    }
    let mut i: usize = 0;
    proof {
        assert(v@.subrange(0, v@.len() as int) =~= v@);
    }
    while i <= v.len() && v.len() - i >= p.len() && occurs_at_exec(v, p, i)
        invariant
            0 <= i <= v@.len(),
            p@.len() > 0,
            trim_start_pat(v@.subrange(i as int, v@.len() as int), p@) == trim_start_pat(v@, p@),
        decreases v@.len() - i,
    {
        proof {
            let w = v@.subrange(i as int, v@.len() as int);
            assert(w.subrange(0, p@.len() as int) =~= v@.subrange(i as int, i + p@.len()));
            assert(w.subrange(p@.len() as int, w.len() as int) =~= v@.subrange(
                i + p@.len(),
                v@.len() as int,
            ));
        }
        i = i + p.len();
    }
    proof {
        let w = v@.subrange(i as int, v@.len() as int);
        if is_prefix(p@, w) {
            assert(w.subrange(0, p@.len() as int) =~= v@.subrange(i as int, i + p@.len()));
        }
        assert(v@.subrange(0, v@.len() as int) =~= v@);
    }
    slice_to_vec(v, i, v.len())
}

/// A copy of `v[from..to]`.
pub fn slice_to_vec(v: &[char], from: usize, to: usize) -> (r: Vec<char>)
    requires
        from <= to <= v@.len(),
    ensures
        r@ == v@.subrange(from as int, to as int),
{
    let mut r: Vec<char> = Vec::new();
    let mut i = from;
    while i < to
        invariant
            from <= i <= to <= v@.len(),
            r@ == v@.subrange(from as int, i as int),
        decreases to - i,
    {
        r.push(v[i]);
        i = i + 1;
        proof {
            assert(r@ =~= v@.subrange(from as int, i as int));
        }
    }
    r
}

} // verus!

verus! {

// ------------------------------------------------------------ segments

/// The views of a sequence of character vectors.
pub open spec fn views(vs: Seq<Vec<char>>) -> Seq<Seq<char>> {
    vs.map_values(|v: Vec<char>| v@)
}

/// The views of a sequence of strings.
pub open spec fn string_views(vs: Seq<String>) -> Seq<Seq<char>> {
    vs.map_values(|v: String| v@)
}

/// What follows the last `c` in `s`; all of `s` when there is none
/// (`s.rsplit(c).next()`).
pub open spec fn after_last(s: Seq<char>, c: char) -> Seq<char>
    decreases s.len(),
{
    if s.len() == 0 {
        s
    } else if s.last() == c {
        Seq::empty()
    } else {
        after_last(s.drop_last(), c).push(s.last())
    }
}

/// What precedes the first `c` in `s`; all of `s` when there is none
/// (`s.split(c).next()`).
pub open spec fn before_first(s: Seq<char>, c: char) -> Seq<char>
    decreases s.len(),
{
    if s.len() == 0 {
        s
    } else if s[0] == c {
        Seq::empty()
    } else {
        seq![s[0]] + before_first(s.drop_first(), c)
    }
}

pub proof fn lemma_before_first(s: Seq<char>, c: char)
    ensures
        is_prefix(before_first(s, c), s),
        before_first(s, c).len() < s.len() ==> s[before_first(s, c).len() as int] == c,
        forall|k: int| 0 <= k < before_first(s, c).len() ==> s[k] != c,
    decreases s.len(),
{
    if s.len() > 0 && s[0] != c {
        lemma_before_first(s.drop_first(), c);
        let b = before_first(s.drop_first(), c);
        assert(before_first(s, c) =~= seq![s[0]] + b);
        assert(s.subrange(0, b.len() + 1int) =~= seq![s[0]] + s.drop_first().subrange(0, b.len() as int));
        assert forall|k: int| 0 <= k < before_first(s, c).len() implies s[k] != c by {
            if k > 0 {
                assert(s[k] == s.drop_first()[k - 1]);
            }
        }
    } else if s.len() > 0 {
        assert(s.subrange(0, 0) =~= Seq::<char>::empty());
    } else {
        assert(s.subrange(0, 0) =~= s);
    }
}

/// `s.split(c)`: the pieces between the copies of `c`.
pub open spec fn split_char(s: Seq<char>, c: char) -> Seq<Seq<char>>
    decreases s.len(),
{
    let head = before_first(s, c);
    if head.len() >= s.len() {
        seq![s]
    } else {
        seq![head] + split_char(s.subrange(head.len() + 1int, s.len() as int), c)
    }
}

/// What follows the last `c`.
pub fn after_last_chars(v: &[char], c: char) -> (r: Vec<char>)
    ensures
        r@ == after_last(v@, c),
{
    let mut j: usize = v.len();
    proof {
        assert(v@.subrange(0, v@.len() as int) =~= v@);
        assert(v@.subrange(v@.len() as int, v@.len() as int) =~= Seq::<char>::empty());
    }
    while j > 0 && v[j - 1] != c
        invariant
            0 <= j <= v@.len(),
            after_last(v@, c) == after_last(v@.subrange(0, j as int), c) + v@.subrange(
                j as int,
                v@.len() as int,
            ),
        decreases j,
    {
        proof {
            let w = v@.subrange(0, j as int);
            assert(w.drop_last() =~= v@.subrange(0, j - 1));
            assert(after_last(w, c) == after_last(w.drop_last(), c).push(w.last()));
            assert(after_last(w.drop_last(), c).push(w.last()) + v@.subrange(j as int, v@.len() as int)
                =~= after_last(v@.subrange(0, j - 1), c) + v@.subrange(j - 1, v@.len() as int));
        }
        j = j - 1;
    }
    proof {
        if j > 0 {
            assert(after_last(v@.subrange(0, j as int), c) =~= Seq::<char>::empty());
        }
        assert(after_last(v@, c) =~= v@.subrange(j as int, v@.len() as int));
    }
    slice_to_vec(v, j, v.len())
}

/// What precedes the first `c`.
pub fn before_first_chars(v: &[char], c: char) -> (r: Vec<char>)
    ensures
        r@ == before_first(v@, c),
{
    let mut i: usize = 0;
    while i < v.len() && v[i] != c
        invariant
            0 <= i <= v@.len(),
            forall|k: int| 0 <= k < i ==> v@[k] != c,
        decreases v@.len() - i,
    {
        i = i + 1;
    }
    proof {
        lemma_before_first(v@, c);
        let b = before_first(v@, c);
        if b.len() < i {
            assert(v@[b.len() as int] == c);
        } else if b.len() > i {
            assert(v@[i as int] == b[i as int]);
        }
        assert(b =~= v@.subrange(0, i as int));
    }
    slice_to_vec(v, 0, i)
}

/// `str::split` on one character.
pub fn split_chars(v: &[char], c: char) -> (r: Vec<Vec<char>>)
    ensures
        views(r@) == split_char(v@, c),
{
    let mut r: Vec<Vec<char>> = Vec::new();
    let mut start: usize = 0;
    let mut i: usize = 0;
    proof {
        assert(v@.subrange(0, v@.len() as int) =~= v@);
    }
    while i < v.len()
        invariant
            0 <= start <= i <= v@.len(),
            forall|k: int| start <= k < i ==> v@[k] != c,
            split_char(v@, c) == views(r@) + split_char(v@.subrange(start as int, v@.len() as int), c),
        decreases v@.len() - i,
    {
        if v[i] == c {
            let piece = slice_to_vec(v, start, i);
            proof {
                let rest = v@.subrange(start as int, v@.len() as int);
                lemma_before_first(rest, c);
                let b = before_first(rest, c);
                if b.len() < i - start {
                    assert(rest[b.len() as int] == v@[start + b.len()]);
                } else if b.len() > i - start {
                    assert(rest[i - start] == v@[i as int]);
                }
                assert(b =~= piece@);
                assert(rest.subrange(b.len() + 1int, rest.len() as int) =~= v@.subrange(
                    i + 1,
                    v@.len() as int,
                ));
                assert(views(r@.push(piece)) =~= views(r@).push(piece@));
                assert(views(r@) + split_char(rest, c) =~= views(r@.push(piece))
                    + split_char(v@.subrange(i + 1, v@.len() as int), c));
            }
            r.push(piece);
            start = i + 1;
        }
        i = i + 1;
    }
    let last = slice_to_vec(v, start, v.len());
    proof {
        let rest = v@.subrange(start as int, v@.len() as int);
        lemma_before_first(rest, c);
        let b = before_first(rest, c);
        if b.len() < rest.len() {
            assert(rest[b.len() as int] == v@[start + b.len()]);
        }
        assert(split_char(rest, c) == seq![rest]);
        assert(views(r@.push(last)) =~= views(r@) + seq![rest]);
    }
    r.push(last);
    r
}

} // verus!

verus! {

// ------------------------------------------------------------ equality and views

/// Exact string equality.
pub fn str_eq(a: &str, b: &str) -> (r: bool)
    ensures
        r == (a@ == b@),
{
    let va = chars_of(a);
    let vb = chars_of(b);
    if va.len() != vb.len() {
        return false;
    }
    let r = occurs_at_exec(va.as_slice(), vb.as_slice(), 0);
    proof {
        if r {
            assert(va@.subrange(0, vb@.len() as int) =~= va@);
        } else {
            if a@ == b@ {
                assert(va@.subrange(0, vb@.len() as int) =~= va@);
            }
        }
    }
    r
}

pub open spec fn opt_view(o: Option<String>) -> Option<Seq<char>> {
    match o {
        Some(s) => Some(s@),
        None => None,
    }
}

pub open spec fn opt_str_view(o: Option<&str>) -> Option<Seq<char>> {
    match o {
        Some(s) => Some(s@),
        None => None,
    }
}

} // verus!

verus! {

/// `s` with every `from` replaced by `to` (`str::replace` with one-character
/// patterns).
pub open spec fn replace_char(s: Seq<char>, from: char, to: char) -> Seq<char> {
    s.map_values(|c: char| if c == from { to } else { c })
}

pub fn replace_char_chars(v: &[char], from: char, to: char) -> (r: Vec<char>)
    ensures
        r@ == replace_char(v@, from, to),
{
    let mut r: Vec<char> = Vec::new();
    let mut i: usize = 0;
    while i < v.len()
        invariant
            0 <= i <= v@.len(),
            r@ == replace_char(v@.subrange(0, i as int), from, to),
        decreases v@.len() - i,
    {
        r.push(if v[i] == from {
            to
        } else {
            v[i]
        });
        i = i + 1;
        proof {
            assert(r@ =~= replace_char(v@.subrange(0, i as int), from, to));
        }
    }
    proof {
        assert(v@.subrange(0, v@.len() as int) =~= v@);
    }
    r
}

/// Whether `c` occurs in `v`.
pub fn has_char(v: &[char], c: char) -> (r: bool)
    ensures
        r == v@.contains(c),
{
    let mut i: usize = 0;
    while i < v.len()
        invariant
            0 <= i <= v@.len(),
            forall|k: int| 0 <= k < i ==> v@[k] != c,
        decreases v@.len() - i,
    {
        if v[i] == c {
            return true;
        }
        i = i + 1;
    }
    false
}

} // verus!
