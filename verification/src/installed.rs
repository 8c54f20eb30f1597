//! The uninstall suggestion.
//!
//! For a program nobody has opened in a long time the honest answer can be
//! stronger than "safe to turn off": it could be uninstalled. The bar is
//! deliberately high. A suggestion needs all of:
//!   1. the judge already says safe-to-disable;
//!   2. the entry's exe maps to exactly one installed program, by install
//!      location, and that location is not a shared root like Program Files;
//!   3. usage says long-unused: last opened 180+ days ago, or no record at
//!      all and the install is 180+ days old.
//! Anything less and Mganga says nothing.

use vstd::prelude::*;
use vstd::utf8::*;
use crate::judge::{humanize_days, humanized};
use crate::text::{decimal, 
    chars_of, has_char, is_prefix, lowercase, owned, push_decimal, push_str, replace_char,
    replace_char_chars, str_starts_with, string_from, to_lowercase, trim, trim_chars,
    trim_end_char, trim_end_char_chars, trim_start_char, trim_start_char_chars, trim_str,
};

verus! {

/// One entry of the registry's Uninstall keys: what Settings > Apps shows.
pub struct InstalledProgram {
    pub name: String,
    /// Registry path of the entry, e.g. `HKLM\Software\...\Uninstall\Foo`.
    pub key: String,
    /// Normalized (lowercase, no trailing separator). Empty when not recorded.
    pub install_location: String,
    pub size_kb: Option<u32>,
    /// Days since the recorded InstallDate. `None` when absent or unreadable.
    pub installed_days: Option<u32>,
}

/// What the UI renders on a qualifying entry.
#[derive(Clone)]
pub struct UninstallSuggestion {
    pub program: String,
    pub key: String,
    /// The honest one-liner, worded by what the evidence actually is.
    pub line: String,
}

// ------------------------------------------------------------ paths

/// A path normalized for comparison: trimmed, unquoted, backslashes only,
/// lowercase, no trailing separator.
pub open spec fn normalized(p: Seq<char>) -> Seq<char> {
    let unquoted = trim_end_char(trim_start_char(trim(p), '"'), '"');
    trim_end_char(lowercase(replace_char(unquoted, '/', '\\')), '\\')
}

pub fn normalize_path(p: &str) -> (r: String)
    ensures
        r@ == normalized(p@),
{
    let v = chars_of(p);
    let t = trim_chars(v.as_slice());
    let a = trim_start_char_chars(t.as_slice(), '"');
    let b = trim_end_char_chars(a.as_slice(), '"');
    let c = replace_char_chars(b.as_slice(), '/', '\\');
    let cs = string_from(c.as_slice());
    let lower = to_lowercase(cs.as_str());
    let lv = chars_of(lower.as_str());
    let d = trim_end_char_chars(lv.as_slice(), '\\');
    string_from(d.as_slice())
}

/// Locations that contain many programs rather than one: a bare drive (no
/// separator at all), or one of the shared roots of this machine (the
/// normalized Program Files, ProgramData, AppData, profile and Windows
/// folders, each with its `\Programs` child and its parent, as the caller
/// read them from the environment).
pub open spec fn shared_root(loc: Seq<char>, roots: Seq<String>) -> bool {
    !loc.contains('\\') || exists|k: int| 0 <= k < roots.len() && (#[trigger] roots[k])@ == loc
}

pub fn is_shared_root(loc: &str, roots: &[String]) -> (r: bool)
    ensures
        r == shared_root(loc@, roots@),
{
    let v = chars_of(loc);
    if !has_char(v.as_slice(), '\\') {
        return true;
    }
    let mut k: usize = 0;
    while k < roots.len()
        invariant
            0 <= k <= roots@.len(),
            forall|j: int| 0 <= j < k ==> (#[trigger] roots@[j])@ != loc@,
        decreases roots@.len() - k,
    {
        if crate::text::str_eq(roots[k].as_str(), loc) {
            return true;
        }
        k = k + 1;
    }
    false
}

/// The shared roots named by one environment folder: the folder itself, its
/// `\Programs` child and its parent (e.g. `C:\Users` above a profile), each
/// normalized.
pub open spec fn roots_of(root: Seq<char>) -> Seq<Seq<char>> {
    seq![
        normalized(root),
        normalized(root + "\\Programs"@),
        normalized(
            match crate::winpath::windows_parent(root) {
                Some(p) => p,
                None => Seq::empty(),
            },
        ),
    ]
}

pub open spec fn all_roots(env_roots: Seq<Seq<char>>) -> Seq<Seq<char>>
    decreases env_roots.len(),
{
    if env_roots.len() == 0 {
        Seq::empty()
    } else {
        all_roots(env_roots.drop_last()) + roots_of(env_roots.last())
    }
}

/// The shared roots of this machine from the folders its environment names
/// (Program Files, ProgramData, AppData, the profile, Windows, ...), in the
/// order given.
pub fn shared_roots(env_roots: &[String]) -> (r: Vec<String>)
    ensures
        crate::text::string_views(r@) == all_roots(crate::text::string_views(env_roots@)),
{
    let ghost ev = crate::text::string_views(env_roots@);
    let mut out: Vec<String> = Vec::new();
    let mut i: usize = 0;
    while i < env_roots.len()
        invariant
            0 <= i <= env_roots@.len(),
            ev == crate::text::string_views(env_roots@),
            crate::text::string_views(out@) == all_roots(ev.subrange(0, i as int)),
        decreases env_roots@.len() - i,
    {
        let root = env_roots[i].as_str();
        let a = normalize_path(root);
        let mut with_programs = owned(root);
        push_str(&mut with_programs, "\\Programs");
        let b = normalize_path(with_programs.as_str());
        let c = match crate::winpath::parent(root) {
            Some(p) => normalize_path(p.as_str()),
            None => {
                proof {
                    reveal_strlit("");
                    assert(""@ =~= Seq::<char>::empty());
                }
                normalize_path("")
            },
        };
        let ghost before = out@;
        out.push(a);
        out.push(b);
        out.push(c);
        proof {
            assert(ev.subrange(0, i + 1).drop_last() =~= ev.subrange(0, i as int));
            assert(ev.subrange(0, i + 1).last() == root@);
            assert(a@ == roots_of(root@)[0]);
            assert(b@ == roots_of(root@)[1]);
            assert(c@ == roots_of(root@)[2]);
            assert(out@ == before.push(a).push(b).push(c));
            assert(crate::text::string_views(out@) =~= crate::text::string_views(before) + roots_of(
                root@,
            ));
        }
        i = i + 1;
    }
    proof {
        assert(ev.subrange(0, env_roots@.len() as int) =~= ev);
    }
    out
}

// ------------------------------------------------------------ owner

/// Program `p` claims the normalized executable path `exe`: it records an
/// install location, that location is not shared, and the executable lies
/// inside it as a whole folder.
pub open spec fn claims(p: InstalledProgram, exe: Seq<char>, roots: Seq<String>) -> bool {
    p.install_location@.len() > 0 && !shared_root(p.install_location@, roots) && is_prefix(
        p.install_location@ + "\\"@,
        exe,
    )
}

/// The first claimant at index `i` or later.
pub open spec fn first_claim_from(
    programs: Seq<InstalledProgram>,
    i: int,
    exe: Seq<char>,
    roots: Seq<String>,
) -> Option<int>
    decreases programs.len() - i,
{
    if i < 0 || i >= programs.len() {
        None
    } else if claims(programs[i], exe, roots) {
        Some(i)
    } else {
        first_claim_from(programs, i + 1, exe, roots)
    }
}

pub proof fn lemma_first_claim_from(
    programs: Seq<InstalledProgram>,
    i: int,
    exe: Seq<char>,
    roots: Seq<String>,
)
    requires
        0 <= i,
    ensures
        first_claim_from(programs, i, exe, roots) matches Some(k) ==> i <= k < programs.len()
            && claims(programs[k], exe, roots),
        first_claim_from(programs, i, exe, roots) is None ==> forall|j: int|
            i <= j < programs.len() ==> !claims(#[trigger] programs[j], exe, roots),
    decreases programs.len() - i,
{
    if i < programs.len() && !claims(programs[i], exe, roots) {
        lemma_first_claim_from(programs, i + 1, exe, roots);
    }
}

/// The index of the one program that claims the executable, if exactly one
/// does. Zero claimants means unknown; two or more means a shared component,
/// and a shared component is never suggested.
pub open spec fn owner_index(
    programs: Seq<InstalledProgram>,
    exe: Seq<char>,
    roots: Seq<String>,
) -> Option<int> {
    let e = normalized(exe);
    match first_claim_from(programs, 0, e, roots) {
        Some(k) => if first_claim_from(programs, k + 1, e, roots) is None {
            Some(k)
        } else {
            None
        },
        None => None,
    }
}

fn claims_exec(p: &InstalledProgram, exe: &str, roots: &[String]) -> (r: bool)
    ensures
        r == claims(*p, exe@, roots@),
{
    if p.install_location.as_str().is_empty() || is_shared_root(p.install_location.as_str(), roots) {
        return false;
    }
    let mut prefix = owned(p.install_location.as_str());
    push_str(&mut prefix, "\\");
    str_starts_with(exe, prefix.as_str())
}

fn first_claim(programs: &[InstalledProgram], from: usize, exe: &str, roots: &[String]) -> (r:
    Option<usize>)
    ensures
        r matches Some(k) ==> first_claim_from(programs@, from as int, exe@, roots@) == Some(
            k as int,
        ) && k < programs@.len(),
        r is None ==> first_claim_from(programs@, from as int, exe@, roots@) is None,
{
    let mut i = from;
    if i > programs.len() {
        return None;
    }
    while i < programs.len()
        invariant
            from <= i <= programs@.len(),
            first_claim_from(programs@, from as int, exe@, roots@) == first_claim_from(
                programs@,
                i as int,
                exe@,
                roots@,
            ),
        decreases programs@.len() - i,
    {
        if claims_exec(&programs[i], exe, roots) {
            return Some(i);
        }
        i = i + 1;
    }
    None
}

/// A program is named the owner of an executable exactly when it is the one
/// program that claims it: its unshared install location holds the
/// executable as a whole folder, and no other program's does.
pub proof fn law_owner_is_the_only_claimant(
    programs: Seq<InstalledProgram>,
    exe: Seq<char>,
    roots: Seq<String>,
)
    ensures
        owner_index(programs, exe, roots) matches Some(k) ==> {
            &&& 0 <= k < programs.len()
            &&& claims(programs[k], normalized(exe), roots)
            &&& forall|j: int|
                0 <= j < programs.len() && j != k ==> !claims(
                    #[trigger] programs[j],
                    normalized(exe),
                    roots,
                )
        },
        owner_index(programs, exe, roots) is None ==> !(exists|k: int|
            0 <= k < programs.len() && claims(programs[k], normalized(exe), roots) && forall|
                j: int,
            |
                0 <= j < programs.len() && j != k ==> !claims(
                    #[trigger] programs[j],
                    normalized(exe),
                    roots,
                )),
{
    let e = normalized(exe);
    lemma_first_claim_from(programs, 0, e, roots);
    match first_claim_from(programs, 0, e, roots) {
        Some(k) => {
            lemma_first_claim_from(programs, k + 1, e, roots);
            match first_claim_from(programs, k + 1, e, roots) {
                Some(k2) => {
                    assert(claims(programs[k2], e, roots));
                    assert(claims(programs[k], e, roots));
                },
                None => {
                    assert forall|j: int| 0 <= j < programs.len() && j != k implies !claims(
                        #[trigger] programs[j],
                        e,
                        roots,
                    ) by {
                        if j < k {
                            // The first claimant is k, so nothing before it claims.
                            if claims(programs[j], e, roots) {
                                lemma_no_claim_before(programs, 0, k, j, e, roots);
                            }
                        }
                    }
                },
            }
        },
        None => {},
    }
}

proof fn lemma_no_claim_before(
    programs: Seq<InstalledProgram>,
    i: int,
    k: int,
    j: int,
    exe: Seq<char>,
    roots: Seq<String>,
)
    requires
        0 <= i <= j < k,
        first_claim_from(programs, i, exe, roots) == Some(k),
    ensures
        !claims(programs[j], exe, roots),
    decreases j - i,
{
    if i < j {
        lemma_no_claim_before(programs, i + 1, k, j, exe, roots);
    }
}

/// The one installed program whose install location contains this exe, if
/// there is exactly one.
pub fn owner<'a>(programs: &'a [InstalledProgram], exe: &str, roots: &[String]) -> (r: Option<
    &'a InstalledProgram,
>)
    ensures
        owner_index(programs@, exe@, roots@) matches Some(k) ==> r matches Some(p) && *p
            == programs@[k],
        owner_index(programs@, exe@, roots@) is None ==> r is None,
{
    let e = normalize_path(exe);
    let first = match first_claim(programs, 0, e.as_str(), roots) {
        Some(k) => k,
        None => {
            return None;
        },
    };
    let n: usize = programs.len();
    assert(first < n);
    if first_claim(programs, first + 1, e.as_str(), roots).is_some() {
        return None;
    }
    Some(&programs[first])
}

} // verus!

verus! {

// ------------------------------------------------------------ sizes

/// Tenths of a gigabyte in `kb` kilobytes, rounded to the nearest tenth with
/// ties to even: how `{:.1}` renders the exact value `kb / 1048576`.
pub open spec fn tenths_of_gb(kb: nat) -> nat {
    let t = kb * 10;
    let q = t / 1048576;
    let rem = t % 1048576;
    if rem > 524288 || (rem == 524288 && q % 2 == 1) {
        q + 1
    } else {
        q
    }
}

/// A size in kilobytes as a person reads it: one decimal in GB from 1 GB on,
/// whole MB from 1 MB on, whole KB below.
pub open spec fn size_text(kb: nat) -> Seq<char> {
    if kb >= 1048576 {
        let t = tenths_of_gb(kb);
        decimal(t / 10) + "."@ + decimal(t % 10) + " GB"@
    } else if kb >= 1024 {
        decimal(kb / 1024) + " MB"@
    } else {
        decimal(kb) + " KB"@
    }
}

pub fn format_size(kb: u32) -> (r: String)
    ensures
        r@ == size_text(kb as nat),
{
    let mut r = String::new();
    if kb >= 1048576 {
        let t: u64 = (kb as u64) * 10;
        let q = t / 1048576;
        let rem = t % 1048576;
        let tenths = if rem > 524288 || (rem == 524288 && q % 2 == 1) {
            q + 1
        } else {
            q
        };
        push_decimal(&mut r, tenths / 10);
        push_str(&mut r, ".");
        push_decimal(&mut r, tenths % 10);
        push_str(&mut r, " GB");
    } else if kb >= 1024 {
        push_decimal(&mut r, (kb / 1024) as u64);
        push_str(&mut r, " MB");
    } else {
        push_decimal(&mut r, kb as u64);
        push_str(&mut r, " KB");
    }
    proof {
        assert(r@ =~= size_text(kb as nat));
    }
    r
}

// ------------------------------------------------------------ the suggestion

/// The evidence sentence: proven when Windows recorded a last opening 180+
/// days ago; inferred, and worded so, when there is no record at all but the
/// install is 180+ days old; nothing otherwise.
pub open spec fn opening_line(last_opened_days: Option<u32>, installed_days: Option<u32>) -> Option<
    Seq<char>,
> {
    match last_opened_days {
        Some(days) => if days >= 180 {
            Some("Unused for about "@ + humanized(days as nat) + "."@)
        } else {
            None
        },
        None => match installed_days {
            Some(age) => if age >= 180 {
                Some(
                    "Installed about "@ + humanized(age as nat)
                        + " ago, with no record of you opening it."@,
                )
            } else {
                None
            },
            None => None,
        },
    }
}

/// The full line: the evidence, then the space it frees when the size is
/// known.
pub open spec fn suggestion_line(
    last_opened_days: Option<u32>,
    installed_days: Option<u32>,
    size_kb: Option<u32>,
) -> Option<Seq<char>> {
    match opening_line(last_opened_days, installed_days) {
        None => None,
        Some(o) => Some(
            match size_kb {
                Some(kb) => o + " Uninstalling frees about "@ + size_text(kb as nat) + "."@,
                None => o,
            },
        ),
    }
}

/// The suggestion for one autostart entry: (program name, registry key,
/// line), or nothing.
pub open spec fn suggestion(
    programs: Seq<InstalledProgram>,
    exe: Option<Seq<char>>,
    verdict: Seq<char>,
    last_opened_days: Option<u32>,
    roots: Seq<String>,
) -> Option<(Seq<char>, Seq<char>, Seq<char>)> {
    if verdict != "safe-to-disable"@ {
        None
    } else {
        match exe {
            None => None,
            Some(e) => match owner_index(programs, e, roots) {
                None => None,
                Some(k) => match suggestion_line(
                    last_opened_days,
                    programs[k].installed_days,
                    programs[k].size_kb,
                ) {
                    None => None,
                    Some(line) => Some((programs[k].name@, programs[k].key@, line)),
                },
            },
        }
    }
}

pub fn suggest(
    programs: &[InstalledProgram],
    exe: Option<&str>,
    verdict: &str,
    last_opened_days: Option<u32>,
    roots: &[String],
) -> (r: Option<UninstallSuggestion>)
    ensures
        r matches Some(s) ==> suggestion(
            programs@,
            crate::text::opt_str_view(exe),
            verdict@,
            last_opened_days,
            roots@,
        ) == Some((s.program@, s.key@, s.line@)),
        r is None ==> suggestion(
            programs@,
            crate::text::opt_str_view(exe),
            verdict@,
            last_opened_days,
            roots@,
        ) is None,
{
    if !crate::text::str_eq(verdict, "safe-to-disable") {
        return None;
    }
    let e = match exe {
        Some(e) => e,
        None => {
            return None;
        },
    };
    let program = match owner(programs, e, roots) {
        Some(p) => p,
        None => {
            return None;
        },
    };
    let mut line = String::new();
    match (last_opened_days, program.installed_days) {
        (Some(days), _) => {
            if days >= 180 {
                push_str(&mut line, "Unused for about ");
                let h = humanize_days(days);
                push_str(&mut line, h.as_str());
                push_str(&mut line, ".");
            } else {
                return None;
            }
        },
        (None, Some(age)) => {
            if age >= 180 {
                push_str(&mut line, "Installed about ");
                let h = humanize_days(age);
                push_str(&mut line, h.as_str());
                push_str(&mut line, " ago, with no record of you opening it.");
            } else {
                return None;
            }
        },
        (None, None) => {
            return None;
        },
    }
    let ghost opening = line@;
    match program.size_kb {
        Some(kb) => {
            push_str(&mut line, " Uninstalling frees about ");
            let s = format_size(kb);
            push_str(&mut line, s.as_str());
            push_str(&mut line, ".");
        },
        None => {},
    }
    proof {
        assert(opening_line(last_opened_days, program.installed_days) == Some(opening));
        assert(suggestion_line(last_opened_days, program.installed_days, program.size_kb) == Some(
            line@,
        ));
    }
    Some(UninstallSuggestion { program: program.name.clone(), key: program.key.clone(), line })
}

} // verus!

verus! {

// ------------------------------------------------------------ install dates

pub open spec fn is_ascii_digit(c: char) -> bool {
    '0' <= c <= '9'
}

/// The value of a run of decimal digits.
pub open spec fn digits_value(s: Seq<char>) -> int
    decreases s.len(),
{
    if s.len() == 0 {
        0
    } else {
        digits_value(s.drop_last()) * 10 + (s.last() as int - 48)
    }
}

/// Days from 1970-01-01 to the given proleptic Gregorian date (Howard
/// Hinnant's `days_from_civil`).
pub open spec fn days_from_civil(y: int, m: int, d: int) -> int {
    let y = if m <= 2 {
        y - 1
    } else {
        y
    };
    let era = (if y >= 0 {
        y
    } else {
        y - 399
    }) / 400;
    let yoe = y - era * 400;
    let mp = (m + 9) % 12;
    let doy = (153 * mp + 2) / 5 + d - 1;
    let doe = yoe * 365 + yoe / 4 - yoe / 100 + doy;
    era * 146097 + doe - 719468
}

/// A registry InstallDate ("YYYYMMDD", surrounding whitespace ignored) as
/// days since the Unix epoch; nothing for anything else, or for a month
/// outside 1..=12 or a day outside 1..=31.
pub open spec fn install_date_days(s: Seq<char>) -> Option<int> {
    let t = trim(s);
    if t.len() != 8 || !(forall|i: int| 0 <= i < 8 ==> is_ascii_digit(#[trigger] t[i])) {
        None
    } else {
        let y = digits_value(t.subrange(0, 4));
        let m = digits_value(t.subrange(4, 6));
        let d = digits_value(t.subrange(6, 8));
        if !(1 <= m <= 12) || !(1 <= d <= 31) {
            None
        } else {
            Some(days_from_civil(y, m, d))
        }
    }
}

proof fn lemma_digits_value_bound(s: Seq<char>)
    requires
        forall|i: int| 0 <= i < s.len() ==> is_ascii_digit(#[trigger] s[i]),
    ensures
        0 <= digits_value(s) < pow10(s.len()),
    decreases s.len(),
{
    if s.len() > 0 {
        lemma_digits_value_bound(s.drop_last());
        let v = digits_value(s.drop_last());
        let p = pow10((s.len() - 1) as nat);
        let d = s.last() as int - 48;
        assert(0 <= d < 10);
        assert(0 <= v * 10 + d < p * 10) by (nonlinear_arith)
            requires
                0 <= v < p,
                0 <= d < 10,
        ;
    }
}

fn digits_exec(v: &[char], from: usize, to: usize) -> (r: i64)
    requires
        from <= to <= v@.len(),
        to - from <= 4,
        forall|i: int| from <= i < to ==> is_ascii_digit(#[trigger] v@[i]),
    ensures
        r == digits_value(v@.subrange(from as int, to as int)),
        0 <= r < pow10((to - from) as nat),
{
    let mut r: i64 = 0;
    proof {
        reveal_with_fuel(pow10, 5);
    }
    let mut i = from;
    while i < to
        invariant
            from <= i <= to <= v@.len(),
            to - from <= 4,
            forall|k: int| from <= k < to ==> is_ascii_digit(#[trigger] v@[k]),
            r == digits_value(v@.subrange(from as int, i as int)),
            0 <= r < pow10((i - from) as nat),
            pow10(4) == 10000,
        decreases to - i,
    {
        proof {
            assert(v@.subrange(from as int, i + 1).drop_last() =~= v@.subrange(from as int, i as int));
            assert(is_ascii_digit(v@[i as int]));
            let p = pow10((i - from) as nat);
            assert(pow10((i + 1 - from) as nat) == 10 * p);
            assert(p <= 1000) by {
                reveal_with_fuel(pow10, 5);
            }
            let d = v@[i as int] as int - 48;
            assert(0 <= r * 10 + d < p * 10) by (nonlinear_arith)
                requires
                    0 <= r < p,
                    0 <= d < 10,
            ;
        }
        let c = v[i] as u32;
        r = r * 10 + ((c - 48) as i64);
        i = i + 1;
    }
    r
}

pub open spec fn pow10(n: nat) -> int
    decreases n,
{
    if n == 0 {
        1
    } else {
        10 * pow10((n - 1) as nat)
    }
}

/// Registry InstallDate is "YYYYMMDD". Returns days since the Unix epoch.
pub fn parse_install_date(s: &str) -> (r: Option<i64>)
    ensures
        r matches Some(d) ==> install_date_days(s@) == Some(d as int),
        r is None ==> install_date_days(s@) is None,
{
    let v = chars_of(s);
    let t = trim_chars(v.as_slice());
    if t.len() != 8 {
        return None;
    }
    let mut i: usize = 0;
    while i < 8
        invariant
            0 <= i <= 8,
            t@.len() == 8,
            t@ == trim(s@),
            forall|k: int| 0 <= k < i ==> is_ascii_digit(#[trigger] t@[k]),
        decreases 8 - i,
    {
        if !('0' <= t[i] && t[i] <= '9') {
            proof {
                assert(t@ == trim(s@));
                assert(!is_ascii_digit(trim(s@)[i as int]));
            }
            return None;
        }
        i = i + 1;
    }
    proof {
        reveal_with_fuel(pow10, 5);
    }
    let y = digits_exec(t.as_slice(), 0, 4);
    let m = digits_exec(t.as_slice(), 4, 6);
    let d = digits_exec(t.as_slice(), 6, 8);
    if !(1 <= m && m <= 12) || !(1 <= d && d <= 31) {
        return None;
    }
    let yy = if m <= 2 {
        y - 1
    } else {
        y
    };
    let era: i64 = if yy >= 0 {
        yy / 400
    } else {
        -1
    };
    let yoe = yy - era * 400;
    let mp = (m + 9) % 12;
    let doy = (153 * mp + 2) / 5 + d - 1;
    let doe = yoe * 365 + yoe / 4 - yoe / 100 + doy;
    let r = era * 146_097 + doe - 719_468;
    proof {
        assert(yy >= -1);
        if yy < 0 {
            assert(yy - 399 == -400);
            assert((yy - 399) / 400 == -1);
        }
    }
    Some(r)
}

} // verus!

verus! {

// ------------------------------------------------------------ scanning helpers

/// Days since the Unix epoch for a reading of the clock; zero when the
/// clock read earlier than the epoch.
pub open spec fn epoch_days_of(nanos: Option<u128>) -> i64 {
    match nanos {
        Some(n) => (((n / 1_000_000_000) as u64) / 86_400) as i64,
        None => 0,
    }
}

pub fn epoch_days_from_nanos(nanos: Option<u128>) -> (r: i64)
    ensures
        r == epoch_days_of(nanos),
{
    match nanos {
        Some(n) => (((n / 1_000_000_000) as u64) / 86_400) as i64,
        None => 0,
    }
}

/// Days since the Unix epoch, now.
pub fn days_since_epoch_now() -> (r: i64)
    ensures
        exists|nanos: Option<u128>| r == epoch_days_of(nanos),
{
    epoch_days_from_nanos(crate::clock::unix_time_nanos())
}

/// The age of an install in days, from its InstallDate and today's day
/// number: nothing when the date does not parse or the difference does not
/// fit an `i64`; otherwise the difference cut to 32 bits (`as u32`).
pub open spec fn installed_days_of(date: Seq<char>, today: i64) -> Option<u32> {
    match install_date_days(date) {
        Some(d) => if i64::MIN <= today - d <= i64::MAX {
            Some((today - d) as u32)
        } else {
            None
        },
        None => None,
    }
}

pub fn installed_days(date: &str, today: i64) -> (r: Option<u32>)
    ensures
        r == installed_days_of(date@, today),
{
    match parse_install_date(date) {
        Some(d) => match today.checked_sub(d) {
            Some(x) => Some(x as u32),
            None => None,
        },
        None => None,
    }
}

/// One Uninstall subkey as a program, from the values read from it: skipped
/// (nothing) when Windows hides it (SystemComponent 1) or it lacks a display
/// name or an uninstall command; otherwise the trimmed name, the registry
/// path `label\path\sub`, the normalized location, the size when positive,
/// and the install age.
pub fn program_from_values(
    label: &str,
    path: &str,
    sub: &str,
    system_component: u32,
    display_name: &str,
    uninstall_string: &str,
    install_location: &str,
    estimated_size: Option<u32>,
    install_date: &str,
    today: i64,
) -> (r: Option<InstalledProgram>)
    ensures
        (system_component == 1 || trim(display_name@).len() == 0 || trim(uninstall_string@).len()
            == 0) <==> r is None,
        r matches Some(p) ==> {
            &&& p.name@ == trim(display_name@)
            &&& p.key@ == label@ + "\\"@ + path@ + "\\"@ + sub@
            &&& p.install_location@ == normalized(install_location@)
            &&& p.size_kb == (match estimated_size {
                Some(s) => if s > 0 {
                    Some(s)
                } else {
                    None
                },
                None => None,
            })
            &&& p.installed_days == installed_days_of(install_date@, today)
        },
{
    let name = trim_str(display_name);
    let uninstall = trim_str(uninstall_string);
    if system_component == 1 || name.as_str().is_empty() || uninstall.as_str().is_empty() {
        return None;
    }
    let mut key = owned(label);
    push_str(&mut key, "\\");
    push_str(&mut key, path);
    push_str(&mut key, "\\");
    push_str(&mut key, sub);
    let size_kb = match estimated_size {
        Some(s) => if s > 0 {
            Some(s)
        } else {
            None
        },
        None => None,
    };
    Some(
        InstalledProgram {
            name,
            key,
            install_location: normalize_path(install_location),
            size_kb,
            installed_days: installed_days(install_date, today),
        },
    )
}

} // verus!

verus! {

// ------------------------------------------------------------ uninstall commands

/// The UTF-8 bytes of the lowercase form of `s`.
pub open spec fn lower_bytes(s: Seq<char>) -> Seq<u8> {
    encode_utf8(lowercase(s))
}

/// Where a bare command's program ends: just past the first ".exe" found in
/// the lowercase form, as a byte offset.
pub open spec fn exe_cut(c: Seq<char>) -> Option<int> {
    match crate::text::first_occurrence(lower_bytes(c), encode_utf8(".exe"@)) {
        Some(i) => Some(i + 4),
        None => None,
    }
}

/// An UninstallString split into the program and its arguments: a quoted
/// path ends at the closing quote; a bare path ends at ".exe".
pub open spec fn split_command_result(command: Seq<char>) -> (Seq<char>, Seq<char>) {
    let c = trim(command);
    if c.len() > 0 && c[0] == '"' {
        let rest = c.drop_first();
        let head = crate::text::before_first(rest, '"');
        if head.len() < rest.len() {
            (head, trim(rest.subrange(head.len() + 1int, rest.len() as int)))
        } else {
            (rest, Seq::empty())
        }
    } else {
        match exe_cut(c) {
            Some(k) => (
                decode_utf8(encode_utf8(c).subrange(0, k)),
                trim(decode_utf8(encode_utf8(c).subrange(k, encode_utf8(c).len() as int))),
            ),
            None => (c, Seq::empty()),
        }
    }
}

/// The offset found in the lowercase form is used to slice the command itself;
/// where lowercasing changed a character's byte length before it, the offset
/// can fall inside a character, and slicing there panics.
pub open spec fn split_command_panics(command: Seq<char>) -> bool {
    let c = trim(command);
    !(c.len() > 0 && c[0] == '"') && (exe_cut(c) matches Some(k) && !is_char_boundary(
        encode_utf8(c),
        k,
    ))
}

proof fn lemma_exe_pattern_len()
    ensures
        encode_utf8(".exe"@).len() == 4,
{
    reveal_strlit(".exe");
    is_ascii_chars_encode_utf8(".exe"@);
}

proof fn lemma_msi_pattern_len()
    ensures
        encode_utf8("msiexec.exe /i"@).len() == 14,
{
    reveal_strlit("msiexec.exe /i");
    is_ascii_chars_encode_utf8("msiexec.exe /i"@);
}

/// A bare command split just past its first ".exe".
#[verifier::rlimit(40)]
fn split_bare(c: &str) -> (r: (String, String))
    requires
        exe_cut(c@) matches Some(k) ==> is_char_boundary(encode_utf8(c@), k),
    ensures
        (r.0@, r.1@) == (match exe_cut(c@) {
            Some(k) => (
                decode_utf8(encode_utf8(c@).subrange(0, k)),
                trim(decode_utf8(encode_utf8(c@).subrange(k, encode_utf8(c@).len() as int))),
            ),
            None => (c@, Seq::empty()),
        }),
{
    let lower = to_lowercase(c);
    let pat = ".exe".as_bytes();
    proof {
        lemma_exe_pattern_len();
    }
    let lb = lower.as_str().as_bytes();
    match crate::text::find_bytes(lb, pat) {
        Some(i) => {
            let ghost cb = encode_utf8(c@);
            assert(exe_cut(c@) == Some(i + 4int));
            let n: usize = lb.len();
            assert(i + 4 <= n);
            let (a, b) = c.split_at(i + 4);
            proof {
                encode_utf8_decode_utf8(a@);
                encode_utf8_decode_utf8(b@);
                assert(a@ == decode_utf8(cb.subrange(0, i + 4)));
                assert(b@ == decode_utf8(cb.subrange(i + 4, cb.len() as int)));
            }
            let t = trim_str(b);
            (owned(a), t)
        },
        None => (owned(c), String::new()),
    }
}

/// The program of a bare command: everything up to just past its first
/// ".exe" (found in the lowercase form); none when there is no ".exe".
pub(crate) fn cut_after_exe(c: &str) -> (r: Option<String>)
    requires
        exe_cut(c@) matches Some(k) ==> is_char_boundary(encode_utf8(c@), k),
    ensures
        match exe_cut(c@) {
            Some(k) => r matches Some(p) && p@ == decode_utf8(encode_utf8(c@).subrange(0, k)),
            None => r is None,
        },
{
    let lower = to_lowercase(c);
    let pat = ".exe".as_bytes();
    proof {
        lemma_exe_pattern_len();
    }
    let lb = lower.as_str().as_bytes();
    match crate::text::find_bytes(lb, pat) {
        Some(i) => {
            assert(exe_cut(c@) == Some(i + 4int));
            let n: usize = lb.len();
            assert(i + 4 <= n);
            let (a, _b) = c.split_at(i + 4);
            proof {
                encode_utf8_decode_utf8(a@);
            }
            Some(owned(a))
        },
        None => None,
    }
}

/// Whether cutting a bare command after its ".exe" would land inside a
/// character.
pub(crate) fn exe_cut_inside_char(c: &str) -> (r: bool)
    ensures
        r == (exe_cut(c@) matches Some(k) && !is_char_boundary(encode_utf8(c@), k)),
{
    let lower = to_lowercase(c);
    let pat = ".exe".as_bytes();
    proof {
        lemma_exe_pattern_len();
    }
    let lb = lower.as_str().as_bytes();
    match crate::text::find_bytes(lb, pat) {
        Some(i) => {
            let n: usize = lb.len();
            assert(i + 4 <= n);
            !c.is_char_boundary(i + 4)
        },
        None => false,
    }
}

/// Whether `split_command` would panic on `command`.
pub fn split_command_would_panic(command: &str) -> (r: bool)
    ensures
        r == split_command_panics(command@),
{
    let c = trim_str(command);
    let cv = chars_of(c.as_str());
    if cv.len() > 0 && cv[0] == '"' {
        return false;
    }
    exe_cut_inside_char(c.as_str())
}

pub fn split_command(command: &str) -> (r: (String, String))
    requires
        !split_command_panics(command@),
    ensures
        (r.0@, r.1@) == split_command_result(command@),
{
    let c = trim_str(command);
    let cv = chars_of(c.as_str());
    if cv.len() > 0 && cv[0] == '"' {
        let rest = crate::text::slice_to_vec(cv.as_slice(), 1, cv.len());
        proof {
            assert(rest@ =~= cv@.drop_first());
        }
        let head = crate::text::before_first_chars(rest.as_slice(), '"');
        if head.len() < rest.len() {
            let tail = crate::text::slice_to_vec(rest.as_slice(), head.len() + 1, rest.len());
            let t = trim_chars(tail.as_slice());
            return (string_from(head.as_slice()), string_from(t.as_slice()));
        }
        return (string_from(rest.as_slice()), String::new());
    }
    split_bare(c.as_str())
}

/// `split_command`, or none where it would slice through a character.
pub fn try_split_command(command: &str) -> (r: Option<(String, String)>)
    ensures
        r is None <==> split_command_panics(command@),
        r matches Some(p) ==> (p.0@, p.1@) == split_command_result(command@),
{
    if split_command_would_panic(command) {
        None
    } else {
        Some(split_command(command))
    }
}

/// Where the MSI maintenance verb sits: the first "msiexec.exe /i" in the
/// lowercase form, as a byte offset.
pub open spec fn msi_cut(command: Seq<char>) -> Option<int> {
    crate::text::first_occurrence(lower_bytes(command), encode_utf8("msiexec.exe /i"@))
}

/// MSI entries register the maintenance verb (`/I`); `/X` is uninstall,
/// which is what Settings > Apps runs. The two bytes of the verb are
/// replaced only when lowercasing kept every byte in place (equal byte
/// lengths); anything else passes through untouched.
pub open spec fn msi_verb_result(command: Seq<char>) -> Seq<char> {
    let cb = encode_utf8(command);
    match msi_cut(command) {
        Some(i) => if lower_bytes(command).len() == cb.len() {
            decode_utf8(cb.subrange(0, i + 12)) + "/X"@ + decode_utf8(
                cb.subrange(i + 14, cb.len() as int),
            )
        } else {
            command
        },
        None => command,
    }
}

/// Equal byte lengths do not guarantee that every character kept its
/// place; replacing bytes that do not start and end on character
/// boundaries panics.
pub open spec fn msi_verb_panics(command: Seq<char>) -> bool {
    let cb = encode_utf8(command);
    msi_cut(command) matches Some(i) && lower_bytes(command).len() == cb.len() && !(
    is_char_boundary(cb, i + 12) && is_char_boundary(cb, i + 14))
}

fn splice_verb(command: &str, i: usize) -> (r: String)
    requires
        i + 14 <= encode_utf8(command@).len(),
        is_char_boundary(encode_utf8(command@), i + 12),
        is_char_boundary(encode_utf8(command@), i + 14),
    ensures
        r@ == decode_utf8(encode_utf8(command@).subrange(0, i + 12)) + "/X"@ + decode_utf8(
            encode_utf8(command@).subrange(i + 14, encode_utf8(command@).len() as int),
        ),
{
    let n = command.as_bytes().len();
    let (a, _) = command.split_at(i + 12);
    let (_, b) = command.split_at(i + 14);
    let mut fixed = owned(a);
    push_str(&mut fixed, "/X");
    push_str(&mut fixed, b);
    proof {
        encode_utf8_decode_utf8(a@);
        encode_utf8_decode_utf8(b@);
    }
    fixed
}

/// Whether `msi_uninstall_verb` would panic on `command`.
#[verifier::rlimit(40)]
pub fn msi_verb_would_panic(command: &str) -> (r: bool)
    ensures
        r == msi_verb_panics(command@),
{
    let lower = to_lowercase(command);
    let pat = "msiexec.exe /i".as_bytes();
    proof {
        lemma_msi_pattern_len();
    }
    let lb = lower.as_str().as_bytes();
    match crate::text::find_bytes(lb, pat) {
        Some(i) => {
            if lb.len() == command.as_bytes().len() {
                let n: usize = lb.len();
                assert(i + 14 <= n);
                assert(msi_cut(command@) == Some(i as int));
                !(command.is_char_boundary(i + 12) && command.is_char_boundary(i + 14))
            } else {
                false
            }
        },
        None => false,
    }
}

pub fn msi_uninstall_verb(command: &str) -> (r: String)
    requires
        !msi_verb_panics(command@),
    ensures
        r@ == msi_verb_result(command@),
{
    let lower = to_lowercase(command);
    let pat = "msiexec.exe /i".as_bytes();
    proof {
        lemma_msi_pattern_len();
    }
    let lb = lower.as_str().as_bytes();
    match crate::text::find_bytes(lb, pat) {
        Some(i) => {
            if lb.len() == command.as_bytes().len() {
                splice_verb(command, i)
            } else {
                owned(command)
            }
        },
        None => owned(command),
    }
}

/// The program and arguments to run for an UninstallString: an MSI
/// maintenance command is turned into an uninstall first. An empty command
/// means there is no uninstaller.
pub open spec fn uninstall_plan(command: Seq<char>) -> Result<(Seq<char>, Seq<char>), Seq<char>> {
    if trim(command).len() == 0 {
        Err("that program has no uninstaller registered"@)
    } else {
        Ok(split_command_result(msi_verb_result(command)))
    }
}

pub fn uninstall_command(command: &str) -> (r: Result<(String, String), String>)
    requires
        !msi_verb_panics(command@),
        !split_command_panics(msi_verb_result(command@)),
    ensures
        match uninstall_plan(command@) {
            Ok((exe, args)) => r matches Ok((e, a)) && e@ == exe && a@ == args,
            Err(m) => r matches Err(e) && e@ == m,
        },
{
    let t = trim_str(command);
    if t.as_str().is_empty() {
        return Err(owned("that program has no uninstaller registered"));
    }
    let fixed = msi_uninstall_verb(command);
    Ok(split_command(fixed.as_str()))
}

/// `msi_uninstall_verb`, or none where it would slice through a character.
pub fn try_msi_uninstall_verb(command: &str) -> (r: Option<String>)
    ensures
        r is None <==> msi_verb_panics(command@),
        r matches Some(c) ==> c@ == msi_verb_result(command@),
{
    if msi_verb_would_panic(command) {
        None
    } else {
        Some(msi_uninstall_verb(command))
    }
}

/// `uninstall_command`, or none where rewriting or splitting the command
/// would slice through a character.
pub fn try_uninstall_command(command: &str) -> (r: Option<Result<(String, String), String>>)
    ensures
        r is None <==> (msi_verb_panics(command@) || split_command_panics(msi_verb_result(command@))),
        r matches Some(res) ==> match uninstall_plan(command@) {
            Ok((exe, args)) => res matches Ok((e, a)) && e@ == exe && a@ == args,
            Err(m) => res matches Err(e) && e@ == m,
        },
{
    match try_msi_uninstall_verb(command) {
        None => None,
        Some(fixed) => if split_command_would_panic(fixed.as_str()) {
            None
        } else {
            Some(uninstall_command(command))
        },
    }
}

// ------------------------------------------------------------ uninstall keys

/// The registry hive of an Uninstall entry.
#[derive(Clone, Copy, PartialEq, Eq, Debug)]
pub enum Hive {
    LocalMachine,
    CurrentUser,
}

/// The three Uninstall roots, as the labelled prefix a key string starts
/// with, and their hives.
pub open spec fn uninstall_prefix(k: int) -> Seq<char> {
    if k == 0 {
        "HKLM\\Software\\Microsoft\\Windows\\CurrentVersion\\Uninstall\\"@
    } else if k == 1 {
        "HKLM\\Software\\WOW6432Node\\Microsoft\\Windows\\CurrentVersion\\Uninstall\\"@
    } else {
        "HKCU\\Software\\Microsoft\\Windows\\CurrentVersion\\Uninstall\\"@
    }
}

/// A key string Mganga listed: directly under one of the Uninstall roots,
/// one level deep. The result is the hive and the path within it (the key
/// without its "HKLM\" or "HKCU\" label).
pub open spec fn parsed_key(key: Seq<char>) -> Option<(Hive, Seq<char>)> {
    if accepts_under(key, 0) {
        Some((Hive::LocalMachine, key.subrange(5, key.len() as int)))
    } else if accepts_under(key, 1) {
        Some((Hive::LocalMachine, key.subrange(5, key.len() as int)))
    } else if accepts_under(key, 2) {
        Some((Hive::CurrentUser, key.subrange(5, key.len() as int)))
    } else {
        None
    }
}

/// `key` is `uninstall_prefix(k)` followed by a non-empty name without a
/// backslash.
pub open spec fn accepts_under(key: Seq<char>, k: int) -> bool {
    let p = uninstall_prefix(k);
    is_prefix(p, key) && key.len() > p.len() && !key.subrange(p.len() as int, key.len() as int).contains(
        '\\',
    )
}

fn accepts_under_exec(key: &str, prefix: &str) -> (r: bool)
    ensures
        r == (is_prefix(prefix@, key@) && key@.len() > prefix@.len() && !key@.subrange(
            prefix@.len() as int,
            key@.len() as int,
        ).contains('\\')),
{
    if !str_starts_with(key, prefix) {
        return false;
    }
    let kv = chars_of(key);
    let pv = chars_of(prefix);
    if kv.len() <= pv.len() {
        return false;
    }
    let sub = crate::text::slice_to_vec(kv.as_slice(), pv.len(), kv.len());
    !has_char(sub.as_slice(), '\\')
}

/// Only keys directly under the three Uninstall roots are accepted, and
/// only one level deep, so a key string can never point anywhere else.
pub fn parse_key(key: &str) -> (r: Option<(Hive, String)>)
    ensures
        r matches Some(x) ==> parsed_key(key@) == Some((x.0, x.1@)),
        r is None ==> parsed_key(key@) is None,
{
    let hit = if accepts_under_exec(
        key,
        "HKLM\\Software\\Microsoft\\Windows\\CurrentVersion\\Uninstall\\",
    ) {
        Some(Hive::LocalMachine)
    } else if accepts_under_exec(
        key,
        "HKLM\\Software\\WOW6432Node\\Microsoft\\Windows\\CurrentVersion\\Uninstall\\",
    ) {
        Some(Hive::LocalMachine)
    } else if accepts_under_exec(
        key,
        "HKCU\\Software\\Microsoft\\Windows\\CurrentVersion\\Uninstall\\",
    ) {
        Some(Hive::CurrentUser)
    } else {
        None
    };
    match hit {
        Some(h) => {
            let kv = chars_of(key);
            proof {
                reveal_strlit("HKLM\\Software\\Microsoft\\Windows\\CurrentVersion\\Uninstall\\");
                reveal_strlit(
                    "HKLM\\Software\\WOW6432Node\\Microsoft\\Windows\\CurrentVersion\\Uninstall\\",
                );
                reveal_strlit("HKCU\\Software\\Microsoft\\Windows\\CurrentVersion\\Uninstall\\");
            }
            let path = crate::text::slice_to_vec(kv.as_slice(), 5, kv.len());
            Some((h, string_from(path.as_slice())))
        },
        None => None,
    }
}

} // verus!

verus! {

// ------------------------------------------------------------ laws of suggestions and dates

/// Uninstalling is only ever suggested for an autostart entry judged
/// "safe-to-disable"; never for one to keep, a protected one, or one left
/// to the user's call.
pub proof fn law_suggest_only_safe_to_disable(
    programs: Seq<InstalledProgram>,
    exe: Option<Seq<char>>,
    verdict: Seq<char>,
    last_opened_days: Option<u32>,
    roots: Seq<String>,
)
    requires
        verdict != "safe-to-disable"@,
    ensures
        suggestion(programs, exe, verdict, last_opened_days, roots) is None,
{
}

/// Whether `y` is a leap year of the Gregorian calendar.
pub open spec fn is_leap_year(y: int) -> bool {
    y % 4 == 0 && (y % 100 != 0 || y % 400 == 0)
}

/// The number of days in month `m` (1..=12) of year `y`.
pub open spec fn month_length(y: int, m: int) -> int {
    if m == 2 {
        if is_leap_year(y) {
            29
        } else {
            28
        }
    } else if m == 4 || m == 6 || m == 9 || m == 11 {
        30
    } else {
        31
    }
}

/// The day number of the first of March of year `y`, counted in eras of
/// 400 years (the years that begin in March).
#[verifier::opaque]
spec fn march_start(y: int) -> int {
    let era = (if y >= 0 {
        y
    } else {
        y - 399
    }) / 400;
    let yoe = y - era * 400;
    era * 146097 + yoe * 365 + yoe / 4 - yoe / 100
}

proof fn lemma_days_from_march(y: int, m: int, d: int)
    requires
        1 <= m <= 12,
    ensures
        days_from_civil(y, m, d) == march_start(if m <= 2 {
            y - 1
        } else {
            y
        }) + (153 * ((m + 9) % 12) + 2) / 5 + d - 1 - 719468,
{
    reveal(march_start);
}

/// A year that begins in March of `y` has 366 days exactly when the
/// February it ends with is a leap February.
proof fn lemma_march_year_length(y: int)
    requires
        y >= -1,
    ensures
        march_start(y + 1) - march_start(y) == if is_leap_year(y + 1) {
            366
        } else {
            365int
        },
{
    reveal(march_start);
    let era = (if y >= 0 {
        y
    } else {
        y - 399
    }) / 400;
    let yoe = y - era * 400;
    let era1 = (y + 1) / 400;
    let yoe1 = y + 1 - era1 * 400;
    assert(0 <= yoe < 400);
    assert(y == era * 400 + yoe);
    if yoe < 399 {
        assert(era1 == era);
        assert(yoe1 == yoe + 1);
        assert((y + 1) % 4 == (yoe + 1) % 4);
        assert((y + 1) % 100 == (yoe + 1) % 100);
        assert((y + 1) % 400 == yoe + 1);
    } else {
        assert(era1 == era + 1);
        assert(yoe1 == 0);
        assert((y + 1) % 400 == 0);
    }
}

proof fn lemma_day_step(y: int, m: int, d: int)
    requires
        1 <= m <= 12,
    ensures
        days_from_civil(y, m, d + 1) == days_from_civil(y, m, d) + 1,
{
    lemma_days_from_march(y, m, d);
    lemma_days_from_march(y, m, d + 1);
}

proof fn lemma_year_step(y: int)
    requires
        y >= 0,
    ensures
        days_from_civil(y + 1, 1, 1) == days_from_civil(y, 1, 1) + if is_leap_year(y) {
            366int
        } else {
            365int
        },
{
    lemma_days_from_march(y, 1, 1);
    lemma_days_from_march(y + 1, 1, 1);
    lemma_march_year_length(y - 1);
}

proof fn lemma_month_step(y: int, m: int)
    requires
        y >= 0,
        1 <= m < 12,
    ensures
        days_from_civil(y, m + 1, 1) == days_from_civil(y, m, 1) + month_length(y, m),
{
    lemma_days_from_march(y, m, 1);
    lemma_days_from_march(y, m + 1, 1);
    if m == 2 {
        lemma_march_year_length(y - 1);
    }
}

/// The day numbers agree with the calendar: 1970-01-01 is day zero, the
/// next day is the next number, the first of the next month comes as many
/// days later as the month is long, and the first of January of the next
/// year comes 365 days later, 366 after a leap year.
pub proof fn law_day_numbers_follow_the_calendar(y: int, m: int, d: int)
    requires
        y >= 0,
        1 <= m <= 12,
    ensures
        days_from_civil(1970, 1, 1) == 0,
        days_from_civil(y, m, d + 1) == days_from_civil(y, m, d) + 1,
        m < 12 ==> days_from_civil(y, m + 1, 1) == days_from_civil(y, m, 1) + month_length(y, m),
        days_from_civil(y + 1, 1, 1) == days_from_civil(y, 1, 1) + if is_leap_year(y) {
            366int
        } else {
            365int
        },
{
    assert(days_from_civil(1970, 1, 1) == 0);
    lemma_day_step(y, m, d);
    lemma_year_step(y);
    if m < 12 {
        lemma_month_step(y, m);
    }
}

} // verus!
