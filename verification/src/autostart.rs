//! The autostart inventory's data and the rules that shape it: the on/off
//! state stored in StartupApproved, the switch each entry offers, the logon
//! tasks read from `schtasks` output, and the order in which entries are
//! shown.

use vstd::prelude::*;
use crate::guard::{approved_folder_path, is_protected_autostart, protected_autostart};
use vstd::utf8::*;
use crate::installed::{cut_after_exe, exe_cut, exe_cut_inside_char};
use crate::text::{
    ascii_fold, before_first, before_first_chars, chars_of, eq_ignore_ascii_case, is_prefix,
    opt_view, owned, push_str, slice_to_vec, str_starts_with, string_from, trim_start_pat,
    trim_start_pat_chars,
};
use crate::winpath::{is_absolute, joined};
use crate::judge::{exe_name_exec, exe_name_of, judge, judged, Rule};
use crate::sorting::{key_views, stable_sort_by_keys, stably_sorted_by};
use crate::usage::{Usage, UsageMap};
use crate::text::{
    after_last, after_last_chars, has_infix, lowercase, str_contains, str_eq, string_views,
    to_lowercase, trim, trim_str,
};

verus! {

/// Where the on/off switch of an entry lives.
#[derive(Clone)]
pub struct ToggleInfo {
    /// "HKCU" (written directly) or "HKLM" (written by the broker).
    pub hive: String,
    pub approved_path: String,
    pub value_name: String,
}

/// One thing that starts with Windows.
#[derive(Clone)]
pub struct AutostartEntry {
    pub name: String,
    /// Human label of the kind of place it starts from.
    pub source: String,
    /// The exact key, folder, task path, or service name.
    pub source_detail: String,
    pub command: String,
    pub publisher: Option<String>,
    pub enabled: bool,
    /// "user" or "machine"
    pub scope: String,
    /// "run" | "folder" | "task" | "service"
    pub kind: String,
    /// "safe-to-disable" | "keep" | "your-call" | "protected"
    pub verdict: String,
    /// The plain-language why behind the verdict.
    pub reason: String,
    pub category: Option<String>,
    /// Deliberate-use evidence: how often the user opened the app, and how
    /// many days ago the last time was. `None` when Windows has no record.
    pub open_count: Option<u32>,
    pub last_opened_days: Option<u32>,
    /// The on/off switch, when the entry has one.
    pub toggle: Option<ToggleInfo>,
}

impl Default for AutostartEntry {
    fn default() -> (r: Self)
        ensures
            r.name@.len() == 0,
            r.source@.len() == 0,
            r.source_detail@.len() == 0,
            r.command@.len() == 0,
            r.publisher is None,
            !r.enabled,
            r.scope@.len() == 0,
            r.kind@.len() == 0,
            r.verdict@.len() == 0,
            r.reason@.len() == 0,
            r.category is None,
            r.open_count is None,
            r.last_opened_days is None,
            r.toggle is None,
    {
        AutostartEntry {
            name: String::new(),
            source: String::new(),
            source_detail: String::new(),
            command: String::new(),
            publisher: None,
            enabled: false,
            scope: String::new(),
            kind: String::new(),
            verdict: String::new(),
            reason: String::new(),
            category: None,
            open_count: None,
            last_opened_days: None,
            toggle: None,
        }
    }
}

// ------------------------------------------------------------ on/off state

/// The true state from StartupApproved: a missing value means enabled; a
/// first byte that is even (0x02) means enabled, odd (0x03) disabled.
pub open spec fn approved_enabled(raw: Option<Seq<u8>>) -> bool {
    match raw {
        None => true,
        Some(b) => b.len() == 0 || b[0] % 2 == 0,
    }
}

pub fn approved_state(raw: Option<&[u8]>) -> (r: bool)
    ensures
        r == approved_enabled(crate::actions::slice_view(raw)),
{
    match raw {
        None => true,
        Some(b) => b.len() == 0 || b[0] % 2 == 0,
    }
}

pub open spec fn hive_label(user: bool) -> Seq<char> {
    if user {
        "HKCU"@
    } else {
        "HKLM"@
    }
}

fn hive_label_exec(user: bool) -> (r: String)
    ensures
        r@ == hive_label(user),
{
    if user {
        owned("HKCU")
    } else {
        owned("HKLM")
    }
}

/// The switch offered for a StartupApproved value: none for a name the guard
/// would refuse anyway.
pub fn toggle_for(user: bool, approved_path: &str, value_name: &str) -> (r: Option<ToggleInfo>)
    ensures
        protected_autostart(value_name@) ==> r is None,
        !protected_autostart(value_name@) ==> (r matches Some(t) && t.hive@ == hive_label(user)
            && t.approved_path@ == approved_path@ && t.value_name@ == value_name@),
        crate::text::all_ascii(value_name@) ==> lowercase(value_name@) == ascii_fold(value_name@),
{
    if is_protected_autostart(value_name) {
        None
    } else {
        Some(
            ToggleInfo {
                hive: hive_label_exec(user),
                approved_path: owned(approved_path),
                value_name: owned(value_name),
            },
        )
    }
}

// ------------------------------------------------------------ Run keys

/// One Run or RunOnce key that is scanned: its hive, its path, the
/// StartupApproved key that holds its on/off state (RunOnce has none), its
/// scope and its label.
pub struct RunSource {
    pub user: bool,
    pub path: String,
    pub approved_path: Option<String>,
    pub scope: String,
    pub label: String,
}

pub open spec fn run_path() -> Seq<char> {
    "Software\\Microsoft\\Windows\\CurrentVersion\\Run"@
}

pub open spec fn run_once_path() -> Seq<char> {
    "Software\\Microsoft\\Windows\\CurrentVersion\\RunOnce"@
}

pub open spec fn run32_path() -> Seq<char> {
    "Software\\WOW6432Node\\Microsoft\\Windows\\CurrentVersion\\Run"@
}

pub open spec fn run_once32_path() -> Seq<char> {
    "Software\\WOW6432Node\\Microsoft\\Windows\\CurrentVersion\\RunOnce"@
}

/// The six Run and RunOnce keys, in scan order.
pub open spec fn run_source(i: int) -> (bool, Seq<char>, Option<Seq<char>>, Seq<char>, Seq<char>) {
    if i == 0 {
        (true, run_path(), Some(crate::guard::approved_run_path()), "user"@, "Run key (user)"@)
    } else if i == 1 {
        (true, run_once_path(), None, "user"@, "RunOnce key (user)"@)
    } else if i == 2 {
        (false, run_path(), Some(crate::guard::approved_run_path()), "machine"@, "Run key (machine)"@)
    } else if i == 3 {
        (false, run_once_path(), None, "machine"@, "RunOnce key (machine)"@)
    } else if i == 4 {
        (
            false,
            run32_path(),
            Some(crate::guard::approved_run32_path()),
            "machine"@,
            "Run key (machine, 32-bit)"@,
        )
    } else {
        (false, run_once32_path(), None, "machine"@, "RunOnce key (machine, 32-bit)"@)
    }
}

pub open spec fn run_source_view(s: RunSource) -> (
    bool,
    Seq<char>,
    Option<Seq<char>>,
    Seq<char>,
    Seq<char>,
) {
    (s.user, s.path@, opt_view(s.approved_path), s.scope@, s.label@)
}

fn make_source(user: bool, path: &str, approved: Option<&str>, scope: &str, label: &str) -> (r:
    RunSource)
    ensures
        run_source_view(r) == (user, path@, crate::actions::str_view(approved), scope@, label@),
{
    RunSource {
        user,
        path: owned(path),
        approved_path: match approved {
            Some(a) => Some(owned(a)),
            None => None,
        },
        scope: owned(scope),
        label: owned(label),
    }
}

pub fn run_sources() -> (r: Vec<RunSource>)
    ensures
        r@.len() == 6,
        forall|i: int| 0 <= i < 6 ==> run_source_view(#[trigger] r@[i]) == run_source(i),
{
    let run = "Software\\Microsoft\\Windows\\CurrentVersion\\Run";
    let run_once = "Software\\Microsoft\\Windows\\CurrentVersion\\RunOnce";
    let run32 = "Software\\WOW6432Node\\Microsoft\\Windows\\CurrentVersion\\Run";
    let run_once32 = "Software\\WOW6432Node\\Microsoft\\Windows\\CurrentVersion\\RunOnce";
    let approved_run = "Software\\Microsoft\\Windows\\CurrentVersion\\Explorer\\StartupApproved\\Run";
    let approved_run32 =
        "Software\\Microsoft\\Windows\\CurrentVersion\\Explorer\\StartupApproved\\Run32";
    let mut r: Vec<RunSource> = Vec::new();
    r.push(make_source(true, run, Some(approved_run), "user", "Run key (user)"));
    r.push(make_source(true, run_once, None, "user", "RunOnce key (user)"));
    r.push(make_source(false, run, Some(approved_run), "machine", "Run key (machine)"));
    r.push(make_source(false, run_once, None, "machine", "RunOnce key (machine)"));
    r.push(make_source(false, run32, Some(approved_run32), "machine", "Run key (machine, 32-bit)"));
    r.push(
        make_source(false, run_once32, None, "machine", "RunOnce key (machine, 32-bit)"),
    );
    proof {
        assert forall|i: int| 0 <= i < 6 implies run_source_view(#[trigger] r@[i]) == run_source(
            i,
        ) by {
            if i == 0 {
            } else if i == 1 {
            } else if i == 2 {
            } else if i == 3 {
            } else if i == 4 {
            } else {
            }
        }
    }
    r
}

/// The entry for one value of a Run key; none for the unnamed default
/// value. Entries under a key with a StartupApproved twin take their state
/// from it and offer a switch (unless the guard protects the name); RunOnce
/// entries are always enabled and have no switch.
pub fn run_entry(
    source: &RunSource,
    name: String,
    command: String,
    approved_raw: Option<&[u8]>,
    publisher: Option<String>,
) -> (r: Option<AutostartEntry>)
    ensures
        name@.len() == 0 <==> r is None,
        r matches Some(e) ==> {
            &&& e.name@ == name@
            &&& e.source@ == source.label@
            &&& e.source_detail@ == hive_label(source.user) + "\\"@ + source.path@
            &&& e.command@ == command@
            &&& opt_view(e.publisher) == opt_view(publisher)
            &&& e.enabled == (match source.approved_path {
                Some(_) => approved_enabled(crate::actions::slice_view(approved_raw)),
                None => true,
            })
            &&& (match source.approved_path {
                Some(a) => if protected_autostart(name@) {
                    e.toggle is None
                } else {
                    e.toggle matches Some(t) && t.hive@ == hive_label(source.user)
                        && t.approved_path@ == a@ && t.value_name@ == name@
                },
                None => e.toggle is None,
            })
            &&& e.scope@ == source.scope@
            &&& e.kind@ == "run"@
            &&& e.verdict@.len() == 0 && e.reason@.len() == 0
            &&& e.category is None && e.open_count is None && e.last_opened_days is None
        },
{
    if name.as_str().is_empty() {
        return None;
    }
    let (enabled, toggle) = match &source.approved_path {
        Some(a) => (approved_state(approved_raw), toggle_for(source.user, a.as_str(), name.as_str())),
        None => (true, None),
    };
    let mut detail = hive_label_exec(source.user);
    push_str(&mut detail, "\\");
    push_str(&mut detail, source.path.as_str());
    Some(
        AutostartEntry {
            name,
            source: owned(source.label.as_str()),
            source_detail: detail,
            command,
            publisher,
            enabled,
            scope: owned(source.scope.as_str()),
            kind: owned("run"),
            verdict: String::new(),
            reason: String::new(),
            category: None,
            open_count: None,
            last_opened_days: None,
            toggle,
        },
    )
}

// ------------------------------------------------------------ Startup folders

/// The entry for one file in a Startup folder; none for `desktop.ini`. Its
/// state lives under the StartupFolder key of StartupApproved, by file name.
pub fn folder_entry(
    user: bool,
    dir: &str,
    path: &str,
    file_name: &str,
    stem: Option<String>,
    approved_raw: Option<&[u8]>,
) -> (r: Option<AutostartEntry>)
    ensures
        ascii_fold(file_name@) == ascii_fold("desktop.ini"@) <==> r is None,
        r matches Some(e) ==> {
            &&& e.name@ == (match stem {
                Some(s) => s@,
                None => file_name@,
            })
            &&& e.source@ == (if user {
                "Startup folder (user)"@
            } else {
                "Startup folder (all users)"@
            })
            &&& e.source_detail@ == dir@
            &&& e.command@ == path@
            &&& e.publisher is None
            &&& e.enabled == approved_enabled(crate::actions::slice_view(approved_raw))
            &&& (if protected_autostart(file_name@) {
                e.toggle is None
            } else {
                e.toggle matches Some(t) && t.hive@ == hive_label(user) && t.approved_path@
                    == approved_folder_path() && t.value_name@ == file_name@
            })
            &&& e.scope@ == (if user {
                "user"@
            } else {
                "machine"@
            })
            &&& e.kind@ == "folder"@
            &&& e.verdict@.len() == 0 && e.reason@.len() == 0
            &&& e.category is None && e.open_count is None && e.last_opened_days is None
        },
{
    if eq_ignore_ascii_case(file_name, "desktop.ini") {
        return None;
    }
    let name = match stem {
        Some(s) => s,
        None => owned(file_name),
    };
    let toggle = toggle_for(
        user,
        "Software\\Microsoft\\Windows\\CurrentVersion\\Explorer\\StartupApproved\\StartupFolder",
        file_name,
    );
    Some(
        AutostartEntry {
            name,
            source: if user {
                owned("Startup folder (user)")
            } else {
                owned("Startup folder (all users)")
            },
            source_detail: owned(dir),
            command: owned(path),
            publisher: None,
            enabled: approved_state(approved_raw),
            scope: if user {
                owned("user")
            } else {
                owned("machine")
            },
            kind: owned("folder"),
            verdict: String::new(),
            reason: String::new(),
            category: None,
            open_count: None,
            last_opened_days: None,
            toggle,
        },
    )
}

// ------------------------------------------------------------ services

/// The entry for one service key: only services that start automatically
/// (Start == 2, missing read as 99) and are real Win32 services (Type & 0x30,
/// missing read as 0) count. DelayedAutostart == 1 marks a delayed start. A
/// DisplayName that is empty or a resource reference ("@...") gives way to
/// the key name.
pub fn service_entry(
    key_name: &str,
    start: Option<u32>,
    service_type: Option<u32>,
    delayed: Option<u32>,
    display: Option<String>,
    image_path: Option<String>,
    publisher: Option<String>,
) -> (r: Option<AutostartEntry>)
    ensures
        r is Some <==> (match start {
            Some(v) => v,
            None => 99,
        }) == 2 && (match service_type {
            Some(v) => v,
            None => 0,
        }) & 0x30 != 0,
        r matches Some(e) ==> {
            &&& e.name@ == (match display {
                Some(d) => if d@.len() == 0 || d@[0] == '@' {
                    key_name@
                } else {
                    d@
                },
                None => key_name@,
            })
            &&& e.source@ == (if delayed == Some(1u32) {
                "Service (automatic, delayed)"@
            } else {
                "Service (automatic)"@
            })
            &&& e.source_detail@ == "HKLM\\SYSTEM\\CurrentControlSet\\Services\\"@ + key_name@
            &&& e.command@ == (match image_path {
                Some(c) => c@,
                None => Seq::empty(),
            })
            &&& opt_view(e.publisher) == opt_view(publisher)
            &&& e.enabled
            &&& e.scope@ == "machine"@
            &&& e.kind@ == "service"@
            &&& e.toggle is None
            &&& e.verdict@.len() == 0 && e.reason@.len() == 0
            &&& e.category is None && e.open_count is None && e.last_opened_days is None
        },
{
    let start_v: u32 = match start {
        Some(v) => v,
        None => 99,
    };
    if start_v != 2 {
        return None;
    }
    let type_v: u32 = match service_type {
        Some(v) => v,
        None => 0,
    };
    if type_v & 0x30 == 0 {
        return None;
    }
    let name = match display {
        Some(d) => {
            let resource = str_starts_with(d.as_str(), "@");
            proof {
                reveal_strlit("@");
                if d@.len() > 0 {
                    assert(resource == (d@[0] == '@')) by {
                        if d@[0] == '@' {
                            assert(d@.subrange(0, 1) =~= "@"@);
                        } else {
                            assert(d@.subrange(0, 1)[0] != "@"@[0]);
                        }
                    }
                }
            }
            if d.as_str().is_empty() || resource {
                owned(key_name)
            } else {
                d
            }
        },
        None => owned(key_name),
    };
    let is_delayed = match delayed {
        Some(v) => v == 1,
        None => false,
    };
    let mut detail = owned("HKLM\\SYSTEM\\CurrentControlSet\\Services\\");
    push_str(&mut detail, key_name);
    Some(
        AutostartEntry {
            name,
            source: if is_delayed {
                owned("Service (automatic, delayed)")
            } else {
                owned("Service (automatic)")
            },
            source_detail: detail,
            command: match image_path {
                Some(c) => c,
                None => String::new(),
            },
            publisher,
            enabled: true,
            scope: owned("machine"),
            kind: owned("service"),
            verdict: String::new(),
            reason: String::new(),
            category: None,
            open_count: None,
            last_opened_days: None,
            toggle: None,
        },
    )
}

// ------------------------------------------------------------ executables

/// A command after environment expansion, with any NT `\??\` prefixes
/// dropped and a leading `\SystemRoot` replaced by the Windows folder.
pub open spec fn exe_candidate(expanded: Seq<char>, system_root: Seq<char>) -> Seq<char> {
    let c0 = trim_start_pat(expanded, "\\??\\"@);
    if is_prefix("\\SystemRoot"@, c0) {
        system_root + c0.subrange("\\SystemRoot"@.len() as int, c0.len() as int)
    } else {
        c0
    }
}

/// The executable a command runs: a quoted path up to its closing quote, or
/// a bare path up to just past its first ".exe". A relative path (a bare
/// service path such as "system32\foo.exe") is taken under the Windows
/// folder. `expanded` is the trimmed command with its `%VAR%` references
/// expanded; `system_root` is the Windows folder.
pub open spec fn extracted_exe(command: Seq<char>, expanded: Seq<char>, system_root: Seq<char>) -> Option<
    Seq<char>,
> {
    if command.len() == 0 {
        None
    } else {
        let c = exe_candidate(expanded, system_root);
        let path = if c.len() > 0 && c[0] == '"' {
            Some(before_first(c.drop_first(), '"'))
        } else {
            match exe_cut(c) {
                Some(k) => Some(decode_utf8(encode_utf8(c).subrange(0, k))),
                None => None,
            }
        };
        match path {
            Some(p) => if is_absolute(p) {
                Some(p)
            } else {
                Some(joined(system_root, p))
            },
            None => None,
        }
    }
}

/// The ".exe" is found in the lowercase form and the command itself is cut at that
/// byte offset; where lowercasing changed a character's byte length before
/// it, the cut falls inside a character and slicing there panics.
pub open spec fn extract_exe_panics(command: Seq<char>, expanded: Seq<char>, system_root: Seq<char>) -> bool {
    let c = exe_candidate(expanded, system_root);
    &&& command.len() > 0
    &&& !(c.len() > 0 && c[0] == '"')
    &&& exe_cut(c) matches Some(k) && !is_char_boundary(encode_utf8(c), k)
}

fn candidate(expanded: &str, system_root: &str) -> (r: String)
    ensures
        r@ == exe_candidate(expanded@, system_root@),
{
    let ev = chars_of(expanded);
    let pat = chars_of("\\??\\");
    let c0 = trim_start_pat_chars(ev.as_slice(), pat.as_slice());
    let c0s = string_from(c0.as_slice());
    if str_starts_with(c0s.as_str(), "\\SystemRoot") {
        let sr = chars_of("\\SystemRoot");
        let rest = slice_to_vec(c0.as_slice(), sr.len(), c0.len());
        let mut t = owned(system_root);
        let rs = string_from(rest.as_slice());
        push_str(&mut t, rs.as_str());
        t
    } else {
        c0s
    }
}

/// Whether `extract_exe` would panic on these arguments.
pub fn extract_exe_would_panic(command: &str, expanded: &str, system_root: &str) -> (r: bool)
    ensures
        r == extract_exe_panics(command@, expanded@, system_root@),
{
    if command.is_empty() {
        return false;
    }
    let c = candidate(expanded, system_root);
    let cv = chars_of(c.as_str());
    if cv.len() > 0 && cv[0] == '"' {
        return false;
    }
    exe_cut_inside_char(c.as_str())
}

/// Pull the executable path out of a command line.
pub fn extract_exe(command: &str, expanded: &str, system_root: &str) -> (r: Option<String>)
    requires
        !extract_exe_panics(command@, expanded@, system_root@),
    ensures
        opt_view(r) == extracted_exe(command@, expanded@, system_root@),
{
    if command.is_empty() {
        return None;
    }
    let c = candidate(expanded, system_root);
    let cv = chars_of(c.as_str());
    let path: String = if cv.len() > 0 && cv[0] == '"' {
        let rest = slice_to_vec(cv.as_slice(), 1, cv.len());
        proof {
            assert(rest@ =~= cv@.drop_first());
        }
        let head = before_first_chars(rest.as_slice(), '"');
        string_from(head.as_slice())
    } else {
        match cut_after_exe(c.as_str()) {
            Some(p) => p,
            None => {
                return None;
            },
        }
    };
    if crate::winpath::is_relative(path.as_str()) {
        Some(crate::winpath::join(system_root, path.as_str()))
    } else {
        Some(path)
    }
}

/// `extract_exe`, or none where it would slice through a character.
pub fn try_extract_exe(command: &str, expanded: &str, system_root: &str) -> (r: Option<Option<String>>)
    ensures
        r is None <==> extract_exe_panics(command@, expanded@, system_root@),
        r matches Some(o) ==> opt_view(o) == extracted_exe(command@, expanded@, system_root@),
{
    if extract_exe_would_panic(command, expanded, system_root) {
        None
    } else {
        Some(extract_exe(command, expanded, system_root))
    }
}

// ------------------------------------------------------------ scheduled tasks

/// What the `csv` crate reads from CSV text with flexible record lengths: the
/// header row (none when it cannot be read), then each later record, or none
/// for a record that could not be read. The reader's result depends on the
/// bytes alone.
pub uninterp spec fn csv_table(bytes: Seq<u8>) -> Option<
    (Seq<Seq<char>>, Seq<Option<Seq<Seq<char>>>>),
>;

pub open spec fn record_view(r: Option<Vec<String>>) -> Option<Seq<Seq<char>>> {
    match r {
        Some(v) => Some(string_views(v@)),
        None => None,
    }
}

pub open spec fn records_view(rs: Seq<Option<Vec<String>>>) -> Seq<Option<Seq<Seq<char>>>> {
    rs.map_values(|r: Option<Vec<String>>| record_view(r))
}

pub open spec fn table_view(t: Option<(Vec<String>, Vec<Option<Vec<String>>>)>) -> Option<
    (Seq<Seq<char>>, Seq<Option<Seq<Seq<char>>>>),
> {
    match t {
        Some((h, rs)) => Some((string_views(h@), records_view(rs@))),
        None => None,
    }
}

/// `csv::ReaderBuilder::new().flexible(true).from_reader(bytes)`: its
/// `headers()` and then every item of its `records()`, fields as strings.
/// The contract names the result; it claims nothing about CSV parsing.
#[verifier::external_body]
fn read_csv(bytes: &[u8]) -> (r: Option<(Vec<String>, Vec<Option<Vec<String>>>)>)
    ensures
        table_view(r) == csv_table(bytes@),
{
    let mut reader = csv::ReaderBuilder::new().flexible(true).from_reader(bytes);
    let headers: Vec<String> = match reader.headers() {
        Ok(h) => h.iter().map(|f| f.to_string()).collect(),
        Err(_) => return None,
    };
    let records = reader.records().map(|r| r.ok().map(|rec| rec.iter().map(|f| f.to_string()).collect())).collect();
    Some((headers, records))
}

/// The first column whose header is `want`, searching from `from`.
pub open spec fn column_from(headers: Seq<Seq<char>>, want: Seq<char>, from: int) -> Option<int>
    decreases headers.len() - from,
{
    if from < 0 || from >= headers.len() {
        None
    } else if headers[from] == want {
        Some(from)
    } else {
        column_from(headers, want, from + 1)
    }
}

fn column(headers: &[String], want: &str) -> (r: Option<usize>)
    ensures
        match r {
            Some(i) => column_from(string_views(headers@), want@, 0) == Some(i as int),
            None => column_from(string_views(headers@), want@, 0) is None,
        },
{
    let ghost hs = string_views(headers@);
    let mut i: usize = 0;
    while i < headers.len()
        invariant
            0 <= i <= headers@.len(),
            hs == string_views(headers@),
            column_from(hs, want@, 0) == column_from(hs, want@, i as int),
        decreases headers@.len() - i,
    {
        if str_eq(headers[i].as_str(), want) {
            return Some(i);
        }
        i = i + 1;
    }
    None
}

/// A record's field, empty when the record is too short.
pub open spec fn field(rec: Seq<Seq<char>>, c: int) -> Seq<char> {
    if 0 <= c < rec.len() {
        rec[c]
    } else {
        Seq::empty()
    }
}

/// A task that starts at logon: its full path, what it runs and its state.
pub struct TaskRow {
    pub task_name: String,
    pub command: String,
    pub state: String,
}

pub open spec fn task_row_view(t: TaskRow) -> (Seq<char>, Seq<char>, Seq<char>) {
    (t.task_name@, t.command@, t.state@)
}

/// The logon task a record describes: none for a row without a task name,
/// a repeated header row, or a schedule that is not a logon trigger.
pub open spec fn task_row(cols: (int, int, int, int), rec: Seq<Seq<char>>) -> Option<
    (Seq<char>, Seq<char>, Seq<char>),
> {
    let name = field(rec, cols.0);
    if name.len() == 0 || name == "TaskName"@ {
        None
    } else if !has_infix(lowercase(field(rec, cols.2)), "logon"@) {
        None
    } else {
        Some((name, trim(field(rec, cols.1)), field(rec, cols.3)))
    }
}

pub open spec fn rows_from(cols: (int, int, int, int), records: Seq<Option<Seq<Seq<char>>>>) -> Seq<
    (Seq<char>, Seq<char>, Seq<char>),
>
    decreases records.len(),
{
    if records.len() == 0 {
        Seq::empty()
    } else {
        let prev = rows_from(cols, records.drop_last());
        match records.last() {
            Some(rec) => match task_row(cols, rec) {
                Some(t) => prev.push(t),
                None => prev,
            },
            None => prev,
        }
    }
}

/// The logon tasks in a `schtasks /query /v /fo CSV` table: none unless the
/// four needed columns are all present.
pub open spec fn logon_rows_of(headers: Seq<Seq<char>>, records: Seq<Option<Seq<Seq<char>>>>) -> Seq<
    (Seq<char>, Seq<char>, Seq<char>),
> {
    match (
        column_from(headers, "TaskName"@, 0),
        column_from(headers, "Task To Run"@, 0),
        column_from(headers, "Schedule Type"@, 0),
        column_from(headers, "Scheduled Task State"@, 0),
    ) {
        (Some(a), Some(b), Some(c), Some(d)) => rows_from((a, b, c, d), records),
        _ => Seq::empty(),
    }
}

fn field_of(rec: &Vec<String>, c: usize) -> (r: &str)
    ensures
        r@ == field(string_views(rec@), c as int),
{
    if c < rec.len() {
        rec[c].as_str()
    } else {
        proof {
            reveal_strlit("");
        }
        ""
    }
}

pub fn logon_rows(headers: &[String], records: &[Option<Vec<String>>]) -> (r: Vec<TaskRow>)
    ensures
        r@.map_values(|t: TaskRow| task_row_view(t)) == logon_rows_of(
            string_views(headers@),
            records_view(records@),
        ),
{
    let mut out: Vec<TaskRow> = Vec::new();
    let cn = column(headers, "TaskName");
    let cr = column(headers, "Task To Run");
    let ct = column(headers, "Schedule Type");
    let cs = column(headers, "Scheduled Task State");
    let (c_name, c_run, c_type, c_state) = match (cn, cr, ct, cs) {
        (Some(a), Some(b), Some(c), Some(d)) => (a, b, c, d),
        _ => {
            proof {
                assert(out@.map_values(|t: TaskRow| task_row_view(t)) =~= Seq::empty());
            }
            return out;
        },
    };
    let ghost cols = (c_name as int, c_run as int, c_type as int, c_state as int);
    let ghost rv = records_view(records@);
    let mut i: usize = 0;
    while i < records.len()
        invariant
            0 <= i <= records@.len(),
            rv == records_view(records@),
            cols == (c_name as int, c_run as int, c_type as int, c_state as int),
            out@.map_values(|t: TaskRow| task_row_view(t)) == rows_from(cols, rv.subrange(0, i as int)),
        decreases records@.len() - i,
    {
        proof {
            assert(rv.subrange(0, i + 1).drop_last() =~= rv.subrange(0, i as int));
            assert(rv.subrange(0, i + 1).last() == rv[i as int]);
            assert(rv[i as int] == record_view(records@[i as int]));
        }
        match &records[i] {
            Some(rec) => {
                let name = field_of(rec, c_name);
                let schedule = to_lowercase(field_of(rec, c_type));
                proof {
                    reveal_strlit("TaskName");
                }
                if !name.is_empty() && !str_eq(name, "TaskName") && str_contains(
                    schedule.as_str(),
                    "logon",
                ) {
                    let row = TaskRow {
                        task_name: owned(name),
                        command: trim_str(field_of(rec, c_run)),
                        state: owned(field_of(rec, c_state)),
                    };
                    proof {
                        assert(task_row(cols, string_views(rec@)) == Some(task_row_view(row)));
                    }
                    out.push(row);
                    proof {
                        assert(out@.map_values(|t: TaskRow| task_row_view(t)) =~= rows_from(
                            cols,
                            rv.subrange(0, i as int),
                        ).push(task_row_view(row)));
                    }
                } else {
                    proof {
                        assert(task_row(cols, string_views(rec@)) is None);
                    }
                }
            },
            None => {},
        }
        i = i + 1;
    }
    proof {
        assert(rv.subrange(0, records@.len() as int) =~= rv);
    }
    out
}

/// The logon tasks in `schtasks /query /v /fo CSV` output; none when the
/// header row cannot be read.
pub fn logon_tasks(output: &[u8]) -> (r: Vec<TaskRow>)
    ensures
        r@.map_values(|t: TaskRow| task_row_view(t)) == match csv_table(output@) {
            Some((h, rs)) => logon_rows_of(h, rs),
            None => Seq::empty(),
        },
{
    match read_csv(output) {
        Some((headers, records)) => logon_rows(headers.as_slice(), records.as_slice()),
        None => {
            let out: Vec<TaskRow> = Vec::new();
            proof {
                assert(out@.map_values(|t: TaskRow| task_row_view(t)) =~= Seq::empty());
            }
            out
        },
    }
}

/// The entry for one logon task: named by the last part of its path, enabled
/// when its state reads "Enabled" in any case.
pub fn task_entry(row: TaskRow, publisher: Option<String>) -> (r: AutostartEntry)
    ensures
        r.name@ == after_last(row.task_name@, '\\'),
        r.source@ == "Scheduled task (at logon)"@,
        r.source_detail@ == row.task_name@,
        r.command@ == row.command@,
        opt_view(r.publisher) == opt_view(publisher),
        r.enabled == (ascii_fold(row.state@) == ascii_fold("Enabled"@)),
        r.scope@ == "machine"@,
        r.kind@ == "task"@,
        r.toggle is None,
        r.verdict@.len() == 0 && r.reason@.len() == 0,
        r.category is None && r.open_count is None && r.last_opened_days is None,
{
    let tv = chars_of(row.task_name.as_str());
    let name = after_last_chars(tv.as_slice(), '\\');
    AutostartEntry {
        name: string_from(name.as_slice()),
        source: owned("Scheduled task (at logon)"),
        source_detail: row.task_name,
        command: row.command,
        publisher,
        enabled: eq_ignore_ascii_case(row.state.as_str(), "Enabled"),
        scope: owned("machine"),
        kind: owned("task"),
        verdict: String::new(),
        reason: String::new(),
        category: None,
        open_count: None,
        last_opened_days: None,
        toggle: None,
    }
}

// ------------------------------------------------------------ usage and verdicts

/// The UserAssist key of an entry: a Startup-folder item by its lowercase
/// name (the shortcut's stem), everything else by its executable's lowercase
/// file name.
pub open spec fn usage_key_for(e: AutostartEntry, exe: Option<Seq<char>>) -> Seq<char> {
    if e.kind@ == "folder"@ {
        lowercase(e.name@)
    } else {
        exe_name_of(exe)
    }
}

/// The evidence UserAssist holds for a key, if any.
pub open spec fn usage_at(m: Map<Seq<char>, Usage>, k: Seq<char>) -> Option<Usage> {
    if m.contains_key(k) {
        Some(m[k])
    } else {
        None
    }
}

/// An entry with its usage evidence filled in. Windows often leaves the run
/// counter at 0 while the last-run time updates, so a zero count is no claim;
/// the time is taken as it is.
pub open spec fn with_evidence(e: AutostartEntry, u: Option<Usage>) -> AutostartEntry {
    match u {
        Some(u) => AutostartEntry {
            open_count: if u.run_count > 0 {
                Some(u.run_count)
            } else {
                None
            },
            last_opened_days: u.last_run_days,
            ..e
        },
        None => e,
    }
}

/// What scanning makes of one entry: its usage evidence, then its verdict,
/// reason and category.
pub open spec fn annotated(
    before: AutostartEntry,
    after: AutostartEntry,
    exe: Option<Seq<char>>,
    usage: Map<Seq<char>, Usage>,
    rules: Seq<Rule>,
) -> bool {
    let e = with_evidence(before, usage_at(usage, usage_key_for(before, exe)));
    &&& after.name == e.name
    &&& after.source == e.source
    &&& after.source_detail == e.source_detail
    &&& after.command == e.command
    &&& after.publisher == e.publisher
    &&& after.enabled == e.enabled
    &&& after.scope == e.scope
    &&& after.kind == e.kind
    &&& after.open_count == e.open_count
    &&& after.last_opened_days == e.last_opened_days
    &&& after.toggle == e.toggle
    &&& (after.verdict@, after.reason@, opt_view(after.category)) == judged(e, exe, None, rules)
}

/// Give one entry its usage evidence and its verdict.
pub fn annotate(entry: &mut AutostartEntry, exe: Option<&str>, usage: &UsageMap, rules: &[Rule])
    requires
        usage.wf(),
    ensures
        annotated(*old(entry), *final(entry), crate::text::opt_str_view(exe), usage.view(), rules@),
{
    let key = if str_eq(entry.kind.as_str(), "folder") {
        to_lowercase(entry.name.as_str())
    } else {
        exe_name_exec(exe)
    };
    match usage.get(key.as_str()) {
        Some(u) => {
            entry.open_count = if u.run_count > 0 {
                Some(u.run_count)
            } else {
                None
            };
            entry.last_opened_days = u.last_run_days;
        },
        None => {},
    }
    let j = judge(entry, exe, None, rules);
    entry.verdict = j.verdict;
    entry.reason = j.reason;
    entry.category = j.category;
}

// ------------------------------------------------------------ order

/// Run keys first, then Startup folders, then tasks, then services.
pub open spec fn kind_rank(kind: Seq<char>) -> u8 {
    if kind == "run"@ {
        0
    } else if kind == "folder"@ {
        1
    } else if kind == "task"@ {
        2
    } else {
        3
    }
}

/// Entries are shown by kind, then by lowercase name.
pub open spec fn entry_key(e: AutostartEntry) -> (u8, Seq<char>) {
    (kind_rank(e.kind@), lowercase(e.name@))
}

pub open spec fn entry_keys(s: Seq<AutostartEntry>) -> Seq<(u8, Seq<char>)> {
    s.map_values(|e: AutostartEntry| entry_key(e))
}

fn kind_rank_exec(kind: &str) -> (r: u8)
    ensures
        r == kind_rank(kind@),
{
    if str_eq(kind, "run") {
        0
    } else if str_eq(kind, "folder") {
        1
    } else if str_eq(kind, "task") {
        2
    } else {
        3
    }
}

/// The entries in display order: by kind, then by lowercase name; entries
/// that tie keep the order they were found in.
pub fn sort_entries(entries: Vec<AutostartEntry>) -> (r: Vec<AutostartEntry>)
    ensures
        exists|perm: Seq<int>| stably_sorted_by(r@, entries@, entry_keys(entries@), perm),
{
    let mut keys: Vec<(u8, Vec<char>)> = Vec::new();
    let mut i: usize = 0;
    while i < entries.len()
        invariant
            0 <= i <= entries@.len(),
            key_views(keys@) == entry_keys(entries@.subrange(0, i as int)),
        decreases entries@.len() - i,
    {
        let lower = to_lowercase(entries[i].name.as_str());
        let k = (kind_rank_exec(entries[i].kind.as_str()), chars_of(lower.as_str()));
        let ghost before = keys@;
        proof {
            assert((k.0, k.1@) == entry_key(entries@[i as int]));
        }
        keys.push(k);
        proof {
            assert(key_views(keys@) =~= key_views(before).push((k.0, k.1@)));
            assert(entries@.subrange(0, i + 1) =~= entries@.subrange(0, i as int).push(
                entries@[i as int],
            ));
            assert(entry_keys(entries@.subrange(0, i + 1)) =~= entry_keys(
                entries@.subrange(0, i as int),
            ).push(entry_key(entries@[i as int])));
        }
        i = i + 1;
    }
    proof {
        assert(entries@.subrange(0, entries@.len() as int) =~= entries@);
    }
    stable_sort_by_keys(entries, keys)
}

/// The finished inventory: every entry annotated (with its executable
/// `exes[i]`), then put in display order.
pub fn scan(entries: Vec<AutostartEntry>, exes: &[Option<String>], usage: &UsageMap, rules: &[Rule]) -> (r:
    Vec<AutostartEntry>)
    requires
        exes@.len() == entries@.len(),
        usage.wf(),
    ensures
        exists|a: Seq<AutostartEntry>, perm: Seq<int>|
            {
                &&& a.len() == entries@.len()
                &&& forall|i: int|
                    0 <= i < a.len() ==> annotated(
                        entries@[i],
                        #[trigger] a[i],
                        opt_view(exes@[i]),
                        usage.view(),
                        rules@,
                    )
                &&& stably_sorted_by(r@, a, entry_keys(a), perm)
            },
{
    let ghost given = entries@;
    let mut done: Vec<AutostartEntry> = Vec::new();
    let mut rest = entries;
    proof {
        assert(rest@ =~= given.subrange(0, given.len() as int));
    }
    let mut i: usize = 0;
    while i < exes.len()
        invariant
            0 <= i <= exes@.len(),
            exes@.len() == given.len(),
            usage.wf(),
            done@.len() == i,
            rest@ == given.subrange(i as int, given.len() as int),
            forall|j: int|
                0 <= j < i ==> annotated(
                    given[j],
                    #[trigger] done@[j],
                    opt_view(exes@[j]),
                    usage.view(),
                    rules@,
                ),
        decreases exes@.len() - i,
    {
        let mut e = rest.remove(0);
        let exe: Option<&str> = match &exes[i] {
            Some(p) => Some(p.as_str()),
            None => None,
        };
        annotate(&mut e, exe, usage, rules);
        done.push(e);
        proof {
            assert(rest@ =~= given.subrange(i + 1, given.len() as int));
        }
        i = i + 1;
    }
    let ghost a = done@;
    let r = sort_entries(done);
    r
}

// ------------------------------------------------------------ laws

/// What a toggle writes reads back as what was asked for: the value
/// `make_approved_bytes(enable)` stores (at any time stamp) makes the entry
/// read as enabled exactly when `enable`.
pub proof fn law_written_state_reads_back(enable: bool, filetime: u64)
    ensures
        approved_enabled(Some(crate::guard::approved_bytes(enable, filetime))) == enable,
{
}

/// The scan never offers a switch the guard would refuse: the on/off state of
/// every Run key and of the Startup folders lives on a whitelisted path, and
/// a switch is offered only for a name the guard does not protect.
pub proof fn law_offered_switches_pass_the_guard(i: int, name: Seq<char>)
    requires
        0 <= i < 6,
        !protected_autostart(name),
    ensures
        run_source(i).2 matches Some(a) ==> crate::actions::write_refusal(a, name) is None,
        crate::actions::write_refusal(approved_folder_path(), name) is None,
{
}

} // verus!
