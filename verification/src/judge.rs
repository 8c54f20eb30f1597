//! The judgment engine. Offline, no network.
//!
//! Verdict order of authority:
//!   1. The protected services (in code, non-negotiable).
//!   2. The known-apps rules (plain data), first matching rule wins.
//!   3. Heuristics for everything unknown.
//!   4. Usage evidence, which sharpens a verdict but never overrides
//!      "protected" or "keep".
//!
//! Verdicts: "safe-to-disable" | "keep" | "your-call" | "protected". Every
//! verdict carries a reason, one human sentence.

use vstd::prelude::*;
use crate::autostart::AutostartEntry;
use crate::evidence::FileEvidence;
use crate::text::{
    after_last, after_last_chars, before_first, before_first_chars, chars_of, decimal,
    has_infix, lowercase, opt_view, owned, push_decimal, push_str,
    str_contains, str_eq, string_from, to_lowercase,
};

verus! {

/// One known-apps rule.
#[derive(Clone)]
pub struct Rule {
    /// Exact lowercase executable file names.
    pub exe: Vec<String>,
    /// Substrings of the lowercase entry name.
    pub name_contains: Vec<String>,
    /// Substrings of the lowercase publisher.
    pub publisher_contains: Vec<String>,
    /// Restrict the rule to one kind ("run" | "folder" | "task" | "service").
    pub kind: Option<String>,
    pub category: String,
    pub verdict: String,
    pub reason: String,
}

/// A verdict, its reason, and the category it was reached through.
pub struct Judgment {
    pub verdict: String,
    pub reason: String,
    pub category: Option<String>,
}

/// (verdict, reason, category)
pub type JudgmentView = (Seq<char>, Seq<char>, Option<Seq<char>>);

impl View for Judgment {
    type V = JudgmentView;

    open spec fn view(&self) -> JudgmentView {
        (self.verdict@, self.reason@, opt_view(self.category))
    }
}

// ------------------------------------------------------------ protected services

/// Services that keep the session or boot alive, by registry key name.
pub open spec fn is_protected_service(s: Seq<char>) -> bool {
    s == "rpcss"@ || s == "rpceptmapper"@ || s == "dcomlaunch"@ || s == "lsm"@ || s == "plugplay"@
        || s == "power"@ || s == "winmgmt"@ || s == "eventlog"@ || s == "schedule"@ || s
        == "profsvc"@ || s == "usermanager"@ || s == "cryptsvc"@ || s == "bfe"@ || s == "mpssvc"@
        || s == "windefend"@ || s == "securityhealthservice"@ || s == "wscsvc"@ || s
        == "dnscache"@ || s == "nsi"@ || s == "brokerinfrastructure"@ || s
        == "coremessagingregistrar"@ || s == "systemeventsbroker"@ || s == "samss"@ || s
        == "keyiso"@ || s == "gpsvc"@ || s == "eventsystem"@ || s == "staterepository"@ || s
        == "audiosrv"@ || s == "audioendpointbuilder"@ || s == "lanmanworkstation"@ || s
        == "wlansvc"@ || s == "netman"@ || s == "nlasvc"@ || s == "dhcp"@ || s
        == "winhttpautoproxysvc"@
}

fn protected_service_name(s: &str) -> (r: bool)
    ensures
        r == is_protected_service(s@),
{
    str_eq(s, "rpcss") || str_eq(s, "rpceptmapper") || str_eq(s, "dcomlaunch") || str_eq(s, "lsm")
        || str_eq(s, "plugplay") || str_eq(s, "power") || str_eq(s, "winmgmt") || str_eq(
        s,
        "eventlog",
    ) || str_eq(s, "schedule") || str_eq(s, "profsvc") || str_eq(s, "usermanager") || str_eq(
        s,
        "cryptsvc",
    ) || str_eq(s, "bfe") || str_eq(s, "mpssvc") || str_eq(s, "windefend") || str_eq(
        s,
        "securityhealthservice",
    ) || str_eq(s, "wscsvc") || str_eq(s, "dnscache") || str_eq(s, "nsi") || str_eq(
        s,
        "brokerinfrastructure",
    ) || str_eq(s, "coremessagingregistrar") || str_eq(s, "systemeventsbroker") || str_eq(
        s,
        "samss",
    ) || str_eq(s, "keyiso") || str_eq(s, "gpsvc") || str_eq(s, "eventsystem") || str_eq(
        s,
        "staterepository",
    ) || str_eq(s, "audiosrv") || str_eq(s, "audioendpointbuilder") || str_eq(
        s,
        "lanmanworkstation",
    ) || str_eq(s, "wlansvc") || str_eq(s, "netman") || str_eq(s, "nlasvc") || str_eq(s, "dhcp")
        || str_eq(s, "winhttpautoproxysvc")
}

/// The service's registry key name, lowercase: what follows the last
/// backslash of the source detail.
pub open spec fn service_key_name(source_detail: Seq<char>) -> Seq<char> {
    lowercase(after_last(source_detail, '\\'))
}

/// A service entry whose key name, or the part of it before the first `_`
/// (per-user instances carry a suffix like `cbdhsvc_4aeaa`), is protected.
pub open spec fn protected_service_entry(kind: Seq<char>, source_detail: Seq<char>) -> bool {
    let key = service_key_name(source_detail);
    kind == "service"@ && (is_protected_service(key) || is_protected_service(before_first(key, '_')))
}

pub open spec fn protected_judgment() -> JudgmentView {
    (
        "protected"@,
        "This keeps Windows running. Mganga will not touch it."@,
        Some("windows-core"@),
    )
}

// ------------------------------------------------------------ known-apps rules

/// Some entry of `list` equals `s`.
pub open spec fn any_equal(list: Seq<String>, s: Seq<char>) -> bool {
    exists|k: int| 0 <= k < list.len() && (#[trigger] list[k])@ == s
}

/// Some entry of `list` occurs in `s`.
pub open spec fn any_infix(list: Seq<String>, s: Seq<char>) -> bool {
    exists|k: int| 0 <= k < list.len() && has_infix(s, (#[trigger] list[k])@)
}

/// Whether a rule covers an entry of this kind, lowercase name, lowercase
/// publisher and lowercase executable file name.
pub open spec fn rule_applies(
    rule: Rule,
    kind: Seq<char>,
    name: Seq<char>,
    publisher: Seq<char>,
    exe_name: Seq<char>,
) -> bool {
    &&& (rule.kind matches Some(k) ==> k@ == kind)
    &&& (any_equal(rule.exe@, exe_name) || any_infix(rule.name_contains@, name) || (publisher.len()
        > 0 && any_infix(rule.publisher_contains@, publisher)))
}

/// The index of the first rule from `i` on that applies.
pub open spec fn first_rule_from(
    rules: Seq<Rule>,
    i: int,
    kind: Seq<char>,
    name: Seq<char>,
    publisher: Seq<char>,
    exe_name: Seq<char>,
) -> Option<int>
    decreases rules.len() - i,
{
    if i < 0 || i >= rules.len() {
        None
    } else if rule_applies(rules[i], kind, name, publisher, exe_name) {
        Some(i)
    } else {
        first_rule_from(rules, i + 1, kind, name, publisher, exe_name)
    }
}

/// The rule found is in range, applies, and no rule before it applies.
pub proof fn lemma_first_rule_from(
    rules: Seq<Rule>,
    i: int,
    kind: Seq<char>,
    name: Seq<char>,
    publisher: Seq<char>,
    exe_name: Seq<char>,
)
    requires
        0 <= i,
    ensures
        first_rule_from(rules, i, kind, name, publisher, exe_name) matches Some(k) ==> {
            &&& i <= k < rules.len()
            &&& rule_applies(rules[k], kind, name, publisher, exe_name)
            &&& forall|j: int| i <= j < k ==> !rule_applies(rules[j], kind, name, publisher, exe_name)
        },
        first_rule_from(rules, i, kind, name, publisher, exe_name) is None ==> forall|j: int|
            i <= j < rules.len() ==> !rule_applies(rules[j], kind, name, publisher, exe_name),
    decreases rules.len() - i,
{
    if i < rules.len() && !rule_applies(rules[i], kind, name, publisher, exe_name) {
        lemma_first_rule_from(rules, i + 1, kind, name, publisher, exe_name);
    }
}

fn any_equal_exec(list: &Vec<String>, s: &str) -> (r: bool)
    ensures
        r == any_equal(list@, s@),
{
    let mut k: usize = 0;
    while k < list.len()
        invariant
            0 <= k <= list@.len(),
            forall|j: int| 0 <= j < k ==> (#[trigger] list@[j])@ != s@,
        decreases list@.len() - k,
    {
        if str_eq(list[k].as_str(), s) {
            return true;
        }
        k = k + 1;
    }
    false
}

fn any_infix_exec(list: &Vec<String>, s: &str) -> (r: bool)
    ensures
        r == any_infix(list@, s@),
{
    let mut k: usize = 0;
    while k < list.len()
        invariant
            0 <= k <= list@.len(),
            forall|j: int| 0 <= j < k ==> !has_infix(s@, (#[trigger] list@[j])@),
        decreases list@.len() - k,
    {
        if str_contains(s, list[k].as_str()) {
            return true;
        }
        k = k + 1;
    }
    false
}

fn rule_applies_exec(rule: &Rule, kind: &str, name: &str, publisher: &str, exe_name: &str) -> (r:
    bool)
    ensures
        r == rule_applies(*rule, kind@, name@, publisher@, exe_name@),
{
    if let Some(k) = &rule.kind {
        if !str_eq(k.as_str(), kind) {
            return false;
        }
    }
    let exe_hit = any_equal_exec(&rule.exe, exe_name);
    let name_hit = any_infix_exec(&rule.name_contains, name);
    let pub_hit = !publisher.is_empty() && any_infix_exec(&rule.publisher_contains, publisher);
    exe_hit || name_hit || pub_hit
}

fn first_rule(rules: &[Rule], kind: &str, name: &str, publisher: &str, exe_name: &str) -> (r:
    Option<usize>)
    ensures
        r matches Some(i) ==> first_rule_from(rules@, 0, kind@, name@, publisher@, exe_name@) == Some(
            i as int,
        ),
        r is None ==> first_rule_from(rules@, 0, kind@, name@, publisher@, exe_name@) is None,
        r matches Some(i) ==> i < rules@.len(),
{
    let mut i: usize = 0;
    while i < rules.len()
        invariant
            0 <= i <= rules@.len(),
            first_rule_from(rules@, 0, kind@, name@, publisher@, exe_name@) == first_rule_from(
                rules@,
                i as int,
                kind@,
                name@,
                publisher@,
                exe_name@,
            ),
        decreases rules@.len() - i,
    {
        if rule_applies_exec(&rules[i], kind, name, publisher, exe_name) {
            proof {
                lemma_first_rule_from(rules@, 0, kind@, name@, publisher@, exe_name@);
            }
            return Some(i);
        }
        i = i + 1;
    }
    None
}

/// The lowercase file name of the executable, or empty when there is none.
pub open spec fn exe_name_of(exe_path: Option<Seq<char>>) -> Seq<char> {
    match exe_path {
        Some(p) => match crate::winpath::windows_file_name(p) {
            Some(f) => lowercase(f),
            None => Seq::empty(),
        },
        None => Seq::empty(),
    }
}

pub(crate) fn exe_name_exec(exe_path: Option<&str>) -> (r: String)
    ensures
        r@ == exe_name_of(crate::text::opt_str_view(exe_path)),
{
    match exe_path {
        Some(p) => match crate::winpath::file_name(p) {
            Some(f) => to_lowercase(f.as_str()),
            None => String::new(),
        },
        None => String::new(),
    }
}

} // verus!

verus! {

// ------------------------------------------------------------ humanized durations

/// A number of days as a person would say it.
pub open spec fn humanized(days: nat) -> Seq<char> {
    if days <= 13 {
        decimal(days) + " days"@
    } else if days <= 59 {
        decimal(days / 7) + " weeks"@
    } else if days <= 364 {
        decimal(days / 30) + " months"@
    } else if days <= 729 {
        "a year"@
    } else {
        decimal(days / 365) + " years"@
    }
}

pub fn humanize_days(days: u32) -> (r: String)
    ensures
        r@ == humanized(days as nat),
{
    let mut r = String::new();
    if days <= 13 {
        push_decimal(&mut r, days as u64);
        push_str(&mut r, " days");
    } else if days <= 59 {
        push_decimal(&mut r, (days / 7) as u64);
        push_str(&mut r, " weeks");
    } else if days <= 364 {
        push_decimal(&mut r, (days / 30) as u64);
        push_str(&mut r, " months");
    } else if days <= 729 {
        push_str(&mut r, "a year");
    } else {
        push_decimal(&mut r, (days / 365) as u64);
        push_str(&mut r, " years");
    }
    proof {
        assert(r@ =~= humanized(days as nat));
    }
    r
}

// ------------------------------------------------------------ heuristics

/// A reason with the program's own description folded in, when Windows
/// recorded one.
pub open spec fn described(reason: Seq<char>, description: Option<Seq<char>>) -> Seq<char> {
    match description {
        Some(d) => reason + " It describes itself as \""@ + d + "\"."@,
        None => reason,
    }
}

fn describe(reason: &str, description: Option<&String>) -> (r: String)
    ensures
        r@ == described(
            reason@,
            match description {
                Some(d) => Some(d@),
                None => None,
            },
        ),
{
    let mut r = owned(reason);
    match description {
        Some(d) => {
            push_str(&mut r, " It describes itself as \"");
            push_str(&mut r, d.as_str());
            push_str(&mut r, "\".");
        },
        None => {},
    }
    r
}

pub open spec fn reason_temp() -> Seq<char> {
    "This starts from a temporary folder, which honest apps rarely do. If the name means nothing to you, turning it off is reasonable."@
}

pub open spec fn reason_run_once() -> Seq<char> {
    "A one-time step an installer left behind. It runs once at the next start and then removes itself."@
}

pub open spec fn reason_windows_service() -> Seq<char> {
    "A Windows service that ships with the system. Services are easy to break, so leaving it on is the safe choice."@
}

pub open spec fn reason_third_party_service() -> Seq<char> {
    "A background service installed by one of your apps. Mganga does not know it, so be careful: if that app misbehaves after you stop this, it needed it."@
}

pub open spec fn reason_windows_task() -> Seq<char> {
    "Windows housekeeping. It runs briefly at logon and stays out of the way."@
}

pub open spec fn reason_third_party_task() -> Seq<char> {
    "One of your apps scheduled this to run at logon, usually for updates or telemetry. The app itself keeps working without it."@
}

pub open spec fn reason_no_publisher() -> Seq<char> {
    "It does not say who made it. If the name means nothing to you, try turning it off, you can always turn it back on."@
}

pub open spec fn reason_unknown_app() -> Seq<char> {
    "Mganga does not know this app. It starts with Windows, but most apps work just as well started by hand."@
}

/// The verdict for an entry no rule knows, from its kind, its source label,
/// the lowercase path of its executable, its lowercase publisher, and the
/// program's own description.
pub open spec fn heuristic_judgment(
    kind: Seq<char>,
    source: Seq<char>,
    exe_path: Option<Seq<char>>,
    publisher: Seq<char>,
    description: Option<Seq<char>>,
) -> JudgmentView {
    let is_microsoft = has_infix(publisher, "microsoft"@);
    let path = lowercase(
        match exe_path {
            Some(p) => p,
            None => ""@,
        },
    );
    if has_infix(path, "\\temp\\"@) || has_infix(path, "\\tmp\\"@) {
        ("your-call"@, described(reason_temp(), description), Some("suspicious-path"@))
    } else if has_infix(source, "RunOnce"@) {
        ("keep"@, reason_run_once(), Some("run-once"@))
    } else if kind == "service"@ {
        if is_microsoft {
            ("keep"@, reason_windows_service(), Some("windows-service"@))
        } else {
            (
                "your-call"@,
                described(reason_third_party_service(), description),
                Some("third-party-service"@),
            )
        }
    } else if kind == "task"@ {
        if is_microsoft {
            ("keep"@, reason_windows_task(), Some("windows-task"@))
        } else {
            (
                "your-call"@,
                described(reason_third_party_task(), description),
                Some("third-party-task"@),
            )
        }
    } else if publisher.len() == 0 {
        ("your-call"@, described(reason_no_publisher(), description), Some("unknown"@))
    } else {
        ("your-call"@, described(reason_unknown_app(), description), Some("unknown"@))
    }
}

/// A program's own description only ever explains: for an entry no rule
/// knows, adding the description leaves the verdict and category as they
/// were, and appends the description to the reason only of a "your-call"
/// verdict.
pub proof fn law_description_only_explains(
    kind: Seq<char>,
    source: Seq<char>,
    exe_path: Option<Seq<char>>,
    publisher: Seq<char>,
    description: Seq<char>,
)
    ensures
        ({
            let j0 = heuristic_judgment(kind, source, exe_path, publisher, None);
            let j1 = heuristic_judgment(kind, source, exe_path, publisher, Some(description));
            &&& j1.0 == j0.0
            &&& j1.2 == j0.2
            &&& j1.1 == if j0.0 == "your-call"@ {
                described(j0.1, Some(description))
            } else {
                j0.1
            }
        }),
{
    reveal_strlit("your-call");
    reveal_strlit("keep");
    assert("your-call"@.len() != "keep"@.len());
}

pub open spec fn description_of(evidence: Option<FileEvidence>) -> Option<Seq<char>> {
    match evidence {
        Some(e) => opt_view(e.description),
        None => None,
    }
}

fn judgment(verdict: &str, reason: String, category: &str) -> (r: Judgment)
    ensures
        r@ == (verdict@, reason@, Some(category@)),
{
    Judgment { verdict: owned(verdict), reason, category: Some(owned(category)) }
}

/// The judgment of an entry that no rule knows, from where it starts, what
/// it runs, who signed it and what its file says of itself.
pub fn heuristic(
    entry: &AutostartEntry,
    exe_path: Option<&str>,
    publisher: &str,
    evidence: Option<&FileEvidence>,
) -> (r: Judgment)
    ensures
        r@ == heuristic_judgment(
            entry.kind@,
            entry.source@,
            crate::text::opt_str_view(exe_path),
            publisher@,
            description_of(
                match evidence {
                    Some(e) => Some(*e),
                    None => None,
                },
            ),
        ),
{
    let description: Option<&String> = match evidence {
        Some(e) => match &e.description {
            Some(d) => Some(d),
            None => None,
        },
        None => None,
    };
    let is_microsoft = str_contains(publisher, "microsoft");
    let path = to_lowercase(
        match exe_path {
            Some(p) => p,
            None => "",
        },
    );
    let kind = entry.kind.as_str();
    if str_contains(path.as_str(), "\\temp\\") || str_contains(path.as_str(), "\\tmp\\") {
        return judgment(
            "your-call",
            describe(
                "This starts from a temporary folder, which honest apps rarely do. If the name means nothing to you, turning it off is reasonable.",
                description,
            ),
            "suspicious-path",
        );
    }
    if str_contains(entry.source.as_str(), "RunOnce") {
        return judgment(
            "keep",
            owned(
                "A one-time step an installer left behind. It runs once at the next start and then removes itself.",
            ),
            "run-once",
        );
    }
    if str_eq(kind, "service") {
        if is_microsoft {
            judgment(
                "keep",
                owned(
                    "A Windows service that ships with the system. Services are easy to break, so leaving it on is the safe choice.",
                ),
                "windows-service",
            )
        } else {
            judgment(
                "your-call",
                describe(
                    "A background service installed by one of your apps. Mganga does not know it, so be careful: if that app misbehaves after you stop this, it needed it.",
                    description,
                ),
                "third-party-service",
            )
        }
    } else if str_eq(kind, "task") {
        if is_microsoft {
            judgment(
                "keep",
                owned(
                    "Windows housekeeping. It runs briefly at logon and stays out of the way.",
                ),
                "windows-task",
            )
        } else {
            judgment(
                "your-call",
                describe(
                    "One of your apps scheduled this to run at logon, usually for updates or telemetry. The app itself keeps working without it.",
                    description,
                ),
                "third-party-task",
            )
        }
    } else if publisher.is_empty() {
        judgment(
            "your-call",
            describe(
                "It does not say who made it. If the name means nothing to you, try turning it off, you can always turn it back on.",
                description,
            ),
            "unknown",
        )
    } else {
        judgment(
            "your-call",
            describe(
                "Mganga does not know this app. It starts with Windows, but most apps work just as well started by hand.",
                description,
            ),
            "unknown",
        )
    }
}

} // verus!

verus! {

// ------------------------------------------------------------ usage evidence

pub open spec fn note_long_unused(days: nat) -> Seq<char> {
    " You haven't opened it in about "@ + humanized(days)
        + ", so it is probably not earning its place at startup."@
}

pub open spec fn note_last_opened(days: nat) -> Seq<char> {
    " You last opened it about "@ + humanized(days) + " ago."@
}

pub open spec fn note_used_often() -> Seq<char> {
    " You use this often, so keeping it ready may genuinely save you time."@
}

/// Usage evidence applied to a judgment: a verdict of "protected" or "keep"
/// is never touched, nor is a service (services do not appear in the usage
/// record), nor an entry with no record. Unused for 180 days or more turns
/// "your-call" into "safe-to-disable" and says so; 60 days or more is
/// mentioned; recent, frequent use is mentioned too.
pub open spec fn with_usage(
    kind: Seq<char>,
    last_opened_days: Option<u32>,
    open_count: Option<u32>,
    j: JudgmentView,
) -> JudgmentView {
    if j.0 == "protected"@ || j.0 == "keep"@ || kind == "service"@ {
        j
    } else {
        match last_opened_days {
            None => j,
            Some(days) => {
                let count: u32 = match open_count {
                    Some(c) => c,
                    None => 0,
                };
                if days >= 180 {
                    (
                        if j.0 == "your-call"@ {
                            "safe-to-disable"@
                        } else {
                            j.0
                        },
                        j.1 + note_long_unused(days as nat),
                        j.2,
                    )
                } else if days >= 60 {
                    (j.0, j.1 + note_last_opened(days as nat), j.2)
                } else if days <= 7 && count >= 20 {
                    (j.0, j.1 + note_used_often(), j.2)
                } else {
                    j
                }
            },
        }
    }
}

fn apply_usage(entry: &AutostartEntry, judgment: &mut Judgment)
    ensures
        final(judgment)@ == with_usage(
            entry.kind@,
            entry.last_opened_days,
            entry.open_count,
            old(judgment)@,
        ),
{
    if str_eq(judgment.verdict.as_str(), "protected") || str_eq(judgment.verdict.as_str(), "keep") {
        return;
    }
    if str_eq(entry.kind.as_str(), "service") {
        return;
    }
    let days = match entry.last_opened_days {
        Some(d) => d,
        None => {
            return;
        },
    };
    let count = match entry.open_count {
        Some(c) => c,
        None => 0,
    };
    if days >= 180 {
        if str_eq(judgment.verdict.as_str(), "your-call") {
            judgment.verdict = owned("safe-to-disable");
        }
        push_str(&mut judgment.reason, " You haven't opened it in about ");
        let h = humanize_days(days);
        push_str(&mut judgment.reason, h.as_str());
        push_str(&mut judgment.reason, ", so it is probably not earning its place at startup.");
        proof {
            assert(judgment.reason@ =~= old(judgment).reason@ + note_long_unused(days as nat));
        }
    } else if days >= 60 {
        push_str(&mut judgment.reason, " You last opened it about ");
        let h = humanize_days(days);
        push_str(&mut judgment.reason, h.as_str());
        push_str(&mut judgment.reason, " ago.");
        proof {
            assert(judgment.reason@ =~= old(judgment).reason@ + note_last_opened(days as nat));
        }
    } else if days <= 7 && count >= 20 {
        push_str(
            &mut judgment.reason,
            " You use this often, so keeping it ready may genuinely save you time.",
        );
    }
}

// ------------------------------------------------------------ the autostart verdict

/// The lowercase publisher of an entry (empty when it has none).
pub open spec fn publisher_of(entry: AutostartEntry) -> Seq<char> {
    lowercase(
        match entry.publisher {
            Some(p) => p@,
            None => ""@,
        },
    )
}

/// The verdict for an autostart entry, before usage evidence.
pub open spec fn base_judgment(
    entry: AutostartEntry,
    exe_path: Option<Seq<char>>,
    description: Option<Seq<char>>,
    rules: Seq<Rule>,
) -> JudgmentView {
    match first_rule_from(
        rules,
        0,
        entry.kind@,
        lowercase(entry.name@),
        publisher_of(entry),
        exe_name_of(exe_path),
    ) {
        Some(i) => (rules[i].verdict@, rules[i].reason@, Some(rules[i].category@)),
        None => heuristic_judgment(
            entry.kind@,
            entry.source@,
            exe_path,
            publisher_of(entry),
            description,
        ),
    }
}

/// The complete verdict for an entry. A protected service is settled at once;
/// anything else gets the verdict of the known-apps rule that applies to it
/// (or of the heuristics when none does), sharpened by usage evidence.
pub open spec fn judged(
    entry: AutostartEntry,
    exe_path: Option<Seq<char>>,
    description: Option<Seq<char>>,
    rules: Seq<Rule>,
) -> JudgmentView {
    if protected_service_entry(entry.kind@, entry.source_detail@) {
        protected_judgment()
    } else {
        with_usage(
            entry.kind@,
            entry.last_opened_days,
            entry.open_count,
            base_judgment(entry, exe_path, description, rules),
        )
    }
}

pub fn judge(
    entry: &AutostartEntry,
    exe_path: Option<&str>,
    evidence: Option<&FileEvidence>,
    rules: &[Rule],
) -> (r: Judgment)
    ensures
        r@ == judged(
            *entry,
            crate::text::opt_str_view(exe_path),
            description_of(
                match evidence {
                    Some(e) => Some(*e),
                    None => None,
                },
            ),
            rules@,
        ),
{
    let name = to_lowercase(entry.name.as_str());
    let publisher = to_lowercase(
        match &entry.publisher {
            Some(p) => p.as_str(),
            None => "",
        },
    );
    let exe_name = exe_name_exec(exe_path);

    // 1. Protected services, by registry key name.
    if str_eq(entry.kind.as_str(), "service") {
        let detail = chars_of(entry.source_detail.as_str());
        let last = after_last_chars(detail.as_slice(), '\\');
        let last_s = string_from(last.as_slice());
        let key_name = to_lowercase(last_s.as_str());
        let key_chars = chars_of(key_name.as_str());
        let base_chars = before_first_chars(key_chars.as_slice(), '_');
        let base = string_from(base_chars.as_slice());
        if protected_service_name(key_name.as_str()) || protected_service_name(base.as_str()) {
            return Judgment {
                verdict: owned("protected"),
                reason: owned("This keeps Windows running. Mganga will not touch it."),
                category: Some(owned("windows-core")),
            };
        }
    }
    // 2. Known-apps list, first match wins. 3. Heuristics for unknowns.

    let mut judgment = match first_rule(
        rules,
        entry.kind.as_str(),
        name.as_str(),
        publisher.as_str(),
        exe_name.as_str(),
    ) {
        Some(i) => Judgment {
            verdict: rules[i].verdict.clone(),
            reason: rules[i].reason.clone(),
            category: Some(rules[i].category.clone()),
        },
        None => heuristic(entry, exe_path, publisher.as_str(), evidence),
    };
    // 4. Usage evidence sharpens the verdict.
    apply_usage(entry, &mut judgment);
    judgment
}

} // verus!

verus! {

// ------------------------------------------------------------ running processes

/// Windows helpers that respawn on their own: stopping them gains nothing.
pub open spec fn is_self_restarting(n: Seq<char>) -> bool {
    n == "runtimebroker"@ || n == "searchhost"@ || n == "startmenuexperiencehost"@ || n
        == "shellexperiencehost"@ || n == "textinputhost"@ || n == "widgets"@ || n
        == "widgetservice"@ || n == "backgroundtaskhost"@ || n == "dllhost"@ || n == "taskhostw"@
        || n == "wmiprvse"@ || n == "searchindexer"@ || n == "applicationframehost"@ || n
        == "systemsettings"@
}

fn self_restarting(n: &str) -> (r: bool)
    ensures
        r == is_self_restarting(n@),
{
    str_eq(n, "runtimebroker") || str_eq(n, "searchhost") || str_eq(n, "startmenuexperiencehost")
        || str_eq(n, "shellexperiencehost") || str_eq(n, "textinputhost") || str_eq(n, "widgets")
        || str_eq(n, "widgetservice") || str_eq(n, "backgroundtaskhost") || str_eq(n, "dllhost")
        || str_eq(n, "taskhostw") || str_eq(n, "wmiprvse") || str_eq(n, "searchindexer") || str_eq(
        n,
        "applicationframehost",
    ) || str_eq(n, "systemsettings")
}

pub open spec fn is_browser(n: Seq<char>) -> bool {
    n == "chrome"@ || n == "msedge"@ || n == "firefox"@ || n == "brave"@ || n == "opera"@ || n
        == "vivaldi"@
}

fn browser(n: &str) -> (r: bool)
    ensures
        r == is_browser(n@),
{
    str_eq(n, "chrome") || str_eq(n, "msedge") || str_eq(n, "firefox") || str_eq(n, "brave")
        || str_eq(n, "opera") || str_eq(n, "vivaldi")
}

/// The first rule from `i` on that names this process, by executable file
/// name or by a name substring.
pub open spec fn process_rule_from(rules: Seq<Rule>, i: int, name: Seq<char>) -> Option<int>
    decreases rules.len() - i,
{
    if i < 0 || i >= rules.len() {
        None
    } else if any_equal(rules[i].exe@, name + ".exe"@) || any_infix(rules[i].name_contains@, name) {
        Some(i)
    } else {
        process_rule_from(rules, i + 1, name)
    }
}

pub proof fn lemma_process_rule_from(rules: Seq<Rule>, i: int, name: Seq<char>)
    requires
        0 <= i,
    ensures
        process_rule_from(rules, i, name) matches Some(k) ==> i <= k < rules.len(),
    decreases rules.len() - i,
{
    if i < rules.len() && !(any_equal(rules[i].exe@, name + ".exe"@) || any_infix(
        rules[i].name_contains@,
        name,
    )) {
        lemma_process_rule_from(rules, i + 1, name);
    }
}

/// What stopping a running process of each category costs: a verdict and
/// its reason, or nothing for a category with no such wording.
pub open spec fn stop_cost(c: Seq<char>) -> Option<(Seq<char>, Seq<char>)> {
    if c == "updater"@ || c == "printer-utility"@ {
        Some(
            (
                "fine-to-stop"@,
                "A background helper. Stopping it loses nothing; it runs again when it is needed."@,
            ),
        )
    } else if c == "game-launcher"@ {
        Some(("fine-to-stop"@, "A launcher idling in the background. Stopping it loses nothing."@))
    } else if c == "media"@ {
        Some(("fine-to-stop"@, "Stopping it just closes the app. Nothing is lost."@))
    } else if c == "sync-client"@ {
        Some(
            (
                "your-call"@,
                "Stopping it pauses file syncing until you open it again. No files are lost."@,
            ),
        )
    } else if c == "chat"@ || c == "meetings"@ {
        Some(
            (
                "your-call"@,
                "Stopping it means messages and calls stop arriving until you open it again."@,
            ),
        )
    } else if c == "remote-access"@ {
        Some(
            (
                "your-call"@,
                "Stopping it cuts off remote access to this PC until it runs again."@,
            ),
        )
    } else if c == "vendor-utility"@ || c == "rgb-utility"@ {
        Some(
            (
                "your-call"@,
                "A vendor helper. Extras like lighting or special keys pause until it runs again."@,
            ),
        )
    } else if c == "download-manager"@ {
        Some(
            (
                "your-call"@,
                "Stopping it means downloads are no longer caught until you open it again."@,
            ),
        )
    } else if c == "torrent"@ {
        Some(
            (
                "your-call"@,
                "Stopping it stops your downloads and seeding until you open it again."@,
            ),
        )
    } else if c == "dev-tool"@ || c == "phone-link"@ {
        Some(("your-call"@, "Stopping it pauses what it does until you open it again."@))
    } else if c == "audio-driver"@ || c == "graphics-driver"@ {
        Some(
            (
                "keep"@,
                "Part of how your audio or graphics works right now. Stopping it can break things until a restart."@,
            ),
        )
    } else if c == "windows-security"@ || c == "antivirus"@ || c == "windows-plumbing"@ {
        Some(("keep"@, "Part of Windows' own plumbing or protection. Best left alone."@))
    } else {
        None
    }
}

fn pair(v: &str, r: &str) -> (p: Option<(String, String)>)
    ensures
        p matches Some(x) && x.0@ == v@ && x.1@ == r@,
{
    Some((owned(v), owned(r)))
}

fn stop_cost_exec(c: &str) -> (r: Option<(String, String)>)
    ensures
        r matches Some(x) ==> stop_cost(c@) == Some((x.0@, x.1@)),
        r is None ==> stop_cost(c@) is None,
{
    if str_eq(c, "updater") || str_eq(c, "printer-utility") {
        pair(
            "fine-to-stop",
            "A background helper. Stopping it loses nothing; it runs again when it is needed.",
        )
    } else if str_eq(c, "game-launcher") {
        pair("fine-to-stop", "A launcher idling in the background. Stopping it loses nothing.")
    } else if str_eq(c, "media") {
        pair("fine-to-stop", "Stopping it just closes the app. Nothing is lost.")
    } else if str_eq(c, "sync-client") {
        pair(
            "your-call",
            "Stopping it pauses file syncing until you open it again. No files are lost.",
        )
    } else if str_eq(c, "chat") || str_eq(c, "meetings") {
        pair(
            "your-call",
            "Stopping it means messages and calls stop arriving until you open it again.",
        )
    } else if str_eq(c, "remote-access") {
        pair("your-call", "Stopping it cuts off remote access to this PC until it runs again.")
    } else if str_eq(c, "vendor-utility") || str_eq(c, "rgb-utility") {
        pair(
            "your-call",
            "A vendor helper. Extras like lighting or special keys pause until it runs again.",
        )
    } else if str_eq(c, "download-manager") {
        pair(
            "your-call",
            "Stopping it means downloads are no longer caught until you open it again.",
        )
    } else if str_eq(c, "torrent") {
        pair("your-call", "Stopping it stops your downloads and seeding until you open it again.")
    } else if str_eq(c, "dev-tool") || str_eq(c, "phone-link") {
        pair("your-call", "Stopping it pauses what it does until you open it again.")
    } else if str_eq(c, "audio-driver") || str_eq(c, "graphics-driver") {
        pair(
            "keep",
            "Part of how your audio or graphics works right now. Stopping it can break things until a restart.",
        )
    } else if str_eq(c, "windows-security") || str_eq(c, "antivirus") || str_eq(
        c,
        "windows-plumbing",
    ) {
        pair("keep", "Part of Windows' own plumbing or protection. Best left alone.")
    } else {
        None
    }
}

/// The verdict for a running process named `name` (lowercase, without
/// `.exe`): what stopping it right now would cost, or nothing when Mganga
/// does not know it.
pub open spec fn judged_process(name: Seq<char>, rules: Seq<Rule>) -> Option<(Seq<char>, Seq<char>)> {
    if is_self_restarting(name) {
        Some(("keep"@, "Part of Windows. It restarts itself, so stopping it gains nothing."@))
    } else if is_browser(name) {
        Some(
            (
                "your-call"@,
                "Your browser. Stopping it closes every tab; unsaved work in web apps is lost."@,
            ),
        )
    } else if name == "msedgewebview2"@ {
        Some(
            (
                "your-call"@,
                "A browser engine other apps embed for their windows. Stopping it can blank those apps until they restart."@,
            ),
        )
    } else {
        match process_rule_from(rules, 0, name) {
            Some(i) => stop_cost(rules[i].category@),
            None => None,
        }
    }
}

pub fn judge_process(name: &str, rules: &[Rule]) -> (r: Option<(String, String)>)
    ensures
        r matches Some(x) ==> judged_process(name@, rules@) == Some((x.0@, x.1@)),
        r is None ==> judged_process(name@, rules@) is None,
{
    if self_restarting(name) {
        return pair("keep", "Part of Windows. It restarts itself, so stopping it gains nothing.");
    }
    if browser(name) {
        return pair(
            "your-call",
            "Your browser. Stopping it closes every tab; unsaved work in web apps is lost.",
        );
    }
    if str_eq(name, "msedgewebview2") {
        return pair(
            "your-call",
            "A browser engine other apps embed for their windows. Stopping it can blank those apps until they restart.",
        );
    }
    let mut exe = owned(name);
    push_str(&mut exe, ".exe");
    let mut i: usize = 0;
    while i < rules.len()
        invariant
            0 <= i <= rules@.len(),
            exe@ == name@ + ".exe"@,
            process_rule_from(rules@, 0, name@) == process_rule_from(rules@, i as int, name@),
            !is_self_restarting(name@),
            !is_browser(name@),
            name@ != "msedgewebview2"@,
        decreases rules@.len() - i,
    {
        if any_equal_exec(&rules[i].exe, exe.as_str()) || any_infix_exec(
            &rules[i].name_contains,
            name,
        ) {
            return stop_cost_exec(rules[i].category.as_str());
        }
        i = i + 1;
    }
    None
}

} // verus!

verus! {

// ------------------------------------------------------------ laws

/// The four verdicts an autostart entry can carry.
pub open spec fn is_autostart_verdict(v: Seq<char>) -> bool {
    v == "safe-to-disable"@ || v == "keep"@ || v == "your-call"@ || v == "protected"@
}

/// Usage evidence sharpens a verdict and never overrides one: "protected"
/// and "keep" are left exactly as they are, as is any service and any entry
/// without a usage record; otherwise the only verdict it changes is
/// "your-call", into "safe-to-disable", and the category is never changed.
pub proof fn law_usage_only_sharpens(
    kind: Seq<char>,
    last_opened_days: Option<u32>,
    open_count: Option<u32>,
    j: JudgmentView,
)
    ensures
        (j.0 == "protected"@ || j.0 == "keep"@) ==> with_usage(kind, last_opened_days, open_count, j)
            == j,
        kind == "service"@ ==> with_usage(kind, last_opened_days, open_count, j) == j,
        last_opened_days is None ==> with_usage(kind, last_opened_days, open_count, j) == j,
        with_usage(kind, last_opened_days, open_count, j).0 == j.0 || (j.0 == "your-call"@
            && with_usage(kind, last_opened_days, open_count, j).0 == "safe-to-disable"@),
        with_usage(kind, last_opened_days, open_count, j).2 == j.2,
{
}

/// A protected service is judged "protected", whatever the rules, the usage
/// record or the evidence say.
pub proof fn law_protected_services_stay_protected(
    entry: AutostartEntry,
    exe_path: Option<Seq<char>>,
    description: Option<Seq<char>>,
    rules: Seq<Rule>,
)
    requires
        protected_service_entry(entry.kind@, entry.source_detail@),
    ensures
        judged(entry, exe_path, description, rules) == protected_judgment(),
{
}

/// When every known-apps rule carries one of the four verdicts, so does every
/// judgment: protected, heuristic and usage-sharpened verdicts never leave
/// that set.
pub proof fn law_verdicts_stay_in_the_set(
    entry: AutostartEntry,
    exe_path: Option<Seq<char>>,
    description: Option<Seq<char>>,
    rules: Seq<Rule>,
)
    requires
        forall|i: int| 0 <= i < rules.len() ==> is_autostart_verdict(#[trigger] rules[i].verdict@),
    ensures
        is_autostart_verdict(judged(entry, exe_path, description, rules).0),
{
    lemma_first_rule_from(
        rules,
        0,
        entry.kind@,
        lowercase(entry.name@),
        publisher_of(entry),
        exe_name_of(exe_path),
    );
}

} // verus!

verus! {

// ------------------------------------------------------------ laws of the verdicts

/// A known-apps rule covers an entry exactly when its kind restriction, if
/// any, is the entry's kind, and the entry's executable file name is one of
/// the rule's names, or one of the rule's name substrings occurs in the
/// entry's name, or the entry has a publisher and one of the rule's
/// publisher substrings occurs in it.
pub proof fn law_rule_covers_any_hit(
    rule: Rule,
    kind: Seq<char>,
    name: Seq<char>,
    publisher: Seq<char>,
    exe_name: Seq<char>,
)
    ensures
        rule_applies(rule, kind, name, publisher, exe_name) <==> {
            &&& (rule.kind matches Some(k) ==> k@ == kind)
            &&& {
                ||| exists|i: int| 0 <= i < rule.exe@.len() && rule.exe@[i]@ == exe_name
                ||| exists|i: int|
                    0 <= i < rule.name_contains@.len() && has_infix(name, rule.name_contains@[i]@)
                ||| publisher.len() > 0 && exists|i: int|
                    0 <= i < rule.publisher_contains@.len() && has_infix(
                        publisher,
                        rule.publisher_contains@[i]@,
                    )
            }
        },
{
    if rule_applies(rule, kind, name, publisher, exe_name) {
        if any_equal(rule.exe@, exe_name) {
            let i = choose|i: int| 0 <= i < rule.exe@.len() && (#[trigger] rule.exe@[i])@ == exe_name;
            assert(0 <= i < rule.exe@.len() && rule.exe@[i]@ == exe_name);
        } else if any_infix(rule.name_contains@, name) {
            let i = choose|i: int|
                0 <= i < rule.name_contains@.len() && has_infix(name, (#[trigger] rule.name_contains@[i])@);
            assert(0 <= i < rule.name_contains@.len() && has_infix(name, rule.name_contains@[i]@));
        } else {
            let i = choose|i: int|
                0 <= i < rule.publisher_contains@.len() && has_infix(
                    publisher,
                    (#[trigger] rule.publisher_contains@[i])@,
                );
            assert(0 <= i < rule.publisher_contains@.len() && has_infix(
                publisher,
                rule.publisher_contains@[i]@,
            ));
        }
    }
}

/// An entry that is not a protected service gets the verdict, reason and
/// category of the first known-apps rule that covers it (by its lowercase
/// name, lowercase publisher or executable file name), before usage
/// evidence sharpens it.
pub proof fn law_first_covering_rule_decides(
    entry: AutostartEntry,
    exe_path: Option<Seq<char>>,
    description: Option<Seq<char>>,
    rules: Seq<Rule>,
    k: int,
)
    requires
        !protected_service_entry(entry.kind@, entry.source_detail@),
        0 <= k < rules.len(),
        rule_applies(
            rules[k],
            entry.kind@,
            lowercase(entry.name@),
            publisher_of(entry),
            exe_name_of(exe_path),
        ),
        forall|j: int|
            0 <= j < k ==> !rule_applies(
                #[trigger] rules[j],
                entry.kind@,
                lowercase(entry.name@),
                publisher_of(entry),
                exe_name_of(exe_path),
            ),
    ensures
        base_judgment(entry, exe_path, description, rules) == (
            rules[k].verdict@,
            rules[k].reason@,
            Some(rules[k].category@),
        ),
        judged(entry, exe_path, description, rules) == with_usage(
            entry.kind@,
            entry.last_opened_days,
            entry.open_count,
            (rules[k].verdict@, rules[k].reason@, Some(rules[k].category@)),
        ),
{
    let name = lowercase(entry.name@);
    let publisher = publisher_of(entry);
    let exe_name = exe_name_of(exe_path);
    lemma_first_rule_from(rules, 0, entry.kind@, name, publisher, exe_name);
    match first_rule_from(rules, 0, entry.kind@, name, publisher, exe_name) {
        Some(f) => {
            if f < k {
                assert(!rule_applies(rules[f], entry.kind@, name, publisher, exe_name));
            } else if f > k {
                assert(!rule_applies(rules[k], entry.kind@, name, publisher, exe_name));
            }
        },
        None => {
            assert(!rule_applies(rules[k], entry.kind@, name, publisher, exe_name));
        },
    }
}

/// The embedded browser engine (WebView2) is always "your call", with the
/// same reason, whatever the rule list holds.
pub proof fn law_webview_is_your_call(rules: Seq<Rule>)
    ensures
        judged_process("msedgewebview2"@, rules) == Some(
            (
                "your-call"@,
                "A browser engine other apps embed for their windows. Stopping it can blank those apps until they restart."@,
            ),
        ),
{
    reveal_strlit("msedgewebview2");
    reveal_strlit("runtimebroker");
    reveal_strlit("searchhost");
    reveal_strlit("startmenuexperiencehost");
    reveal_strlit("shellexperiencehost");
    reveal_strlit("textinputhost");
    reveal_strlit("widgets");
    reveal_strlit("widgetservice");
    reveal_strlit("backgroundtaskhost");
    reveal_strlit("dllhost");
    reveal_strlit("taskhostw");
    reveal_strlit("wmiprvse");
    reveal_strlit("searchindexer");
    reveal_strlit("applicationframehost");
    reveal_strlit("systemsettings");
    reveal_strlit("chrome");
    reveal_strlit("msedge");
    reveal_strlit("firefox");
    reveal_strlit("brave");
    reveal_strlit("opera");
    reveal_strlit("vivaldi");
    let w = "msedgewebview2"@;
    assert(w[0] == 'm' && w[1] == 's' && w.len() == 14);
}

/// The self-restarting Windows helpers, the browsers and the embedded
/// browser engine are judged the same whatever the rule list holds: the
/// rules are never consulted for them.
pub proof fn law_fixed_processes_ignore_rules(name: Seq<char>, rules1: Seq<Rule>, rules2: Seq<Rule>)
    requires
        is_self_restarting(name) || is_browser(name) || name == "msedgewebview2"@,
    ensures
        judged_process(name, rules1) == judged_process(name, rules2),
        judged_process(name, rules1) is Some,
{
}

} // verus!
