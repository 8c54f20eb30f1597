//! A read-only view of a connection unblocker service (GoodbyeDPI). Its scope
//! is read from the machine, never assumed: the service's command line points
//! at blacklist files listing the sites it covers.

use vstd::prelude::*;
use crate::shield::{is_healthy, start_type_name, start_type_of, ServiceQuery};
use crate::text::{
    ascii_fold, chars_of, eq_ignore_ascii_case, is_whitespace, is_whitespace_char, opt_view,
    owned, split_char, split_chars, str_eq, string_from, string_views, trim, trim_chars, views,
};

verus! {

/// The service the unblocker card watches.
pub const UNBLOCK_SERVICE: &'static str = "GoodbyeDPI";

/// How many domain names travel to the UI: keeps the list readable and stops
/// a huge blacklist from bloating every render.
pub const MAX_DOMAINS_SHOWN: usize = 50;

// ------------------------------------------------------------ words

/// The words of `s[i..]`, `cur` being the part of a word already read
/// (`str::split_whitespace`).
pub open spec fn words_from(s: Seq<char>, i: int, cur: Seq<char>) -> Seq<Seq<char>>
    decreases s.len() - i,
{
    if i >= s.len() {
        if cur.len() > 0 {
            seq![cur]
        } else {
            Seq::empty()
        }
    } else if is_whitespace(s[i]) {
        (if cur.len() > 0 {
            seq![cur]
        } else {
            Seq::empty()
        }) + words_from(s, i + 1, Seq::empty())
    } else {
        words_from(s, i + 1, cur.push(s[i]))
    }
}

/// The maximal runs of non-whitespace characters of `s`, in order.
pub open spec fn words(s: Seq<char>) -> Seq<Seq<char>> {
    words_from(s, 0, Seq::empty())
}

fn words_of(s: &str) -> (r: Vec<Vec<char>>)
    ensures
        views(r@) == words(s@),
{
    let v = chars_of(s);
    let mut out: Vec<Vec<char>> = Vec::new();
    let mut cur: Vec<char> = Vec::new();
    let mut i: usize = 0;
    while i < v.len()
        invariant
            0 <= i <= v@.len(),
            v@ == s@,
            views(out@) + words_from(v@, i as int, cur@) == words(s@),
        decreases v@.len() - i,
    {
        if is_whitespace_char(v[i]) {
            if cur.len() > 0 {
                let ghost before = out@;
                let ghost w = cur@;
                out.push(cur);
                proof {
                    assert(views(out@) =~= views(before) + seq![w]);
                    assert(views(before) + (seq![w] + words_from(v@, i + 1, Seq::empty()))
                        =~= views(out@) + words_from(v@, i + 1, Seq::empty()));
                }
                cur = Vec::new();
            } else {
                proof {
                    assert(Seq::<Seq<char>>::empty() + words_from(v@, i + 1, Seq::empty())
                        =~= words_from(v@, i + 1, Seq::empty()));
                }
                cur = Vec::new();
                proof {
                    assert(cur@ =~= Seq::<char>::empty());
                }
            }
        } else {
            cur.push(v[i]);
        }
        i = i + 1;
    }
    if cur.len() > 0 {
        let ghost before = out@;
        let ghost w = cur@;
        out.push(cur);
        proof {
            assert(views(out@) =~= views(before) + seq![w]);
        }
    } else {
        proof {
            assert(views(out@) + Seq::<Seq<char>>::empty() =~= views(out@));
        }
    }
    out
}

// ------------------------------------------------------------ blacklist paths

/// The value after each `--blacklist` flag (in any ASCII case) among
/// `tokens[i..]`; a flag with nothing after it adds nothing.
pub open spec fn flagged_from(tokens: Seq<Seq<char>>, i: int) -> Seq<Seq<char>>
    decreases tokens.len() - i,
{
    if i < 0 || i >= tokens.len() {
        Seq::empty()
    } else if ascii_fold(tokens[i]) == ascii_fold("--blacklist"@) {
        if i + 1 < tokens.len() {
            seq![tokens[i + 1]] + flagged_from(tokens, i + 2)
        } else {
            Seq::empty()
        }
    } else {
        flagged_from(tokens, i + 1)
    }
}

/// Every `--blacklist <path>` of a service command line, split on
/// whitespace. (GoodbyeDPI cannot load a blacklist whose path holds a space,
/// so a running service cannot have one.)
pub open spec fn blacklist_paths_of(cmdline: Seq<char>) -> Seq<Seq<char>> {
    flagged_from(words(cmdline), 0)
}

pub fn blacklist_paths(cmdline: &str) -> (r: Vec<String>)
    ensures
        string_views(r@) == blacklist_paths_of(cmdline@),
{
    let tokens = words_of(cmdline);
    let ghost ts = views(tokens@);
    let mut out: Vec<String> = Vec::new();
    let mut i: usize = 0;
    while i < tokens.len()
        invariant
            ts == views(tokens@),
            0 <= i <= tokens@.len() + 1,
            string_views(out@) + flagged_from(ts, i as int) == flagged_from(ts, 0),
        decreases tokens@.len() + 1 - i,
    {
        let t = string_from(tokens[i].as_slice());
        if eq_ignore_ascii_case(t.as_str(), "--blacklist") {
            if i + 1 < tokens.len() {
                let p = string_from(tokens[i + 1].as_slice());
                let ghost before = out@;
                out.push(p);
                proof {
                    assert(string_views(out@) =~= string_views(before) + seq![ts[i + 1]]);
                    assert(string_views(before) + (seq![ts[i + 1]] + flagged_from(ts, i + 2))
                        =~= string_views(out@) + flagged_from(ts, i + 2));
                }
                i = i + 2;
            } else {
                proof {
                    assert(flagged_from(ts, (i + 1) as int) =~= Seq::<Seq<char>>::empty());
                }
                i = i + 1;
            }
        } else {
            i = i + 1;
        }
    }
    proof {
        assert(flagged_from(ts, i as int) =~= Seq::<Seq<char>>::empty());
        assert(string_views(out@) + Seq::<Seq<char>>::empty() =~= string_views(out@));
    }
    out
}

// ------------------------------------------------------------ domains

/// The domain names among `lines`: each trimmed, blanks and `#` comments
/// skipped.
pub open spec fn domains_in_lines(lines: Seq<Seq<char>>) -> Seq<Seq<char>>
    decreases lines.len(),
{
    if lines.len() == 0 {
        Seq::empty()
    } else {
        let prev = domains_in_lines(lines.drop_last());
        let d = trim(lines.last());
        if d.len() > 0 && d[0] != '#' {
            prev.push(d)
        } else {
            prev
        }
    }
}

/// The domain names in a blacklist file's text, line by line.
pub open spec fn domains_of(text: Seq<char>) -> Seq<Seq<char>> {
    domains_in_lines(split_char(text, '\n'))
}

pub fn domains_in(text: &str) -> (r: Vec<String>)
    ensures
        string_views(r@) == domains_of(text@),
{
    let v = chars_of(text);
    let lines = split_chars(v.as_slice(), '\n');
    let ghost ls = views(lines@);
    let mut out: Vec<String> = Vec::new();
    let mut i: usize = 0;
    while i < lines.len()
        invariant
            0 <= i <= lines@.len(),
            ls == views(lines@),
            string_views(out@) == domains_in_lines(ls.subrange(0, i as int)),
        decreases lines@.len() - i,
    {
        let d = trim_chars(lines[i].as_slice());
        proof {
            assert(ls.subrange(0, i + 1).drop_last() =~= ls.subrange(0, i as int));
            assert(ls.subrange(0, i + 1).last() == lines@[i as int]@);
        }
        if d.len() > 0 && d[0] != '#' {
            let ghost before = out@;
            out.push(string_from(d.as_slice()));
            proof {
                assert(string_views(out@) =~= string_views(before).push(d@));
            }
        }
        i = i + 1;
    }
    proof {
        assert(ls.subrange(0, lines@.len() as int) =~= ls);
    }
    out
}

/// The domain names of every readable blacklist file, in order; an
/// unreadable file (none) adds nothing.
pub open spec fn domains_of_files(texts: Seq<Option<Seq<char>>>) -> Seq<Seq<char>>
    decreases texts.len(),
{
    if texts.len() == 0 {
        Seq::empty()
    } else {
        domains_of_files(texts.drop_last()) + match texts.last() {
            Some(t) => domains_of(t),
            None => Seq::empty(),
        }
    }
}

pub open spec fn text_views(texts: Seq<Option<String>>) -> Seq<Option<Seq<char>>> {
    texts.map_values(|t: Option<String>| opt_view(t))
}

fn read_domains(texts: &[Option<String>]) -> (r: Vec<String>)
    ensures
        string_views(r@) == domains_of_files(text_views(texts@)),
{
    let ghost tv = text_views(texts@);
    let mut out: Vec<String> = Vec::new();
    let mut i: usize = 0;
    while i < texts.len()
        invariant
            0 <= i <= texts@.len(),
            tv == text_views(texts@),
            string_views(out@) == domains_of_files(tv.subrange(0, i as int)),
        decreases texts@.len() - i,
    {
        proof {
            assert(tv.subrange(0, i + 1).drop_last() =~= tv.subrange(0, i as int));
            assert(tv.subrange(0, i + 1).last() == opt_view(texts@[i as int]));
        }
        match &texts[i] {
            Some(t) => {
                let mut ds = domains_in(t.as_str());
                let ghost before = out@;
                let ghost added = ds@;
                out.append(&mut ds);
                proof {
                    assert(string_views(out@) =~= string_views(before) + string_views(added));
                }
            },
            None => {
                proof {
                    assert(string_views(out@) + Seq::<Seq<char>>::empty() =~= string_views(out@));
                }
            },
        }
        i = i + 1;
    }
    proof {
        assert(tv.subrange(0, texts@.len() as int) =~= tv);
    }
    out
}

// ------------------------------------------------------------ status

pub struct UnblockStatus {
    pub installed: bool,
    pub running: bool,
    /// "auto" | "manual" | "disabled" | "unknown"
    pub start_type: String,
    /// The service command line, shown verbatim.
    pub config: Option<String>,
    /// Sites this machine is actually unblocking, at most
    /// `MAX_DOMAINS_SHOWN`. Empty means no claim about scope at all.
    pub domains: Vec<String>,
    /// How many were found, which can exceed `domains.len()`.
    pub domain_count: usize,
    /// installed && running && start_type == "auto"
    pub healthy: bool,
}

impl UnblockStatus {
    /// The status of a service that is not installed.
    pub fn absent() -> (r: Self)
        ensures
            !r.installed,
            !r.running,
            r.start_type@ == "unknown"@,
            r.config is None,
            r.domains@.len() == 0,
            r.domain_count == 0,
            !r.healthy,
    {
        UnblockStatus {
            installed: false,
            running: false,
            start_type: owned("unknown"),
            config: None,
            domains: Vec::new(),
            domain_count: 0,
            healthy: false,
        }
    }
}

/// The first `n` items of `v`.
fn take_first(v: Vec<String>, n: usize) -> (r: Vec<String>)
    ensures
        r@ == (if v@.len() <= n {
            v@
        } else {
            v@.subrange(0, n as int)
        }),
{
    let mut v = v;
    if v.len() > n {
        v.truncate(n);
    }
    v
}

/// The unblocker's status from the service manager's answer and the texts
/// of the blacklist files its command line names (`blacklist_paths` of the
/// configuration, read in that order; none for a file that could not be
/// read). Without a configuration there is no claim about scope.
pub fn status(query: ServiceQuery, texts: &[Option<String>]) -> (r: Result<UnblockStatus, String>)
    ensures
        match query {
            ServiceQuery::Absent => r matches Ok(s) && !s.installed && !s.running
                && s.start_type@ == "unknown"@ && s.config is None && s.domains@.len() == 0
                && s.domain_count == 0 && !s.healthy,
            ServiceQuery::Failed(e) => r matches Err(m) && m@ == e@,
            ServiceQuery::Found { running, start_code, config } => r matches Ok(s) && {
                let all = match config {
                    Some(_) => domains_of_files(text_views(texts@)),
                    None => Seq::empty(),
                };
                &&& s.installed
                &&& s.running == running
                &&& s.start_type@ == start_type_name(start_code)
                &&& opt_view(s.config) == opt_view(config)
                &&& s.domain_count == all.len()
                &&& string_views(s.domains@) == if all.len() <= MAX_DOMAINS_SHOWN {
                    all
                } else {
                    all.subrange(0, MAX_DOMAINS_SHOWN as int)
                }
                &&& s.healthy == is_healthy(running, start_type_name(start_code))
            },
        },
{
    match query {
        ServiceQuery::Absent => Ok(UnblockStatus::absent()),
        ServiceQuery::Failed(e) => Err(e),
        ServiceQuery::Found { running, start_code, config } => {
            let start_type = start_type_of(start_code);
            let all = match &config {
                Some(_) => read_domains(texts),
                None => Vec::new(),
            };
            let domain_count = all.len();
            let ghost all_v = all@;
            let domains = take_first(all, MAX_DOMAINS_SHOWN);
            proof {
                if all_v.len() > MAX_DOMAINS_SHOWN {
                    assert(string_views(domains@) =~= string_views(all_v).subrange(
                        0,
                        MAX_DOMAINS_SHOWN as int,
                    ));
                }
            }
            let healthy = running && str_eq(start_type.as_str(), "auto");
            Ok(
                UnblockStatus {
                    installed: true,
                    running,
                    start_type,
                    config,
                    domains,
                    domain_count,
                    healthy,
                },
            )
        },
    }
}

} // verus!
