//! Usage evidence from UserAssist, the registry key where Explorer counts
//! every program the user launches on purpose. Auto-started runs are not
//! counted there, which is what makes it the right signal for "do you use
//! this app, or does it just start itself".
//!
//! Value names are ROT13-encoded paths; each value's data holds the run count
//! at offset 0x04 (u32, little-endian) and the last execution FILETIME at
//! offset 0x3C (u64, little-endian).

use vstd::prelude::*;
use crate::clock::unix_time_nanos;
use crate::text::{
    after_last, after_last_chars, chars_of, is_suffix, lowercase, str_eq, string_from,
    to_lowercase, trim_end_pat, trim_end_pat_chars,
};

verus! {

/// Deliberate-use evidence for one program.
#[derive(Clone, Copy, PartialEq, Eq, Debug, Structural)]
pub struct Usage {
    pub run_count: u32,
    /// Days since the user last opened it. None if the timestamp is missing.
    pub last_run_days: Option<u32>,
}

// ------------------------------------------------------------ ROT13

pub open spec fn rot13_char(c: char) -> char {
    if 'a' <= c && c <= 'z' {
        ((((c as u32) - 97 + 13) % 26 + 97) as u32) as char
    } else if 'A' <= c && c <= 'Z' {
        ((((c as u32) - 65 + 13) % 26 + 65) as u32) as char
    } else {
        c
    }
}

/// Every ASCII letter rotated by 13 places; everything else kept.
pub open spec fn rot13_of(s: Seq<char>) -> Seq<char> {
    s.map_values(|c: char| rot13_char(c))
}

fn rot13_one(c: char) -> (r: char)
    ensures
        r == rot13_char(c),
{
    if 'a' <= c && c <= 'z' {
        let x: u8 = ((c as u8) - 97 + 13) % 26 + 97;
        x as char
    } else if 'A' <= c && c <= 'Z' {
        let x: u8 = ((c as u8) - 65 + 13) % 26 + 65;
        x as char
    } else {
        c
    }
}

pub fn rot13(s: &str) -> (r: String)
    ensures
        r@ == rot13_of(s@),
{
    let v = chars_of(s);
    let mut out: Vec<char> = Vec::new();
    let mut i: usize = 0;
    while i < v.len()
        invariant
            0 <= i <= v@.len(),
            v@ == s@,
            out@ == rot13_of(v@.subrange(0, i as int)),
        decreases v@.len() - i,
    {
        out.push(rot13_one(v[i]));
        i = i + 1;
        proof {
            assert(out@ =~= rot13_of(v@.subrange(0, i as int)));
        }
    }
    proof {
        assert(v@.subrange(0, v@.len() as int) =~= v@);
    }
    string_from(out.as_slice())
}

/// Rotating twice gives back the same text: ROT13 is its own inverse.
pub proof fn law_rot13_involution(s: Seq<char>)
    ensures
        rot13_of(rot13_of(s)) == s,
{
    assert forall|i: int| 0 <= i < s.len() implies #[trigger] rot13_of(rot13_of(s))[i] == s[i] by {
        let c = s[i];
        let u = c as u32;
        if 'a' <= c && c <= 'z' {
            assert(rot13_char(rot13_char(c)) == c) by {
                assert(97 <= u <= 122);
            }
        } else if 'A' <= c && c <= 'Z' {
            assert(rot13_char(rot13_char(c)) == c) by {
                assert(65 <= u <= 90);
            }
        }
    }
    assert(rot13_of(rot13_of(s)) =~= s);
}

// ------------------------------------------------------------ timestamps

pub open spec fn filetime_unix_epoch() -> int {
    116_444_736_000_000_000
}

/// A FILETIME (100ns ticks since 1601) as days before `now_secs` (seconds
/// since the Unix epoch). None for a zero or bogus timestamp, one in the
/// future, or an unreadable clock.
pub open spec fn days_ago(filetime: u64, now_secs: Option<u64>) -> Option<u32> {
    if filetime == 0 || filetime < filetime_unix_epoch() {
        None
    } else {
        let unix_secs = (filetime - filetime_unix_epoch()) / 10_000_000;
        match now_secs {
            None => None,
            Some(now) => if unix_secs > now {
                None
            } else {
                Some(((now - unix_secs) / 86_400) as u32)
            },
        }
    }
}

pub fn days_ago_at(filetime: u64, now_secs: Option<u64>) -> (r: Option<u32>)
    ensures
        r == days_ago(filetime, now_secs),
{
    if filetime == 0 {
        return None;
    }
    if filetime < 116_444_736_000_000_000u64 {
        return None;
    }
    let unix_secs = (filetime - 116_444_736_000_000_000u64) / 10_000_000;
    match now_secs {
        None => None,
        Some(now) => if unix_secs > now {
            None
        } else {
            Some(((now - unix_secs) / 86_400) as u32)
        },
    }
}

/// Whole seconds of a clock reading in nanoseconds.
pub open spec fn secs_of(nanos: Option<u128>) -> Option<u64> {
    match nanos {
        Some(n) => Some((n / 1_000_000_000) as u64),
        None => None,
    }
}

fn secs_from_nanos(nanos: Option<u128>) -> (r: Option<u64>)
    ensures
        r == secs_of(nanos),
{
    match nanos {
        Some(n) => Some((n / 1_000_000_000) as u64),
        None => None,
    }
}

/// A FILETIME as days ago, measured against the clock now.
pub fn filetime_days_ago(filetime: u64) -> (r: Option<u32>)
    ensures
        exists|nanos: Option<u128>| r == days_ago(filetime, secs_of(nanos)),
        (filetime == 0 || filetime < filetime_unix_epoch()) ==> r is None,
{
    let nanos = unix_time_nanos();
    days_ago_at(filetime, secs_from_nanos(nanos))
}

// ------------------------------------------------------------ value names and data

/// The map key for a UserAssist value name: the decoded, lowercased path cut
/// after its last backslash. Exe launches keep the ".exe" name; shortcut
/// launches drop ".lnk" and key by the shortcut's stem. Other entries carry
/// no key.
pub open spec fn usage_key(value_name: Seq<char>) -> Option<Seq<char>> {
    let base = after_last(lowercase(rot13_of(value_name)), '\\');
    if is_suffix(".exe"@, base) {
        Some(base)
    } else if is_suffix(".lnk"@, base) {
        Some(trim_end_pat(base, ".lnk"@))
    } else {
        None
    }
}

pub fn usage_key_of(value_name: &str) -> (r: Option<String>)
    ensures
        crate::text::opt_view(r) == usage_key(value_name@),
{
    let decoded = rot13(value_name);
    let lower = to_lowercase(decoded.as_str());
    let lv = chars_of(lower.as_str());
    let base = after_last_chars(lv.as_slice(), '\\');
    let b = string_from(base.as_slice());
    if crate::text::str_ends_with(b.as_str(), ".exe") {
        Some(b)
    } else if crate::text::str_ends_with(b.as_str(), ".lnk") {
        let pat = chars_of(".lnk");
        let t = trim_end_pat_chars(base.as_slice(), pat.as_slice());
        Some(string_from(t.as_slice()))
    } else {
        None
    }
}

/// A little-endian u32 at byte offset `i`.
pub open spec fn le_u32(b: Seq<u8>, i: int) -> int {
    b[i] + 256 * b[i + 1] + 65536 * b[i + 2] + 16777216 * b[i + 3]
}

/// A little-endian u64 at byte offset `i`.
pub open spec fn le_u64(b: Seq<u8>, i: int) -> int {
    le_u32(b, i) + 4294967296 * le_u32(b, i + 4)
}

/// The run count and last-run FILETIME from a UserAssist value; none when
/// the value is too short to hold both.
pub open spec fn usage_record(b: Seq<u8>) -> Option<(u32, u64)> {
    if b.len() < 0x3C + 8 {
        None
    } else {
        Some((le_u32(b, 4) as u32, le_u64(b, 0x3C) as u64))
    }
}

fn read_u32(b: &[u8], i: usize) -> (r: u32)
    requires
        i + 4 <= b@.len(),
    ensures
        r == le_u32(b@, i as int),
{
    (b[i] as u32) + 256 * (b[i + 1] as u32) + 65536 * (b[i + 2] as u32) + 16777216 * (b[i
        + 3] as u32)
}

pub fn parse_usage_record(b: &[u8]) -> (r: Option<(u32, u64)>)
    ensures
        r == usage_record(b@),
{
    if b.len() < 0x3C + 8 {
        return None;
    }
    let count = read_u32(b, 4);
    let lo = read_u32(b, 0x3C);
    let hi = read_u32(b, 0x40);
    let filetime: u64 = (lo as u64) + 4294967296 * (hi as u64);
    Some((count, filetime))
}

// ------------------------------------------------------------ merging evidence

/// Two pieces of evidence for the same program combined into the strongest:
/// the highest count and the most recent last run.
pub open spec fn merged(a: Usage, b: Usage) -> Usage {
    Usage {
        run_count: if a.run_count >= b.run_count {
            a.run_count
        } else {
            b.run_count
        },
        last_run_days: match (a.last_run_days, b.last_run_days) {
            (Some(x), Some(y)) => Some(if x <= y {
                x
            } else {
                y
            }),
            (Some(x), None) => Some(x),
            (None, y) => y,
        },
    }
}

fn merge(a: Usage, b: Usage) -> (r: Usage)
    ensures
        r == merged(a, b),
{
    Usage {
        run_count: if a.run_count >= b.run_count {
            a.run_count
        } else {
            b.run_count
        },
        last_run_days: match (a.last_run_days, b.last_run_days) {
            (Some(x), Some(y)) => Some(if x <= y {
                x
            } else {
                y
            }),
            (Some(x), None) => Some(x),
            (None, y) => y,
        },
    }
}

/// Merging does not depend on which piece of evidence came first.
pub proof fn law_merge_commutes(a: Usage, b: Usage)
    ensures
        merged(a, b) == merged(b, a),
{
}

/// Merging three pieces gives the same answer however they are grouped.
pub proof fn law_merge_associates(a: Usage, b: Usage, c: Usage)
    ensures
        merged(merged(a, b), c) == merged(a, merged(b, c)),
{
}

/// The last entry with key `k`.
pub open spec fn lookup(s: Seq<(Seq<char>, Usage)>, k: Seq<char>) -> Option<Usage>
    decreases s.len(),
{
    if s.len() == 0 {
        None
    } else if s.last().0 == k {
        Some(s.last().1)
    } else {
        lookup(s.drop_last(), k)
    }
}

pub open spec fn keys_distinct(s: Seq<(Seq<char>, Usage)>) -> bool {
    forall|i: int, j: int| 0 <= i < j < s.len() ==> s[i].0 != s[j].0
}

/// Under distinct keys, the entry holding `k` is what `lookup` finds, and a
/// key held by no entry is found nowhere.
proof fn lemma_lookup(s: Seq<(Seq<char>, Usage)>, k: Seq<char>)
    requires
        keys_distinct(s),
    ensures
        forall|i: int| 0 <= i < s.len() && s[i].0 == k ==> lookup(s, k) == Some(s[i].1),
        (forall|i: int| 0 <= i < s.len() ==> s[i].0 != k) ==> lookup(s, k) is None,
    decreases s.len(),
{
    if s.len() > 0 {
        let d = s.drop_last();
        assert(keys_distinct(d)) by {
            assert forall|i: int, j: int| 0 <= i < j < d.len() implies d[i].0 != d[j].0 by {
                assert(d[i] == s[i] && d[j] == s[j]);
            }
        }
        lemma_lookup(d, k);
        assert forall|i: int| 0 <= i < s.len() && s[i].0 == k implies lookup(s, k) == Some(
            s[i].1,
        ) by {
            if i < s.len() - 1 {
                assert(d[i] == s[i]);
                assert(s.last().0 != k);
            }
        }
        if forall|i: int| 0 <= i < s.len() ==> s[i].0 != k {
            assert(s.last().0 != k);
            assert forall|i: int| 0 <= i < d.len() implies d[i].0 != k by {
                assert(d[i] == s[i]);
            }
        }
    }
}

/// Usage evidence by lowercase key: exe file names ("steam.exe") and
/// shortcut stems ("megasync").
pub struct UsageMap {
    keys: Vec<String>,
    values: Vec<Usage>,
}

impl UsageMap {
    pub closed spec fn entry_views(self) -> Seq<(Seq<char>, Usage)> {
        Seq::new(self.keys@.len(), |i: int| (self.keys@[i]@, self.values@[i]))
    }

    pub closed spec fn wf(self) -> bool {
        &&& self.keys@.len() == self.values@.len()
        &&& keys_distinct(self.entry_views())
    }

    /// The evidence held for each key.
    pub closed spec fn view(self) -> Map<Seq<char>, Usage> {
        Map::new(
            |k: Seq<char>| lookup(self.entry_views(), k) is Some,
            |k: Seq<char>| lookup(self.entry_views(), k).unwrap(),
        )
    }

    pub fn new() -> (m: Self)
        ensures
            m.wf(),
            m.view() == Map::<Seq<char>, Usage>::empty(),
    {
        let m = UsageMap { keys: Vec::new(), values: Vec::new() };
        proof {
            assert(m.entry_views().len() == 0);
            assert(m.view() =~= Map::<Seq<char>, Usage>::empty());
        }
        m
    }

    fn find(&self, key: &str) -> (r: Option<usize>)
        requires
            self.wf(),
        ensures
            match r {
                Some(i) => i < self.entry_views().len() && self.entry_views()[i as int].0 == key@,
                None => forall|i: int|
                    0 <= i < self.entry_views().len() ==> self.entry_views()[i].0 != key@,
            },
    {
        let mut i: usize = 0;
        while i < self.keys.len()
            invariant
                0 <= i <= self.keys@.len(),
                self.entry_views().len() == self.keys@.len(),
                forall|j: int| 0 <= j < i ==> self.entry_views()[j].0 != key@,
            decreases self.keys@.len() - i,
        {
            if str_eq(self.keys[i].as_str(), key) {
                return Some(i);
            }
            i = i + 1;
        }
        None
    }

    /// The evidence for `key`, if any was recorded.
    pub fn get(&self, key: &str) -> (r: Option<Usage>)
        requires
            self.wf(),
        ensures
            r == (if self.view().contains_key(key@) {
                Some(self.view()[key@])
            } else {
                None
            }),
    {
        proof {
            lemma_lookup(self.entry_views(), key@);
        }
        match self.find(key) {
            Some(i) => Some(self.values[i]),
            None => None,
        }
    }

    /// Record one piece of evidence: a new key is inserted; a known key keeps
    /// the strongest evidence of the two.
    pub fn record(&mut self, key: String, u: Usage)
        requires
            old(self).wf(),
        ensures
            final(self).wf(),
            final(self).view() == old(self).view().insert(
                key@,
                if old(self).view().contains_key(key@) {
                    merged(old(self).view()[key@], u)
                } else {
                    u
                },
            ),
    {
        let ghost before = self.entry_views();
        proof {
            lemma_lookup(before, key@);
        }
        match self.find(key.as_str()) {
            Some(i) => {
                let m = merge(self.values[i], u);
                self.values.set(i, m);
                proof {
                    let after = self.entry_views();
                    assert(after =~= before.update(i as int, (key@, m)));
                    assert(keys_distinct(after)) by {
                        assert forall|a: int, b: int| 0 <= a < b < after.len() implies after[a].0
                            != after[b].0 by {
                            assert(after[a].0 == before[a].0 && after[b].0 == before[b].0);
                        }
                    }
                    assert forall|k: Seq<char>| #[trigger] lookup(after, k) == if k == key@ {
                        Some(m)
                    } else {
                        lookup(before, k)
                    } by {
                        lemma_lookup(before, k);
                        lemma_lookup(after, k);
                        if k != key@ {
                            if exists|j: int| 0 <= j < before.len() && before[j].0 == k {
                                let j = choose|j: int| 0 <= j < before.len() && before[j].0 == k;
                                assert(after[j] == before[j]);
                            } else {
                                assert forall|j: int| 0 <= j < after.len() implies after[j].0
                                    != k by {
                                    if j != i {
                                        assert(after[j] == before[j]);
                                    }
                                }
                            }
                        } else {
                            assert(after[i as int] == (key@, m));
                        }
                    }
                    assert(self.view() =~= old(self).view().insert(
                        key@,
                        merged(old(self).view()[key@], u),
                    ));
                }
            },
            None => {
                let ghost kv = key@;
                self.keys.push(key);
                self.values.push(u);
                proof {
                    let after = self.entry_views();
                    assert(after =~= before.push((kv, u)));
                    assert(after.drop_last() =~= before);
                    assert(keys_distinct(after)) by {
                        assert forall|a: int, b: int| 0 <= a < b < after.len() implies after[a].0
                            != after[b].0 by {
                            assert(after[a] == before[a] || a == before.len());
                        }
                    }
                    assert forall|k: Seq<char>| #[trigger] lookup(after, k) == if k == kv {
                        Some(u)
                    } else {
                        lookup(before, k)
                    } by {}
                    assert(self.view() =~= old(self).view().insert(kv, u));
                }
            },
        }
    }
}

/// The usage map built from UserAssist values, each a name and its data,
/// measured against `now_secs`. Values whose name carries no key, or whose
/// data is too short, are skipped.
pub open spec fn collected(values: Seq<(Seq<char>, Seq<u8>)>, now_secs: Option<u64>) -> Map<
    Seq<char>,
    Usage,
>
    decreases values.len(),
{
    if values.len() == 0 {
        Map::empty()
    } else {
        let m = collected(values.drop_last(), now_secs);
        let (name, data) = values.last();
        match (usage_key(name), usage_record(data)) {
            (Some(k), Some((count, filetime))) => {
                let u = Usage { run_count: count, last_run_days: days_ago(filetime, now_secs) };
                m.insert(
                    k,
                    if m.contains_key(k) {
                        merged(m[k], u)
                    } else {
                        u
                    },
                )
            },
            _ => m,
        }
    }
}

pub open spec fn value_views(values: Seq<(String, Vec<u8>)>) -> Seq<(Seq<char>, Seq<u8>)> {
    values.map_values(|v: (String, Vec<u8>)| (v.0@, v.1@))
}

/// Map from a lowercase key to usage, from the UserAssist values of both the
/// exe and the shortcut subkeys, in the order given, measured against
/// `now_secs`.
pub fn collect(values: &[(String, Vec<u8>)], now_secs: Option<u64>) -> (m: UsageMap)
    ensures
        m.wf(),
        m.view() == collected(value_views(values@), now_secs),
{
    let mut m = UsageMap::new();
    let mut i: usize = 0;
    while i < values.len()
        invariant
            0 <= i <= values@.len(),
            m.wf(),
            m.view() == collected(value_views(values@.subrange(0, i as int)), now_secs),
        decreases values@.len() - i,
    {
        let ghost prefix = values@.subrange(0, i as int + 1);
        proof {
            assert(value_views(prefix).drop_last() =~= value_views(values@.subrange(0, i as int)));
            assert(value_views(prefix).last() == (values@[i as int].0@, values@[i as int].1@));
        }
        let key = usage_key_of(values[i].0.as_str());
        let rec = parse_usage_record(values[i].1.as_slice());
        match (key, rec) {
            (Some(k), Some((count, filetime))) => {
                let u = Usage { run_count: count, last_run_days: days_ago_at(filetime, now_secs) };
                m.record(k, u);
            },
            _ => {},
        }
        i = i + 1;
    }
    proof {
        assert(values@.subrange(0, values@.len() as int) =~= values@);
    }
    m
}

/// The usage map measured against the clock now.
pub fn collect_now(values: &[(String, Vec<u8>)]) -> (m: UsageMap)
    ensures
        m.wf(),
        exists|nanos: Option<u128>| m.view() == collected(value_views(values@), secs_of(nanos)),
{
    collect(values, secs_from_nanos(unix_time_nanos()))
}

} // verus!
