//! How the live process list names its rows: processes are grouped by
//! executable name, shown without ".exe", and matched without regard to case.

use vstd::prelude::*;
use crate::text::{chars_of, is_suffix, lowercase, slice_to_vec, str_ends_with, string_from, to_lowercase};

verus! {

/// The name a process is shown under: its image name without one ".exe" (or
/// ".EXE") at the end.
pub open spec fn display_name_of(raw: Seq<char>) -> Seq<char> {
    if is_suffix(".exe"@, raw) {
        raw.subrange(0, raw.len() - ".exe"@.len())
    } else if is_suffix(".EXE"@, raw) {
        raw.subrange(0, raw.len() - ".EXE"@.len())
    } else {
        raw
    }
}

pub fn display_name(raw: &str) -> (r: String)
    ensures
        r@ == display_name_of(raw@),
{
    let v = chars_of(raw);
    if str_ends_with(raw, ".exe") {
        let n = chars_of(".exe").len();
        string_from(slice_to_vec(v.as_slice(), 0, v.len() - n).as_slice())
    } else if str_ends_with(raw, ".EXE") {
        let n = chars_of(".EXE").len();
        string_from(slice_to_vec(v.as_slice(), 0, v.len() - n).as_slice())
    } else {
        string_from(v.as_slice())
    }
}

/// Processes whose shown names agree once lowercased form one group.
pub fn group_key(display: &str) -> (r: String)
    ensures
        r@ == lowercase(display@),
{
    to_lowercase(display)
}

/// One live process as the list sees it.
pub struct ProcessSample {
    pub pid: u32,
    /// The image name, e.g. "steamwebhelper.exe".
    pub name: String,
    /// Bytes of memory.
    pub memory: u64,
}

/// The integer totals of one row: processes sharing a name are one row,
/// with their costs summed, so seven helpers show as one with the real total.
pub struct GroupTotals {
    /// The shown name of the first process found in the group.
    pub name: String,
    pub memory: u64,
    pub count: u32,
    pub pids: Vec<u32>,
}

pub open spec fn sample_view(s: ProcessSample) -> (u32, Seq<char>, u64) {
    (s.pid, s.name@, s.memory)
}

/// (key, shown name, memory, count, pids) of each row, in order of first
/// appearance.
pub type RowView = (Seq<char>, Seq<char>, int, int, Seq<u32>);

/// The first row with key `k`, searching from `from`.
pub open spec fn row_index(rows: Seq<RowView>, k: Seq<char>, from: int) -> Option<int>
    decreases rows.len() - from,
{
    if from < 0 || from >= rows.len() {
        None
    } else if rows[from].0 == k {
        Some(from)
    } else {
        row_index(rows, k, from + 1)
    }
}

/// The rows the samples make: the Idle pseudo-process (PID 0) would dwarf
/// everything and is left out; every other process joins the row of its
/// lowercase shown name, or starts one.
pub open spec fn grouped(samples: Seq<(u32, Seq<char>, u64)>) -> Seq<RowView>
    decreases samples.len(),
{
    if samples.len() == 0 {
        Seq::empty()
    } else {
        let prev = grouped(samples.drop_last());
        let (pid, raw, mem) = samples.last();
        if pid == 0 {
            prev
        } else {
            let shown = display_name_of(raw);
            let k = lowercase(shown);
            match row_index(prev, k, 0) {
                Some(i) => prev.update(
                    i,
                    (prev[i].0, prev[i].1, prev[i].2 + mem, prev[i].3 + 1, prev[i].4.push(pid)),
                ),
                None => prev.push((k, shown, mem as int, 1, seq![pid])),
            }
        }
    }
}

/// All the memory of the samples.
pub open spec fn total_memory(samples: Seq<(u32, Seq<char>, u64)>) -> int
    decreases samples.len(),
{
    if samples.len() == 0 {
        0
    } else {
        total_memory(samples.drop_last()) + samples.last().2
    }
}

pub open spec fn totals_view(g: GroupTotals) -> (Seq<char>, int, int, Seq<u32>) {
    (g.name@, g.memory as int, g.count as int, g.pids@)
}

pub open spec fn without_keys(rows: Seq<RowView>) -> Seq<(Seq<char>, int, int, Seq<u32>)> {
    rows.map_values(|r: RowView| (r.1, r.2, r.3, r.4))
}

proof fn lemma_row_index(rows: Seq<RowView>, k: Seq<char>, from: int)
    requires
        0 <= from,
    ensures
        row_index(rows, k, from) matches Some(i) ==> from <= i < rows.len() && rows[i].0 == k,
        row_index(rows, k, from) is None ==> forall|j: int| from <= j < rows.len() ==> rows[j].0 != k,
    decreases rows.len() - from,
{
    if from < rows.len() && rows[from].0 != k {
        lemma_row_index(rows, k, from + 1);
    }
}

/// Every row's memory and count stay within what the samples hold.
proof fn lemma_grouped_bounds(samples: Seq<(u32, Seq<char>, u64)>)
    ensures
        total_memory(samples) >= 0,
        forall|i: int| 0 <= i < grouped(samples).len() ==> 0 <= #[trigger] grouped(samples)[i].2
            <= total_memory(samples) && 1 <= grouped(samples)[i].3 <= samples.len(),
        grouped(samples).len() <= samples.len(),
    decreases samples.len(),
{
    if samples.len() > 0 {
        let d = samples.drop_last();
        lemma_grouped_bounds(d);
        let prev = grouped(d);
        let (pid, raw, mem) = samples.last();
        assert(total_memory(samples) == total_memory(d) + mem);
        if pid != 0 {
            let k = lowercase(display_name_of(raw));
            lemma_row_index(prev, k, 0);
            let g = grouped(samples);
            assert forall|i: int| 0 <= i < g.len() implies 0 <= #[trigger] g[i].2 <= total_memory(
                samples,
            ) && 1 <= g[i].3 <= samples.len() by {
                if i < prev.len() {
                    assert(0 <= prev[i].2 <= total_memory(d));
                }
            }
        }
    }
}

/// The rows of the live process list, without the CPU shares.
pub fn group_processes(samples: &[ProcessSample]) -> (r: Vec<GroupTotals>)
    requires
        total_memory(samples@.map_values(|s: ProcessSample| sample_view(s))) <= u64::MAX,
        samples@.len() <= u32::MAX,
    ensures
        r@.map_values(|g: GroupTotals| totals_view(g)) == without_keys(
            grouped(samples@.map_values(|s: ProcessSample| sample_view(s))),
        ),
{
    let ghost sv = samples@.map_values(|s: ProcessSample| sample_view(s));
    let mut keys: Vec<String> = Vec::new();
    let mut names: Vec<String> = Vec::new();
    let mut memory: Vec<u64> = Vec::new();
    let mut counts: Vec<u32> = Vec::new();
    let mut pids: Vec<Vec<u32>> = Vec::new();
    let mut i: usize = 0;
    while i < samples.len()
        invariant
            0 <= i <= samples@.len(),
            sv == samples@.map_values(|s: ProcessSample| sample_view(s)),
            total_memory(sv) <= u64::MAX,
            samples@.len() <= u32::MAX,
            keys@.len() == names@.len() && names@.len() == memory@.len() && memory@.len()
                == counts@.len() && counts@.len() == pids@.len(),
            grouped(sv.subrange(0, i as int)).len() == keys@.len(),
            forall|j: int|
                0 <= j < keys@.len() ==> #[trigger] grouped(sv.subrange(0, i as int))[j] == (
                    keys@[j]@,
                    names@[j]@,
                    memory@[j] as int,
                    counts@[j] as int,
                    pids@[j]@,
                ),
        decreases samples@.len() - i,
    {
        let ghost prefix = sv.subrange(0, i as int);
        let ghost next = sv.subrange(0, i + 1);
        proof {
            assert(next.drop_last() =~= prefix);
            assert(next.last() == sv[i as int]);
            lemma_grouped_bounds(next);
            lemma_total_prefix(sv, i as int + 1);
        }
        let pid = samples[i].pid;
        if pid != 0 {
            let shown = display_name(samples[i].name.as_str());
            let key = group_key(shown.as_str());
            let mut found: Option<usize> = None;
            let mut j: usize = 0;
            while j < keys.len()
                invariant
                    0 <= j <= keys@.len(),
                    found matches Some(f) ==> f < j && keys@[f as int]@ == key@ && forall|q: int|
                        0 <= q < f ==> keys@[q]@ != key@,
                    found is None ==> forall|q: int| 0 <= q < j ==> keys@[q]@ != key@,
                decreases keys@.len() - j,
            {
                if found.is_none() && crate::text::str_eq(keys[j].as_str(), key.as_str()) {
                    found = Some(j);
                }
                j = j + 1;
            }
            proof {
                lemma_row_index(grouped(prefix), key@, 0);
            }
            match found {
                Some(j) => {
                    proof {
                        assert(grouped(prefix)[j as int].0 == key@);
                        assert forall|q: int| 0 <= q < j implies grouped(prefix)[q].0 != key@ by {
                            assert(grouped(prefix)[q].0 == keys@[q]@);
                        }
                        lemma_first_row(grouped(prefix), key@, j as int);
                        assert(grouped(next)[j as int].2 == memory@[j as int] + samples@[i as int].memory);
                    }
                    let m = memory[j] + samples[i].memory;
                    memory.set(j, m);
                    let c = counts[j] + 1;
                    counts.set(j, c);
                    let mut ps = pids.remove(j);
                    ps.push(pid);
                    pids.insert(j, ps);
                    proof {
                        assert forall|q: int| 0 <= q < keys@.len() implies #[trigger] grouped(next)[q]
                            == (keys@[q]@, names@[q]@, memory@[q] as int, counts@[q] as int, pids@[q]@) by {
                            if q != j {
                                assert(grouped(next)[q] == grouped(prefix)[q]);
                            }
                        }
                    }
                },
                None => {
                    proof {
                        assert forall|q: int| 0 <= q < grouped(prefix).len() implies grouped(prefix)[q].0
                            != key@ by {
                            assert(grouped(prefix)[q].0 == keys@[q]@);
                        }
                        lemma_no_row(grouped(prefix), key@);
                    }
                    let mut first: Vec<u32> = Vec::new();
                    first.push(pid);
                    let ghost shown_v = shown@;
                    keys.push(key);
                    names.push(shown);
                    memory.push(samples[i].memory);
                    counts.push(1);
                    pids.push(first);
                    proof {
                        assert forall|q: int| 0 <= q < keys@.len() implies #[trigger] grouped(next)[q]
                            == (keys@[q]@, names@[q]@, memory@[q] as int, counts@[q] as int, pids@[q]@) by {
                            if q == keys@.len() - 1 {
                                assert(pids@[q]@ =~= seq![pid]);
                            }
                        }
                    }
                },
            }
        } else {
            proof {
                assert(grouped(next) == grouped(prefix));
            }
        }
        i = i + 1;
    }
    proof {
        assert(sv.subrange(0, samples@.len() as int) =~= sv);
    }
    let mut out: Vec<GroupTotals> = Vec::new();
    let ghost rows = grouped(sv);
    let mut names = names;
    let mut memory = memory;
    let mut counts = counts;
    let mut pids = pids;
    let total: usize = names.len();
    let ghost n = names@.len();
    let ghost names0 = names@;
    let ghost memory0 = memory@;
    let ghost counts0 = counts@;
    let ghost pids0 = pids@;
    let mut k: usize = 0;
    while names.len() > 0
        invariant
            n == names0.len(),
            n == memory0.len(),
            n == counts0.len(),
            n == pids0.len(),
            n == total,
            names@.len() + k == n,
            names@.len() == memory@.len() && memory@.len() == counts@.len() && counts@.len()
                == pids@.len(),
            names@ == names0.subrange(k as int, n as int),
            memory@ == memory0.subrange(k as int, n as int),
            counts@ == counts0.subrange(k as int, n as int),
            pids@ == pids0.subrange(k as int, n as int),
            out@.len() == k,
            forall|q: int| 0 <= q < k ==> #[trigger] totals_view(out@[q]) == (
                names0[q]@,
                memory0[q] as int,
                counts0[q] as int,
                pids0[q]@,
            ),
        decreases names@.len(),
    {
        let ghost before_memory = memory@;
        let ghost before_counts = counts@;
        let ghost before_pids = pids@;
        let ghost before_names = names@;
        let name = names.remove(0);
        let mem = memory.remove(0);
        let count = counts.remove(0);
        let ps = pids.remove(0);
        proof {
            assert(name == names0[k as int]);
            assert(mem == memory0[k as int]);
            assert(count == counts0[k as int]);
            assert(ps == pids0[k as int]);
        }
        out.push(GroupTotals { name, memory: mem, count, pids: ps });
        k = k + 1;
        proof {
            assert(names@ =~= names0.subrange(k as int, n as int));
            assert(memory@ =~= memory0.subrange(k as int, n as int));
            assert(counts@ =~= counts0.subrange(k as int, n as int));
            assert(pids@ =~= pids0.subrange(k as int, n as int));
        }
    }
    proof {
        assert(out@.map_values(|g: GroupTotals| totals_view(g)) =~= without_keys(rows));
    }
    out
}

proof fn lemma_total_prefix(sv: Seq<(u32, Seq<char>, u64)>, i: int)
    requires
        0 <= i <= sv.len(),
    ensures
        total_memory(sv.subrange(0, i)) <= total_memory(sv),
    decreases sv.len() - i,
{
    if i < sv.len() {
        lemma_total_prefix(sv, i + 1);
        assert(sv.subrange(0, i + 1).drop_last() =~= sv.subrange(0, i));
    } else {
        assert(sv.subrange(0, i) =~= sv);
    }
}

proof fn lemma_first_row(rows: Seq<RowView>, k: Seq<char>, j: int)
    requires
        0 <= j < rows.len(),
        rows[j].0 == k,
        forall|q: int| 0 <= q < j ==> rows[q].0 != k,
    ensures
        row_index(rows, k, 0) == Some(j),
{
    lemma_first_row_from(rows, k, j, 0);
}

proof fn lemma_first_row_from(rows: Seq<RowView>, k: Seq<char>, j: int, from: int)
    requires
        0 <= from <= j < rows.len(),
        rows[j].0 == k,
        forall|q: int| from <= q < j ==> rows[q].0 != k,
    ensures
        row_index(rows, k, from) == Some(j),
    decreases j - from,
{
    if from < j {
        lemma_first_row_from(rows, k, j, from + 1);
    }
}

proof fn lemma_no_row(rows: Seq<RowView>, k: Seq<char>)
    requires
        forall|q: int| 0 <= q < rows.len() ==> rows[q].0 != k,
    ensures
        row_index(rows, k, 0) is None,
{
    lemma_row_index(rows, k, 0);
    if let Some(i) = row_index(rows, k, 0) {
        assert(rows[i].0 != k);
    }
}

} // verus!
