//! Point-in-time measurements of the machine, as the sampler hands them in.
//!
//! Percentages and temperatures are whole numbers of thousandths: a CPU
//! usage of 95.5 % is `95_500`, a temperature of 60 degrees Celsius is
//! `60_000`.

use vstd::prelude::*;
use vstd::seq_lib::{to_multiset_build, to_multiset_remove};
use crate::text::{
    has_prefix, lines, lines_of, parse_u32, parse_u64, parsed_u32, parsed_u64, starts_with, words,
    words_of,
};

verus! {

/// One process of a snapshot.
#[derive(Debug, Clone)]
pub struct ProcessInfo {
    pub pid: u32,
    pub name: String,
    /// Resident memory, in bytes.
    pub memory_bytes: u64,
    /// CPU usage, in thousandths of a percent.
    pub cpu_percentage: i64,
}

impl ProcessInfo {
    /// A copy of this process entry.
    pub fn duplicate(&self) -> (copy: Self)
        ensures
            copy == *self,
    {
        ProcessInfo {
            pid: self.pid,
            name: self.name.clone(),
            memory_bytes: self.memory_bytes,
            cpu_percentage: self.cpu_percentage,
        }
    }
}

/// A snapshot of system load.
#[derive(Debug)]
pub struct SystemStats {
    /// Global CPU usage, in thousandths of a percent.
    pub cpu_usage: i64,
    pub total_memory_bytes: u64,
    pub used_memory_bytes: u64,
    /// Memory in use, in thousandths of a percent.
    pub memory_percentage: i64,
    /// CPU temperature, in thousandths of a degree Celsius.
    pub temperature: i64,
    /// The processes, heaviest first.
    pub top_processes: Vec<ProcessInfo>,
}

/// Whether `s` lists its processes by descending memory.
pub open spec fn by_descending_memory(s: Seq<ProcessInfo>) -> bool {
    forall|i: int, j: int| 0 <= i <= j < s.len() ==> s[i].memory_bytes >= s[j].memory_bytes
}

/// The share of `total` that `used` is, in thousandths of a percent; zero
/// where there is no memory at all, and the largest number where the
/// share does not fit.
pub open spec fn memory_share(used: u64, total: u64) -> int {
    if total == 0 {
        0
    } else if used * 100_000 / (total as int) > i64::MAX {
        i64::MAX as int
    } else {
        used * 100_000 / (total as int)
    }
}

/// Computes the share of memory in use.
pub fn memory_percentage(used_memory_bytes: u64, total_memory_bytes: u64) -> (share: i64)
    ensures
        share == memory_share(used_memory_bytes, total_memory_bytes),
{
    if total_memory_bytes == 0 {
        return 0;
    }
    let scaled: u128 = used_memory_bytes as u128 * 100_000;
    let share: u128 = scaled / total_memory_bytes as u128;
    if share > i64::MAX as u128 {
        i64::MAX
    } else {
        share as i64
    }
}

/// Whether `output` is `input` ordered by descending memory, processes of
/// equal memory staying in the order they came in. `order` tells for each
/// place of `output` the place of `input` that its process came from.
pub open spec fn ordered_by_memory(
    input: Seq<ProcessInfo>,
    output: Seq<ProcessInfo>,
    order: Seq<int>,
) -> bool {
    &&& output.len() == input.len()
    &&& order.len() == input.len()
    &&& forall|k: int|
        0 <= k < order.len() ==> 0 <= #[trigger] order[k] < input.len() && output[k]
            == input[order[k]]
    &&& forall|i: int, j: int|
        0 <= i < j < order.len() ==> output[i].memory_bytes > output[j].memory_bytes || (
        output[i].memory_bytes == output[j].memory_bytes && #[trigger] order[i]
            < #[trigger] order[j])
}

/// Orders `processes` by descending memory. Nothing is added or lost, and
/// processes of equal memory stay in the order they came in.
pub fn get_all_processes(processes: Vec<ProcessInfo>) -> (sorted: Vec<ProcessInfo>)
    ensures
        by_descending_memory(sorted@),
        sorted@.to_multiset() == processes@.to_multiset(),
        exists|order: Seq<int>| ordered_by_memory(processes@, sorted@, order),
{
    let ghost all = processes@;
    let ghost mut order: Seq<int> = Seq::empty();
    let mut rest = processes;
    let mut sorted: Vec<ProcessInfo> = Vec::new();
    proof {
        assert(all.take(0) =~= Seq::<ProcessInfo>::empty());
    }
    while rest.len() > 0
        invariant
            rest@.len() <= all.len(),
            rest@ == all.skip(all.len() - rest@.len()),
            by_descending_memory(sorted@),
            sorted@.to_multiset() == all.take(all.len() - rest@.len()).to_multiset(),
            ordered_by_memory(all.take(all.len() - rest@.len()), sorted@, order),
        decreases rest.len(),
    {
        let ghost n = all.len() - rest@.len();
        let p = rest.remove(0);
        proof {
            assert(rest@ =~= all.skip(n + 1));
            assert(p == all[n]);
        }
        let mut at: usize = 0;
        while at < sorted.len() && sorted[at].memory_bytes >= p.memory_bytes
            invariant
                at <= sorted.len(),
                forall|k: int| 0 <= k < at ==> sorted@[k].memory_bytes >= p.memory_bytes,
            decreases sorted.len() - at,
        {
            at += 1;
        }
        let ghost before = sorted@;
        let ghost order_before = order;
        sorted.insert(at, p);
        proof {
            order = order_before.insert(at as int, n);
            let after = sorted@;
            assert forall|i: int, j: int| 0 <= i <= j < after.len() implies after[i].memory_bytes
                >= after[j].memory_bytes by {
                if i < at && j > at {
                    assert(after[i] == before[i]);
                    assert(after[j] == before[j - 1]);
                } else if i > at {
                    assert(after[i] == before[i - 1]);
                    assert(after[j] == before[j - 1]);
                } else if i == at && j > at {
                    assert(after[j] == before[j - 1]);
                    assert(before[at as int].memory_bytes >= before[j - 1].memory_bytes);
                }
            }
            assert(after.remove(at as int) =~= before);
            to_multiset_remove(after, at as int);
            assert(after.to_multiset().count(p) > 0) by {
                assert(after[at as int] == p);
                after.to_multiset_ensures();
            }
            assert(after.to_multiset() =~= before.to_multiset().insert(p));
            assert(all.take(n + 1) =~= all.take(n).push(p));
            to_multiset_build(all.take(n), p);
            let input = all.take(n + 1);
            assert forall|k: int| 0 <= k < order.len() implies 0 <= #[trigger] order[k]
                < input.len() && after[k] == input[order[k]] by {
                if k < at {
                    assert(order[k] == order_before[k]);
                    assert(after[k] == before[k]);
                } else if k > at {
                    assert(order[k] == order_before[k - 1]);
                    assert(after[k] == before[k - 1]);
                }
            }
            assert forall|i: int, j: int| 0 <= i < j < order.len() implies after[i].memory_bytes
                > after[j].memory_bytes || (after[i].memory_bytes == after[j].memory_bytes
                && #[trigger] order[i] < #[trigger] order[j]) by {
                if j < at {
                    assert(order[i] == order_before[i] && order[j] == order_before[j]);
                    assert(after[i] == before[i] && after[j] == before[j]);
                } else if j == at {
                    assert(order[i] == order_before[i]);
                    assert(after[i] == before[i]);
                } else if i < at {
                    assert(order[i] == order_before[i] && order[j] == order_before[j - 1]);
                    assert(after[i] == before[i] && after[j] == before[j - 1]);
                } else if i == at {
                    assert(order[j] == order_before[j - 1]);
                    assert(after[j] == before[j - 1]);
                    assert(before[at as int].memory_bytes >= before[j - 1].memory_bytes);
                } else {
                    assert(order[i] == order_before[i - 1] && order[j] == order_before[j - 1]);
                    assert(after[i] == before[i - 1] && after[j] == before[j - 1]);
                }
            }
        }
    }
    proof {
        assert(all.take(all.len() as int) =~= all);
    }
    sorted
}

/// Puts a snapshot together from what the sampler measured: computes the
/// share of memory in use and orders the processes by descending memory.
pub fn get_system_stats(
    cpu_usage: i64,
    total_memory_bytes: u64,
    used_memory_bytes: u64,
    temperature: i64,
    processes: Vec<ProcessInfo>,
) -> (stats: SystemStats)
    ensures
        stats.cpu_usage == cpu_usage,
        stats.total_memory_bytes == total_memory_bytes,
        stats.used_memory_bytes == used_memory_bytes,
        stats.memory_percentage == memory_share(used_memory_bytes, total_memory_bytes),
        stats.temperature == temperature,
        by_descending_memory(stats.top_processes@),
        stats.top_processes@.to_multiset() == processes@.to_multiset(),
        exists|order: Seq<int>| ordered_by_memory(processes@, stats.top_processes@, order),
{
    SystemStats {
        cpu_usage,
        total_memory_bytes,
        used_memory_bytes,
        memory_percentage: memory_percentage(used_memory_bytes, total_memory_bytes),
        temperature,
        top_processes: get_all_processes(processes),
    }
}

/// A selection from a list ordered by descending memory is ordered by
/// descending memory: its first process is its heaviest.
pub proof fn lemma_selection_keeps_order(processes: Seq<ProcessInfo>, keep: spec_fn(ProcessInfo) -> bool)
    requires
        by_descending_memory(processes),
    ensures
        by_descending_memory(processes.filter(keep)),
    decreases processes.len(),
{
    reveal(Seq::filter);
    if processes.len() > 0 {
        let front = processes.drop_last();
        lemma_selection_keeps_order(front, keep);
        let kept = front.filter(keep);
        assert forall|i: int| 0 <= i < kept.len() implies kept[i].memory_bytes
            >= processes.last().memory_bytes by {
            assert(kept.contains(kept[i]));
            front.lemma_filter_contains_rev(keep, kept[i]);
            let k = choose|k: int| 0 <= k < front.len() && front[k] == kept[i];
            assert(processes[k] == front[k]);
        }
    }
}

/// The bytes that a number of kibibytes comes to; nothing where there is
/// no number or the bytes do not fit.
pub open spec fn bytes_of_kilobytes(kilobytes: Option<u64>) -> Option<u64> {
    match kilobytes {
        Some(kb) => if kb * 1024 <= u64::MAX {
            Some((kb * 1024) as u64)
        } else {
            None
        },
        None => None,
    }
}

/// Turns a number of kibibytes into bytes.
pub fn memory_from_kilobytes(kilobytes: Option<u64>) -> (bytes: Option<u64>)
    ensures
        bytes == bytes_of_kilobytes(kilobytes),
{
    match kilobytes {
        Some(kb) => kb.checked_mul(1024),
        None => None,
    }
}

/// The second word of `line`, if `line` has two words.
pub open spec fn second_word(line: Seq<char>) -> Option<Seq<char>> {
    if words_of(line).len() >= 2 {
        Some(words_of(line)[1])
    } else {
        None
    }
}

/// The resident memory that a line of a process's status file states, in
/// bytes: the line is labelled `VmRSS:` and its second word is a number
/// of kibibytes.
pub open spec fn line_memory(line: Seq<char>) -> Option<u64> {
    if has_prefix(line, "VmRSS:"@) {
        match second_word(line) {
            Some(word) => bytes_of_kilobytes(parsed_u64(word)),
            None => None,
        }
    } else {
        None
    }
}

/// The resident memory that the first of the lines from index `from` on
/// states which states any.
pub open spec fn first_memory(lines: Seq<Seq<char>>, from: int) -> Option<u64>
    decreases lines.len() - from,
{
    if from < 0 || from >= lines.len() {
        None
    } else {
        match line_memory(lines[from]) {
            Some(bytes) => Some(bytes),
            None => first_memory(lines, from + 1),
        }
    }
}

fn second<'a>(line: &'a str) -> (word: Option<&'a str>)
    ensures
        match word {
            Some(w) => second_word(line@) == Some(w@),
            None => second_word(line@) is None,
        },
{
    let parts = words(line);
    if parts.len() >= 2 {
        assert(parts@.map_values(|s: &str| s@)[1] == parts@[1]@);
        Some(parts[1])
    } else {
        None
    }
}

/// Reads the resident memory of a process, in bytes, out of the text of
/// its status file: the first line labelled `VmRSS:` whose second word is
/// a number of kibibytes counts.
pub fn get_process_memory_from_proc(status: &str) -> (bytes: Option<u64>)
    ensures
        bytes == first_memory(lines_of(status@), 0),
{
    let all = lines(status);
    let mut i: usize = 0;
    while i < all.len()
        invariant
            i <= all.len(),
            all@.map_values(|s: &str| s@) == lines_of(status@),
            first_memory(lines_of(status@), 0) == first_memory(lines_of(status@), i as int),
        decreases all.len() - i,
    {
        let line = all[i];
        assert(lines_of(status@)[i as int] == line@) by {
            assert(all@.map_values(|s: &str| s@)[i as int] == all@[i as int]@);
        }
        if starts_with(line, "VmRSS:") {
            match second(line) {
                Some(word) => {
                    let found = memory_from_kilobytes(parse_u64(word));
                    if found.is_some() {
                        return found;
                    }
                },
                None => {},
            }
        }
        i += 1;
    }
    None
}

/// The identifier that a line of a status file states: its second word,
/// read as a number.
pub open spec fn line_id(line: Seq<char>) -> Option<u32> {
    match second_word(line) {
        Some(word) => parsed_u32(word),
        None => None,
    }
}

/// The thread group and the process identifier that the first `n` lines
/// state, in this order. A later line labelled `Tgid:` or `Pid:` takes the
/// place of an earlier one, also where it states no number.
pub open spec fn ids_after(lines: Seq<Seq<char>>, n: int) -> (Option<u32>, Option<u32>)
    decreases n,
{
    if n <= 0 || n > lines.len() {
        (None, None)
    } else {
        let (tgid, pid) = ids_after(lines, n - 1);
        let line = lines[n - 1];
        if has_prefix(line, "Tgid:"@) {
            (line_id(line), pid)
        } else if has_prefix(line, "Pid:"@) {
            (tgid, line_id(line))
        } else {
            (tgid, pid)
        }
    }
}

/// Whether a task with this thread group and this identifier is a thread
/// of another process: both are known and they differ.
pub open spec fn ids_differ(tgid: Option<u32>, pid: Option<u32>) -> bool {
    tgid matches Some(t) && pid matches Some(p) && t != p
}

/// Tells from the thread group and the identifier of a task whether it is
/// a thread of another process.
pub fn is_thread_of_another(tgid: Option<u32>, pid: Option<u32>) -> (yes: bool)
    ensures
        yes == ids_differ(tgid, pid),
{
    match (tgid, pid) {
        (Some(t), Some(p)) => t != p,
        _ => false,
    }
}

/// Tells from the text of a task's status file whether the task is a
/// thread of another process.
pub fn is_thread(status: &str) -> (yes: bool)
    ensures
        yes == ids_differ(
            ids_after(lines_of(status@), lines_of(status@).len() as int).0,
            ids_after(lines_of(status@), lines_of(status@).len() as int).1,
        ),
{
    let all = lines(status);
    let mut tgid: Option<u32> = None;
    let mut pid: Option<u32> = None;
    let mut i: usize = 0;
    while i < all.len()
        invariant
            i <= all.len(),
            all@.map_values(|s: &str| s@) == lines_of(status@),
            (tgid, pid) == ids_after(lines_of(status@), i as int),
        decreases all.len() - i,
    {
        let line = all[i];
        assert(lines_of(status@)[i as int] == line@) by {
            assert(all@.map_values(|s: &str| s@)[i as int] == all@[i as int]@);
        }
        if starts_with(line, "Tgid:") {
            tgid = match second(line) {
                Some(word) => parse_u32(word),
                None => None,
            };
        } else if starts_with(line, "Pid:") {
            pid = match second(line) {
                Some(word) => parse_u32(word),
                None => None,
            };
        }
        i += 1;
    }
    is_thread_of_another(tgid, pid)
}

/// The thermal zones of the machine in the order in which their sensors
/// are asked for the temperature of the CPU.
pub open spec fn zone_order() -> Seq<u32> {
    seq![4, 6, 1, 2, 0, 5, 3]
}

/// The thermal zones whose sensors are asked, in order.
pub fn thermal_zones() -> (zones: Vec<u32>)
    ensures
        zones@ == zone_order(),
{
    let mut zones: Vec<u32> = Vec::new();
    zones.push(4);
    zones.push(6);
    zones.push(1);
    zones.push(2);
    zones.push(0);
    zones.push(5);
    zones.push(3);
    assert(zones@ =~= zone_order());
    zones
}

/// The first reading of `readings` from index `from` on that is there;
/// zero where none is.
pub open spec fn first_reading(readings: Seq<Option<i64>>, from: int) -> i64
    decreases readings.len() - from,
{
    if from < 0 || from >= readings.len() {
        0
    } else {
        match readings[from] {
            Some(value) => value,
            None => first_reading(readings, from + 1),
        }
    }
}

/// The temperature of the CPU, given what the sensors read, in the order
/// of `thermal_zones`: the first reading that could be had, and zero
/// where none could.
pub fn get_cpu_temperature(readings: &Vec<Option<i64>>) -> (temperature: i64)
    ensures
        temperature == first_reading(readings@, 0),
{
    let mut i: usize = 0;
    while i < readings.len()
        invariant
            i <= readings.len(),
            first_reading(readings@, 0) == first_reading(readings@, i as int),
        decreases readings.len() - i,
    {
        match readings[i] {
            Some(value) => {
                return value;
            },
            None => {},
        }
        i += 1;
    }
    0
}

} // verus!
