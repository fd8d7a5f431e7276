//! CPU usage accounting: reading the per-core tick counters of `/proc/stat`
//! and turning two successive readings into the ticks spent per core.
use std::collections::HashMap;

use vstd::prelude::*;

use crate::text::{
    chars_of, decimal, has_prefix, is_decimal_digit, lemma_decimal_shape,
    lemma_parse_decimal_round_trip, parse_decimal, parse_unsigned, split_words, starts_with,
    views_of, words,
};

verus! {

broadcast use vstd::std_specs::hash::group_hash_axioms;

/// The tick counters of one core, as listed on its `cpuN` line.
#[derive(Debug, Clone, Copy, PartialEq, Eq, Structural)]
pub struct CpuStat {
    pub user: u64,
    pub nice: u64,
    pub system: u64,
    pub idle: u64,
    pub iowait: u64,
    pub irq: u64,
    pub softirq: u64,
    pub steal: u64,
}

/// The word that names the whole CPU, and with which every core's word starts.
pub open spec fn cpu_word() -> Seq<char> {
    seq!['c', 'p', 'u']
}

/// `s` with every leading repetition of "cpu" removed, as
/// `str::trim_start_matches("cpu")` does.
pub open spec fn strip_cpu_words(s: Seq<char>) -> Seq<char>
    decreases s.len(),
{
    if s.len() >= 3 && starts_with(s, cpu_word()) {
        strip_cpu_words(s.skip(3))
    } else {
        s
    }
}

/// A counter field: its decimal value, or 0 when it does not parse as a `u64`.
pub open spec fn stat_field(word: Seq<char>) -> u64 {
    match parse_unsigned(word, u64::MAX as nat) {
        Some(v) => v as u64,
        None => 0,
    }
}

/// What one line of `/proc/stat` says about a core: its number and counters,
/// or nothing. A core line has a first word that starts with "cpu" and is not
/// "cpu" itself (that is the line of the whole CPU); after the leading "cpu"s
/// are stripped, the rest of that word must parse as a core number; and the
/// line must have at least nine words. The eight words after the first are
/// user, nice, system, idle, iowait, irq, softirq and steal.
pub open spec fn stat_line(line: Seq<char>) -> Option<(usize, CpuStat)> {
    let w = words(line);
    if w.len() == 0 || !starts_with(w[0], cpu_word()) || w[0] == cpu_word() {
        None
    } else {
        match parse_unsigned(strip_cpu_words(w[0]), usize::MAX as nat) {
            None => None,
            Some(core) => if w.len() < 9 {
                None
            } else {
                Some(
                    (
                        core as usize,
                        CpuStat {
                            user: stat_field(w[1]),
                            nice: stat_field(w[2]),
                            system: stat_field(w[3]),
                            idle: stat_field(w[4]),
                            iowait: stat_field(w[5]),
                            irq: stat_field(w[6]),
                            softirq: stat_field(w[7]),
                            steal: stat_field(w[8]),
                        },
                    ),
                )
            },
        }
    }
}

fn cpu_word_chars() -> (v: Vec<char>)
    ensures
        v@ == cpu_word(),
{
    let mut v: Vec<char> = Vec::new();
    v.push('c');
    v.push('p');
    v.push('u');
    assert(v@ =~= cpu_word());
    v
}

proof fn lemma_strip_cpu_words_skip(s: Seq<char>, i: int)
    requires
        0 <= i <= s.len(),
        i % 3 == 0,
        forall|j: int| 0 <= j < i / 3 ==> #[trigger] starts_with(s.skip(3 * j), cpu_word()),
    ensures
        strip_cpu_words(s) == strip_cpu_words(s.skip(i)),
    decreases i,
{
    if i > 0 {
        assert(starts_with(s.skip(3 * 0int), cpu_word()));
        assert(s.skip(3 * 0int) =~= s);
        let t = s.skip(3);
        assert forall|j: int| 0 <= j < (i - 3) / 3 implies #[trigger] starts_with(t.skip(3 * j), cpu_word()) by {
            assert(t.skip(3 * j) =~= s.skip(3 * (j + 1)));
            assert(starts_with(s.skip(3 * (j + 1)), cpu_word()));
        }
        lemma_strip_cpu_words_skip(t, i - 3);
        assert(t.skip(i - 3) =~= s.skip(i));
    } else {
        assert(s.skip(0) =~= s);
    }
}

/// The characters of `word` after its leading "cpu"s.
fn strip_cpu_prefixes(word: &Vec<char>) -> (rest: Vec<char>)
    ensures
        rest@ == strip_cpu_words(word@),
{
    let mut i: usize = 0;
    while word.len() - i >= 3 && word[i] == 'c' && word[i + 1] == 'p' && word[i + 2] == 'u'
        invariant
            i <= word.len(),
            i % 3 == 0,
            forall|j: int| 0 <= j < i / 3 ==> #[trigger] starts_with(word@.skip(3 * j), cpu_word()),
        decreases word.len() - i,
    {
        proof {
            assert(word@.skip(i as int).take(3) =~= cpu_word());
            assert(word@.skip(3 * (i / 3) as int) =~= word@.skip(i as int));
        }
        i = i + 3;
    }
    proof {
        lemma_strip_cpu_words_skip(word@, i as int);
        let t = word@.skip(i as int);
        if t.len() >= 3 && starts_with(t, cpu_word()) {
            assert(t[0] == word@[i as int]);
            assert(t.take(3)[0] == 'c' && t.take(3)[1] == 'p' && t.take(3)[2] == 'u');
        }
    }
    let mut rest: Vec<char> = Vec::new();
    let mut k: usize = i;
    while k < word.len()
        invariant
            i <= k <= word.len(),
            rest@ == word@.subrange(i as int, k as int),
        decreases word.len() - k,
    {
        rest.push(word[k]);
        k = k + 1;
        assert(rest@ =~= word@.subrange(i as int, k as int));
    }
    assert(rest@ =~= word@.skip(i as int));
    rest
}

fn field_value(word: &Vec<char>) -> (v: u64)
    ensures
        v == stat_field(word@),
{
    match parse_decimal(word, u64::MAX) {
        Some(v) => v,
        None => 0,
    }
}

/// Reads one line of `/proc/stat`: the core number and tick counters of a
/// `cpuN` line, or `None` for any other line.
pub fn parse_stat_line(line: &str) -> (r: Option<(usize, CpuStat)>)
    ensures
        r == stat_line(line@),
{
    let chars = chars_of(line);
    let parts = split_words(&chars);
    proof {
        assert(views_of(parts@).len() == parts@.len());
    }
    if parts.len() == 0 {
        return None;
    }
    let cpu = cpu_word_chars();
    assert(views_of(parts@)[0] == parts@[0]@);
    if !has_prefix(&parts[0], &cpu) {
        return None;
    }
    if parts[0].len() == 3 {
        proof {
            assert(parts@[0]@ =~= parts@[0]@.take(3));
            assert(parts@[0]@ == cpu_word());
        }
        return None;
    }
    let rest = strip_cpu_prefixes(&parts[0]);
    let core = match parse_decimal(&rest, usize::MAX as u64) {
        Some(c) => c as usize,
        None => {
            return None;
        },
    };
    if parts.len() < 9 {
        return None;
    }
    proof {
        assert forall|i: int| 0 <= i < parts@.len() implies views_of(parts@)[i] == #[trigger] parts@[i]@ by {}
    }
    let stat = CpuStat {
        user: field_value(&parts[1]),
        nice: field_value(&parts[2]),
        system: field_value(&parts[3]),
        idle: field_value(&parts[4]),
        iowait: field_value(&parts[5]),
        irq: field_value(&parts[6]),
        softirq: field_value(&parts[7]),
        steal: field_value(&parts[8]),
    };
    Some((core, stat))
}

/// The counters of every core listed in `lines`, in the order of the lines; a
/// core listed twice keeps its later counters.
pub open spec fn core_stats_of(lines: Seq<Seq<char>>) -> Map<usize, CpuStat>
    decreases lines.len(),
{
    if lines.len() == 0 {
        Map::empty()
    } else {
        let earlier = core_stats_of(lines.drop_last());
        match stat_line(lines.last()) {
            Some((core, stat)) => earlier.insert(core, stat),
            None => earlier,
        }
    }
}

/// The texts of a list of lines.
pub open spec fn line_views(lines: Seq<String>) -> Seq<Seq<char>> {
    lines.map_values(|l: String| l@)
}

/// The per-core counters found in the lines of `/proc/stat`.
pub fn read_core_stats(lines: &Vec<String>) -> (stats: HashMap<usize, CpuStat>)
    ensures
        stats@ == core_stats_of(line_views(lines@)),
{
    let mut stats: HashMap<usize, CpuStat> = HashMap::new();
    let mut i: usize = 0;
    while i < lines.len()
        invariant
            i <= lines.len(),
            stats@ == core_stats_of(line_views(lines@).take(i as int)),
        decreases lines.len() - i,
    {
        proof {
            assert(line_views(lines@).take(i + 1).drop_last() =~= line_views(lines@).take(i as int));
            assert(line_views(lines@).take(i + 1).last() == lines@[i as int]@);
        }
        match parse_stat_line(lines[i].as_str()) {
            Some((core, stat)) => {
                stats.insert(core, stat);
            },
            None => {},
        }
        i = i + 1;
    }
    assert(line_views(lines@).take(i as int) =~= line_views(lines@));
    stats
}

/// Ticks a core spent since the previous reading: busy in user space (user
/// plus nice), busy in the kernel (system), and in total over all eight
/// counters.
#[derive(Debug, Clone, Copy, PartialEq, Eq, Structural)]
pub struct CoreTicks {
    pub busy_user: u64,
    pub busy_system: u64,
    pub total: u64,
}

/// `a - b`, or 0 when `b` exceeds `a`, as `u64::saturating_sub` gives.
pub open spec fn sat_sub(a: u64, b: u64) -> u64 {
    if a >= b {
        (a - b) as u64
    } else {
        0
    }
}

/// How far each counter advanced from `prev` to `cur`; a counter that went
/// back counts as not having advanced.
pub open spec fn stat_delta(cur: CpuStat, prev: CpuStat) -> CpuStat {
    CpuStat {
        user: sat_sub(cur.user, prev.user),
        nice: sat_sub(cur.nice, prev.nice),
        system: sat_sub(cur.system, prev.system),
        idle: sat_sub(cur.idle, prev.idle),
        iowait: sat_sub(cur.iowait, prev.iowait),
        irq: sat_sub(cur.irq, prev.irq),
        softirq: sat_sub(cur.softirq, prev.softirq),
        steal: sat_sub(cur.steal, prev.steal),
    }
}

/// The sum of all eight counters.
pub open spec fn stat_sum(d: CpuStat) -> int {
    d.user + d.nice + d.system + d.idle + d.iowait + d.irq + d.softirq + d.steal
}

/// The ticks spent between two readings of one core.
pub open spec fn core_ticks(cur: CpuStat, prev: CpuStat) -> CoreTicks {
    let d = stat_delta(cur, prev);
    CoreTicks {
        busy_user: (d.user + d.nice) as u64,
        busy_system: d.system,
        total: stat_sum(d) as u64,
    }
}

/// Whether a core takes part in an update: it is listed in both readings and
/// some of its counters advanced.
pub open spec fn core_counted(
    current: Map<usize, CpuStat>,
    prev: Map<usize, CpuStat>,
    core: usize,
) -> bool {
    &&& current.contains_key(core)
    &&& prev.contains_key(core)
    &&& stat_sum(stat_delta(current[core], prev[core])) != 0
}

/// Whether the advance of every core listed in both readings fits in a `u64`.
pub open spec fn deltas_fit(current: Map<usize, CpuStat>, prev: Map<usize, CpuStat>) -> bool {
    forall|core: usize|
        current.contains_key(core) && prev.contains_key(core) ==> stat_sum(
            #[trigger] stat_delta(current[core], prev[core]),
        ) <= u64::MAX
}

/// The ticks of every counted core.
pub open spec fn spec_core_ticks(
    current: Map<usize, CpuStat>,
    prev: Map<usize, CpuStat>,
) -> Map<usize, CoreTicks> {
    Map::new(
        |core: usize| core_counted(current, prev, core),
        |core: usize| core_ticks(current[core], prev[core]),
    )
}

/// The previous reading after an update: every counted core takes its current
/// counters; every other core keeps its old ones; no core is added or dropped.
pub open spec fn spec_advanced(
    current: Map<usize, CpuStat>,
    prev: Map<usize, CpuStat>,
) -> Map<usize, CpuStat> {
    Map::new(
        |core: usize| prev.contains_key(core),
        |core: usize|
            if core_counted(current, prev, core) {
                current[core]
            } else {
                prev[core]
            },
    )
}

fn stat_ticks(cur: &CpuStat, prev: &CpuStat) -> (t: CoreTicks)
    requires
        stat_sum(stat_delta(*cur, *prev)) <= u64::MAX,
    ensures
        t == core_ticks(*cur, *prev),
{
    let user = cur.user.saturating_sub(prev.user);
    let nice = cur.nice.saturating_sub(prev.nice);
    let system = cur.system.saturating_sub(prev.system);
    let idle = cur.idle.saturating_sub(prev.idle);
    let iowait = cur.iowait.saturating_sub(prev.iowait);
    let irq = cur.irq.saturating_sub(prev.irq);
    let softirq = cur.softirq.saturating_sub(prev.softirq);
    let steal = cur.steal.saturating_sub(prev.steal);
    let total = user + nice + system + idle + iowait + irq + softirq + steal;
    CoreTicks { busy_user: user + nice, busy_system: system, total }
}

fn stat_sum_fits(cur: &CpuStat, prev: &CpuStat) -> (b: bool)
    ensures
        b == (stat_sum(stat_delta(*cur, *prev)) <= u64::MAX),
{
    let parts: [u64; 8] = [
        cur.user.saturating_sub(prev.user),
        cur.nice.saturating_sub(prev.nice),
        cur.system.saturating_sub(prev.system),
        cur.idle.saturating_sub(prev.idle),
        cur.iowait.saturating_sub(prev.iowait),
        cur.irq.saturating_sub(prev.irq),
        cur.softirq.saturating_sub(prev.softirq),
        cur.steal.saturating_sub(prev.steal),
    ];
    let mut total: u64 = 0;
    let mut i: usize = 0;
    while i < 8
        invariant
            i <= 8,
            total == parts_sum(parts@, i as int),
            parts@ == seq![
                sat_sub(cur.user, prev.user),
                sat_sub(cur.nice, prev.nice),
                sat_sub(cur.system, prev.system),
                sat_sub(cur.idle, prev.idle),
                sat_sub(cur.iowait, prev.iowait),
                sat_sub(cur.irq, prev.irq),
                sat_sub(cur.softirq, prev.softirq),
                sat_sub(cur.steal, prev.steal),
            ],
        decreases 8 - i,
    {
        match total.checked_add(parts[i]) {
            Some(t) => {
                total = t;
            },
            None => {
                proof {
                    lemma_parts_sum_grows(parts@, i + 1);
                    reveal_with_fuel(parts_sum, 9);
                }
                return false;
            },
        }
        i = i + 1;
    }
    proof {
        reveal_with_fuel(parts_sum, 9);
    }
    true
}

spec fn parts_sum(parts: Seq<u64>, n: int) -> int
    decreases n,
{
    if n <= 0 {
        0
    } else {
        parts_sum(parts, n - 1) + parts[n - 1]
    }
}

proof fn lemma_parts_sum_grows(parts: Seq<u64>, n: int)
    requires
        0 <= n <= parts.len(),
    ensures
        parts_sum(parts, n) <= parts_sum(parts, parts.len() as int),
    decreases parts.len() - n,
{
    if n < parts.len() {
        lemma_parts_sum_grows(parts, n + 1);
    }
}

/// Whether the advance of every core listed in both readings fits in a
/// `u64`, which `advance_core_stats` needs.
pub fn core_deltas_fit(prev: &HashMap<usize, CpuStat>, current: &HashMap<usize, CpuStat>) -> (b: bool)
    ensures
        b == deltas_fit(current@, prev@),
{
    let ghost mut seen: Set<usize> = Set::empty();
    for core in it: current.keys()
        invariant
            forall|j: int| 0 <= j < it.index() ==> seen.contains(*it.seq()[j]),
            forall|k: usize| #[trigger] seen.contains(k) ==> exists|j: int| 0 <= j < it.index() && *it.seq()[j] == k,
            it.seq().unref().to_set() == current@.dom(),
            forall|k: usize|
                seen.contains(k) && current@.contains_key(k) && prev@.contains_key(k) ==> stat_sum(
                    #[trigger] stat_delta(current@[k], prev@[k]),
                ) <= u64::MAX,
    {
        let k: usize = *core;
        let cur: CpuStat = *current.get(&k).unwrap();
        match prev.get(&k) {
            Some(p) => {
                if !stat_sum_fits(&cur, p) {
                    assert(!deltas_fit(current@, prev@)) by {
                        assert(current@.contains_key(k) && prev@.contains_key(k));
                        assert(stat_sum(stat_delta(current@[k], prev@[k])) > u64::MAX);
                    }
                    return false;
                }
            },
            None => {},
        }
        proof {
            seen = seen.insert(k);
        }
    }
    true
}

/// Compares the `current` reading with the previous one: returns the ticks
/// of every core listed in both readings whose counters advanced, and moves
/// exactly those cores of `prev` on to their current counters.
pub fn advance_core_stats(
    prev: &mut HashMap<usize, CpuStat>,
    current: &HashMap<usize, CpuStat>,
) -> (ticks: HashMap<usize, CoreTicks>)
    requires
        deltas_fit(current@, old(prev)@),
    ensures
        ticks@ == spec_core_ticks(current@, old(prev)@),
        final(prev)@ == spec_advanced(current@, old(prev)@),
{
    let ghost prev0 = prev@;
    let mut ticks: HashMap<usize, CoreTicks> = HashMap::new();
    let ghost mut seen: Set<usize> = Set::empty();
    for core in it: current.keys()
        invariant
            deltas_fit(current@, prev0),
            seen.finite(),
            forall|j: int| 0 <= j < it.index() ==> seen.contains(*it.seq()[j]),
            forall|k: usize| seen.contains(k) ==> current@.contains_key(k),
            forall|k: usize| #[trigger] seen.contains(k) ==> exists|j: int| 0 <= j < it.index() && *it.seq()[j] == k,
            it.seq().no_duplicates(),
            it.seq().unref().to_set() == current@.dom(),
            ticks@ == Map::new(
                |k: usize| seen.contains(k) && core_counted(current@, prev0, k),
                |k: usize| core_ticks(current@[k], prev0[k]),
            ),
            prev@ == Map::new(
                |k: usize| prev0.contains_key(k),
                |k: usize|
                    if seen.contains(k) && core_counted(current@, prev0, k) {
                        current@[k]
                    } else {
                        prev0[k]
                    },
            ),
    {
        let k: usize = *core;
        assert(!seen.contains(k));
        let cur: CpuStat = *current.get(&k).unwrap();
        match prev.get(&k) {
            Some(p) => {
                let old_stat: CpuStat = *p;
                assert(old_stat == prev0[k]);
                let t = stat_ticks(&cur, &old_stat);
                if t.total != 0 {
                    ticks.insert(k, t);
                    prev.insert(k, cur);
                }
            },
            None => {},
        }
        proof {
            seen = seen.insert(k);
        }
        assert(ticks@ =~= Map::new(
            |k: usize| seen.contains(k) && core_counted(current@, prev0, k),
            |k: usize| core_ticks(current@[k], prev0[k]),
        ));
        assert(prev@ =~= Map::new(
            |k: usize| prev0.contains_key(k),
            |k: usize|
                if seen.contains(k) && core_counted(current@, prev0, k) {
                    current@[k]
                } else {
                    prev0[k]
                },
        ));
    }
    ticks
}

/// An update never adds a core to, or drops one from, the previous reading.
pub proof fn lemma_advance_keeps_cores(current: Map<usize, CpuStat>, prev: Map<usize, CpuStat>)
    ensures
        spec_advanced(current, prev).dom() == prev.dom(),
{
    assert(spec_advanced(current, prev).dom() =~= prev.dom());
}

/// Updating a second time with the same reading finds no ticks on any core:
/// every core counted by the first update now holds that reading.
pub proof fn lemma_advance_twice_counts_nothing(
    current: Map<usize, CpuStat>,
    prev: Map<usize, CpuStat>,
)
    ensures
        spec_core_ticks(current, spec_advanced(current, prev)).dom() == Set::<usize>::empty(),
{
    let next = spec_advanced(current, prev);
    assert forall|core: usize| !#[trigger] core_counted(current, next, core) by {
        if current.contains_key(core) && prev.contains_key(core) {
            if core_counted(current, prev, core) {
                assert(stat_delta(current[core], current[core]) == CpuStat {
                    user: 0,
                    nice: 0,
                    system: 0,
                    idle: 0,
                    iowait: 0,
                    irq: 0,
                    softirq: 0,
                    steal: 0,
                });
            }
        }
    }
    assert(spec_core_ticks(current, next).dom() =~= Set::<usize>::empty());
}

/// The ticks of a counted core add up: its user and kernel time never exceed
/// its total, which is positive.
pub proof fn lemma_core_ticks_within_total(cur: CpuStat, prev: CpuStat)
    requires
        stat_sum(stat_delta(cur, prev)) <= u64::MAX,
        stat_sum(stat_delta(cur, prev)) != 0,
    ensures
        core_ticks(cur, prev).busy_user + core_ticks(cur, prev).busy_system <= core_ticks(
            cur,
            prev,
        ).total,
        core_ticks(cur, prev).total > 0,
{
}

/// The ticks of a core are read off its counters one by one: busy user time
/// is the advance of `user` plus that of `nice`, busy kernel time is the
/// advance of `system`, and the total is the advance of all eight counters;
/// a counter that went back counts as 0. No other counter (idle, iowait, irq,
/// softirq, steal) enters the busy times.
pub proof fn lemma_core_ticks_from_counters(cur: CpuStat, prev: CpuStat)
    requires
        stat_sum(stat_delta(cur, prev)) <= u64::MAX,
    ensures
        core_ticks(cur, prev).busy_user == (if cur.user >= prev.user {
            cur.user - prev.user
        } else {
            0
        }) + (if cur.nice >= prev.nice {
            cur.nice - prev.nice
        } else {
            0
        }),
        core_ticks(cur, prev).busy_system == (if cur.system >= prev.system {
            cur.system - prev.system
        } else {
            0
        }),
        core_ticks(cur, prev).total == (if cur.user >= prev.user {
            cur.user - prev.user
        } else {
            0
        }) + (if cur.nice >= prev.nice {
            cur.nice - prev.nice
        } else {
            0
        }) + (if cur.system >= prev.system {
            cur.system - prev.system
        } else {
            0
        }) + (if cur.idle >= prev.idle {
            cur.idle - prev.idle
        } else {
            0
        }) + (if cur.iowait >= prev.iowait {
            cur.iowait - prev.iowait
        } else {
            0
        }) + (if cur.irq >= prev.irq {
            cur.irq - prev.irq
        } else {
            0
        }) + (if cur.softirq >= prev.softirq {
            cur.softirq - prev.softirq
        } else {
            0
        }) + (if cur.steal >= prev.steal {
            cur.steal - prev.steal
        } else {
            0
        }),
{
}

/// Time spent idle, waiting for I/O, in interrupts or stolen is never busy
/// time: a core whose user, nice and system counters did not move has no
/// busy time, whatever its other counters did.
pub proof fn lemma_only_user_nice_system_are_busy(cur: CpuStat, prev: CpuStat)
    requires
        stat_sum(stat_delta(cur, prev)) <= u64::MAX,
        cur.user == prev.user,
        cur.nice == prev.nice,
        cur.system == prev.system,
    ensures
        core_ticks(cur, prev).busy_user == 0,
        core_ticks(cur, prev).busy_system == 0,
{
}

/// Each counted core's ticks in an update are read off its counters in the
/// two readings as `lemma_core_ticks_from_counters` states.
pub proof fn lemma_update_ticks_from_counters(
    current: Map<usize, CpuStat>,
    prev: Map<usize, CpuStat>,
    core: usize,
)
    requires
        deltas_fit(current, prev),
        current.contains_key(core),
        prev.contains_key(core),
    ensures
        spec_core_ticks(current, prev).contains_key(core) <==> stat_sum(
            stat_delta(current[core], prev[core]),
        ) != 0,
        spec_core_ticks(current, prev).contains_key(core) ==> spec_core_ticks(current, prev)[core]
            == core_ticks(current[core], prev[core]),
{
    assert(stat_sum(stat_delta(current[core], prev[core])) <= u64::MAX);
}

/// Any core number can be read: a line whose first word is "cpu" followed by
/// the decimal writing of `core`, and which has at least eight more words,
/// is the line of core `core`, with its eight counters read from the eight
/// words after the first.
pub proof fn lemma_core_line_read(line: Seq<char>, core: usize)
    requires
        words(line).len() >= 9,
        words(line)[0] == cpu_word() + decimal(core as nat),
    ensures
        stat_line(line) == Some(
            (
                core,
                CpuStat {
                    user: stat_field(words(line)[1]),
                    nice: stat_field(words(line)[2]),
                    system: stat_field(words(line)[3]),
                    idle: stat_field(words(line)[4]),
                    iowait: stat_field(words(line)[5]),
                    irq: stat_field(words(line)[6]),
                    softirq: stat_field(words(line)[7]),
                    steal: stat_field(words(line)[8]),
                },
            ),
        ),
{
    let w0 = words(line)[0];
    let d = decimal(core as nat);
    lemma_decimal_shape(core as nat);
    lemma_parse_decimal_round_trip(core as nat, usize::MAX as nat);
    assert(w0.take(3) =~= cpu_word());
    assert(w0.len() > 3);
    assert(w0 != cpu_word());
    assert(w0.skip(3) =~= d);
    assert(is_decimal_digit(d[0]));
    assert(!starts_with(d, cpu_word())) by {
        if d.len() >= 3 {
            assert(d.take(3)[0] == d[0]);
        }
    }
    assert(strip_cpu_words(d) == d);
    assert(strip_cpu_words(w0) == d);
}

/// A counter written in decimal is read as its value, for every `u64`.
pub proof fn lemma_counter_read(n: u64)
    ensures
        stat_field(decimal(n as nat)) == n,
{
    lemma_parse_decimal_round_trip(n as nat, u64::MAX as nat);
}

} // verus!
