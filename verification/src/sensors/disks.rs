//! Disk throughput: the write and read histories, in bytes per refresh, and
//! the units and text of their labels.
use bounded_vec_deque::BoundedVecDeque;

use vstd::prelude::*;

use crate::config::DisksConfig;
use crate::sensors::network::{network_unit, UnitVariant as NetworkUnitVariant};
use crate::sensors::history::{
    finish_rate_label, history_filled, history_items, history_max_len, history_push,
    last_second_window, newest, rate_label, samples_sum, window_count, window_fits,
};

verus! {

/// How many refreshes a disk history remembers.
pub const MAX_SAMPLES: usize = 30;

/// Short ("1.50M") or long ("1.50 MB/s") label text.
#[derive(Debug, PartialEq, Eq, Clone, Copy, Structural)]
pub enum UnitVariant {
    Short,
    Long,
}

/// The unit names, from bytes up by factors of 1000, short or long.
pub open spec fn disks_unit(format: UnitVariant, index: int) -> Seq<char> {
    match format {
        UnitVariant::Short => if index == 0 {
            "B"@
        } else if index == 1 {
            "K"@
        } else if index == 2 {
            "M"@
        } else if index == 3 {
            "G"@
        } else {
            "T"@
        },
        UnitVariant::Long => if index == 0 {
            "B/s"@
        } else if index == 1 {
            "KB/s"@
        } else if index == 2 {
            "MB/s"@
        } else if index == 3 {
            "GB/s"@
        } else {
            "TB/s"@
        },
    }
}

/// The number of units; a value is scaled up at most to the last one.
pub const UNIT_COUNT: usize = 5;

/// The name of unit `index` (0 to 4) in the short or long table.
pub fn unit_name(format: UnitVariant, index: usize) -> (u: &'static str)
    requires
        index < UNIT_COUNT,
    ensures
        u@ == disks_unit(format, index as int),
        u.is_ascii(),
{
    let u = if format == UnitVariant::Short {
        if index == 0 {
            "B"
        } else if index == 1 {
            "K"
        } else if index == 2 {
            "M"
        } else if index == 3 {
            "G"
        } else {
            "T"
        }
    } else {
        if index == 0 {
            "B/s"
        } else if index == 1 {
            "KB/s"
        } else if index == 2 {
            "MB/s"
        } else if index == 3 {
            "GB/s"
        } else {
            "TB/s"
        }
    };
    proof {
        reveal_strlit("B");
        reveal_strlit("K");
        reveal_strlit("M");
        reveal_strlit("G");
        reveal_strlit("T");
        reveal_strlit("B/s");
        reveal_strlit("KB/s");
        reveal_strlit("MB/s");
        reveal_strlit("GB/s");
        reveal_strlit("TB/s");
    }
    u
}

/// The text of a disk label: the formatted number `value`, scaled to unit
/// `unit_index`, followed by that unit's name.
pub fn rate_text(value: &str, unit_index: usize, format: UnitVariant) -> (t: String)
    requires
        value.is_ascii(),
        unit_index < UNIT_COUNT,
    ensures
        t@ == rate_label(value@, disks_unit(format, unit_index as int), format == UnitVariant::Long),
{
    let unit = unit_name(format, unit_index);
    finish_rate_label(value, unit, format == UnitVariant::Long)
}

/// Bytes written (or read) by all disks: the sum of their byte counts.
pub open spec fn io_bytes(disks: Seq<(u64, u64)>, read: bool) -> nat
    decreases disks.len(),
{
    if disks.len() == 0 {
        0
    } else {
        let last = disks.last();
        io_bytes(disks.drop_last(), read) + (if read {
            last.1
        } else {
            last.0
        }) as nat
    }
}

/// Disk throughput history: bytes written and read per refresh over the last
/// `MAX_SAMPLES` refreshes, with the entry's settings and the refresh
/// interval in milliseconds.
#[derive(Debug)]
pub struct DiskHistory {
    write: BoundedVecDeque<u64>,
    read: BoundedVecDeque<u64>,
    config: DisksConfig,
    refresh_rate: u32,
}

impl DiskHistory {
    /// Bytes written per refresh, oldest first.
    pub closed spec fn write_samples(&self) -> Seq<u64> {
        history_items(self.write)
    }

    /// Bytes read per refresh, oldest first.
    pub closed spec fn read_samples(&self) -> Seq<u64> {
        history_items(self.read)
    }

    pub closed spec fn spec_config(&self) -> DisksConfig {
        self.config
    }

    pub closed spec fn spec_refresh_rate(&self) -> u32 {
        self.refresh_rate
    }

    /// The number of samples the write history keeps at most.
    pub closed spec fn write_limit(&self) -> nat {
        history_max_len(self.write)
    }

    /// The number of samples the read history keeps at most.
    pub closed spec fn read_limit(&self) -> nat {
        history_max_len(self.read)
    }

    /// A history is valid exactly when it holds `MAX_SAMPLES` samples in each
    /// direction and keeps no more.
    pub proof fn lemma_wf_lengths(&self)
        ensures
            self.wf() <==> {
                &&& self.write_samples().len() == MAX_SAMPLES
                &&& self.read_samples().len() == MAX_SAMPLES
                &&& self.write_limit() == MAX_SAMPLES
                &&& self.read_limit() == MAX_SAMPLES
            },
    {
    }

    /// Both histories hold exactly `MAX_SAMPLES` samples and keep no more.
    pub closed spec fn wf(&self) -> bool {
        &&& history_items(self.write).len() == MAX_SAMPLES
        &&& history_max_len(self.write) == MAX_SAMPLES
        &&& history_items(self.read).len() == MAX_SAMPLES
        &&& history_max_len(self.read) == MAX_SAMPLES
    }

    /// Takes new settings and refresh interval; the histories stay.
    pub fn update_config(&mut self, config: DisksConfig, refresh_rate: u32)
        requires
            old(self).wf(),
        ensures
            final(self).wf(),
            final(self).spec_config() == config,
            final(self).spec_refresh_rate() == refresh_rate,
            final(self).write_samples() == old(self).write_samples(),
            final(self).read_samples() == old(self).read_samples(),
    {
        self.config = config;
        self.refresh_rate = refresh_rate;
    }

    pub fn config(&self) -> (c: &DisksConfig)
        ensures
            *c == self.spec_config(),
    {
        &self.config
    }

    pub fn refresh_rate(&self) -> (r: u32)
        ensures
            r == self.spec_refresh_rate(),
    {
        self.refresh_rate
    }

    /// The bytes written and read in one refresh by all disks, whose
    /// (written, read) byte counts are given; `None` when a total does not
    /// fit in a `u64`.
    pub fn io_totals(disks: &Vec<(u64, u64)>) -> (r: Option<(u64, u64)>)
        ensures
            ({
                let written = io_bytes(disks@, false);
                let read = io_bytes(disks@, true);
                match r {
                    Some((w, rd)) => w == written && rd == read,
                    None => written > u64::MAX || read > u64::MAX,
                }
            }),
    {
        let mut written: u64 = 0;
        let mut read: u64 = 0;
        let mut i: usize = 0;
        while i < disks.len()
            invariant
                i <= disks.len(),
                written == io_bytes(disks@.take(i as int), false),
                read == io_bytes(disks@.take(i as int), true),
            decreases disks.len() - i,
        {
            let (w, r) = disks[i];
            proof {
                assert(disks@.take(i + 1).drop_last() =~= disks@.take(i as int));
                lemma_io_bytes_grows(disks@, i + 1, false);
                lemma_io_bytes_grows(disks@, i + 1, true);
            }
            match (written.checked_add(w), read.checked_add(r)) {
                (Some(a), Some(b)) => {
                    written = a;
                    read = b;
                },
                _ => {
                    return None;
                },
            }
            i = i + 1;
        }
        assert(disks@.take(i as int) =~= disks@);
        Some((written, read))
    }

    /// Records one refresh: the oldest sample of each history is dropped and
    /// the new one appended.
    pub fn update(&mut self, written_bytes: u64, read_bytes: u64)
        requires
            old(self).wf(),
        ensures
            final(self).wf(),
            final(self).write_samples() == old(self).write_samples().drop_first().push(
                written_bytes,
            ),
            final(self).read_samples() == old(self).read_samples().drop_first().push(
                read_bytes,
            ),
            final(self).spec_config() == old(self).spec_config(),
            final(self).spec_refresh_rate() == old(self).spec_refresh_rate(),
    {
        history_push(&mut self.write, written_bytes);
        history_push(&mut self.read, read_bytes);
    }

    /// The bytes written over about the last second: the sum of the newest
    /// samples spanning at least 1000 ms at `sample_interval_ms` per sample,
    /// and the span they cover; `None` when the sum does not fit in a `u64`.
    pub fn write_window(&self, sample_interval_ms: u32) -> (r: Option<(u64, u32)>)
        ensures
            ({
                let s = self.write_samples();
                let k = window_count(s.len(), sample_interval_ms as nat);
                match r {
                    Some((total, span)) => window_fits(s, sample_interval_ms as nat) && total
                        == samples_sum(newest(s, k)) && span == k * sample_interval_ms,
                    None => !window_fits(s, sample_interval_ms as nat),
                }
            }),
    {
        last_second_window(&self.write, sample_interval_ms)
    }

    /// The bytes read over about the last second, as `write_window` does for
    /// the bytes written.
    pub fn read_window(&self, sample_interval_ms: u32) -> (r: Option<(u64, u32)>)
        ensures
            ({
                let s = self.read_samples();
                let k = window_count(s.len(), sample_interval_ms as nat);
                match r {
                    Some((total, span)) => window_fits(s, sample_interval_ms as nat) && total
                        == samples_sum(newest(s, k)) && span == k * sample_interval_ms,
                    None => !window_fits(s, sample_interval_ms as nat),
                }
            }),
    {
        last_second_window(&self.read, sample_interval_ms)
    }
}

proof fn lemma_io_bytes_grows(s: Seq<(u64, u64)>, i: int, read: bool)
    requires
        0 <= i <= s.len(),
    ensures
        io_bytes(s.take(i), read) <= io_bytes(s, read),
    decreases s.len() - i,
{
    if i < s.len() {
        lemma_io_bytes_grows(s, i + 1, read);
        assert(s.take(i + 1).drop_last() =~= s.take(i));
    } else {
        assert(s.take(i) =~= s);
    }
}

impl Default for DiskHistory {
    /// A history of `MAX_SAMPLES` idle refreshes, with the default settings
    /// and a refresh every 1000 ms.
    fn default() -> (n: Self)
        ensures
            n.wf(),
            n.write_samples() == Seq::new(MAX_SAMPLES as nat, |_i: int| 0u64),
            n.read_samples() == Seq::new(MAX_SAMPLES as nat, |_i: int| 0u64),
            n.spec_config().is_default(),
            n.spec_refresh_rate() == 1000,
    {
        DiskHistory {
            write: history_filled(0, MAX_SAMPLES),
            read: history_filled(0, MAX_SAMPLES),
            config: DisksConfig::default(),
            refresh_rate: 1000,
        }
    }
}

/// The network format of the same name as a disk format.
pub open spec fn network_format(format: UnitVariant) -> NetworkUnitVariant {
    match format {
        UnitVariant::Short => NetworkUnitVariant::Short,
        UnitVariant::Long => NetworkUnitVariant::Long,
    }
}

/// A disk label is the network label in bytes: for the same number text,
/// unit index and format, the disk unit is the network byte unit and the two
/// labels are the same text.
pub proof fn lemma_disk_label_is_network_byte_label(value: Seq<char>, unit_index: int, format: UnitVariant)
    requires
        0 <= unit_index < UNIT_COUNT,
    ensures
        disks_unit(format, unit_index) == network_unit(true, network_format(format), unit_index),
        rate_label(value, disks_unit(format, unit_index), format == UnitVariant::Long) == rate_label(
            value,
            network_unit(true, network_format(format), unit_index),
            network_format(format) == NetworkUnitVariant::Long,
        ),
{
}

} // verus!
