//! Network throughput: the download and upload histories, in bits per
//! refresh, and the units and text of their labels.
use bounded_vec_deque::BoundedVecDeque;

use vstd::prelude::*;

use crate::config::NetworkConfig;
use crate::sensors::history::{
    finish_rate_label, history_filled, history_items, history_max_len, history_push,
    last_second_window, newest, rate_label, samples_sum, window_count, window_fits,
};

verus! {

/// How many refreshes a network history remembers.
pub const MAX_SAMPLES: usize = 30;

/// Short ("1.50M") or long ("  1.50 Mbps") label text.
#[derive(Debug, PartialEq, Eq, Clone, Copy, Structural)]
pub enum UnitVariant {
    Short,
    Long,
}

/// The unit names, from the smallest up by factors of 1000: bits or bytes,
/// short or long.
pub open spec fn network_unit(show_bytes: bool, format: UnitVariant, index: int) -> Seq<char> {
    match (show_bytes, format) {
        (false, UnitVariant::Short) => if index == 0 {
            "b"@
        } else if index == 1 {
            "K"@
        } else if index == 2 {
            "M"@
        } else if index == 3 {
            "G"@
        } else {
            "T"@
        },
        (false, UnitVariant::Long) => if index == 0 {
            "bps"@
        } else if index == 1 {
            "Kbps"@
        } else if index == 2 {
            "Mbps"@
        } else if index == 3 {
            "Gbps"@
        } else {
            "Tbps"@
        },
        (true, UnitVariant::Short) => if index == 0 {
            "B"@
        } else if index == 1 {
            "K"@
        } else if index == 2 {
            "M"@
        } else if index == 3 {
            "G"@
        } else {
            "T"@
        },
        (true, UnitVariant::Long) => if index == 0 {
            "B/s"@
        } else if index == 1 {
            "KB/s"@
        } else if index == 2 {
            "MB/s"@
        } else if index == 3 {
            "GB/s"@
        } else {
            "TB/s"@
        },
    }
}

/// The number of units; a value is scaled up at most to the last one.
pub const UNIT_COUNT: usize = 5;

/// The name of unit `index` (0 to 4) of the table chosen by `show_bytes` and
/// `format`.
pub fn unit_name(show_bytes: bool, format: UnitVariant, index: usize) -> (u: &'static str)
    requires
        index < UNIT_COUNT,
    ensures
        u@ == network_unit(show_bytes, format, index as int),
        u.is_ascii(),
{
    let u = match (show_bytes, format) {
        (false, UnitVariant::Short) => if index == 0 {
            "b"
        } else if index == 1 {
            "K"
        } else if index == 2 {
            "M"
        } else if index == 3 {
            "G"
        } else {
            "T"
        },
        (false, UnitVariant::Long) => if index == 0 {
            "bps"
        } else if index == 1 {
            "Kbps"
        } else if index == 2 {
            "Mbps"
        } else if index == 3 {
            "Gbps"
        } else {
            "Tbps"
        },
        (true, UnitVariant::Short) => if index == 0 {
            "B"
        } else if index == 1 {
            "K"
        } else if index == 2 {
            "M"
        } else if index == 3 {
            "G"
        } else {
            "T"
        },
        (true, UnitVariant::Long) => if index == 0 {
            "B/s"
        } else if index == 1 {
            "KB/s"
        } else if index == 2 {
            "MB/s"
        } else if index == 3 {
            "GB/s"
        } else {
            "TB/s"
        },
    };
    proof {
        reveal_strlit("b");
        reveal_strlit("K");
        reveal_strlit("M");
        reveal_strlit("G");
        reveal_strlit("T");
        reveal_strlit("bps");
        reveal_strlit("Kbps");
        reveal_strlit("Mbps");
        reveal_strlit("Gbps");
        reveal_strlit("Tbps");
        reveal_strlit("B");
        reveal_strlit("B/s");
        reveal_strlit("KB/s");
        reveal_strlit("MB/s");
        reveal_strlit("GB/s");
        reveal_strlit("TB/s");
    }
    u
}

/// The text of a network label: the formatted number `value`, scaled to unit
/// `unit_index`, followed by that unit's name.
pub fn rate_text(value: &str, unit_index: usize, format: UnitVariant, show_bytes: bool) -> (t: String)
    requires
        value.is_ascii(),
        unit_index < UNIT_COUNT,
    ensures
        t@ == rate_label(
            value@,
            network_unit(show_bytes, format, unit_index as int),
            format == UnitVariant::Long,
        ),
{
    let unit = unit_name(show_bytes, format, unit_index);
    finish_rate_label(value, unit, format == UnitVariant::Long)
}

/// Bits received (or sent) by all interfaces: eight times the sum of their
/// byte counts.
pub open spec fn traffic_bits(interfaces: Seq<(u64, u64)>, sent: bool) -> nat
    decreases interfaces.len(),
{
    if interfaces.len() == 0 {
        0
    } else {
        let last = interfaces.last();
        traffic_bits(interfaces.drop_last(), sent) + 8 * (if sent {
            last.1
        } else {
            last.0
        }) as nat
    }
}

/// Network throughput history: bits received and sent per refresh over the
/// last `MAX_SAMPLES` refreshes, with the entry's settings and the refresh
/// interval in milliseconds.
#[derive(Debug)]
pub struct NetworkHistory {
    download: BoundedVecDeque<u64>,
    upload: BoundedVecDeque<u64>,
    config: NetworkConfig,
    refresh_rate: u32,
}

impl NetworkHistory {
    /// Bits received per refresh, oldest first.
    pub closed spec fn download_samples(&self) -> Seq<u64> {
        history_items(self.download)
    }

    /// Bits sent per refresh, oldest first.
    pub closed spec fn upload_samples(&self) -> Seq<u64> {
        history_items(self.upload)
    }

    pub closed spec fn spec_config(&self) -> NetworkConfig {
        self.config
    }

    pub closed spec fn spec_refresh_rate(&self) -> u32 {
        self.refresh_rate
    }

    /// The number of samples the download history keeps at most.
    pub closed spec fn download_limit(&self) -> nat {
        history_max_len(self.download)
    }

    /// The number of samples the upload history keeps at most.
    pub closed spec fn upload_limit(&self) -> nat {
        history_max_len(self.upload)
    }

    /// A history is valid exactly when it holds `MAX_SAMPLES` samples in each
    /// direction and keeps no more.
    pub proof fn lemma_wf_lengths(&self)
        ensures
            self.wf() <==> {
                &&& self.download_samples().len() == MAX_SAMPLES
                &&& self.upload_samples().len() == MAX_SAMPLES
                &&& self.download_limit() == MAX_SAMPLES
                &&& self.upload_limit() == MAX_SAMPLES
            },
    {
    }

    /// Both histories hold exactly `MAX_SAMPLES` samples and keep no more.
    pub closed spec fn wf(&self) -> bool {
        &&& history_items(self.download).len() == MAX_SAMPLES
        &&& history_max_len(self.download) == MAX_SAMPLES
        &&& history_items(self.upload).len() == MAX_SAMPLES
        &&& history_max_len(self.upload) == MAX_SAMPLES
    }

    /// Takes new settings and refresh interval; the histories stay.
    pub fn update_config(&mut self, config: NetworkConfig, refresh_rate: u32)
        requires
            old(self).wf(),
        ensures
            final(self).wf(),
            final(self).spec_config() == config,
            final(self).spec_refresh_rate() == refresh_rate,
            final(self).download_samples() == old(self).download_samples(),
            final(self).upload_samples() == old(self).upload_samples(),
    {
        self.config = config;
        self.refresh_rate = refresh_rate;
    }

    pub fn config(&self) -> (c: &NetworkConfig)
        ensures
            *c == self.spec_config(),
    {
        &self.config
    }

    pub fn refresh_rate(&self) -> (r: u32)
        ensures
            r == self.spec_refresh_rate(),
    {
        self.refresh_rate
    }

    /// The bits received and sent in one refresh by all interfaces, whose
    /// (received, transmitted) byte counts are given; `None` when a total
    /// does not fit in a `u64`.
    pub fn traffic_totals(interfaces: &Vec<(u64, u64)>) -> (r: Option<(u64, u64)>)
        ensures
            ({
                let down = traffic_bits(interfaces@, false);
                let up = traffic_bits(interfaces@, true);
                match r {
                    Some((d, u)) => d == down && u == up,
                    None => down > u64::MAX || up > u64::MAX,
                }
            }),
    {
        let mut down: u64 = 0;
        let mut up: u64 = 0;
        let mut i: usize = 0;
        while i < interfaces.len()
            invariant
                i <= interfaces.len(),
                down == traffic_bits(interfaces@.take(i as int), false),
                up == traffic_bits(interfaces@.take(i as int), true),
            decreases interfaces.len() - i,
        {
            let (received, transmitted) = interfaces[i];
            proof {
                assert(interfaces@.take(i + 1).drop_last() =~= interfaces@.take(i as int));
                lemma_traffic_bits_grows(interfaces@, i + 1, false);
                lemma_traffic_bits_grows(interfaces@, i + 1, true);
            }
            let d = match received.checked_mul(8) {
                Some(b) => down.checked_add(b),
                None => None,
            };
            let u = match transmitted.checked_mul(8) {
                Some(b) => up.checked_add(b),
                None => None,
            };
            match (d, u) {
                (Some(d), Some(u)) => {
                    down = d;
                    up = u;
                },
                _ => {
                    return None;
                },
            }
            i = i + 1;
        }
        assert(interfaces@.take(i as int) =~= interfaces@);
        Some((down, up))
    }

    /// Records one refresh: the oldest sample of each history is dropped and
    /// the new one appended.
    pub fn update(&mut self, download_bits: u64, upload_bits: u64)
        requires
            old(self).wf(),
        ensures
            final(self).wf(),
            final(self).download_samples() == old(self).download_samples().drop_first().push(
                download_bits,
            ),
            final(self).upload_samples() == old(self).upload_samples().drop_first().push(
                upload_bits,
            ),
            final(self).spec_config() == old(self).spec_config(),
            final(self).spec_refresh_rate() == old(self).spec_refresh_rate(),
    {
        history_push(&mut self.download, download_bits);
        history_push(&mut self.upload, upload_bits);
    }

    /// The bits received over about the last second: the sum of the newest
    /// samples spanning at least 1000 ms at `sample_interval_ms` per sample,
    /// and the span they cover; `None` when the sum does not fit in a `u64`.
    pub fn download_window(&self, sample_interval_ms: u32) -> (r: Option<(u64, u32)>)
        ensures
            ({
                let s = self.download_samples();
                let k = window_count(s.len(), sample_interval_ms as nat);
                match r {
                    Some((total, span)) => window_fits(s, sample_interval_ms as nat) && total
                        == samples_sum(newest(s, k)) && span == k * sample_interval_ms,
                    None => !window_fits(s, sample_interval_ms as nat),
                }
            }),
    {
        last_second_window(&self.download, sample_interval_ms)
    }

    /// The bits sent over about the last second, as `download_window` does
    /// for the bits received.
    pub fn upload_window(&self, sample_interval_ms: u32) -> (r: Option<(u64, u32)>)
        ensures
            ({
                let s = self.upload_samples();
                let k = window_count(s.len(), sample_interval_ms as nat);
                match r {
                    Some((total, span)) => window_fits(s, sample_interval_ms as nat) && total
                        == samples_sum(newest(s, k)) && span == k * sample_interval_ms,
                    None => !window_fits(s, sample_interval_ms as nat),
                }
            }),
    {
        last_second_window(&self.upload, sample_interval_ms)
    }
}

proof fn lemma_traffic_bits_grows(s: Seq<(u64, u64)>, i: int, sent: bool)
    requires
        0 <= i <= s.len(),
    ensures
        traffic_bits(s.take(i), sent) <= traffic_bits(s, sent),
    decreases s.len() - i,
{
    if i < s.len() {
        lemma_traffic_bits_grows(s, i + 1, sent);
        assert(s.take(i + 1).drop_last() =~= s.take(i));
    } else {
        assert(s.take(i) =~= s);
    }
}

impl Default for NetworkHistory {
    /// A history of `MAX_SAMPLES` idle refreshes, with the default settings
    /// and a refresh every 1000 ms.
    fn default() -> (n: Self)
        ensures
            n.wf(),
            n.download_samples() == Seq::new(MAX_SAMPLES as nat, |_i: int| 0u64),
            n.upload_samples() == Seq::new(MAX_SAMPLES as nat, |_i: int| 0u64),
            n.spec_config().is_default(),
            n.spec_refresh_rate() == 1000,
    {
        NetworkHistory {
            download: history_filled(0, MAX_SAMPLES),
            upload: history_filled(0, MAX_SAMPLES),
            config: NetworkConfig::default(),
            refresh_rate: 1000,
        }
    }
}

/// The units go up by factors of 1000 in the order kilo, mega, giga, tera:
/// above the base unit, the short name of unit `i` is the `i`-th of the
/// letters K, M, G, T, in bits and in bytes alike; the base unit is "b" for
/// bits and "B" for bytes. A long name is the short one followed by "bps" for
/// bits and "B/s" for bytes (the base long names being "bps" and "B/s").
pub proof fn lemma_unit_names_scale(index: int)
    requires
        0 <= index < UNIT_COUNT,
    ensures
        index >= 1 ==> network_unit(false, UnitVariant::Short, index) == seq![
            seq!['K', 'M', 'G', 'T'][index - 1],
        ],
        index >= 1 ==> network_unit(true, UnitVariant::Short, index) == network_unit(
            false,
            UnitVariant::Short,
            index,
        ),
        index == 0 ==> network_unit(false, UnitVariant::Short, index) == seq!['b'],
        index == 0 ==> network_unit(true, UnitVariant::Short, index) == seq!['B'],
        index >= 1 ==> network_unit(false, UnitVariant::Long, index) == network_unit(
            false,
            UnitVariant::Short,
            index,
        ) + seq!['b', 'p', 's'],
        index >= 1 ==> network_unit(true, UnitVariant::Long, index) == network_unit(
            true,
            UnitVariant::Short,
            index,
        ) + seq!['B', '/', 's'],
        index == 0 ==> network_unit(false, UnitVariant::Long, index) == seq!['b', 'p', 's'],
        index == 0 ==> network_unit(true, UnitVariant::Long, index) == seq!['B', '/', 's'],
{
    reveal_strlit("b");
    reveal_strlit("K");
    reveal_strlit("M");
    reveal_strlit("G");
    reveal_strlit("T");
    reveal_strlit("bps");
    reveal_strlit("Kbps");
    reveal_strlit("Mbps");
    reveal_strlit("Gbps");
    reveal_strlit("Tbps");
    reveal_strlit("B");
    reveal_strlit("B/s");
    reveal_strlit("KB/s");
    reveal_strlit("MB/s");
    reveal_strlit("GB/s");
    reveal_strlit("TB/s");
    assert(seq!['K', 'M', 'G', 'T'][0] == 'K');
    assert(seq!['K', 'M', 'G', 'T'][1] == 'M');
    assert(seq!['K', 'M', 'G', 'T'][2] == 'G');
    assert(seq!['K', 'M', 'G', 'T'][3] == 'T');
    assert("Kbps"@ =~= "K"@ + seq!['b', 'p', 's']);
    assert("Mbps"@ =~= "M"@ + seq!['b', 'p', 's']);
    assert("Gbps"@ =~= "G"@ + seq!['b', 'p', 's']);
    assert("Tbps"@ =~= "T"@ + seq!['b', 'p', 's']);
    assert("KB/s"@ =~= "K"@ + seq!['B', '/', 's']);
    assert("MB/s"@ =~= "M"@ + seq!['B', '/', 's']);
    assert("GB/s"@ =~= "G"@ + seq!['B', '/', 's']);
    assert("TB/s"@ =~= "T"@ + seq!['B', '/', 's']);
    assert("K"@ =~= seq!['K']);
    assert("M"@ =~= seq!['M']);
    assert("G"@ =~= seq!['G']);
    assert("T"@ =~= seq!['T']);
    assert("b"@ =~= seq!['b']);
    assert("B"@ =~= seq!['B']);
    assert("bps"@ =~= seq!['b', 'p', 's']);
    assert("B/s"@ =~= seq!['B', '/', 's']);
}

/// Within one table, different units have different names.
pub proof fn lemma_unit_names_distinct(show_bytes: bool, format: UnitVariant, i: int, j: int)
    requires
        0 <= i < UNIT_COUNT,
        0 <= j < UNIT_COUNT,
        i != j,
    ensures
        network_unit(show_bytes, format, i) != network_unit(show_bytes, format, j),
{
    lemma_unit_names_scale(i);
    lemma_unit_names_scale(j);
    let a = network_unit(show_bytes, format, i);
    let b = network_unit(show_bytes, format, j);
    if i == 0 || j == 0 {
        if a.len() == b.len() {
            assert(a[0] != b[0]);
        }
    } else {
        assert(a[0] == seq!['K', 'M', 'G', 'T'][i - 1]);
        assert(b[0] == seq!['K', 'M', 'G', 'T'][j - 1]);
        assert(a[0] != b[0]);
    }
}

} // verus!
