use sysmon::config::{DisksConfig, DisksVariant, NetworkConfig, NetworkVariant};
use sysmon::sensors::disks::{self, DiskHistory};
use sysmon::sensors::network::{self, NetworkHistory, UnitVariant};

#[test]
fn fresh_network_history_is_idle() {
    let n = NetworkHistory::default();
    assert_eq!(n.download_window(1000), Some((0, 1000)));
    assert_eq!(n.upload_window(500), Some((0, 1000)));
    assert_eq!(n.refresh_rate(), 1000);
    assert_eq!(*n.config(), NetworkConfig::default());
}

#[test]
fn network_window_spans_one_second() {
    let mut n = NetworkHistory::default();
    n.update(100, 1);
    n.update(200, 2);
    n.update(300, 3);
    assert_eq!(n.download_window(1000), Some((300, 1000)));
    assert_eq!(n.download_window(500), Some((500, 1000)));
    assert_eq!(n.download_window(400), Some((600, 1200)));
    assert_eq!(n.download_window(3000), Some((300, 3000)));
    assert_eq!(n.upload_window(250), Some((6, 1000)));
    // with no interval every remembered sample is taken, spanning nothing
    assert_eq!(n.download_window(0), Some((600, 0)));
    // with a tiny interval the whole history of 30 samples is taken
    assert_eq!(n.download_window(1), Some((600, 30)));
}

#[test]
fn network_history_keeps_thirty_samples() {
    let mut n = NetworkHistory::default();
    for i in 0..40u64 {
        n.update(i, 0);
    }
    // samples 10..=39 remain
    let expected: u64 = (10..40).sum();
    assert_eq!(n.download_window(0), Some((expected, 0)));
}

#[test]
fn network_window_overflow() {
    let mut n = NetworkHistory::default();
    n.update(u64::MAX, 0);
    n.update(1, 0);
    assert_eq!(n.download_window(1000), Some((1, 1000)));
    assert_eq!(n.download_window(500), None);
}

#[test]
fn network_update_config() {
    let mut n = NetworkHistory::default();
    n.update(8, 8);
    let mut c = NetworkConfig::default();
    c.variant = NetworkVariant::Download;
    c.show_bytes = true;
    n.update_config(c.clone(), 2000);
    assert_eq!(*n.config(), c);
    assert_eq!(n.refresh_rate(), 2000);
    assert_eq!(n.download_window(1000), Some((8, 1000)));
}

#[test]
fn traffic_totals_in_bits() {
    assert_eq!(NetworkHistory::traffic_totals(&vec![(10, 1), (5, 2)]), Some((120, 24)));
    assert_eq!(NetworkHistory::traffic_totals(&Vec::new()), Some((0, 0)));
    assert_eq!(NetworkHistory::traffic_totals(&vec![(u64::MAX / 8 + 1, 0)]), None);
    assert_eq!(NetworkHistory::traffic_totals(&vec![(0, u64::MAX / 8), (0, 1)]), None);
}

#[test]
fn network_units() {
    assert_eq!(network::unit_name(false, UnitVariant::Short, 0), "b");
    assert_eq!(network::unit_name(false, UnitVariant::Long, 1), "Kbps");
    assert_eq!(network::unit_name(true, UnitVariant::Short, 2), "M");
    assert_eq!(network::unit_name(true, UnitVariant::Long, 3), "GB/s");
    assert_eq!(network::unit_name(false, UnitVariant::Long, 4), "Tbps");
}

#[test]
fn network_label_text() {
    assert_eq!(network::rate_text("1.50", 2, UnitVariant::Short, false), "1.50M");
    assert_eq!(network::rate_text("1.50", 2, UnitVariant::Long, false), "1.50 Mbps");
    assert_eq!(network::rate_text("5.00", 0, UnitVariant::Long, false), " 5.00 bps");
    assert_eq!(network::rate_text("12.5", 1, UnitVariant::Long, true), "12.5 KB/s");
    assert_eq!(network::rate_text("7", 0, UnitVariant::Long, true), "    7 B/s");
    assert_eq!(network::rate_text("998", 0, UnitVariant::Long, false), "  998 bps");
    // a number rounded up to five characters loses its last digit
    assert_eq!(network::rate_text("10.00", 1, UnitVariant::Short, false), "10.0K");
    assert_eq!(network::rate_text("10.00", 1, UnitVariant::Long, false), "10.0 Kbps");
}

#[test]
fn disks_history_and_labels() {
    let mut d = DiskHistory::default();
    assert_eq!(d.write_window(1000), Some((0, 1000)));
    d.update(4096, 512);
    d.update(1024, 256);
    assert_eq!(d.write_window(1000), Some((1024, 1000)));
    assert_eq!(d.read_window(500), Some((768, 1000)));
    let mut c = DisksConfig::default();
    c.variant = DisksVariant::Write;
    d.update_config(c.clone(), 500);
    assert_eq!(*d.config(), c);
    assert_eq!(d.refresh_rate(), 500);
    assert_eq!(DiskHistory::io_totals(&vec![(1, 2), (3, 4)]), Some((4, 6)));
    assert_eq!(DiskHistory::io_totals(&vec![(u64::MAX, 0), (1, 0)]), None);
    assert_eq!(disks::unit_name(UnitVariant2::Short, 0), "B");
    assert_eq!(disks::unit_name(UnitVariant2::Long, 4), "TB/s");
    assert_eq!(disks::rate_text("3.25", 3, UnitVariant2::Short), "3.25G");
    assert_eq!(disks::rate_text("3.25", 3, UnitVariant2::Long), "3.25 GB/s");
    assert_eq!(disks::rate_text("42", 0, UnitVariant2::Long), "   42 B/s");
}

use sysmon::sensors::disks::UnitVariant as UnitVariant2;

#[test]
fn disk_labels_are_network_byte_labels() {
    for i in 0..5 {
        for v in ["1.23", "45.6", "999", "10000", "7"] {
            assert_eq!(
                disks::rate_text(v, i, UnitVariant2::Short),
                network::rate_text(v, i, UnitVariant::Short, true)
            );
            assert_eq!(
                disks::rate_text(v, i, UnitVariant2::Long),
                network::rate_text(v, i, UnitVariant::Long, true)
            );
        }
    }
    // a five-digit number in the largest unit loses its last digit
    assert_eq!(disks::rate_text("12345", 4, UnitVariant2::Long), "1234 TB/s");
}
