use sysmon::sensors::gpus::{joining_cards, stopped_usage, vram_unit};
use sysmon::sensors::memory::memory_unit;
use sysmon::sensors::TempUnit;

#[test]
fn temp_unit_from_index() {
    assert_eq!(TempUnit::from(0usize), TempUnit::Celsius);
    assert_eq!(TempUnit::from(1usize), TempUnit::Farenheit);
    assert_eq!(TempUnit::from(2usize), TempUnit::Kelvin);
    assert_eq!(TempUnit::from(3usize), TempUnit::Rankine);
    assert_eq!(TempUnit::from(4usize), TempUnit::Celsius);
    assert_eq!(TempUnit::from(usize::MAX), TempUnit::Celsius);
}

#[test]
fn temp_unit_round_trip() {
    for u in [TempUnit::Celsius, TempUnit::Farenheit, TempUnit::Kelvin, TempUnit::Rankine] {
        let i: usize = u.into();
        assert!(i < 4);
        assert_eq!(TempUnit::from(i), u);
    }
    for i in 0usize..4 {
        let u = TempUnit::from(i);
        let back: usize = u.into();
        assert_eq!(back, i);
    }
}

#[test]
fn temp_unit_texts() {
    assert_eq!(TempUnit::Celsius.symbol(), "°C");
    assert_eq!(TempUnit::Farenheit.symbol(), "°F");
    assert_eq!(TempUnit::Kelvin.symbol(), "K");
    assert_eq!(TempUnit::Rankine.symbol(), "°R");
    assert_eq!(TempUnit::Celsius.no_reading(), "--°C");
    assert_eq!(TempUnit::Farenheit.no_reading(), "---°F");
    assert_eq!(TempUnit::Kelvin.no_reading(), "---K");
    assert_eq!(TempUnit::Rankine.no_reading(), "---°R");
}

#[test]
fn value_units() {
    assert_eq!(memory_unit(true, false), "%");
    assert_eq!(memory_unit(true, true), "%");
    assert_eq!(memory_unit(false, false), " GB");
    assert_eq!(memory_unit(false, true), "GB");
    assert_eq!(vram_unit(true), "GB");
    assert_eq!(vram_unit(false), " GB");
    assert_eq!(stopped_usage(), "---%");
}

#[test]
fn redetected_cards_join_once() {
    let s = |v: &[&str]| v.iter().map(|x| x.to_string()).collect::<Vec<String>>();
    assert_eq!(joining_cards(&s(&[]), &s(&["a", "b"])), vec![0, 1]);
    assert_eq!(joining_cards(&s(&["a"]), &s(&["a", "b", "b", "c", "a"])), vec![1, 3]);
    assert_eq!(joining_cards(&s(&["x", "y"]), &s(&["y", "x"])), Vec::<usize>::new());
    assert_eq!(joining_cards(&s(&["x"]), &s(&[])), Vec::<usize>::new());
}
