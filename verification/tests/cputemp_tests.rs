use sysmon::sensors::cputemp::{choose_cpu_inputs, classify_label, is_cpu_monitor, SensorLabel};
use sysmon::sensors::CpuVariant;

#[test]
fn cpu_monitor_names() {
    assert!(is_cpu_monitor("k10temp\n"));
    assert!(is_cpu_monitor("coretemp"));
    assert!(is_cpu_monitor("  CoreTemp "));
    assert!(is_cpu_monitor("zenpower"));
    assert!(is_cpu_monitor("cpu_thermal"));
    assert!(is_cpu_monitor("ACPU"));
    assert!(!is_cpu_monitor("nvme"));
    assert!(!is_cpu_monitor("amdgpu"));
    assert!(!is_cpu_monitor(""));
}

#[test]
fn label_kinds() {
    assert_eq!(classify_label("Tdie\n"), Some(SensorLabel::Tdie));
    assert_eq!(classify_label("tdie"), Some(SensorLabel::Tdie));
    assert_eq!(classify_label("Tctl"), Some(SensorLabel::Tctl));
    assert_eq!(classify_label("TCTL"), Some(SensorLabel::Tctl));
    assert_eq!(classify_label("CCD"), Some(SensorLabel::Ccd));
    assert_eq!(classify_label("Tccd1"), None);
    assert_eq!(classify_label("Core 0"), Some(SensorLabel::Core));
    assert_eq!(classify_label("Package id 0"), Some(SensorLabel::Core));
    assert_eq!(classify_label("core 0"), None);
    assert_eq!(classify_label("Composite"), None);
}

fn labels(v: &[(usize, &str)]) -> Vec<(usize, String)> {
    v.iter().map(|(i, l)| (*i, l.to_string())).collect()
}

#[test]
fn amd_inputs_by_priority() {
    let l = labels(&[(1, "Tctl"), (3, "ccd"), (5, "Tdie")]);
    assert_eq!(choose_cpu_inputs(&l), Some((CpuVariant::Amd, vec![5])));
    let l = labels(&[(1, "Tctl"), (3, "ccd")]);
    assert_eq!(choose_cpu_inputs(&l), Some((CpuVariant::Amd, vec![3])));
    let l = labels(&[(1, "Tctl"), (2, "Core 0")]);
    assert_eq!(choose_cpu_inputs(&l), Some((CpuVariant::Amd, vec![1])));
    // the last of several inputs of one kind is taken
    let l = labels(&[(1, "Tdie"), (4, "tdie")]);
    assert_eq!(choose_cpu_inputs(&l), Some((CpuVariant::Amd, vec![4])));
}

#[test]
fn intel_inputs() {
    let l = labels(&[(1, "Package id 0"), (2, "Core 0"), (3, "Core 1"), (4, "Other")]);
    assert_eq!(choose_cpu_inputs(&l), Some((CpuVariant::Intel, vec![1, 2, 3])));
}

#[test]
fn no_usable_inputs() {
    assert_eq!(choose_cpu_inputs(&Vec::new()), None);
    let l = labels(&[(1, "Composite"), (2, "Sensor 1")]);
    assert_eq!(choose_cpu_inputs(&l), None);
}
