use sysmon::config::{
    ContentOrder, ContentType, CpuConfig, CpuTempConfig, DeviceKind, DisksConfig, DisksVariant,
    GpuConfig, GpuTempConfig, GpuUsageConfig, GpuVramConfig, MemoryConfig, NetworkConfig,
    NetworkVariant, SysmonConfig,
};
use sysmon::sensors::TempUnit;

#[test]
fn sysmon_config_defaults() {
    let c = SysmonConfig::default();
    assert_eq!(c.refresh_rate, 3000);
    assert_eq!(c.value_size_default, 11);
    assert_eq!(c.label_size_default, 10);
    assert_eq!(c.combined_value_size_default, 10);
    assert!(!c.monospace_values);
    assert_eq!(c.cpu, CpuConfig::default());
    assert_eq!(c.cputemp, CpuTempConfig::default());
    assert_eq!(c.memory, MemoryConfig::default());
    assert_eq!(c.network1.variant, NetworkVariant::Combined);
    assert_eq!(c.network2.variant, NetworkVariant::Upload);
    assert_eq!(c.disks1.variant, DisksVariant::Combined);
    assert_eq!(c.disks2.variant, DisksVariant::Read);
    assert!(!c.network2.visible());
    assert!(!c.network2.show_bytes);
    assert!(c.gpus.is_empty());
    assert_eq!(c.sysmon, None);
    assert_eq!(c.panel_spacing, 3);
    assert_eq!(c.content_order, ContentOrder::default());
}

#[test]
fn entry_defaults_are_hidden() {
    let cpu = CpuConfig::default();
    assert!(!cpu.visible() && !cpu.label_visible() && !cpu.no_decimals);
    let temp = CpuTempConfig::default();
    assert_eq!(temp.unit, TempUnit::Celsius);
    let mem = MemoryConfig::default();
    assert!(!mem.percentage && !mem.show_allocated && !mem.stack_values);
    let net = NetworkConfig::default();
    assert_eq!(net.variant, NetworkVariant::Combined);
    assert!(!net.show_bytes);
    let disks = DisksConfig::default();
    assert_eq!(disks.variant, DisksVariant::Combined);
    assert!(!GpuUsageConfig::default().visible());
    assert!(!GpuVramConfig::default().label_visible());
    assert_eq!(GpuTempConfig::default().unit, TempUnit::Celsius);
}

#[test]
fn show_value_and_label_are_independent() {
    let mut c = MemoryConfig::default();
    c.percentage = true;
    c.show_value(true);
    assert!(c.value_visible());
    assert!(c.visible());
    assert!(!c.label_visible());
    assert!(c.percentage);
    c.show_label(true);
    assert!(c.label_visible());
    assert!(c.value_visible());
    c.show_value(false);
    assert!(!c.visible());
    assert!(c.label_visible());
}

#[test]
fn gpu_config_default_and_visibility() {
    let mut g = GpuConfig::default();
    assert!(g.pause_on_battery);
    assert!(g.stack_values);
    assert!(!g.is_visible());
    g.temp.show_label(true);
    assert!(!g.is_visible());
    g.vram.show_value(true);
    assert!(g.is_visible());
    g.vram.show_value(false);
    g.temp.show_value(true);
    assert!(g.is_visible());
}

#[test]
fn content_order_default() {
    let o = ContentOrder::default();
    assert_eq!(
        o.order,
        vec![
            ContentType::CpuUsage,
            ContentType::CpuTemp,
            ContentType::MemoryUsage,
            ContentType::NetworkUsage,
            ContentType::DiskUsage,
            ContentType::GpuInfo,
        ]
    );
}

#[test]
fn device_kind_message_ids() {
    assert_eq!(DeviceKind::Cpu.message_id(), "sensor-cpu");
    assert_eq!(DeviceKind::CpuTemp.message_id(), "sensor-cpu-temperature");
    assert_eq!(DeviceKind::Memory.message_id(), "sensor-memory");
    assert_eq!(DeviceKind::Network(NetworkVariant::Upload).message_id(), "sensor-network");
    assert_eq!(DeviceKind::Network(NetworkVariant::Download).message_id(), "sensor-network");
    assert_eq!(DeviceKind::Disks(DisksVariant::Read).message_id(), "sensor-disks");
    assert_eq!(DeviceKind::Gpu.message_id(), "sensor-gpu");
    assert_eq!(DeviceKind::Vram.message_id(), "sensor-vram");
    assert_eq!(DeviceKind::GpuTemp.message_id(), "sensor-gpu-temp");
}
