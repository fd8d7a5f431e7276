use std::collections::HashMap;

use vstd::prelude::*;

use crate::sensors::TempUnit;

verus! {

/// The kind of reading a panel entry shows.
#[derive(Debug, Clone, Copy, PartialEq, Eq, Structural)]
pub enum DeviceKind {
    Cpu,
    CpuTemp,
    Memory,
    Network(NetworkVariant),
    Disks(DisksVariant),
    Gpu,
    Vram,
    GpuTemp,
}

/// The key under which the translated name of each kind of reading is found.
pub open spec fn device_kind_message_id(kind: DeviceKind) -> Seq<char> {
    match kind {
        DeviceKind::Cpu => "sensor-cpu"@,
        DeviceKind::CpuTemp => "sensor-cpu-temperature"@,
        DeviceKind::Memory => "sensor-memory"@,
        DeviceKind::Network(_) => "sensor-network"@,
        DeviceKind::Disks(_) => "sensor-disks"@,
        DeviceKind::Gpu => "sensor-gpu"@,
        DeviceKind::Vram => "sensor-vram"@,
        DeviceKind::GpuTemp => "sensor-gpu-temp"@,
    }
}

impl DeviceKind {
    /// The translation key of the name shown for this kind of reading; every
    /// network variant shares one name, and so does every disk variant.
    pub fn message_id(&self) -> (id: &'static str)
        ensures
            id@ == device_kind_message_id(*self),
    {
        match self {
            DeviceKind::Cpu => "sensor-cpu",
            DeviceKind::CpuTemp => "sensor-cpu-temperature",
            DeviceKind::Memory => "sensor-memory",
            DeviceKind::Network(_) => "sensor-network",
            DeviceKind::Disks(_) => "sensor-disks",
            DeviceKind::Gpu => "sensor-gpu",
            DeviceKind::Vram => "sensor-vram",
            DeviceKind::GpuTemp => "sensor-gpu-temp",
        }
    }
}

/// Which direction of network traffic a network entry shows.
#[derive(Debug, Clone, Copy, PartialEq, Eq, Structural)]
pub enum NetworkVariant {
    Download,
    Upload,
    Combined,
}

/// Which direction of disk traffic a disk entry shows.
#[derive(Debug, Clone, Copy, PartialEq, Eq, Structural)]
pub enum DisksVariant {
    Write,
    Read,
    Combined,
}

/// Settings of the CPU usage entry: whether its value and its label are shown,
/// and the entry's own options.
#[derive(Debug, Clone, PartialEq, Eq, Structural)]
pub struct CpuConfig {
    pub value_visible: bool,
    pub label_visible: bool,
    pub no_decimals: bool,
}

impl CpuConfig {
    /// Whether the value is shown.
    pub open spec fn spec_value_visible(&self) -> bool {
        self.value_visible
    }

    /// Whether the label is shown.
    pub open spec fn spec_label_visible(&self) -> bool {
        self.label_visible
    }

    /// The settings a fresh installation starts with: value and label
    /// hidden, and each option at its default.
    pub open spec fn is_default(&self) -> bool {
        &&& !self.spec_value_visible()
        &&& !self.spec_label_visible()
        &&& self.no_decimals == false
    }

    /// Whether the entry is shown at all, which is whether its value is shown.
    pub fn visible(&self) -> (b: bool)
        ensures
            b == self.spec_value_visible(),
    {
        self.value_visible
    }

    pub fn value_visible(&self) -> (b: bool)
        ensures
            b == self.spec_value_visible(),
    {
        self.value_visible
    }

    pub fn label_visible(&self) -> (b: bool)
        ensures
            b == self.spec_label_visible(),
    {
        self.label_visible
    }

    /// Shows or hides the value; nothing else changes.
    pub fn show_value(&mut self, visible: bool)
        ensures
            *final(self) == (CpuConfig { value_visible: visible, ..*old(self) }),
    {
        self.value_visible = visible;
    }

    /// Shows or hides the label; nothing else changes.
    pub fn show_label(&mut self, visible: bool)
        ensures
            *final(self) == (CpuConfig { label_visible: visible, ..*old(self) }),
    {
        self.label_visible = visible;
    }
}

impl Default for CpuConfig {
    fn default() -> (c: Self)
        ensures
            c.is_default(),
    {
        CpuConfig {
            value_visible: false,
            label_visible: false,
            no_decimals: false,
        }
    }
}

/// Settings of the CPU temperature entry: whether its value and its label are shown,
/// and the entry's own options.
#[derive(Debug, Clone, PartialEq, Eq, Structural)]
pub struct CpuTempConfig {
    pub value_visible: bool,
    pub label_visible: bool,
    pub unit: TempUnit,
}

impl CpuTempConfig {
    /// Whether the value is shown.
    pub open spec fn spec_value_visible(&self) -> bool {
        self.value_visible
    }

    /// Whether the label is shown.
    pub open spec fn spec_label_visible(&self) -> bool {
        self.label_visible
    }

    /// The settings a fresh installation starts with: value and label
    /// hidden, and each option at its default.
    pub open spec fn is_default(&self) -> bool {
        &&& !self.spec_value_visible()
        &&& !self.spec_label_visible()
        &&& self.unit == TempUnit::Celsius
    }

    /// Whether the entry is shown at all, which is whether its value is shown.
    pub fn visible(&self) -> (b: bool)
        ensures
            b == self.spec_value_visible(),
    {
        self.value_visible
    }

    pub fn value_visible(&self) -> (b: bool)
        ensures
            b == self.spec_value_visible(),
    {
        self.value_visible
    }

    pub fn label_visible(&self) -> (b: bool)
        ensures
            b == self.spec_label_visible(),
    {
        self.label_visible
    }

    /// Shows or hides the value; nothing else changes.
    pub fn show_value(&mut self, visible: bool)
        ensures
            *final(self) == (CpuTempConfig { value_visible: visible, ..*old(self) }),
    {
        self.value_visible = visible;
    }

    /// Shows or hides the label; nothing else changes.
    pub fn show_label(&mut self, visible: bool)
        ensures
            *final(self) == (CpuTempConfig { label_visible: visible, ..*old(self) }),
    {
        self.label_visible = visible;
    }
}

impl Default for CpuTempConfig {
    fn default() -> (c: Self)
        ensures
            c.is_default(),
    {
        CpuTempConfig {
            value_visible: false,
            label_visible: false,
            unit: TempUnit::Celsius,
        }
    }
}

/// Settings of the memory usage entry: whether its value and its label are shown,
/// and the entry's own options.
#[derive(Debug, Clone, PartialEq, Eq, Structural)]
pub struct MemoryConfig {
    pub value_visible: bool,
    pub label_visible: bool,
    pub percentage: bool,
    pub show_allocated: bool,
    pub stack_values: bool,
}

impl MemoryConfig {
    /// Whether the value is shown.
    pub open spec fn spec_value_visible(&self) -> bool {
        self.value_visible
    }

    /// Whether the label is shown.
    pub open spec fn spec_label_visible(&self) -> bool {
        self.label_visible
    }

    /// The settings a fresh installation starts with: value and label
    /// hidden, and each option at its default.
    pub open spec fn is_default(&self) -> bool {
        &&& !self.spec_value_visible()
        &&& !self.spec_label_visible()
        &&& self.percentage == false
        &&& self.show_allocated == false
        &&& self.stack_values == false
    }

    /// Whether the entry is shown at all, which is whether its value is shown.
    pub fn visible(&self) -> (b: bool)
        ensures
            b == self.spec_value_visible(),
    {
        self.value_visible
    }

    pub fn value_visible(&self) -> (b: bool)
        ensures
            b == self.spec_value_visible(),
    {
        self.value_visible
    }

    pub fn label_visible(&self) -> (b: bool)
        ensures
            b == self.spec_label_visible(),
    {
        self.label_visible
    }

    /// Shows or hides the value; nothing else changes.
    pub fn show_value(&mut self, visible: bool)
        ensures
            *final(self) == (MemoryConfig { value_visible: visible, ..*old(self) }),
    {
        self.value_visible = visible;
    }

    /// Shows or hides the label; nothing else changes.
    pub fn show_label(&mut self, visible: bool)
        ensures
            *final(self) == (MemoryConfig { label_visible: visible, ..*old(self) }),
    {
        self.label_visible = visible;
    }
}

impl Default for MemoryConfig {
    fn default() -> (c: Self)
        ensures
            c.is_default(),
    {
        MemoryConfig {
            value_visible: false,
            label_visible: false,
            percentage: false,
            show_allocated: false,
            stack_values: false,
        }
    }
}

/// Settings of the network throughput entry: whether its value and its label are shown,
/// and the entry's own options.
#[derive(Debug, Clone, PartialEq, Eq, Structural)]
pub struct NetworkConfig {
    pub value_visible: bool,
    pub label_visible: bool,
    pub variant: NetworkVariant,
    pub show_bytes: bool,
}

impl NetworkConfig {
    /// Whether the value is shown.
    pub open spec fn spec_value_visible(&self) -> bool {
        self.value_visible
    }

    /// Whether the label is shown.
    pub open spec fn spec_label_visible(&self) -> bool {
        self.label_visible
    }

    /// The settings a fresh installation starts with: value and label
    /// hidden, and each option at its default.
    pub open spec fn is_default(&self) -> bool {
        &&& !self.spec_value_visible()
        &&& !self.spec_label_visible()
        &&& self.variant == NetworkVariant::Combined
        &&& self.show_bytes == false
    }

    /// Whether the entry is shown at all, which is whether its value is shown.
    pub fn visible(&self) -> (b: bool)
        ensures
            b == self.spec_value_visible(),
    {
        self.value_visible
    }

    pub fn value_visible(&self) -> (b: bool)
        ensures
            b == self.spec_value_visible(),
    {
        self.value_visible
    }

    pub fn label_visible(&self) -> (b: bool)
        ensures
            b == self.spec_label_visible(),
    {
        self.label_visible
    }

    /// Shows or hides the value; nothing else changes.
    pub fn show_value(&mut self, visible: bool)
        ensures
            *final(self) == (NetworkConfig { value_visible: visible, ..*old(self) }),
    {
        self.value_visible = visible;
    }

    /// Shows or hides the label; nothing else changes.
    pub fn show_label(&mut self, visible: bool)
        ensures
            *final(self) == (NetworkConfig { label_visible: visible, ..*old(self) }),
    {
        self.label_visible = visible;
    }
}

impl Default for NetworkConfig {
    fn default() -> (c: Self)
        ensures
            c.is_default(),
    {
        NetworkConfig {
            value_visible: false,
            label_visible: false,
            variant: NetworkVariant::Combined,
            show_bytes: false,
        }
    }
}

/// Settings of the disk throughput entry: whether its value and its label are shown,
/// and the entry's own options.
#[derive(Debug, Clone, PartialEq, Eq, Structural)]
pub struct DisksConfig {
    pub value_visible: bool,
    pub label_visible: bool,
    pub variant: DisksVariant,
}

impl DisksConfig {
    /// Whether the value is shown.
    pub open spec fn spec_value_visible(&self) -> bool {
        self.value_visible
    }

    /// Whether the label is shown.
    pub open spec fn spec_label_visible(&self) -> bool {
        self.label_visible
    }

    /// The settings a fresh installation starts with: value and label
    /// hidden, and each option at its default.
    pub open spec fn is_default(&self) -> bool {
        &&& !self.spec_value_visible()
        &&& !self.spec_label_visible()
        &&& self.variant == DisksVariant::Combined
    }

    /// Whether the entry is shown at all, which is whether its value is shown.
    pub fn visible(&self) -> (b: bool)
        ensures
            b == self.spec_value_visible(),
    {
        self.value_visible
    }

    pub fn value_visible(&self) -> (b: bool)
        ensures
            b == self.spec_value_visible(),
    {
        self.value_visible
    }

    pub fn label_visible(&self) -> (b: bool)
        ensures
            b == self.spec_label_visible(),
    {
        self.label_visible
    }

    /// Shows or hides the value; nothing else changes.
    pub fn show_value(&mut self, visible: bool)
        ensures
            *final(self) == (DisksConfig { value_visible: visible, ..*old(self) }),
    {
        self.value_visible = visible;
    }

    /// Shows or hides the label; nothing else changes.
    pub fn show_label(&mut self, visible: bool)
        ensures
            *final(self) == (DisksConfig { label_visible: visible, ..*old(self) }),
    {
        self.label_visible = visible;
    }
}

impl Default for DisksConfig {
    fn default() -> (c: Self)
        ensures
            c.is_default(),
    {
        DisksConfig {
            value_visible: false,
            label_visible: false,
            variant: DisksVariant::Combined,
        }
    }
}

/// Settings of the GPU usage entry: whether its value and its label are shown,
/// and the entry's own options.
#[derive(Debug, Clone, PartialEq, Eq, Structural)]
pub struct GpuUsageConfig {
    pub value_visible: bool,
    pub label_visible: bool,
}

impl GpuUsageConfig {
    /// Whether the value is shown.
    pub open spec fn spec_value_visible(&self) -> bool {
        self.value_visible
    }

    /// Whether the label is shown.
    pub open spec fn spec_label_visible(&self) -> bool {
        self.label_visible
    }

    /// The settings a fresh installation starts with: value and label
    /// hidden, and each option at its default.
    pub open spec fn is_default(&self) -> bool {
        &&& !self.spec_value_visible()
        &&& !self.spec_label_visible()
    }

    /// Whether the entry is shown at all, which is whether its value is shown.
    pub fn visible(&self) -> (b: bool)
        ensures
            b == self.spec_value_visible(),
    {
        self.value_visible
    }

    pub fn value_visible(&self) -> (b: bool)
        ensures
            b == self.spec_value_visible(),
    {
        self.value_visible
    }

    pub fn label_visible(&self) -> (b: bool)
        ensures
            b == self.spec_label_visible(),
    {
        self.label_visible
    }

    /// Shows or hides the value; nothing else changes.
    pub fn show_value(&mut self, visible: bool)
        ensures
            *final(self) == (GpuUsageConfig { value_visible: visible, ..*old(self) }),
    {
        self.value_visible = visible;
    }

    /// Shows or hides the label; nothing else changes.
    pub fn show_label(&mut self, visible: bool)
        ensures
            *final(self) == (GpuUsageConfig { label_visible: visible, ..*old(self) }),
    {
        self.label_visible = visible;
    }
}

impl Default for GpuUsageConfig {
    fn default() -> (c: Self)
        ensures
            c.is_default(),
    {
        GpuUsageConfig {
            value_visible: false,
            label_visible: false,
        }
    }
}

/// Settings of the GPU memory entry: whether its value and its label are shown,
/// and the entry's own options.
#[derive(Debug, Clone, PartialEq, Eq, Structural)]
pub struct GpuVramConfig {
    pub value_visible: bool,
    pub label_visible: bool,
}

impl GpuVramConfig {
    /// Whether the value is shown.
    pub open spec fn spec_value_visible(&self) -> bool {
        self.value_visible
    }

    /// Whether the label is shown.
    pub open spec fn spec_label_visible(&self) -> bool {
        self.label_visible
    }

    /// The settings a fresh installation starts with: value and label
    /// hidden, and each option at its default.
    pub open spec fn is_default(&self) -> bool {
        &&& !self.spec_value_visible()
        &&& !self.spec_label_visible()
    }

    /// Whether the entry is shown at all, which is whether its value is shown.
    pub fn visible(&self) -> (b: bool)
        ensures
            b == self.spec_value_visible(),
    {
        self.value_visible
    }

    pub fn value_visible(&self) -> (b: bool)
        ensures
            b == self.spec_value_visible(),
    {
        self.value_visible
    }

    pub fn label_visible(&self) -> (b: bool)
        ensures
            b == self.spec_label_visible(),
    {
        self.label_visible
    }

    /// Shows or hides the value; nothing else changes.
    pub fn show_value(&mut self, visible: bool)
        ensures
            *final(self) == (GpuVramConfig { value_visible: visible, ..*old(self) }),
    {
        self.value_visible = visible;
    }

    /// Shows or hides the label; nothing else changes.
    pub fn show_label(&mut self, visible: bool)
        ensures
            *final(self) == (GpuVramConfig { label_visible: visible, ..*old(self) }),
    {
        self.label_visible = visible;
    }
}

impl Default for GpuVramConfig {
    fn default() -> (c: Self)
        ensures
            c.is_default(),
    {
        GpuVramConfig {
            value_visible: false,
            label_visible: false,
        }
    }
}

/// Settings of the GPU temperature entry: whether its value and its label are shown,
/// and the entry's own options.
#[derive(Debug, Clone, PartialEq, Eq, Structural)]
pub struct GpuTempConfig {
    pub value_visible: bool,
    pub label_visible: bool,
    pub unit: TempUnit,
}

impl GpuTempConfig {
    /// Whether the value is shown.
    pub open spec fn spec_value_visible(&self) -> bool {
        self.value_visible
    }

    /// Whether the label is shown.
    pub open spec fn spec_label_visible(&self) -> bool {
        self.label_visible
    }

    /// The settings a fresh installation starts with: value and label
    /// hidden, and each option at its default.
    pub open spec fn is_default(&self) -> bool {
        &&& !self.spec_value_visible()
        &&& !self.spec_label_visible()
        &&& self.unit == TempUnit::Celsius
    }

    /// Whether the entry is shown at all, which is whether its value is shown.
    pub fn visible(&self) -> (b: bool)
        ensures
            b == self.spec_value_visible(),
    {
        self.value_visible
    }

    pub fn value_visible(&self) -> (b: bool)
        ensures
            b == self.spec_value_visible(),
    {
        self.value_visible
    }

    pub fn label_visible(&self) -> (b: bool)
        ensures
            b == self.spec_label_visible(),
    {
        self.label_visible
    }

    /// Shows or hides the value; nothing else changes.
    pub fn show_value(&mut self, visible: bool)
        ensures
            *final(self) == (GpuTempConfig { value_visible: visible, ..*old(self) }),
    {
        self.value_visible = visible;
    }

    /// Shows or hides the label; nothing else changes.
    pub fn show_label(&mut self, visible: bool)
        ensures
            *final(self) == (GpuTempConfig { label_visible: visible, ..*old(self) }),
    {
        self.label_visible = visible;
    }
}

impl Default for GpuTempConfig {
    fn default() -> (c: Self)
        ensures
            c.is_default(),
    {
        GpuTempConfig {
            value_visible: false,
            label_visible: false,
            unit: TempUnit::Celsius,
        }
    }
}

/// Settings of one graphics card: its usage, memory and temperature entries,
/// whether sampling pauses on battery power, and whether usage and memory
/// values are drawn stacked.
#[derive(Debug, Clone, PartialEq, Eq, Structural)]
pub struct GpuConfig {
    pub usage: GpuUsageConfig,
    pub vram: GpuVramConfig,
    pub temp: GpuTempConfig,
    pub pause_on_battery: bool,
    pub stack_values: bool,
}

impl GpuConfig {
    /// Whether any of the card's entries is shown.
    pub fn is_visible(&self) -> (b: bool)
        ensures
            b == (self.usage.spec_value_visible() || self.vram.spec_value_visible()
                || self.temp.spec_value_visible()),
    {
        self.usage.visible() || self.vram.visible() || self.temp.visible()
    }

    /// The settings a newly found card starts with: every entry at its
    /// default (hidden), pausing on battery power and stacked values on.
    pub open spec fn is_default(&self) -> bool {
        &&& self.usage.is_default()
        &&& self.vram.is_default()
        &&& self.temp.is_default()
        &&& self.pause_on_battery
        &&& self.stack_values
    }
}

impl Default for GpuConfig {
    fn default() -> (c: Self)
        ensures
            c.is_default(),
    {
        GpuConfig {
            usage: GpuUsageConfig::default(),
            vram: GpuVramConfig::default(),
            temp: GpuTempConfig::default(),
            pause_on_battery: true,
            stack_values: true,
        }
    }
}

/// The entries of the panel, in the order in which they can be arranged.
#[derive(Debug, Clone, PartialEq, Eq, Structural)]
pub enum ContentType {
    CpuUsage,
    CpuTemp,
    MemoryUsage,
    NetworkUsage,
    DiskUsage,
    GpuInfo,
}

/// The order in which the panel lays out its entries.
#[derive(Debug, Clone, PartialEq, Eq)]
pub struct ContentOrder {
    pub order: Vec<ContentType>,
}

impl ContentOrder {
    /// The order of a fresh installation: CPU usage, CPU temperature, memory,
    /// network, disks, then the graphics cards.
    pub open spec fn spec_default_order() -> Seq<ContentType> {
        seq![
            ContentType::CpuUsage,
            ContentType::CpuTemp,
            ContentType::MemoryUsage,
            ContentType::NetworkUsage,
            ContentType::DiskUsage,
            ContentType::GpuInfo,
        ]
    }
}

impl Default for ContentOrder {
    fn default() -> (c: Self)
        ensures
            c.order@ == Self::spec_default_order(),
    {
        ContentOrder {
            order: vec![
                ContentType::CpuUsage,
                ContentType::CpuTemp,
                ContentType::MemoryUsage,
                ContentType::NetworkUsage,
                ContentType::DiskUsage,
                ContentType::GpuInfo,
            ],
        }
    }
}

/// The default order names every entry of the panel exactly once.
pub proof fn lemma_default_order_names_each_entry_once(t: ContentType)
    ensures
        ContentOrder::spec_default_order().contains(t),
        ContentOrder::spec_default_order().filter(|u: ContentType| u == t).len() == 1,
{
    let s = ContentOrder::spec_default_order();
    reveal_with_fuel(Seq::filter, 7);
    match t {
        ContentType::CpuUsage => assert(s[0] == t),
        ContentType::CpuTemp => assert(s[1] == t),
        ContentType::MemoryUsage => assert(s[2] == t),
        ContentType::NetworkUsage => assert(s[3] == t),
        ContentType::DiskUsage => assert(s[4] == t),
        ContentType::GpuInfo => assert(s[5] == t),
    }
}

/// The whole configuration of the applet.
#[derive(Debug, Clone, PartialEq)]
pub struct SysmonConfig {
    pub refresh_rate: u32,
    pub value_size_default: u16,
    pub label_size_default: u16,
    pub combined_value_size_default: u16,
    pub monospace_values: bool,
    pub cpu: CpuConfig,
    pub cputemp: CpuTempConfig,
    pub memory: MemoryConfig,
    pub network1: NetworkConfig,
    pub network2: NetworkConfig,
    pub disks1: DisksConfig,
    pub disks2: DisksConfig,
    pub gpus: HashMap<String, GpuConfig>,
    pub sysmon: Option<String>,
    pub panel_spacing: u16,
    pub content_order: ContentOrder,
}

impl Default for SysmonConfig {
    /// Refresh every 3000 ms; value size 11, label size 10, combined value
    /// size 10; proportional digits; default CPU, temperature and memory
    /// entries; the first network entry combined and the second upload; the
    /// first disk entry combined and the second read; no cards; no system
    /// monitor command; panel spacing 3; the default entry order.
    fn default() -> (c: Self)
        ensures
            c.refresh_rate == 3000,
            c.value_size_default == 11,
            c.label_size_default == 10,
            c.combined_value_size_default == 10,
            !c.monospace_values,
            c.cpu.is_default(),
            c.cputemp.is_default(),
            c.memory.is_default(),
            c.network1.is_default(),
            c.network1.variant == NetworkVariant::Combined,
            c.network2 == (NetworkConfig { variant: NetworkVariant::Upload, ..c.network1 }),
            c.disks1.is_default(),
            c.disks1.variant == DisksVariant::Combined,
            c.disks2 == (DisksConfig { variant: DisksVariant::Read, ..c.disks1 }),
            c.gpus@ == Map::<String, GpuConfig>::empty(),
            c.sysmon is None,
            c.panel_spacing == 3,
            c.content_order.order@ == ContentOrder::spec_default_order(),
    {
        let mut network1 = NetworkConfig::default();
        network1.variant = NetworkVariant::Combined;
        let mut network2 = NetworkConfig::default();
        network2.variant = NetworkVariant::Upload;
        let mut disks1 = DisksConfig::default();
        disks1.variant = DisksVariant::Combined;
        let mut disks2 = DisksConfig::default();
        disks2.variant = DisksVariant::Read;
        SysmonConfig {
            refresh_rate: 3000,
            value_size_default: 11,
            label_size_default: 10,
            combined_value_size_default: 10,
            monospace_values: false,
            cpu: CpuConfig::default(),
            cputemp: CpuTempConfig::default(),
            memory: MemoryConfig::default(),
            network1,
            network2,
            disks1,
            disks2,
            gpus: HashMap::new(),
            sysmon: None,
            panel_spacing: 3,
            content_order: ContentOrder::default(),
        }
    }
}

} // verus!
