//! Device snapshots, the scrape report, and the metric samples that a report
//! consists of.
//!
//! `encode_report` turns a report into the list of samples to expose. Every
//! value is kept exact: a sample says in which unit its number counts, and
//! whoever renders the samples divides or multiplies once at the very end.

use vstd::prelude::*;
use crate::nvme::text::texts;
use crate::nvme::types::{bit_is_set, centicelsius, SmartLog};

verus! {

/// The sizes of one namespace, as read from Identify Namespace.
#[derive(Debug)]
pub struct NamespaceSnapshot {
    pub namespace: String,
    pub nsze: u64,
    pub ncap: u64,
    pub nuse: u64,
}

/// The model of a `NamespaceSnapshot`.
pub struct NamespaceSnapshotView {
    pub namespace: Seq<char>,
    pub nsze: u64,
    pub ncap: u64,
    pub nuse: u64,
}

impl View for NamespaceSnapshot {
    type V = NamespaceSnapshotView;

    open spec fn view(&self) -> NamespaceSnapshotView {
        NamespaceSnapshotView {
            namespace: self.namespace@,
            nsze: self.nsze,
            ncap: self.ncap,
            nuse: self.nuse,
        }
    }
}

impl Clone for NamespaceSnapshot {
    fn clone(&self) -> (copy: Self)
        ensures
            copy@ == self@,
    {
        NamespaceSnapshot {
            namespace: self.namespace.clone(),
            nsze: self.nsze,
            ncap: self.ncap,
            nuse: self.nuse,
        }
    }
}

/// What the Error Information log says in sum.
#[derive(Clone, Copy, Debug)]
pub struct ErrorLogSnapshot {
    pub non_zero_entries: u64,
    pub max_error_count: u64,
}

/// The self-test in progress.
#[derive(Clone, Copy, Debug)]
pub struct SelfTestSnapshot {
    pub current_operation: u8,
    pub current_completion_percent: u8,
}

/// Everything known of one controller after a scrape.
#[derive(Debug)]
pub struct DeviceSnapshot {
    pub device: String,
    pub model: String,
    pub serial: String,
    pub firmware: String,
    pub accessible: bool,
    pub smart: Option<SmartLog>,
    pub namespaces: Vec<NamespaceSnapshot>,
    pub error_log: Option<ErrorLogSnapshot>,
    pub self_test: Option<SelfTestSnapshot>,
}

/// The model of a `DeviceSnapshot`.
pub struct DeviceSnapshotView {
    pub device: Seq<char>,
    pub model: Seq<char>,
    pub serial: Seq<char>,
    pub firmware: Seq<char>,
    pub accessible: bool,
    pub smart: Option<SmartLog>,
    pub namespaces: Seq<NamespaceSnapshotView>,
    pub error_log: Option<ErrorLogSnapshot>,
    pub self_test: Option<SelfTestSnapshot>,
}

/// The label of a device of which nothing better is known.
pub open spec fn unknown_label() -> Seq<char> {
    "unknown"@
}

/// The models of a list of namespace snapshots.
pub open spec fn namespace_views(namespaces: Seq<NamespaceSnapshot>) -> Seq<
    NamespaceSnapshotView,
> {
    namespaces.map_values(|namespace: NamespaceSnapshot| namespace@)
}

/// The models of a list of device snapshots.
pub open spec fn device_views(devices: Seq<DeviceSnapshot>) -> Seq<DeviceSnapshotView> {
    devices.map_values(|device: DeviceSnapshot| device@)
}

impl View for DeviceSnapshot {
    type V = DeviceSnapshotView;

    open spec fn view(&self) -> DeviceSnapshotView {
        DeviceSnapshotView {
            device: self.device@,
            model: self.model@,
            serial: self.serial@,
            firmware: self.firmware@,
            accessible: self.accessible,
            smart: self.smart,
            namespaces: namespace_views(self.namespaces@),
            error_log: self.error_log,
            self_test: self.self_test,
        }
    }
}

/// A copy of a list of namespace snapshots.
pub fn clone_namespaces(namespaces: &Vec<NamespaceSnapshot>) -> (copy: Vec<NamespaceSnapshot>)
    ensures
        namespace_views(copy@) == namespace_views(namespaces@),
{
    let mut copy: Vec<NamespaceSnapshot> = Vec::new();
    let mut index: usize = 0;
    while index < namespaces.len()
        invariant
            index <= namespaces@.len(),
            copy@.len() == index,
            forall|i: int| 0 <= i < index ==> (#[trigger] copy@[i])@ == namespaces@[i]@,
        decreases namespaces@.len() - index,
    {
        let item = namespaces[index].clone();
        copy.push(item);
        index += 1;
    }
    assert(namespace_views(copy@) =~= namespace_views(namespaces@));
    copy
}

impl Clone for DeviceSnapshot {
    fn clone(&self) -> (copy: Self)
        ensures
            copy@ == self@,
    {
        DeviceSnapshot {
            device: self.device.clone(),
            model: self.model.clone(),
            serial: self.serial.clone(),
            firmware: self.firmware.clone(),
            accessible: self.accessible,
            smart: self.smart,
            namespaces: clone_namespaces(&self.namespaces),
            error_log: self.error_log,
            self_test: self.self_test,
        }
    }
}

/// The outcome of one scrape.
#[derive(Debug)]
pub struct ScrapeReport {
    /// How long the scrape took, in nanoseconds.
    pub duration_nanos: u128,
    /// Whether every controller could be collected.
    pub success: bool,
    /// How many controllers discovery found.
    pub discovered_device_count: usize,
    /// One snapshot for each device that is reported.
    pub devices: Vec<DeviceSnapshot>,
    pub collect_namespace: bool,
    pub collect_error_log: bool,
    pub collect_self_test: bool,
}

/// The model of a `ScrapeReport`.
pub struct ScrapeReportView {
    pub duration_nanos: u128,
    pub success: bool,
    pub discovered_device_count: usize,
    pub devices: Seq<DeviceSnapshotView>,
    pub collect_namespace: bool,
    pub collect_error_log: bool,
    pub collect_self_test: bool,
}

impl View for ScrapeReport {
    type V = ScrapeReportView;

    open spec fn view(&self) -> ScrapeReportView {
        ScrapeReportView {
            duration_nanos: self.duration_nanos,
            success: self.success,
            discovered_device_count: self.discovered_device_count,
            devices: device_views(self.devices@),
            collect_namespace: self.collect_namespace,
            collect_error_log: self.collect_error_log,
            collect_self_test: self.collect_self_test,
        }
    }
}

/// Whether a metric only ever goes up.
#[derive(Clone, Copy, Debug, PartialEq, Eq, Structural)]
pub enum MetricKind {
    Gauge,
    Counter,
}

/// The metric families that a report can hold samples of.
#[derive(Clone, Copy, Debug, PartialEq, Eq, Structural)]
pub enum MetricFamily {
    Info,
    CriticalWarning,
    CriticalWarningAvailableSpare,
    CriticalWarningTemperature,
    CriticalWarningReliability,
    CriticalWarningReadOnly,
    CriticalWarningVolatileBackup,
    TemperatureCelsius,
    TemperatureSensorCelsius,
    AvailableSpareRatio,
    AvailableSpareThresholdRatio,
    PercentageUsedRatio,
    Healthy,
    DataUnitsReadTotal,
    DataUnitsWrittenTotal,
    HostReadCommandsTotal,
    HostWriteCommandsTotal,
    ControllerBusyTimeSecondsTotal,
    PowerCyclesTotal,
    PowerOnHoursTotal,
    UnsafeShutdownsTotal,
    MediaErrorsTotal,
    ErrorLogEntriesTotal,
    WarningTemperatureTimeMinutesTotal,
    CriticalTemperatureTimeMinutesTotal,
    ThermalMgmtT1TransitionsTotal,
    ThermalMgmtT2TransitionsTotal,
    ThermalMgmtT1TimeSecondsTotal,
    ThermalMgmtT2TimeSecondsTotal,
    NamespaceSizeSectors,
    NamespaceCapacitySectors,
    NamespaceUtilizationSectors,
    DeviceAccessible,
    ErrorLogNonZeroEntries,
    ErrorLogMaxErrorCount,
    SelfTestCurrentOperation,
    SelfTestCurrentCompletionRatio,
    ScrapeDurationSeconds,
    ScrapeSuccess,
    DeviceCount,
}

/// The number of a sample, with the unit it counts in.
#[derive(Clone, Copy, Debug, PartialEq, Eq, Structural)]
pub enum MetricValue {
    /// The value itself.
    Integer(u128),
    /// The value times one hundred: percentages exposed as ratios, and
    /// temperatures in hundredths of a degree.
    Hundredths(i32),
    /// A time counted in minutes that is exposed in seconds.
    Minutes(u128),
    /// A time counted in nanoseconds that is exposed in seconds.
    Nanoseconds(u128),
}

/// One sample: the family it belongs to, a value for each label of the
/// family, and the number.
#[derive(Debug)]
pub struct Sample {
    pub family: MetricFamily,
    pub labels: Vec<String>,
    pub value: MetricValue,
}

/// The model of a `Sample`.
pub struct SampleView {
    pub family: MetricFamily,
    pub labels: Seq<Seq<char>>,
    pub value: MetricValue,
}

impl View for Sample {
    type V = SampleView;

    open spec fn view(&self) -> SampleView {
        SampleView { family: self.family, labels: texts(self.labels@), value: self.value }
    }
}

/// The models of a list of samples.
pub open spec fn sample_views(samples: Seq<Sample>) -> Seq<SampleView> {
    samples.map_values(|sample: Sample| sample@)
}

/// The place of a family in the order of registration.
pub open spec fn family_index(family: MetricFamily) -> int {
    match family {
        MetricFamily::Info => 0,
        MetricFamily::CriticalWarning => 1,
        MetricFamily::CriticalWarningAvailableSpare => 2,
        MetricFamily::CriticalWarningTemperature => 3,
        MetricFamily::CriticalWarningReliability => 4,
        MetricFamily::CriticalWarningReadOnly => 5,
        MetricFamily::CriticalWarningVolatileBackup => 6,
        MetricFamily::TemperatureCelsius => 7,
        MetricFamily::TemperatureSensorCelsius => 8,
        MetricFamily::AvailableSpareRatio => 9,
        MetricFamily::AvailableSpareThresholdRatio => 10,
        MetricFamily::PercentageUsedRatio => 11,
        MetricFamily::Healthy => 12,
        MetricFamily::DataUnitsReadTotal => 13,
        MetricFamily::DataUnitsWrittenTotal => 14,
        MetricFamily::HostReadCommandsTotal => 15,
        MetricFamily::HostWriteCommandsTotal => 16,
        MetricFamily::ControllerBusyTimeSecondsTotal => 17,
        MetricFamily::PowerCyclesTotal => 18,
        MetricFamily::PowerOnHoursTotal => 19,
        MetricFamily::UnsafeShutdownsTotal => 20,
        MetricFamily::MediaErrorsTotal => 21,
        MetricFamily::ErrorLogEntriesTotal => 22,
        MetricFamily::WarningTemperatureTimeMinutesTotal => 23,
        MetricFamily::CriticalTemperatureTimeMinutesTotal => 24,
        MetricFamily::ThermalMgmtT1TransitionsTotal => 25,
        MetricFamily::ThermalMgmtT2TransitionsTotal => 26,
        MetricFamily::ThermalMgmtT1TimeSecondsTotal => 27,
        MetricFamily::ThermalMgmtT2TimeSecondsTotal => 28,
        MetricFamily::NamespaceSizeSectors => 29,
        MetricFamily::NamespaceCapacitySectors => 30,
        MetricFamily::NamespaceUtilizationSectors => 31,
        MetricFamily::DeviceAccessible => 32,
        MetricFamily::ErrorLogNonZeroEntries => 33,
        MetricFamily::ErrorLogMaxErrorCount => 34,
        MetricFamily::SelfTestCurrentOperation => 35,
        MetricFamily::SelfTestCurrentCompletionRatio => 36,
        MetricFamily::ScrapeDurationSeconds => 37,
        MetricFamily::ScrapeSuccess => 38,
        MetricFamily::DeviceCount => 39,
    }
}

impl MetricFamily {
    /// The name under which the family is exposed.
    pub open spec fn spec_name(self) -> Seq<char> {
        match self {
            MetricFamily::Info => "nvme_info"@,
            MetricFamily::CriticalWarning => "nvme_critical_warning"@,
            MetricFamily::CriticalWarningAvailableSpare => "nvme_critical_warning_available_spare"@,
            MetricFamily::CriticalWarningTemperature => "nvme_critical_warning_temperature"@,
            MetricFamily::CriticalWarningReliability => "nvme_critical_warning_reliability"@,
            MetricFamily::CriticalWarningReadOnly => "nvme_critical_warning_read_only"@,
            MetricFamily::CriticalWarningVolatileBackup => "nvme_critical_warning_volatile_backup"@,
            MetricFamily::TemperatureCelsius => "nvme_temperature_celsius"@,
            MetricFamily::TemperatureSensorCelsius => "nvme_temperature_sensor_celsius"@,
            MetricFamily::AvailableSpareRatio => "nvme_available_spare_ratio"@,
            MetricFamily::AvailableSpareThresholdRatio => "nvme_available_spare_threshold_ratio"@,
            MetricFamily::PercentageUsedRatio => "nvme_percentage_used_ratio"@,
            MetricFamily::Healthy => "nvme_healthy"@,
            MetricFamily::DataUnitsReadTotal => "nvme_data_units_read_total"@,
            MetricFamily::DataUnitsWrittenTotal => "nvme_data_units_written_total"@,
            MetricFamily::HostReadCommandsTotal => "nvme_host_read_commands_total"@,
            MetricFamily::HostWriteCommandsTotal => "nvme_host_write_commands_total"@,
            MetricFamily::ControllerBusyTimeSecondsTotal => {
                "nvme_controller_busy_time_seconds_total"@
            },
            MetricFamily::PowerCyclesTotal => "nvme_power_cycles_total"@,
            MetricFamily::PowerOnHoursTotal => "nvme_power_on_hours_total"@,
            MetricFamily::UnsafeShutdownsTotal => "nvme_unsafe_shutdowns_total"@,
            MetricFamily::MediaErrorsTotal => "nvme_media_errors_total"@,
            MetricFamily::ErrorLogEntriesTotal => "nvme_error_log_entries_total"@,
            MetricFamily::WarningTemperatureTimeMinutesTotal => {
                "nvme_warning_temperature_time_minutes_total"@
            },
            MetricFamily::CriticalTemperatureTimeMinutesTotal => {
                "nvme_critical_temperature_time_minutes_total"@
            },
            MetricFamily::ThermalMgmtT1TransitionsTotal => {
                "nvme_thermal_mgmt_t1_transitions_total"@
            },
            MetricFamily::ThermalMgmtT2TransitionsTotal => {
                "nvme_thermal_mgmt_t2_transitions_total"@
            },
            MetricFamily::ThermalMgmtT1TimeSecondsTotal => {
                "nvme_thermal_mgmt_t1_time_seconds_total"@
            },
            MetricFamily::ThermalMgmtT2TimeSecondsTotal => {
                "nvme_thermal_mgmt_t2_time_seconds_total"@
            },
            MetricFamily::NamespaceSizeSectors => "nvme_namespace_size_sectors"@,
            MetricFamily::NamespaceCapacitySectors => "nvme_namespace_capacity_sectors"@,
            MetricFamily::NamespaceUtilizationSectors => "nvme_namespace_utilization_sectors"@,
            MetricFamily::DeviceAccessible => "nvme_device_accessible"@,
            MetricFamily::ErrorLogNonZeroEntries => "nvme_error_log_non_zero_entries"@,
            MetricFamily::ErrorLogMaxErrorCount => "nvme_error_log_max_error_count"@,
            MetricFamily::SelfTestCurrentOperation => "nvme_self_test_current_operation"@,
            MetricFamily::SelfTestCurrentCompletionRatio => {
                "nvme_self_test_current_completion_ratio"@
            },
            MetricFamily::ScrapeDurationSeconds => "nvme_exporter_scrape_duration_seconds"@,
            MetricFamily::ScrapeSuccess => "nvme_exporter_scrape_success"@,
            MetricFamily::DeviceCount => "nvme_exporter_device_count"@,
        }
    }

    /// Whether the family is a counter or a gauge: the device totals are
    /// counters, everything else is a gauge.
    pub open spec fn spec_kind(self) -> MetricKind {
        match self {
            MetricFamily::DataUnitsReadTotal
            | MetricFamily::DataUnitsWrittenTotal
            | MetricFamily::HostReadCommandsTotal
            | MetricFamily::HostWriteCommandsTotal
            | MetricFamily::ControllerBusyTimeSecondsTotal
            | MetricFamily::PowerCyclesTotal
            | MetricFamily::PowerOnHoursTotal
            | MetricFamily::UnsafeShutdownsTotal
            | MetricFamily::MediaErrorsTotal
            | MetricFamily::ErrorLogEntriesTotal
            | MetricFamily::WarningTemperatureTimeMinutesTotal
            | MetricFamily::CriticalTemperatureTimeMinutesTotal
            | MetricFamily::ThermalMgmtT1TransitionsTotal
            | MetricFamily::ThermalMgmtT2TransitionsTotal
            | MetricFamily::ThermalMgmtT1TimeSecondsTotal
            | MetricFamily::ThermalMgmtT2TimeSecondsTotal => MetricKind::Counter,
            _ => MetricKind::Gauge,
        }
    }

    /// The names of the labels that every sample of the family carries.
    pub open spec fn spec_label_names(self) -> Seq<Seq<char>> {
        match self {
            MetricFamily::Info => seq!["device"@, "model"@, "serial"@, "firmware"@],
            MetricFamily::TemperatureSensorCelsius => seq!["device"@, "sensor"@],
            MetricFamily::NamespaceSizeSectors
            | MetricFamily::NamespaceCapacitySectors
            | MetricFamily::NamespaceUtilizationSectors => seq!["device"@, "namespace"@],
            MetricFamily::ScrapeDurationSeconds
            | MetricFamily::ScrapeSuccess
            | MetricFamily::DeviceCount => Seq::empty(),
            _ => seq!["device"@],
        }
    }

    /// The name under which the family is exposed.
    pub fn name(&self) -> (name: &'static str)
        ensures
            name@ == self.spec_name(),
    {
        match self {
            MetricFamily::Info => "nvme_info",
            MetricFamily::CriticalWarning => "nvme_critical_warning",
            MetricFamily::CriticalWarningAvailableSpare => "nvme_critical_warning_available_spare",
            MetricFamily::CriticalWarningTemperature => "nvme_critical_warning_temperature",
            MetricFamily::CriticalWarningReliability => "nvme_critical_warning_reliability",
            MetricFamily::CriticalWarningReadOnly => "nvme_critical_warning_read_only",
            MetricFamily::CriticalWarningVolatileBackup => "nvme_critical_warning_volatile_backup",
            MetricFamily::TemperatureCelsius => "nvme_temperature_celsius",
            MetricFamily::TemperatureSensorCelsius => "nvme_temperature_sensor_celsius",
            MetricFamily::AvailableSpareRatio => "nvme_available_spare_ratio",
            MetricFamily::AvailableSpareThresholdRatio => "nvme_available_spare_threshold_ratio",
            MetricFamily::PercentageUsedRatio => "nvme_percentage_used_ratio",
            MetricFamily::Healthy => "nvme_healthy",
            MetricFamily::DataUnitsReadTotal => "nvme_data_units_read_total",
            MetricFamily::DataUnitsWrittenTotal => "nvme_data_units_written_total",
            MetricFamily::HostReadCommandsTotal => "nvme_host_read_commands_total",
            MetricFamily::HostWriteCommandsTotal => "nvme_host_write_commands_total",
            MetricFamily::ControllerBusyTimeSecondsTotal => {
                "nvme_controller_busy_time_seconds_total"
            },
            MetricFamily::PowerCyclesTotal => "nvme_power_cycles_total",
            MetricFamily::PowerOnHoursTotal => "nvme_power_on_hours_total",
            MetricFamily::UnsafeShutdownsTotal => "nvme_unsafe_shutdowns_total",
            MetricFamily::MediaErrorsTotal => "nvme_media_errors_total",
            MetricFamily::ErrorLogEntriesTotal => "nvme_error_log_entries_total",
            MetricFamily::WarningTemperatureTimeMinutesTotal => {
                "nvme_warning_temperature_time_minutes_total"
            },
            MetricFamily::CriticalTemperatureTimeMinutesTotal => {
                "nvme_critical_temperature_time_minutes_total"
            },
            MetricFamily::ThermalMgmtT1TransitionsTotal => "nvme_thermal_mgmt_t1_transitions_total",
            MetricFamily::ThermalMgmtT2TransitionsTotal => "nvme_thermal_mgmt_t2_transitions_total",
            MetricFamily::ThermalMgmtT1TimeSecondsTotal => {
                "nvme_thermal_mgmt_t1_time_seconds_total"
            },
            MetricFamily::ThermalMgmtT2TimeSecondsTotal => {
                "nvme_thermal_mgmt_t2_time_seconds_total"
            },
            MetricFamily::NamespaceSizeSectors => "nvme_namespace_size_sectors",
            MetricFamily::NamespaceCapacitySectors => "nvme_namespace_capacity_sectors",
            MetricFamily::NamespaceUtilizationSectors => "nvme_namespace_utilization_sectors",
            MetricFamily::DeviceAccessible => "nvme_device_accessible",
            MetricFamily::ErrorLogNonZeroEntries => "nvme_error_log_non_zero_entries",
            MetricFamily::ErrorLogMaxErrorCount => "nvme_error_log_max_error_count",
            MetricFamily::SelfTestCurrentOperation => "nvme_self_test_current_operation",
            MetricFamily::SelfTestCurrentCompletionRatio => {
                "nvme_self_test_current_completion_ratio"
            },
            MetricFamily::ScrapeDurationSeconds => "nvme_exporter_scrape_duration_seconds",
            MetricFamily::ScrapeSuccess => "nvme_exporter_scrape_success",
            MetricFamily::DeviceCount => "nvme_exporter_device_count",
        }
    }

    /// Whether the family is a counter or a gauge.
    pub fn kind(&self) -> (kind: MetricKind)
        ensures
            kind == self.spec_kind(),
    {
        match self {
            MetricFamily::DataUnitsReadTotal
            | MetricFamily::DataUnitsWrittenTotal
            | MetricFamily::HostReadCommandsTotal
            | MetricFamily::HostWriteCommandsTotal
            | MetricFamily::ControllerBusyTimeSecondsTotal
            | MetricFamily::PowerCyclesTotal
            | MetricFamily::PowerOnHoursTotal
            | MetricFamily::UnsafeShutdownsTotal
            | MetricFamily::MediaErrorsTotal
            | MetricFamily::ErrorLogEntriesTotal
            | MetricFamily::WarningTemperatureTimeMinutesTotal
            | MetricFamily::CriticalTemperatureTimeMinutesTotal
            | MetricFamily::ThermalMgmtT1TransitionsTotal
            | MetricFamily::ThermalMgmtT2TransitionsTotal
            | MetricFamily::ThermalMgmtT1TimeSecondsTotal
            | MetricFamily::ThermalMgmtT2TimeSecondsTotal => MetricKind::Counter,
            _ => MetricKind::Gauge,
        }
    }

    /// Every family, each once, in the order in which an exporter
    /// registers them.
    pub fn all() -> (all: Vec<MetricFamily>)
        ensures
            all@.len() == 40,
            forall|family: MetricFamily| all@.contains(family),
            all@.no_duplicates(),
    {
        let mut all: Vec<MetricFamily> = Vec::new();
        all.push(MetricFamily::Info);
        all.push(MetricFamily::CriticalWarning);
        all.push(MetricFamily::CriticalWarningAvailableSpare);
        all.push(MetricFamily::CriticalWarningTemperature);
        all.push(MetricFamily::CriticalWarningReliability);
        all.push(MetricFamily::CriticalWarningReadOnly);
        all.push(MetricFamily::CriticalWarningVolatileBackup);
        all.push(MetricFamily::TemperatureCelsius);
        all.push(MetricFamily::TemperatureSensorCelsius);
        all.push(MetricFamily::AvailableSpareRatio);
        all.push(MetricFamily::AvailableSpareThresholdRatio);
        all.push(MetricFamily::PercentageUsedRatio);
        all.push(MetricFamily::Healthy);
        all.push(MetricFamily::DataUnitsReadTotal);
        all.push(MetricFamily::DataUnitsWrittenTotal);
        all.push(MetricFamily::HostReadCommandsTotal);
        all.push(MetricFamily::HostWriteCommandsTotal);
        all.push(MetricFamily::ControllerBusyTimeSecondsTotal);
        all.push(MetricFamily::PowerCyclesTotal);
        all.push(MetricFamily::PowerOnHoursTotal);
        all.push(MetricFamily::UnsafeShutdownsTotal);
        all.push(MetricFamily::MediaErrorsTotal);
        all.push(MetricFamily::ErrorLogEntriesTotal);
        all.push(MetricFamily::WarningTemperatureTimeMinutesTotal);
        all.push(MetricFamily::CriticalTemperatureTimeMinutesTotal);
        all.push(MetricFamily::ThermalMgmtT1TransitionsTotal);
        all.push(MetricFamily::ThermalMgmtT2TransitionsTotal);
        all.push(MetricFamily::ThermalMgmtT1TimeSecondsTotal);
        all.push(MetricFamily::ThermalMgmtT2TimeSecondsTotal);
        all.push(MetricFamily::NamespaceSizeSectors);
        all.push(MetricFamily::NamespaceCapacitySectors);
        all.push(MetricFamily::NamespaceUtilizationSectors);
        all.push(MetricFamily::DeviceAccessible);
        all.push(MetricFamily::ErrorLogNonZeroEntries);
        all.push(MetricFamily::ErrorLogMaxErrorCount);
        all.push(MetricFamily::SelfTestCurrentOperation);
        all.push(MetricFamily::SelfTestCurrentCompletionRatio);
        all.push(MetricFamily::ScrapeDurationSeconds);
        all.push(MetricFamily::ScrapeSuccess);
        all.push(MetricFamily::DeviceCount);
        proof {
            assert forall|family: MetricFamily| all@.contains(family) by {
                let at = family_index(family);
                assert(all@[at] == family);
            }
            assert forall|i: int, j: int| 0 <= i < all@.len() && 0 <= j < all@.len() && i
                != j implies all@[i] != all@[j] by {
                assert(family_index(all@[i]) == i);
                assert(family_index(all@[j]) == j);
            }
        }
        all
    }

    /// The names of the labels that every sample of the family carries.
    pub fn label_names(&self) -> (names: Vec<&'static str>)
        ensures
            names@.map_values(|name: &'static str| name@) == self.spec_label_names(),
    {
        let mut names: Vec<&'static str> = Vec::new();
        match self {
            MetricFamily::Info => {
                names.push("device");
                names.push("model");
                names.push("serial");
                names.push("firmware");
            },
            MetricFamily::TemperatureSensorCelsius => {
                names.push("device");
                names.push("sensor");
            },
            MetricFamily::NamespaceSizeSectors
            | MetricFamily::NamespaceCapacitySectors
            | MetricFamily::NamespaceUtilizationSectors => {
                names.push("device");
                names.push("namespace");
            },
            MetricFamily::ScrapeDurationSeconds
            | MetricFamily::ScrapeSuccess
            | MetricFamily::DeviceCount => {},
            _ => {
                names.push("device");
            },
        }
        assert(names@.map_values(|name: &'static str| name@) =~= self.spec_label_names());
        names
    }
}

/// The value of a flag: one for true, zero for false.
pub open spec fn flag(value: bool) -> MetricValue {
    MetricValue::Integer(if value { 1 } else { 0 })
}

/// The sample of `family` for `device`.
pub open spec fn device_sample(
    family: MetricFamily,
    device: Seq<char>,
    value: MetricValue,
) -> SampleView {
    SampleView { family, labels: seq![device], value }
}

/// The sample of `family` for `device` and a second label.
pub open spec fn pair_sample(
    family: MetricFamily,
    device: Seq<char>,
    second: Seq<char>,
    value: MetricValue,
) -> SampleView {
    SampleView { family, labels: seq![device, second], value }
}

/// The label of sensor `sensor`, counted from zero: the digit of its
/// number, counted from one.
pub open spec fn sensor_label(sensor: int) -> Seq<char> {
    seq![(('1' as u8) + sensor) as char]
}

/// The samples that identify a device and say whether it can be read:
/// they are there for every device.
pub open spec fn identity_samples(device: DeviceSnapshotView) -> Seq<SampleView> {
    seq![
        SampleView {
            family: MetricFamily::Info,
            labels: seq![device.device, device.model, device.serial, device.firmware],
            value: MetricValue::Integer(1),
        },
        device_sample(MetricFamily::DeviceAccessible, device.device, flag(device.accessible)),
    ]
}

/// The critical-warning byte and its five bits.
pub open spec fn warning_samples(device: Seq<char>, smart: SmartLog) -> Seq<SampleView> {
    seq![
        device_sample(
            MetricFamily::CriticalWarning,
            device,
            MetricValue::Integer(smart.critical_warning as u128),
        ),
        device_sample(
            MetricFamily::CriticalWarningAvailableSpare,
            device,
            flag(bit_is_set(smart.critical_warning, 0)),
        ),
        device_sample(
            MetricFamily::CriticalWarningTemperature,
            device,
            flag(bit_is_set(smart.critical_warning, 1)),
        ),
        device_sample(
            MetricFamily::CriticalWarningReliability,
            device,
            flag(bit_is_set(smart.critical_warning, 2)),
        ),
        device_sample(
            MetricFamily::CriticalWarningReadOnly,
            device,
            flag(bit_is_set(smart.critical_warning, 3)),
        ),
        device_sample(
            MetricFamily::CriticalWarningVolatileBackup,
            device,
            flag(bit_is_set(smart.critical_warning, 4)),
        ),
    ]
}

/// The composite temperature, left out where the controller reports zero
/// Kelvin.
pub open spec fn temperature_samples(device: Seq<char>, smart: SmartLog) -> Seq<SampleView> {
    match centicelsius(smart.temperature_kelvin) {
        Some(hundredths) => seq![
            device_sample(
                MetricFamily::TemperatureCelsius,
                device,
                MetricValue::Hundredths(hundredths),
            ),
        ],
        None => Seq::empty(),
    }
}

/// The temperatures of the first `sensors` sensors, each left out where the
/// sensor reports zero Kelvin.
pub open spec fn sensor_samples(device: Seq<char>, smart: SmartLog, sensors: nat) -> Seq<
    SampleView,
>
    decreases sensors,
{
    if sensors == 0 {
        Seq::empty()
    } else {
        let before = sensor_samples(device, smart, (sensors - 1) as nat);
        match centicelsius(smart.temp_sensor_kelvin@[sensors - 1]) {
            Some(hundredths) => before.push(
                pair_sample(
                    MetricFamily::TemperatureSensorCelsius,
                    device,
                    sensor_label(sensors - 1),
                    MetricValue::Hundredths(hundredths),
                ),
            ),
            None => before,
        }
    }
}

/// The wear indicators and the derived health flag.
pub open spec fn wear_samples(device: Seq<char>, smart: SmartLog) -> Seq<SampleView> {
    seq![
        device_sample(
            MetricFamily::AvailableSpareRatio,
            device,
            MetricValue::Hundredths(smart.avail_spare as i32),
        ),
        device_sample(
            MetricFamily::AvailableSpareThresholdRatio,
            device,
            MetricValue::Hundredths(smart.spare_thresh as i32),
        ),
        device_sample(
            MetricFamily::PercentageUsedRatio,
            device,
            MetricValue::Hundredths(smart.percent_used as i32),
        ),
        device_sample(MetricFamily::Healthy, device, flag(smart.is_healthy())),
    ]
}

/// The traffic counters: data units and host commands.
pub open spec fn traffic_samples(device: Seq<char>, smart: SmartLog) -> Seq<SampleView> {
    seq![
        device_sample(
            MetricFamily::DataUnitsReadTotal,
            device,
            MetricValue::Integer(smart.data_units_read),
        ),
        device_sample(
            MetricFamily::DataUnitsWrittenTotal,
            device,
            MetricValue::Integer(smart.data_units_written),
        ),
        device_sample(
            MetricFamily::HostReadCommandsTotal,
            device,
            MetricValue::Integer(smart.host_read_commands),
        ),
        device_sample(
            MetricFamily::HostWriteCommandsTotal,
            device,
            MetricValue::Integer(smart.host_write_commands),
        ),
    ]
}

/// The lifetime counters, the busy time counted in minutes.
pub open spec fn lifetime_samples(device: Seq<char>, smart: SmartLog) -> Seq<SampleView> {
    seq![
        device_sample(
            MetricFamily::ControllerBusyTimeSecondsTotal,
            device,
            MetricValue::Minutes(smart.ctrl_busy_time_minutes),
        ),
        device_sample(
            MetricFamily::PowerCyclesTotal,
            device,
            MetricValue::Integer(smart.power_cycles),
        ),
        device_sample(
            MetricFamily::PowerOnHoursTotal,
            device,
            MetricValue::Integer(smart.power_on_hours),
        ),
        device_sample(
            MetricFamily::UnsafeShutdownsTotal,
            device,
            MetricValue::Integer(smart.unsafe_shutdowns),
        ),
        device_sample(
            MetricFamily::MediaErrorsTotal,
            device,
            MetricValue::Integer(smart.media_errors),
        ),
        device_sample(
            MetricFamily::ErrorLogEntriesTotal,
            device,
            MetricValue::Integer(smart.num_err_log_entries),
        ),
    ]
}

/// The thermal counters.
pub open spec fn thermal_samples(device: Seq<char>, smart: SmartLog) -> Seq<SampleView> {
    seq![
        device_sample(
            MetricFamily::WarningTemperatureTimeMinutesTotal,
            device,
            MetricValue::Integer(smart.warning_temp_time_minutes as u128),
        ),
        device_sample(
            MetricFamily::CriticalTemperatureTimeMinutesTotal,
            device,
            MetricValue::Integer(smart.critical_comp_time_minutes as u128),
        ),
        device_sample(
            MetricFamily::ThermalMgmtT1TransitionsTotal,
            device,
            MetricValue::Integer(smart.thm_temp1_trans_count as u128),
        ),
        device_sample(
            MetricFamily::ThermalMgmtT2TransitionsTotal,
            device,
            MetricValue::Integer(smart.thm_temp2_trans_count as u128),
        ),
        device_sample(
            MetricFamily::ThermalMgmtT1TimeSecondsTotal,
            device,
            MetricValue::Integer(smart.thm_temp1_total_time_seconds as u128),
        ),
        device_sample(
            MetricFamily::ThermalMgmtT2TimeSecondsTotal,
            device,
            MetricValue::Integer(smart.thm_temp2_total_time_seconds as u128),
        ),
    ]
}

/// The counters, as the device holds them.
pub open spec fn counter_samples(device: Seq<char>, smart: SmartLog) -> Seq<SampleView> {
    traffic_samples(device, smart) + lifetime_samples(device, smart) + thermal_samples(
        device,
        smart,
    )
}

/// Everything that the SMART log of a device contributes.
pub open spec fn smart_samples(device: Seq<char>, smart: SmartLog) -> Seq<SampleView> {
    warning_samples(device, smart) + temperature_samples(device, smart) + sensor_samples(
        device,
        smart,
        8,
    ) + wear_samples(device, smart) + counter_samples(device, smart)
}

/// The three sizes of one namespace.
pub open spec fn one_namespace_samples(
    device: Seq<char>,
    namespace: NamespaceSnapshotView,
) -> Seq<SampleView> {
    seq![
        pair_sample(
            MetricFamily::NamespaceSizeSectors,
            device,
            namespace.namespace,
            MetricValue::Integer(namespace.nsze as u128),
        ),
        pair_sample(
            MetricFamily::NamespaceCapacitySectors,
            device,
            namespace.namespace,
            MetricValue::Integer(namespace.ncap as u128),
        ),
        pair_sample(
            MetricFamily::NamespaceUtilizationSectors,
            device,
            namespace.namespace,
            MetricValue::Integer(namespace.nuse as u128),
        ),
    ]
}

/// The sizes of the namespaces of a device, namespace after namespace.
pub open spec fn namespace_samples(
    device: Seq<char>,
    namespaces: Seq<NamespaceSnapshotView>,
) -> Seq<SampleView>
    decreases namespaces.len(),
{
    if namespaces.len() == 0 {
        Seq::empty()
    } else {
        namespace_samples(device, namespaces.drop_last()) + one_namespace_samples(
            device,
            namespaces.last(),
        )
    }
}

/// The two numbers of the error log summary.
pub open spec fn error_log_samples(device: Seq<char>, error_log: ErrorLogSnapshot) -> Seq<
    SampleView,
> {
    seq![
        device_sample(
            MetricFamily::ErrorLogNonZeroEntries,
            device,
            MetricValue::Integer(error_log.non_zero_entries as u128),
        ),
        device_sample(
            MetricFamily::ErrorLogMaxErrorCount,
            device,
            MetricValue::Integer(error_log.max_error_count as u128),
        ),
    ]
}

/// The operation and the progress of the self-test.
pub open spec fn self_test_samples(device: Seq<char>, self_test: SelfTestSnapshot) -> Seq<
    SampleView,
> {
    seq![
        device_sample(
            MetricFamily::SelfTestCurrentOperation,
            device,
            MetricValue::Integer(self_test.current_operation as u128),
        ),
        device_sample(
            MetricFamily::SelfTestCurrentCompletionRatio,
            device,
            MetricValue::Hundredths(self_test.current_completion_percent as i32),
        ),
    ]
}

/// What the SMART log of a device contributes, nothing where the snapshot
/// has none.
pub open spec fn optional_smart_samples(device: DeviceSnapshotView) -> Seq<SampleView> {
    match device.smart {
        Some(smart) => smart_samples(device.device, smart),
        None => Seq::empty(),
    }
}

/// The namespace sizes of a device, nothing where the namespace collector is
/// switched off.
pub open spec fn optional_namespace_samples(device: DeviceSnapshotView, enabled: bool) -> Seq<
    SampleView,
> {
    if enabled {
        namespace_samples(device.device, device.namespaces)
    } else {
        Seq::empty()
    }
}

/// The error log summary of a device, nothing where the error log collector
/// is switched off or the snapshot has no summary.
pub open spec fn optional_error_log_samples(device: DeviceSnapshotView, enabled: bool) -> Seq<
    SampleView,
> {
    match device.error_log {
        Some(error_log) => if enabled {
            error_log_samples(device.device, error_log)
        } else {
            Seq::empty()
        },
        None => Seq::empty(),
    }
}

/// The self-test state of a device, nothing where the self-test collector is
/// switched off or the snapshot has no state.
pub open spec fn optional_self_test_samples(device: DeviceSnapshotView, enabled: bool) -> Seq<
    SampleView,
> {
    match device.self_test {
        Some(self_test) => if enabled {
            self_test_samples(device.device, self_test)
        } else {
            Seq::empty()
        },
        None => Seq::empty(),
    }
}

/// The samples of one device. The identity is always there; the SMART
/// families where the snapshot has a SMART log; namespaces, error log and
/// self-test where the collector is switched on and the snapshot has the
/// data.
pub open spec fn device_samples(
    device: DeviceSnapshotView,
    collect_namespace: bool,
    collect_error_log: bool,
    collect_self_test: bool,
) -> Seq<SampleView> {
    identity_samples(device) + optional_smart_samples(device) + optional_namespace_samples(
        device,
        collect_namespace,
    ) + optional_error_log_samples(device, collect_error_log) + optional_self_test_samples(
        device,
        collect_self_test,
    )
}

/// The samples of a list of devices, device after device.
pub open spec fn all_device_samples(
    devices: Seq<DeviceSnapshotView>,
    collect_namespace: bool,
    collect_error_log: bool,
    collect_self_test: bool,
) -> Seq<SampleView>
    decreases devices.len(),
{
    if devices.len() == 0 {
        Seq::empty()
    } else {
        all_device_samples(
            devices.drop_last(),
            collect_namespace,
            collect_error_log,
            collect_self_test,
        ) + device_samples(
            devices.last(),
            collect_namespace,
            collect_error_log,
            collect_self_test,
        )
    }
}

/// The three samples about the scrape itself.
pub open spec fn scrape_samples(report: ScrapeReportView) -> Seq<SampleView> {
    seq![
        SampleView {
            family: MetricFamily::ScrapeDurationSeconds,
            labels: Seq::empty(),
            value: MetricValue::Nanoseconds(report.duration_nanos),
        },
        SampleView {
            family: MetricFamily::ScrapeSuccess,
            labels: Seq::empty(),
            value: flag(report.success),
        },
        SampleView {
            family: MetricFamily::DeviceCount,
            labels: Seq::empty(),
            value: MetricValue::Integer(report.discovered_device_count as u128),
        },
    ]
}

/// The samples of a report: those of its devices in the order of the
/// report, then those about the scrape.
pub open spec fn report_samples(report: ScrapeReportView) -> Seq<SampleView> {
    all_device_samples(
        report.devices,
        report.collect_namespace,
        report.collect_error_log,
        report.collect_self_test,
    ) + scrape_samples(report)
}

/// The value of a flag.
fn flag_value(value: bool) -> (number: MetricValue)
    ensures
        number == flag(value),
{
    if value {
        MetricValue::Integer(1)
    } else {
        MetricValue::Integer(0)
    }
}

/// Appends the sample of `family` for `device` to `samples`.
fn push_device_sample(
    samples: &mut Vec<Sample>,
    family: MetricFamily,
    device: &String,
    value: MetricValue,
)
    ensures
        sample_views(final(samples)@) == sample_views(old(samples)@).push(
            device_sample(family, device@, value),
        ),
{
    let mut labels: Vec<String> = Vec::new();
    labels.push(device.clone());
    assert(texts(labels@) =~= seq![device@]);
    samples.push(Sample { family, labels, value });
    assert(sample_views(samples@) =~= sample_views(old(samples)@).push(
        device_sample(family, device@, value),
    ));
}

/// Appends the sample of `family` for `device` and a second label to
/// `samples`.
fn push_pair_sample(
    samples: &mut Vec<Sample>,
    family: MetricFamily,
    device: &String,
    second: String,
    value: MetricValue,
)
    ensures
        sample_views(final(samples)@) == sample_views(old(samples)@).push(
            pair_sample(family, device@, second@, value),
        ),
{
    let mut labels: Vec<String> = Vec::new();
    labels.push(device.clone());
    labels.push(second);
    assert(texts(labels@) =~= seq![device@, second@]);
    samples.push(Sample { family, labels, value });
    assert(sample_views(samples@) =~= sample_views(old(samples)@).push(
        pair_sample(family, device@, second@, value),
    ));
}

/// Appends a sample without labels to `samples`.
fn push_plain_sample(samples: &mut Vec<Sample>, family: MetricFamily, value: MetricValue)
    ensures
        sample_views(final(samples)@) == sample_views(old(samples)@).push(
            SampleView { family, labels: Seq::empty(), value },
        ),
{
    let labels: Vec<String> = Vec::new();
    assert(texts(labels@) =~= Seq::<Seq<char>>::empty());
    samples.push(Sample { family, labels, value });
    assert(sample_views(samples@) =~= sample_views(old(samples)@).push(
        SampleView { family, labels: Seq::empty(), value },
    ));
}

/// The label of sensor `sensor`, counted from zero.
fn sensor_label_text(sensor: usize) -> (label: String)
    requires
        sensor < 8,
    ensures
        label@ == sensor_label(sensor as int),
{
    let digit: &'static str = if sensor == 0 {
        "1"
    } else if sensor == 1 {
        "2"
    } else if sensor == 2 {
        "3"
    } else if sensor == 3 {
        "4"
    } else if sensor == 4 {
        "5"
    } else if sensor == 5 {
        "6"
    } else if sensor == 6 {
        "7"
    } else {
        "8"
    };
    proof {
        reveal_strlit("1");
        reveal_strlit("2");
        reveal_strlit("3");
        reveal_strlit("4");
        reveal_strlit("5");
        reveal_strlit("6");
        reveal_strlit("7");
        reveal_strlit("8");
        assert(digit@ =~= sensor_label(sensor as int));
    }
    digit.to_owned()
}

/// Appends the critical-warning byte and its five bits.
fn push_warning_samples(samples: &mut Vec<Sample>, device: &String, smart: &SmartLog)
    ensures
        sample_views(final(samples)@) == sample_views(old(samples)@) + warning_samples(
            device@,
            *smart,
        ),
{
    push_device_sample(
        samples,
        MetricFamily::CriticalWarning,
        device,
        MetricValue::Integer(smart.critical_warning as u128),
    );
    push_device_sample(
        samples,
        MetricFamily::CriticalWarningAvailableSpare,
        device,
        flag_value(smart.critical_warning_available_spare()),
    );
    push_device_sample(
        samples,
        MetricFamily::CriticalWarningTemperature,
        device,
        flag_value(smart.critical_warning_temperature()),
    );
    push_device_sample(
        samples,
        MetricFamily::CriticalWarningReliability,
        device,
        flag_value(smart.critical_warning_reliability()),
    );
    push_device_sample(
        samples,
        MetricFamily::CriticalWarningReadOnly,
        device,
        flag_value(smart.critical_warning_read_only()),
    );
    push_device_sample(
        samples,
        MetricFamily::CriticalWarningVolatileBackup,
        device,
        flag_value(smart.critical_warning_volatile_backup()),
    );
    assert(sample_views(samples@) =~= sample_views(old(samples)@) + warning_samples(
        device@,
        *smart,
    ));
}

/// Appends the composite temperature, where there is one.
fn push_temperature_samples(samples: &mut Vec<Sample>, device: &String, smart: &SmartLog)
    ensures
        sample_views(final(samples)@) == sample_views(old(samples)@) + temperature_samples(
            device@,
            *smart,
        ),
{
    match smart.temperature_centicelsius() {
        Some(hundredths) => {
            push_device_sample(
                samples,
                MetricFamily::TemperatureCelsius,
                device,
                MetricValue::Hundredths(hundredths),
            );
        },
        None => {},
    }
    assert(sample_views(samples@) =~= sample_views(old(samples)@) + temperature_samples(
        device@,
        *smart,
    ));
}

/// Appends the temperatures of the eight sensors, where there are any.
fn push_sensor_samples(samples: &mut Vec<Sample>, device: &String, smart: &SmartLog)
    ensures
        sample_views(final(samples)@) == sample_views(old(samples)@) + sensor_samples(
            device@,
            *smart,
            8,
        ),
{
    let ghost start = sample_views(samples@);
    let mut sensor_index: usize = 0;
    assert(sample_views(samples@) =~= start + sensor_samples(device@, *smart, 0));
    while sensor_index < 8
        invariant
            sensor_index <= 8,
            sample_views(samples@) == start + sensor_samples(
                device@,
                *smart,
                sensor_index as nat,
            ),
        decreases 8 - sensor_index,
    {
        match smart.sensor_centicelsius(sensor_index) {
            Some(hundredths) => {
                push_pair_sample(
                    samples,
                    MetricFamily::TemperatureSensorCelsius,
                    device,
                    sensor_label_text(sensor_index),
                    MetricValue::Hundredths(hundredths),
                );
            },
            None => {},
        }
        sensor_index += 1;
        assert(sample_views(samples@) =~= start + sensor_samples(
            device@,
            *smart,
            sensor_index as nat,
        ));
    }
}

/// Appends the wear indicators and the health flag.
fn push_wear_samples(samples: &mut Vec<Sample>, device: &String, smart: &SmartLog)
    ensures
        sample_views(final(samples)@) == sample_views(old(samples)@) + wear_samples(
            device@,
            *smart,
        ),
{
    push_device_sample(
        samples,
        MetricFamily::AvailableSpareRatio,
        device,
        MetricValue::Hundredths(smart.avail_spare as i32),
    );
    push_device_sample(
        samples,
        MetricFamily::AvailableSpareThresholdRatio,
        device,
        MetricValue::Hundredths(smart.spare_thresh as i32),
    );
    push_device_sample(
        samples,
        MetricFamily::PercentageUsedRatio,
        device,
        MetricValue::Hundredths(smart.percent_used as i32),
    );
    push_device_sample(samples, MetricFamily::Healthy, device, flag_value(smart.healthy()));
    assert(sample_views(samples@) =~= sample_views(old(samples)@) + wear_samples(device@, *smart));
}

/// Appends the traffic counters.
fn push_traffic_samples(samples: &mut Vec<Sample>, device: &String, smart: &SmartLog)
    ensures
        sample_views(final(samples)@) == sample_views(old(samples)@) + traffic_samples(
            device@,
            *smart,
        ),
{
    push_device_sample(
        samples,
        MetricFamily::DataUnitsReadTotal,
        device,
        MetricValue::Integer(smart.data_units_read),
    );
    push_device_sample(
        samples,
        MetricFamily::DataUnitsWrittenTotal,
        device,
        MetricValue::Integer(smart.data_units_written),
    );
    push_device_sample(
        samples,
        MetricFamily::HostReadCommandsTotal,
        device,
        MetricValue::Integer(smart.host_read_commands),
    );
    push_device_sample(
        samples,
        MetricFamily::HostWriteCommandsTotal,
        device,
        MetricValue::Integer(smart.host_write_commands),
    );
    assert(sample_views(samples@) =~= sample_views(old(samples)@) + traffic_samples(
        device@,
        *smart,
    ));
}

/// Appends the lifetime counters.
fn push_lifetime_samples(samples: &mut Vec<Sample>, device: &String, smart: &SmartLog)
    ensures
        sample_views(final(samples)@) == sample_views(old(samples)@) + lifetime_samples(
            device@,
            *smart,
        ),
{
    push_device_sample(
        samples,
        MetricFamily::ControllerBusyTimeSecondsTotal,
        device,
        MetricValue::Minutes(smart.ctrl_busy_time_minutes),
    );
    push_device_sample(
        samples,
        MetricFamily::PowerCyclesTotal,
        device,
        MetricValue::Integer(smart.power_cycles),
    );
    push_device_sample(
        samples,
        MetricFamily::PowerOnHoursTotal,
        device,
        MetricValue::Integer(smart.power_on_hours),
    );
    push_device_sample(
        samples,
        MetricFamily::UnsafeShutdownsTotal,
        device,
        MetricValue::Integer(smart.unsafe_shutdowns),
    );
    push_device_sample(
        samples,
        MetricFamily::MediaErrorsTotal,
        device,
        MetricValue::Integer(smart.media_errors),
    );
    push_device_sample(
        samples,
        MetricFamily::ErrorLogEntriesTotal,
        device,
        MetricValue::Integer(smart.num_err_log_entries),
    );
    assert(sample_views(samples@) =~= sample_views(old(samples)@) + lifetime_samples(
        device@,
        *smart,
    ));
}

/// Appends the thermal counters.
fn push_thermal_samples(samples: &mut Vec<Sample>, device: &String, smart: &SmartLog)
    ensures
        sample_views(final(samples)@) == sample_views(old(samples)@) + thermal_samples(
            device@,
            *smart,
        ),
{
    push_device_sample(
        samples,
        MetricFamily::WarningTemperatureTimeMinutesTotal,
        device,
        MetricValue::Integer(smart.warning_temp_time_minutes as u128),
    );
    push_device_sample(
        samples,
        MetricFamily::CriticalTemperatureTimeMinutesTotal,
        device,
        MetricValue::Integer(smart.critical_comp_time_minutes as u128),
    );
    push_device_sample(
        samples,
        MetricFamily::ThermalMgmtT1TransitionsTotal,
        device,
        MetricValue::Integer(smart.thm_temp1_trans_count as u128),
    );
    push_device_sample(
        samples,
        MetricFamily::ThermalMgmtT2TransitionsTotal,
        device,
        MetricValue::Integer(smart.thm_temp2_trans_count as u128),
    );
    push_device_sample(
        samples,
        MetricFamily::ThermalMgmtT1TimeSecondsTotal,
        device,
        MetricValue::Integer(smart.thm_temp1_total_time_seconds as u128),
    );
    push_device_sample(
        samples,
        MetricFamily::ThermalMgmtT2TimeSecondsTotal,
        device,
        MetricValue::Integer(smart.thm_temp2_total_time_seconds as u128),
    );
    assert(sample_views(samples@) =~= sample_views(old(samples)@) + thermal_samples(
        device@,
        *smart,
    ));
}

/// Appends what the SMART log of a device contributes.
fn push_smart_samples(samples: &mut Vec<Sample>, device: &String, smart: &SmartLog)
    ensures
        sample_views(final(samples)@) == sample_views(old(samples)@) + smart_samples(
            device@,
            *smart,
        ),
{
    push_warning_samples(samples, device, smart);
    push_temperature_samples(samples, device, smart);
    push_sensor_samples(samples, device, smart);
    push_wear_samples(samples, device, smart);
    push_traffic_samples(samples, device, smart);
    push_lifetime_samples(samples, device, smart);
    push_thermal_samples(samples, device, smart);
    assert(sample_views(samples@) =~= sample_views(old(samples)@) + smart_samples(
        device@,
        *smart,
    ));
}

/// Appends the samples that identify a device.
fn push_identity_samples(samples: &mut Vec<Sample>, device: &DeviceSnapshot)
    ensures
        sample_views(final(samples)@) == sample_views(old(samples)@) + identity_samples(device@),
{
    let mut labels: Vec<String> = Vec::new();
    labels.push(device.device.clone());
    labels.push(device.model.clone());
    labels.push(device.serial.clone());
    labels.push(device.firmware.clone());
    assert(texts(labels@) =~= seq![
        device.device@,
        device.model@,
        device.serial@,
        device.firmware@,
    ]);
    samples.push(Sample { family: MetricFamily::Info, labels, value: MetricValue::Integer(1) });
    assert(sample_views(samples@) =~= sample_views(old(samples)@).push(
        identity_samples(device@)[0],
    ));
    push_device_sample(
        samples,
        MetricFamily::DeviceAccessible,
        &device.device,
        flag_value(device.accessible),
    );
    assert(sample_views(samples@) =~= sample_views(old(samples)@) + identity_samples(device@));
}

/// Appends the sizes of the namespaces of a device.
fn push_namespace_samples(
    samples: &mut Vec<Sample>,
    device: &String,
    namespaces: &Vec<NamespaceSnapshot>,
)
    ensures
        sample_views(final(samples)@) == sample_views(old(samples)@) + namespace_samples(
            device@,
            namespace_views(namespaces@),
        ),
{
    let ghost start = sample_views(samples@);
    let ghost views = namespace_views(namespaces@);
    let mut index: usize = 0;
    assert(sample_views(samples@) =~= start + namespace_samples(device@, views.take(0)));
    while index < namespaces.len()
        invariant
            index <= namespaces@.len(),
            views == namespace_views(namespaces@),
            sample_views(samples@) == start + namespace_samples(device@, views.take(index as int)),
        decreases namespaces@.len() - index,
    {
        let namespace = &namespaces[index];
        push_pair_sample(
            samples,
            MetricFamily::NamespaceSizeSectors,
            device,
            namespace.namespace.clone(),
            MetricValue::Integer(namespace.nsze as u128),
        );
        push_pair_sample(
            samples,
            MetricFamily::NamespaceCapacitySectors,
            device,
            namespace.namespace.clone(),
            MetricValue::Integer(namespace.ncap as u128),
        );
        push_pair_sample(
            samples,
            MetricFamily::NamespaceUtilizationSectors,
            device,
            namespace.namespace.clone(),
            MetricValue::Integer(namespace.nuse as u128),
        );
        index += 1;
        proof {
            assert(views.take(index as int).drop_last() =~= views.take(index - 1));
            assert(views.take(index as int).last() == namespace@);
            assert(sample_views(samples@) =~= start + namespace_samples(
                device@,
                views.take(index as int),
            ));
        }
    }
    assert(views.take(index as int) =~= views);
}

/// Appends the two numbers of the error log summary.
fn push_error_log_samples(samples: &mut Vec<Sample>, device: &String, error_log: &ErrorLogSnapshot)
    ensures
        sample_views(final(samples)@) == sample_views(old(samples)@) + error_log_samples(
            device@,
            *error_log,
        ),
{
    push_device_sample(
        samples,
        MetricFamily::ErrorLogNonZeroEntries,
        device,
        MetricValue::Integer(error_log.non_zero_entries as u128),
    );
    push_device_sample(
        samples,
        MetricFamily::ErrorLogMaxErrorCount,
        device,
        MetricValue::Integer(error_log.max_error_count as u128),
    );
    assert(sample_views(samples@) =~= sample_views(old(samples)@) + error_log_samples(
        device@,
        *error_log,
    ));
}

/// Appends the operation and the progress of the self-test.
fn push_self_test_samples(samples: &mut Vec<Sample>, device: &String, self_test: &SelfTestSnapshot)
    ensures
        sample_views(final(samples)@) == sample_views(old(samples)@) + self_test_samples(
            device@,
            *self_test,
        ),
{
    push_device_sample(
        samples,
        MetricFamily::SelfTestCurrentOperation,
        device,
        MetricValue::Integer(self_test.current_operation as u128),
    );
    push_device_sample(
        samples,
        MetricFamily::SelfTestCurrentCompletionRatio,
        device,
        MetricValue::Hundredths(self_test.current_completion_percent as i32),
    );
    assert(sample_views(samples@) =~= sample_views(old(samples)@) + self_test_samples(
        device@,
        *self_test,
    ));
}

/// Appends what the SMART log of a device contributes, where it has one.
fn push_optional_smart_samples(samples: &mut Vec<Sample>, device: &DeviceSnapshot)
    ensures
        sample_views(final(samples)@) == sample_views(old(samples)@) + optional_smart_samples(
            device@,
        ),
{
    match &device.smart {
        Some(smart) => {
            push_smart_samples(samples, &device.device, smart);
        },
        None => {
            assert(sample_views(samples@) =~= sample_views(samples@) + Seq::<SampleView>::empty());
        },
    }
}

/// Appends the namespace sizes of a device, where they are asked for.
fn push_optional_namespace_samples(
    samples: &mut Vec<Sample>,
    device: &DeviceSnapshot,
    enabled: bool,
)
    ensures
        sample_views(final(samples)@) == sample_views(old(samples)@)
            + optional_namespace_samples(device@, enabled),
{
    if enabled {
        push_namespace_samples(samples, &device.device, &device.namespaces);
    } else {
        assert(sample_views(samples@) =~= sample_views(samples@) + Seq::<SampleView>::empty());
    }
}

/// Appends the error log summary of a device, where it is asked for and
/// there is one.
fn push_optional_error_log_samples(
    samples: &mut Vec<Sample>,
    device: &DeviceSnapshot,
    enabled: bool,
)
    ensures
        sample_views(final(samples)@) == sample_views(old(samples)@)
            + optional_error_log_samples(device@, enabled),
{
    assert(sample_views(samples@) =~= sample_views(samples@) + Seq::<SampleView>::empty());
    if enabled {
        match &device.error_log {
            Some(error_log) => {
                push_error_log_samples(samples, &device.device, error_log);
            },
            None => {},
        }
    }
}

/// Appends the self-test state of a device, where it is asked for and there
/// is one.
fn push_optional_self_test_samples(
    samples: &mut Vec<Sample>,
    device: &DeviceSnapshot,
    enabled: bool,
)
    ensures
        sample_views(final(samples)@) == sample_views(old(samples)@)
            + optional_self_test_samples(device@, enabled),
{
    assert(sample_views(samples@) =~= sample_views(samples@) + Seq::<SampleView>::empty());
    if enabled {
        match &device.self_test {
            Some(self_test) => {
                push_self_test_samples(samples, &device.device, self_test);
            },
            None => {},
        }
    }
}

/// Appending five lists one after the other appends their concatenation.
proof fn lemma_append_five<T>(
    start: Seq<T>,
    first: Seq<T>,
    second: Seq<T>,
    third: Seq<T>,
    fourth: Seq<T>,
    fifth: Seq<T>,
)
    ensures
        start + first + second + third + fourth + fifth == start + (first + second + third
            + fourth + fifth),
{
    assert(start + first + second + third + fourth + fifth =~= start + (first + second + third
        + fourth + fifth));
}

/// Appends the samples of one device.
fn push_device_samples(
    samples: &mut Vec<Sample>,
    device: &DeviceSnapshot,
    collect_namespace: bool,
    collect_error_log: bool,
    collect_self_test: bool,
)
    ensures
        sample_views(final(samples)@) == sample_views(old(samples)@) + device_samples(
            device@,
            collect_namespace,
            collect_error_log,
            collect_self_test,
        ),
{
    push_identity_samples(samples, device);
    push_optional_smart_samples(samples, device);
    push_optional_namespace_samples(samples, device, collect_namespace);
    push_optional_error_log_samples(samples, device, collect_error_log);
    push_optional_self_test_samples(samples, device, collect_self_test);
    proof {
        lemma_append_five(
            sample_views(old(samples)@),
            identity_samples(device@),
            optional_smart_samples(device@),
            optional_namespace_samples(device@, collect_namespace),
            optional_error_log_samples(device@, collect_error_log),
            optional_self_test_samples(device@, collect_self_test),
        );
    }
}

/// The samples that a report consists of.
pub fn encode_report(report: &ScrapeReport) -> (samples: Vec<Sample>)
    ensures
        sample_views(samples@) == report_samples(report@),
{
    let mut samples: Vec<Sample> = Vec::new();
    let mut index: usize = 0;
    assert(sample_views(samples@) =~= Seq::<SampleView>::empty());
    while index < report.devices.len()
        invariant
            index <= report.devices@.len(),
            sample_views(samples@) == all_device_samples(
                device_views(report.devices@).take(index as int),
                report.collect_namespace,
                report.collect_error_log,
                report.collect_self_test,
            ),
        decreases report.devices@.len() - index,
    {
        let ghost views = device_views(report.devices@);
        push_device_samples(
            &mut samples,
            &report.devices[index],
            report.collect_namespace,
            report.collect_error_log,
            report.collect_self_test,
        );
        index += 1;
        proof {
            assert(views.take(index as int).drop_last() =~= views.take(index - 1));
            assert(views.take(index as int).last() == report.devices@[index - 1]@);
        }
    }
    assert(device_views(report.devices@).take(index as int) =~= device_views(report.devices@));
    let ghost devices_done = sample_views(samples@);
    push_plain_sample(
        &mut samples,
        MetricFamily::ScrapeDurationSeconds,
        MetricValue::Nanoseconds(report.duration_nanos),
    );
    push_plain_sample(&mut samples, MetricFamily::ScrapeSuccess, flag_value(report.success));
    push_plain_sample(
        &mut samples,
        MetricFamily::DeviceCount,
        MetricValue::Integer(report.discovered_device_count as u128),
    );
    assert(sample_views(samples@) =~= devices_done + scrape_samples(report@));
    samples
}

/// Whether a family is read from the SMART log.
pub open spec fn smart_derived(family: MetricFamily) -> bool {
    match family {
        MetricFamily::CriticalWarning
        | MetricFamily::CriticalWarningAvailableSpare
        | MetricFamily::CriticalWarningTemperature
        | MetricFamily::CriticalWarningReliability
        | MetricFamily::CriticalWarningReadOnly
        | MetricFamily::CriticalWarningVolatileBackup
        | MetricFamily::TemperatureCelsius
        | MetricFamily::TemperatureSensorCelsius
        | MetricFamily::AvailableSpareRatio
        | MetricFamily::AvailableSpareThresholdRatio
        | MetricFamily::PercentageUsedRatio
        | MetricFamily::Healthy => true,
        other => other.spec_kind() == MetricKind::Counter,
    }
}

/// Whether every sample of the list is of a family that `allowed` admits.
pub open spec fn every_family(
    samples: Seq<SampleView>,
    allowed: spec_fn(MetricFamily) -> bool,
) -> bool {
    forall|k: int| 0 <= k < samples.len() ==> allowed((#[trigger] samples[k]).family)
}

/// The sensor samples are all of the sensor family, and a sensor that
/// reports zero Kelvin has none.
pub proof fn lemma_sensor_samples(device: Seq<char>, smart: SmartLog, sensors: nat)
    requires
        sensors <= 8,
    ensures
        every_family(
            sensor_samples(device, smart, sensors),
            |family: MetricFamily| family == MetricFamily::TemperatureSensorCelsius,
        ),
        forall|k: int, sensor: int|
            0 <= k < sensor_samples(device, smart, sensors).len() && 0 <= sensor < 8
                && smart.temp_sensor_kelvin@[sensor] == 0 ==> (#[trigger] sensor_samples(
                device,
                smart,
                sensors,
            )[k]).labels != seq![device, #[trigger] sensor_label(sensor)],
    decreases sensors,
{
    if sensors > 0 {
        lemma_sensor_samples(device, smart, (sensors - 1) as nat);
        let before = sensor_samples(device, smart, (sensors - 1) as nat);
        let after = sensor_samples(device, smart, sensors);
        assert forall|k: int, sensor: int|
            0 <= k < after.len() && 0 <= sensor < 8 && smart.temp_sensor_kelvin@[sensor]
                == 0 implies (#[trigger] after[k]).labels != seq![
            device,
            #[trigger] sensor_label(sensor),
        ] by {
            if k < before.len() {
                assert(after[k] == before[k]);
            } else {
                assert(after[k].labels == seq![device, sensor_label(sensors - 1)]);
                assert(sensor != sensors - 1);
                assert(sensor_label(sensor)[0] != sensor_label(sensors - 1)[0]);
                assert(seq![device, sensor_label(sensor)][1] == sensor_label(sensor));
                assert(seq![device, sensor_label(sensors - 1)][1] == sensor_label(sensors - 1));
            }
        }
    }
}

/// The namespace samples are all of the three namespace families.
pub proof fn lemma_namespace_samples(device: Seq<char>, namespaces: Seq<NamespaceSnapshotView>)
    ensures
        every_family(
            namespace_samples(device, namespaces),
            |family: MetricFamily| !smart_derived(family),
        ),
    decreases namespaces.len(),
{
    if namespaces.len() > 0 {
        lemma_namespace_samples(device, namespaces.drop_last());
    }
}

/// What the SMART log contributes is all of SMART families, and where the
/// composite temperature is zero Kelvin, none of it is a composite
/// temperature.
pub proof fn lemma_smart_samples(device: Seq<char>, smart: SmartLog)
    ensures
        every_family(smart_samples(device, smart), |family: MetricFamily| smart_derived(family)),
        smart.temperature_kelvin == 0 ==> every_family(
            smart_samples(device, smart),
            |family: MetricFamily| family != MetricFamily::TemperatureCelsius,
        ),
        smart.temperature_kelvin != 0 ==> smart_samples(device, smart).contains(
            device_sample(
                MetricFamily::TemperatureCelsius,
                device,
                MetricValue::Hundredths((smart.temperature_kelvin * 100 - 27315) as i32),
            ),
        ),
{
    lemma_sensor_samples(device, smart, 8);
    let samples = smart_samples(device, smart);
    let warning = warning_samples(device, smart);
    let temperature = temperature_samples(device, smart);
    let sensors = sensor_samples(device, smart, 8);
    let wear = wear_samples(device, smart);
    let traffic = traffic_samples(device, smart);
    let lifetime = lifetime_samples(device, smart);
    let thermal = thermal_samples(device, smart);
    let counters = counter_samples(device, smart);
    assert forall|k: int| 0 <= k < counters.len() implies smart_derived(
        (#[trigger] counters[k]).family,
    ) by {
        if k < traffic.len() {
            assert(counters[k] == traffic[k]);
        } else if k < traffic.len() + lifetime.len() {
            assert(counters[k] == lifetime[k - traffic.len()]);
        } else {
            assert(counters[k] == thermal[k - traffic.len() - lifetime.len()]);
        }
    }
    assert forall|k: int| 0 <= k < samples.len() implies smart_derived(
        (#[trigger] samples[k]).family,
    ) && (smart.temperature_kelvin == 0 ==> samples[k].family
        != MetricFamily::TemperatureCelsius) by {
        let a = warning.len();
        let b = a + temperature.len();
        let c = b + sensors.len();
        let d = c + wear.len();
        if k < a {
            assert(samples[k] == warning[k]);
        } else if k < b {
            assert(samples[k] == temperature[k - a]);
        } else if k < c {
            assert(samples[k] == sensors[k - b]);
        } else if k < d {
            assert(samples[k] == wear[k - c]);
        } else {
            assert(samples[k] == counters[k - d]);
        }
    }
    if smart.temperature_kelvin != 0 {
        assert(samples[warning.len() as int] == temperature[0]);
    }
}

/// The samples of a device begin with its identity, whatever else is known
/// of it; and a device without SMART log has no sample of a SMART family.
pub proof fn lemma_device_samples(
    device: DeviceSnapshotView,
    collect_namespace: bool,
    collect_error_log: bool,
    collect_self_test: bool,
)
    ensures
        device_samples(device, collect_namespace, collect_error_log, collect_self_test).len()
            >= 2,
        device_samples(device, collect_namespace, collect_error_log, collect_self_test)[0]
            == identity_samples(device)[0],
        device_samples(device, collect_namespace, collect_error_log, collect_self_test)[1]
            == identity_samples(device)[1],
        device.smart.is_none() ==> every_family(
            device_samples(device, collect_namespace, collect_error_log, collect_self_test),
            |family: MetricFamily| !smart_derived(family),
        ),
{
    let samples = device_samples(device, collect_namespace, collect_error_log, collect_self_test);
    let identity = identity_samples(device);
    let smart = optional_smart_samples(device);
    let namespaces = optional_namespace_samples(device, collect_namespace);
    let error_log = optional_error_log_samples(device, collect_error_log);
    let self_test = optional_self_test_samples(device, collect_self_test);
    lemma_namespace_samples(device.device, device.namespaces);
    assert(samples[0] == identity[0]);
    assert(samples[1] == identity[1]);
    if device.smart.is_none() {
        assert forall|k: int| 0 <= k < samples.len() implies !smart_derived(
            (#[trigger] samples[k]).family,
        ) by {
            let a = identity.len();
            let b = a + smart.len();
            let c = b + namespaces.len();
            let d = c + error_log.len();
            if k < a {
                assert(samples[k] == identity[k]);
            } else if k < c {
                assert(samples[k] == namespaces[k - b]);
            } else if k < d {
                assert(samples[k] == error_log[k - c]);
            } else {
                assert(samples[k] == self_test[k - d]);
            }
        }
    }
}

/// A report holds every sample of every one of its devices.
pub proof fn lemma_report_holds_device_samples(report: ScrapeReportView, index: int, k: int)
    requires
        0 <= index < report.devices.len(),
        0 <= k < device_samples(
            report.devices[index],
            report.collect_namespace,
            report.collect_error_log,
            report.collect_self_test,
        ).len(),
    ensures
        report_samples(report).contains(
            device_samples(
                report.devices[index],
                report.collect_namespace,
                report.collect_error_log,
                report.collect_self_test,
            )[k],
        ),
{
    lemma_all_device_samples_hold(
        report.devices,
        report.collect_namespace,
        report.collect_error_log,
        report.collect_self_test,
        index,
        k,
    );
    let devices = all_device_samples(
        report.devices,
        report.collect_namespace,
        report.collect_error_log,
        report.collect_self_test,
    );
    let sample = device_samples(
        report.devices[index],
        report.collect_namespace,
        report.collect_error_log,
        report.collect_self_test,
    )[k];
    let at = choose|at: int| 0 <= at < devices.len() && devices[at] == sample;
    assert(report_samples(report)[at] == sample);
}

/// The samples of a list of devices hold every sample of every device of
/// the list.
pub proof fn lemma_all_device_samples_hold(
    devices: Seq<DeviceSnapshotView>,
    collect_namespace: bool,
    collect_error_log: bool,
    collect_self_test: bool,
    index: int,
    k: int,
)
    requires
        0 <= index < devices.len(),
        0 <= k < device_samples(
            devices[index],
            collect_namespace,
            collect_error_log,
            collect_self_test,
        ).len(),
    ensures
        all_device_samples(
            devices,
            collect_namespace,
            collect_error_log,
            collect_self_test,
        ).contains(
            device_samples(
                devices[index],
                collect_namespace,
                collect_error_log,
                collect_self_test,
            )[k],
        ),
    decreases devices.len(),
{
    let all = all_device_samples(devices, collect_namespace, collect_error_log, collect_self_test);
    let front = all_device_samples(
        devices.drop_last(),
        collect_namespace,
        collect_error_log,
        collect_self_test,
    );
    let sample = device_samples(
        devices[index],
        collect_namespace,
        collect_error_log,
        collect_self_test,
    )[k];
    if index == devices.len() - 1 {
        assert(all[front.len() + k] == sample);
    } else {
        assert(devices.drop_last()[index] == devices[index]);
        lemma_all_device_samples_hold(
            devices.drop_last(),
            collect_namespace,
            collect_error_log,
            collect_self_test,
            index,
            k,
        );
        let at = choose|at: int| 0 <= at < front.len() && front[at] == sample;
        assert(all[at] == sample);
    }
}

} // verus!
