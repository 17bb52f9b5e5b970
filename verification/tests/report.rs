use nvme_exporter::collection::collect_controller;
use nvme_exporter::collection::Progress;
use nvme_exporter::collector::Collected;
use nvme_exporter::collector::NvmeCollector;
use nvme_exporter::config::Config;
use nvme_exporter::nvme::device::AdminRequest;
use nvme_exporter::nvme::discovery::NvmeController;
use nvme_exporter::nvme::discovery::NvmeNamespace;
use nvme_exporter::nvme::error::NvmeError;
use nvme_exporter::metrics::encode_report;
use nvme_exporter::metrics::DeviceSnapshot;
use nvme_exporter::metrics::ErrorLogSnapshot;
use nvme_exporter::metrics::MetricFamily;
use nvme_exporter::metrics::MetricKind;
use nvme_exporter::metrics::MetricValue;
use nvme_exporter::metrics::NamespaceSnapshot;
use nvme_exporter::metrics::Sample;
use nvme_exporter::metrics::ScrapeReport;
use nvme_exporter::metrics::SelfTestSnapshot;
use nvme_exporter::nvme::types::ErrorLogSummary;
use nvme_exporter::nvme::types::IdentifyController;
use nvme_exporter::nvme::types::IdentifyNamespace;
use nvme_exporter::nvme::types::SelfTestLogSummary;
use nvme_exporter::nvme::types::SmartLog;

const SECOND: u64 = 1_000_000_000;

fn number(value: &MetricValue) -> String {
    match value {
        MetricValue::Integer(count) => format!("{}", count),
        MetricValue::Hundredths(hundredths) => format!("{}", *hundredths as f64 / 100.0),
        MetricValue::Minutes(minutes) => format!("{}", *minutes as f64 * 60.0),
        MetricValue::Nanoseconds(nanos) => format!("{}", *nanos as f64 / 1e9),
    }
}

fn line(sample: &Sample) -> String {
    let names = sample.family.label_names();
    assert_eq!(names.len(), sample.labels.len(), "{:?}", sample.family);
    let mut pairs: Vec<(&str, &str)> =
        names.iter().copied().zip(sample.labels.iter().map(|label| label.as_str())).collect();
    pairs.sort();
    let labels: Vec<String> =
        pairs.iter().map(|(name, value)| format!("{}=\"{}\"", name, value)).collect();
    if labels.is_empty() {
        format!("{} {}", sample.family.name(), number(&sample.value))
    } else {
        format!("{}{{{}}} {}", sample.family.name(), labels.join(","), number(&sample.value))
    }
}

fn render(samples: &[Sample]) -> String {
    let lines: Vec<String> = samples.iter().map(line).collect();
    lines.join("\n") + "\n"
}

fn smart_page(critical_warning: u8, kelvin: u16) -> Vec<u8> {
    let mut bytes = vec![0_u8; 512];
    bytes[0] = critical_warning;
    bytes[1..3].copy_from_slice(&kelvin.to_le_bytes());
    bytes[3] = 100;
    bytes[4] = 10;
    bytes[5] = 3;
    bytes[96..112].copy_from_slice(&7_u128.to_le_bytes());
    bytes[112..128].copy_from_slice(&42_u128.to_le_bytes());
    bytes
}

fn identify_page() -> Vec<u8> {
    let mut bytes = vec![0_u8; 4096];
    bytes[4..24].copy_from_slice(b"SERIAL0001          ");
    bytes[24..64].copy_from_slice(b"Example NVMe 1TB                        ");
    bytes[64..72].copy_from_slice(b"FW1.2\0\0\0");
    bytes
}

fn namespace_page(nsze: u64) -> Vec<u8> {
    let mut bytes = vec![0_u8; 4096];
    bytes[0..8].copy_from_slice(&nsze.to_le_bytes());
    bytes[8..16].copy_from_slice(&(nsze - 1).to_le_bytes());
    bytes[16..24].copy_from_slice(&(nsze / 2).to_le_bytes());
    bytes
}

fn error_page() -> Vec<u8> {
    let mut bytes = vec![0_u8; 1024];
    bytes[64..72].copy_from_slice(&9_u64.to_le_bytes());
    bytes
}

fn self_test_page() -> Vec<u8> {
    let mut bytes = vec![0_u8; 564];
    bytes[0] = 1;
    bytes[1] = 25;
    bytes
}

fn controller(name: &str, namespaces: &[(&str, u32)]) -> NvmeController {
    NvmeController {
        name: name.to_string(),
        dev_path: format!("/dev/{}", name),
        model: Some("Sysfs Model".to_string()),
        serial: None,
        firmware: Some(String::new()),
        namespaces: namespaces
            .iter()
            .map(|(name, nsid)| NvmeNamespace { name: name.to_string(), nsid: *nsid })
            .collect(),
    }
}

fn healthy_device(request: AdminRequest) -> Result<Vec<u8>, NvmeError> {
    match request {
        AdminRequest::IdentifyController => Ok(identify_page()),
        AdminRequest::IdentifyNamespace { nsid } => Ok(namespace_page(1000 * nsid as u64)),
        AdminRequest::SmartLog => Ok(smart_page(0, 310)),
        AdminRequest::ErrorLog => Ok(error_page()),
        AdminRequest::SelfTestLog => Ok(self_test_page()),
    }
}

fn failing() -> NvmeError {
    NvmeError::Ioctl {
        device: "/dev/nvme1".to_string(),
        source: std::io::Error::from_raw_os_error(5),
    }
}

fn collect(
    controller: &NvmeController,
    config: &Config,
    device: &dyn Fn(AdminRequest) -> Result<Vec<u8>, NvmeError>,
) -> (Result<DeviceSnapshot, NvmeError>, Vec<AdminRequest>) {
    let mut asked = Vec::new();
    let mut collection = collect_controller(controller, config).expect("timeout fits");
    loop {
        let request = collection.request();
        assert_eq!(collection.command().data_len, request.command(5000).data_len);
        asked.push(request);
        match collection.advance(device(request)) {
            Progress::Pending(next) => collection = next,
            Progress::Done(outcome) => return (outcome, asked),
        }
    }
}

fn scrape(
    collector: &mut NvmeCollector,
    now: u64,
    controllers: &[NvmeController],
    device: &dyn Fn(&str, AdminRequest) -> Result<Vec<u8>, NvmeError>,
) -> ScrapeReport {
    let previous = collector.load_previous_devices();
    let config = collector.config().clone();
    let outcomes: Vec<Collected> = controllers
        .iter()
        .map(|controller| {
            let name = controller.name.clone();
            let (outcome, _) = collect(controller, &config, &|request| device(&name, request));
            Collected { controller: controller.clone(), outcome }
        })
        .collect();
    collector.scrape(now, 420_000_000, &previous, outcomes)
}

#[test]
fn fixture_replay_report_emits_expected_metrics() {
    let identify =
        IdentifyController::parse(&identify_page()).expect("fixture id_ctrl should parse");
    let namespace =
        IdentifyNamespace::parse(&namespace_page(1_953_525_168)).expect("fixture id_ns should parse");
    let smart = SmartLog::parse(&smart_page(0, 310)).expect("fixture smart should parse");
    let error = ErrorLogSummary::parse(&error_page()).expect("fixture error should parse");
    let self_test =
        SelfTestLogSummary::parse(&self_test_page()).expect("fixture selftest should parse");

    let report = ScrapeReport {
        duration_nanos: 420_000_000,
        success: true,
        discovered_device_count: 1,
        devices: vec![DeviceSnapshot {
            device: "nvme0".to_string(),
            model: identify.model.clone(),
            serial: identify.serial.clone(),
            firmware: identify.firmware_revision.clone(),
            accessible: true,
            smart: Some(smart),
            namespaces: vec![NamespaceSnapshot {
                namespace: "nvme0n1".to_string(),
                nsze: namespace.nsze,
                ncap: namespace.ncap,
                nuse: namespace.nuse,
            }],
            error_log: Some(ErrorLogSnapshot {
                non_zero_entries: error.non_zero_entries,
                max_error_count: error.max_error_count,
            }),
            self_test: Some(SelfTestSnapshot {
                current_operation: self_test.current_operation,
                current_completion_percent: self_test.current_completion_percent,
            }),
        }],
        collect_namespace: true,
        collect_error_log: true,
        collect_self_test: true,
    };

    let output = render(&encode_report(&report));

    let expected_info = format!(
        "nvme_info{{device=\"nvme0\",firmware=\"{}\",model=\"{}\",serial=\"{}\"}} 1",
        identify.firmware_revision, identify.model, identify.serial
    );
    assert!(output.contains(&expected_info));
    assert!(output.contains("nvme_device_accessible{device=\"nvme0\"} 1"));
    assert!(output.contains("nvme_namespace_size_sectors{device=\"nvme0\",namespace=\"nvme0n1\"}"));
    assert!(output.contains(&format!(
        "nvme_error_log_non_zero_entries{{device=\"nvme0\"}} {}",
        error.non_zero_entries
    )));
    assert!(output.contains(&format!(
        "nvme_self_test_current_operation{{device=\"nvme0\"}} {}",
        self_test.current_operation
    )));
    assert!(output.contains("nvme_exporter_scrape_success 1"));
}

#[test]
fn stale_device_snapshot_is_marked_inaccessible() {
    let report = ScrapeReport {
        duration_nanos: 110_000_000,
        success: false,
        discovered_device_count: 0,
        devices: vec![DeviceSnapshot {
            device: "nvme9".to_string(),
            model: "stale".to_string(),
            serial: "stale".to_string(),
            firmware: "stale".to_string(),
            accessible: false,
            smart: None,
            namespaces: Vec::new(),
            error_log: None,
            self_test: None,
        }],
        collect_namespace: true,
        collect_error_log: true,
        collect_self_test: true,
    };

    let output = render(&encode_report(&report));

    assert!(output.contains("nvme_device_accessible{device=\"nvme9\"} 0"));
    assert!(output.contains("nvme_exporter_scrape_success 0"));
    assert!(!output.contains("nvme_temperature_celsius{device=\"nvme9\"}"));
}

#[test]
fn a_device_without_smart_log_has_identity_samples_only() {
    let report = ScrapeReport {
        duration_nanos: 1,
        success: false,
        discovered_device_count: 3,
        devices: vec![DeviceSnapshot {
            device: "nvme9".to_string(),
            model: "m".to_string(),
            serial: "s".to_string(),
            firmware: "f".to_string(),
            accessible: false,
            smart: None,
            namespaces: Vec::new(),
            error_log: None,
            self_test: None,
        }],
        collect_namespace: true,
        collect_error_log: true,
        collect_self_test: true,
    };
    let output = render(&encode_report(&report));
    assert_eq!(
        output,
        "nvme_info{device=\"nvme9\",firmware=\"f\",model=\"m\",serial=\"s\"} 1\n\
         nvme_device_accessible{device=\"nvme9\"} 0\n\
         nvme_exporter_scrape_duration_seconds 0.000000001\n\
         nvme_exporter_scrape_success 0\n\
         nvme_exporter_device_count 3\n"
    );
}

#[test]
fn an_empty_report_has_the_scrape_samples() {
    let report = ScrapeReport {
        duration_nanos: 2_500_000_000,
        success: true,
        discovered_device_count: 0,
        devices: Vec::new(),
        collect_namespace: false,
        collect_error_log: false,
        collect_self_test: false,
    };
    let samples = encode_report(&report);
    assert_eq!(
        render(&samples),
        "nvme_exporter_scrape_duration_seconds 2.5\n\
         nvme_exporter_scrape_success 1\n\
         nvme_exporter_device_count 0\n"
    );
    assert_eq!(samples[0].value, MetricValue::Nanoseconds(2_500_000_000));
}

#[test]
fn a_full_device_yields_every_family_in_order() {
    let mut page = smart_page(0b0000_0101, 300);
    page[200..202].copy_from_slice(&301_u16.to_le_bytes());
    page[214..216].copy_from_slice(&308_u16.to_le_bytes());
    page[160..176].copy_from_slice(&2_u128.to_le_bytes());
    page[192..196].copy_from_slice(&11_u32.to_le_bytes());
    page[228..232].copy_from_slice(&12_u32.to_le_bytes());
    let smart = SmartLog::parse(&page).expect("smart log should parse");
    let report = ScrapeReport {
        duration_nanos: 0,
        success: true,
        discovered_device_count: 1,
        devices: vec![DeviceSnapshot {
            device: "nvme0".to_string(),
            model: "m".to_string(),
            serial: "s".to_string(),
            firmware: "f".to_string(),
            accessible: true,
            smart: Some(smart),
            namespaces: vec![
                NamespaceSnapshot { namespace: "nvme0n1".to_string(), nsze: 10, ncap: 9, nuse: 8 },
                NamespaceSnapshot { namespace: "nvme0n2".to_string(), nsze: 7, ncap: 6, nuse: 5 },
            ],
            error_log: Some(ErrorLogSnapshot { non_zero_entries: 1, max_error_count: 9 }),
            self_test: Some(SelfTestSnapshot {
                current_operation: 1,
                current_completion_percent: 25,
            }),
        }],
        collect_namespace: true,
        collect_error_log: true,
        collect_self_test: true,
    };
    let output = render(&encode_report(&report));
    let expected = "\
nvme_info{device=\"nvme0\",firmware=\"f\",model=\"m\",serial=\"s\"} 1
nvme_device_accessible{device=\"nvme0\"} 1
nvme_critical_warning{device=\"nvme0\"} 5
nvme_critical_warning_available_spare{device=\"nvme0\"} 1
nvme_critical_warning_temperature{device=\"nvme0\"} 0
nvme_critical_warning_reliability{device=\"nvme0\"} 1
nvme_critical_warning_read_only{device=\"nvme0\"} 0
nvme_critical_warning_volatile_backup{device=\"nvme0\"} 0
nvme_temperature_celsius{device=\"nvme0\"} 26.85
nvme_temperature_sensor_celsius{device=\"nvme0\",sensor=\"1\"} 27.85
nvme_temperature_sensor_celsius{device=\"nvme0\",sensor=\"8\"} 34.85
nvme_available_spare_ratio{device=\"nvme0\"} 1
nvme_available_spare_threshold_ratio{device=\"nvme0\"} 0.1
nvme_percentage_used_ratio{device=\"nvme0\"} 0.03
nvme_healthy{device=\"nvme0\"} 0
nvme_data_units_read_total{device=\"nvme0\"} 0
nvme_data_units_written_total{device=\"nvme0\"} 0
nvme_host_read_commands_total{device=\"nvme0\"} 0
nvme_host_write_commands_total{device=\"nvme0\"} 0
nvme_controller_busy_time_seconds_total{device=\"nvme0\"} 420
nvme_power_cycles_total{device=\"nvme0\"} 42
nvme_power_on_hours_total{device=\"nvme0\"} 0
nvme_unsafe_shutdowns_total{device=\"nvme0\"} 0
nvme_media_errors_total{device=\"nvme0\"} 2
nvme_error_log_entries_total{device=\"nvme0\"} 0
nvme_warning_temperature_time_minutes_total{device=\"nvme0\"} 11
nvme_critical_temperature_time_minutes_total{device=\"nvme0\"} 0
nvme_thermal_mgmt_t1_transitions_total{device=\"nvme0\"} 0
nvme_thermal_mgmt_t2_transitions_total{device=\"nvme0\"} 0
nvme_thermal_mgmt_t1_time_seconds_total{device=\"nvme0\"} 0
nvme_thermal_mgmt_t2_time_seconds_total{device=\"nvme0\"} 12
nvme_namespace_size_sectors{device=\"nvme0\",namespace=\"nvme0n1\"} 10
nvme_namespace_capacity_sectors{device=\"nvme0\",namespace=\"nvme0n1\"} 9
nvme_namespace_utilization_sectors{device=\"nvme0\",namespace=\"nvme0n1\"} 8
nvme_namespace_size_sectors{device=\"nvme0\",namespace=\"nvme0n2\"} 7
nvme_namespace_capacity_sectors{device=\"nvme0\",namespace=\"nvme0n2\"} 6
nvme_namespace_utilization_sectors{device=\"nvme0\",namespace=\"nvme0n2\"} 5
nvme_error_log_non_zero_entries{device=\"nvme0\"} 1
nvme_error_log_max_error_count{device=\"nvme0\"} 9
nvme_self_test_current_operation{device=\"nvme0\"} 1
nvme_self_test_current_completion_ratio{device=\"nvme0\"} 0.25
nvme_exporter_scrape_duration_seconds 0
nvme_exporter_scrape_success 1
nvme_exporter_device_count 1
";
    assert_eq!(output, expected);
}

#[test]
fn switched_off_collectors_leave_their_families_out() {
    let report = ScrapeReport {
        duration_nanos: 0,
        success: true,
        discovered_device_count: 1,
        devices: vec![DeviceSnapshot {
            device: "nvme0".to_string(),
            model: "m".to_string(),
            serial: "s".to_string(),
            firmware: "f".to_string(),
            accessible: true,
            smart: None,
            namespaces: vec![NamespaceSnapshot {
                namespace: "nvme0n1".to_string(),
                nsze: 10,
                ncap: 9,
                nuse: 8,
            }],
            error_log: Some(ErrorLogSnapshot { non_zero_entries: 1, max_error_count: 9 }),
            self_test: Some(SelfTestSnapshot {
                current_operation: 1,
                current_completion_percent: 25,
            }),
        }],
        collect_namespace: false,
        collect_error_log: false,
        collect_self_test: false,
    };
    let samples = encode_report(&report);
    assert_eq!(samples.len(), 5);
    let only_error_log = ScrapeReport { collect_error_log: true, ..report };
    let output = render(&encode_report(&only_error_log));
    assert!(output.contains("nvme_error_log_max_error_count{device=\"nvme0\"} 9"));
    assert!(!output.contains("nvme_namespace_"));
    assert!(!output.contains("nvme_self_test_"));
}

#[test]
fn families_know_their_kind_and_labels() {
    assert_eq!(MetricFamily::Info.name(), "nvme_info");
    assert_eq!(MetricFamily::Info.label_names(), vec!["device", "model", "serial", "firmware"]);
    assert_eq!(MetricFamily::Info.kind(), MetricKind::Gauge);
    assert_eq!(MetricFamily::TemperatureSensorCelsius.label_names(), vec!["device", "sensor"]);
    assert_eq!(MetricFamily::NamespaceUtilizationSectors.label_names(), vec!["device", "namespace"]);
    assert_eq!(MetricFamily::Healthy.label_names(), vec!["device"]);
    assert!(MetricFamily::ScrapeSuccess.label_names().is_empty());
    assert!(MetricFamily::DeviceCount.label_names().is_empty());
    assert_eq!(MetricFamily::ScrapeDurationSeconds.name(), "nvme_exporter_scrape_duration_seconds");
    assert_eq!(MetricFamily::DataUnitsReadTotal.kind(), MetricKind::Counter);
    assert_eq!(MetricFamily::ThermalMgmtT2TimeSecondsTotal.kind(), MetricKind::Counter);
    assert_eq!(MetricFamily::ControllerBusyTimeSecondsTotal.kind(), MetricKind::Counter);
    assert_eq!(MetricFamily::DeviceAccessible.kind(), MetricKind::Gauge);
    assert_eq!(MetricFamily::NamespaceSizeSectors.kind(), MetricKind::Gauge);
    assert_eq!(MetricFamily::ErrorLogMaxErrorCount.kind(), MetricKind::Gauge);
}

#[test]
fn scenario_healthy_single_device() {
    let mut collector = NvmeCollector::new(Config::default());
    let controllers = vec![controller("nvme0", &[("nvme0n1", 1)])];
    let report = scrape(&mut collector, 0, &controllers, &|_, request| healthy_device(request));
    assert!(report.success);
    assert_eq!(report.discovered_device_count, 1);
    let output = render(&encode_report(&report));
    assert!(output.contains("nvme_healthy{device=\"nvme0\"} 1\n"));
    assert!(output.contains("nvme_exporter_scrape_success 1\n"));
    assert!(output.contains("nvme_namespace_size_sectors{device=\"nvme0\",namespace=\"nvme0n1\"} 1000\n"));
    assert!(output.contains("nvme_temperature_celsius{device=\"nvme0\"} 36.85\n"));
    assert!(output.contains("nvme_device_accessible{device=\"nvme0\"} 1\n"));
    assert!(output.contains(
        "nvme_info{device=\"nvme0\",firmware=\"FW1.2\",model=\"Example NVMe 1TB\",serial=\"SERIAL0001\"} 1\n"
    ));
    assert!(output.contains("nvme_exporter_device_count 1\n"));
    assert!(output.contains("nvme_exporter_scrape_duration_seconds 0.42\n"));
}

#[test]
fn scenario_all_critical_warning_bits_set() {
    let mut collector = NvmeCollector::new(Config::default());
    let controllers = vec![controller("nvme0", &[])];
    let report = scrape(&mut collector, 0, &controllers, &|_, request| match request {
        AdminRequest::SmartLog => Ok(smart_page(0b0001_1111, 310)),
        other => healthy_device(other),
    });
    let output = render(&encode_report(&report));
    assert!(output.contains("nvme_critical_warning_available_spare{device=\"nvme0\"} 1\n"));
    assert!(output.contains("nvme_critical_warning_temperature{device=\"nvme0\"} 1\n"));
    assert!(output.contains("nvme_critical_warning_reliability{device=\"nvme0\"} 1\n"));
    assert!(output.contains("nvme_critical_warning_read_only{device=\"nvme0\"} 1\n"));
    assert!(output.contains("nvme_critical_warning_volatile_backup{device=\"nvme0\"} 1\n"));
    assert!(output.contains("nvme_critical_warning{device=\"nvme0\"} 31\n"));
    assert!(output.contains("nvme_healthy{device=\"nvme0\"} 0\n"));
}

#[test]
fn scenario_stale_device_within_and_beyond_grace() {
    let config = Config::default();
    let interval = config.discovery_interval;
    let grace = config.stale_device_grace;
    let mut collector = NvmeCollector::new(config);
    let controllers = vec![controller("nvme0", &[("nvme0n1", 1)])];
    let first = scrape(&mut collector, 0, &controllers, &|_, request| healthy_device(request));
    assert!(render(&encode_report(&first)).contains("nvme_device_accessible{device=\"nvme0\"} 1\n"));

    let second = scrape(&mut collector, (interval + 1) * SECOND, &[], &|_, request| {
        healthy_device(request)
    });
    let output = render(&encode_report(&second));
    assert!(output.contains("nvme_device_accessible{device=\"nvme0\"} 0\n"));
    assert!(output.contains("nvme_exporter_scrape_success 1\n"));
    assert!(output.contains("nvme_exporter_device_count 0\n"));
    assert!(output.contains("nvme_healthy{device=\"nvme0\"} 1\n"));

    let at_the_edge = scrape(&mut collector, grace * SECOND, &[], &|_, request| {
        healthy_device(request)
    });
    assert!(render(&encode_report(&at_the_edge))
        .contains("nvme_device_accessible{device=\"nvme0\"} 0\n"));

    let third = scrape(&mut collector, grace * SECOND + 1, &[], &|_, request| {
        healthy_device(request)
    });
    let output = render(&encode_report(&third));
    assert!(!output.contains("nvme0"));
    assert!(output.contains("nvme_exporter_scrape_success 1\n"));
    assert!(third.devices.is_empty());
    assert!(collector.load_previous_devices().is_empty());
}

#[test]
fn scenario_smart_read_fails_mid_scrape() {
    let mut collector = NvmeCollector::new(Config::default());
    let controllers = vec![controller("nvme0", &[]), controller("nvme1", &[("nvme1n1", 1)])];
    let report = scrape(&mut collector, 0, &controllers, &|name, request| {
        if name == "nvme1" && request == AdminRequest::SmartLog {
            Err(failing())
        } else {
            healthy_device(request)
        }
    });
    assert!(!report.success);
    assert_eq!(report.discovered_device_count, 2);
    let output = render(&encode_report(&report));
    assert!(output.contains("nvme_device_accessible{device=\"nvme0\"} 1\n"));
    assert!(output.contains("nvme_device_accessible{device=\"nvme1\"} 0\n"));
    assert!(output.contains("nvme_exporter_scrape_success 0\n"));
    assert!(output.contains(
        "nvme_info{device=\"nvme1\",firmware=\"\",model=\"Sysfs Model\",serial=\"unknown\"} 1\n"
    ));
    assert!(!output.contains("nvme_healthy{device=\"nvme1\"}"));
    assert!(output.contains("nvme_healthy{device=\"nvme0\"} 1\n"));
}

#[test]
fn scenario_failed_device_falls_back_to_its_last_snapshot() {
    let mut collector = NvmeCollector::new(Config::default());
    let controllers = vec![controller("nvme1", &[("nvme1n1", 1)])];
    let first = scrape(&mut collector, 0, &controllers, &|_, request| healthy_device(request));
    assert!(first.success);
    let second = scrape(&mut collector, SECOND, &controllers, &|_, request| match request {
        AdminRequest::SmartLog => Ok(vec![0_u8; 511]),
        other => healthy_device(other),
    });
    assert!(!second.success);
    let output = render(&encode_report(&second));
    assert!(output.contains("nvme_device_accessible{device=\"nvme1\"} 0\n"));
    assert!(output.contains("nvme_healthy{device=\"nvme1\"} 1\n"));
    assert!(output.contains(
        "nvme_info{device=\"nvme1\",firmware=\"FW1.2\",model=\"Example NVMe 1TB\",serial=\"SERIAL0001\"} 1\n"
    ));
    assert!(output.contains("nvme_namespace_size_sectors{device=\"nvme1\",namespace=\"nvme1n1\"} 1000\n"));
    let third = scrape(&mut collector, 2 * SECOND, &controllers, &|_, request| {
        healthy_device(request)
    });
    assert!(third.success);
    assert!(render(&encode_report(&third)).contains("nvme_device_accessible{device=\"nvme1\"} 1\n"));
}

#[test]
fn scenario_zero_composite_temperature() {
    let mut collector = NvmeCollector::new(Config::default());
    let controllers = vec![controller("nvme0", &[])];
    let report = scrape(&mut collector, 0, &controllers, &|_, request| match request {
        AdminRequest::SmartLog => Ok(smart_page(0, 0)),
        other => healthy_device(other),
    });
    let output = render(&encode_report(&report));
    assert!(!output.contains("nvme_temperature_celsius{device=\"nvme0\"}"));
    assert!(!output.contains("nvme_temperature_sensor_celsius"));
    assert!(output.contains("nvme_healthy{device=\"nvme0\"} 1\n"));
}

#[test]
fn snapshots_are_reported_in_order_of_their_names() {
    let mut collector = NvmeCollector::new(Config::default());
    let controllers = vec![
        controller("nvme2", &[]),
        controller("nvme10", &[]),
        controller("nvme0", &[]),
        controller("nvme10", &[]),
    ];
    let report = scrape(&mut collector, 0, &controllers, &|_, request| healthy_device(request));
    let names: Vec<&str> = report.devices.iter().map(|device| device.device.as_str()).collect();
    assert_eq!(names, vec!["nvme0", "nvme10", "nvme2"]);
    assert_eq!(report.discovered_device_count, 4);
}

#[test]
fn a_collection_asks_for_what_is_switched_on() {
    let subject = controller("nvme0", &[("nvme0n1", 1), ("nvme0n2", 2)]);
    let (outcome, asked) = collect(&subject, &Config::default(), &healthy_device);
    assert_eq!(
        asked,
        vec![
            AdminRequest::IdentifyController,
            AdminRequest::SmartLog,
            AdminRequest::IdentifyNamespace { nsid: 1 },
            AdminRequest::IdentifyNamespace { nsid: 2 },
            AdminRequest::ErrorLog,
            AdminRequest::SelfTestLog,
        ]
    );
    let snapshot = outcome.expect("every read succeeds");
    assert!(snapshot.accessible);
    assert_eq!(snapshot.device, "nvme0");
    assert_eq!(snapshot.namespaces.len(), 2);
    assert_eq!(snapshot.namespaces[1].namespace, "nvme0n2");
    assert_eq!(snapshot.namespaces[1].nsze, 2000);
    assert_eq!(snapshot.namespaces[1].ncap, 1999);
    assert_eq!(snapshot.namespaces[1].nuse, 1000);
    let error_log = snapshot.error_log.expect("error log was read");
    assert_eq!((error_log.non_zero_entries, error_log.max_error_count), (1, 9));
    let self_test = snapshot.self_test.expect("self-test log was read");
    assert_eq!((self_test.current_operation, self_test.current_completion_percent), (1, 25));

    let mut quiet = Config::default();
    quiet.collect_namespace = false;
    quiet.collect_error_log = false;
    quiet.collect_self_test = false;
    let (outcome, asked) = collect(&subject, &quiet, &healthy_device);
    assert_eq!(asked, vec![AdminRequest::IdentifyController, AdminRequest::SmartLog]);
    let snapshot = outcome.expect("every read succeeds");
    assert!(snapshot.namespaces.is_empty());
    assert!(snapshot.error_log.is_none());
    assert!(snapshot.self_test.is_none());

    let mut only_self_test = Config::default();
    only_self_test.collect_namespace = false;
    only_self_test.collect_error_log = false;
    let (_, asked) = collect(&subject, &only_self_test, &healthy_device);
    assert_eq!(
        asked,
        vec![AdminRequest::IdentifyController, AdminRequest::SmartLog, AdminRequest::SelfTestLog]
    );
}

#[test]
fn a_failed_smart_read_ends_the_collection() {
    let subject = controller("nvme1", &[("nvme1n1", 1)]);
    let (outcome, asked) = collect(&subject, &Config::default(), &|request| match request {
        AdminRequest::SmartLog => Err(failing()),
        other => healthy_device(other),
    });
    assert_eq!(asked, vec![AdminRequest::IdentifyController, AdminRequest::SmartLog]);
    match outcome {
        Err(NvmeError::Ioctl { device, source }) => {
            assert_eq!(device, "/dev/nvme1");
            assert_eq!(source.raw_os_error(), Some(5));
        }
        other => panic!("expected the ioctl error, got {:?}", other),
    }
    let (outcome, _) = collect(&subject, &Config::default(), &|request| match request {
        AdminRequest::SmartLog => Ok(vec![0_u8; 513]),
        other => healthy_device(other),
    });
    assert!(matches!(outcome, Err(NvmeError::UnexpectedSize { expected: 512, actual: 513 })));
}

#[test]
fn other_failed_reads_are_tolerated() {
    let subject = controller("nvme0", &[("nvme0n1", 1), ("nvme0n2", 2), ("nvme0n3", 3)]);
    let (outcome, asked) = collect(&subject, &Config::default(), &|request| match request {
        AdminRequest::SmartLog => healthy_device(request),
        AdminRequest::IdentifyNamespace { nsid: 1 } => healthy_device(request),
        AdminRequest::IdentifyNamespace { nsid: 2 } => Ok(vec![0_u8; 10]),
        AdminRequest::ErrorLog => Ok(vec![0_u8; 100]),
        _ => Err(failing()),
    });
    assert_eq!(asked.len(), 7);
    let snapshot = outcome.expect("only the SMART read is fatal");
    assert_eq!(snapshot.model, "Sysfs Model");
    assert_eq!(snapshot.serial, "unknown");
    assert_eq!(snapshot.firmware, "unknown");
    assert!(snapshot.smart.is_some());
    let listed: Vec<&str> =
        snapshot.namespaces.iter().map(|namespace| namespace.namespace.as_str()).collect();
    assert_eq!(listed, vec!["nvme0n1"]);
    assert!(snapshot.error_log.is_none());
    assert!(snapshot.self_test.is_none());
}

#[test]
fn labels_take_the_first_text_that_is_not_empty() {
    let mut subject = controller("nvme0", &[]);
    subject.model = Some("Sysfs Model".to_string());
    subject.serial = Some("Sysfs Serial".to_string());
    subject.firmware = None;
    let mut page = vec![0_u8; 4096];
    page[4..24].copy_from_slice(b"                    ");
    page[24..64].copy_from_slice(b"Identify Model                          ");
    let (outcome, _) = collect(&subject, &Config::default(), &|request| match request {
        AdminRequest::IdentifyController => Ok(page.clone()),
        other => healthy_device(other),
    });
    let snapshot = outcome.expect("every read succeeds");
    assert_eq!(snapshot.model, "Identify Model");
    assert_eq!(snapshot.serial, "Sysfs Serial");
    assert_eq!(snapshot.firmware, "unknown");
}

#[test]
fn a_timeout_that_does_not_fit_fails_the_collection() {
    let mut config = Config::default();
    config.ioctl_timeout = 1 << 32;
    let subject = controller("nvme0", &[]);
    assert!(matches!(collect_controller(&subject, &config), Err(NvmeError::Parse(_))));
    config.ioctl_timeout = 77;
    let collection = collect_controller(&subject, &config).expect("timeout fits");
    assert_eq!(collection.command().timeout_ms, 77);
}
