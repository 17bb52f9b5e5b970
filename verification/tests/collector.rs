use nvme_exporter::collector::CachedDevice;
use nvme_exporter::collector::Collected;
use nvme_exporter::collector::NvmeCollector;
use nvme_exporter::config::Config;
use nvme_exporter::nvme::discovery::NvmeController;
use nvme_exporter::nvme::error::NvmeError;
use nvme_exporter::metrics::DeviceSnapshot;

const SECOND: u64 = 1_000_000_000;

fn controller(name: &str) -> NvmeController {
    NvmeController {
        name: name.to_string(),
        dev_path: format!("/dev/{}", name),
        model: Some(format!("model of {}", name)),
        serial: None,
        firmware: Some(String::new()),
        namespaces: Vec::new(),
    }
}

fn snapshot(name: &str, model: &str) -> DeviceSnapshot {
    DeviceSnapshot {
        device: name.to_string(),
        model: model.to_string(),
        serial: "serial".to_string(),
        firmware: "firmware".to_string(),
        accessible: true,
        smart: None,
        namespaces: Vec::new(),
        error_log: None,
        self_test: None,
    }
}

fn names(owned: &[&str]) -> Vec<String> {
    owned.iter().map(|name| name.to_string()).collect()
}

fn listed(snapshots: &[DeviceSnapshot]) -> Vec<(&str, &str, bool)> {
    snapshots
        .iter()
        .map(|snapshot| (snapshot.device.as_str(), snapshot.model.as_str(), snapshot.accessible))
        .collect()
}

fn collector(grace: u64) -> NvmeCollector {
    let mut config = Config::default();
    config.stale_device_grace = grace;
    config.discovery_interval = 30;
    NvmeCollector::new(config)
}

#[test]
fn a_new_collector_remembers_nothing() {
    let collector = NvmeCollector::new(Config::default());
    assert!(collector.cached_controllers(0).is_none());
    assert!(collector.load_previous_devices().is_empty());
    assert_eq!(collector.config().devices, "/dev/nvme*");
}

#[test]
fn a_discovery_is_good_for_the_discovery_interval() {
    let mut collector = collector(300);
    let found = vec![controller("nvme0"), controller("nvme1")];
    collector.cache_controllers(5 * SECOND, &found);
    let cached = collector.cached_controllers(5 * SECOND).expect("still good");
    assert_eq!(cached.len(), 2);
    assert_eq!(cached[1].name, "nvme1");
    assert_eq!(cached[1].model.as_deref(), Some("model of nvme1"));
    assert!(collector.cached_controllers(35 * SECOND - 1).is_some());
    assert!(collector.cached_controllers(35 * SECOND).is_none());
    assert!(collector.cached_controllers(u64::MAX).is_none());
    assert!(collector.cached_controllers(0).is_some());
}

#[test]
fn an_empty_discovery_is_remembered_too() {
    let mut collector = collector(300);
    collector.cache_controllers(0, &Vec::new());
    let cached = collector.cached_controllers(29 * SECOND).expect("still good");
    assert!(cached.is_empty());
    assert!(collector.cached_controllers(30 * SECOND).is_none());
}

#[test]
fn a_late_discovery_never_expires_early() {
    let mut config = Config::default();
    config.discovery_interval = u64::MAX;
    let mut collector = NvmeCollector::new(config);
    collector.cache_controllers(u64::MAX, &vec![controller("nvme0")]);
    assert!(collector.cached_controllers(u64::MAX).is_some());
}

#[test]
fn merging_overwrites_marks_and_sorts() {
    let mut collector = collector(300);
    let first = collector.merge_device_state(
        0,
        &names(&["nvme1", "nvme0"]),
        vec![snapshot("nvme1", "a"), snapshot("nvme0", "b")],
    );
    assert_eq!(listed(&first), vec![("nvme0", "b", true), ("nvme1", "a", true)]);

    let second = collector.merge_device_state(
        SECOND,
        &names(&["nvme1", "nvme2"]),
        vec![snapshot("nvme2", "c"), snapshot("nvme1", "d"), snapshot("nvme1", "e")],
    );
    assert_eq!(
        listed(&second),
        vec![("nvme0", "b", false), ("nvme1", "e", true), ("nvme2", "c", true)]
    );
    let remembered = collector.load_previous_devices();
    let seen: Vec<(&str, u64, bool)> = remembered
        .iter()
        .map(|entry| (entry.snapshot.device.as_str(), entry.last_seen, entry.snapshot.accessible))
        .collect();
    assert_eq!(
        seen,
        vec![("nvme0", 0, false), ("nvme1", SECOND, true), ("nvme2", SECOND, true)]
    );
}

#[test]
fn a_collected_device_that_was_not_discovered_is_marked() {
    let mut collector = collector(300);
    let merged = collector.merge_device_state(7, &names(&[]), vec![snapshot("nvme3", "x")]);
    assert_eq!(listed(&merged), vec![("nvme3", "x", false)]);
}

#[test]
fn a_device_is_dropped_once_it_is_gone_for_longer_than_the_grace() {
    let mut collector = collector(10);
    let _ = collector.merge_device_state(
        5 * SECOND,
        &names(&["nvme0", "nvme1"]),
        vec![snapshot("nvme0", "a"), snapshot("nvme1", "b")],
    );
    let within =
        collector.merge_device_state(15 * SECOND, &names(&["nvme1"]), vec![snapshot("nvme1", "b")]);
    assert_eq!(listed(&within), vec![("nvme0", "a", false), ("nvme1", "b", true)]);
    let beyond = collector.merge_device_state(15 * SECOND + 1, &names(&["nvme1"]), Vec::new());
    assert_eq!(listed(&beyond), vec![("nvme1", "b", true)]);
    let kept_by_discovery =
        collector.merge_device_state(1000 * SECOND, &names(&["nvme1"]), Vec::new());
    assert_eq!(listed(&kept_by_discovery), vec![("nvme1", "b", true)]);
    let gone = collector.merge_device_state(1000 * SECOND, &names(&[]), Vec::new());
    assert!(gone.is_empty());
}

#[test]
fn a_clock_that_runs_backwards_drops_nothing() {
    let mut collector = collector(1);
    let _ = collector.merge_device_state(
        100 * SECOND,
        &names(&["nvme0"]),
        vec![snapshot("nvme0", "a")],
    );
    let earlier = collector.merge_device_state(0, &names(&[]), Vec::new());
    assert_eq!(listed(&earlier), vec![("nvme0", "a", false)]);
}

#[test]
fn the_longest_grace_does_not_overflow() {
    let mut collector = collector(u64::MAX);
    let _ = collector.merge_device_state(0, &names(&["nvme0"]), vec![snapshot("nvme0", "a")]);
    let later = collector.merge_device_state(u64::MAX, &names(&[]), Vec::new());
    assert_eq!(listed(&later), vec![("nvme0", "a", false)]);
}

#[test]
fn minimal_snapshots_use_what_discovery_knows() {
    let minimal = NvmeCollector::minimal_snapshot(&controller("nvme4"), false);
    assert_eq!(minimal.device, "nvme4");
    assert_eq!(minimal.model, "model of nvme4");
    assert_eq!(minimal.serial, "unknown");
    assert_eq!(minimal.firmware, "");
    assert!(!minimal.accessible);
    assert!(minimal.smart.is_none());
    assert!(minimal.namespaces.is_empty());
    assert!(minimal.error_log.is_none());
    assert!(minimal.self_test.is_none());
    assert!(NvmeCollector::minimal_snapshot(&controller("nvme4"), true).accessible);
}

#[test]
fn fallbacks_prefer_the_remembered_snapshot() {
    let previous = vec![
        CachedDevice { snapshot: snapshot("nvme0", "zero"), last_seen: 1 },
        CachedDevice { snapshot: snapshot("nvme1", "one"), last_seen: 2 },
        CachedDevice { snapshot: snapshot("nvme1", "other"), last_seen: 3 },
    ];
    let remembered = NvmeCollector::fallback_snapshot(&previous, &controller("nvme1"));
    assert_eq!((remembered.model.as_str(), remembered.accessible), ("one", false));
    let unknown = NvmeCollector::fallback_snapshot(&previous, &controller("nvme2"));
    assert_eq!((unknown.model.as_str(), unknown.accessible), ("model of nvme2", false));
    assert_eq!(unknown.serial, "unknown");
}

#[test]
fn a_scrape_reports_success_only_if_every_collection_succeeded() {
    let mut collector = collector(300);
    let previous = collector.load_previous_devices();
    let report = collector.scrape(
        0,
        123,
        &previous,
        vec![
            Collected { controller: controller("nvme1"), outcome: Ok(snapshot("nvme1", "one")) },
            Collected { controller: controller("nvme0"), outcome: Err(NvmeError::NoReadableDevices) },
        ],
    );
    assert!(!report.success);
    assert_eq!(report.duration_nanos, 123);
    assert_eq!(report.discovered_device_count, 2);
    assert!(report.collect_namespace && report.collect_error_log && report.collect_self_test);
    assert_eq!(
        listed(&report.devices),
        vec![("nvme0", "model of nvme0", false), ("nvme1", "one", true)]
    );

    let previous = collector.load_previous_devices();
    let report = collector.scrape(
        SECOND,
        5,
        &previous,
        vec![Collected { controller: controller("nvme0"), outcome: Ok(snapshot("nvme0", "zero")) }],
    );
    assert!(report.success);
    assert_eq!(
        listed(&report.devices),
        vec![("nvme0", "zero", true), ("nvme1", "one", false)]
    );

    let previous = collector.load_previous_devices();
    let empty = collector.scrape(2 * SECOND, 5, &previous, Vec::new());
    assert!(empty.success);
    assert_eq!(empty.discovered_device_count, 0);
    assert_eq!(listed(&empty.devices), vec![("nvme0", "zero", false), ("nvme1", "one", false)]);
}

#[test]
fn a_scrape_replays_the_switches_of_its_settings() {
    let mut config = Config::default();
    config.collect_namespace = false;
    config.collect_self_test = false;
    let mut collector = NvmeCollector::new(config);
    let report = collector.scrape(0, 0, &Vec::new(), Vec::new());
    assert!(!report.collect_namespace);
    assert!(report.collect_error_log);
    assert!(!report.collect_self_test);
}

#[test]
fn start_up_needs_a_controller() {
    let collector = NvmeCollector::new(Config::default());
    assert!(matches!(
        collector.startup_timeout(&Vec::new()),
        Err(NvmeError::NoReadableDevices)
    ));
    assert_eq!(collector.startup_timeout(&vec![controller("nvme0")]).expect("fits"), 5000);
    let mut config = Config::default();
    config.ioctl_timeout = u64::MAX;
    let collector = NvmeCollector::new(config);
    assert!(matches!(
        collector.startup_timeout(&vec![controller("nvme0")]),
        Err(NvmeError::Parse(_))
    ));
    assert!(matches!(
        collector.startup_timeout(&Vec::new()),
        Err(NvmeError::NoReadableDevices)
    ));
}

#[test]
fn start_up_needs_a_readable_controller() {
    assert!(matches!(
        NvmeCollector::validate_startup_devices(&Vec::new()),
        Err(NvmeError::NoReadableDevices)
    ));
    let unreadable = vec![
        Err(NvmeError::PermissionDenied { device: "/dev/nvme0".to_string() }),
        Ok(vec![0_u8; 511]),
        Ok(Vec::new()),
    ];
    assert!(matches!(
        NvmeCollector::validate_startup_devices(&unreadable),
        Err(NvmeError::NoReadableDevices)
    ));
    let one_readable = vec![
        Err(NvmeError::PermissionDenied { device: "/dev/nvme0".to_string() }),
        Ok(vec![0_u8; 512]),
    ];
    assert!(NvmeCollector::validate_startup_devices(&one_readable).is_ok());
}
