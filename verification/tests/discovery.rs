use nvme_exporter::nvme::discovery::accepts_controller;
use nvme_exporter::nvme::discovery::compile_device_pattern;
use nvme_exporter::nvme::discovery::discover_controllers;
use nvme_exporter::nvme::discovery::discover_from_devfs;
use nvme_exporter::nvme::discovery::discover_from_sysfs;
use nvme_exporter::nvme::discovery::discover_namespaces;
use nvme_exporter::nvme::discovery::is_controller_name;
use nvme_exporter::nvme::discovery::parse_namespace_name;
use nvme_exporter::nvme::discovery::read_attr;
use nvme_exporter::nvme::discovery::DevfsEntry;
use nvme_exporter::nvme::discovery::NvmeController;
use nvme_exporter::nvme::discovery::SysfsEntry;
use nvme_exporter::nvme::error::NvmeError;
use nvme_exporter::ordered::name_before;
use nvme_exporter::ordered::sort_by_name;
use nvme_exporter::ordered::upsert_by_name;

fn entry(name: &str, children: &[&str]) -> SysfsEntry {
    SysfsEntry {
        name: name.to_string(),
        model: Some(format!(" Model of {} \n", name)),
        serial: Some("\n".to_string()),
        firmware_rev: None,
        children: children.iter().map(|child| child.to_string()).collect(),
    }
}

fn node(path: &str, file_name: Option<&str>) -> DevfsEntry {
    DevfsEntry { path: path.to_string(), file_name: file_name.map(|name| name.to_string()) }
}

fn names(controllers: &[NvmeController]) -> Vec<&str> {
    controllers.iter().map(|controller| controller.name.as_str()).collect()
}

#[test]
fn parses_namespace_ids() {
    assert_eq!(parse_namespace_name("nvme0", "nvme0n1"), Some(1));
    assert_eq!(parse_namespace_name("nvme12", "nvme12n25"), Some(25));
}

#[test]
fn rejects_invalid_namespace_names() {
    assert_eq!(parse_namespace_name("nvme0", "nvme1n1"), None);
    assert_eq!(parse_namespace_name("nvme0", "nvme0"), None);
    assert_eq!(parse_namespace_name("nvme0", "nvme0np1"), None);
}

#[test]
fn matches_controller_names_only() {
    assert!(is_controller_name("nvme0"));
    assert!(is_controller_name("nvme24"));
    assert!(!is_controller_name("nvme0n1"));
    assert!(!is_controller_name("sda"));
}

#[test]
fn controller_names_are_nvme_and_digits() {
    assert!(is_controller_name("nvme0123456789"));
    assert!(is_controller_name("nvme00"));
    assert!(!is_controller_name(""));
    assert!(!is_controller_name("nvme"));
    assert!(!is_controller_name("nvm0"));
    assert!(!is_controller_name("NVME0"));
    assert!(!is_controller_name("nvme0 "));
    assert!(!is_controller_name(" nvme0"));
    assert!(!is_controller_name("nvme-1"));
    assert!(!is_controller_name("nvme1a"));
    assert!(!is_controller_name("nvme\u{0661}"));
    assert!(!is_controller_name("xnvme0"));
}

#[test]
fn namespace_ids_take_the_leading_digits() {
    assert_eq!(parse_namespace_name("nvme0", "nvme0n1p1"), Some(1));
    assert_eq!(parse_namespace_name("nvme0", "nvme0n12abc3"), Some(12));
    assert_eq!(parse_namespace_name("nvme0", "nvme0n007"), Some(7));
    assert_eq!(parse_namespace_name("nvme0", "nvme0n0"), Some(0));
    assert_eq!(parse_namespace_name("nvme0", "nvme0n"), None);
    assert_eq!(parse_namespace_name("nvme0", "nvme0n-1"), None);
    assert_eq!(parse_namespace_name("nvme0", "nvme0n+1"), None);
    assert_eq!(parse_namespace_name("nvme0", "nvme0N1"), None);
    assert_eq!(parse_namespace_name("nvme0", "nvme00n1"), None);
    assert_eq!(parse_namespace_name("nvme0", "xnvme0n1"), None);
    assert_eq!(parse_namespace_name("nvme0", ""), None);
    assert_eq!(parse_namespace_name("", "n5"), Some(5));
    assert_eq!(parse_namespace_name("nvm\u{e9}0", "nvm\u{e9}0n3\u{e9}"), Some(3));
}

#[test]
fn namespace_ids_must_fit_32_bits() {
    assert_eq!(parse_namespace_name("nvme0", "nvme0n4294967295"), Some(u32::MAX));
    assert_eq!(parse_namespace_name("nvme0", "nvme0n4294967296"), None);
    assert_eq!(parse_namespace_name("nvme0", "nvme0n04294967295"), Some(u32::MAX));
    assert_eq!(parse_namespace_name("nvme0", "nvme0n99999999999999999999999999"), None);
    assert_eq!(parse_namespace_name("nvme0", "nvme0n4294967296p1"), None);
}

#[test]
fn attributes_are_trimmed_and_empty_ones_are_absent() {
    assert_eq!(read_attr(&Some("Samsung SSD 980\n".to_string())), Some("Samsung SSD 980".to_string()));
    assert_eq!(read_attr(&Some("  a b  ".to_string())), Some("a b".to_string()));
    assert_eq!(read_attr(&Some(" \t\n".to_string())), None);
    assert_eq!(read_attr(&Some(String::new())), None);
    assert_eq!(read_attr(&None), None);
}

#[test]
fn names_are_ordered_as_strings_are() {
    let samples = ["", "a", "ab", "b", "nvme0", "nvme1", "nvme10", "nvme2", "nvm\u{e9}", "~"];
    for left in samples {
        for right in samples {
            assert_eq!(name_before(left, right), left < right, "{:?} {:?}", left, right);
        }
    }
}

#[test]
fn namespaces_are_found_in_listing_order() {
    let children: Vec<String> = ["power", "nvme0n2", "nvme1n1", "nvme0n1", "nvme0n10", "nvme0c0n1"]
        .iter()
        .map(|child| child.to_string())
        .collect();
    let found = discover_namespaces("nvme0", &children);
    let listed: Vec<(&str, u32)> =
        found.iter().map(|namespace| (namespace.name.as_str(), namespace.nsid)).collect();
    assert_eq!(listed, vec![("nvme0n2", 2), ("nvme0n1", 1), ("nvme0n10", 10)]);
}

#[test]
fn sysfs_controllers_carry_attributes_and_sorted_namespaces() {
    let pattern = compile_device_pattern("/dev/nvme*").expect("valid pattern");
    let entries = vec![
        entry("nvme1", &["nvme1n2", "nvme1n10", "nvme1n1", "device"]),
        entry("nvme0n1", &[]),
        entry("nvme-fabrics", &[]),
        entry("nvme0", &[]),
    ];
    let controllers = discover_from_sysfs(&pattern, &entries);
    assert_eq!(names(&controllers), vec!["nvme1", "nvme0"]);
    let first = &controllers[0];
    assert_eq!(first.dev_path, "/dev/nvme1");
    assert_eq!(first.model.as_deref(), Some("Model of nvme1"));
    assert_eq!(first.serial, None);
    assert_eq!(first.firmware, None);
    let listed: Vec<(&str, u32)> =
        first.namespaces.iter().map(|namespace| (namespace.name.as_str(), namespace.nsid)).collect();
    assert_eq!(listed, vec![("nvme1n1", 1), ("nvme1n10", 10), ("nvme1n2", 2)]);
    assert!(controllers[1].namespaces.is_empty());
}

#[test]
fn the_device_pattern_filters_controllers() {
    let pattern = compile_device_pattern("/dev/nvme[13]").expect("valid pattern");
    assert!(accepts_controller(&pattern, "nvme1"));
    assert!(accepts_controller(&pattern, "nvme3"));
    assert!(!accepts_controller(&pattern, "nvme0"));
    assert!(!accepts_controller(&pattern, "nvme13"));
    assert!(!accepts_controller(&pattern, "nvme1n1"));
    let every = compile_device_pattern("*").expect("valid pattern");
    assert!(accepts_controller(&every, "nvme0"));
    assert!(!accepts_controller(&every, "sda"));
    let exact = compile_device_pattern("nvme0").expect("valid pattern");
    assert!(!accepts_controller(&exact, "nvme0"));
}

#[test]
fn devfs_controllers_are_sorted_and_named_once() {
    let pattern = compile_device_pattern("/dev/*").expect("valid pattern");
    let entries = vec![
        node("/dev/nvme2", Some("nvme2")),
        node("/dev/nvme0n1", Some("nvme0n1")),
        node("/dev/nvme10", Some("nvme10")),
        node("/dev/nvme0", Some("nvme0")),
        node("/dev/..", None),
        node("/dev/other/nvme2", Some("nvme2")),
        node("/tmp/nvme7", Some("nvme7")),
    ];
    let controllers = discover_from_devfs(&pattern, &entries);
    assert_eq!(names(&controllers), vec!["nvme0", "nvme10", "nvme2"]);
    assert_eq!(controllers[2].dev_path, "/dev/other/nvme2");
    for controller in &controllers {
        assert_eq!(controller.model, None);
        assert_eq!(controller.serial, None);
        assert_eq!(controller.firmware, None);
        assert!(controller.namespaces.is_empty());
    }
}

#[test]
fn discovery_prefers_sysfs_and_sorts_by_name() {
    let sysfs = vec![entry("nvme10", &[]), entry("nvme2", &[]), entry("nvme0", &["nvme0n1"])];
    let devfs = vec![node("/dev/nvme5", Some("nvme5"))];
    let controllers = discover_controllers("/dev/nvme*", &sysfs, &devfs).expect("valid pattern");
    assert_eq!(names(&controllers), vec!["nvme0", "nvme10", "nvme2"]);
    assert_eq!(controllers[0].namespaces.len(), 1);
}

#[test]
fn discovery_falls_back_to_device_nodes() {
    let sysfs = vec![entry("nvme0n1", &[]), entry("nvme7", &[])];
    let devfs = vec![node("/dev/nvme5", Some("nvme5")), node("/dev/nvme4", Some("nvme4"))];
    let controllers = discover_controllers("/dev/nvme[45]", &sysfs, &devfs).expect("valid pattern");
    assert_eq!(names(&controllers), vec!["nvme4", "nvme5"]);
    let none = discover_controllers("/dev/sd*", &sysfs, &devfs).expect("valid pattern");
    assert!(none.is_empty());
}

#[test]
fn an_invalid_device_pattern_is_a_parse_error() {
    for pattern in ["/dev/nvme[", "a**b", "/dev/***"] {
        match compile_device_pattern(pattern) {
            Err(NvmeError::Parse(message)) => {
                assert!(message.starts_with("invalid device pattern: Pattern syntax error"))
            }
            other => panic!("expected a parse error, got {:?}", other),
        }
        assert!(matches!(
            discover_controllers(pattern, &Vec::new(), &Vec::new()),
            Err(NvmeError::Parse(_))
        ));
    }
}

#[test]
fn sorting_is_stable_and_upserting_replaces() {
    fn controller(name: &str, path: &str) -> NvmeController {
        NvmeController {
            name: name.to_string(),
            dev_path: path.to_string(),
            model: None,
            serial: None,
            firmware: None,
            namespaces: Vec::new(),
        }
    }
    let listed = vec![
        controller("b", "1"),
        controller("a", "2"),
        controller("b", "3"),
        controller("a", "4"),
        controller("c", "5"),
    ];
    let sorted = sort_by_name(listed);
    let paths: Vec<&str> = sorted.iter().map(|item| item.dev_path.as_str()).collect();
    assert_eq!(paths, vec!["2", "4", "1", "3", "5"]);

    let mut map: Vec<NvmeController> = Vec::new();
    for (name, path) in [("m", "1"), ("a", "2"), ("z", "3"), ("m", "4"), ("a", "5"), ("b", "6")] {
        upsert_by_name(&mut map, controller(name, path));
    }
    let held: Vec<(&str, &str)> =
        map.iter().map(|item| (item.name.as_str(), item.dev_path.as_str())).collect();
    assert_eq!(held, vec![("a", "5"), ("b", "6"), ("m", "4"), ("z", "3")]);
}
