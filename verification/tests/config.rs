use nvme_exporter::config::Config;
use nvme_exporter::config::LogFormat;
use nvme_exporter::nvme::error::NvmeError;

fn parse(discovery_interval: u64, stale_device_grace: u64, collect: bool) -> Result<Config, NvmeError> {
    Config::parse(
        "127.0.0.1:9100".to_string(),
        "/dev/nvme1*".to_string(),
        discovery_interval,
        stale_device_grace,
        collect,
        collect,
        collect,
        "debug".to_string(),
        LogFormat::Json,
    )
}

#[test]
fn defaults_enable_optional_collectors() {
    let args = Config::default();
    assert!(args.collect_namespace);
    assert!(args.collect_error_log);
    assert!(args.collect_self_test);
}

#[test]
fn bool_flags_can_be_disabled() {
    let args = parse(30, 300, false).expect("valid settings");
    assert!(!args.collect_namespace);
    assert!(!args.collect_error_log);
    assert!(!args.collect_self_test);
}

#[test]
fn defaults_are_those_of_an_exporter_without_options() {
    let config = Config::default();
    assert_eq!(config.listen_address, "0.0.0.0:9998");
    assert_eq!(config.devices, "/dev/nvme*");
    assert_eq!(config.discovery_interval, 30);
    assert_eq!(config.stale_device_grace, 300);
    assert_eq!(config.log_level, "info");
    assert_eq!(config.log_format, LogFormat::Text);
    assert_eq!(config.ioctl_timeout, 5000);
}

#[test]
fn parsed_settings_keep_their_values() {
    let config = parse(1, u64::MAX, true).expect("valid settings");
    assert_eq!(config.listen_address, "127.0.0.1:9100");
    assert_eq!(config.devices, "/dev/nvme1*");
    assert_eq!(config.discovery_interval, 1);
    assert_eq!(config.stale_device_grace, u64::MAX);
    assert!(config.collect_namespace && config.collect_error_log && config.collect_self_test);
    assert_eq!(config.log_level, "debug");
    assert_eq!(config.log_format, LogFormat::Json);
    assert_eq!(config.ioctl_timeout, 5000);
    let copy = config.clone();
    assert_eq!(copy.devices, config.devices);
    assert_eq!(copy.stale_device_grace, config.stale_device_grace);
}

#[test]
fn intervals_of_zero_are_parse_errors() {
    match parse(0, 300, true) {
        Err(NvmeError::Parse(message)) => {
            assert_eq!(message, "discovery interval must be greater than zero")
        }
        other => panic!("expected a parse error, got {:?}", other),
    }
    match parse(30, 0, true) {
        Err(NvmeError::Parse(message)) => {
            assert_eq!(message, "stale-device-grace must be greater than zero")
        }
        other => panic!("expected a parse error, got {:?}", other),
    }
    match parse(0, 0, true) {
        Err(NvmeError::Parse(message)) => {
            assert_eq!(message, "discovery interval must be greater than zero")
        }
        other => panic!("expected a parse error, got {:?}", other),
    }
}

#[test]
fn the_timeout_must_fit_the_command_block() {
    let mut config = Config::default();
    assert_eq!(config.ioctl_timeout_ms().expect("fits"), 5000);
    config.ioctl_timeout = u32::MAX as u64;
    assert_eq!(config.ioctl_timeout_ms().expect("fits"), u32::MAX);
    config.ioctl_timeout = u32::MAX as u64 + 1;
    assert!(matches!(config.ioctl_timeout_ms(), Err(NvmeError::Parse(_))));
}
