//! The settings that the collector runs under.

use vstd::prelude::*;
use crate::nvme::error::NvmeError;

verus! {

/// The timeout of an admin command where none is configured, in
/// milliseconds.
pub const DEFAULT_IOCTL_TIMEOUT_MS: u64 = 5000;

/// How log lines are written.
#[derive(Clone, Copy, Debug, PartialEq, Eq, Structural)]
pub enum LogFormat {
    Text,
    Json,
}

/// The settings of an exporter.
#[derive(Debug)]
pub struct Config {
    /// Where the HTTP surface listens, as host and port.
    pub listen_address: String,
    /// The glob pattern that device paths must match.
    pub devices: String,
    /// How long a discovery stays valid, in seconds.
    pub discovery_interval: u64,
    /// How long a device that disappeared is still reported, in seconds.
    pub stale_device_grace: u64,
    pub collect_namespace: bool,
    pub collect_error_log: bool,
    pub collect_self_test: bool,
    pub log_level: String,
    pub log_format: LogFormat,
    /// The timeout of one admin command, in milliseconds.
    pub ioctl_timeout: u64,
}

/// The model of a `Config`.
pub struct ConfigView {
    pub listen_address: Seq<char>,
    pub devices: Seq<char>,
    pub discovery_interval: u64,
    pub stale_device_grace: u64,
    pub collect_namespace: bool,
    pub collect_error_log: bool,
    pub collect_self_test: bool,
    pub log_level: Seq<char>,
    pub log_format: LogFormat,
    pub ioctl_timeout: u64,
}

impl View for Config {
    type V = ConfigView;

    open spec fn view(&self) -> ConfigView {
        ConfigView {
            listen_address: self.listen_address@,
            devices: self.devices@,
            discovery_interval: self.discovery_interval,
            stale_device_grace: self.stale_device_grace,
            collect_namespace: self.collect_namespace,
            collect_error_log: self.collect_error_log,
            collect_self_test: self.collect_self_test,
            log_level: self.log_level@,
            log_format: self.log_format,
            ioctl_timeout: self.ioctl_timeout,
        }
    }
}

impl Clone for Config {
    fn clone(&self) -> (copy: Self)
        ensures
            copy@ == self@,
    {
        Config {
            listen_address: self.listen_address.clone(),
            devices: self.devices.clone(),
            discovery_interval: self.discovery_interval,
            stale_device_grace: self.stale_device_grace,
            collect_namespace: self.collect_namespace,
            collect_error_log: self.collect_error_log,
            collect_self_test: self.collect_self_test,
            log_level: self.log_level.clone(),
            log_format: self.log_format,
            ioctl_timeout: self.ioctl_timeout,
        }
    }
}

impl ConfigView {
    /// The settings of an exporter that is started without any option:
    /// listening on every address at port 9998, reading every `/dev/nvme*`,
    /// discovering every 30 seconds, reporting a device that disappeared
    /// for 300 seconds more, with every optional collector switched on.
    pub open spec fn defaults() -> ConfigView {
        ConfigView {
            listen_address: "0.0.0.0:9998"@,
            devices: "/dev/nvme*"@,
            discovery_interval: 30,
            stale_device_grace: 300,
            collect_namespace: true,
            collect_error_log: true,
            collect_self_test: true,
            log_level: "info"@,
            log_format: LogFormat::Text,
            ioctl_timeout: 5000,
        }
    }
}

impl Default for Config {
    fn default() -> (config: Self)
        ensures
            config@ == ConfigView::defaults(),
    {
        Config {
            listen_address: "0.0.0.0:9998".to_owned(),
            devices: "/dev/nvme*".to_owned(),
            discovery_interval: 30,
            stale_device_grace: 300,
            collect_namespace: true,
            collect_error_log: true,
            collect_self_test: true,
            log_level: "info".to_owned(),
            log_format: LogFormat::Text,
            ioctl_timeout: DEFAULT_IOCTL_TIMEOUT_MS,
        }
    }
}

impl Config {
    /// The settings made of the given option values, with the default
    /// command timeout. Both intervals must be greater than zero; a zero is
    /// a `Parse` error.
    pub fn parse(
        listen_address: String,
        devices: String,
        discovery_interval: u64,
        stale_device_grace: u64,
        collect_namespace: bool,
        collect_error_log: bool,
        collect_self_test: bool,
        log_level: String,
        log_format: LogFormat,
    ) -> (result: Result<Self, NvmeError>)
        ensures
            discovery_interval == 0 ==> (result matches Err(NvmeError::Parse(message))
                && message@ == "discovery interval must be greater than zero"@),
            discovery_interval > 0 && stale_device_grace == 0 ==> (result matches Err(
                NvmeError::Parse(message),
            ) && message@ == "stale-device-grace must be greater than zero"@),
            discovery_interval > 0 && stale_device_grace > 0 ==> (result matches Ok(config)
                && config@ == ConfigView {
                listen_address: listen_address@,
                devices: devices@,
                discovery_interval,
                stale_device_grace,
                collect_namespace,
                collect_error_log,
                collect_self_test,
                log_level: log_level@,
                log_format,
                ioctl_timeout: 5000,
            }),
    {
        if discovery_interval == 0 {
            return Err(
                NvmeError::Parse("discovery interval must be greater than zero".to_owned()),
            );
        }
        if stale_device_grace == 0 {
            return Err(
                NvmeError::Parse("stale-device-grace must be greater than zero".to_owned()),
            );
        }
        Ok(
            Config {
                listen_address,
                devices,
                discovery_interval,
                stale_device_grace,
                collect_namespace,
                collect_error_log,
                collect_self_test,
                log_level,
                log_format,
                ioctl_timeout: DEFAULT_IOCTL_TIMEOUT_MS,
            },
        )
    }

    /// The command timeout as the command block holds it, or a `Parse` error
    /// where it does not fit 32 bits.
    pub fn ioctl_timeout_ms(&self) -> (result: Result<u32, NvmeError>)
        ensures
            self.ioctl_timeout <= u32::MAX ==> result == Ok::<u32, NvmeError>(
                self.ioctl_timeout as u32,
            ),
            self.ioctl_timeout > u32::MAX ==> (result matches Err(NvmeError::Parse(message))
                && message@ == "ioctl timeout exceeds u32"@),
    {
        if self.ioctl_timeout > 0xFFFF_FFFF {
            Err(NvmeError::Parse("ioctl timeout exceeds u32".to_owned()))
        } else {
            Ok(self.ioctl_timeout as u32)
        }
    }
}

} // verus!
