//! What can be asked of an open controller, and with which command.

use vstd::prelude::*;
use crate::nvme::ioctl::{
    get_controller_log_page, identify_controller, identify_namespace, log_page_cdw10,
    read_command, NvmePassthruCmd,
};

verus! {

/// Log identifier of the Error Information log page.
pub const LID_ERROR_INFORMATION: u8 = 0x01;

/// Log identifier of the SMART / Health Information log page.
pub const LID_SMART_HEALTH: u8 = 0x02;

/// Log identifier of the Device Self-test log page.
pub const LID_SELF_TEST: u8 = 0x06;

/// One of the five reads that a collection consists of.
#[derive(Clone, Copy, Debug, PartialEq, Eq, Structural)]
pub enum AdminRequest {
    /// The Identify Controller data structure.
    IdentifyController,
    /// The Identify Namespace data structure of one namespace.
    IdentifyNamespace { nsid: u32 },
    /// The SMART / Health Information log page, 512 bytes.
    SmartLog,
    /// The first sixteen entries of the Error Information log page, 1024
    /// bytes.
    ErrorLog,
    /// The Device Self-test log page, 564 bytes.
    SelfTestLog,
}

impl AdminRequest {
    /// The command that performs the read.
    pub open spec fn spec_command(self, timeout_ms: u32) -> NvmePassthruCmd {
        match self {
            AdminRequest::IdentifyController => read_command(0x06, 0, 4096, 0x01, timeout_ms),
            AdminRequest::IdentifyNamespace { nsid } => read_command(
                0x06,
                nsid,
                4096,
                0x00,
                timeout_ms,
            ),
            AdminRequest::SmartLog => read_command(
                0x02,
                0xFFFF_FFFF,
                512,
                log_page_cdw10(512, 0x02),
                timeout_ms,
            ),
            AdminRequest::ErrorLog => read_command(
                0x02,
                0xFFFF_FFFF,
                1024,
                log_page_cdw10(1024, 0x01),
                timeout_ms,
            ),
            AdminRequest::SelfTestLog => read_command(
                0x02,
                0xFFFF_FFFF,
                564,
                log_page_cdw10(564, 0x06),
                timeout_ms,
            ),
        }
    }

    /// The command that performs the read; the caller supplies the buffer.
    pub fn command(&self, timeout_ms: u32) -> (cmd: NvmePassthruCmd)
        ensures
            cmd == self.spec_command(timeout_ms),
    {
        match self {
            AdminRequest::IdentifyController => identify_controller(timeout_ms),
            AdminRequest::IdentifyNamespace { nsid } => identify_namespace(*nsid, timeout_ms),
            AdminRequest::SmartLog => get_controller_log_page(
                LID_SMART_HEALTH,
                512,
                timeout_ms,
            ).unwrap(),
            AdminRequest::ErrorLog => get_controller_log_page(
                LID_ERROR_INFORMATION,
                1024,
                timeout_ms,
            ).unwrap(),
            AdminRequest::SelfTestLog => get_controller_log_page(
                LID_SELF_TEST,
                564,
                timeout_ms,
            ).unwrap(),
        }
    }
}

} // verus!
