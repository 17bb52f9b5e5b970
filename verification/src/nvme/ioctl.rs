//! Framing of NVMe admin passthrough commands.
//!
//! The functions here fill in the command block that the kernel expects,
//! apart from the address of the data buffer: the caller allocates a buffer
//! of `data_len` bytes, writes its address into `addr`, and submits the
//! block. What the kernel answers is judged by `admin_cmd`.

use vstd::prelude::*;
use vstd::string::StringExecFns;
use crate::nvme::error::NvmeError;
use crate::nvme::text::{append_decimal, decimal_text};

verus! {

/// Request code of the admin passthrough ioctl.
pub const NVME_IOCTL_ADMIN_CMD: u64 = 0xC048_4E41;

/// Opcode of the Identify command.
pub const OPCODE_IDENTIFY: u8 = 0x06;

/// Opcode of the Get Log Page command.
pub const OPCODE_GET_LOG_PAGE: u8 = 0x02;

/// The namespace identifier that addresses the controller as a whole.
pub const NSID_ALL: u32 = 0xFFFF_FFFF;

/// CDW10 of Identify for the controller data structure.
pub const CNS_CONTROLLER: u32 = 0x01;

/// CDW10 of Identify for a namespace data structure.
pub const CNS_NAMESPACE: u32 = 0x00;

/// Length of the data that Identify returns.
pub const IDENTIFY_DATA_LEN: u32 = 4096;

/// The admin passthrough command block, field for field as the kernel
/// declares it.
#[derive(Clone, Copy, Debug)]
pub struct NvmePassthruCmd {
    pub opcode: u8,
    pub flags: u8,
    pub rsvd1: u16,
    pub nsid: u32,
    pub cdw2: u32,
    pub cdw3: u32,
    pub metadata: u64,
    pub addr: u64,
    pub metadata_len: u32,
    pub data_len: u32,
    pub cdw10: u32,
    pub cdw11: u32,
    pub cdw12: u32,
    pub cdw13: u32,
    pub cdw14: u32,
    pub cdw15: u32,
    pub timeout_ms: u32,
    pub result: u32,
}

/// The command block with every field zero.
pub open spec fn empty_command() -> NvmePassthruCmd {
    NvmePassthruCmd {
        opcode: 0,
        flags: 0,
        rsvd1: 0,
        nsid: 0,
        cdw2: 0,
        cdw3: 0,
        metadata: 0,
        addr: 0,
        metadata_len: 0,
        data_len: 0,
        cdw10: 0,
        cdw11: 0,
        cdw12: 0,
        cdw13: 0,
        cdw14: 0,
        cdw15: 0,
        timeout_ms: 0,
        result: 0,
    }
}

/// The command that reads `data_len` bytes with opcode `opcode`: every field
/// but the five given is zero, the buffer address among them.
pub open spec fn read_command(
    opcode: u8,
    nsid: u32,
    data_len: u32,
    cdw10: u32,
    timeout_ms: u32,
) -> NvmePassthruCmd {
    NvmePassthruCmd { opcode, nsid, data_len, cdw10, timeout_ms, ..empty_command() }
}

/// Number of dwords minus one for a log page of `data_len` bytes.
pub open spec fn numd(data_len: int) -> int {
    if data_len / 4 >= 1 {
        data_len / 4 - 1
    } else {
        0
    }
}

/// Whether a log page of `data_len` bytes can be asked for: the length is
/// positive, a multiple of four, and fits the 32-bit length field.
pub open spec fn log_length_ok(data_len: int) -> bool {
    data_len > 0 && data_len % 4 == 0 && data_len <= u32::MAX
}

/// CDW10 of Get Log Page: the dword count in the upper half, the log
/// identifier in the lowest byte.
pub open spec fn log_page_cdw10(data_len: int, lid: u8) -> u32 {
    ((numd(data_len) as u32) << 16) | (lid as u32)
}

impl NvmePassthruCmd {
    /// A command block with every field zero.
    pub fn empty() -> (cmd: Self)
        ensures
            cmd == empty_command(),
    {
        NvmePassthruCmd {
            opcode: 0,
            flags: 0,
            rsvd1: 0,
            nsid: 0,
            cdw2: 0,
            cdw3: 0,
            metadata: 0,
            addr: 0,
            metadata_len: 0,
            data_len: 0,
            cdw10: 0,
            cdw11: 0,
            cdw12: 0,
            cdw13: 0,
            cdw14: 0,
            cdw15: 0,
            timeout_ms: 0,
            result: 0,
        }
    }
}

/// The command that reads the Identify Controller data structure.
pub fn identify_controller(timeout_ms: u32) -> (cmd: NvmePassthruCmd)
    ensures
        cmd == read_command(0x06, 0, 4096, 0x01, timeout_ms),
{
    let mut cmd = NvmePassthruCmd::empty();
    cmd.opcode = OPCODE_IDENTIFY;
    cmd.nsid = 0;
    cmd.data_len = IDENTIFY_DATA_LEN;
    cmd.cdw10 = CNS_CONTROLLER;
    cmd.timeout_ms = timeout_ms;
    cmd
}

/// The command that reads the Identify Namespace data structure of
/// namespace `nsid`.
pub fn identify_namespace(nsid: u32, timeout_ms: u32) -> (cmd: NvmePassthruCmd)
    ensures
        cmd == read_command(0x06, nsid, 4096, 0x00, timeout_ms),
{
    let mut cmd = NvmePassthruCmd::empty();
    cmd.opcode = OPCODE_IDENTIFY;
    cmd.nsid = nsid;
    cmd.data_len = IDENTIFY_DATA_LEN;
    cmd.cdw10 = CNS_NAMESPACE;
    cmd.timeout_ms = timeout_ms;
    cmd
}

/// The text of the error for a log page length that is zero or no multiple
/// of four.
pub open spec fn log_length_text(data_len: nat) -> Seq<char> {
    "log page length "@ + decimal_text(data_len) + " must be non-zero and divisible by 4"@
}

/// The text of the error for a log page length that does not fit the length
/// field.
pub open spec fn log_too_large_text() -> Seq<char> {
    "log page length is too large"@
}

/// The error that asking for a log page of `data_len` bytes ends in.
pub open spec fn log_length_error(data_len: int) -> Seq<char> {
    if data_len == 0 || data_len % 4 != 0 {
        log_length_text(data_len as nat)
    } else {
        log_too_large_text()
    }
}

/// The text of the error for a log page length that is zero or no multiple
/// of four.
fn log_length_message(data_len: usize) -> (message: String)
    ensures
        message@ == log_length_text(data_len as nat),
{
    let mut message = "log page length ".to_owned();
    append_decimal(&mut message, data_len);
    message.append(" must be non-zero and divisible by 4");
    message
}

/// The command that reads `data_len` bytes of log page `lid`, or
/// `InvalidData` where the length is zero, no multiple of four, or too large
/// for the length field.
pub fn get_log_page(nsid: u32, lid: u8, data_len: usize, timeout_ms: u32) -> (result: Result<
    NvmePassthruCmd,
    NvmeError,
>)
    ensures
        log_length_ok(data_len as int) ==> result == Ok::<NvmePassthruCmd, NvmeError>(
            read_command(
                0x02,
                nsid,
                data_len as u32,
                log_page_cdw10(data_len as int, lid),
                timeout_ms,
            ),
        ),
        !log_length_ok(data_len as int) ==> (result matches Err(NvmeError::InvalidData(message))
            && message@ == log_length_error(data_len as int)),
{
    if data_len == 0 || data_len % 4 != 0 {
        return Err(NvmeError::InvalidData(log_length_message(data_len)));
    }
    let numd_words = (data_len / 4).saturating_sub(1);
    if numd_words > 0xFFFF_FFFF || data_len > 0xFFFF_FFFF {
        return Err(NvmeError::InvalidData("log page length is too large".to_owned()));
    }
    let numd_words = numd_words as u32;
    let mut cmd = NvmePassthruCmd::empty();
    cmd.opcode = OPCODE_GET_LOG_PAGE;
    cmd.nsid = nsid;
    cmd.data_len = data_len as u32;
    cmd.cdw10 = (numd_words << 16) | (lid as u32);
    cmd.timeout_ms = timeout_ms;
    Ok(cmd)
}

/// The command that reads `data_len` bytes of the controller-wide log page
/// `lid`.
pub fn get_controller_log_page(lid: u8, data_len: usize, timeout_ms: u32) -> (result: Result<
    NvmePassthruCmd,
    NvmeError,
>)
    ensures
        log_length_ok(data_len as int) ==> result == Ok::<NvmePassthruCmd, NvmeError>(
            read_command(
                0x02,
                0xFFFF_FFFF,
                data_len as u32,
                log_page_cdw10(data_len as int, lid),
                timeout_ms,
            ),
        ),
        !log_length_ok(data_len as int) ==> (result matches Err(NvmeError::InvalidData(message))
            && message@ == log_length_error(data_len as int)),
{
    get_log_page(NSID_ALL, lid, data_len, timeout_ms)
}

/// For log pages of up to 256 KiB the dword count and the log identifier
/// do not overlap in CDW10, which is then their weighted sum.
pub proof fn lemma_log_page_cdw10_sum(data_len: int, lid: u8)
    requires
        log_length_ok(data_len),
        data_len <= 0x4_0000,
    ensures
        log_page_cdw10(data_len, lid) == numd(data_len) * 0x1_0000 + lid,
{
    let words = numd(data_len) as u32;
    let low = lid as u32;
    assert(words <= 0xFFFF && low <= 0xFF ==> ((words << 16) | low) == words * 0x1_0000 + low)
        by (bit_vector);
}

/// `std::io::Error::kind`, asked whether the kind is `PermissionDenied`.
/// Nothing is claimed of the answer.
#[verifier::external_body]
fn source_is_permission_denied(source: &std::io::Error) -> bool {
    source.kind() == std::io::ErrorKind::PermissionDenied
}

/// Whether `error` is what a failed admin ioctl on `device_name` becomes:
/// `PermissionDenied` for the device where permissions were missing,
/// otherwise `Ioctl` for the device with the operating-system error.
pub open spec fn is_admin_failure(
    error: NvmeError,
    device_name: Seq<char>,
    permission_denied: bool,
    source: std::io::Error,
) -> bool {
    match error {
        NvmeError::PermissionDenied { device } => permission_denied && device@ == device_name,
        NvmeError::Ioctl { device, source: inner } => !permission_denied && device@ == device_name
            && inner == source,
        _ => false,
    }
}

/// What a finished admin ioctl amounts to, given the value it returned,
/// whether the operating-system error is one of missing permissions, and
/// that error itself: success for a return value of zero or more, otherwise
/// the failure that `is_admin_failure` describes.
pub fn admin_cmd_status(
    device_name: &str,
    ret: i32,
    permission_denied: bool,
    source: std::io::Error,
) -> (result: Result<(), NvmeError>)
    ensures
        ret >= 0 ==> result.is_ok(),
        ret < 0 ==> (result matches Err(error) && is_admin_failure(
            error,
            device_name@,
            permission_denied,
            source,
        )),
{
    if ret < 0 {
        if permission_denied {
            return Err(NvmeError::PermissionDenied { device: device_name.to_owned() });
        }
        return Err(NvmeError::Ioctl { device: device_name.to_owned(), source });
    }
    Ok(())
}

/// What a finished admin ioctl amounts to, given the value it returned and
/// the operating-system error that was current afterwards. Which of the two
/// errors a failure becomes is decided by the kind of `source`.
pub fn admin_cmd(device_name: &str, ret: i32, source: std::io::Error) -> (result: Result<
    (),
    NvmeError,
>)
    ensures
        ret >= 0 ==> result.is_ok(),
        ret < 0 ==> (result matches Err(error) && (is_admin_failure(
            error,
            device_name@,
            true,
            source,
        ) || is_admin_failure(error, device_name@, false, source))),
{
    let permission_denied = source_is_permission_denied(&source);
    admin_cmd_status(device_name, ret, permission_denied, source)
}

} // verus!
