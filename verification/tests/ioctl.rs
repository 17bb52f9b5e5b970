use nvme_exporter::nvme::device::AdminRequest;
use nvme_exporter::nvme::error::NvmeError;
use nvme_exporter::nvme::ioctl::admin_cmd;
use nvme_exporter::nvme::ioctl::admin_cmd_status;
use nvme_exporter::nvme::ioctl::get_controller_log_page;
use nvme_exporter::nvme::ioctl::get_log_page;
use nvme_exporter::nvme::ioctl::identify_controller;
use nvme_exporter::nvme::ioctl::identify_namespace;
use nvme_exporter::nvme::ioctl::NvmePassthruCmd;
use nvme_exporter::nvme::ioctl::NVME_IOCTL_ADMIN_CMD;

fn assert_rest_is_zero(cmd: &NvmePassthruCmd) {
    assert_eq!(cmd.flags, 0);
    assert_eq!(cmd.rsvd1, 0);
    assert_eq!(cmd.cdw2, 0);
    assert_eq!(cmd.cdw3, 0);
    assert_eq!(cmd.metadata, 0);
    assert_eq!(cmd.addr, 0);
    assert_eq!(cmd.metadata_len, 0);
    assert_eq!(cmd.cdw11, 0);
    assert_eq!(cmd.cdw12, 0);
    assert_eq!(cmd.cdw13, 0);
    assert_eq!(cmd.cdw14, 0);
    assert_eq!(cmd.cdw15, 0);
    assert_eq!(cmd.result, 0);
}

#[test]
fn passthrough_layout_matches_kernel() {
    assert_eq!(std::mem::size_of::<NvmePassthruCmd>(), 72);
}

#[test]
fn admin_ioctl_request_code() {
    assert_eq!(NVME_IOCTL_ADMIN_CMD, 0xC048_4E41);
}

#[test]
fn empty_command_is_all_zero() {
    let cmd = NvmePassthruCmd::empty();
    assert_eq!(cmd.opcode, 0);
    assert_eq!(cmd.nsid, 0);
    assert_eq!(cmd.data_len, 0);
    assert_eq!(cmd.cdw10, 0);
    assert_eq!(cmd.timeout_ms, 0);
    assert_rest_is_zero(&cmd);
}

#[test]
fn identify_controller_frame() {
    let cmd = identify_controller(5000);
    assert_eq!(cmd.opcode, 0x06);
    assert_eq!(cmd.nsid, 0);
    assert_eq!(cmd.data_len, 4096);
    assert_eq!(cmd.cdw10, 0x01);
    assert_eq!(cmd.timeout_ms, 5000);
    assert_rest_is_zero(&cmd);
}

#[test]
fn identify_namespace_frame() {
    let cmd = identify_namespace(7, 250);
    assert_eq!(cmd.opcode, 0x06);
    assert_eq!(cmd.nsid, 7);
    assert_eq!(cmd.data_len, 4096);
    assert_eq!(cmd.cdw10, 0x00);
    assert_eq!(cmd.timeout_ms, 250);
    assert_rest_is_zero(&cmd);
}

#[test]
fn log_page_frame_encodes_dwords_and_identifier() {
    let cmd = get_log_page(3, 0x02, 512, 5000).expect("512 is a valid length");
    assert_eq!(cmd.opcode, 0x02);
    assert_eq!(cmd.nsid, 3);
    assert_eq!(cmd.data_len, 512);
    assert_eq!(cmd.cdw10, (127 << 16) | 0x02);
    assert_eq!(cmd.timeout_ms, 5000);
    assert_rest_is_zero(&cmd);

    let smallest = get_log_page(0, 0xff, 4, 1).expect("4 is a valid length");
    assert_eq!(smallest.cdw10, 0xff);
    assert_eq!(smallest.data_len, 4);

    let next = get_log_page(0, 0x06, 8, 1).expect("8 is a valid length");
    assert_eq!(next.cdw10, (1 << 16) | 0x06);
}

#[test]
fn log_page_length_must_be_a_positive_multiple_of_four() {
    for len in [0_usize, 1, 2, 3, 5, 510, 563] {
        assert!(
            matches!(get_log_page(1, 2, len, 5000), Err(NvmeError::InvalidData(_))),
            "length {}",
            len
        );
        assert!(matches!(
            get_controller_log_page(2, len, 5000),
            Err(NvmeError::InvalidData(_))
        ));
    }
}

#[test]
fn log_page_length_must_fit_the_length_field() {
    if usize::BITS > 32 {
        let too_long = (u32::MAX as usize) + 1;
        assert!(matches!(
            get_log_page(1, 2, too_long, 5000),
            Err(NvmeError::InvalidData(_))
        ));
        let longest = (u32::MAX as usize) - 3;
        let cmd = get_log_page(1, 2, longest, 5000).expect("fits the length field");
        assert_eq!(cmd.data_len, u32::MAX - 3);
        let numd = (u32::MAX / 4) - 1;
        assert_eq!(cmd.cdw10, (numd << 16) | 2);
    }
}

#[test]
fn controller_log_page_addresses_the_whole_controller() {
    let cmd = get_controller_log_page(0x01, 1024, 5000).expect("1024 is a valid length");
    assert_eq!(cmd.nsid, 0xFFFF_FFFF);
    assert_eq!(cmd.opcode, 0x02);
    assert_eq!(cmd.cdw10, (255 << 16) | 0x01);
    assert_eq!(cmd.data_len, 1024);
}

#[test]
fn requests_frame_their_commands() {
    let identify = AdminRequest::IdentifyController.command(9);
    assert_eq!((identify.opcode, identify.nsid, identify.cdw10), (0x06, 0, 1));
    let namespace = AdminRequest::IdentifyNamespace { nsid: 4 }.command(9);
    assert_eq!((namespace.opcode, namespace.nsid, namespace.cdw10), (0x06, 4, 0));
    let smart = AdminRequest::SmartLog.command(9);
    assert_eq!(
        (smart.opcode, smart.nsid, smart.data_len, smart.cdw10),
        (0x02, 0xFFFF_FFFF, 512, (127 << 16) | 0x02)
    );
    let errors = AdminRequest::ErrorLog.command(9);
    assert_eq!(
        (errors.opcode, errors.nsid, errors.data_len, errors.cdw10),
        (0x02, 0xFFFF_FFFF, 1024, (255 << 16) | 0x01)
    );
    let self_test = AdminRequest::SelfTestLog.command(9);
    assert_eq!(
        (self_test.opcode, self_test.nsid, self_test.data_len, self_test.cdw10),
        (0x02, 0xFFFF_FFFF, 564, (140 << 16) | 0x06)
    );
    assert_eq!(self_test.timeout_ms, 9);
}

#[test]
fn a_return_value_of_zero_or_more_is_success() {
    let source = std::io::Error::from_raw_os_error(13);
    assert!(admin_cmd("/dev/nvme0", 0, source).is_ok());
    let source = std::io::Error::from_raw_os_error(13);
    assert!(admin_cmd("/dev/nvme0", 7, source).is_ok());
}

#[test]
fn missing_permissions_become_permission_denied() {
    for errno in [1, 13] {
        let source = std::io::Error::from_raw_os_error(errno);
        match admin_cmd("/dev/nvme0", -1, source) {
            Err(NvmeError::PermissionDenied { device }) => assert_eq!(device, "/dev/nvme0"),
            other => panic!("expected PermissionDenied, got {:?}", other),
        }
    }
}

#[test]
fn other_failures_become_ioctl_errors() {
    let source = std::io::Error::from_raw_os_error(5);
    match admin_cmd("/dev/nvme1", -1, source) {
        Err(NvmeError::Ioctl { device, source }) => {
            assert_eq!(device, "/dev/nvme1");
            assert_eq!(source.raw_os_error(), Some(5));
        }
        other => panic!("expected Ioctl, got {:?}", other),
    }
}

#[test]
fn the_status_follows_the_given_judgement() {
    let source = std::io::Error::from_raw_os_error(5);
    assert!(matches!(
        admin_cmd_status("/dev/nvme1", i32::MIN, true, source),
        Err(NvmeError::PermissionDenied { .. })
    ));
    let source = std::io::Error::from_raw_os_error(13);
    assert!(matches!(
        admin_cmd_status("/dev/nvme1", -1, false, source),
        Err(NvmeError::Ioctl { .. })
    ));
    let source = std::io::Error::from_raw_os_error(13);
    assert!(admin_cmd_status("/dev/nvme1", 0, true, source).is_ok());
}

#[test]
fn io_errors_keep_context_and_source() {
    let source = std::io::Error::from_raw_os_error(2);
    match NvmeError::io_context("bind listen socket", source) {
        NvmeError::Io { context, source } => {
            assert_eq!(context, "bind listen socket");
            assert_eq!(source.raw_os_error(), Some(2));
        }
        other => panic!("expected Io, got {:?}", other),
    }
    let source = std::io::Error::from_raw_os_error(20);
    match NvmeError::io_path("/sys/class/nvme", source) {
        NvmeError::Io { context, source } => {
            assert_eq!(context, "/sys/class/nvme");
            assert_eq!(source.raw_os_error(), Some(20));
        }
        other => panic!("expected Io, got {:?}", other),
    }
}

#[test]
fn log_page_errors_say_what_is_wrong_with_the_length() {
    match get_log_page(1, 2, 6, 5000) {
        Err(NvmeError::InvalidData(message)) => {
            assert_eq!(message, "log page length 6 must be non-zero and divisible by 4")
        }
        other => panic!("expected invalid data, got {:?}", other),
    }
    match get_controller_log_page(2, 0, 5000) {
        Err(NvmeError::InvalidData(message)) => {
            assert_eq!(message, "log page length 0 must be non-zero and divisible by 4")
        }
        other => panic!("expected invalid data, got {:?}", other),
    }
    if usize::BITS > 32 {
        match get_log_page(1, 2, 1 << 32, 5000) {
            Err(NvmeError::InvalidData(message)) => {
                assert_eq!(message, "log page length is too large")
            }
            other => panic!("expected invalid data, got {:?}", other),
        }
    }
}
