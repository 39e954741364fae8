use auto_mount::command::{Operation, Progress, Reply};
use auto_mount::filesystem::{
    format_devices, format_devices_safe, format_devices_with_results, format_devices_with_type,
    format_single_device, get_device_filesystem, is_device_formatted, validate_device_path,
    FilesystemError, FilesystemType, FormatResult,
};

fn texts(items: &[&str]) -> Vec<String> {
    items.iter().map(|item| item.to_string()).collect()
}

fn exited(success: bool, stdout: &str, stderr: &str) -> Reply {
    Reply::Exited {
        success,
        stdout: stdout.to_string(),
        stderr: stderr.to_string(),
        stdout_is_utf8: true,
    }
}

fn refused(message: &str) -> Reply {
    Reply::Failed { already_exists: false, message: message.to_string() }
}

#[test]
fn test_filesystem_type_from_str() {
    assert_eq!(FilesystemType::from_str("ext4").unwrap(), FilesystemType::Ext4);
    assert_eq!(FilesystemType::from_str("EXT4").unwrap(), FilesystemType::Ext4);
    assert_eq!(FilesystemType::from_str("xfs").unwrap(), FilesystemType::Xfs);
    assert!(FilesystemType::from_str("invalid").is_err());
}

#[test]
fn test_filesystem_commands() {
    let (cmd, args) = FilesystemType::Ext4.get_format_command();
    assert_eq!(cmd, "mkfs.ext4");
    assert_eq!(args, vec!["-F"]);

    let (cmd, args) = FilesystemType::Xfs.get_format_command();
    assert_eq!(cmd, "mkfs.xfs");
    assert_eq!(args, vec!["-f"]);
}

#[test]
fn test_validate_device_path() {
    assert!(validate_device_path("/dev/sda1").is_ok());
    assert!(validate_device_path("sda1").is_err());
    assert!(validate_device_path("/home/user").is_err());
}

#[test]
fn test_format_result_creation() {
    let result = FormatResult {
        device: "/dev/sda1".to_string(),
        filesystem: FilesystemType::Ext4,
        success: true,
        error_message: None,
    };

    assert_eq!(result.device, "/dev/sda1");
    assert_eq!(result.filesystem, FilesystemType::Ext4);
    assert!(result.success);
    assert!(result.error_message.is_none());
}

#[test]
fn every_kind_has_its_name_and_its_tool() {
    let kinds = [
        ("ext4", FilesystemType::Ext4, "mkfs.ext4", vec!["-F"]),
        ("ext3", FilesystemType::Ext3, "mkfs.ext3", vec!["-F"]),
        ("ext2", FilesystemType::Ext2, "mkfs.ext2", vec!["-F"]),
        ("xfs", FilesystemType::Xfs, "mkfs.xfs", vec!["-f"]),
        ("btrfs", FilesystemType::Btrfs, "mkfs.btrfs", vec!["-f"]),
        ("ntfs", FilesystemType::Ntfs, "mkfs.ntfs", vec!["-f", "-Q"]),
        ("fat32", FilesystemType::Fat32, "mkfs.fat", vec!["-F", "32"]),
    ];
    for (name, kind, tool, flags) in kinds {
        assert_eq!(FilesystemType::from_str(name), Ok(kind));
        assert_eq!(FilesystemType::from_str(&name.to_uppercase()), Ok(kind));
        assert_eq!(FilesystemType::from_lowercase(name, name), Ok(kind));
        assert_eq!(kind.get_format_command(), (tool, flags));
    }
}

#[test]
fn unsupported_kind_error_holds_the_name_as_given() {
    assert_eq!(
        FilesystemType::from_str("ZFS"),
        Err(FilesystemError::UnsupportedFilesystem("ZFS".to_string()))
    );
    assert_eq!(
        FilesystemType::from_str(""),
        Err(FilesystemError::UnsupportedFilesystem(String::new()))
    );
    assert_eq!(
        FilesystemType::from_lowercase("EXT4", "EXT4"),
        Err(FilesystemError::UnsupportedFilesystem("EXT4".to_string()))
    );
}

#[test]
fn filesystem_error_messages() {
    assert_eq!(FilesystemError::CommandFailed("a".to_string()).message(), "Command failed: a");
    assert_eq!(FilesystemError::IoError("b".to_string()).message(), "IO error: b");
    assert_eq!(
        FilesystemError::UnsupportedFilesystem("zfs".to_string()).message(),
        "Unsupported filesystem type: zfs"
    );
    assert_eq!(
        FilesystemError::InvalidDevice("sda".to_string()).message(),
        "Invalid device path: sda"
    );
    assert_eq!(
        FilesystemError::FormatFailed("c".to_string()).message(),
        "Filesystem formatting failed for device: c"
    );
}

#[test]
fn invalid_device_error_names_the_path() {
    assert_eq!(
        validate_device_path("sda1"),
        Err(FilesystemError::InvalidDevice("sda1".to_string()))
    );
    assert_eq!(validate_device_path("/dev/"), Ok(()));
}

#[test]
fn format_runs_the_tool_of_the_kind() {
    assert_eq!(
        format_single_device("/dev/sda1", &FilesystemType::Ext4, &[]),
        Progress::Run(Operation::Command(texts(&["sudo", "mkfs.ext4", "-F", "/dev/sda1"])))
    );
    assert_eq!(
        format_single_device("/dev/sda1", &FilesystemType::Ntfs, &[]),
        Progress::Run(Operation::Command(texts(&["sudo", "mkfs.ntfs", "-f", "-Q", "/dev/sda1"])))
    );
    assert_eq!(
        format_single_device("/dev/sda1", &FilesystemType::Fat32, &[]),
        Progress::Run(Operation::Command(texts(&["sudo", "mkfs.fat", "-F", "32", "/dev/sda1"])))
    );
    assert_eq!(
        format_single_device("/dev/sda1", &FilesystemType::Xfs, &[exited(true, "", "")]),
        Progress::Done((), 1)
    );
}

#[test]
fn format_failures() {
    assert_eq!(
        format_single_device("sda1", &FilesystemType::Ext4, &[]),
        Progress::Failed(FilesystemError::InvalidDevice("sda1".to_string()), 0)
    );
    assert_eq!(
        format_single_device("/dev/sda1", &FilesystemType::Ext4, &[exited(false, "", "in use")]),
        Progress::Failed(
            FilesystemError::FormatFailed("Device: /dev/sda1, Error: in use".to_string()),
            1
        )
    );
    assert_eq!(
        format_single_device("/dev/sda1", &FilesystemType::Ext4, &[refused("no sudo")]),
        Progress::Failed(FilesystemError::IoError("no sudo".to_string()), 1)
    );
}

#[test]
fn format_batch_stops_at_the_first_failure() {
    let devices = texts(&["/dev/sda1", "/dev/sdb1"]);
    assert_eq!(
        format_devices(&devices, &[exited(true, "", "")]),
        Progress::Run(Operation::Command(texts(&["sudo", "mkfs.ext4", "-F", "/dev/sdb1"])))
    );
    assert_eq!(
        format_devices(&devices, &[exited(true, "", ""), exited(true, "", "")]),
        Progress::Done((), 2)
    );
    assert_eq!(
        format_devices_with_type(
            &devices,
            FilesystemType::Btrfs,
            &[exited(false, "", "x"), exited(true, "", "")]
        ),
        Progress::Failed(FilesystemError::FormatFailed("Device: /dev/sda1, Error: x".to_string()), 1)
    );
    assert_eq!(
        format_devices_with_type(&devices, FilesystemType::Btrfs, &[]),
        Progress::Run(Operation::Command(texts(&["sudo", "mkfs.btrfs", "-f", "/dev/sda1"])))
    );
}

#[test]
fn format_batch_with_results_goes_on_after_a_failure() {
    let devices = texts(&["/dev/sda1", "sdb1", "/dev/sdc1"]);
    assert_eq!(
        format_devices_with_results(
            &devices,
            FilesystemType::Xfs,
            &[exited(false, "", "bad"), exited(true, "", "")]
        ),
        Progress::Done(
            vec![
                FormatResult {
                    device: "/dev/sda1".to_string(),
                    filesystem: FilesystemType::Xfs,
                    success: false,
                    error_message: Some(
                        "Filesystem formatting failed for device: Device: /dev/sda1, Error: bad"
                            .to_string()
                    ),
                },
                FormatResult {
                    device: "sdb1".to_string(),
                    filesystem: FilesystemType::Xfs,
                    success: false,
                    error_message: Some("Invalid device path: sdb1".to_string()),
                },
                FormatResult {
                    device: "/dev/sdc1".to_string(),
                    filesystem: FilesystemType::Xfs,
                    success: true,
                    error_message: None,
                },
            ],
            2
        )
    );
}

#[test]
fn formatted_devices_are_recognised() {
    assert_eq!(
        is_device_formatted("/dev/sda1", &[]),
        Progress::Run(Operation::Command(texts(&["sudo", "blkid", "/dev/sda1"])))
    );
    assert_eq!(is_device_formatted("/dev/sda1", &[exited(true, "x", "")]), Progress::Done(true, 1));
    assert_eq!(
        is_device_formatted("/dev/sda1", &[exited(false, "", "")]),
        Progress::Done(false, 1)
    );
    assert_eq!(
        is_device_formatted("/dev/sda1", &[refused("no")]),
        Progress::Failed(FilesystemError::IoError("no".to_string()), 1)
    );
}

#[test]
fn the_kind_of_a_device_is_read_from_the_tool() {
    assert_eq!(
        get_device_filesystem("/dev/sda1", &[]),
        Progress::Run(Operation::Command(texts(&[
            "sudo", "blkid", "-s", "TYPE", "-o", "value", "/dev/sda1"
        ])))
    );
    assert_eq!(
        get_device_filesystem("/dev/sda1", &[exited(true, "ext4\n", "")]),
        Progress::Done(Some("ext4".to_string()), 1)
    );
    assert_eq!(
        get_device_filesystem("/dev/sda1", &[exited(true, " \n", "")]),
        Progress::Done(None, 1)
    );
    assert_eq!(
        get_device_filesystem("/dev/sda1", &[exited(false, "ext4\n", "")]),
        Progress::Done(None, 1)
    );
}

#[test]
fn safe_format_skips_formatted_devices() {
    let devices = texts(&["/dev/sda1", "/dev/sdb1", "/dev/sdc1"]);
    let replies = [
        exited(true, "", ""),
        exited(false, "", ""),
        exited(true, "", ""),
        exited(false, "", ""),
        exited(false, "", "worn out"),
    ];
    assert_eq!(
        format_devices_safe(&devices, FilesystemType::Ext4, &replies),
        Progress::Done(
            vec![
                FormatResult {
                    device: "/dev/sda1".to_string(),
                    filesystem: FilesystemType::Ext4,
                    success: true,
                    error_message: Some("Device already formatted, skipped".to_string()),
                },
                FormatResult {
                    device: "/dev/sdb1".to_string(),
                    filesystem: FilesystemType::Ext4,
                    success: true,
                    error_message: None,
                },
                FormatResult {
                    device: "/dev/sdc1".to_string(),
                    filesystem: FilesystemType::Ext4,
                    success: false,
                    error_message: Some(
                        "Filesystem formatting failed for device: Device: /dev/sdc1, Error: worn out"
                            .to_string()
                    ),
                },
            ],
            5
        )
    );
    assert_eq!(
        format_devices_safe(&devices, FilesystemType::Ext4, &[refused("no sudo")]),
        Progress::Failed(FilesystemError::IoError("no sudo".to_string()), 1)
    );
}
