use auto_mount::command::{Operation, Progress, Reply};
use auto_mount::device_filter::{
    collect_device_infos, create_disk_info, filter_unmounted_hdd_devices, get_device_size_bytes,
    is_device_mounted, is_rotational_device, probe, DeviceFilterError, DeviceInfo,
};

fn texts(items: &[&str]) -> Vec<String> {
    items.iter().map(|item| item.to_string()).collect()
}

fn exited(success: bool, stdout: &str, stderr: &str) -> Reply {
    Reply::Exited {
        success,
        stdout: stdout.to_string(),
        stderr: stderr.to_string(),
        stdout_is_utf8: true,
    }
}

fn refused(message: &str) -> Reply {
    Reply::Failed { already_exists: false, message: message.to_string() }
}

#[test]
fn test_device_info_creation() {
    let info = DeviceInfo {
        path: "/dev/sda".to_string(),
        is_rotational: true,
        is_mounted: false,
        size_bytes: 0,
    };

    assert_eq!(info.path, "/dev/sda");
    assert!(info.is_rotational);
    assert!(!info.is_mounted);
}

#[test]
fn test_device_name_extraction() {
    let device = "/dev/sda";
    let name = device.strip_prefix("/dev/").unwrap();
    assert_eq!(name, "sda");
}

#[test]
fn test_sysfs_path_construction() {
    let device_name = "sda";
    let expected_path = "/sys/block/sda/queue/rotational";
    let actual_path = format!("/sys/block/{}/queue/rotational", device_name);
    assert_eq!(actual_path, expected_path);
}

#[test]
fn test_empty_device_list() {
    let devices = vec![];
    let result = filter_unmounted_hdd_devices(devices, &[Reply::Names(Vec::new())]);

    match result {
        Progress::Done(filtered, _) => assert!(filtered.is_empty()),
        Progress::Failed(_, _) => {} // System info creation might fail in test environment
        Progress::Run(_) => panic!("nothing is left to ask for"),
    }
}

#[test]
fn empty_device_list_is_no_error() {
    assert_eq!(
        filter_unmounted_hdd_devices(Vec::new(), &[]),
        Progress::Run(Operation::MountedSources)
    );
    assert_eq!(
        filter_unmounted_hdd_devices(Vec::new(), &[Reply::Names(texts(&["/dev/sda1"]))]),
        Progress::Done(Vec::new(), 1)
    );
}

#[test]
fn filter_error_messages() {
    assert_eq!(DeviceFilterError::CommandFailed("x".to_string()).message(), "Command failed: x");
    assert_eq!(DeviceFilterError::InvalidOutputFormat.message(), "Invalid command output format");
    assert_eq!(DeviceFilterError::SystemInfoError.message(), "System information error");
    assert_eq!(DeviceFilterError::IoError("y".to_string()).message(), "IO error: y");
}

#[test]
fn mounted_sources_are_asked_for_once() {
    assert_eq!(create_disk_info(&[]), Progress::Run(Operation::MountedSources));
    assert_eq!(
        create_disk_info(&[Reply::Names(texts(&["/dev/sda1", "tmpfs"]))]),
        Progress::Done(texts(&["/dev/sda1", "tmpfs"]), 1)
    );
    assert_eq!(
        create_disk_info(&[refused("x")]),
        Progress::Failed(DeviceFilterError::SystemInfoError, 1)
    );
}

#[test]
fn a_device_is_mounted_where_a_source_holds_its_path() {
    let sources = texts(&["/dev/nvme0n1p2", "/dev/sda1", "tmpfs"]);
    assert_eq!(is_device_mounted("/dev/sda", &sources), Ok(true));
    assert_eq!(is_device_mounted("/dev/sda1", &sources), Ok(true));
    assert_eq!(is_device_mounted("/dev/sdb", &sources), Ok(false));
    assert_eq!(is_device_mounted("/dev/sda", &[]), Ok(false));
    assert_eq!(is_device_mounted("", &sources), Ok(true));
}

#[test]
fn rotation_is_read_below_the_heading() {
    assert_eq!(
        is_rotational_device("/dev/sda", &[]),
        Progress::Run(Operation::Command(texts(&[
            "sudo", "lsblk", "-d", "-o", "rota", "/dev/sda"
        ])))
    );
    assert_eq!(
        is_rotational_device("/dev/sda", &[exited(true, "ROTA\n   1\n", "")]),
        Progress::Done(true, 1)
    );
    assert_eq!(
        is_rotational_device("/dev/sda", &[exited(true, "ROTA\n   0\n", "")]),
        Progress::Done(false, 1)
    );
    assert_eq!(
        is_rotational_device("/dev/sda", &[exited(true, "ROTA\n11\n", "")]),
        Progress::Done(false, 1)
    );
    assert_eq!(
        is_rotational_device("/dev/sda", &[exited(true, "ROTA\n", "")]),
        Progress::Failed(DeviceFilterError::InvalidOutputFormat, 1)
    );
    assert_eq!(
        is_rotational_device("/dev/sda", &[exited(true, "", "")]),
        Progress::Failed(DeviceFilterError::InvalidOutputFormat, 1)
    );
    assert_eq!(
        is_rotational_device("/dev/sda", &[exited(false, "ROTA\n1\n", "not a block device")]),
        Progress::Failed(DeviceFilterError::CommandFailed("not a block device".to_string()), 1)
    );
    assert_eq!(
        is_rotational_device("/dev/sda", &[refused("no sudo")]),
        Progress::Failed(DeviceFilterError::IoError("no sudo".to_string()), 1)
    );
}

#[test]
fn capacity_is_the_printed_number_or_zero() {
    assert_eq!(
        get_device_size_bytes("/dev/sda", &[]),
        Progress::Run(Operation::Command(texts(&[
            "sudo", "blockdev", "--getsize64", "/dev/sda"
        ])))
    );
    assert_eq!(
        get_device_size_bytes("/dev/sda", &[exited(true, "3221225472000\n", "")]),
        Progress::Done(3221225472000, 1)
    );
    assert_eq!(
        get_device_size_bytes("/dev/sda", &[exited(false, "3221225472000\n", "")]),
        Progress::Done(0, 1)
    );
    assert_eq!(
        get_device_size_bytes("/dev/sda", &[exited(true, "huge\n", "")]),
        Progress::Done(0, 1)
    );
    assert_eq!(
        get_device_size_bytes("/dev/sda", &[refused("no sudo")]),
        Progress::Failed(DeviceFilterError::IoError("no sudo".to_string()), 1)
    );
}

#[test]
fn probe_gathers_rotation_mount_state_and_capacity() {
    let sources = texts(&["/dev/sdb1"]);
    let device = "/dev/sda";
    assert_eq!(
        probe(device, &sources, &[exited(true, "ROTA\n1\n", ""), exited(true, "1000\n", "")]),
        Progress::Done(
            DeviceInfo {
                path: "/dev/sda".to_string(),
                is_rotational: true,
                is_mounted: false,
                size_bytes: 1000,
            },
            2
        )
    );
    assert_eq!(
        probe("/dev/sdb", &sources, &[exited(true, "ROTA\n0\n", ""), refused("x")]),
        Progress::Done(
            DeviceInfo {
                path: "/dev/sdb".to_string(),
                is_rotational: false,
                is_mounted: true,
                size_bytes: 0,
            },
            2
        )
    );
    assert_eq!(
        probe(device, &sources, &[exited(false, "", "gone")]),
        Progress::Failed(DeviceFilterError::CommandFailed("gone".to_string()), 1)
    );
}

#[test]
fn collect_probes_each_device_in_order() {
    let replies = [
        Reply::Names(texts(&["/dev/sdb2"])),
        exited(true, "ROTA\n1\n", ""),
        exited(true, "10\n", ""),
        exited(true, "ROTA\n1\n", ""),
        exited(true, "20\n", ""),
    ];
    assert_eq!(
        collect_device_infos(texts(&["/dev/sda", "/dev/sdb"]), &replies),
        Progress::Done(
            vec![
                DeviceInfo {
                    path: "/dev/sda".to_string(),
                    is_rotational: true,
                    is_mounted: false,
                    size_bytes: 10,
                },
                DeviceInfo {
                    path: "/dev/sdb".to_string(),
                    is_rotational: true,
                    is_mounted: true,
                    size_bytes: 20,
                },
            ],
            5
        )
    );
}

#[test]
fn filter_keeps_unmounted_rotating_disks_in_order() {
    let replies = [
        Reply::Names(texts(&["/dev/sdc1"])),
        exited(true, "ROTA\n1\n", ""),
        exited(true, "1\n", ""),
        exited(true, "ROTA\n0\n", ""),
        exited(true, "1\n", ""),
        exited(true, "ROTA\n1\n", ""),
        exited(true, "1\n", ""),
        exited(true, "ROTA\n1\n", ""),
        exited(true, "1\n", ""),
    ];
    let devices = texts(&["/dev/sdd", "/dev/sdb", "/dev/sdc", "/dev/sda"]);
    assert_eq!(
        filter_unmounted_hdd_devices(devices, &replies),
        Progress::Done(texts(&["/dev/sdd", "/dev/sda"]), 9)
    );
}

#[test]
fn filter_fails_with_the_first_probe_that_fails() {
    let replies = [
        Reply::Names(Vec::new()),
        exited(true, "ROTA\n1\n", ""),
        exited(true, "1\n", ""),
        exited(true, "ROTA\n", ""),
        exited(true, "ROTA\n1\n", ""),
    ];
    let devices = texts(&["/dev/sda", "/dev/sdb", "/dev/sdc"]);
    assert_eq!(
        filter_unmounted_hdd_devices(devices, &replies),
        Progress::Failed(DeviceFilterError::InvalidOutputFormat, 4)
    );
}
