use auto_mount::command::{Operation, Progress, Reply};
use auto_mount::device_discovery::DeviceDiscoveryError;
use auto_mount::mount_manager::MountError;
use auto_mount::partition_manager::PartitionError;
use auto_mount::smart_mount::{
    get_device_size_gb, gpt_auto_mount, should_use_gpt, simple_auto_mount, smart_auto_mount,
    smart_auto_mount_with_config, MountConfig, SmartMountError,
};

fn texts(items: &[&str]) -> Vec<String> {
    items.iter().map(|item| item.to_string()).collect()
}

fn exited(success: bool, stdout: &str, stderr: &str) -> Reply {
    Reply::Exited {
        success,
        stdout: stdout.to_string(),
        stderr: stderr.to_string(),
        stdout_is_utf8: true,
    }
}

fn refused(message: &str) -> Reply {
    Reply::Failed { already_exists: false, message: message.to_string() }
}

fn decision(devices: &[String], config: &MountConfig, replies: &[Reply]) -> bool {
    match should_use_gpt(devices, config, replies) {
        Progress::Done(use_gpt, _) => use_gpt,
        other => panic!("no decision: {:?}", other),
    }
}

#[test]
fn smart_mount_test_mount_config_default() {
    let config = MountConfig::default();
    assert!(!config.force_gpt);
    assert_eq!(config.gpt_threshold_gb, 2000);
    assert!(!config.skip_gpt);
}

#[test]
fn test_should_use_gpt_force() {
    let config = MountConfig { force_gpt: true, ..Default::default() };
    let devices = vec!["/dev/sda".to_string()];
    assert!(decision(&devices, &config, &[]));
}

#[test]
fn test_should_use_gpt_skip() {
    let config = MountConfig { skip_gpt: true, ..Default::default() };
    let devices = vec!["/dev/sda".to_string()];
    assert!(!decision(&devices, &config, &[]));
}

#[test]
fn skip_goes_before_force() {
    let config = MountConfig { force_gpt: true, gpt_threshold_gb: 0, skip_gpt: true };
    let devices = texts(&["/dev/sda"]);
    assert_eq!(should_use_gpt(&devices, &config, &[]), Progress::Done(false, 0));
    assert_eq!(
        should_use_gpt(&devices, &config, &[exited(true, "9999999999999999\n", "")]),
        Progress::Done(false, 0)
    );
}

#[test]
fn size_is_counted_in_whole_gigabytes() {
    assert_eq!(
        get_device_size_gb("/dev/sda", &[]),
        Progress::Run(Operation::Command(texts(&[
            "sudo", "blockdev", "--getsize64", "/dev/sda"
        ])))
    );
    assert_eq!(
        get_device_size_gb("/dev/sda", &[exited(true, "3221225472000\n", "")]),
        Progress::Done(3000, 1)
    );
    assert_eq!(
        get_device_size_gb("/dev/sda", &[exited(true, "1073741823", "")]),
        Progress::Done(0, 1)
    );
    assert_eq!(
        get_device_size_gb("/dev/sda", &[exited(true, "1073741824", "")]),
        Progress::Done(1, 1)
    );
    assert_eq!(
        get_device_size_gb("/dev/sda", &[exited(true, "2147483647999", "")]),
        Progress::Done(1999, 1)
    );
    assert_eq!(
        get_device_size_gb("/dev/sda", &[exited(false, "3221225472000", "denied")]),
        Progress::Done(0, 1)
    );
    assert_eq!(
        get_device_size_gb("/dev/sda", &[exited(true, "n/a", "")]),
        Progress::Done(0, 1)
    );
    assert_eq!(
        get_device_size_gb("/dev/sda", &[refused("no sudo")]),
        Progress::Failed(
            SmartMountError::Partition(PartitionError::IoError("no sudo".to_string())),
            1
        )
    );
}

#[test]
fn any_disk_at_the_threshold_calls_for_gpt() {
    let config = MountConfig::default();
    let devices = texts(&["/dev/sda", "/dev/sdb"]);
    assert_eq!(
        should_use_gpt(&devices, &config, &[]),
        Progress::Run(Operation::Command(texts(&[
            "sudo", "blockdev", "--getsize64", "/dev/sda"
        ])))
    );
    let small = exited(true, "500107862016\n", "");
    let at_threshold = exited(true, "2147483648000\n", "");
    let below_threshold = exited(true, "2147483647999\n", "");
    assert_eq!(
        should_use_gpt(&devices, &config, &[small.clone()]),
        Progress::Run(Operation::Command(texts(&[
            "sudo", "blockdev", "--getsize64", "/dev/sdb"
        ])))
    );
    assert_eq!(
        should_use_gpt(&devices, &config, &[small.clone(), at_threshold.clone()]),
        Progress::Done(true, 2)
    );
    assert_eq!(
        should_use_gpt(&devices, &config, &[at_threshold, small.clone()]),
        Progress::Done(true, 1)
    );
    assert_eq!(
        should_use_gpt(&devices, &config, &[small, below_threshold]),
        Progress::Done(false, 2)
    );
    assert_eq!(should_use_gpt(&[], &config, &[]), Progress::Done(false, 0));
}

#[test]
fn a_failed_capacity_query_counts_as_no_gigabytes() {
    let devices = texts(&["/dev/sda"]);
    let config = MountConfig::default();
    assert_eq!(
        should_use_gpt(&devices, &config, &[exited(false, "", "denied")]),
        Progress::Done(false, 1)
    );
    assert_eq!(should_use_gpt(&devices, &config, &[refused("x")]), Progress::Done(false, 1));
    let zero = MountConfig { gpt_threshold_gb: 0, ..Default::default() };
    assert_eq!(should_use_gpt(&devices, &zero, &[refused("x")]), Progress::Done(true, 1));
    assert_eq!(
        should_use_gpt(&devices, &zero, &[exited(false, "", "denied")]),
        Progress::Done(true, 1)
    );
}

#[test]
fn lowering_the_threshold_never_turns_yes_into_no() {
    let devices = texts(&["/dev/sda", "/dev/sdb", "/dev/sdc"]);
    let replies = [
        exited(true, "107374182400\n", ""),
        exited(false, "", "denied"),
        exited(true, "1073741824000\n", ""),
    ];
    let thresholds = [0u64, 1, 99, 100, 101, 999, 1000, 1001, 2000, u64::MAX];
    for (place, high) in thresholds.iter().enumerate() {
        let with_high = MountConfig { gpt_threshold_gb: *high, ..Default::default() };
        for low in &thresholds[..place] {
            let with_low = MountConfig { gpt_threshold_gb: *low, ..Default::default() };
            if decision(&devices, &with_high, &replies) {
                assert!(decision(&devices, &with_low, &replies));
            }
        }
    }
    let at_100 = MountConfig { gpt_threshold_gb: 100, ..Default::default() };
    let at_1001 = MountConfig { gpt_threshold_gb: 1001, ..Default::default() };
    assert!(decision(&devices, &at_100, &replies));
    assert!(!decision(&devices, &at_1001, &replies));
}

#[test]
fn smart_mount_error_messages() {
    assert_eq!(
        SmartMountError::DeviceDiscovery(DeviceDiscoveryError::NoDevicesFound).message(),
        "Device discovery failed: No SATA devices found"
    );
    assert_eq!(
        SmartMountError::Partition(PartitionError::ProcessSpawnFailed).message(),
        "Partition operation failed: Process spawn failed"
    );
    assert_eq!(
        SmartMountError::Mount(MountError::BackupFailed).message(),
        "Mount operation failed: Fstab backup failed"
    );
    assert_eq!(SmartMountError::NoDevicesFound.message(), "No devices found to process");
}

#[test]
fn empty_discovery_ends_the_pipeline_before_the_table_is_touched() {
    let replies = [
        Reply::Flag(true),
        Reply::Names(texts(&["nvme0n1", "loop0"])),
        exited(true, "", ""),
        exited(true, "", ""),
    ];
    for given in 0..replies.len() {
        match smart_auto_mount(&replies[..given]) {
            Progress::Run(operation) => assert!(matches!(
                operation,
                Operation::PathExists(_) | Operation::ListDirectory(_) | Operation::Command(_)
            )),
            other => panic!("ended early: {:?}", other),
        }
    }
    let end = smart_auto_mount(&replies);
    assert_eq!(
        end,
        Progress::Failed(
            SmartMountError::DeviceDiscovery(DeviceDiscoveryError::NoDevicesFound),
            4
        )
    );
    match end {
        Progress::Failed(error, _) => {
            assert_eq!(error.message(), "Device discovery failed: No SATA devices found")
        }
        _ => unreachable!(),
    }
}

#[test]
fn a_choice_that_leaves_no_disk_ends_the_pipeline() {
    let replies = [
        Reply::Flag(true),
        Reply::Names(texts(&["sda"])),
        Reply::Flag(true),
        Reply::Names(texts(&["/dev/sda2"])),
        exited(true, "ROTA\n1\n", ""),
        exited(true, "1000\n", ""),
    ];
    assert_eq!(
        smart_auto_mount_with_config(MountConfig::default(), &replies),
        Progress::Failed(SmartMountError::NoDevicesFound, 6)
    );
}

#[test]
fn presets_differ_in_the_partition_table_only() {
    let found = [
        Reply::Flag(true),
        Reply::Names(texts(&["sda"])),
        Reply::Flag(true),
        Reply::Names(Vec::new()),
        exited(true, "ROTA\n1\n", ""),
        exited(true, "1000\n", ""),
    ];
    let make_partition = Progress::Run(Operation::Command(texts(&[
        "sudo", "parted", "-s", "/dev/sda", "mkpart", "primary", "ext4", "0%", "100%",
    ])));
    let make_label = Progress::Run(Operation::Command(texts(&[
        "sudo", "parted", "-s", "/dev/sda", "mklabel", "gpt",
    ])));
    let ask_size = Progress::Run(Operation::Command(texts(&[
        "sudo", "blockdev", "--getsize64", "/dev/sda",
    ])));
    assert_eq!(simple_auto_mount(&found), make_partition);
    assert_eq!(gpt_auto_mount(&found), make_label);
    assert_eq!(smart_auto_mount(&found), ask_size);
}
