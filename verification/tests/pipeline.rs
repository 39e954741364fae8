use auto_mount::command::{Operation, Progress, Reply};
use auto_mount::device_filter::filter_unmounted_hdd_devices;
use auto_mount::error::Error;
use auto_mount::filesystem::FilesystemError;
use auto_mount::partition_manager::{create_partition, PartitionError};
use auto_mount::smart_mount::{should_use_gpt, smart_auto_mount, MountConfig, SmartMountError};

fn texts(items: &[&str]) -> Vec<String> {
    items.iter().map(|item| item.to_string()).collect()
}

fn exited(success: bool, stdout: &str, stderr: &str) -> Reply {
    Reply::Exited {
        success,
        stdout: stdout.to_string(),
        stderr: stderr.to_string(),
        stdout_is_utf8: true,
    }
}

/// A machine with a rotating disk `sda` of 3000 gigabytes and a solid state
/// disk `sdb`, neither of them mounted.
fn perform(operation: &Operation, table: &mut String) -> Reply {
    match operation {
        Operation::PathExists(path) => {
            Reply::Flag(["/dev", "/dev/sda", "/dev/sdb", "/etc/fstab"].contains(&path.as_str()))
        }
        Operation::ListDirectory(_) => Reply::Names(texts(&["sdb", "loop0", "sda"])),
        Operation::MountedSources => Reply::Names(texts(&["/dev/nvme0n1p2"])),
        Operation::UnixTime => Reply::Number(1700000000),
        Operation::CopyFile { .. } | Operation::CreateDirectories(_) => Reply::Finished,
        Operation::FileLength(_) => Reply::Number(table.len() as u64),
        Operation::ReadFile(_) => Reply::Text(table.clone()),
        Operation::WriteFile { content, .. } => {
            *table = content.clone();
            Reply::Finished
        }
        Operation::Rename { .. } => Reply::Finished,
        Operation::Command(words) => {
            let words: Vec<&str> = words.iter().map(|word| word.as_str()).collect();
            match words.as_slice() {
                ["sudo", "lsblk", "-d", "-o", "rota", "/dev/sda"] => exited(true, "ROTA\n   1\n", ""),
                ["sudo", "lsblk", "-d", "-o", "rota", "/dev/sdb"] => exited(true, "ROTA\n   0\n", ""),
                ["sudo", "blockdev", "--getsize64", "/dev/sda"] => {
                    exited(true, "3221225472000\n", "")
                }
                ["sudo", "blockdev", "--getsize64", "/dev/sdb"] => {
                    exited(true, "500107862016\n", "")
                }
                ["sudo", "blkid", device, "-s", "UUID", "-o", "export"] => {
                    exited(true, &format!("DEVNAME={}\nUUID=0a1b\n", device), "")
                }
                _ => exited(true, "", ""),
            }
        }
        other => panic!("not expected: {:?}", other),
    }
}

fn run<T, E>(plan: impl Fn(&[Reply]) -> Progress<T, E>) -> (Result<T, E>, Vec<Operation>, String) {
    let mut table = "UUID=root / ext4 defaults 0 1\n".to_string();
    let mut replies = Vec::new();
    let mut log = Vec::new();
    loop {
        match plan(&replies) {
            Progress::Run(operation) => {
                replies.push(perform(&operation, &mut table));
                log.push(operation);
            }
            Progress::Done(value, used) => {
                assert_eq!(used, replies.len());
                return (Ok(value), log, table);
            }
            Progress::Failed(error, used) => {
                assert_eq!(used, replies.len());
                return (Err(error), log, table);
            }
        }
    }
}

#[test]
fn a_large_rotating_disk_is_chosen_gets_a_gpt_and_one_partition() {
    let devices = texts(&["/dev/sda", "/dev/sdb"]);
    let (filtered, _, _) = run(|replies| filter_unmounted_hdd_devices(devices.clone(), replies));
    assert_eq!(filtered, Ok(texts(&["/dev/sda"])));
    let disks = filtered.unwrap();
    let (use_gpt, _, _) = run(|replies| should_use_gpt(&disks, &MountConfig::default(), replies));
    assert_eq!(use_gpt, Ok(true));
    let (partitions, _, _) = run(|replies| create_partition(&disks, replies));
    assert_eq!(partitions, Ok(texts(&["/dev/sda1"])));
}

#[test]
fn the_pipeline_runs_its_stages_in_order() {
    let (result, log, table) = run(smart_auto_mount);
    assert_eq!(result, Ok(()));
    let commands: Vec<String> = log
        .iter()
        .filter_map(|operation| match operation {
            Operation::Command(words) => Some(words.join(" ")),
            _ => None,
        })
        .collect();
    assert_eq!(
        commands,
        texts(&[
            "sudo lsblk -d -o rota /dev/sda",
            "sudo blockdev --getsize64 /dev/sda",
            "sudo lsblk -d -o rota /dev/sdb",
            "sudo blockdev --getsize64 /dev/sdb",
            "sudo blockdev --getsize64 /dev/sda",
            "sudo parted -s /dev/sda mklabel gpt",
            "sudo parted -s /dev/sda mkpart primary ext4 0% 100%",
            "sudo mkfs.ext4 -F /dev/sda1",
            "sudo blkid /dev/sda1 -s UUID -o export",
            "sudo mount -a",
        ])
    );
    assert_eq!(
        table,
        "UUID=root / ext4 defaults 0 1\nUUID=0a1b  /mnt/sda1  ext4  rw,acl  0  0\n"
    );
    assert_eq!(log[0], Operation::PathExists("/dev".to_string()));
    assert_eq!(log[1], Operation::ListDirectory("/sys/block".to_string()));
}

#[test]
fn every_part_has_its_place_in_the_error_of_the_crate() {
    let from_partition: Error = PartitionError::ProcessSpawnFailed.into();
    assert_eq!(from_partition, Error::PartitionError(PartitionError::ProcessSpawnFailed));
    assert_eq!(from_partition.message(), "Partition error: Process spawn failed");
    let from_filesystem = Error::from(FilesystemError::InvalidDevice("x".to_string()));
    assert_eq!(from_filesystem.message(), "Filesystem error: Invalid device path: x");
    assert_eq!(
        SmartMountError::Filesystem(FilesystemError::CommandFailed("y".to_string())).message(),
        "Filesystem operation failed: Command failed: y"
    );
}
