use auto_mount::command::{Operation, Progress, Reply};
use auto_mount::mount_manager::{
    apply_mounts, create_fstab_backup, create_mount_point, device_uuid, format_table_line,
    mount_devices, mount_devices_with_config, prepare_mount_entries, prepare_mount_entry,
    read_table, register_mounts, render_table, replace_table, restore_fstab_backup,
    rewrite_table, update_fstab_safe, validate_fstab, MountConfig, MountEntry, MountError,
    MountResult,
};
use std::collections::{BTreeMap, BTreeSet};

fn texts(items: &[&str]) -> Vec<String> {
    items.iter().map(|item| item.to_string()).collect()
}

fn exited(success: bool, stdout: &str, stderr: &str) -> Reply {
    Reply::Exited {
        success,
        stdout: stdout.to_string(),
        stderr: stderr.to_string(),
        stdout_is_utf8: true,
    }
}

fn refused(message: &str) -> Reply {
    Reply::Failed { already_exists: false, message: message.to_string() }
}

fn entry(device: &str, uuid: &str, mount_point: &str) -> MountEntry {
    MountEntry {
        device: device.to_string(),
        uuid: uuid.to_string(),
        mount_point: mount_point.to_string(),
        filesystem: "ext4".to_string(),
        options: "rw,acl".to_string(),
    }
}

/// A system that holds files in memory and answers the commands of a
/// registration.
struct System {
    files: BTreeMap<String, String>,
    directories: BTreeSet<String>,
    time: u64,
    apply_fails: bool,
    log: Vec<Operation>,
}

impl System {
    fn with_table(content: &str) -> System {
        let mut files = BTreeMap::new();
        files.insert("/etc/fstab".to_string(), content.to_string());
        System {
            files,
            directories: BTreeSet::new(),
            time: 1700000000,
            apply_fails: false,
            log: Vec::new(),
        }
    }

    fn perform(&mut self, operation: &Operation) -> Reply {
        self.log.push(operation.clone());
        match operation {
            Operation::Command(words) if words.len() > 1 && words[1] == "blkid" => {
                let name = words[2].rsplit('/').next().unwrap();
                exited(true, &format!("DEVNAME={}\nUUID=id-{}\n", words[2], name), "")
            }
            Operation::Command(words) if words.len() > 1 && words[1] == "mount" => {
                if self.apply_fails {
                    exited(false, "", "mount: wrong fs type")
                } else {
                    exited(true, "", "")
                }
            }
            Operation::UnixTime => Reply::Number(self.time),
            Operation::PathExists(path) => {
                Reply::Flag(self.files.contains_key(path) || self.directories.contains(path))
            }
            Operation::CopyFile { from, to } => match self.files.get(from).cloned() {
                Some(content) => {
                    self.files.insert(to.clone(), content);
                    Reply::Finished
                }
                None => refused("No such file or directory"),
            },
            Operation::FileLength(path) => match self.files.get(path) {
                Some(content) => Reply::Number(content.len() as u64),
                None => refused("No such file or directory"),
            },
            Operation::CreateDirectories(path) => {
                if self.directories.insert(path.clone()) {
                    Reply::Finished
                } else {
                    Reply::Failed { already_exists: true, message: "File exists".to_string() }
                }
            }
            Operation::ReadFile(path) => match self.files.get(path) {
                Some(content) => Reply::Text(content.clone()),
                None => refused("No such file or directory"),
            },
            Operation::WriteFile { path, content } => {
                self.files.insert(path.clone(), content.clone());
                Reply::Finished
            }
            Operation::Rename { from, to } => match self.files.remove(from) {
                Some(content) => {
                    self.files.insert(to.clone(), content);
                    Reply::Finished
                }
                None => refused("No such file or directory"),
            },
            other => panic!("not expected: {:?}", other),
        }
    }

    fn register(
        &mut self,
        devices: &[String],
        config: &MountConfig,
    ) -> Result<Vec<MountResult>, MountError> {
        let mut replies = Vec::new();
        loop {
            match register_mounts("/etc/fstab", devices, config, &replies) {
                Progress::Run(operation) => {
                    let reply = self.perform(&operation);
                    replies.push(reply);
                }
                Progress::Done(results, used) => {
                    assert_eq!(used, replies.len());
                    return Ok(results);
                }
                Progress::Failed(error, used) => {
                    assert_eq!(used, replies.len());
                    return Err(error);
                }
            }
        }
    }

    fn table(&self) -> &str {
        &self.files["/etc/fstab"]
    }
}

#[test]
fn mount_manager_test_mount_config_default() {
    let config = MountConfig::default();
    assert_eq!(config.filesystem_type, "ext4");
    assert_eq!(config.mount_options, "rw,acl");
    assert_eq!(config.mount_base_path, "/mnt");
    assert!(config.backup_fstab);
    assert!(config.validate_before_write);
}

#[test]
fn test_mount_entry_creation() {
    let entry = MountEntry {
        device: "/dev/sda1".to_string(),
        uuid: "UUID=12345".to_string(),
        mount_point: "/mnt/sda1".to_string(),
        filesystem: "ext4".to_string(),
        options: "rw,acl".to_string(),
    };

    assert_eq!(entry.device, "/dev/sda1");
    assert_eq!(entry.uuid, "UUID=12345");
    assert_eq!(entry.mount_point, "/mnt/sda1");
}

#[test]
fn test_fstab_validation_valid() {
    let content = "# /etc/fstab\n\nUUID=1 / ext4 defaults 0 1\n   \n\t# comment\n\
                   UUID=12345  /mnt/sda1  ext4  rw,acl  0  0\n";
    assert_eq!(validate_fstab(content), Ok(()));
    assert_eq!(validate_fstab(""), Ok(()));
}

#[test]
fn test_device_path_validation() {
    assert!("/dev/sda1".starts_with("/dev/"));
    assert!(!"sda1".starts_with("/dev/"));
    assert!(!"invalid".starts_with("/dev/"));
    let config = MountConfig::default();
    assert!(matches!(prepare_mount_entry("/dev/sda1", &config, &[]), Progress::Run(_)));
    assert_eq!(
        prepare_mount_entry("sda1", &config, &[]),
        Progress::Failed(MountError::InvalidDevice("sda1".to_string()), 0)
    );
    assert_eq!(
        prepare_mount_entry("invalid", &config, &[]),
        Progress::Failed(MountError::InvalidDevice("invalid".to_string()), 0)
    );
}

#[test]
fn validation_names_the_first_bad_line_and_its_fields() {
    assert_eq!(
        validate_fstab("UUID=1 / ext4 defaults 0 1\nUUID=2 /mnt ext4 0 0\nbad\n"),
        Err(MountError::ValidationFailed(
            "Line 2: Invalid fstab format, expected 6 fields, got 5".to_string()
        ))
    );
    assert_eq!(
        validate_fstab("# fine\n\n  a b c d e f g  \n"),
        Err(MountError::ValidationFailed(
            "Line 3: Invalid fstab format, expected 6 fields, got 7".to_string()
        ))
    );
    assert_eq!(
        validate_fstab("x"),
        Err(MountError::ValidationFailed(
            "Line 1: Invalid fstab format, expected 6 fields, got 1".to_string()
        ))
    );
    let mut long = String::new();
    for _ in 0..11 {
        long.push_str("# comment\n");
    }
    long.push_str("1 2 3\n");
    assert_eq!(
        validate_fstab(&long),
        Err(MountError::ValidationFailed(
            "Line 12: Invalid fstab format, expected 6 fields, got 3".to_string()
        ))
    );
}

#[test]
fn mount_error_messages() {
    assert_eq!(MountError::IoError("a".to_string()).message(), "IO error: a");
    assert_eq!(MountError::CommandFailed("b".to_string()).message(), "Command failed: b");
    assert_eq!(MountError::InvalidDevice("c".to_string()).message(), "Invalid device path: c");
    assert_eq!(
        MountError::MountPointCreationFailed("d".to_string()).message(),
        "Mount point creation failed: d"
    );
    assert_eq!(MountError::BackupFailed.message(), "Fstab backup failed");
    assert_eq!(
        MountError::ValidationFailed("e".to_string()).message(),
        "Fstab validation failed: e"
    );
    assert_eq!(
        MountError::UuidNotFound("/dev/sda1".to_string()).message(),
        "UUID not found for device: /dev/sda1"
    );
    assert_eq!(MountError::PermissionDenied.message(), "Permission denied");
}

#[test]
fn backup_copies_the_table_and_compares_the_lengths() {
    assert_eq!(create_fstab_backup("/etc/fstab", &[]), Progress::Run(Operation::UnixTime));
    let replies =
        [Reply::Number(1700000000), Reply::Finished, Reply::Number(812), Reply::Number(812)];
    assert_eq!(
        create_fstab_backup("/etc/fstab", &replies[..1]),
        Progress::Run(Operation::CopyFile {
            from: "/etc/fstab".to_string(),
            to: "/etc/fstab.backup.1700000000".to_string(),
        })
    );
    assert_eq!(
        create_fstab_backup("/etc/fstab", &replies[..2]),
        Progress::Run(Operation::FileLength("/etc/fstab".to_string()))
    );
    assert_eq!(
        create_fstab_backup("/etc/fstab", &replies[..3]),
        Progress::Run(Operation::FileLength("/etc/fstab.backup.1700000000".to_string()))
    );
    assert_eq!(
        create_fstab_backup("/etc/fstab", &replies),
        Progress::Done("/etc/fstab.backup.1700000000".to_string(), 4)
    );
    assert_eq!(
        create_fstab_backup(
            "/etc/fstab",
            &[Reply::Number(0), Reply::Finished, Reply::Number(812), Reply::Number(811)]
        ),
        Progress::Failed(MountError::BackupFailed, 4)
    );
    assert_eq!(
        create_fstab_backup("/etc/fstab", &[Reply::Number(5), refused("read-only file system")]),
        Progress::Failed(MountError::IoError("read-only file system".to_string()), 2)
    );
}

#[test]
fn restore_copies_the_backup_over_the_table() {
    assert_eq!(
        restore_fstab_backup("/etc/fstab", "/etc/fstab.backup.7", &[]),
        Progress::Run(Operation::CopyFile {
            from: "/etc/fstab.backup.7".to_string(),
            to: "/etc/fstab".to_string(),
        })
    );
    assert_eq!(
        restore_fstab_backup("/etc/fstab", "/etc/fstab.backup.7", &[Reply::Finished]),
        Progress::Done((), 1)
    );
    assert_eq!(
        restore_fstab_backup("/etc/fstab", "/etc/fstab.backup.7", &[refused("gone")]),
        Progress::Failed(MountError::IoError("gone".to_string()), 1)
    );
}

#[test]
fn uuid_is_the_first_line_that_names_it() {
    assert_eq!(
        device_uuid("/dev/sda1", &[]),
        Progress::Run(Operation::Command(texts(&[
            "sudo", "blkid", "/dev/sda1", "-s", "UUID", "-o", "export"
        ])))
    );
    assert_eq!(
        device_uuid("/dev/sda1", &[exited(true, "DEVNAME=/dev/sda1\nUUID=abc\nUUID=def\n", "")]),
        Progress::Done("UUID=abc".to_string(), 1)
    );
    assert_eq!(
        device_uuid("/dev/sda1", &[exited(true, "DEVNAME=/dev/sda1\nPARTUUID=abc\n", "")]),
        Progress::Failed(MountError::UuidNotFound("/dev/sda1".to_string()), 1)
    );
    assert_eq!(
        device_uuid("/dev/sda1", &[exited(false, "UUID=abc\n", "no such device")]),
        Progress::Failed(MountError::CommandFailed("no such device".to_string()), 1)
    );
    assert_eq!(
        device_uuid("/dev/sda1", &[refused("no sudo")]),
        Progress::Failed(MountError::IoError("no sudo".to_string()), 1)
    );
}

#[test]
fn an_existing_mount_point_is_good_enough() {
    assert_eq!(
        create_mount_point("/mnt/sda1", &[]),
        Progress::Run(Operation::CreateDirectories("/mnt/sda1".to_string()))
    );
    assert_eq!(create_mount_point("/mnt/sda1", &[Reply::Finished]), Progress::Done((), 1));
    assert_eq!(
        create_mount_point(
            "/mnt/sda1",
            &[Reply::Failed { already_exists: true, message: "File exists".to_string() }]
        ),
        Progress::Done((), 1)
    );
    assert_eq!(
        create_mount_point("/mnt/sda1", &[refused("Permission denied")]),
        Progress::Failed(
            MountError::MountPointCreationFailed(
                "Failed to create /mnt/sda1: Permission denied".to_string()
            ),
            1
        )
    );
}

#[test]
fn entry_takes_its_mount_point_from_the_device_name() {
    let config = MountConfig {
        filesystem_type: "xfs".to_string(),
        mount_options: "noatime".to_string(),
        mount_base_path: "/srv/disks".to_string(),
        backup_fstab: true,
        validate_before_write: true,
    };
    let replies = [exited(true, "UUID=abc\n", ""), Reply::Finished];
    assert_eq!(
        prepare_mount_entry("/dev/sdb1", &config, &replies[..1]),
        Progress::Run(Operation::CreateDirectories("/srv/disks/sdb1".to_string()))
    );
    assert_eq!(
        prepare_mount_entry("/dev/sdb1", &config, &replies),
        Progress::Done(
            MountEntry {
                device: "/dev/sdb1".to_string(),
                uuid: "UUID=abc".to_string(),
                mount_point: "/srv/disks/sdb1".to_string(),
                filesystem: "xfs".to_string(),
                options: "noatime".to_string(),
            },
            2
        )
    );
}

#[test]
fn a_device_that_fails_is_recorded_and_left_out() {
    let config = MountConfig::default();
    let devices = texts(&["/dev/sda1", "sdb1", "/dev/sdc1"]);
    let replies =
        [exited(true, "PARTUUID=1\n", ""), exited(true, "UUID=c\n", ""), Reply::Finished];
    assert_eq!(
        prepare_mount_entries(&devices, &config, &replies),
        Progress::Done(
            (
                vec![entry("/dev/sdc1", "UUID=c", "/mnt/sdc1")],
                vec![
                    MountResult {
                        device: "/dev/sda1".to_string(),
                        mount_point: String::new(),
                        success: false,
                        error_message: Some("UUID not found for device: /dev/sda1".to_string()),
                    },
                    MountResult {
                        device: "sdb1".to_string(),
                        mount_point: String::new(),
                        success: false,
                        error_message: Some("Invalid device path: sdb1".to_string()),
                    },
                    MountResult {
                        device: "/dev/sdc1".to_string(),
                        mount_point: "/mnt/sdc1".to_string(),
                        success: true,
                        error_message: None,
                    },
                ]
            ),
            3
        )
    );
}

#[test]
fn table_line_has_six_fields() {
    let line = format_table_line(&entry("/dev/sda1", "UUID=12345", "/mnt/sda1"));
    assert_eq!(line, "UUID=12345  /mnt/sda1  ext4  rw,acl  0  0");
    assert_eq!(line.split_whitespace().count(), 6);
}

#[test]
fn rewrite_drops_the_lines_of_the_mount_points_and_appends() {
    let table = texts(&[
        "# static file systems",
        "UUID=root / ext4 defaults 0 1",
        "UUID=old  /mnt/sda1  ext4  rw  0  0",
        "",
        "UUID=other /mnt/sdb1 ext4 rw 0 0",
    ]);
    let entries =
        [entry("/dev/sda1", "UUID=new", "/mnt/sda1"), entry("/dev/sdc1", "UUID=c", "/mnt/sdc1")];
    assert_eq!(
        rewrite_table(&table, &entries),
        texts(&[
            "# static file systems",
            "UUID=root / ext4 defaults 0 1",
            "",
            "UUID=other /mnt/sdb1 ext4 rw 0 0",
            "UUID=new  /mnt/sda1  ext4  rw,acl  0  0",
            "UUID=c  /mnt/sdc1  ext4  rw,acl  0  0",
        ])
    );
    assert_eq!(rewrite_table(&table, &[]), table);
    assert_eq!(
        rewrite_table(&[], &entries[..1]),
        texts(&["UUID=new  /mnt/sda1  ext4  rw,acl  0  0"])
    );
}

#[test]
fn rewriting_twice_is_rewriting_once() {
    let table = texts(&["UUID=root / ext4 defaults 0 1", "UUID=old /mnt/sda1 ext4 rw 0 0"]);
    let entries =
        [entry("/dev/sda1", "UUID=new", "/mnt/sda1"), entry("/dev/sdb1", "UUID=b", "/mnt/sdb1")];
    let once = rewrite_table(&table, &entries);
    let twice = rewrite_table(&once, &entries);
    assert_eq!(once, twice);
    assert_eq!(once.iter().filter(|line| line.contains("/mnt/sda1")).count(), 1);
}

#[test]
fn render_ends_each_line_with_a_line_feed() {
    assert_eq!(render_table(&texts(&["a", "", "b c"])), "a\n\nb c\n");
    assert_eq!(render_table(&[]), "");
}

#[test]
fn a_missing_table_has_no_lines() {
    assert_eq!(
        read_table("/etc/fstab", &[]),
        Progress::Run(Operation::PathExists("/etc/fstab".to_string()))
    );
    assert_eq!(read_table("/etc/fstab", &[Reply::Flag(false)]), Progress::Done(Vec::new(), 1));
    assert_eq!(
        read_table("/etc/fstab", &[Reply::Flag(true)]),
        Progress::Run(Operation::ReadFile("/etc/fstab".to_string()))
    );
    assert_eq!(
        read_table("/etc/fstab", &[Reply::Flag(true), Reply::Text("a\nb\n".to_string())]),
        Progress::Done(texts(&["a", "b"]), 2)
    );
    assert_eq!(
        read_table("/etc/fstab", &[Reply::Flag(true), refused("denied")]),
        Progress::Failed(MountError::IoError("denied".to_string()), 2)
    );
}

#[test]
fn replace_writes_checks_and_moves() {
    let good = "UUID=1  /mnt/a  ext4  rw  0  0\n";
    assert_eq!(
        replace_table("/etc/fstab", good, true, &[]),
        Progress::Run(Operation::WriteFile {
            path: "/etc/fstab.tmp".to_string(),
            content: good.to_string(),
        })
    );
    assert_eq!(
        replace_table("/etc/fstab", good, true, &[Reply::Finished]),
        Progress::Run(Operation::Rename {
            from: "/etc/fstab.tmp".to_string(),
            to: "/etc/fstab".to_string(),
        })
    );
    assert_eq!(
        replace_table("/etc/fstab", good, true, &[Reply::Finished, Reply::Finished]),
        Progress::Done((), 2)
    );
    assert_eq!(
        replace_table("/etc/fstab", good, true, &[refused("disk full")]),
        Progress::Failed(MountError::IoError("disk full".to_string()), 1)
    );
    assert_eq!(
        replace_table("/etc/fstab", good, true, &[Reply::Finished, refused("busy")]),
        Progress::Failed(MountError::IoError("busy".to_string()), 2)
    );
}

#[test]
fn replace_never_moves_content_that_fails_the_check() {
    let bad = "UUID=1  /mnt/a  ext4  0  0\n";
    let error = MountError::ValidationFailed(
        "Line 1: Invalid fstab format, expected 6 fields, got 5".to_string(),
    );
    assert_eq!(
        replace_table("/etc/fstab", bad, true, &[Reply::Finished]),
        Progress::Failed(error.clone(), 1)
    );
    assert_eq!(
        replace_table("/etc/fstab", bad, true, &[Reply::Finished, Reply::Finished]),
        Progress::Failed(error, 1)
    );
    assert_eq!(
        replace_table("/etc/fstab", bad, false, &[Reply::Finished]),
        Progress::Run(Operation::Rename {
            from: "/etc/fstab.tmp".to_string(),
            to: "/etc/fstab".to_string(),
        })
    );
}

#[test]
fn update_reads_rewrites_and_replaces() {
    let entries = [entry("/dev/sda1", "UUID=new", "/mnt/sda1")];
    let config = MountConfig::default();
    let replies = [
        Reply::Flag(true),
        Reply::Text("UUID=root / ext4 defaults 0 1\nUUID=old /mnt/sda1 ext4 rw 0 0\n".to_string()),
        Reply::Finished,
        Reply::Finished,
    ];
    assert_eq!(
        update_fstab_safe("/etc/fstab", &entries, &config, &replies[..2]),
        Progress::Run(Operation::WriteFile {
            path: "/etc/fstab.tmp".to_string(),
            content: "UUID=root / ext4 defaults 0 1\nUUID=new  /mnt/sda1  ext4  rw,acl  0  0\n"
                .to_string(),
        })
    );
    assert_eq!(
        update_fstab_safe("/etc/fstab", &entries, &config, &replies),
        Progress::Done((), 4)
    );
}

#[test]
fn apply_mounts_all() {
    assert_eq!(
        apply_mounts(&[]),
        Progress::Run(Operation::Command(texts(&["sudo", "mount", "-a"])))
    );
    assert_eq!(apply_mounts(&[exited(true, "", "")]), Progress::Done((), 1));
    assert_eq!(
        apply_mounts(&[exited(false, "", "wrong fs type")]),
        Progress::Failed(MountError::CommandFailed("wrong fs type".to_string()), 1)
    );
    assert_eq!(
        apply_mounts(&[refused("no sudo")]),
        Progress::Failed(MountError::IoError("no sudo".to_string()), 1)
    );
}

#[test]
fn registration_begins_with_the_backup() {
    let devices = texts(&["/dev/sda1"]);
    assert_eq!(mount_devices(&devices, &[]), Progress::Run(Operation::UnixTime));
    assert_eq!(
        mount_devices_with_config(&devices, MountConfig::default(), &[Reply::Number(9)]),
        Progress::Run(Operation::CopyFile {
            from: "/etc/fstab".to_string(),
            to: "/etc/fstab.backup.9".to_string(),
        })
    );
    let without = MountConfig { backup_fstab: false, ..MountConfig::default() };
    assert_eq!(
        mount_devices_with_config(&devices, without, &[]),
        Progress::Run(Operation::Command(texts(&[
            "sudo", "blkid", "/dev/sda1", "-s", "UUID", "-o", "export"
        ])))
    );
}

#[test]
fn a_failed_backup_ends_the_registration_before_anything_is_touched() {
    let mut system = System::with_table("UUID=root / ext4 defaults 0 1\n");
    system.files.remove("/etc/fstab");
    let result = system.register(&texts(&["/dev/sda1"]), &MountConfig::default());
    assert_eq!(result, Err(MountError::IoError("No such file or directory".to_string())));
    assert_eq!(system.log.len(), 2);
    assert!(system.files.is_empty());
    assert!(system.directories.is_empty());
}

#[test]
fn registration_writes_the_table_and_applies_it() {
    let before = "# table\nUUID=root / ext4 defaults 0 1\n";
    let mut system = System::with_table(before);
    let result = system.register(&texts(&["/dev/sda1", "/dev/sdb1"]), &MountConfig::default());
    assert_eq!(
        result,
        Ok(vec![
            MountResult {
                device: "/dev/sda1".to_string(),
                mount_point: "/mnt/sda1".to_string(),
                success: true,
                error_message: None,
            },
            MountResult {
                device: "/dev/sdb1".to_string(),
                mount_point: "/mnt/sdb1".to_string(),
                success: true,
                error_message: None,
            },
        ])
    );
    assert_eq!(
        system.table(),
        "# table\nUUID=root / ext4 defaults 0 1\nUUID=id-sda1  /mnt/sda1  ext4  rw,acl  0  0\n\
         UUID=id-sdb1  /mnt/sdb1  ext4  rw,acl  0  0\n"
    );
    assert_eq!(system.files["/etc/fstab.backup.1700000000"], before);
    assert!(!system.files.contains_key("/etc/fstab.tmp"));
    assert!(system.directories.contains("/mnt/sda1"));
    assert_eq!(
        system.log.last(),
        Some(&Operation::Command(texts(&["sudo", "mount", "-a"])))
    );
}

#[test]
fn registering_twice_leaves_one_entry() {
    let mut system = System::with_table("UUID=root / ext4 defaults 0 1\n");
    let config = MountConfig::default();
    let devices = texts(&["/dev/sda1"]);
    assert!(system.register(&devices, &config).is_ok());
    let once = system.table().to_string();
    system.time += 60;
    assert!(system.register(&devices, &config).is_ok());
    assert_eq!(system.table(), once);
    assert_eq!(system.table().lines().filter(|line| line.contains("/mnt/sda1")).count(), 1);
}

#[test]
fn without_entries_the_table_is_left_alone() {
    let before = "UUID=root / ext4 defaults 0 1\n";
    let mut system = System::with_table(before);
    let result = system.register(&texts(&["sda1", "sdb1"]), &MountConfig::default());
    assert_eq!(
        result,
        Ok(vec![
            MountResult {
                device: "sda1".to_string(),
                mount_point: String::new(),
                success: false,
                error_message: Some("Invalid device path: sda1".to_string()),
            },
            MountResult {
                device: "sdb1".to_string(),
                mount_point: String::new(),
                success: false,
                error_message: Some("Invalid device path: sdb1".to_string()),
            },
        ])
    );
    assert_eq!(system.table(), before);
    assert!(system.log.iter().all(|operation| !matches!(
        operation,
        Operation::WriteFile { .. } | Operation::Rename { .. } | Operation::Command(_)
    )));
}

#[test]
fn a_table_that_fails_the_check_is_never_installed() {
    let before = "UUID=root / ext4 defaults 0 1\n";
    for backup_fstab in [true, false] {
        let mut system = System::with_table(before);
        let config = MountConfig {
            mount_options: String::new(),
            backup_fstab,
            ..MountConfig::default()
        };
        let result = system.register(&texts(&["/dev/sda1"]), &config);
        assert_eq!(
            result,
            Err(MountError::ValidationFailed(
                "Line 2: Invalid fstab format, expected 6 fields, got 5".to_string()
            ))
        );
        assert_eq!(system.table(), before);
        assert!(system.log.iter().all(|operation| !matches!(
            operation,
            Operation::Rename { .. }
        )));
        assert!(!system.log.contains(&Operation::Command(texts(&["sudo", "mount", "-a"]))));
    }
}

#[test]
fn a_failed_apply_puts_the_table_back() {
    let before = "UUID=root / ext4 defaults 0 1\nUUID=old /mnt/sda1 ext4 rw 0 0\n";
    let mut system = System::with_table(before);
    system.apply_fails = true;
    let result = system.register(&texts(&["/dev/sda1"]), &MountConfig::default());
    assert_eq!(result, Err(MountError::CommandFailed("mount: wrong fs type".to_string())));
    assert_eq!(system.table(), before);
    assert_eq!(
        system.log.last(),
        Some(&Operation::CopyFile {
            from: "/etc/fstab.backup.1700000000".to_string(),
            to: "/etc/fstab".to_string(),
        })
    );
}

#[test]
fn without_a_backup_a_failed_apply_leaves_the_new_table() {
    let before = "UUID=root / ext4 defaults 0 1\n";
    let mut system = System::with_table(before);
    system.apply_fails = true;
    let config = MountConfig { backup_fstab: false, ..MountConfig::default() };
    let result = system.register(&texts(&["/dev/sda1"]), &config);
    assert_eq!(result, Err(MountError::CommandFailed("mount: wrong fs type".to_string())));
    assert_eq!(
        system.table(),
        "UUID=root / ext4 defaults 0 1\nUUID=id-sda1  /mnt/sda1  ext4  rw,acl  0  0\n"
    );
}

#[test]
fn a_rollback_that_fails_does_not_hide_the_error() {
    let devices = texts(&["/dev/sda1"]);
    let replies = [
        Reply::Number(1),
        Reply::Finished,
        Reply::Number(10),
        Reply::Number(10),
        exited(true, "UUID=a\n", ""),
        Reply::Finished,
        Reply::Flag(false),
        Reply::Finished,
        Reply::Finished,
        exited(false, "", "mount failed"),
        refused("backup is gone"),
    ];
    assert_eq!(
        mount_devices(&devices, &replies[..10]),
        Progress::Run(Operation::CopyFile {
            from: "/etc/fstab.backup.1".to_string(),
            to: "/etc/fstab".to_string(),
        })
    );
    assert_eq!(
        mount_devices(&devices, &replies),
        Progress::Failed(MountError::CommandFailed("mount failed".to_string()), 11)
    );
}
