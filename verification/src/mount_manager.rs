//! Registration of partitions in the table of persistent mounts: the table
//! is saved, rewritten through a temporary file, checked, moved into place
//! and applied, and put back as it was where a later step fails.

use vstd::prelude::*;
use crate::command::{
    command_plan, copy_file, copy_file_plan, create_directories, create_directories_plan,
    file_length, file_length_plan, lemma_push_deep_view, path_exists, path_exists_plan, read_file,
    read_file_plan, rename, rename_plan, rest, result_view, run_command, unix_time,
    unix_time_plan, words, write_file, write_file_plan, OperationView, Progress, ProgressView,
    Reply, ReplyView,
};
use crate::text::{
    concat, contains, contains_text, count_fields, decimal, decimal_text, field_count,
    last_path_segment, last_segment, lines, occurs_at, split_lines, starts_with, to_chars, trim,
    trimmed,
};

verus! {

/// Why a registration failed.
#[derive(Debug, Clone, PartialEq, Eq)]
pub enum MountError {
    /// The system refused an operation; this is its diagnostic.
    IoError(String),
    /// A tool ended with a status other than zero; this is what it wrote to
    /// its standard error.
    CommandFailed(String),
    /// The path is not below `/dev/`.
    InvalidDevice(String),
    /// The directory to mount on could not be created.
    MountPointCreationFailed(String),
    /// The copy of the table does not have the length of the table.
    BackupFailed,
    /// The new table holds a line that is no entry; the text says which.
    ValidationFailed(String),
    /// The device has no persistent identifier.
    UuidNotFound(String),
    PermissionDenied,
}

/// What a `MountError` is, over characters.
pub enum MountErrorView {
    IoError(Seq<char>),
    CommandFailed(Seq<char>),
    InvalidDevice(Seq<char>),
    MountPointCreationFailed(Seq<char>),
    BackupFailed,
    ValidationFailed(Seq<char>),
    UuidNotFound(Seq<char>),
    PermissionDenied,
}

impl DeepView for MountError {
    type V = MountErrorView;

    open spec fn deep_view(&self) -> MountErrorView {
        match self {
            MountError::IoError(text) => MountErrorView::IoError(text@),
            MountError::CommandFailed(text) => MountErrorView::CommandFailed(text@),
            MountError::InvalidDevice(path) => MountErrorView::InvalidDevice(path@),
            MountError::MountPointCreationFailed(text) => MountErrorView::MountPointCreationFailed(
                text@,
            ),
            MountError::BackupFailed => MountErrorView::BackupFailed,
            MountError::ValidationFailed(text) => MountErrorView::ValidationFailed(text@),
            MountError::UuidNotFound(path) => MountErrorView::UuidNotFound(path@),
            MountError::PermissionDenied => MountErrorView::PermissionDenied,
        }
    }
}

impl View for MountError {
    type V = MountErrorView;

    open spec fn view(&self) -> MountErrorView {
        self.deep_view()
    }
}

impl MountErrorView {
    /// The error as a line for the operator.
    pub open spec fn message(self) -> Seq<char> {
        match self {
            MountErrorView::IoError(text) => "IO error: "@ + text,
            MountErrorView::CommandFailed(text) => "Command failed: "@ + text,
            MountErrorView::InvalidDevice(path) => "Invalid device path: "@ + path,
            MountErrorView::MountPointCreationFailed(text) => "Mount point creation failed: "@
                + text,
            MountErrorView::BackupFailed => "Fstab backup failed"@,
            MountErrorView::ValidationFailed(text) => "Fstab validation failed: "@ + text,
            MountErrorView::UuidNotFound(path) => "UUID not found for device: "@ + path,
            MountErrorView::PermissionDenied => "Permission denied"@,
        }
    }
}

impl MountError {
    /// The error as a line for the operator.
    pub fn message(&self) -> (r: String)
        ensures
            r@ == self@.message(),
    {
        match self {
            MountError::IoError(text) => concat("IO error: ", text.as_str()),
            MountError::CommandFailed(text) => concat("Command failed: ", text.as_str()),
            MountError::InvalidDevice(path) => concat("Invalid device path: ", path.as_str()),
            MountError::MountPointCreationFailed(text) => concat(
                "Mount point creation failed: ",
                text.as_str(),
            ),
            MountError::BackupFailed => "Fstab backup failed".to_owned(),
            MountError::ValidationFailed(text) => concat(
                "Fstab validation failed: ",
                text.as_str(),
            ),
            MountError::UuidNotFound(path) => concat("UUID not found for device: ", path.as_str()),
            MountError::PermissionDenied => "Permission denied".to_owned(),
        }
    }
}

/// How partitions are registered.
#[derive(Debug, Clone, PartialEq, Eq)]
pub struct MountConfig {
    /// The kind of file system that the entries name.
    pub filesystem_type: String,
    /// The mount options that the entries name.
    pub mount_options: String,
    /// The directory below which each partition gets its mount point.
    pub mount_base_path: String,
    /// Save the table before it is touched.
    pub backup_fstab: bool,
    /// Check the new table before it replaces the old one.
    pub validate_before_write: bool,
}

/// What a `MountConfig` is, over characters.
pub struct MountConfigView {
    pub filesystem_type: Seq<char>,
    pub mount_options: Seq<char>,
    pub mount_base_path: Seq<char>,
    pub backup_fstab: bool,
    pub validate_before_write: bool,
}

impl DeepView for MountConfig {
    type V = MountConfigView;

    open spec fn deep_view(&self) -> MountConfigView {
        MountConfigView {
            filesystem_type: self.filesystem_type@,
            mount_options: self.mount_options@,
            mount_base_path: self.mount_base_path@,
            backup_fstab: self.backup_fstab,
            validate_before_write: self.validate_before_write,
        }
    }
}

impl View for MountConfig {
    type V = MountConfigView;

    open spec fn view(&self) -> MountConfigView {
        self.deep_view()
    }
}

/// The configuration where none is given: ext4 with `rw,acl` below `/mnt`,
/// with backup and check.
pub open spec fn default_config() -> MountConfigView {
    MountConfigView {
        filesystem_type: "ext4"@,
        mount_options: "rw,acl"@,
        mount_base_path: "/mnt"@,
        backup_fstab: true,
        validate_before_write: true,
    }
}

impl Default for MountConfig {
    fn default() -> (r: Self)
        ensures
            r@ == default_config(),
    {
        MountConfig {
            filesystem_type: "ext4".to_owned(),
            mount_options: "rw,acl".to_owned(),
            mount_base_path: "/mnt".to_owned(),
            backup_fstab: true,
            validate_before_write: true,
        }
    }
}

/// One entry of the table, as it is prepared for a partition.
#[derive(Debug, Clone, PartialEq, Eq)]
pub struct MountEntry {
    pub device: String,
    /// The persistent identifier, in the form `UUID=...`.
    pub uuid: String,
    pub mount_point: String,
    pub filesystem: String,
    pub options: String,
}

/// What a `MountEntry` is, over characters.
pub struct MountEntryView {
    pub device: Seq<char>,
    pub uuid: Seq<char>,
    pub mount_point: Seq<char>,
    pub filesystem: Seq<char>,
    pub options: Seq<char>,
}

impl DeepView for MountEntry {
    type V = MountEntryView;

    open spec fn deep_view(&self) -> MountEntryView {
        MountEntryView {
            device: self.device@,
            uuid: self.uuid@,
            mount_point: self.mount_point@,
            filesystem: self.filesystem@,
            options: self.options@,
        }
    }
}

impl View for MountEntry {
    type V = MountEntryView;

    open spec fn view(&self) -> MountEntryView {
        self.deep_view()
    }
}

/// What became of one partition in a registration.
#[derive(Debug, Clone, PartialEq, Eq)]
pub struct MountResult {
    pub device: String,
    /// The mount point that was prepared; empty where none was.
    pub mount_point: String,
    pub success: bool,
    pub error_message: Option<String>,
}

/// What a `MountResult` is, over characters.
pub struct MountResultView {
    pub device: Seq<char>,
    pub mount_point: Seq<char>,
    pub success: bool,
    pub error_message: Option<Seq<char>>,
}

impl DeepView for MountResult {
    type V = MountResultView;

    open spec fn deep_view(&self) -> MountResultView {
        MountResultView {
            device: self.device@,
            mount_point: self.mount_point@,
            success: self.success,
            error_message: self.error_message.deep_view(),
        }
    }
}

impl View for MountResult {
    type V = MountResultView;

    open spec fn view(&self) -> MountResultView {
        self.deep_view()
    }
}

/// The table of persistent mounts.
pub open spec fn table_path() -> Seq<char> {
    "/etc/fstab"@
}

/// Where the table `table` is saved at the time `time`.
pub open spec fn backup_path(table: Seq<char>, time: u64) -> Seq<char> {
    table + ".backup."@ + decimal_text(time as nat)
}

/// Where the new content of the table `table` is written before it
/// replaces the table.
pub open spec fn temporary_path(table: Seq<char>) -> Seq<char> {
    table + ".tmp"@
}

/// The failure of a plan after `used` replies, with the system's diagnostic
/// `message`.
pub open spec fn io_failed<T>(message: Seq<char>, used: int) -> ProgressView<T, MountErrorView> {
    ProgressView::Failed(MountErrorView::IoError(message), used)
}

/// Plan of `create_fstab_backup`: the table is copied to a path that holds
/// the time, and the copy counts only where it is as long as the table.
pub open spec fn backup_plan(table: Seq<char>, replies: Seq<ReplyView>) -> ProgressView<
    Seq<char>,
    MountErrorView,
> {
    match unix_time_plan(replies) {
        ProgressView::Run(operation) => ProgressView::Run(operation),
        ProgressView::Failed(failure, used) => io_failed(failure.message, used),
        ProgressView::Done(time, n1) => {
            let copy = backup_path(table, time);
            match copy_file_plan(table, copy, replies.skip(n1)) {
                ProgressView::Run(operation) => ProgressView::Run(operation),
                ProgressView::Failed(failure, n) => io_failed(failure.message, n1 + n),
                ProgressView::Done(_, n2) => match file_length_plan(table, replies.skip(n1 + n2)) {
                    ProgressView::Run(operation) => ProgressView::Run(operation),
                    ProgressView::Failed(failure, n) => io_failed(failure.message, n1 + n2 + n),
                    ProgressView::Done(length, n3) => match file_length_plan(
                        copy,
                        replies.skip(n1 + n2 + n3),
                    ) {
                        ProgressView::Run(operation) => ProgressView::Run(operation),
                        ProgressView::Failed(failure, n) => io_failed(
                            failure.message,
                            n1 + n2 + n3 + n,
                        ),
                        ProgressView::Done(copied, n4) => if length == copied {
                            ProgressView::Done(copy, n1 + n2 + n3 + n4)
                        } else {
                            ProgressView::Failed(MountErrorView::BackupFailed, n1 + n2 + n3 + n4)
                        },
                    },
                },
            }
        },
    }
}

/// Saves the table `fstab_path` beside itself and gives the path of the
/// copy.
pub fn create_fstab_backup(fstab_path: &str, replies: &[Reply]) -> (r: Progress<
    String,
    MountError,
>)
    ensures
        r@ == backup_plan(fstab_path@, replies.deep_view()),
        r@.within(replies.len() as int),
{
    let (time, n1) = match unix_time(replies) {
        Progress::Run(operation) => {
            return Progress::Run(operation);
        },
        Progress::Failed(failure, used) => {
            return Progress::Failed(MountError::IoError(failure.message), used);
        },
        Progress::Done(time, used) => (time, used),
    };
    let mut copy = concat(fstab_path, ".backup.");
    copy.append(decimal(time).as_str());
    let n2 = match copy_file(fstab_path, copy.as_str(), rest(replies, n1)) {
        Progress::Run(operation) => {
            return Progress::Run(operation);
        },
        Progress::Failed(failure, n) => {
            return Progress::Failed(MountError::IoError(failure.message), n1 + n);
        },
        Progress::Done(_, n) => n1 + n,
    };
    let (length, n3) = match file_length(fstab_path, rest(replies, n2)) {
        Progress::Run(operation) => {
            return Progress::Run(operation);
        },
        Progress::Failed(failure, n) => {
            return Progress::Failed(MountError::IoError(failure.message), n2 + n);
        },
        Progress::Done(length, n) => (length, n2 + n),
    };
    match file_length(copy.as_str(), rest(replies, n3)) {
        Progress::Run(operation) => Progress::Run(operation),
        Progress::Failed(failure, n) => Progress::Failed(
            MountError::IoError(failure.message),
            n3 + n,
        ),
        Progress::Done(copied, n) => if length == copied {
            Progress::Done(copy, n3 + n)
        } else {
            Progress::Failed(MountError::BackupFailed, n3 + n)
        },
    }
}

/// Plan of `restore_fstab_backup`.
pub open spec fn restore_plan(
    table: Seq<char>,
    backup: Seq<char>,
    replies: Seq<ReplyView>,
) -> ProgressView<(), MountErrorView> {
    match copy_file_plan(backup, table, replies) {
        ProgressView::Run(operation) => ProgressView::Run(operation),
        ProgressView::Failed(failure, used) => io_failed(failure.message, used),
        ProgressView::Done(_, used) => ProgressView::Done((), used),
    }
}

/// Puts the saved copy `backup_path` back in the place of the table.
pub fn restore_fstab_backup(fstab_path: &str, backup_path: &str, replies: &[Reply]) -> (r: Progress<
    (),
    MountError,
>)
    ensures
        r@ == restore_plan(fstab_path@, backup_path@, replies.deep_view()),
        r@.within(replies.len() as int),
{
    match copy_file(backup_path, fstab_path, replies) {
        Progress::Run(operation) => Progress::Run(operation),
        Progress::Failed(failure, used) => Progress::Failed(
            MountError::IoError(failure.message),
            used,
        ),
        Progress::Done(_, used) => Progress::Done((), used),
    }
}

/// The query for the persistent identifier of `device`.
pub open spec fn uuid_command(device: Seq<char>) -> Seq<Seq<char>> {
    seq!["sudo"@, "blkid"@, device, "-s"@, "UUID"@, "-o"@, "export"@]
}

/// The first of `rows` that begins with `UUID=`.
pub open spec fn uuid_row(rows: Seq<Seq<char>>) -> Option<Seq<char>>
    decreases rows.len(),
{
    if rows.len() == 0 {
        None
    } else if "UUID="@.is_prefix_of(rows.first()) {
        Some(rows.first())
    } else {
        uuid_row(rows.drop_first())
    }
}

/// Plan of `device_uuid`: the identification tool prints the identifier of
/// the device as a line `UUID=...`, and the plan gives that line.
pub open spec fn uuid_plan(device: Seq<char>, replies: Seq<ReplyView>) -> ProgressView<
    Seq<char>,
    MountErrorView,
> {
    match command_plan(uuid_command(device), replies) {
        ProgressView::Run(operation) => ProgressView::Run(operation),
        ProgressView::Failed(failure, used) => io_failed(failure.message, used),
        ProgressView::Done(output, used) => if !output.success {
            ProgressView::Failed(MountErrorView::CommandFailed(output.stderr), used)
        } else {
            match uuid_row(split_lines(output.stdout)) {
                Some(row) => ProgressView::Done(row, used),
                None => ProgressView::Failed(MountErrorView::UuidNotFound(device), used),
            }
        },
    }
}

fn first_uuid_row(rows: &[String]) -> (r: Option<String>)
    ensures
        r.deep_view() == uuid_row(rows.deep_view()),
{
    let mut i: usize = 0;
    assert(rows.deep_view().skip(0) =~= rows.deep_view());
    while i < rows.len()
        invariant
            i <= rows.len(),
            uuid_row(rows.deep_view()) == uuid_row(rows.deep_view().skip(i as int)),
        decreases rows.len() - i,
    {
        if starts_with(rows[i].as_str(), "UUID=") {
            return Some(rows[i].clone());
        }
        assert(rows.deep_view().skip(i as int).drop_first() =~= rows.deep_view().skip(i + 1));
        i += 1;
    }
    None
}

/// The persistent identifier of `device`, in the form `UUID=...`.
pub fn device_uuid(device: &str, replies: &[Reply]) -> (r: Progress<String, MountError>)
    ensures
        r@ == uuid_plan(device@, replies.deep_view()),
        r@.within(replies.len() as int),
{
    let command = words(&["sudo", "blkid", device, "-s", "UUID", "-o", "export"]);
    assert(command.deep_view() =~= uuid_command(device@));
    match run_command(command, replies) {
        Progress::Run(operation) => Progress::Run(operation),
        Progress::Failed(failure, used) => Progress::Failed(
            MountError::IoError(failure.message),
            used,
        ),
        Progress::Done(output, used) => {
            if !output.success {
                return Progress::Failed(MountError::CommandFailed(output.stderr), used);
            }
            let rows = lines(output.stdout.as_str());
            match first_uuid_row(rows.as_slice()) {
                Some(row) => Progress::Done(row, used),
                None => Progress::Failed(MountError::UuidNotFound(device.to_owned()), used),
            }
        },
    }
}

/// What the failure to create the mount point is reported as.
pub open spec fn mount_point_failure(mount_point: Seq<char>, message: Seq<char>) -> MountErrorView {
    MountErrorView::MountPointCreationFailed("Failed to create "@ + mount_point + ": "@ + message)
}

/// Plan of `create_mount_point`: a directory that exists already is as good
/// as one that was created.
pub open spec fn mount_point_plan(mount_point: Seq<char>, replies: Seq<ReplyView>) -> ProgressView<
    (),
    MountErrorView,
> {
    match create_directories_plan(mount_point, replies) {
        ProgressView::Run(operation) => ProgressView::Run(operation),
        ProgressView::Failed(failure, used) => if failure.already_exists {
            ProgressView::Done((), used)
        } else {
            ProgressView::Failed(mount_point_failure(mount_point, failure.message), used)
        },
        ProgressView::Done(_, used) => ProgressView::Done((), used),
    }
}

/// Creates the directory `mount_point`.
pub fn create_mount_point(mount_point: &str, replies: &[Reply]) -> (r: Progress<(), MountError>)
    ensures
        r@ == mount_point_plan(mount_point@, replies.deep_view()),
        r@.within(replies.len() as int),
{
    match create_directories(mount_point, replies) {
        Progress::Run(operation) => Progress::Run(operation),
        Progress::Failed(failure, used) => if failure.already_exists {
            Progress::Done((), used)
        } else {
            let mut text = concat("Failed to create ", mount_point);
            text.append(": ");
            text.append(failure.message.as_str());
            Progress::Failed(MountError::MountPointCreationFailed(text), used)
        },
        Progress::Done(_, used) => Progress::Done((), used),
    }
}

/// `device` is a path below `/dev/`.
pub open spec fn is_device_path(device: Seq<char>) -> bool {
    "/dev/"@.is_prefix_of(device)
}

/// The mount point of `device` below `base`: named as the device is.
pub open spec fn mount_point_of(base: Seq<char>, device: Seq<char>) -> Seq<char> {
    base + "/"@ + last_segment(device)
}

/// Plan of `prepare_mount_entry`: a path that is not below `/dev/` is
/// refused before anything runs; then the identifier is asked for and the
/// mount point created.
pub open spec fn entry_plan(
    device: Seq<char>,
    config: MountConfigView,
    replies: Seq<ReplyView>,
) -> ProgressView<MountEntryView, MountErrorView> {
    if !is_device_path(device) {
        ProgressView::Failed(MountErrorView::InvalidDevice(device), 0)
    } else {
        match uuid_plan(device, replies) {
            ProgressView::Run(operation) => ProgressView::Run(operation),
            ProgressView::Failed(error, used) => ProgressView::Failed(error, used),
            ProgressView::Done(uuid, used) => {
                let mount_point = mount_point_of(config.mount_base_path, device);
                match mount_point_plan(mount_point, replies.skip(used)) {
                    ProgressView::Run(operation) => ProgressView::Run(operation),
                    ProgressView::Failed(error, n) => ProgressView::Failed(error, used + n),
                    ProgressView::Done(_, n) => ProgressView::Done(
                        MountEntryView {
                            device,
                            uuid,
                            mount_point,
                            filesystem: config.filesystem_type,
                            options: config.mount_options,
                        },
                        used + n,
                    ),
                }
            },
        }
    }
}

/// Prepares the entry of `device`: its identifier, and its mount point,
/// which is created.
pub fn prepare_mount_entry(device: &str, config: &MountConfig, replies: &[Reply]) -> (r: Progress<
    MountEntry,
    MountError,
>)
    ensures
        r@ == entry_plan(device@, config@, replies.deep_view()),
        r@.within(replies.len() as int),
{
    if !starts_with(device, "/dev/") {
        return Progress::Failed(MountError::InvalidDevice(device.to_owned()), 0);
    }
    let (uuid, used) = match device_uuid(device, replies) {
        Progress::Run(operation) => {
            return Progress::Run(operation);
        },
        Progress::Failed(error, used) => {
            return Progress::Failed(error, used);
        },
        Progress::Done(uuid, used) => (uuid, used),
    };
    let mut mount_point = concat(config.mount_base_path.as_str(), "/");
    mount_point.append(last_path_segment(device).as_str());
    match create_mount_point(mount_point.as_str(), rest(replies, used)) {
        Progress::Run(operation) => Progress::Run(operation),
        Progress::Failed(error, n) => Progress::Failed(error, used + n),
        Progress::Done(_, n) => Progress::Done(
            MountEntry {
                device: device.to_owned(),
                uuid,
                mount_point,
                filesystem: config.filesystem_type.clone(),
                options: config.mount_options.clone(),
            },
            used + n,
        ),
    }
}

/// The line of the table that registers `entry`.
pub open spec fn table_line(entry: MountEntryView) -> Seq<char> {
    entry.uuid + "  "@ + entry.mount_point + "  "@ + entry.filesystem + "  "@ + entry.options
        + "  0  0"@
}

/// The line of the table that registers `entry`: the identifier, the mount
/// point, the kind of file system and the options, with `0 0` for dump and
/// pass.
pub fn format_table_line(entry: &MountEntry) -> (r: String)
    ensures
        r@ == table_line(entry@),
{
    let mut line = concat(entry.uuid.as_str(), "  ");
    line.append(entry.mount_point.as_str());
    line.append("  ");
    line.append(entry.filesystem.as_str());
    line.append("  ");
    line.append(entry.options.as_str());
    line.append("  0  0");
    line
}

/// `line` holds the mount point of one of `entries`.
pub open spec fn mentions_mount_point(line: Seq<char>, entries: Seq<MountEntryView>) -> bool {
    exists|i: int| 0 <= i < entries.len() && contains_text(line, (#[trigger] entries[i]).mount_point)
}

/// The lines of `table` that hold no mount point of `entries`, in their
/// order.
pub open spec fn retained_lines(table: Seq<Seq<char>>, entries: Seq<MountEntryView>) -> Seq<
    Seq<char>,
>
    decreases table.len(),
{
    if table.len() == 0 {
        Seq::empty()
    } else if mentions_mount_point(table.last(), entries) {
        retained_lines(table.drop_last(), entries)
    } else {
        retained_lines(table.drop_last(), entries).push(table.last())
    }
}

/// One line of the table for each of `entries`, in their order.
pub open spec fn registered_lines(entries: Seq<MountEntryView>) -> Seq<Seq<char>> {
    Seq::new(entries.len(), |i: int| table_line(entries[i]))
}

/// The table `table` with `entries` registered: the lines that hold none of
/// their mount points, followed by one new line for each entry.
pub open spec fn rewritten_table(table: Seq<Seq<char>>, entries: Seq<MountEntryView>) -> Seq<
    Seq<char>,
> {
    retained_lines(table, entries) + registered_lines(entries)
}

fn mentions(line: &str, entries: &[MountEntry]) -> (r: bool)
    ensures
        r == mentions_mount_point(line@, entries.deep_view()),
{
    let mut i: usize = 0;
    while i < entries.len()
        invariant
            i <= entries.len(),
            forall|j: int|
                0 <= j < i ==> !contains_text(line@, (#[trigger] entries.deep_view()[j]).mount_point),
        decreases entries.len() - i,
    {
        if contains(line, entries[i].mount_point.as_str()) {
            assert(contains_text(line@, entries.deep_view()[i as int].mount_point));
            return true;
        }
        i += 1;
    }
    false
}

/// Registers `entries` in the lines `table` of a table.
pub fn rewrite_table(table: &[String], entries: &[MountEntry]) -> (r: Vec<String>)
    ensures
        r.deep_view() == rewritten_table(table.deep_view(), entries.deep_view()),
{
    let mut out: Vec<String> = Vec::new();
    let mut i: usize = 0;
    assert(table.deep_view().take(0) =~= Seq::<Seq<char>>::empty());
    assert(out.deep_view() =~= Seq::<Seq<char>>::empty());
    while i < table.len()
        invariant
            i <= table.len(),
            out.deep_view() == retained_lines(table.deep_view().take(i as int), entries.deep_view()),
        decreases table.len() - i,
    {
        proof {
            let before = table.deep_view().take(i + 1);
            assert(before.drop_last() =~= table.deep_view().take(i as int));
            assert(before.last() == table[i as int]@);
        }
        if !mentions(table[i].as_str(), entries) {
            let line = table[i].clone();
            proof {
                lemma_push_deep_view(out@, line);
            }
            out.push(line);
        }
        i += 1;
    }
    assert(table.deep_view().take(table.len() as int) =~= table.deep_view());
    let ghost retained = out.deep_view();
    let mut j: usize = 0;
    assert(registered_lines(entries.deep_view()).take(0) =~= Seq::<Seq<char>>::empty());
    while j < entries.len()
        invariant
            j <= entries.len(),
            out.deep_view() == retained + registered_lines(entries.deep_view()).take(j as int),
        decreases entries.len() - j,
    {
        let line = format_table_line(&entries[j]);
        proof {
            lemma_push_deep_view(out@, line);
            assert(registered_lines(entries.deep_view()).take(j + 1) =~= registered_lines(
                entries.deep_view(),
            ).take(j as int).push(line@));
        }
        out.push(line);
        j += 1;
    }
    assert(registered_lines(entries.deep_view()).take(entries.len() as int) =~= registered_lines(
        entries.deep_view(),
    ));
    out
}

/// The content of a file that holds `table`: each line, ended by a line
/// feed.
pub open spec fn rendered(table: Seq<Seq<char>>) -> Seq<char>
    decreases table.len(),
{
    if table.len() == 0 {
        Seq::empty()
    } else {
        rendered(table.drop_last()) + table.last() + "\n"@
    }
}

/// The content of a file that holds the lines `table`.
pub fn render_table(table: &[String]) -> (r: String)
    ensures
        r@ == rendered(table.deep_view()),
{
    let mut out = String::new();
    let mut i: usize = 0;
    assert(table.deep_view().take(0) =~= Seq::<Seq<char>>::empty());
    while i < table.len()
        invariant
            i <= table.len(),
            out@ == rendered(table.deep_view().take(i as int)),
        decreases table.len() - i,
    {
        proof {
            let before = table.deep_view().take(i + 1);
            assert(before.drop_last() =~= table.deep_view().take(i as int));
            assert(before.last() == table[i as int]@);
        }
        out.append(table[i].as_str());
        out.append("\n");
        i += 1;
    }
    assert(table.deep_view().take(table.len() as int) =~= table.deep_view());
    out
}

/// `line` must be an entry: it is neither blank nor a comment.
pub open spec fn is_entry_line(line: Seq<char>) -> bool {
    trimmed(line).len() > 0 && trimmed(line).first() != '#'
}

/// `line` is acceptable in a table: blank, a comment, or six fields.
pub open spec fn is_table_line(line: Seq<char>) -> bool {
    is_entry_line(line) ==> count_fields(trimmed(line)) == 6
}

/// The place of the first line from `at` on that is not acceptable in a
/// table; the number of lines where there is none.
pub open spec fn first_bad_line(table: Seq<Seq<char>>, at: int) -> int
    decreases table.len() - at,
{
    if at < 0 || at >= table.len() {
        table.len() as int
    } else if !is_table_line(table[at]) {
        at
    } else {
        first_bad_line(table, at + 1)
    }
}

/// What the line at `place`, which is not acceptable, is reported as: its
/// number, counted from one, and the number of its fields.
pub open spec fn bad_line_error(table: Seq<Seq<char>>, place: int) -> MountErrorView {
    MountErrorView::ValidationFailed(
        "Line "@ + decimal_text((place + 1) as nat)
            + ": Invalid fstab format, expected 6 fields, got "@ + decimal_text(
            count_fields(trimmed(table[place])),
        ),
    )
}

/// Whether `content` is the content of a well-formed table: the first line
/// that is neither blank, nor a comment, nor made of six fields fails it.
pub open spec fn checked_table(content: Seq<char>) -> Result<(), MountErrorView> {
    let table = split_lines(content);
    let place = first_bad_line(table, 0);
    if 0 <= place < table.len() {
        Err(bad_line_error(table, place))
    } else {
        Ok(())
    }
}

/// Checks that `content` is the content of a well-formed table.
pub fn validate_fstab(content: &str) -> (r: Result<(), MountError>)
    ensures
        result_view(r) == checked_table(content@),
{
    let table = lines(content);
    let mut i: usize = 0;
    while i < table.len()
        invariant
            i <= table.len(),
            table.deep_view() == split_lines(content@),
            first_bad_line(table.deep_view(), 0) == first_bad_line(table.deep_view(), i as int),
        decreases table.len() - i,
    {
        let line = trim(table[i].as_str());
        let shown = to_chars(line.as_str());
        assert(table.deep_view()[i as int] == table[i as int]@);
        if shown.len() > 0 && shown[0] != '#' {
            let fields = field_count(line.as_str());
            if fields != 6 {
                let mut text = concat("Line ", decimal((i + 1) as u64).as_str());
                text.append(": Invalid fstab format, expected 6 fields, got ");
                text.append(decimal(fields as u64).as_str());
                return Err(MountError::ValidationFailed(text));
            }
        }
        i += 1;
    }
    Ok(())
}

/// Plan of reading the lines of the table `table`, where a table that does
/// not exist, or whose existence cannot be told, has no lines.
pub open spec fn read_table_plan(table: Seq<char>, replies: Seq<ReplyView>) -> ProgressView<
    Seq<Seq<char>>,
    MountErrorView,
> {
    match path_exists_plan(table, replies) {
        ProgressView::Run(operation) => ProgressView::Run(operation),
        ProgressView::Failed(_, used) => ProgressView::Done(Seq::empty(), used),
        ProgressView::Done(exists, used) => if !exists {
            ProgressView::Done(Seq::empty(), used)
        } else {
            match read_file_plan(table, replies.skip(used)) {
                ProgressView::Run(operation) => ProgressView::Run(operation),
                ProgressView::Failed(failure, n) => io_failed(failure.message, used + n),
                ProgressView::Done(content, n) => ProgressView::Done(
                    split_lines(content),
                    used + n,
                ),
            }
        },
    }
}

/// Reads the lines of the table `fstab_path`.
pub fn read_table(fstab_path: &str, replies: &[Reply]) -> (r: Progress<Vec<String>, MountError>)
    ensures
        r@ == read_table_plan(fstab_path@, replies.deep_view()),
        r@.within(replies.len() as int),
{
    let nothing: Vec<String> = Vec::new();
    assert(nothing.deep_view() =~= Seq::<Seq<char>>::empty());
    match path_exists(fstab_path, replies) {
        Progress::Run(operation) => Progress::Run(operation),
        Progress::Failed(_, used) => Progress::Done(nothing, used),
        Progress::Done(exists, used) => if !exists {
            Progress::Done(nothing, used)
        } else {
            match read_file(fstab_path, rest(replies, used)) {
                Progress::Run(operation) => Progress::Run(operation),
                Progress::Failed(failure, n) => Progress::Failed(
                    MountError::IoError(failure.message),
                    used + n,
                ),
                Progress::Done(content, n) => Progress::Done(lines(content.as_str()), used + n),
            }
        },
    }
}

/// Plan of replacing the table `table` by `content`: the content is written
/// to the temporary file in full, then checked where `validate` asks for
/// it, and only then moved over the table.
pub open spec fn replace_plan(
    table: Seq<char>,
    content: Seq<char>,
    validate: bool,
    replies: Seq<ReplyView>,
) -> ProgressView<(), MountErrorView> {
    match write_file_plan(temporary_path(table), content, replies) {
        ProgressView::Run(operation) => ProgressView::Run(operation),
        ProgressView::Failed(failure, used) => io_failed(failure.message, used),
        ProgressView::Done(_, used) => match checked_table(content) {
            Err(error) if validate => ProgressView::Failed(error, used),
            _ => match rename_plan(temporary_path(table), table, replies.skip(used)) {
                ProgressView::Run(operation) => ProgressView::Run(operation),
                ProgressView::Failed(failure, n) => io_failed(failure.message, used + n),
                ProgressView::Done(_, n) => ProgressView::Done((), used + n),
            },
        },
    }
}

/// Replaces the table `fstab_path` by `content`.
pub fn replace_table(fstab_path: &str, content: &str, validate: bool, replies: &[Reply]) -> (r:
    Progress<(), MountError>)
    ensures
        r@ == replace_plan(fstab_path@, content@, validate, replies.deep_view()),
        r@.within(replies.len() as int),
{
    let temporary = concat(fstab_path, ".tmp");
    let used = match write_file(temporary.as_str(), content, replies) {
        Progress::Run(operation) => {
            return Progress::Run(operation);
        },
        Progress::Failed(failure, used) => {
            return Progress::Failed(MountError::IoError(failure.message), used);
        },
        Progress::Done(_, used) => used,
    };
    if validate {
        if let Err(error) = validate_fstab(content) {
            return Progress::Failed(error, used);
        }
    }
    match rename(temporary.as_str(), fstab_path, rest(replies, used)) {
        Progress::Run(operation) => Progress::Run(operation),
        Progress::Failed(failure, n) => Progress::Failed(
            MountError::IoError(failure.message),
            used + n,
        ),
        Progress::Done(_, n) => Progress::Done((), used + n),
    }
}

/// Plan of `update_fstab_safe`: the table is read, `entries` are registered
/// in its lines, and the table is replaced by the result.
pub open spec fn update_plan(
    table: Seq<char>,
    entries: Seq<MountEntryView>,
    config: MountConfigView,
    replies: Seq<ReplyView>,
) -> ProgressView<(), MountErrorView> {
    match read_table_plan(table, replies) {
        ProgressView::Run(operation) => ProgressView::Run(operation),
        ProgressView::Failed(error, used) => ProgressView::Failed(error, used),
        ProgressView::Done(current, used) => replace_plan(
            table,
            rendered(rewritten_table(current, entries)),
            config.validate_before_write,
            replies.skip(used),
        ).after(used),
    }
}

/// Registers `mount_entries` in the table `fstab_path`.
pub fn update_fstab_safe(
    fstab_path: &str,
    mount_entries: &[MountEntry],
    config: &MountConfig,
    replies: &[Reply],
) -> (r: Progress<(), MountError>)
    ensures
        r@ == update_plan(fstab_path@, mount_entries.deep_view(), config@, replies.deep_view()),
        r@.within(replies.len() as int),
{
    match read_table(fstab_path, replies) {
        Progress::Run(operation) => Progress::Run(operation),
        Progress::Failed(error, used) => Progress::Failed(error, used),
        Progress::Done(current, used) => {
            let table = rewrite_table(current.as_slice(), mount_entries);
            let content = render_table(table.as_slice());
            replace_table(
                fstab_path,
                content.as_str(),
                config.validate_before_write,
                rest(replies, used),
            ).after(used)
        },
    }
}

/// The command that mounts what the table names.
pub open spec fn apply_command() -> Seq<Seq<char>> {
    seq!["sudo"@, "mount"@, "-a"@]
}

/// Plan of `apply_mounts`.
pub open spec fn apply_plan(replies: Seq<ReplyView>) -> ProgressView<(), MountErrorView> {
    match command_plan(apply_command(), replies) {
        ProgressView::Run(operation) => ProgressView::Run(operation),
        ProgressView::Failed(failure, used) => io_failed(failure.message, used),
        ProgressView::Done(output, used) => if output.success {
            ProgressView::Done((), used)
        } else {
            ProgressView::Failed(MountErrorView::CommandFailed(output.stderr), used)
        },
    }
}

/// Mounts what the table names.
pub fn apply_mounts(replies: &[Reply]) -> (r: Progress<(), MountError>)
    ensures
        r@ == apply_plan(replies.deep_view()),
        r@.within(replies.len() as int),
{
    let command = words(&["sudo", "mount", "-a"]);
    assert(command.deep_view() =~= apply_command());
    match run_command(command, replies) {
        Progress::Run(operation) => Progress::Run(operation),
        Progress::Failed(failure, used) => Progress::Failed(
            MountError::IoError(failure.message),
            used,
        ),
        Progress::Done(output, used) => if output.success {
            Progress::Done((), used)
        } else {
            Progress::Failed(MountError::CommandFailed(output.stderr), used)
        },
    }
}

/// The record of a partition whose entry was prepared.
pub open spec fn mount_success(entry: MountEntryView) -> MountResultView {
    MountResultView {
        device: entry.device,
        mount_point: entry.mount_point,
        success: true,
        error_message: None,
    }
}

/// The record of a partition whose entry could not be prepared.
pub open spec fn mount_failure(device: Seq<char>, error: MountErrorView) -> MountResultView {
    MountResultView {
        device,
        mount_point: Seq::empty(),
        success: false,
        error_message: Some(error.message()),
    }
}

/// `prepare_plan` once the first `at` devices gave `entries` and `results`
/// and `used` replies were read.
pub open spec fn prepare_from(
    devices: Seq<Seq<char>>,
    config: MountConfigView,
    replies: Seq<ReplyView>,
    at: int,
    used: int,
    entries: Seq<MountEntryView>,
    results: Seq<MountResultView>,
) -> ProgressView<(Seq<MountEntryView>, Seq<MountResultView>), MountErrorView>
    decreases devices.len() - at,
{
    if at < 0 || at >= devices.len() {
        ProgressView::Done((entries, results), used)
    } else {
        match entry_plan(devices[at], config, replies.skip(used)) {
            ProgressView::Run(operation) => ProgressView::Run(operation),
            ProgressView::Failed(error, n) => prepare_from(
                devices,
                config,
                replies,
                at + 1,
                used + n,
                entries,
                results.push(mount_failure(devices[at], error)),
            ),
            ProgressView::Done(entry, n) => prepare_from(
                devices,
                config,
                replies,
                at + 1,
                used + n,
                entries.push(entry),
                results.push(mount_success(entry)),
            ),
        }
    }
}

/// Plan of preparing the entries of `devices`, in order: the entries that
/// could be prepared, and one record for each device. A device that fails
/// is recorded and left out of the entries, and the others go on.
pub open spec fn prepare_plan(
    devices: Seq<Seq<char>>,
    config: MountConfigView,
    replies: Seq<ReplyView>,
) -> ProgressView<(Seq<MountEntryView>, Seq<MountResultView>), MountErrorView> {
    prepare_from(devices, config, replies, 0, 0, Seq::empty(), Seq::empty())
}

/// Prepares the entries of `devices`. The plan never fails.
pub fn prepare_mount_entries(devices: &[String], config: &MountConfig, replies: &[Reply]) -> (r:
    Progress<(Vec<MountEntry>, Vec<MountResult>), MountError>)
    ensures
        r@ == prepare_plan(devices.deep_view(), config@, replies.deep_view()),
        r@.within(replies.len() as int),
        !(r is Failed),
{
    let mut entries: Vec<MountEntry> = Vec::new();
    let mut results: Vec<MountResult> = Vec::new();
    let mut used: usize = 0;
    let mut at: usize = 0;
    assert(entries.deep_view() =~= Seq::<MountEntryView>::empty());
    assert(results.deep_view() =~= Seq::<MountResultView>::empty());
    while at < devices.len()
        invariant
            at <= devices.len(),
            used <= replies.len(),
            prepare_plan(devices.deep_view(), config@, replies.deep_view()) == prepare_from(
                devices.deep_view(),
                config@,
                replies.deep_view(),
                at as int,
                used as int,
                entries.deep_view(),
                results.deep_view(),
            ),
        decreases devices.len() - at,
    {
        match prepare_mount_entry(devices[at].as_str(), config, rest(replies, used)) {
            Progress::Run(operation) => {
                return Progress::Run(operation);
            },
            Progress::Failed(error, n) => {
                let record = MountResult {
                    device: devices[at].clone(),
                    mount_point: String::new(),
                    success: false,
                    error_message: Some(error.message()),
                };
                proof {
                    lemma_push_deep_view(results@, record);
                }
                results.push(record);
                used = used + n;
            },
            Progress::Done(entry, n) => {
                let record = MountResult {
                    device: entry.device.clone(),
                    mount_point: entry.mount_point.clone(),
                    success: true,
                    error_message: None,
                };
                proof {
                    lemma_push_deep_view(results@, record);
                    lemma_push_deep_view(entries@, entry);
                }
                results.push(record);
                entries.push(entry);
                used = used + n;
            },
        }
        at += 1;
    }
    Progress::Done((entries, results), used)
}

/// Plan of bringing a registration into effect: the table is updated, then
/// applied.
pub open spec fn transaction_plan(
    table: Seq<char>,
    entries: Seq<MountEntryView>,
    config: MountConfigView,
    replies: Seq<ReplyView>,
) -> ProgressView<(), MountErrorView> {
    match update_plan(table, entries, config, replies) {
        ProgressView::Run(operation) => ProgressView::Run(operation),
        ProgressView::Failed(error, used) => ProgressView::Failed(error, used),
        ProgressView::Done(_, used) => apply_plan(replies.skip(used)).after(used),
    }
}

/// Plan of what follows a failure with `error`: where the table was saved,
/// the copy is put back, and whatever becomes of that, the plan fails with
/// `error`.
pub open spec fn rollback_plan(
    table: Seq<char>,
    backup: Option<Seq<char>>,
    error: MountErrorView,
    replies: Seq<ReplyView>,
) -> ProgressView<(), MountErrorView> {
    match backup {
        None => ProgressView::Failed(error, 0),
        Some(copy) => match restore_plan(table, copy, replies) {
            ProgressView::Run(operation) => ProgressView::Run(operation),
            ProgressView::Failed(_, used) => ProgressView::Failed(error, used),
            ProgressView::Done(_, used) => ProgressView::Failed(error, used),
        },
    }
}

/// Plan of the commit of a registration: the transaction, and where it
/// fails the rollback.
pub open spec fn commit_plan(
    table: Seq<char>,
    entries: Seq<MountEntryView>,
    config: MountConfigView,
    backup: Option<Seq<char>>,
    replies: Seq<ReplyView>,
) -> ProgressView<(), MountErrorView> {
    match transaction_plan(table, entries, config, replies) {
        ProgressView::Run(operation) => ProgressView::Run(operation),
        ProgressView::Done(_, used) => ProgressView::Done((), used),
        ProgressView::Failed(error, used) => rollback_plan(
            table,
            backup,
            error,
            replies.skip(used),
        ).after(used),
    }
}

fn roll_back(fstab_path: &str, backup: &Option<String>, error: MountError, replies: &[Reply]) -> (r:
    Progress<(), MountError>)
    ensures
        r@ == rollback_plan(fstab_path@, backup.deep_view(), error@, replies.deep_view()),
        r@.within(replies.len() as int),
{
    match backup {
        None => Progress::Failed(error, 0),
        Some(copy) => match restore_fstab_backup(fstab_path, copy.as_str(), replies) {
            Progress::Run(operation) => Progress::Run(operation),
            Progress::Failed(_, used) => Progress::Failed(error, used),
            Progress::Done(_, used) => Progress::Failed(error, used),
        },
    }
}

fn commit(
    fstab_path: &str,
    entries: &[MountEntry],
    config: &MountConfig,
    backup: &Option<String>,
    replies: &[Reply],
) -> (r: Progress<(), MountError>)
    ensures
        r@ == commit_plan(
            fstab_path@,
            entries.deep_view(),
            config@,
            backup.deep_view(),
            replies.deep_view(),
        ),
        r@.within(replies.len() as int),
{
    let updated = match update_fstab_safe(fstab_path, entries, config, replies) {
        Progress::Run(operation) => {
            return Progress::Run(operation);
        },
        Progress::Failed(error, used) => {
            return roll_back(fstab_path, backup, error, rest(replies, used)).after(used);
        },
        Progress::Done(_, used) => used,
    };
    match apply_mounts(rest(replies, updated)) {
        Progress::Run(operation) => Progress::Run(operation),
        Progress::Done(_, n) => Progress::Done((), updated + n),
        Progress::Failed(error, n) => roll_back(
            fstab_path,
            backup,
            error,
            rest(replies, updated + n),
        ).after(updated + n),
    }
}

/// Plan of the registration of `devices` in the table `table`, once the
/// table was saved as `backup` says and `used` replies were read: the
/// entries are prepared; where none could be, the table is left alone;
/// else the registration is committed.
pub open spec fn registration_after_backup(
    table: Seq<char>,
    devices: Seq<Seq<char>>,
    config: MountConfigView,
    backup: Option<Seq<char>>,
    replies: Seq<ReplyView>,
    used: int,
) -> ProgressView<Seq<MountResultView>, MountErrorView> {
    match prepare_plan(devices, config, replies.skip(used)) {
        ProgressView::Run(operation) => ProgressView::Run(operation),
        ProgressView::Failed(error, n) => ProgressView::Failed(error, used + n),
        ProgressView::Done(prepared, n) => if prepared.0.len() == 0 {
            ProgressView::Done(prepared.1, used + n)
        } else {
            match commit_plan(table, prepared.0, config, backup, replies.skip(used + n)) {
                ProgressView::Run(operation) => ProgressView::Run(operation),
                ProgressView::Failed(error, m) => ProgressView::Failed(error, used + n + m),
                ProgressView::Done(_, m) => ProgressView::Done(prepared.1, used + n + m),
            }
        },
    }
}

/// Plan of the registration of `devices` in the table `table`: the table is
/// saved first where `config` asks for it, and a backup that fails ends the
/// registration before anything is touched.
pub open spec fn registration_plan(
    table: Seq<char>,
    devices: Seq<Seq<char>>,
    config: MountConfigView,
    replies: Seq<ReplyView>,
) -> ProgressView<Seq<MountResultView>, MountErrorView> {
    if config.backup_fstab {
        match backup_plan(table, replies) {
            ProgressView::Run(operation) => ProgressView::Run(operation),
            ProgressView::Failed(error, used) => ProgressView::Failed(error, used),
            ProgressView::Done(copy, used) => registration_after_backup(
                table,
                devices,
                config,
                Some(copy),
                replies,
                used,
            ),
        }
    } else {
        registration_after_backup(table, devices, config, None, replies, 0)
    }
}

/// Registers `devices` in the table `fstab_path` and records for each
/// device what became of it.
pub fn register_mounts(
    fstab_path: &str,
    devices: &[String],
    config: &MountConfig,
    replies: &[Reply],
) -> (r: Progress<Vec<MountResult>, MountError>)
    ensures
        r@ == registration_plan(fstab_path@, devices.deep_view(), config@, replies.deep_view()),
        r@.within(replies.len() as int),
{
    let mut backup: Option<String> = None;
    let mut used: usize = 0;
    if config.backup_fstab {
        match create_fstab_backup(fstab_path, replies) {
            Progress::Run(operation) => {
                return Progress::Run(operation);
            },
            Progress::Failed(error, n) => {
                return Progress::Failed(error, n);
            },
            Progress::Done(copy, n) => {
                backup = Some(copy);
                used = n;
            },
        }
    }
    let (entries, results, prepared) = match prepare_mount_entries(
        devices,
        config,
        rest(replies, used),
    ) {
        Progress::Run(operation) => {
            return Progress::Run(operation);
        },
        Progress::Failed(error, n) => {
            return Progress::Failed(error, used + n);
        },
        Progress::Done(prepared, n) => (prepared.0, prepared.1, used + n),
    };
    if entries.len() == 0 {
        return Progress::Done(results, prepared);
    }
    match commit(fstab_path, entries.as_slice(), config, &backup, rest(replies, prepared)) {
        Progress::Run(operation) => Progress::Run(operation),
        Progress::Failed(error, m) => Progress::Failed(error, prepared + m),
        Progress::Done(_, m) => Progress::Done(results, prepared + m),
    }
}

/// Registers `devices` in the table of persistent mounts as `config` says.
pub fn mount_devices_with_config(devices: &[String], config: MountConfig, replies: &[Reply]) -> (r:
    Progress<Vec<MountResult>, MountError>)
    ensures
        r@ == registration_plan(table_path(), devices.deep_view(), config@, replies.deep_view()),
        r@.within(replies.len() as int),
{
    register_mounts("/etc/fstab", devices, &config, replies)
}

/// Registers `devices` in the table of persistent mounts.
pub fn mount_devices(devices: &[String], replies: &[Reply]) -> (r: Progress<
    Vec<MountResult>,
    MountError,
>)
    ensures
        r@ == registration_plan(
            table_path(),
            devices.deep_view(),
            default_config(),
            replies.deep_view(),
        ),
        r@.within(replies.len() as int),
{
    mount_devices_with_config(devices, MountConfig::default(), replies)
}

/// Number of lines of `table` that hold `text`.
pub open spec fn lines_with(table: Seq<Seq<char>>, text: Seq<char>) -> nat
    decreases table.len(),
{
    if table.len() == 0 {
        0
    } else {
        lines_with(table.drop_last(), text) + if contains_text(table.last(), text) {
            1nat
        } else {
            0nat
        }
    }
}

/// The line that registers an entry holds the entry's mount point.
pub proof fn lemma_table_line_holds_mount_point(entry: MountEntryView)
    ensures
        contains_text(table_line(entry), entry.mount_point),
{
    reveal_strlit("  ");
    let line = table_line(entry);
    let at = (entry.uuid.len() + 2) as int;
    assert(line.subrange(at, at + entry.mount_point.len()) =~= entry.mount_point);
    assert(occurs_at(line, entry.mount_point, at));
}

/// The retained lines of two tables, one after the other, are the retained
/// lines of the first followed by those of the second.
pub proof fn lemma_retained_lines_of_both(
    first: Seq<Seq<char>>,
    second: Seq<Seq<char>>,
    entries: Seq<MountEntryView>,
)
    ensures
        retained_lines(first + second, entries) == retained_lines(first, entries) + retained_lines(
            second,
            entries,
        ),
    decreases second.len(),
{
    if second.len() == 0 {
        assert(first + second =~= first);
        assert(retained_lines(first, entries) + retained_lines(second, entries) =~= retained_lines(
            first,
            entries,
        ));
    } else {
        let both = first + second;
        assert(both.drop_last() =~= first + second.drop_last());
        assert(both.last() == second.last());
        lemma_retained_lines_of_both(first, second.drop_last(), entries);
        assert(retained_lines(both, entries) =~= retained_lines(first, entries) + retained_lines(
            second,
            entries,
        ));
    }
}

/// No retained line holds a mount point of the entries.
pub proof fn lemma_retained_lines_hold_none(table: Seq<Seq<char>>, entries: Seq<MountEntryView>)
    ensures
        forall|i: int|
            0 <= i < retained_lines(table, entries).len() ==> !mentions_mount_point(
                #[trigger] retained_lines(table, entries)[i],
                entries,
            ),
    decreases table.len(),
{
    if table.len() > 0 {
        lemma_retained_lines_hold_none(table.drop_last(), entries);
        let inner = retained_lines(table.drop_last(), entries);
        let all = retained_lines(table, entries);
        assert forall|i: int| 0 <= i < all.len() implies !mentions_mount_point(
            #[trigger] all[i],
            entries,
        ) by {
            if i < inner.len() {
                assert(all[i] == inner[i]);
            }
        }
    }
}

/// A table of which no line holds a mount point of the entries is retained
/// whole.
pub proof fn lemma_all_retained(table: Seq<Seq<char>>, entries: Seq<MountEntryView>)
    requires
        forall|i: int| 0 <= i < table.len() ==> !mentions_mount_point(#[trigger] table[i], entries),
    ensures
        retained_lines(table, entries) == table,
    decreases table.len(),
{
    if table.len() > 0 {
        let front = table.drop_last();
        assert forall|i: int| 0 <= i < front.len() implies !mentions_mount_point(
            #[trigger] front[i],
            entries,
        ) by {
            assert(front[i] == table[i]);
        }
        lemma_all_retained(front, entries);
        assert(!mentions_mount_point(table[table.len() - 1], entries));
        assert(front.push(table.last()) =~= table);
    } else {
        assert(retained_lines(table, entries) =~= table);
    }
}

/// Of a table of which every line holds a mount point of the entries,
/// nothing is retained.
pub proof fn lemma_none_retained(table: Seq<Seq<char>>, entries: Seq<MountEntryView>)
    requires
        forall|i: int| 0 <= i < table.len() ==> mentions_mount_point(#[trigger] table[i], entries),
    ensures
        retained_lines(table, entries) == Seq::<Seq<char>>::empty(),
    decreases table.len(),
{
    if table.len() > 0 {
        let front = table.drop_last();
        assert forall|i: int| 0 <= i < front.len() implies mentions_mount_point(
            #[trigger] front[i],
            entries,
        ) by {
            assert(front[i] == table[i]);
        }
        lemma_none_retained(front, entries);
        assert(mentions_mount_point(table[table.len() - 1], entries));
    }
}

/// Registration is idempotent: to register the same entries in a table in
/// which they are registered leaves the table as it is.
pub proof fn lemma_registration_is_idempotent(
    table: Seq<Seq<char>>,
    entries: Seq<MountEntryView>,
)
    ensures
        rewritten_table(rewritten_table(table, entries), entries) == rewritten_table(
            table,
            entries,
        ),
{
    let retained = retained_lines(table, entries);
    let registered = registered_lines(entries);
    lemma_retained_lines_of_both(retained, registered, entries);
    lemma_retained_lines_hold_none(table, entries);
    lemma_all_retained(retained, entries);
    assert forall|i: int| 0 <= i < registered.len() implies mentions_mount_point(
        #[trigger] registered[i],
        entries,
    ) by {
        lemma_table_line_holds_mount_point(entries[i]);
    }
    lemma_none_retained(registered, entries);
    assert(retained + Seq::<Seq<char>>::empty() =~= retained);
}

/// The lines that hold a text in two tables, one after the other, are
/// those of the first and those of the second.
pub proof fn lemma_lines_with_of_both(
    first: Seq<Seq<char>>,
    second: Seq<Seq<char>>,
    text: Seq<char>,
)
    ensures
        lines_with(first + second, text) == lines_with(first, text) + lines_with(second, text),
    decreases second.len(),
{
    if second.len() == 0 {
        assert(first + second =~= first);
    } else {
        let both = first + second;
        assert(both.drop_last() =~= first + second.drop_last());
        assert(both.last() == second.last());
        lemma_lines_with_of_both(first, second.drop_last(), text);
    }
}

/// No line holds a text of which the table's lines are free.
pub proof fn lemma_lines_with_none(table: Seq<Seq<char>>, text: Seq<char>)
    requires
        forall|i: int| 0 <= i < table.len() ==> !contains_text(#[trigger] table[i], text),
    ensures
        lines_with(table, text) == 0,
    decreases table.len(),
{
    if table.len() > 0 {
        let front = table.drop_last();
        assert forall|i: int| 0 <= i < front.len() implies !contains_text(
            #[trigger] front[i],
            text,
        ) by {
            assert(front[i] == table[i]);
        }
        lemma_lines_with_none(front, text);
        assert(!contains_text(table[table.len() - 1], text));
    }
}

/// To register one entry twice gives the table that registering it once
/// gives, and that table holds the entry's mount point in one line and no
/// more.
pub proof fn lemma_registering_twice_leaves_one_line(table: Seq<Seq<char>>, entry: MountEntryView)
    ensures
        rewritten_table(rewritten_table(table, seq![entry]), seq![entry]) == rewritten_table(
            table,
            seq![entry],
        ),
        lines_with(rewritten_table(table, seq![entry]), entry.mount_point) == 1,
{
    let entries = seq![entry];
    lemma_registration_is_idempotent(table, entries);
    let retained = retained_lines(table, entries);
    let registered = registered_lines(entries);
    lemma_retained_lines_hold_none(table, entries);
    assert forall|i: int| 0 <= i < retained.len() implies !contains_text(
        #[trigger] retained[i],
        entry.mount_point,
    ) by {
        if contains_text(retained[i], entry.mount_point) {
            assert(contains_text(retained[i], entries[0].mount_point));
            assert(mentions_mount_point(retained[i], entries));
        }
    }
    lemma_lines_with_none(retained, entry.mount_point);
    lemma_lines_with_of_both(retained, registered, entry.mount_point);
    lemma_table_line_holds_mount_point(entry);
    assert(registered.len() == 1);
    assert(registered.last() == table_line(entry));
    assert(registered.drop_last() =~= Seq::<Seq<char>>::empty());
    assert(lines_with(registered.drop_last(), entry.mount_point) == 0);
    assert(lines_with(registered, entry.mount_point) == 1);
}

/// The first line that is not acceptable lies at or before every line that
/// is not acceptable.
pub proof fn lemma_first_bad_line(table: Seq<Seq<char>>, at: int, bad: int)
    requires
        0 <= at <= bad < table.len(),
        !is_table_line(table[bad]),
    ensures
        at <= first_bad_line(table, at) <= bad,
        !is_table_line(table[first_bad_line(table, at)]),
    decreases bad - at,
{
    if is_table_line(table[at]) {
        lemma_first_bad_line(table, at + 1, bad);
    }
}

/// Content with a line that is neither blank nor a comment and has fewer
/// than six fields does not pass the check.
pub proof fn lemma_short_line_fails_check(content: Seq<char>, place: int)
    requires
        0 <= place < split_lines(content).len(),
        is_entry_line(split_lines(content)[place]),
        count_fields(trimmed(split_lines(content)[place])) < 6,
    ensures
        checked_table(content) is Err,
{
    lemma_first_bad_line(split_lines(content), 0, place);
}

/// The operation replaces or rewrites the file `path`.
pub open spec fn writes_to(operation: OperationView, path: Seq<char>) -> bool {
    match operation {
        OperationView::WriteFile { path: target, .. } => target == path,
        OperationView::Rename { to, .. } => to == path,
        OperationView::CopyFile { to, .. } => to == path,
        _ => false,
    }
}

/// Content that does not pass the check never replaces the table. With the
/// check switched on, the plan that is to replace the table by such content
/// asks for one operation only, the writing of the temporary file, which is
/// not the table; it never succeeds; and once the temporary file is
/// written it fails with the error of the check.
pub proof fn lemma_unchecked_content_is_not_installed(
    table: Seq<char>,
    content: Seq<char>,
    replies: Seq<ReplyView>,
)
    requires
        checked_table(content) is Err,
    ensures
        match replace_plan(table, content, true, replies) {
            ProgressView::Run(operation) => {
                &&& operation == OperationView::WriteFile {
                    path: temporary_path(table),
                    content,
                }
                &&& !writes_to(operation, table)
            },
            ProgressView::Done(_, _) => false,
            ProgressView::Failed(error, used) => {
                &&& used == 1
                &&& replies.len() > 0
                &&& if replies[0] == ReplyView::Finished {
                    Err::<(), MountErrorView>(error) == checked_table(content)
                } else {
                    error is IoError
                }
            },
        },
{
    reveal_strlit(".tmp");
    assert(temporary_path(table).len() == table.len() + 4);
}

/// With the check switched on, the table is replaced only by content that
/// has passed the check: where the update asks for the move of the
/// temporary file over the table, or has succeeded, the table was read and
/// what was built from it is a well-formed table.
pub proof fn lemma_update_installs_checked_content_only(
    table: Seq<char>,
    entries: Seq<MountEntryView>,
    config: MountConfigView,
    replies: Seq<ReplyView>,
)
    requires
        config.validate_before_write,
    ensures
        ({
            let plan = update_plan(table, entries, config, replies);
            (plan is Done || (plan matches ProgressView::Run(operation) && writes_to(
                operation,
                table,
            ))) ==> (read_table_plan(table, replies) matches ProgressView::Done(current, _)
                && checked_table(rendered(rewritten_table(current, entries))) is Ok)
        }),
{
    reveal_strlit(".tmp");
    assert(temporary_path(table).len() == table.len() + 4);
}

/// A transaction that fails is rolled back. Where the table was saved as
/// `copy` and the transaction, that is the update of the table or its
/// application, has failed with `error`, the commit asks for the copy to be
/// put back over the table, and once that was tried, whatever came of it,
/// fails with `error`.
pub proof fn lemma_failed_transaction_is_rolled_back(
    table: Seq<char>,
    entries: Seq<MountEntryView>,
    config: MountConfigView,
    copy: Seq<char>,
    replies: Seq<ReplyView>,
)
    requires
        transaction_plan(table, entries, config, replies) is Failed,
    ensures
        ({
            let error = transaction_plan(table, entries, config, replies)->Failed_0;
            let used = transaction_plan(table, entries, config, replies)->Failed_1;
            &&& 0 <= used <= replies.len()
            &&& commit_plan(table, entries, config, Some(copy), replies) == if replies.len()
                == used {
                ProgressView::<(), MountErrorView>::Run(
                    OperationView::CopyFile { from: copy, to: table },
                )
            } else {
                ProgressView::<(), MountErrorView>::Failed(error, used + 1)
            }
        }),
{
}

/// A failed application is rolled back. Where the table was saved as
/// `copy`, was updated, and the application of the new table has failed,
/// the commit asks for the copy to be put back over the table, and then
/// fails with the error of the application.
pub proof fn lemma_failed_apply_is_rolled_back(
    table: Seq<char>,
    entries: Seq<MountEntryView>,
    config: MountConfigView,
    copy: Seq<char>,
    replies: Seq<ReplyView>,
)
    requires
        update_plan(table, entries, config, replies) is Done,
        apply_plan(replies.skip(update_plan(table, entries, config, replies).used())) is Failed,
    ensures
        ({
            let updated = update_plan(table, entries, config, replies).used();
            let error = apply_plan(replies.skip(updated))->Failed_0;
            let used = updated + apply_plan(replies.skip(updated))->Failed_1;
            &&& 0 <= used <= replies.len()
            &&& commit_plan(table, entries, config, Some(copy), replies) == if replies.len()
                == used {
                ProgressView::<(), MountErrorView>::Run(
                    OperationView::CopyFile { from: copy, to: table },
                )
            } else {
                ProgressView::<(), MountErrorView>::Failed(error, used + 1)
            }
        }),
{
    lemma_failed_transaction_is_rolled_back(table, entries, config, copy, replies);
}

/// The operation creates, replaces or rewrites a file.
pub open spec fn is_write(operation: OperationView) -> bool {
    operation is WriteFile || operation is Rename || operation is CopyFile
}

/// The plan asks for the operation `operation`.
pub open spec fn asks_for<T>(plan: ProgressView<T, MountErrorView>, operation: OperationView)
    -> bool {
    plan matches ProgressView::Run(asked) && asked == operation
}

/// The preparation of the entries writes no file.
pub proof fn lemma_preparation_writes_no_file(
    devices: Seq<Seq<char>>,
    config: MountConfigView,
    replies: Seq<ReplyView>,
    at: int,
    used: int,
    entries: Seq<MountEntryView>,
    results: Seq<MountResultView>,
)
    ensures
        prepare_from(devices, config, replies, at, used, entries, results) matches ProgressView::Run(
            asked,
        ) ==> !is_write(asked),
    decreases devices.len() - at,
{
    if 0 <= at < devices.len() {
        match entry_plan(devices[at], config, replies.skip(used)) {
            ProgressView::Run(_) => {},
            ProgressView::Failed(error, n) => {
                lemma_preparation_writes_no_file(
                    devices,
                    config,
                    replies,
                    at + 1,
                    used + n,
                    entries,
                    results.push(mount_failure(devices[at], error)),
                );
            },
            ProgressView::Done(entry, n) => {
                lemma_preparation_writes_no_file(
                    devices,
                    config,
                    replies,
                    at + 1,
                    used + n,
                    entries.push(entry),
                    results.push(mount_success(entry)),
                );
            },
        }
    }
}

/// The preparation of the entries reads no more replies than there are.
pub proof fn lemma_preparation_reads_what_is_there(
    devices: Seq<Seq<char>>,
    config: MountConfigView,
    replies: Seq<ReplyView>,
    at: int,
    used: int,
    entries: Seq<MountEntryView>,
    results: Seq<MountResultView>,
)
    requires
        0 <= used <= replies.len(),
    ensures
        !(prepare_from(devices, config, replies, at, used, entries, results) is Run) ==> used
            <= prepare_from(devices, config, replies, at, used, entries, results).used()
            <= replies.len(),
    decreases devices.len() - at,
{
    if 0 <= at < devices.len() {
        match entry_plan(devices[at], config, replies.skip(used)) {
            ProgressView::Run(_) => {},
            ProgressView::Failed(error, n) => {
                lemma_preparation_reads_what_is_there(
                    devices,
                    config,
                    replies,
                    at + 1,
                    used + n,
                    entries,
                    results.push(mount_failure(devices[at], error)),
                );
            },
            ProgressView::Done(entry, n) => {
                lemma_preparation_reads_what_is_there(
                    devices,
                    config,
                    replies,
                    at + 1,
                    used + n,
                    entries.push(entry),
                    results.push(mount_success(entry)),
                );
            },
        }
    }
}

/// The copy that the registration has saved the table as, if the replies
/// reach that far.
pub open spec fn saved_copy(
    table: Seq<char>,
    config: MountConfigView,
    replies: Seq<ReplyView>,
) -> Option<Seq<char>> {
    if !config.backup_fstab {
        None
    } else {
        match backup_plan(table, replies) {
            ProgressView::Done(copy, _) => Some(copy),
            _ => None,
        }
    }
}

/// A registration that fails after the table was saved puts the table
/// back. Where the table was saved as `copy`, entries were prepared, and
/// the transaction, that is the update of the table or its application, has
/// failed with `error`, the registration asks for the copy to be put back
/// over the table, and once that was tried, whatever came of it, fails with
/// `error`.
pub proof fn lemma_failed_registration_is_rolled_back(
    table: Seq<char>,
    devices: Seq<Seq<char>>,
    config: MountConfigView,
    replies: Seq<ReplyView>,
)
    requires
        config.backup_fstab,
        backup_plan(table, replies) is Done,
        prepare_plan(devices, config, replies.skip(backup_plan(table, replies).used())) is Done,
        prepare_plan(
            devices,
            config,
            replies.skip(backup_plan(table, replies).used()),
        )->Done_0.0.len() > 0,
        transaction_plan(
            table,
            prepare_plan(devices, config, replies.skip(backup_plan(table, replies).used()))->Done_0.0,
            config,
            replies.skip(
                backup_plan(table, replies).used() + prepare_plan(
                    devices,
                    config,
                    replies.skip(backup_plan(table, replies).used()),
                ).used(),
            ),
        ) is Failed,
    ensures
        ({
            let copy = backup_plan(table, replies)->Done_0;
            let saved = backup_plan(table, replies).used();
            let prepared = prepare_plan(devices, config, replies.skip(saved));
            let transaction = transaction_plan(
                table,
                prepared->Done_0.0,
                config,
                replies.skip(saved + prepared.used()),
            );
            let used = saved + prepared.used() + transaction.used();
            &&& 0 <= used <= replies.len()
            &&& registration_plan(table, devices, config, replies) == if replies.len() == used {
                ProgressView::<Seq<MountResultView>, MountErrorView>::Run(
                    OperationView::CopyFile { from: copy, to: table },
                )
            } else {
                ProgressView::<Seq<MountResultView>, MountErrorView>::Failed(
                    transaction->Failed_0,
                    used + 1,
                )
            }
        }),
{
    let copy = backup_plan(table, replies)->Done_0;
    let saved = backup_plan(table, replies).used();
    let after_backup = replies.skip(saved);
    let prepared = prepare_plan(devices, config, after_backup);
    lemma_preparation_reads_what_is_there(
        devices,
        config,
        after_backup,
        0,
        0,
        Seq::empty(),
        Seq::empty(),
    );
    let rest = replies.skip(saved + prepared.used());
    assert(after_backup.skip(prepared.used()) =~= rest);
    lemma_failed_transaction_is_rolled_back(table, prepared->Done_0.0, config, copy, rest);
}

} // verus!
