//! File systems: the formatting tool of each supported kind, and the
//! formatting of partitions.

use vstd::prelude::*;
use crate::command::{
    command_plan, lemma_push_deep_view, rest, result_view, run_command, words, Progress,
    ProgressView, Reply, ReplyView,
};
use crate::text::{concat, lowercase, starts_with, text_eq, to_lowercase, trim, trimmed};

verus! {

/// Why a file system operation failed.
#[derive(Debug, Clone, PartialEq, Eq)]
pub enum FilesystemError {
    /// A tool ended with a status other than zero.
    CommandFailed(String),
    /// A tool could not be run; this is the system's diagnostic.
    IoError(String),
    /// The name stands for no supported kind of file system.
    UnsupportedFilesystem(String),
    /// The path is not below `/dev/`.
    InvalidDevice(String),
    /// The formatting tool failed; the text names the device and holds what
    /// the tool wrote to its standard error.
    FormatFailed(String),
}

/// What a `FilesystemError` is, over characters.
pub enum FilesystemErrorView {
    CommandFailed(Seq<char>),
    IoError(Seq<char>),
    UnsupportedFilesystem(Seq<char>),
    InvalidDevice(Seq<char>),
    FormatFailed(Seq<char>),
}

impl DeepView for FilesystemError {
    type V = FilesystemErrorView;

    open spec fn deep_view(&self) -> FilesystemErrorView {
        match self {
            FilesystemError::CommandFailed(text) => FilesystemErrorView::CommandFailed(text@),
            FilesystemError::IoError(text) => FilesystemErrorView::IoError(text@),
            FilesystemError::UnsupportedFilesystem(name) => {
                FilesystemErrorView::UnsupportedFilesystem(name@)
            },
            FilesystemError::InvalidDevice(path) => FilesystemErrorView::InvalidDevice(path@),
            FilesystemError::FormatFailed(text) => FilesystemErrorView::FormatFailed(text@),
        }
    }
}

impl View for FilesystemError {
    type V = FilesystemErrorView;

    open spec fn view(&self) -> FilesystemErrorView {
        self.deep_view()
    }
}

impl FilesystemErrorView {
    /// The error as a line for the operator.
    pub open spec fn message(self) -> Seq<char> {
        match self {
            FilesystemErrorView::CommandFailed(text) => "Command failed: "@ + text,
            FilesystemErrorView::IoError(text) => "IO error: "@ + text,
            FilesystemErrorView::UnsupportedFilesystem(name) => "Unsupported filesystem type: "@
                + name,
            FilesystemErrorView::InvalidDevice(path) => "Invalid device path: "@ + path,
            FilesystemErrorView::FormatFailed(text) => "Filesystem formatting failed for device: "@
                + text,
        }
    }
}

impl FilesystemError {
    /// The error as a line for the operator.
    pub fn message(&self) -> (r: String)
        ensures
            r@ == self@.message(),
    {
        match self {
            FilesystemError::CommandFailed(text) => concat("Command failed: ", text.as_str()),
            FilesystemError::IoError(text) => concat("IO error: ", text.as_str()),
            FilesystemError::UnsupportedFilesystem(name) => concat(
                "Unsupported filesystem type: ",
                name.as_str(),
            ),
            FilesystemError::InvalidDevice(path) => concat("Invalid device path: ", path.as_str()),
            FilesystemError::FormatFailed(text) => concat(
                "Filesystem formatting failed for device: ",
                text.as_str(),
            ),
        }
    }
}

/// The kinds of file system that can be created.
#[derive(Debug, Clone, Copy, PartialEq, Eq)]
pub enum FilesystemType {
    Ext4,
    Ext3,
    Ext2,
    Xfs,
    Btrfs,
    Ntfs,
    Fat32,
}

impl DeepView for FilesystemType {
    type V = FilesystemType;

    open spec fn deep_view(&self) -> FilesystemType {
        *self
    }
}

impl View for FilesystemType {
    type V = FilesystemType;

    open spec fn view(&self) -> FilesystemType {
        *self
    }
}

/// The tool that creates a file system of the kind, and the arguments that
/// make it overwrite what the device holds.
pub open spec fn format_tool(filesystem: FilesystemType) -> (Seq<char>, Seq<Seq<char>>) {
    match filesystem {
        FilesystemType::Ext4 => ("mkfs.ext4"@, seq!["-F"@]),
        FilesystemType::Ext3 => ("mkfs.ext3"@, seq!["-F"@]),
        FilesystemType::Ext2 => ("mkfs.ext2"@, seq!["-F"@]),
        FilesystemType::Xfs => ("mkfs.xfs"@, seq!["-f"@]),
        FilesystemType::Btrfs => ("mkfs.btrfs"@, seq!["-f"@]),
        FilesystemType::Ntfs => ("mkfs.ntfs"@, seq!["-f"@, "-Q"@]),
        FilesystemType::Fat32 => ("mkfs.fat"@, seq!["-F"@, "32"@]),
    }
}

/// The kind of file system that the lower-case name `lowered` stands for;
/// `given` is the name as it was given, for the error.
pub open spec fn filesystem_named(lowered: Seq<char>, given: Seq<char>) -> Result<
    FilesystemType,
    FilesystemErrorView,
> {
    if lowered == "ext4"@ {
        Ok(FilesystemType::Ext4)
    } else if lowered == "ext3"@ {
        Ok(FilesystemType::Ext3)
    } else if lowered == "ext2"@ {
        Ok(FilesystemType::Ext2)
    } else if lowered == "xfs"@ {
        Ok(FilesystemType::Xfs)
    } else if lowered == "btrfs"@ {
        Ok(FilesystemType::Btrfs)
    } else if lowered == "ntfs"@ {
        Ok(FilesystemType::Ntfs)
    } else if lowered == "fat32"@ {
        Ok(FilesystemType::Fat32)
    } else {
        Err(FilesystemErrorView::UnsupportedFilesystem(given))
    }
}

impl FilesystemType {
    /// The tool that creates a file system of this kind, and the arguments
    /// that make it overwrite what the device holds.
    pub fn get_format_command(&self) -> (r: (&'static str, Vec<&'static str>))
        ensures
            (r.0@, r.1.deep_view()) == format_tool(*self),
    {
        let r = match self {
            FilesystemType::Ext4 => ("mkfs.ext4", vec!["-F"]),
            FilesystemType::Ext3 => ("mkfs.ext3", vec!["-F"]),
            FilesystemType::Ext2 => ("mkfs.ext2", vec!["-F"]),
            FilesystemType::Xfs => ("mkfs.xfs", vec!["-f"]),
            FilesystemType::Btrfs => ("mkfs.btrfs", vec!["-f"]),
            FilesystemType::Ntfs => ("mkfs.ntfs", vec!["-f", "-Q"]),
            FilesystemType::Fat32 => ("mkfs.fat", vec!["-F", "32"]),
        };
        assert(r.1.deep_view() =~= format_tool(*self).1);
        r
    }

    /// The kind of file system that the lower-case name `lowered` stands
    /// for. `given` is the name as it was given: the error holds it.
    pub fn from_lowercase(lowered: &str, given: &str) -> (r: Result<Self, FilesystemError>)
        ensures
            result_view(r) == filesystem_named(lowered@, given@),
    {
        if text_eq(lowered, "ext4") {
            Ok(FilesystemType::Ext4)
        } else if text_eq(lowered, "ext3") {
            Ok(FilesystemType::Ext3)
        } else if text_eq(lowered, "ext2") {
            Ok(FilesystemType::Ext2)
        } else if text_eq(lowered, "xfs") {
            Ok(FilesystemType::Xfs)
        } else if text_eq(lowered, "btrfs") {
            Ok(FilesystemType::Btrfs)
        } else if text_eq(lowered, "ntfs") {
            Ok(FilesystemType::Ntfs)
        } else if text_eq(lowered, "fat32") {
            Ok(FilesystemType::Fat32)
        } else {
            Err(FilesystemError::UnsupportedFilesystem(given.to_owned()))
        }
    }

    /// The kind of file system that `fs_type` names, whatever the case of
    /// its letters.
    pub fn from_str(fs_type: &str) -> (r: Result<Self, FilesystemError>)
        ensures
            result_view(r) == filesystem_named(lowercase(fs_type@), fs_type@),
    {
        let lowered = to_lowercase(fs_type);
        Self::from_lowercase(lowered.as_str(), fs_type)
    }
}

/// What became of one device in a batch that formats.
#[derive(Debug, Clone, PartialEq, Eq)]
pub struct FormatResult {
    pub device: String,
    pub filesystem: FilesystemType,
    pub success: bool,
    /// Why formatting failed, or why it was not needed.
    pub error_message: Option<String>,
}

/// What a `FormatResult` is, over characters.
pub struct FormatResultView {
    pub device: Seq<char>,
    pub filesystem: FilesystemType,
    pub success: bool,
    pub error_message: Option<Seq<char>>,
}

impl DeepView for FormatResult {
    type V = FormatResultView;

    open spec fn deep_view(&self) -> FormatResultView {
        FormatResultView {
            device: self.device@,
            filesystem: self.filesystem,
            success: self.success,
            error_message: self.error_message.deep_view(),
        }
    }
}

impl View for FormatResult {
    type V = FormatResultView;

    open spec fn view(&self) -> FormatResultView {
        self.deep_view()
    }
}

/// `device` is a path below `/dev/`.
pub open spec fn is_device_path(device: Seq<char>) -> bool {
    "/dev/"@.is_prefix_of(device)
}

/// What `validate_device_path` makes of `device`.
pub open spec fn validated(device: Seq<char>) -> Result<(), FilesystemErrorView> {
    if is_device_path(device) {
        Ok(())
    } else {
        Err(FilesystemErrorView::InvalidDevice(device))
    }
}

/// Accepts the paths below `/dev/` and refuses every other path.
pub fn validate_device_path(device: &str) -> (r: Result<(), FilesystemError>)
    ensures
        result_view(r) == validated(device@),
{
    if starts_with(device, "/dev/") {
        Ok(())
    } else {
        Err(FilesystemError::InvalidDevice(device.to_owned()))
    }
}

/// The command that puts a file system of the kind on `device`.
pub open spec fn format_command(filesystem: FilesystemType, device: Seq<char>) -> Seq<Seq<char>> {
    seq!["sudo"@, format_tool(filesystem).0] + format_tool(filesystem).1 + seq![device]
}

/// What the failure of the formatting tool is reported as.
pub open spec fn format_failure(device: Seq<char>, stderr: Seq<char>) -> FilesystemErrorView {
    FilesystemErrorView::FormatFailed("Device: "@ + device + ", Error: "@ + stderr)
}

/// Plan of `format_single_device`: a path that is not below `/dev/` is
/// refused before anything runs; then the formatting tool of the kind runs.
pub open spec fn single_format_plan(
    device: Seq<char>,
    filesystem: FilesystemType,
    replies: Seq<ReplyView>,
) -> ProgressView<(), FilesystemErrorView> {
    if !is_device_path(device) {
        ProgressView::Failed(FilesystemErrorView::InvalidDevice(device), 0)
    } else {
        match command_plan(format_command(filesystem, device), replies) {
            ProgressView::Run(operation) => ProgressView::Run(operation),
            ProgressView::Failed(failure, used) => ProgressView::Failed(
                FilesystemErrorView::IoError(failure.message),
                used,
            ),
            ProgressView::Done(output, used) => if output.success {
                ProgressView::Done((), used)
            } else {
                ProgressView::Failed(format_failure(device, output.stderr), used)
            },
        }
    }
}

/// Puts a file system of the kind on `device`.
pub fn format_single_device(device: &str, filesystem: &FilesystemType, replies: &[Reply]) -> (r:
    Progress<(), FilesystemError>)
    ensures
        r@ == single_format_plan(device@, *filesystem, replies.deep_view()),
        r@.within(replies.len() as int),
{
    if let Err(error) = validate_device_path(device) {
        return Progress::Failed(error, 0);
    }
    let (tool, flags) = filesystem.get_format_command();
    let mut command = words(&["sudo", tool]);
    let mut i: usize = 0;
    assert(flags.deep_view().take(0) =~= Seq::<Seq<char>>::empty());
    while i < flags.len()
        invariant
            i <= flags.len(),
            command.deep_view() == seq!["sudo"@, tool@] + flags.deep_view().take(i as int),
        decreases flags.len() - i,
    {
        let flag = flags[i].to_owned();
        proof {
            lemma_push_deep_view(command@, flag);
            assert(flags.deep_view().take(i + 1) =~= flags.deep_view().take(i as int).push(flag@));
        }
        command.push(flag);
        i += 1;
    }
    let target = device.to_owned();
    proof {
        lemma_push_deep_view(command@, target);
        assert(flags.deep_view().take(flags.len() as int) =~= flags.deep_view());
    }
    command.push(target);
    assert(command.deep_view() =~= format_command(*filesystem, device@));
    match run_command(command, replies) {
        Progress::Run(operation) => Progress::Run(operation),
        Progress::Failed(failure, used) => Progress::Failed(
            FilesystemError::IoError(failure.message),
            used,
        ),
        Progress::Done(output, used) => if output.success {
            Progress::Done((), used)
        } else {
            let mut text = concat("Device: ", device);
            text.append(", Error: ");
            text.append(output.stderr.as_str());
            Progress::Failed(FilesystemError::FormatFailed(text), used)
        },
    }
}

/// `format_plan` once the first `at` devices are formatted and `used` replies
/// were read.
pub open spec fn format_from(
    devices: Seq<Seq<char>>,
    filesystem: FilesystemType,
    replies: Seq<ReplyView>,
    at: int,
    used: int,
) -> ProgressView<(), FilesystemErrorView>
    decreases devices.len() - at,
{
    if at < 0 || at >= devices.len() {
        ProgressView::Done((), used)
    } else {
        match single_format_plan(devices[at], filesystem, replies.skip(used)) {
            ProgressView::Run(operation) => ProgressView::Run(operation),
            ProgressView::Failed(error, n) => ProgressView::Failed(error, used + n),
            ProgressView::Done(_, n) => format_from(devices, filesystem, replies, at + 1, used + n),
        }
    }
}

/// Plan of `format_devices_with_type`: the devices in order, each by
/// `single_format_plan`; the first failure ends the batch.
pub open spec fn format_plan(
    devices: Seq<Seq<char>>,
    filesystem: FilesystemType,
    replies: Seq<ReplyView>,
) -> ProgressView<(), FilesystemErrorView> {
    format_from(devices, filesystem, replies, 0, 0)
}

/// Puts a file system of the kind on each device, one after the other. The
/// first device that fails ends the batch with its error.
pub fn format_devices_with_type(
    devices: &[String],
    filesystem: FilesystemType,
    replies: &[Reply],
) -> (r: Progress<(), FilesystemError>)
    ensures
        r@ == format_plan(devices.deep_view(), filesystem, replies.deep_view()),
        r@.within(replies.len() as int),
{
    let mut used: usize = 0;
    let mut at: usize = 0;
    while at < devices.len()
        invariant
            at <= devices.len(),
            used <= replies.len(),
            format_plan(devices.deep_view(), filesystem, replies.deep_view()) == format_from(
                devices.deep_view(),
                filesystem,
                replies.deep_view(),
                at as int,
                used as int,
            ),
        decreases devices.len() - at,
    {
        match format_single_device(devices[at].as_str(), &filesystem, rest(replies, used)) {
            Progress::Run(operation) => {
                return Progress::Run(operation);
            },
            Progress::Failed(error, n) => {
                return Progress::Failed(error, used + n);
            },
            Progress::Done(_, n) => {
                used = used + n;
            },
        }
        at += 1;
    }
    Progress::Done((), used)
}

/// Puts an ext4 file system on each device.
pub fn format_devices(devices: &[String], replies: &[Reply]) -> (r: Progress<(), FilesystemError>)
    ensures
        r@ == format_plan(devices.deep_view(), FilesystemType::Ext4, replies.deep_view()),
        r@.within(replies.len() as int),
{
    format_devices_with_type(devices, FilesystemType::Ext4, replies)
}

/// The record of a device that was formatted.
pub open spec fn format_success(device: Seq<char>, filesystem: FilesystemType) -> FormatResultView {
    FormatResultView { device, filesystem, success: true, error_message: None }
}

/// The record of a device whose formatting failed with `error`.
pub open spec fn format_failed(
    device: Seq<char>,
    filesystem: FilesystemType,
    error: FilesystemErrorView,
) -> FormatResultView {
    FormatResultView { device, filesystem, success: false, error_message: Some(error.message()) }
}

/// The record of a device that was left alone because it holds a file
/// system already.
pub open spec fn format_skipped(device: Seq<char>, filesystem: FilesystemType) -> FormatResultView {
    FormatResultView {
        device,
        filesystem,
        success: true,
        error_message: Some("Device already formatted, skipped"@),
    }
}

/// Plan for one device of `format_devices_with_results`, with the record
/// that it leaves. The plan itself never fails.
pub open spec fn recorded_format_plan(
    device: Seq<char>,
    filesystem: FilesystemType,
    replies: Seq<ReplyView>,
) -> ProgressView<FormatResultView, FilesystemErrorView> {
    match single_format_plan(device, filesystem, replies) {
        ProgressView::Run(operation) => ProgressView::Run(operation),
        ProgressView::Failed(error, used) => ProgressView::Done(
            format_failed(device, filesystem, error),
            used,
        ),
        ProgressView::Done(_, used) => ProgressView::Done(format_success(device, filesystem), used),
    }
}

fn format_single_device_recorded(
    device: &String,
    filesystem: FilesystemType,
    replies: &[Reply],
) -> (r: Progress<FormatResult, FilesystemError>)
    ensures
        r@ == recorded_format_plan(device@, filesystem, replies.deep_view()),
        r@.within(replies.len() as int),
        !(r is Failed),
{
    match format_single_device(device.as_str(), &filesystem, replies) {
        Progress::Run(operation) => Progress::Run(operation),
        Progress::Failed(error, used) => Progress::Done(
            FormatResult {
                device: device.clone(),
                filesystem,
                success: false,
                error_message: Some(error.message()),
            },
            used,
        ),
        Progress::Done(_, used) => Progress::Done(
            FormatResult { device: device.clone(), filesystem, success: true, error_message: None },
            used,
        ),
    }
}

/// `format_with_results_plan` once the first `at` devices gave the records
/// `done` and `used` replies were read.
pub open spec fn format_with_results_from(
    devices: Seq<Seq<char>>,
    filesystem: FilesystemType,
    replies: Seq<ReplyView>,
    at: int,
    used: int,
    done: Seq<FormatResultView>,
) -> ProgressView<Seq<FormatResultView>, FilesystemErrorView>
    decreases devices.len() - at,
{
    if at < 0 || at >= devices.len() {
        ProgressView::Done(done, used)
    } else {
        match recorded_format_plan(devices[at], filesystem, replies.skip(used)) {
            ProgressView::Run(operation) => ProgressView::Run(operation),
            ProgressView::Failed(error, n) => ProgressView::Failed(error, used + n),
            ProgressView::Done(record, n) => format_with_results_from(
                devices,
                filesystem,
                replies,
                at + 1,
                used + n,
                done.push(record),
            ),
        }
    }
}

/// Plan of `format_devices_with_results`: the devices in order, each by
/// `recorded_format_plan`, with one record for each device.
pub open spec fn format_with_results_plan(
    devices: Seq<Seq<char>>,
    filesystem: FilesystemType,
    replies: Seq<ReplyView>,
) -> ProgressView<Seq<FormatResultView>, FilesystemErrorView> {
    format_with_results_from(devices, filesystem, replies, 0, 0, Seq::empty())
}

/// Puts a file system of the kind on each device and records for each
/// device what became of it. The batch never fails.
pub fn format_devices_with_results(
    devices: &[String],
    filesystem: FilesystemType,
    replies: &[Reply],
) -> (r: Progress<Vec<FormatResult>, FilesystemError>)
    ensures
        r@ == format_with_results_plan(devices.deep_view(), filesystem, replies.deep_view()),
        r@.within(replies.len() as int),
        !(r is Failed),
{
    let mut done: Vec<FormatResult> = Vec::new();
    let mut used: usize = 0;
    let mut at: usize = 0;
    assert(done.deep_view() =~= Seq::<FormatResultView>::empty());
    while at < devices.len()
        invariant
            at <= devices.len(),
            used <= replies.len(),
            format_with_results_plan(devices.deep_view(), filesystem, replies.deep_view())
                == format_with_results_from(
                devices.deep_view(),
                filesystem,
                replies.deep_view(),
                at as int,
                used as int,
                done.deep_view(),
            ),
        decreases devices.len() - at,
    {
        match format_single_device_recorded(&devices[at], filesystem, rest(replies, used)) {
            Progress::Run(operation) => {
                return Progress::Run(operation);
            },
            Progress::Failed(error, n) => {
                return Progress::Failed(error, used + n);
            },
            Progress::Done(record, n) => {
                proof {
                    lemma_push_deep_view(done@, record);
                }
                done.push(record);
                used = used + n;
            },
        }
        at += 1;
    }
    Progress::Done(done, used)
}

/// The command that looks for a file system on `device`.
pub open spec fn probe_command(device: Seq<char>) -> Seq<Seq<char>> {
    seq!["sudo"@, "blkid"@, device]
}

/// Plan of `is_device_formatted`: the identification tool runs on the
/// device and finds a file system where it ends with status zero.
pub open spec fn is_formatted_plan(device: Seq<char>, replies: Seq<ReplyView>) -> ProgressView<
    bool,
    FilesystemErrorView,
> {
    match command_plan(probe_command(device), replies) {
        ProgressView::Run(operation) => ProgressView::Run(operation),
        ProgressView::Failed(failure, used) => ProgressView::Failed(
            FilesystemErrorView::IoError(failure.message),
            used,
        ),
        ProgressView::Done(output, used) => ProgressView::Done(output.success, used),
    }
}

/// Whether `device` holds a file system already.
pub fn is_device_formatted(device: &str, replies: &[Reply]) -> (r: Progress<bool, FilesystemError>)
    ensures
        r@ == is_formatted_plan(device@, replies.deep_view()),
        r@.within(replies.len() as int),
{
    let command = words(&["sudo", "blkid", device]);
    assert(command.deep_view() =~= probe_command(device@));
    match run_command(command, replies) {
        Progress::Run(operation) => Progress::Run(operation),
        Progress::Failed(failure, used) => Progress::Failed(
            FilesystemError::IoError(failure.message),
            used,
        ),
        Progress::Done(output, used) => Progress::Done(output.success, used),
    }
}

/// The command that names the kind of file system on `device`.
pub open spec fn filesystem_type_command(device: Seq<char>) -> Seq<Seq<char>> {
    seq!["sudo"@, "blkid"@, "-s"@, "TYPE"@, "-o"@, "value"@, device]
}

/// The kind that the identification tool has named in `stdout`, if any.
pub open spec fn named_filesystem(success: bool, stdout: Seq<char>) -> Option<Seq<char>> {
    if success && trimmed(stdout).len() > 0 {
        Some(trimmed(stdout))
    } else {
        None
    }
}

/// Plan of `get_device_filesystem`.
pub open spec fn device_filesystem_plan(
    device: Seq<char>,
    replies: Seq<ReplyView>,
) -> ProgressView<Option<Seq<char>>, FilesystemErrorView> {
    match command_plan(filesystem_type_command(device), replies) {
        ProgressView::Run(operation) => ProgressView::Run(operation),
        ProgressView::Failed(failure, used) => ProgressView::Failed(
            FilesystemErrorView::IoError(failure.message),
            used,
        ),
        ProgressView::Done(output, used) => ProgressView::Done(
            named_filesystem(output.success, output.stdout),
            used,
        ),
    }
}

/// The kind of file system that `device` holds, by its name, if it holds
/// one.
pub fn get_device_filesystem(device: &str, replies: &[Reply]) -> (r: Progress<
    Option<String>,
    FilesystemError,
>)
    ensures
        r@ == device_filesystem_plan(device@, replies.deep_view()),
        r@.within(replies.len() as int),
{
    let command = words(&["sudo", "blkid", "-s", "TYPE", "-o", "value", device]);
    assert(command.deep_view() =~= filesystem_type_command(device@));
    match run_command(command, replies) {
        Progress::Run(operation) => Progress::Run(operation),
        Progress::Failed(failure, used) => Progress::Failed(
            FilesystemError::IoError(failure.message),
            used,
        ),
        Progress::Done(output, used) => {
            if !output.success {
                return Progress::Done(None, used);
            }
            let name = trim(output.stdout.as_str());
            if name.as_str().unicode_len() == 0 {
                Progress::Done(None, used)
            } else {
                Progress::Done(Some(name), used)
            }
        },
    }
}

/// Plan for one device of `format_devices_safe`, with the record that it
/// leaves: a device that holds a file system is left alone. The plan fails
/// only where the device cannot be examined.
pub open spec fn safe_format_plan(
    device: Seq<char>,
    filesystem: FilesystemType,
    replies: Seq<ReplyView>,
) -> ProgressView<FormatResultView, FilesystemErrorView> {
    match is_formatted_plan(device, replies) {
        ProgressView::Run(operation) => ProgressView::Run(operation),
        ProgressView::Failed(error, used) => ProgressView::Failed(error, used),
        ProgressView::Done(formatted, used) => if formatted {
            ProgressView::Done(format_skipped(device, filesystem), used)
        } else {
            recorded_format_plan(device, filesystem, replies.skip(used)).after(used)
        },
    }
}

fn format_single_device_safe(device: &String, filesystem: FilesystemType, replies: &[Reply]) -> (r:
    Progress<FormatResult, FilesystemError>)
    ensures
        r@ == safe_format_plan(device@, filesystem, replies.deep_view()),
        r@.within(replies.len() as int),
{
    match is_device_formatted(device.as_str(), replies) {
        Progress::Run(operation) => Progress::Run(operation),
        Progress::Failed(error, used) => Progress::Failed(error, used),
        Progress::Done(formatted, used) => if formatted {
            Progress::Done(
                FormatResult {
                    device: device.clone(),
                    filesystem,
                    success: true,
                    error_message: Some("Device already formatted, skipped".to_owned()),
                },
                used,
            )
        } else {
            match format_single_device_recorded(device, filesystem, rest(replies, used)) {
                Progress::Run(operation) => Progress::Run(operation),
                Progress::Failed(error, n) => Progress::Failed(error, used + n),
                Progress::Done(record, n) => Progress::Done(record, used + n),
            }
        },
    }
}

/// `format_safe_plan` once the first `at` devices gave the records `done` and
/// `used` replies were read.
pub open spec fn format_safe_from(
    devices: Seq<Seq<char>>,
    filesystem: FilesystemType,
    replies: Seq<ReplyView>,
    at: int,
    used: int,
    done: Seq<FormatResultView>,
) -> ProgressView<Seq<FormatResultView>, FilesystemErrorView>
    decreases devices.len() - at,
{
    if at < 0 || at >= devices.len() {
        ProgressView::Done(done, used)
    } else {
        match safe_format_plan(devices[at], filesystem, replies.skip(used)) {
            ProgressView::Run(operation) => ProgressView::Run(operation),
            ProgressView::Failed(error, n) => ProgressView::Failed(error, used + n),
            ProgressView::Done(record, n) => format_safe_from(
                devices,
                filesystem,
                replies,
                at + 1,
                used + n,
                done.push(record),
            ),
        }
    }
}

/// Plan of `format_devices_safe`: the devices in order, each by
/// `safe_format_plan`, with one record for each device; a device that
/// cannot be examined ends the batch.
pub open spec fn format_safe_plan(
    devices: Seq<Seq<char>>,
    filesystem: FilesystemType,
    replies: Seq<ReplyView>,
) -> ProgressView<Seq<FormatResultView>, FilesystemErrorView> {
    format_safe_from(devices, filesystem, replies, 0, 0, Seq::empty())
}

/// As `format_devices_with_results`, but a device that holds a file system
/// already is left as it is.
pub fn format_devices_safe(devices: &[String], filesystem: FilesystemType, replies: &[Reply]) -> (r:
    Progress<Vec<FormatResult>, FilesystemError>)
    ensures
        r@ == format_safe_plan(devices.deep_view(), filesystem, replies.deep_view()),
        r@.within(replies.len() as int),
{
    let mut done: Vec<FormatResult> = Vec::new();
    let mut used: usize = 0;
    let mut at: usize = 0;
    assert(done.deep_view() =~= Seq::<FormatResultView>::empty());
    while at < devices.len()
        invariant
            at <= devices.len(),
            used <= replies.len(),
            format_safe_plan(devices.deep_view(), filesystem, replies.deep_view())
                == format_safe_from(
                devices.deep_view(),
                filesystem,
                replies.deep_view(),
                at as int,
                used as int,
                done.deep_view(),
            ),
        decreases devices.len() - at,
    {
        match format_single_device_safe(&devices[at], filesystem, rest(replies, used)) {
            Progress::Run(operation) => {
                return Progress::Run(operation);
            },
            Progress::Failed(error, n) => {
                return Progress::Failed(error, used + n);
            },
            Progress::Done(record, n) => {
                proof {
                    lemma_push_deep_view(done@, record);
                }
                done.push(record);
                used = used + n;
            },
        }
        at += 1;
    }
    Progress::Done(done, used)
}

} // verus!
