//! Partition tables and partitions: one partition that spans the disk, and
//! the change of a disk's partition table to GPT.

use vstd::prelude::*;
use vstd::utf8::encode_utf8;
use crate::command::{
    command_plan, command_with_input_plan, lemma_push_deep_view, rest, result_view, run_command,
    run_command_with_input, words, Progress, ProgressView, Reply, ReplyView,
};
use crate::text::{
    concat, contains, contains_text, lines, split_lines, starts_with, trim, trimmed,
};

verus! {

/// Why a partition operation failed.
#[derive(Debug, Clone, PartialEq, Eq)]
pub enum PartitionError {
    /// The tool ended with a status other than zero; this is what it wrote
    /// to its standard error.
    CommandFailed(String),
    /// The tool could not be run; this is the system's diagnostic.
    IoError(String),
    /// The tool that is fed its commands could not be started.
    ProcessSpawnFailed,
    /// The path does not name a whole disk.
    InvalidDevicePath(String),
    /// No partition was created on the device.
    PartitionCreationFailed(String),
}

/// What a `PartitionError` is, over characters.
pub enum PartitionErrorView {
    CommandFailed(Seq<char>),
    IoError(Seq<char>),
    ProcessSpawnFailed,
    InvalidDevicePath(Seq<char>),
    PartitionCreationFailed(Seq<char>),
}

impl DeepView for PartitionError {
    type V = PartitionErrorView;

    open spec fn deep_view(&self) -> PartitionErrorView {
        match self {
            PartitionError::CommandFailed(text) => PartitionErrorView::CommandFailed(text@),
            PartitionError::IoError(text) => PartitionErrorView::IoError(text@),
            PartitionError::ProcessSpawnFailed => PartitionErrorView::ProcessSpawnFailed,
            PartitionError::InvalidDevicePath(path) => PartitionErrorView::InvalidDevicePath(path@),
            PartitionError::PartitionCreationFailed(path) => {
                PartitionErrorView::PartitionCreationFailed(path@)
            },
        }
    }
}

impl View for PartitionError {
    type V = PartitionErrorView;

    open spec fn view(&self) -> PartitionErrorView {
        self.deep_view()
    }
}

impl PartitionErrorView {
    /// The error as a line for the operator.
    pub open spec fn message(self) -> Seq<char> {
        match self {
            PartitionErrorView::CommandFailed(text) => "Command failed: "@ + text,
            PartitionErrorView::IoError(text) => "IO error: "@ + text,
            PartitionErrorView::ProcessSpawnFailed => "Process spawn failed"@,
            PartitionErrorView::InvalidDevicePath(path) => "Invalid device path: "@ + path,
            PartitionErrorView::PartitionCreationFailed(path) => {
                "Partition creation failed for device: "@ + path
            },
        }
    }
}

impl PartitionError {
    /// The error as a line for the operator.
    pub fn message(&self) -> (r: String)
        ensures
            r@ == self@.message(),
    {
        match self {
            PartitionError::CommandFailed(text) => concat("Command failed: ", text.as_str()),
            PartitionError::IoError(text) => concat("IO error: ", text.as_str()),
            PartitionError::ProcessSpawnFailed => "Process spawn failed".to_owned(),
            PartitionError::InvalidDevicePath(path) => concat(
                "Invalid device path: ",
                path.as_str(),
            ),
            PartitionError::PartitionCreationFailed(path) => concat(
                "Partition creation failed for device: ",
                path.as_str(),
            ),
        }
    }
}

/// What became of one disk in a batch that creates partitions.
#[derive(Debug, Clone, PartialEq, Eq)]
pub struct PartitionResult {
    pub original_device: String,
    /// The partition that was created; empty where none was.
    pub partition_path: String,
    pub success: bool,
    /// Why no partition was created.
    pub error_message: Option<String>,
}

/// What a `PartitionResult` is, over characters.
pub struct PartitionResultView {
    pub original_device: Seq<char>,
    pub partition_path: Seq<char>,
    pub success: bool,
    pub error_message: Option<Seq<char>>,
}

impl DeepView for PartitionResult {
    type V = PartitionResultView;

    open spec fn deep_view(&self) -> PartitionResultView {
        PartitionResultView {
            original_device: self.original_device@,
            partition_path: self.partition_path@,
            success: self.success,
            error_message: self.error_message.deep_view(),
        }
    }
}

impl View for PartitionResult {
    type V = PartitionResultView;

    open spec fn view(&self) -> PartitionResultView {
        self.deep_view()
    }
}

/// What became of one disk in a batch that changes partition tables to GPT.
#[derive(Debug, Clone, PartialEq, Eq)]
pub struct GptConversionResult {
    pub device: String,
    pub success: bool,
    /// Why the change failed, or why it was not needed.
    pub error_message: Option<String>,
}

/// What a `GptConversionResult` is, over characters.
pub struct GptConversionResultView {
    pub device: Seq<char>,
    pub success: bool,
    pub error_message: Option<Seq<char>>,
}

impl DeepView for GptConversionResult {
    type V = GptConversionResultView;

    open spec fn deep_view(&self) -> GptConversionResultView {
        GptConversionResultView {
            device: self.device@,
            success: self.success,
            error_message: self.error_message.deep_view(),
        }
    }
}

impl View for GptConversionResult {
    type V = GptConversionResultView;

    open spec fn view(&self) -> GptConversionResultView {
        self.deep_view()
    }
}

/// `device` names a whole disk: `/dev/sd` and one more byte.
pub open spec fn is_disk_path(device: Seq<char>) -> bool {
    "/dev/sd"@.is_prefix_of(device) && encode_utf8(device).len() == 8
}

/// The first partition of the disk `device`.
pub open spec fn first_partition(device: Seq<char>) -> Seq<char> {
    device + "1"@
}

/// What `validate_device_path` makes of `device`.
pub open spec fn validated(device: Seq<char>) -> Result<(), PartitionErrorView> {
    if is_disk_path(device) {
        Ok(())
    } else {
        Err(PartitionErrorView::InvalidDevicePath(device))
    }
}

/// Accepts the paths of whole disks and refuses every other path.
pub fn validate_device_path(device: &str) -> (r: Result<(), PartitionError>)
    ensures
        result_view(r) == validated(device@),
{
    if starts_with(device, "/dev/sd") && device.as_bytes().len() == 8 {
        Ok(())
    } else {
        Err(PartitionError::InvalidDevicePath(device.to_owned()))
    }
}

/// The command that creates one partition over the whole of `device`.
pub open spec fn make_partition_command(device: Seq<char>) -> Seq<Seq<char>> {
    seq![
        "sudo"@,
        "parted"@,
        "-s"@,
        device,
        "mkpart"@,
        "primary"@,
        "ext4"@,
        "0%"@,
        "100%"@,
    ]
}

/// Plan of `create_single_partition_parted`: a path that names no whole
/// disk is refused before anything runs; then the partitioning tool runs,
/// and the plan succeeds with the first partition's path where the tool did.
pub open spec fn single_partition_plan(device: Seq<char>, replies: Seq<ReplyView>) -> ProgressView<
    Seq<char>,
    PartitionErrorView,
> {
    if !is_disk_path(device) {
        ProgressView::Failed(PartitionErrorView::InvalidDevicePath(device), 0)
    } else {
        match command_plan(make_partition_command(device), replies) {
            ProgressView::Run(operation) => ProgressView::Run(operation),
            ProgressView::Failed(failure, used) => ProgressView::Failed(
                PartitionErrorView::IoError(failure.message),
                used,
            ),
            ProgressView::Done(output, used) => if output.success {
                ProgressView::Done(first_partition(device), used)
            } else {
                ProgressView::Failed(PartitionErrorView::CommandFailed(output.stderr), used)
            },
        }
    }
}

/// Creates one partition that spans `device`.
pub fn create_single_partition_parted(device: &str, replies: &[Reply]) -> (r: Progress<
    String,
    PartitionError,
>)
    ensures
        r@ == single_partition_plan(device@, replies.deep_view()),
        r@.within(replies.len() as int),
{
    if let Err(error) = validate_device_path(device) {
        return Progress::Failed(error, 0);
    }
    let command = words(
        &["sudo", "parted", "-s", device, "mkpart", "primary", "ext4", "0%", "100%"],
    );
    assert(command.deep_view() =~= make_partition_command(device@));
    match run_command(command, replies) {
        Progress::Run(operation) => Progress::Run(operation),
        Progress::Failed(failure, used) => Progress::Failed(
            PartitionError::IoError(failure.message),
            used,
        ),
        Progress::Done(output, used) => if output.success {
            Progress::Done(concat(device, "1"), used)
        } else {
            Progress::Failed(PartitionError::CommandFailed(output.stderr), used)
        },
    }
}

/// What the interactive partitioning tool is told: a new primary partition,
/// the first, over the default range, then write.
pub open spec fn fdisk_script() -> Seq<char> {
    "n\np\n1\n\n\nw\n"@
}

/// The command that starts the interactive partitioning tool on `device`.
pub open spec fn fdisk_command(device: Seq<char>) -> Seq<Seq<char>> {
    seq!["sudo"@, "fdisk"@, device]
}

/// Plan of `create_single_partition_fdisk`: as `single_partition_plan`, by
/// the interactive tool fed with `fdisk_script`.
pub open spec fn single_partition_fdisk_plan(
    device: Seq<char>,
    replies: Seq<ReplyView>,
) -> ProgressView<Seq<char>, PartitionErrorView> {
    if !is_disk_path(device) {
        ProgressView::Failed(PartitionErrorView::InvalidDevicePath(device), 0)
    } else {
        match command_with_input_plan(fdisk_command(device), fdisk_script(), replies) {
            ProgressView::Run(operation) => ProgressView::Run(operation),
            ProgressView::Failed(_, used) => ProgressView::Failed(
                PartitionErrorView::ProcessSpawnFailed,
                used,
            ),
            ProgressView::Done(output, used) => if output.success {
                ProgressView::Done(first_partition(device), used)
            } else {
                ProgressView::Failed(PartitionErrorView::CommandFailed(output.stderr), used)
            },
        }
    }
}

/// Creates one partition that spans `device` with the interactive tool.
pub fn create_single_partition_fdisk(device: &str, replies: &[Reply]) -> (r: Progress<
    String,
    PartitionError,
>)
    ensures
        r@ == single_partition_fdisk_plan(device@, replies.deep_view()),
        r@.within(replies.len() as int),
{
    if let Err(error) = validate_device_path(device) {
        return Progress::Failed(error, 0);
    }
    let command = words(&["sudo", "fdisk", device]);
    assert(command.deep_view() =~= fdisk_command(device@));
    match run_command_with_input(command, "n\np\n1\n\n\nw\n".to_owned(), replies) {
        Progress::Run(operation) => Progress::Run(operation),
        Progress::Failed(_, used) => Progress::Failed(PartitionError::ProcessSpawnFailed, used),
        Progress::Done(output, used) => if output.success {
            Progress::Done(concat(device, "1"), used)
        } else {
            Progress::Failed(PartitionError::CommandFailed(output.stderr), used)
        },
    }
}

/// `create_partition_plan` once the first `at` devices gave the partitions
/// `done` and `used` replies were read.
pub open spec fn create_partition_from(
    devices: Seq<Seq<char>>,
    replies: Seq<ReplyView>,
    at: int,
    used: int,
    done: Seq<Seq<char>>,
) -> ProgressView<Seq<Seq<char>>, PartitionErrorView>
    decreases devices.len() - at,
{
    if at < 0 || at >= devices.len() {
        ProgressView::Done(done, used)
    } else {
        match single_partition_plan(devices[at], replies.skip(used)) {
            ProgressView::Run(operation) => ProgressView::Run(operation),
            ProgressView::Failed(error, n) => ProgressView::Failed(error, used + n),
            ProgressView::Done(path, n) => create_partition_from(
                devices,
                replies,
                at + 1,
                used + n,
                done.push(path),
            ),
        }
    }
}

/// Plan of `create_partition`: the devices in order, each by
/// `single_partition_plan`; the first failure ends the batch.
pub open spec fn create_partition_plan(
    devices: Seq<Seq<char>>,
    replies: Seq<ReplyView>,
) -> ProgressView<Seq<Seq<char>>, PartitionErrorView> {
    create_partition_from(devices, replies, 0, 0, Seq::empty())
}

/// Creates one partition on each device and gives their paths in the order
/// of the devices. The first device that fails ends the batch with its
/// error, and nothing is run for those after it.
pub fn create_partition(devices: &[String], replies: &[Reply]) -> (r: Progress<
    Vec<String>,
    PartitionError,
>)
    ensures
        r@ == create_partition_plan(devices.deep_view(), replies.deep_view()),
        r@.within(replies.len() as int),
{
    let mut done: Vec<String> = Vec::new();
    let mut used: usize = 0;
    let mut at: usize = 0;
    assert(done.deep_view() =~= Seq::<Seq<char>>::empty());
    while at < devices.len()
        invariant
            at <= devices.len(),
            used <= replies.len(),
            create_partition_plan(devices.deep_view(), replies.deep_view())
                == create_partition_from(
                devices.deep_view(),
                replies.deep_view(),
                at as int,
                used as int,
                done.deep_view(),
            ),
        decreases devices.len() - at,
    {
        match create_single_partition_parted(devices[at].as_str(), rest(replies, used)) {
            Progress::Run(operation) => {
                return Progress::Run(operation);
            },
            Progress::Failed(error, n) => {
                return Progress::Failed(error, used + n);
            },
            Progress::Done(path, n) => {
                proof {
                    lemma_push_deep_view(done@, path);
                }
                done.push(path);
                used = used + n;
            },
        }
        at += 1;
    }
    Progress::Done(done, used)
}

/// The record of a device whose partition `path` was created.
pub open spec fn partition_success(device: Seq<char>, path: Seq<char>) -> PartitionResultView {
    PartitionResultView {
        original_device: device,
        partition_path: path,
        success: true,
        error_message: None,
    }
}

/// The record of a device on which no partition was created, because of
/// `error`.
pub open spec fn partition_failure(
    device: Seq<char>,
    error: PartitionErrorView,
) -> PartitionResultView {
    PartitionResultView {
        original_device: device,
        partition_path: Seq::empty(),
        success: false,
        error_message: Some(error.message()),
    }
}

/// `partitions_with_results_plan` once the first `at` devices gave the
/// records `done` and `used` replies were read.
pub open spec fn partitions_with_results_from(
    devices: Seq<Seq<char>>,
    replies: Seq<ReplyView>,
    at: int,
    used: int,
    done: Seq<PartitionResultView>,
) -> ProgressView<Seq<PartitionResultView>, PartitionErrorView>
    decreases devices.len() - at,
{
    if at < 0 || at >= devices.len() {
        ProgressView::Done(done, used)
    } else {
        match single_partition_plan(devices[at], replies.skip(used)) {
            ProgressView::Run(operation) => ProgressView::Run(operation),
            ProgressView::Failed(error, n) => partitions_with_results_from(
                devices,
                replies,
                at + 1,
                used + n,
                done.push(partition_failure(devices[at], error)),
            ),
            ProgressView::Done(path, n) => partitions_with_results_from(
                devices,
                replies,
                at + 1,
                used + n,
                done.push(partition_success(devices[at], path)),
            ),
        }
    }
}

/// Plan of `create_partitions_with_results`: the devices in order, each by
/// `single_partition_plan`, with one record for each device; a failure is
/// recorded with its message and the batch goes on.
pub open spec fn partitions_with_results_plan(
    devices: Seq<Seq<char>>,
    replies: Seq<ReplyView>,
) -> ProgressView<Seq<PartitionResultView>, PartitionErrorView> {
    partitions_with_results_from(devices, replies, 0, 0, Seq::empty())
}

/// Creates one partition on each device and records for each device what
/// became of it. The batch never fails.
pub fn create_partitions_with_results(devices: &[String], replies: &[Reply]) -> (r: Progress<
    Vec<PartitionResult>,
    PartitionError,
>)
    ensures
        r@ == partitions_with_results_plan(devices.deep_view(), replies.deep_view()),
        r@.within(replies.len() as int),
        !(r is Failed),
{
    let mut done: Vec<PartitionResult> = Vec::new();
    let mut used: usize = 0;
    let mut at: usize = 0;
    assert(done.deep_view() =~= Seq::<PartitionResultView>::empty());
    while at < devices.len()
        invariant
            at <= devices.len(),
            used <= replies.len(),
            partitions_with_results_plan(devices.deep_view(), replies.deep_view())
                == partitions_with_results_from(
                devices.deep_view(),
                replies.deep_view(),
                at as int,
                used as int,
                done.deep_view(),
            ),
        decreases devices.len() - at,
    {
        let record = match create_single_partition_parted(
            devices[at].as_str(),
            rest(replies, used),
        ) {
            Progress::Run(operation) => {
                return Progress::Run(operation);
            },
            Progress::Failed(error, n) => {
                used = used + n;
                PartitionResult {
                    original_device: devices[at].clone(),
                    partition_path: String::new(),
                    success: false,
                    error_message: Some(error.message()),
                }
            },
            Progress::Done(path, n) => {
                used = used + n;
                PartitionResult {
                    original_device: devices[at].clone(),
                    partition_path: path,
                    success: true,
                    error_message: None,
                }
            },
        };
        proof {
            lemma_push_deep_view(done@, record);
        }
        done.push(record);
        at += 1;
    }
    Progress::Done(done, used)
}

/// The command that lists `device` and its partitions by name.
pub open spec fn list_partitions_command(device: Seq<char>) -> Seq<Seq<char>> {
    seq!["sudo"@, "lsblk"@, "-ln"@, "-o"@, "NAME"@, device]
}

/// The device paths that a listing of block device names stands for: one
/// for each line but the first, which names the disk itself.
pub open spec fn listed_partitions(listing: Seq<char>) -> Seq<Seq<char>> {
    let names = split_lines(listing);
    Seq::new(
        if names.len() == 0 {
            0nat
        } else {
            (names.len() - 1) as nat
        },
        |i: int| "/dev/"@ + trimmed(names[i + 1]),
    )
}

/// Plan of `get_partition_info`.
pub open spec fn partition_info_plan(device: Seq<char>, replies: Seq<ReplyView>) -> ProgressView<
    Seq<Seq<char>>,
    PartitionErrorView,
> {
    match command_plan(list_partitions_command(device), replies) {
        ProgressView::Run(operation) => ProgressView::Run(operation),
        ProgressView::Failed(failure, used) => ProgressView::Failed(
            PartitionErrorView::IoError(failure.message),
            used,
        ),
        ProgressView::Done(output, used) => if output.success {
            ProgressView::Done(listed_partitions(output.stdout), used)
        } else {
            ProgressView::Failed(PartitionErrorView::CommandFailed(output.stderr), used)
        },
    }
}

/// The partitions that `device` holds, as device paths.
pub fn get_partition_info(device: &str, replies: &[Reply]) -> (r: Progress<
    Vec<String>,
    PartitionError,
>)
    ensures
        r@ == partition_info_plan(device@, replies.deep_view()),
        r@.within(replies.len() as int),
{
    let command = words(&["sudo", "lsblk", "-ln", "-o", "NAME", device]);
    assert(command.deep_view() =~= list_partitions_command(device@));
    match run_command(command, replies) {
        Progress::Run(operation) => Progress::Run(operation),
        Progress::Failed(failure, used) => Progress::Failed(
            PartitionError::IoError(failure.message),
            used,
        ),
        Progress::Done(output, used) => {
            if !output.success {
                return Progress::Failed(PartitionError::CommandFailed(output.stderr), used);
            }
            let names = lines(output.stdout.as_str());
            let mut partitions: Vec<String> = Vec::new();
            let mut i: usize = 1;
            while i < names.len()
                invariant
                    1 <= i,
                    i <= names.len() || i == 1,
                    names.deep_view() == split_lines(output.stdout@),
                    partitions.len() == i - 1,
                    forall|j: int|
                        0 <= j < partitions.len() ==> partitions[j]@ == "/dev/"@ + trimmed(
                            names[j + 1]@,
                        ),
                decreases names.len() - i,
            {
                let name = trim(names[i].as_str());
                partitions.push(concat("/dev/", name.as_str()));
                i += 1;
            }
            assert(partitions.deep_view() =~= listed_partitions(output.stdout@));
            Progress::Done(partitions, used)
        },
    }
}

/// Plan of `has_partitions`.
pub open spec fn has_partitions_plan(device: Seq<char>, replies: Seq<ReplyView>) -> ProgressView<
    bool,
    PartitionErrorView,
> {
    match partition_info_plan(device, replies) {
        ProgressView::Run(operation) => ProgressView::Run(operation),
        ProgressView::Failed(error, used) => ProgressView::Failed(error, used),
        ProgressView::Done(partitions, used) => ProgressView::Done(partitions.len() > 0, used),
    }
}

/// Whether `device` holds a partition already.
pub fn has_partitions(device: &str, replies: &[Reply]) -> (r: Progress<bool, PartitionError>)
    ensures
        r@ == has_partitions_plan(device@, replies.deep_view()),
        r@.within(replies.len() as int),
{
    match get_partition_info(device, replies) {
        Progress::Run(operation) => Progress::Run(operation),
        Progress::Failed(error, used) => Progress::Failed(error, used),
        Progress::Done(partitions, used) => Progress::Done(partitions.len() > 0, used),
    }
}

/// Plan for one device of `create_partition_safe`: where the device holds
/// partitions, its first one, from a second listing; else a new partition.
pub open spec fn safe_partition_plan(device: Seq<char>, replies: Seq<ReplyView>) -> ProgressView<
    Seq<char>,
    PartitionErrorView,
> {
    match has_partitions_plan(device, replies) {
        ProgressView::Run(operation) => ProgressView::Run(operation),
        ProgressView::Failed(error, used) => ProgressView::Failed(error, used),
        ProgressView::Done(has, used) => if has {
            match partition_info_plan(device, replies.skip(used)) {
                ProgressView::Run(operation) => ProgressView::Run(operation),
                ProgressView::Failed(error, n) => ProgressView::Failed(error, used + n),
                ProgressView::Done(partitions, n) => if partitions.len() > 0 {
                    ProgressView::Done(partitions[0], used + n)
                } else {
                    single_partition_plan(device, replies.skip(used + n)).after(used + n)
                },
            }
        } else {
            single_partition_plan(device, replies.skip(used)).after(used)
        },
    }
}

fn create_single_partition_safe(device: &str, replies: &[Reply]) -> (r: Progress<
    String,
    PartitionError,
>)
    ensures
        r@ == safe_partition_plan(device@, replies.deep_view()),
        r@.within(replies.len() as int),
{
    let mut used: usize = 0;
    match has_partitions(device, replies) {
        Progress::Run(operation) => {
            return Progress::Run(operation);
        },
        Progress::Failed(error, n) => {
            return Progress::Failed(error, n);
        },
        Progress::Done(has, n) => {
            used = n;
            if has {
                match get_partition_info(device, rest(replies, used)) {
                    Progress::Run(operation) => {
                        return Progress::Run(operation);
                    },
                    Progress::Failed(error, m) => {
                        return Progress::Failed(error, used + m);
                    },
                    Progress::Done(partitions, m) => {
                        used = used + m;
                        if partitions.len() > 0 {
                            return Progress::Done(partitions[0].clone(), used);
                        }
                    },
                }
            }
        },
    }
    assert(replies.deep_view().skip(used as int).len() == replies.len() - used);
    match create_single_partition_parted(device, rest(replies, used)) {
        Progress::Run(operation) => Progress::Run(operation),
        Progress::Failed(error, n) => Progress::Failed(error, used + n),
        Progress::Done(path, n) => Progress::Done(path, used + n),
    }
}

/// `create_partition_safe_plan` once the first `at` devices gave the
/// partitions `done` and `used` replies were read.
pub open spec fn create_partition_safe_from(
    devices: Seq<Seq<char>>,
    replies: Seq<ReplyView>,
    at: int,
    used: int,
    done: Seq<Seq<char>>,
) -> ProgressView<Seq<Seq<char>>, PartitionErrorView>
    decreases devices.len() - at,
{
    if at < 0 || at >= devices.len() {
        ProgressView::Done(done, used)
    } else {
        match safe_partition_plan(devices[at], replies.skip(used)) {
            ProgressView::Run(operation) => ProgressView::Run(operation),
            ProgressView::Failed(error, n) => ProgressView::Failed(error, used + n),
            ProgressView::Done(path, n) => create_partition_safe_from(
                devices,
                replies,
                at + 1,
                used + n,
                done.push(path),
            ),
        }
    }
}

/// Plan of `create_partition_safe`: the devices in order, each by
/// `safe_partition_plan`; the first failure ends the batch.
pub open spec fn create_partition_safe_plan(
    devices: Seq<Seq<char>>,
    replies: Seq<ReplyView>,
) -> ProgressView<Seq<Seq<char>>, PartitionErrorView> {
    create_partition_safe_from(devices, replies, 0, 0, Seq::empty())
}

/// As `create_partition`, but a device that holds partitions already is
/// left as it is and gives its first partition.
pub fn create_partition_safe(devices: &[String], replies: &[Reply]) -> (r: Progress<
    Vec<String>,
    PartitionError,
>)
    ensures
        r@ == create_partition_safe_plan(devices.deep_view(), replies.deep_view()),
        r@.within(replies.len() as int),
{
    let mut done: Vec<String> = Vec::new();
    let mut used: usize = 0;
    let mut at: usize = 0;
    assert(done.deep_view() =~= Seq::<Seq<char>>::empty());
    while at < devices.len()
        invariant
            at <= devices.len(),
            used <= replies.len(),
            create_partition_safe_plan(devices.deep_view(), replies.deep_view())
                == create_partition_safe_from(
                devices.deep_view(),
                replies.deep_view(),
                at as int,
                used as int,
                done.deep_view(),
            ),
        decreases devices.len() - at,
    {
        match create_single_partition_safe(devices[at].as_str(), rest(replies, used)) {
            Progress::Run(operation) => {
                return Progress::Run(operation);
            },
            Progress::Failed(error, n) => {
                return Progress::Failed(error, used + n);
            },
            Progress::Done(path, n) => {
                proof {
                    lemma_push_deep_view(done@, path);
                }
                done.push(path);
                used = used + n;
            },
        }
        at += 1;
    }
    Progress::Done(done, used)
}

/// The command that gives `device` a new GPT.
pub open spec fn make_gpt_command(device: Seq<char>) -> Seq<Seq<char>> {
    seq!["sudo"@, "parted"@, "-s"@, device, "mklabel"@, "gpt"@]
}

/// Plan of `change_single_device_to_gpt`: a path that names no whole disk
/// is refused before anything runs; then the partition table is rewritten.
pub open spec fn single_gpt_plan(device: Seq<char>, replies: Seq<ReplyView>) -> ProgressView<
    (),
    PartitionErrorView,
> {
    if !is_disk_path(device) {
        ProgressView::Failed(PartitionErrorView::InvalidDevicePath(device), 0)
    } else {
        match command_plan(make_gpt_command(device), replies) {
            ProgressView::Run(operation) => ProgressView::Run(operation),
            ProgressView::Failed(failure, used) => ProgressView::Failed(
                PartitionErrorView::IoError(failure.message),
                used,
            ),
            ProgressView::Done(output, used) => if output.success {
                ProgressView::Done((), used)
            } else {
                ProgressView::Failed(PartitionErrorView::CommandFailed(output.stderr), used)
            },
        }
    }
}

/// Gives `device` a new, empty GPT partition table.
pub fn change_single_device_to_gpt(device: &str, replies: &[Reply]) -> (r: Progress<
    (),
    PartitionError,
>)
    ensures
        r@ == single_gpt_plan(device@, replies.deep_view()),
        r@.within(replies.len() as int),
{
    if let Err(error) = validate_device_path(device) {
        return Progress::Failed(error, 0);
    }
    let command = words(&["sudo", "parted", "-s", device, "mklabel", "gpt"]);
    assert(command.deep_view() =~= make_gpt_command(device@));
    match run_command(command, replies) {
        Progress::Run(operation) => Progress::Run(operation),
        Progress::Failed(failure, used) => Progress::Failed(
            PartitionError::IoError(failure.message),
            used,
        ),
        Progress::Done(output, used) => if output.success {
            Progress::Done((), used)
        } else {
            Progress::Failed(PartitionError::CommandFailed(output.stderr), used)
        },
    }
}

/// `change_to_gpt_plan` once the first `at` devices are changed and `used`
/// replies were read.
pub open spec fn change_to_gpt_from(
    devices: Seq<Seq<char>>,
    replies: Seq<ReplyView>,
    at: int,
    used: int,
) -> ProgressView<(), PartitionErrorView>
    decreases devices.len() - at,
{
    if at < 0 || at >= devices.len() {
        ProgressView::Done((), used)
    } else {
        match single_gpt_plan(devices[at], replies.skip(used)) {
            ProgressView::Run(operation) => ProgressView::Run(operation),
            ProgressView::Failed(error, n) => ProgressView::Failed(error, used + n),
            ProgressView::Done(_, n) => change_to_gpt_from(devices, replies, at + 1, used + n),
        }
    }
}

/// Plan of `change_devices_to_gpt`: the devices in order, each by
/// `single_gpt_plan`; the first failure ends the batch.
pub open spec fn change_to_gpt_plan(
    devices: Seq<Seq<char>>,
    replies: Seq<ReplyView>,
) -> ProgressView<(), PartitionErrorView> {
    change_to_gpt_from(devices, replies, 0, 0)
}

/// Gives each device a GPT partition table. The first device that fails
/// ends the batch with its error.
pub fn change_devices_to_gpt(devices: &[String], replies: &[Reply]) -> (r: Progress<
    (),
    PartitionError,
>)
    ensures
        r@ == change_to_gpt_plan(devices.deep_view(), replies.deep_view()),
        r@.within(replies.len() as int),
{
    let mut used: usize = 0;
    let mut at: usize = 0;
    while at < devices.len()
        invariant
            at <= devices.len(),
            used <= replies.len(),
            change_to_gpt_plan(devices.deep_view(), replies.deep_view()) == change_to_gpt_from(
                devices.deep_view(),
                replies.deep_view(),
                at as int,
                used as int,
            ),
        decreases devices.len() - at,
    {
        match change_single_device_to_gpt(devices[at].as_str(), rest(replies, used)) {
            Progress::Run(operation) => {
                return Progress::Run(operation);
            },
            Progress::Failed(error, n) => {
                return Progress::Failed(error, used + n);
            },
            Progress::Done(_, n) => {
                used = used + n;
            },
        }
        at += 1;
    }
    Progress::Done((), used)
}

/// The record of a device whose partition table was changed.
pub open spec fn gpt_success(device: Seq<char>) -> GptConversionResultView {
    GptConversionResultView { device, success: true, error_message: None }
}

/// The record of a device whose change failed with `error`.
pub open spec fn gpt_failure(device: Seq<char>, error: PartitionErrorView) -> GptConversionResultView {
    GptConversionResultView { device, success: false, error_message: Some(error.message()) }
}

/// `change_to_gpt_with_results_plan` once the first `at` devices gave the
/// records `done` and `used` replies were read.
pub open spec fn change_to_gpt_with_results_from(
    devices: Seq<Seq<char>>,
    replies: Seq<ReplyView>,
    at: int,
    used: int,
    done: Seq<GptConversionResultView>,
) -> ProgressView<Seq<GptConversionResultView>, PartitionErrorView>
    decreases devices.len() - at,
{
    if at < 0 || at >= devices.len() {
        ProgressView::Done(done, used)
    } else {
        match single_gpt_plan(devices[at], replies.skip(used)) {
            ProgressView::Run(operation) => ProgressView::Run(operation),
            ProgressView::Failed(error, n) => change_to_gpt_with_results_from(
                devices,
                replies,
                at + 1,
                used + n,
                done.push(gpt_failure(devices[at], error)),
            ),
            ProgressView::Done(_, n) => change_to_gpt_with_results_from(
                devices,
                replies,
                at + 1,
                used + n,
                done.push(gpt_success(devices[at])),
            ),
        }
    }
}

/// Plan of `change_devices_to_gpt_with_results`: the devices in order, each
/// by `single_gpt_plan`, with one record for each device; a failure is
/// recorded with its message and the batch goes on.
pub open spec fn change_to_gpt_with_results_plan(
    devices: Seq<Seq<char>>,
    replies: Seq<ReplyView>,
) -> ProgressView<Seq<GptConversionResultView>, PartitionErrorView> {
    change_to_gpt_with_results_from(devices, replies, 0, 0, Seq::empty())
}

/// Gives each device a GPT partition table and records for each device what
/// became of it. The batch never fails.
pub fn change_devices_to_gpt_with_results(devices: &[String], replies: &[Reply]) -> (r: Progress<
    Vec<GptConversionResult>,
    PartitionError,
>)
    ensures
        r@ == change_to_gpt_with_results_plan(devices.deep_view(), replies.deep_view()),
        r@.within(replies.len() as int),
        !(r is Failed),
{
    let mut done: Vec<GptConversionResult> = Vec::new();
    let mut used: usize = 0;
    let mut at: usize = 0;
    assert(done.deep_view() =~= Seq::<GptConversionResultView>::empty());
    while at < devices.len()
        invariant
            at <= devices.len(),
            used <= replies.len(),
            change_to_gpt_with_results_plan(devices.deep_view(), replies.deep_view())
                == change_to_gpt_with_results_from(
                devices.deep_view(),
                replies.deep_view(),
                at as int,
                used as int,
                done.deep_view(),
            ),
        decreases devices.len() - at,
    {
        let record = match change_single_device_to_gpt(devices[at].as_str(), rest(replies, used)) {
            Progress::Run(operation) => {
                return Progress::Run(operation);
            },
            Progress::Failed(error, n) => {
                used = used + n;
                GptConversionResult {
                    device: devices[at].clone(),
                    success: false,
                    error_message: Some(error.message()),
                }
            },
            Progress::Done(_, n) => {
                used = used + n;
                GptConversionResult {
                    device: devices[at].clone(),
                    success: true,
                    error_message: None,
                }
            },
        };
        proof {
            lemma_push_deep_view(done@, record);
        }
        done.push(record);
        at += 1;
    }
    Progress::Done(done, used)
}

/// The command that prints the partition table of `device`.
pub open spec fn print_table_command(device: Seq<char>) -> Seq<Seq<char>> {
    seq!["sudo"@, "parted"@, "-s"@, device, "print"@]
}

/// Plan of `is_device_gpt`: the partitioning tool prints the table of the
/// device, and the device uses GPT where the print says so.
pub open spec fn is_gpt_plan(device: Seq<char>, replies: Seq<ReplyView>) -> ProgressView<
    bool,
    PartitionErrorView,
> {
    match command_plan(print_table_command(device), replies) {
        ProgressView::Run(operation) => ProgressView::Run(operation),
        ProgressView::Failed(failure, used) => ProgressView::Failed(
            PartitionErrorView::IoError(failure.message),
            used,
        ),
        ProgressView::Done(output, used) => if output.success {
            ProgressView::Done(contains_text(output.stdout, "Partition Table: gpt"@), used)
        } else {
            ProgressView::Failed(PartitionErrorView::CommandFailed(output.stderr), used)
        },
    }
}

/// Whether the partition table of `device` is a GPT.
pub fn is_device_gpt(device: &str, replies: &[Reply]) -> (r: Progress<bool, PartitionError>)
    ensures
        r@ == is_gpt_plan(device@, replies.deep_view()),
        r@.within(replies.len() as int),
{
    let command = words(&["sudo", "parted", "-s", device, "print"]);
    assert(command.deep_view() =~= print_table_command(device@));
    match run_command(command, replies) {
        Progress::Run(operation) => Progress::Run(operation),
        Progress::Failed(failure, used) => Progress::Failed(
            PartitionError::IoError(failure.message),
            used,
        ),
        Progress::Done(output, used) => if output.success {
            Progress::Done(contains(output.stdout.as_str(), "Partition Table: gpt"), used)
        } else {
            Progress::Failed(PartitionError::CommandFailed(output.stderr), used)
        },
    }
}

/// The record of a device that was left alone because it uses GPT already.
pub open spec fn gpt_skipped(device: Seq<char>) -> GptConversionResultView {
    GptConversionResultView {
        device,
        success: true,
        error_message: Some("Device already uses GPT, skipped"@),
    }
}

/// The record of a device whose partition table could not be read.
pub open spec fn gpt_check_failure(
    device: Seq<char>,
    error: PartitionErrorView,
) -> GptConversionResultView {
    GptConversionResultView {
        device,
        success: false,
        error_message: Some("Failed to check GPT status: "@ + error.message()),
    }
}

/// Plan for one device of `change_devices_to_gpt_safe`, with the record that
/// it leaves: the table is read first, and rewritten only where it is no
/// GPT. The plan itself never fails.
pub open spec fn safe_gpt_plan(device: Seq<char>, replies: Seq<ReplyView>) -> ProgressView<
    GptConversionResultView,
    PartitionErrorView,
> {
    match is_gpt_plan(device, replies) {
        ProgressView::Run(operation) => ProgressView::Run(operation),
        ProgressView::Failed(error, used) => ProgressView::Done(
            gpt_check_failure(device, error),
            used,
        ),
        ProgressView::Done(is_gpt, used) => if is_gpt {
            ProgressView::Done(gpt_skipped(device), used)
        } else {
            match single_gpt_plan(device, replies.skip(used)) {
                ProgressView::Run(operation) => ProgressView::Run(operation),
                ProgressView::Failed(error, n) => ProgressView::Done(
                    gpt_failure(device, error),
                    used + n,
                ),
                ProgressView::Done(_, n) => ProgressView::Done(gpt_success(device), used + n),
            }
        },
    }
}

fn change_single_device_to_gpt_safe(device: &String, replies: &[Reply]) -> (r: Progress<
    GptConversionResult,
    PartitionError,
>)
    ensures
        r@ == safe_gpt_plan(device@, replies.deep_view()),
        r@.within(replies.len() as int),
        !(r is Failed),
{
    match is_device_gpt(device.as_str(), replies) {
        Progress::Run(operation) => Progress::Run(operation),
        Progress::Failed(error, used) => Progress::Done(
            GptConversionResult {
                device: device.clone(),
                success: false,
                error_message: Some(
                    concat("Failed to check GPT status: ", error.message().as_str()),
                ),
            },
            used,
        ),
        Progress::Done(is_gpt, used) => if is_gpt {
            Progress::Done(
                GptConversionResult {
                    device: device.clone(),
                    success: true,
                    error_message: Some("Device already uses GPT, skipped".to_owned()),
                },
                used,
            )
        } else {
            match change_single_device_to_gpt(device.as_str(), rest(replies, used)) {
                Progress::Run(operation) => Progress::Run(operation),
                Progress::Failed(error, n) => Progress::Done(
                    GptConversionResult {
                        device: device.clone(),
                        success: false,
                        error_message: Some(error.message()),
                    },
                    used + n,
                ),
                Progress::Done(_, n) => Progress::Done(
                    GptConversionResult {
                        device: device.clone(),
                        success: true,
                        error_message: None,
                    },
                    used + n,
                ),
            }
        },
    }
}

/// `change_to_gpt_safe_plan` once the first `at` devices gave the records
/// `done` and `used` replies were read.
pub open spec fn change_to_gpt_safe_from(
    devices: Seq<Seq<char>>,
    replies: Seq<ReplyView>,
    at: int,
    used: int,
    done: Seq<GptConversionResultView>,
) -> ProgressView<Seq<GptConversionResultView>, PartitionErrorView>
    decreases devices.len() - at,
{
    if at < 0 || at >= devices.len() {
        ProgressView::Done(done, used)
    } else {
        match safe_gpt_plan(devices[at], replies.skip(used)) {
            ProgressView::Run(operation) => ProgressView::Run(operation),
            ProgressView::Failed(error, n) => ProgressView::Failed(error, used + n),
            ProgressView::Done(record, n) => change_to_gpt_safe_from(
                devices,
                replies,
                at + 1,
                used + n,
                done.push(record),
            ),
        }
    }
}

/// Plan of `change_devices_to_gpt_safe`: the devices in order, each by
/// `safe_gpt_plan`, with one record for each device.
pub open spec fn change_to_gpt_safe_plan(
    devices: Seq<Seq<char>>,
    replies: Seq<ReplyView>,
) -> ProgressView<Seq<GptConversionResultView>, PartitionErrorView> {
    change_to_gpt_safe_from(devices, replies, 0, 0, Seq::empty())
}

/// Gives each device a GPT partition table unless it has one, and records
/// for each device what became of it. The batch never fails.
pub fn change_devices_to_gpt_safe(devices: &[String], replies: &[Reply]) -> (r: Progress<
    Vec<GptConversionResult>,
    PartitionError,
>)
    ensures
        r@ == change_to_gpt_safe_plan(devices.deep_view(), replies.deep_view()),
        r@.within(replies.len() as int),
        !(r is Failed),
{
    let mut done: Vec<GptConversionResult> = Vec::new();
    let mut used: usize = 0;
    let mut at: usize = 0;
    assert(done.deep_view() =~= Seq::<GptConversionResultView>::empty());
    while at < devices.len()
        invariant
            at <= devices.len(),
            used <= replies.len(),
            change_to_gpt_safe_plan(devices.deep_view(), replies.deep_view())
                == change_to_gpt_safe_from(
                devices.deep_view(),
                replies.deep_view(),
                at as int,
                used as int,
                done.deep_view(),
            ),
        decreases devices.len() - at,
    {
        match change_single_device_to_gpt_safe(&devices[at], rest(replies, used)) {
            Progress::Run(operation) => {
                return Progress::Run(operation);
            },
            Progress::Failed(error, n) => {
                return Progress::Failed(error, used + n);
            },
            Progress::Done(record, n) => {
                proof {
                    lemma_push_deep_view(done@, record);
                }
                done.push(record);
                used = used + n;
            },
        }
        at += 1;
    }
    Progress::Done(done, used)
}

} // verus!
