//! The whole way of a new disk into service: discovery, choice, the
//! decision for or against a GPT, partition, file system and registration.

use vstd::prelude::*;
use crate::command::{
    command_plan, rest, run_command, words, Progress, ProgressView, Reply, ReplyView,
};
use crate::device_discovery::{
    discovery_plan, find_connected_satas, DeviceDiscoveryError, DeviceDiscoveryErrorView,
};
use crate::device_filter::{
    capacity_command, filter_plan, filter_unmounted_hdd_devices, read_capacity, reported_capacity,
    DeviceFilterError, DeviceFilterErrorView,
};
use crate::filesystem::{
    format_devices, format_plan, FilesystemError, FilesystemErrorView, FilesystemType,
};
use crate::mount_manager::{
    default_config, mount_devices, registration_plan, table_path, MountError, MountErrorView,
};
use crate::partition_manager::{
    change_devices_to_gpt, change_to_gpt_plan, create_partition, create_partition_plan,
    PartitionError, PartitionErrorView,
};
use crate::text::concat;

verus! {

/// Why the way of the disks into service ended early.
#[derive(Debug, Clone, PartialEq, Eq)]
pub enum SmartMountError {
    DeviceDiscovery(DeviceDiscoveryError),
    DeviceFilter(DeviceFilterError),
    Partition(PartitionError),
    Filesystem(FilesystemError),
    Mount(MountError),
    /// No disk was found, or none that rotates and is not mounted.
    NoDevicesFound,
}

/// What a `SmartMountError` is, over characters.
pub enum SmartMountErrorView {
    DeviceDiscovery(DeviceDiscoveryErrorView),
    DeviceFilter(DeviceFilterErrorView),
    Partition(PartitionErrorView),
    Filesystem(FilesystemErrorView),
    Mount(MountErrorView),
    NoDevicesFound,
}

impl DeepView for SmartMountError {
    type V = SmartMountErrorView;

    open spec fn deep_view(&self) -> SmartMountErrorView {
        match self {
            SmartMountError::DeviceDiscovery(error) => SmartMountErrorView::DeviceDiscovery(error@),
            SmartMountError::DeviceFilter(error) => SmartMountErrorView::DeviceFilter(error@),
            SmartMountError::Partition(error) => SmartMountErrorView::Partition(error@),
            SmartMountError::Filesystem(error) => SmartMountErrorView::Filesystem(error@),
            SmartMountError::Mount(error) => SmartMountErrorView::Mount(error@),
            SmartMountError::NoDevicesFound => SmartMountErrorView::NoDevicesFound,
        }
    }
}

impl View for SmartMountError {
    type V = SmartMountErrorView;

    open spec fn view(&self) -> SmartMountErrorView {
        self.deep_view()
    }
}

impl SmartMountErrorView {
    /// The error as a line for the operator.
    pub open spec fn message(self) -> Seq<char> {
        match self {
            SmartMountErrorView::DeviceDiscovery(error) => "Device discovery failed: "@
                + error.message(),
            SmartMountErrorView::DeviceFilter(error) => "Device filtering failed: "@
                + error.message(),
            SmartMountErrorView::Partition(error) => "Partition operation failed: "@
                + error.message(),
            SmartMountErrorView::Filesystem(error) => "Filesystem operation failed: "@
                + error.message(),
            SmartMountErrorView::Mount(error) => "Mount operation failed: "@ + error.message(),
            SmartMountErrorView::NoDevicesFound => "No devices found to process"@,
        }
    }
}

impl SmartMountError {
    /// The error as a line for the operator.
    pub fn message(&self) -> (r: String)
        ensures
            r@ == self@.message(),
    {
        match self {
            SmartMountError::DeviceDiscovery(error) => concat(
                "Device discovery failed: ",
                error.message().as_str(),
            ),
            SmartMountError::DeviceFilter(error) => concat(
                "Device filtering failed: ",
                error.message().as_str(),
            ),
            SmartMountError::Partition(error) => concat(
                "Partition operation failed: ",
                error.message().as_str(),
            ),
            SmartMountError::Filesystem(error) => concat(
                "Filesystem operation failed: ",
                error.message().as_str(),
            ),
            SmartMountError::Mount(error) => concat(
                "Mount operation failed: ",
                error.message().as_str(),
            ),
            SmartMountError::NoDevicesFound => "No devices found to process".to_owned(),
        }
    }
}

/// How the partition table of the disks is decided.
#[derive(Debug, Clone, Copy, PartialEq, Eq)]
pub struct MountConfig {
    /// Use a GPT whatever the size of the disks.
    pub force_gpt: bool,
    /// The size in gigabytes from which on a disk calls for a GPT.
    pub gpt_threshold_gb: u64,
    /// Leave the partition tables as they are; this goes before
    /// `force_gpt`.
    pub skip_gpt: bool,
}

/// The configuration where none is given: a GPT from 2000 gigabytes on.
pub open spec fn smart_config() -> MountConfig {
    MountConfig { force_gpt: false, gpt_threshold_gb: 2000, skip_gpt: false }
}

impl Default for MountConfig {
    fn default() -> (r: Self)
        ensures
            r == smart_config(),
    {
        MountConfig { force_gpt: false, gpt_threshold_gb: 2000, skip_gpt: false }
    }
}

/// The number of bytes in a gigabyte: two to the power of 30.
pub open spec fn gigabyte() -> u64 {
    0x4000_0000
}

/// Plan of `get_device_size_gb`.
pub open spec fn size_gb_plan(device: Seq<char>, replies: Seq<ReplyView>) -> ProgressView<
    u64,
    SmartMountErrorView,
> {
    match command_plan(capacity_command(device), replies) {
        ProgressView::Run(operation) => ProgressView::Run(operation),
        ProgressView::Failed(failure, used) => ProgressView::Failed(
            SmartMountErrorView::Partition(PartitionErrorView::IoError(failure.message)),
            used,
        ),
        ProgressView::Done(output, used) => ProgressView::Done(
            reported_capacity(output) / gigabyte(),
            used,
        ),
    }
}

/// The capacity of `device` in whole gigabytes. A query that ends badly, or
/// prints no number, gives zero; the plan fails only where the query cannot
/// be run.
pub fn get_device_size_gb(device: &str, replies: &[Reply]) -> (r: Progress<u64, SmartMountError>)
    ensures
        r@ == size_gb_plan(device@, replies.deep_view()),
        r@.within(replies.len() as int),
{
    let command = words(&["sudo", "blockdev", "--getsize64", device]);
    assert(command.deep_view() =~= capacity_command(device@));
    match run_command(command, replies) {
        Progress::Run(operation) => Progress::Run(operation),
        Progress::Failed(failure, used) => Progress::Failed(
            SmartMountError::Partition(PartitionError::IoError(failure.message)),
            used,
        ),
        Progress::Done(output, used) => Progress::Done(read_capacity(&output) / 0x4000_0000, used),
    }
}

/// Whether a disk from the one at `at` on has `threshold` gigabytes or
/// more, having read `used` replies. The disks are asked in order, and no
/// further than the first that has; a disk whose capacity cannot be asked
/// for counts as one of no gigabytes.
pub open spec fn any_large_from(
    devices: Seq<Seq<char>>,
    threshold: u64,
    replies: Seq<ReplyView>,
    at: int,
    used: int,
) -> ProgressView<bool, SmartMountErrorView>
    decreases devices.len() - at,
{
    if at < 0 || at >= devices.len() {
        ProgressView::Done(false, used)
    } else {
        match size_gb_plan(devices[at], replies.skip(used)) {
            ProgressView::Run(operation) => ProgressView::Run(operation),
            ProgressView::Failed(_, n) => if threshold == 0 {
                ProgressView::Done(true, used + n)
            } else {
                any_large_from(devices, threshold, replies, at + 1, used + n)
            },
            ProgressView::Done(size, n) => if size >= threshold {
                ProgressView::Done(true, used + n)
            } else {
                any_large_from(devices, threshold, replies, at + 1, used + n)
            },
        }
    }
}

/// Plan of `should_use_gpt`: no where `skip_gpt` is set; else yes where
/// `force_gpt` is set; else whether a disk has the threshold's size or
/// more.
pub open spec fn gpt_plan(
    devices: Seq<Seq<char>>,
    config: MountConfig,
    replies: Seq<ReplyView>,
) -> ProgressView<bool, SmartMountErrorView> {
    if config.skip_gpt {
        ProgressView::Done(false, 0)
    } else if config.force_gpt {
        ProgressView::Done(true, 0)
    } else {
        any_large_from(devices, config.gpt_threshold_gb, replies, 0, 0)
    }
}

/// Decides whether the disks get a GPT. The plan never fails.
pub fn should_use_gpt(devices: &[String], config: &MountConfig, replies: &[Reply]) -> (r: Progress<
    bool,
    SmartMountError,
>)
    ensures
        r@ == gpt_plan(devices.deep_view(), *config, replies.deep_view()),
        r@.within(replies.len() as int),
        !(r is Failed),
{
    if config.skip_gpt {
        return Progress::Done(false, 0);
    }
    if config.force_gpt {
        return Progress::Done(true, 0);
    }
    let threshold = config.gpt_threshold_gb;
    let mut used: usize = 0;
    let mut at: usize = 0;
    while at < devices.len()
        invariant
            at <= devices.len(),
            used <= replies.len(),
            !config.skip_gpt,
            !config.force_gpt,
            threshold == config.gpt_threshold_gb,
            gpt_plan(devices.deep_view(), *config, replies.deep_view()) == any_large_from(
                devices.deep_view(),
                threshold,
                replies.deep_view(),
                at as int,
                used as int,
            ),
        decreases devices.len() - at,
    {
        match get_device_size_gb(devices[at].as_str(), rest(replies, used)) {
            Progress::Run(operation) => {
                return Progress::Run(operation);
            },
            Progress::Failed(_, n) => {
                used = used + n;
                if threshold == 0 {
                    return Progress::Done(true, used);
                }
            },
            Progress::Done(size, n) => {
                used = used + n;
                if size >= threshold {
                    return Progress::Done(true, used);
                }
            },
        }
        at += 1;
    }
    Progress::Done(false, used)
}

/// The plan `plan` has ended with the decision `answer`.
pub open spec fn decides(plan: ProgressView<bool, SmartMountErrorView>, answer: bool) -> bool {
    plan matches ProgressView::Done(value, _) && value == answer
}

/// The decision for a GPT grows as the threshold falls: with the same
/// disks and the same replies, a plan that says yes says yes under every
/// lower threshold, and a plan that says no says no under every higher one.
pub proof fn lemma_any_large_monotonic(
    devices: Seq<Seq<char>>,
    low: u64,
    high: u64,
    replies: Seq<ReplyView>,
    at: int,
    used: int,
)
    requires
        low <= high,
    ensures
        decides(any_large_from(devices, high, replies, at, used), true) ==> decides(
            any_large_from(devices, low, replies, at, used),
            true,
        ),
        decides(any_large_from(devices, low, replies, at, used), false) ==> decides(
            any_large_from(devices, high, replies, at, used),
            false,
        ),
    decreases devices.len() - at,
{
    if 0 <= at < devices.len() {
        match size_gb_plan(devices[at], replies.skip(used)) {
            ProgressView::Run(_) => {},
            ProgressView::Failed(_, n) => {
                lemma_any_large_monotonic(devices, low, high, replies, at + 1, used + n);
            },
            ProgressView::Done(_, n) => {
                lemma_any_large_monotonic(devices, low, high, replies, at + 1, used + n);
            },
        }
    }
}

/// Lowering the threshold can turn the decision from no to yes and never
/// from yes to no: two configurations that differ in the threshold alone,
/// on the same disks with the same replies.
pub proof fn lemma_gpt_decision_monotonic(
    devices: Seq<Seq<char>>,
    low: MountConfig,
    high: MountConfig,
    replies: Seq<ReplyView>,
)
    requires
        low.force_gpt == high.force_gpt,
        low.skip_gpt == high.skip_gpt,
        low.gpt_threshold_gb <= high.gpt_threshold_gb,
    ensures
        decides(gpt_plan(devices, high, replies), true) ==> decides(
            gpt_plan(devices, low, replies),
            true,
        ),
        decides(gpt_plan(devices, low, replies), false) ==> decides(
            gpt_plan(devices, high, replies),
            false,
        ),
{
    lemma_any_large_monotonic(devices, low.gpt_threshold_gb, high.gpt_threshold_gb, replies, 0, 0);
}

/// `skip_gpt` goes before `force_gpt`: with it the decision is no, whatever
/// else is set and whatever the disks are.
pub proof fn lemma_skip_gpt_wins(
    devices: Seq<Seq<char>>,
    config: MountConfig,
    replies: Seq<ReplyView>,
)
    requires
        config.skip_gpt,
    ensures
        gpt_plan(devices, config, replies) == ProgressView::<bool, SmartMountErrorView>::Done(
            false,
            0,
        ),
{
}

/// The pipeline from the registration on: the partitions `partitions` are
/// registered with the default settings.
pub open spec fn register_stage(partitions: Seq<Seq<char>>, replies: Seq<ReplyView>, used: int)
    -> ProgressView<(), SmartMountErrorView> {
    match registration_plan(table_path(), partitions, default_config(), replies.skip(used)) {
        ProgressView::Run(operation) => ProgressView::Run(operation),
        ProgressView::Failed(error, n) => ProgressView::Failed(
            SmartMountErrorView::Mount(error),
            used + n,
        ),
        ProgressView::Done(_, n) => ProgressView::Done((), used + n),
    }
}

/// The pipeline from the formatting on: the partitions get an ext4 file
/// system.
pub open spec fn format_stage(partitions: Seq<Seq<char>>, replies: Seq<ReplyView>, used: int)
    -> ProgressView<(), SmartMountErrorView> {
    match format_plan(partitions, FilesystemType::Ext4, replies.skip(used)) {
        ProgressView::Run(operation) => ProgressView::Run(operation),
        ProgressView::Failed(error, n) => ProgressView::Failed(
            SmartMountErrorView::Filesystem(error),
            used + n,
        ),
        ProgressView::Done(_, n) => register_stage(partitions, replies, used + n),
    }
}

/// The pipeline from the partitioning on: each disk gets one partition.
pub open spec fn partition_stage(disks: Seq<Seq<char>>, replies: Seq<ReplyView>, used: int)
    -> ProgressView<(), SmartMountErrorView> {
    match create_partition_plan(disks, replies.skip(used)) {
        ProgressView::Run(operation) => ProgressView::Run(operation),
        ProgressView::Failed(error, n) => ProgressView::Failed(
            SmartMountErrorView::Partition(error),
            used + n,
        ),
        ProgressView::Done(partitions, n) => format_stage(partitions, replies, used + n),
    }
}

/// The pipeline from the partition table on: the decision, and the change
/// to GPT where the decision is for it.
pub open spec fn table_stage(
    config: MountConfig,
    disks: Seq<Seq<char>>,
    replies: Seq<ReplyView>,
    used: int,
) -> ProgressView<(), SmartMountErrorView> {
    match gpt_plan(disks, config, replies.skip(used)) {
        ProgressView::Run(operation) => ProgressView::Run(operation),
        ProgressView::Failed(error, n) => ProgressView::Failed(error, used + n),
        ProgressView::Done(use_gpt, n) => if !use_gpt {
            partition_stage(disks, replies, used + n)
        } else {
            match change_to_gpt_plan(disks, replies.skip(used + n)) {
                ProgressView::Run(operation) => ProgressView::Run(operation),
                ProgressView::Failed(error, m) => ProgressView::Failed(
                    SmartMountErrorView::Partition(error),
                    used + n + m,
                ),
                ProgressView::Done(_, m) => partition_stage(disks, replies, used + n + m),
            }
        },
    }
}

/// The pipeline from the choice on: of the disks found, those that rotate
/// and are not mounted go on; without any the pipeline ends.
pub open spec fn filter_stage(
    config: MountConfig,
    found: Seq<Seq<char>>,
    replies: Seq<ReplyView>,
    used: int,
) -> ProgressView<(), SmartMountErrorView> {
    match filter_plan(found, replies.skip(used)) {
        ProgressView::Run(operation) => ProgressView::Run(operation),
        ProgressView::Failed(error, n) => ProgressView::Failed(
            SmartMountErrorView::DeviceFilter(error),
            used + n,
        ),
        ProgressView::Done(disks, n) => if disks.len() == 0 {
            ProgressView::Failed(SmartMountErrorView::NoDevicesFound, used + n)
        } else {
            table_stage(config, disks, replies, used + n)
        },
    }
}

/// Plan of `smart_auto_mount_with_config`: discovery, choice, partition
/// table, partition, file system and registration, each stage on what the
/// one before has given. The first stage that fails ends the pipeline, and
/// so does a discovery or a choice that gives no disk.
pub open spec fn pipeline_plan(config: MountConfig, replies: Seq<ReplyView>) -> ProgressView<
    (),
    SmartMountErrorView,
> {
    match discovery_plan(replies) {
        ProgressView::Run(operation) => ProgressView::Run(operation),
        ProgressView::Failed(error, used) => ProgressView::Failed(
            SmartMountErrorView::DeviceDiscovery(error),
            used,
        ),
        ProgressView::Done(found, used) => if found.len() == 0 {
            ProgressView::Failed(SmartMountErrorView::NoDevicesFound, used)
        } else {
            filter_stage(config, found, replies, used)
        },
    }
}

fn register(partitions: &[String], replies: &[Reply], used: usize) -> (r: Progress<
    (),
    SmartMountError,
>)
    requires
        used <= replies.len(),
    ensures
        r@ == register_stage(partitions.deep_view(), replies.deep_view(), used as int),
        r@.within(replies.len() as int),
{
    match mount_devices(partitions, rest(replies, used)) {
        Progress::Run(operation) => Progress::Run(operation),
        Progress::Failed(error, n) => Progress::Failed(SmartMountError::Mount(error), used + n),
        Progress::Done(_, n) => Progress::Done((), used + n),
    }
}

fn format(partitions: &[String], replies: &[Reply], used: usize) -> (r: Progress<
    (),
    SmartMountError,
>)
    requires
        used <= replies.len(),
    ensures
        r@ == format_stage(partitions.deep_view(), replies.deep_view(), used as int),
        r@.within(replies.len() as int),
{
    match format_devices(partitions, rest(replies, used)) {
        Progress::Run(operation) => Progress::Run(operation),
        Progress::Failed(error, n) => Progress::Failed(
            SmartMountError::Filesystem(error),
            used + n,
        ),
        Progress::Done(_, n) => register(partitions, replies, used + n),
    }
}

fn partition(disks: &[String], replies: &[Reply], used: usize) -> (r: Progress<
    (),
    SmartMountError,
>)
    requires
        used <= replies.len(),
    ensures
        r@ == partition_stage(disks.deep_view(), replies.deep_view(), used as int),
        r@.within(replies.len() as int),
{
    match create_partition(disks, rest(replies, used)) {
        Progress::Run(operation) => Progress::Run(operation),
        Progress::Failed(error, n) => Progress::Failed(SmartMountError::Partition(error), used + n),
        Progress::Done(partitions, n) => format(partitions.as_slice(), replies, used + n),
    }
}

fn choose_table(config: &MountConfig, disks: &[String], replies: &[Reply], used: usize) -> (r:
    Progress<(), SmartMountError>)
    requires
        used <= replies.len(),
    ensures
        r@ == table_stage(*config, disks.deep_view(), replies.deep_view(), used as int),
        r@.within(replies.len() as int),
{
    match should_use_gpt(disks, config, rest(replies, used)) {
        Progress::Run(operation) => Progress::Run(operation),
        Progress::Failed(error, n) => Progress::Failed(error, used + n),
        Progress::Done(use_gpt, n) => if !use_gpt {
            partition(disks, replies, used + n)
        } else {
            match change_devices_to_gpt(disks, rest(replies, used + n)) {
                Progress::Run(operation) => Progress::Run(operation),
                Progress::Failed(error, m) => Progress::Failed(
                    SmartMountError::Partition(error),
                    used + n + m,
                ),
                Progress::Done(_, m) => partition(disks, replies, used + n + m),
            }
        },
    }
}

fn choose_disks(config: &MountConfig, found: Vec<String>, replies: &[Reply], used: usize) -> (r:
    Progress<(), SmartMountError>)
    requires
        used <= replies.len(),
    ensures
        r@ == filter_stage(*config, found.deep_view(), replies.deep_view(), used as int),
        r@.within(replies.len() as int),
{
    match filter_unmounted_hdd_devices(found, rest(replies, used)) {
        Progress::Run(operation) => Progress::Run(operation),
        Progress::Failed(error, n) => Progress::Failed(
            SmartMountError::DeviceFilter(error),
            used + n,
        ),
        Progress::Done(disks, n) => if disks.len() == 0 {
            Progress::Failed(SmartMountError::NoDevicesFound, used + n)
        } else {
            choose_table(config, disks.as_slice(), replies, used + n)
        },
    }
}

/// Brings the attached disks into service as `config` says.
pub fn smart_auto_mount_with_config(config: MountConfig, replies: &[Reply]) -> (r: Progress<
    (),
    SmartMountError,
>)
    ensures
        r@ == pipeline_plan(config, replies.deep_view()),
        r@.within(replies.len() as int),
{
    match find_connected_satas(replies) {
        Progress::Run(operation) => Progress::Run(operation),
        Progress::Failed(error, used) => Progress::Failed(
            SmartMountError::DeviceDiscovery(error),
            used,
        ),
        Progress::Done(found, used) => if found.len() == 0 {
            Progress::Failed(SmartMountError::NoDevicesFound, used)
        } else {
            choose_disks(&config, found, replies, used)
        },
    }
}

/// Brings the attached disks into service: disks of 2000 gigabytes or more
/// call for a GPT.
pub fn smart_auto_mount(replies: &[Reply]) -> (r: Progress<(), SmartMountError>)
    ensures
        r@ == pipeline_plan(smart_config(), replies.deep_view()),
        r@.within(replies.len() as int),
{
    smart_auto_mount_with_config(MountConfig::default(), replies)
}

/// The configuration of `simple_auto_mount`: partition tables stay as they
/// are.
pub open spec fn simple_config() -> MountConfig {
    MountConfig { force_gpt: false, gpt_threshold_gb: 2000, skip_gpt: true }
}

/// Brings the attached disks into service and leaves their partition
/// tables as they are.
pub fn simple_auto_mount(replies: &[Reply]) -> (r: Progress<(), SmartMountError>)
    ensures
        r@ == pipeline_plan(simple_config(), replies.deep_view()),
        r@.within(replies.len() as int),
{
    let config = MountConfig { force_gpt: false, gpt_threshold_gb: 2000, skip_gpt: true };
    smart_auto_mount_with_config(config, replies)
}

/// The configuration of `gpt_auto_mount`: every disk gets a GPT.
pub open spec fn forced_gpt_config() -> MountConfig {
    MountConfig { force_gpt: true, gpt_threshold_gb: 2000, skip_gpt: false }
}

/// Brings the attached disks into service and gives each a GPT.
pub fn gpt_auto_mount(replies: &[Reply]) -> (r: Progress<(), SmartMountError>)
    ensures
        r@ == pipeline_plan(forced_gpt_config(), replies.deep_view()),
        r@.within(replies.len() as int),
{
    let config = MountConfig { force_gpt: true, gpt_threshold_gb: 2000, skip_gpt: false };
    smart_auto_mount_with_config(config, replies)
}

} // verus!
