//! Discovery of the disks that are attached: from the kernel's list of
//! block devices, or else by a search below `/dev`.

use vstd::prelude::*;
use vstd::utf8::encode_utf8;
use crate::command::{
    command_plan, lemma_push_deep_view, list_directory, list_directory_plan, path_exists,
    path_exists_plan, rest, result_view, run_command, words, CommandOutput, CommandOutputView,
    Progress, ProgressView, Reply, ReplyView,
};
use crate::text::{concat, lines, sort, sort_texts, split_lines, starts_with};

verus! {

/// Why no disks were discovered.
#[derive(Debug, Clone, PartialEq, Eq)]
pub enum DeviceDiscoveryError {
    /// The search ended with a status other than zero; this is what it
    /// wrote to its standard error.
    CommandFailed(String),
    PermissionDenied,
    /// The search wrote something that is no text.
    InvalidUtf8,
    /// The system refused an operation; this is its diagnostic.
    IoError(String),
    DevDirectoryNotFound,
    NoDevicesFound,
}

/// What a `DeviceDiscoveryError` is, over characters.
pub enum DeviceDiscoveryErrorView {
    CommandFailed(Seq<char>),
    PermissionDenied,
    InvalidUtf8,
    IoError(Seq<char>),
    DevDirectoryNotFound,
    NoDevicesFound,
}

impl DeepView for DeviceDiscoveryError {
    type V = DeviceDiscoveryErrorView;

    open spec fn deep_view(&self) -> DeviceDiscoveryErrorView {
        match self {
            DeviceDiscoveryError::CommandFailed(text) => DeviceDiscoveryErrorView::CommandFailed(
                text@,
            ),
            DeviceDiscoveryError::PermissionDenied => DeviceDiscoveryErrorView::PermissionDenied,
            DeviceDiscoveryError::InvalidUtf8 => DeviceDiscoveryErrorView::InvalidUtf8,
            DeviceDiscoveryError::IoError(text) => DeviceDiscoveryErrorView::IoError(text@),
            DeviceDiscoveryError::DevDirectoryNotFound => {
                DeviceDiscoveryErrorView::DevDirectoryNotFound
            },
            DeviceDiscoveryError::NoDevicesFound => DeviceDiscoveryErrorView::NoDevicesFound,
        }
    }
}

impl View for DeviceDiscoveryError {
    type V = DeviceDiscoveryErrorView;

    open spec fn view(&self) -> DeviceDiscoveryErrorView {
        self.deep_view()
    }
}

impl DeviceDiscoveryErrorView {
    /// The error as a line for the operator.
    pub open spec fn message(self) -> Seq<char> {
        match self {
            DeviceDiscoveryErrorView::CommandFailed(text) => "Command failed: "@ + text,
            DeviceDiscoveryErrorView::PermissionDenied => "Permission denied"@,
            DeviceDiscoveryErrorView::InvalidUtf8 => "Invalid UTF-8 in command output"@,
            DeviceDiscoveryErrorView::IoError(text) => "IO error: "@ + text,
            DeviceDiscoveryErrorView::DevDirectoryNotFound => "/dev directory not found"@,
            DeviceDiscoveryErrorView::NoDevicesFound => "No SATA devices found"@,
        }
    }
}

impl DeviceDiscoveryError {
    /// The error as a line for the operator.
    pub fn message(&self) -> (r: String)
        ensures
            r@ == self@.message(),
    {
        match self {
            DeviceDiscoveryError::CommandFailed(text) => concat("Command failed: ", text.as_str()),
            DeviceDiscoveryError::PermissionDenied => "Permission denied".to_owned(),
            DeviceDiscoveryError::InvalidUtf8 => "Invalid UTF-8 in command output".to_owned(),
            DeviceDiscoveryError::IoError(text) => concat("IO error: ", text.as_str()),
            DeviceDiscoveryError::DevDirectoryNotFound => "/dev directory not found".to_owned(),
            DeviceDiscoveryError::NoDevicesFound => "No SATA devices found".to_owned(),
        }
    }
}

/// `name` is the kernel's name of a disk: `sd` and one more byte.
pub open spec fn is_disk_name(name: Seq<char>) -> bool {
    "sd"@.is_prefix_of(name) && encode_utf8(name).len() == 3
}

/// Whether `name` is the kernel's name of a disk, such as `sda`.
pub fn is_sata_device_name(name: &str) -> (r: bool)
    ensures
        r == is_disk_name(name@),
{
    starts_with(name, "sd") && name.as_bytes().len() == 3
}

/// The texts of `texts` that are not empty, in their order.
pub open spec fn nonempty(texts: Seq<Seq<char>>) -> Seq<Seq<char>>
    decreases texts.len(),
{
    if texts.len() == 0 {
        Seq::empty()
    } else if texts.last().len() > 0 {
        nonempty(texts.drop_last()).push(texts.last())
    } else {
        nonempty(texts.drop_last())
    }
}

/// What the outcome of a search for disks means: the lines that the search
/// has printed, without the empty ones, in ascending order.
pub open spec fn found_devices(output: CommandOutputView) -> Result<
    Seq<Seq<char>>,
    DeviceDiscoveryErrorView,
> {
    if !output.success {
        Err(DeviceDiscoveryErrorView::CommandFailed(output.stderr))
    } else if !output.stdout_is_utf8 {
        Err(DeviceDiscoveryErrorView::InvalidUtf8)
    } else {
        let devices = sort_texts(nonempty(split_lines(output.stdout)));
        if devices.len() == 0 {
            Err(DeviceDiscoveryErrorView::NoDevicesFound)
        } else {
            Ok(devices)
        }
    }
}

/// Reads the disks that a search has found from its outcome.
pub fn process_find_output(output: CommandOutput) -> (r: Result<Vec<String>, DeviceDiscoveryError>)
    ensures
        result_view(r) == found_devices(output@),
{
    if !output.success {
        return Err(DeviceDiscoveryError::CommandFailed(output.stderr));
    }
    if !output.stdout_is_utf8 {
        return Err(DeviceDiscoveryError::InvalidUtf8);
    }
    let all = lines(output.stdout.as_str());
    let mut kept: Vec<String> = Vec::new();
    let mut i: usize = 0;
    assert(all.deep_view().take(0) =~= Seq::<Seq<char>>::empty());
    assert(kept.deep_view() =~= Seq::<Seq<char>>::empty());
    while i < all.len()
        invariant
            i <= all.len(),
            kept.deep_view() == nonempty(all.deep_view().take(i as int)),
        decreases all.len() - i,
    {
        proof {
            let before = all.deep_view().take(i + 1);
            assert(before.drop_last() =~= all.deep_view().take(i as int));
            assert(before.last() == all[i as int]@);
        }
        if all[i].as_str().unicode_len() > 0 {
            let line = all[i].clone();
            proof {
                lemma_push_deep_view(kept@, line);
            }
            kept.push(line);
        }
        i += 1;
    }
    assert(all.deep_view().take(all.len() as int) =~= all.deep_view());
    let devices = sort(kept);
    if devices.len() == 0 {
        Err(DeviceDiscoveryError::NoDevicesFound)
    } else {
        Ok(devices)
    }
}

/// The device path of the disk that the kernel calls `name`.
pub open spec fn device_path(name: Seq<char>) -> Seq<char> {
    "/dev/"@ + name
}

/// The disks among `names` from the one at `at` on whose device paths
/// exist, after `found`, having read `used` replies.
pub open spec fn existing_disks_from(
    names: Seq<Seq<char>>,
    replies: Seq<ReplyView>,
    at: int,
    used: int,
    found: Seq<Seq<char>>,
) -> ProgressView<Seq<Seq<char>>, DeviceDiscoveryErrorView>
    decreases names.len() - at,
{
    if at < 0 || at >= names.len() {
        ProgressView::Done(found, used)
    } else if !is_disk_name(names[at]) {
        existing_disks_from(names, replies, at + 1, used, found)
    } else {
        match path_exists_plan(device_path(names[at]), replies.skip(used)) {
            ProgressView::Run(operation) => ProgressView::Run(operation),
            ProgressView::Done(exists, n) => existing_disks_from(
                names,
                replies,
                at + 1,
                used + n,
                if exists {
                    found.push(device_path(names[at]))
                } else {
                    found
                },
            ),
            ProgressView::Failed(_, n) => existing_disks_from(
                names,
                replies,
                at + 1,
                used + n,
                found,
            ),
        }
    }
}

/// Plan of `find_devices_via_sysblock`: the entries of `/sys/block` that
/// are names of disks and whose device paths exist, in ascending order.
/// A path whose existence cannot be told counts as missing.
pub open spec fn sysblock_plan(replies: Seq<ReplyView>) -> ProgressView<
    Seq<Seq<char>>,
    DeviceDiscoveryErrorView,
> {
    match list_directory_plan("/sys/block"@, replies) {
        ProgressView::Run(operation) => ProgressView::Run(operation),
        ProgressView::Failed(failure, used) => ProgressView::Failed(
            DeviceDiscoveryErrorView::IoError(failure.message),
            used,
        ),
        ProgressView::Done(names, used) => match existing_disks_from(
            names,
            replies,
            0,
            used,
            Seq::empty(),
        ) {
            ProgressView::Run(operation) => ProgressView::Run(operation),
            ProgressView::Failed(error, n) => ProgressView::Failed(error, n),
            ProgressView::Done(found, n) => if found.len() == 0 {
                ProgressView::Failed(DeviceDiscoveryErrorView::NoDevicesFound, n)
            } else {
                ProgressView::Done(sort_texts(found), n)
            },
        },
    }
}

/// Finds the disks in the kernel's list of block devices.
pub fn find_devices_via_sysblock(replies: &[Reply]) -> (r: Progress<
    Vec<String>,
    DeviceDiscoveryError,
>)
    ensures
        r@ == sysblock_plan(replies.deep_view()),
        r@.within(replies.len() as int),
{
    let (names, first) = match list_directory("/sys/block", replies) {
        Progress::Run(operation) => {
            return Progress::Run(operation);
        },
        Progress::Failed(failure, used) => {
            return Progress::Failed(DeviceDiscoveryError::IoError(failure.message), used);
        },
        Progress::Done(names, used) => (names, used),
    };
    let mut found: Vec<String> = Vec::new();
    let mut used: usize = first;
    let mut at: usize = 0;
    assert(found.deep_view() =~= Seq::<Seq<char>>::empty());
    while at < names.len()
        invariant
            at <= names.len(),
            used <= replies.len(),
            list_directory_plan("/sys/block"@, replies.deep_view()) == ProgressView::<
                Seq<Seq<char>>,
                crate::command::FailureView,
            >::Done(names.deep_view(), first as int),
            existing_disks_from(
                names.deep_view(),
                replies.deep_view(),
                0,
                first as int,
                Seq::empty(),
            ) == existing_disks_from(
                names.deep_view(),
                replies.deep_view(),
                at as int,
                used as int,
                found.deep_view(),
            ),
        decreases names.len() - at,
    {
        if is_sata_device_name(names[at].as_str()) {
            let path = concat("/dev/", names[at].as_str());
            match path_exists(path.as_str(), rest(replies, used)) {
                Progress::Run(operation) => {
                    return Progress::Run(operation);
                },
                Progress::Failed(_, n) => {
                    used = used + n;
                },
                Progress::Done(exists, n) => {
                    used = used + n;
                    if exists {
                        proof {
                            lemma_push_deep_view(found@, path);
                        }
                        found.push(path);
                    }
                },
            }
        }
        at += 1;
    }
    if found.len() == 0 {
        Progress::Failed(DeviceDiscoveryError::NoDevicesFound, used)
    } else {
        Progress::Done(sort(found), used)
    }
}

/// The search for disks below `/dev`.
pub open spec fn find_command() -> Seq<Seq<char>> {
    seq!["find"@, "/dev"@, "-name"@, "sd?"@]
}

/// The search for disks below `/dev` with raised rights.
pub open spec fn sudo_find_command() -> Seq<Seq<char>> {
    seq!["sudo"@, "find"@, "/dev"@, "-name"@, "sd?"@]
}

/// Plan of a search for disks by the command `command`.
pub open spec fn search_plan(command: Seq<Seq<char>>, replies: Seq<ReplyView>) -> ProgressView<
    Seq<Seq<char>>,
    DeviceDiscoveryErrorView,
> {
    match command_plan(command, replies) {
        ProgressView::Run(operation) => ProgressView::Run(operation),
        ProgressView::Failed(failure, used) => ProgressView::Failed(
            DeviceDiscoveryErrorView::IoError(failure.message),
            used,
        ),
        ProgressView::Done(output, used) => match found_devices(output) {
            Ok(devices) => ProgressView::Done(devices, used),
            Err(error) => ProgressView::Failed(error, used),
        },
    }
}

fn search(command: Vec<String>, replies: &[Reply]) -> (r: Progress<
    Vec<String>,
    DeviceDiscoveryError,
>)
    ensures
        r@ == search_plan(command.deep_view(), replies.deep_view()),
        r@.within(replies.len() as int),
{
    match run_command(command, replies) {
        Progress::Run(operation) => Progress::Run(operation),
        Progress::Failed(failure, used) => Progress::Failed(
            DeviceDiscoveryError::IoError(failure.message),
            used,
        ),
        Progress::Done(output, used) => match process_find_output(output) {
            Ok(devices) => Progress::Done(devices, used),
            Err(error) => Progress::Failed(error, used),
        },
    }
}

/// Searches below `/dev` for disks with the rights of the caller.
pub fn try_find_without_sudo(replies: &[Reply]) -> (r: Progress<Vec<String>, DeviceDiscoveryError>)
    ensures
        r@ == search_plan(find_command(), replies.deep_view()),
        r@.within(replies.len() as int),
{
    let command = words(&["find", "/dev", "-name", "sd?"]);
    assert(command.deep_view() =~= find_command());
    search(command, replies)
}

/// Searches below `/dev` for disks with raised rights.
pub fn try_find_with_sudo(replies: &[Reply]) -> (r: Progress<Vec<String>, DeviceDiscoveryError>)
    ensures
        r@ == search_plan(sudo_find_command(), replies.deep_view()),
        r@.within(replies.len() as int),
{
    let command = words(&["sudo", "find", "/dev", "-name", "sd?"]);
    assert(command.deep_view() =~= sudo_find_command());
    search(command, replies)
}

/// Plan of `find_devices_via_find_command`: the search with the rights of
/// the caller, and where it fails the search with raised rights.
pub open spec fn find_command_plan(replies: Seq<ReplyView>) -> ProgressView<
    Seq<Seq<char>>,
    DeviceDiscoveryErrorView,
> {
    match search_plan(find_command(), replies) {
        ProgressView::Run(operation) => ProgressView::Run(operation),
        ProgressView::Done(devices, used) => ProgressView::Done(devices, used),
        ProgressView::Failed(_, used) => search_plan(sudo_find_command(), replies.skip(used)).after(
            used,
        ),
    }
}

/// Finds the disks by a search below `/dev`.
pub fn find_devices_via_find_command(replies: &[Reply]) -> (r: Progress<
    Vec<String>,
    DeviceDiscoveryError,
>)
    ensures
        r@ == find_command_plan(replies.deep_view()),
        r@.within(replies.len() as int),
{
    match try_find_without_sudo(replies) {
        Progress::Run(operation) => Progress::Run(operation),
        Progress::Done(devices, used) => Progress::Done(devices, used),
        Progress::Failed(_, used) => try_find_with_sudo(rest(replies, used)).after(used),
    }
}

/// Plan of `find_connected_satas`: without `/dev` nothing is looked for;
/// the kernel's list of block devices is asked first, and the search below
/// `/dev` only where the list fails or names no disk.
pub open spec fn discovery_plan(replies: Seq<ReplyView>) -> ProgressView<
    Seq<Seq<char>>,
    DeviceDiscoveryErrorView,
> {
    match path_exists_plan("/dev"@, replies) {
        ProgressView::Run(operation) => ProgressView::Run(operation),
        ProgressView::Failed(_, used) => ProgressView::Failed(
            DeviceDiscoveryErrorView::DevDirectoryNotFound,
            used,
        ),
        ProgressView::Done(exists, used) => if !exists {
            ProgressView::Failed(DeviceDiscoveryErrorView::DevDirectoryNotFound, used)
        } else {
            match sysblock_plan(replies.skip(used)) {
                ProgressView::Run(operation) => ProgressView::Run(operation),
                ProgressView::Done(devices, n) => if devices.len() > 0 {
                    ProgressView::Done(devices, used + n)
                } else {
                    find_command_plan(replies.skip(used + n)).after(used + n)
                },
                ProgressView::Failed(_, n) => find_command_plan(replies.skip(used + n)).after(
                    used + n,
                ),
            }
        },
    }
}

/// Finds the disks that are attached, in ascending order of their paths.
pub fn find_connected_satas(replies: &[Reply]) -> (r: Progress<Vec<String>, DeviceDiscoveryError>)
    ensures
        r@ == discovery_plan(replies.deep_view()),
        r@.within(replies.len() as int),
{
    let used = match path_exists("/dev", replies) {
        Progress::Run(operation) => {
            return Progress::Run(operation);
        },
        Progress::Failed(_, used) => {
            return Progress::Failed(DeviceDiscoveryError::DevDirectoryNotFound, used);
        },
        Progress::Done(exists, used) => {
            if !exists {
                return Progress::Failed(DeviceDiscoveryError::DevDirectoryNotFound, used);
            }
            used
        },
    };
    let next = match find_devices_via_sysblock(rest(replies, used)) {
        Progress::Run(operation) => {
            return Progress::Run(operation);
        },
        Progress::Done(devices, n) => {
            if devices.len() > 0 {
                return Progress::Done(devices, used + n);
            }
            used + n
        },
        Progress::Failed(_, n) => used + n,
    };
    find_devices_via_find_command(rest(replies, next)).after(next)
}

} // verus!
