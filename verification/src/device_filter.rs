//! The probe of a disk, and the choice of the disks that may be taken into
//! service: those that rotate and are not mounted.

use vstd::prelude::*;
use crate::command::{
    command_plan, lemma_push_deep_view, mounted_sources, mounted_sources_plan, rest, run_command, words, CommandOutput, CommandOutputView, Progress, ProgressView, Reply, ReplyView,
};
use crate::text::{
    concat, contains, contains_text, lines, parse_decimal, parse_u64, split_lines, text_eq, trim,
    trimmed,
};

verus! {

/// Why a disk could not be probed.
#[derive(Debug, Clone, PartialEq, Eq)]
pub enum DeviceFilterError {
    /// The query ended with a status other than zero; this is what it wrote
    /// to its standard error.
    CommandFailed(String),
    /// The query did not print a heading and a value.
    InvalidOutputFormat,
    /// The list of mounted file systems could not be had.
    SystemInfoError,
    /// The query could not be run; this is the system's diagnostic.
    IoError(String),
}

/// What a `DeviceFilterError` is, over characters.
pub enum DeviceFilterErrorView {
    CommandFailed(Seq<char>),
    InvalidOutputFormat,
    SystemInfoError,
    IoError(Seq<char>),
}

impl DeepView for DeviceFilterError {
    type V = DeviceFilterErrorView;

    open spec fn deep_view(&self) -> DeviceFilterErrorView {
        match self {
            DeviceFilterError::CommandFailed(text) => DeviceFilterErrorView::CommandFailed(text@),
            DeviceFilterError::InvalidOutputFormat => DeviceFilterErrorView::InvalidOutputFormat,
            DeviceFilterError::SystemInfoError => DeviceFilterErrorView::SystemInfoError,
            DeviceFilterError::IoError(text) => DeviceFilterErrorView::IoError(text@),
        }
    }
}

impl View for DeviceFilterError {
    type V = DeviceFilterErrorView;

    open spec fn view(&self) -> DeviceFilterErrorView {
        self.deep_view()
    }
}

impl DeviceFilterErrorView {
    /// The error as a line for the operator.
    pub open spec fn message(self) -> Seq<char> {
        match self {
            DeviceFilterErrorView::CommandFailed(text) => "Command failed: "@ + text,
            DeviceFilterErrorView::InvalidOutputFormat => "Invalid command output format"@,
            DeviceFilterErrorView::SystemInfoError => "System information error"@,
            DeviceFilterErrorView::IoError(text) => "IO error: "@ + text,
        }
    }
}

impl DeviceFilterError {
    /// The error as a line for the operator.
    pub fn message(&self) -> (r: String)
        ensures
            r@ == self@.message(),
    {
        match self {
            DeviceFilterError::CommandFailed(text) => concat("Command failed: ", text.as_str()),
            DeviceFilterError::InvalidOutputFormat => "Invalid command output format".to_owned(),
            DeviceFilterError::SystemInfoError => "System information error".to_owned(),
            DeviceFilterError::IoError(text) => concat("IO error: ", text.as_str()),
        }
    }
}

/// What a probe has found out about one disk.
#[derive(Debug, Clone, PartialEq, Eq)]
pub struct DeviceInfo {
    pub path: String,
    /// The disk is a rotating one.
    pub is_rotational: bool,
    /// A file system of the disk is mounted.
    pub is_mounted: bool,
    /// The capacity of the disk; zero where it could not be measured.
    pub size_bytes: u64,
}

/// What a `DeviceInfo` is, over characters.
pub struct DeviceInfoView {
    pub path: Seq<char>,
    pub is_rotational: bool,
    pub is_mounted: bool,
    pub size_bytes: u64,
}

impl DeepView for DeviceInfo {
    type V = DeviceInfoView;

    open spec fn deep_view(&self) -> DeviceInfoView {
        DeviceInfoView {
            path: self.path@,
            is_rotational: self.is_rotational,
            is_mounted: self.is_mounted,
            size_bytes: self.size_bytes,
        }
    }
}

impl View for DeviceInfo {
    type V = DeviceInfoView;

    open spec fn view(&self) -> DeviceInfoView {
        self.deep_view()
    }
}

/// Plan of `create_disk_info`.
pub open spec fn disk_info_plan(replies: Seq<ReplyView>) -> ProgressView<
    Seq<Seq<char>>,
    DeviceFilterErrorView,
> {
    match mounted_sources_plan(replies) {
        ProgressView::Run(operation) => ProgressView::Run(operation),
        ProgressView::Failed(_, used) => ProgressView::Failed(
            DeviceFilterErrorView::SystemInfoError,
            used,
        ),
        ProgressView::Done(sources, used) => ProgressView::Done(sources, used),
    }
}

/// Takes the list of the sources of all mounted file systems, once for all
/// the probes of a run.
pub fn create_disk_info(replies: &[Reply]) -> (r: Progress<Vec<String>, DeviceFilterError>)
    ensures
        r@ == disk_info_plan(replies.deep_view()),
        r@.within(replies.len() as int),
{
    match mounted_sources(replies) {
        Progress::Run(operation) => Progress::Run(operation),
        Progress::Failed(_, used) => Progress::Failed(DeviceFilterError::SystemInfoError, used),
        Progress::Done(sources, used) => Progress::Done(sources, used),
    }
}

/// A source among `sources` holds the text `device`.
pub open spec fn mounted_among(sources: Seq<Seq<char>>, device: Seq<char>) -> bool {
    exists|i: int| 0 <= i < sources.len() && contains_text(#[trigger] sources[i], device)
}

/// Whether `device` is mounted: whether the name of a mounted source holds
/// its path.
pub fn is_device_mounted(device: &str, sources: &[String]) -> (r: Result<bool, DeviceFilterError>)
    ensures
        r matches Ok(mounted) && mounted == mounted_among(sources.deep_view(), device@),
{
    let mut i: usize = 0;
    while i < sources.len()
        invariant
            i <= sources.len(),
            forall|j: int| 0 <= j < i ==> !contains_text(#[trigger] sources.deep_view()[j], device@),
        decreases sources.len() - i,
    {
        if contains(sources[i].as_str(), device) {
            assert(contains_text(sources.deep_view()[i as int], device@));
            return Ok(true);
        }
        i += 1;
    }
    Ok(false)
}

/// The query that tells whether `device` rotates.
pub open spec fn rotational_command(device: Seq<char>) -> Seq<Seq<char>> {
    seq!["sudo"@, "lsblk"@, "-d"@, "-o"@, "rota"@, device]
}

/// What the outcome of the rotation query means: below the heading, the
/// value `1` for a rotating disk.
pub open spec fn reported_rotational(output: CommandOutputView) -> Result<
    bool,
    DeviceFilterErrorView,
> {
    if !output.success {
        Err(DeviceFilterErrorView::CommandFailed(output.stderr))
    } else if split_lines(output.stdout).len() < 2 {
        Err(DeviceFilterErrorView::InvalidOutputFormat)
    } else {
        Ok(trimmed(split_lines(output.stdout)[1]) == "1"@)
    }
}

/// Plan of `is_rotational_device`.
pub open spec fn rotational_plan(device: Seq<char>, replies: Seq<ReplyView>) -> ProgressView<
    bool,
    DeviceFilterErrorView,
> {
    match command_plan(rotational_command(device), replies) {
        ProgressView::Run(operation) => ProgressView::Run(operation),
        ProgressView::Failed(failure, used) => ProgressView::Failed(
            DeviceFilterErrorView::IoError(failure.message),
            used,
        ),
        ProgressView::Done(output, used) => match reported_rotational(output) {
            Ok(rotational) => ProgressView::Done(rotational, used),
            Err(error) => ProgressView::Failed(error, used),
        },
    }
}

/// Whether `device` is a rotating disk.
pub fn is_rotational_device(device: &str, replies: &[Reply]) -> (r: Progress<
    bool,
    DeviceFilterError,
>)
    ensures
        r@ == rotational_plan(device@, replies.deep_view()),
        r@.within(replies.len() as int),
{
    let command = words(&["sudo", "lsblk", "-d", "-o", "rota", device]);
    assert(command.deep_view() =~= rotational_command(device@));
    match run_command(command, replies) {
        Progress::Run(operation) => Progress::Run(operation),
        Progress::Failed(failure, used) => Progress::Failed(
            DeviceFilterError::IoError(failure.message),
            used,
        ),
        Progress::Done(output, used) => {
            if !output.success {
                return Progress::Failed(DeviceFilterError::CommandFailed(output.stderr), used);
            }
            let rows = lines(output.stdout.as_str());
            if rows.len() < 2 {
                return Progress::Failed(DeviceFilterError::InvalidOutputFormat, used);
            }
            let value = trim(rows[1].as_str());
            assert(rows.deep_view()[1] == rows[1]@);
            Progress::Done(text_eq(value.as_str(), "1"), used)
        },
    }
}

/// The query for the capacity of `device` in bytes.
pub open spec fn capacity_command(device: Seq<char>) -> Seq<Seq<char>> {
    seq!["sudo"@, "blockdev"@, "--getsize64"@, device]
}

/// The capacity in bytes that the outcome of the capacity query reports;
/// zero where the query failed or printed no number.
pub open spec fn reported_capacity(output: CommandOutputView) -> u64 {
    if !output.success {
        0
    } else {
        match parse_decimal(trimmed(output.stdout)) {
            Some(bytes) => bytes,
            None => 0,
        }
    }
}

/// The capacity in bytes that the outcome `output` of the capacity query
/// reports.
pub fn read_capacity(output: &CommandOutput) -> (r: u64)
    ensures
        r == reported_capacity(output@),
{
    if !output.success {
        return 0;
    }
    let digits = trim(output.stdout.as_str());
    match parse_u64(digits.as_str()) {
        Some(bytes) => bytes,
        None => 0,
    }
}

/// Plan of `get_device_size_bytes`.
pub open spec fn capacity_plan(device: Seq<char>, replies: Seq<ReplyView>) -> ProgressView<
    u64,
    DeviceFilterErrorView,
> {
    match command_plan(capacity_command(device), replies) {
        ProgressView::Run(operation) => ProgressView::Run(operation),
        ProgressView::Failed(failure, used) => ProgressView::Failed(
            DeviceFilterErrorView::IoError(failure.message),
            used,
        ),
        ProgressView::Done(output, used) => ProgressView::Done(reported_capacity(output), used),
    }
}

/// The capacity of `device` in bytes. A query that ends badly, or prints no
/// number, gives zero; the plan fails only where the query cannot be run.
pub fn get_device_size_bytes(device: &str, replies: &[Reply]) -> (r: Progress<
    u64,
    DeviceFilterError,
>)
    ensures
        r@ == capacity_plan(device@, replies.deep_view()),
        r@.within(replies.len() as int),
{
    let command = words(&["sudo", "blockdev", "--getsize64", device]);
    assert(command.deep_view() =~= capacity_command(device@));
    match run_command(command, replies) {
        Progress::Run(operation) => Progress::Run(operation),
        Progress::Failed(failure, used) => Progress::Failed(
            DeviceFilterError::IoError(failure.message),
            used,
        ),
        Progress::Done(output, used) => Progress::Done(read_capacity(&output), used),
    }
}

/// Plan of `probe`: the rotation query, whose failure fails the probe; the
/// mount state from `sources`; and the capacity query, whose failure leaves
/// the capacity at zero.
pub open spec fn probe_plan(
    device: Seq<char>,
    sources: Seq<Seq<char>>,
    replies: Seq<ReplyView>,
) -> ProgressView<DeviceInfoView, DeviceFilterErrorView> {
    match rotational_plan(device, replies) {
        ProgressView::Run(operation) => ProgressView::Run(operation),
        ProgressView::Failed(error, used) => ProgressView::Failed(error, used),
        ProgressView::Done(rotational, used) => match capacity_plan(device, replies.skip(used)) {
            ProgressView::Run(operation) => ProgressView::Run(operation),
            ProgressView::Failed(_, n) => ProgressView::Done(
                DeviceInfoView {
                    path: device,
                    is_rotational: rotational,
                    is_mounted: mounted_among(sources, device),
                    size_bytes: 0,
                },
                used + n,
            ),
            ProgressView::Done(bytes, n) => ProgressView::Done(
                DeviceInfoView {
                    path: device,
                    is_rotational: rotational,
                    is_mounted: mounted_among(sources, device),
                    size_bytes: bytes,
                },
                used + n,
            ),
        },
    }
}

/// Probes `device`; `sources` are the sources of the mounted file systems.
pub fn probe(device: &str, sources: &[String], replies: &[Reply]) -> (r: Progress<
    DeviceInfo,
    DeviceFilterError,
>)
    ensures
        r@ == probe_plan(device@, sources.deep_view(), replies.deep_view()),
        r@.within(replies.len() as int),
{
    let (rotational, used) = match is_rotational_device(device, replies) {
        Progress::Run(operation) => {
            return Progress::Run(operation);
        },
        Progress::Failed(error, used) => {
            return Progress::Failed(error, used);
        },
        Progress::Done(rotational, used) => (rotational, used),
    };
    let mounted = match is_device_mounted(device, sources) {
        Ok(mounted) => mounted,
        Err(error) => {
            return Progress::Failed(error, used);
        },
    };
    match get_device_size_bytes(device, rest(replies, used)) {
        Progress::Run(operation) => Progress::Run(operation),
        Progress::Failed(_, n) => Progress::Done(
            DeviceInfo {
                path: device.to_owned(),
                is_rotational: rotational,
                is_mounted: mounted,
                size_bytes: 0,
            },
            used + n,
        ),
        Progress::Done(bytes, n) => Progress::Done(
            DeviceInfo {
                path: device.to_owned(),
                is_rotational: rotational,
                is_mounted: mounted,
                size_bytes: bytes,
            },
            used + n,
        ),
    }
}

/// `collect_plan` once the first `at` devices gave the records `done` and
/// `used` replies were read.
pub open spec fn collect_from(
    devices: Seq<Seq<char>>,
    sources: Seq<Seq<char>>,
    replies: Seq<ReplyView>,
    at: int,
    used: int,
    done: Seq<DeviceInfoView>,
) -> ProgressView<Seq<DeviceInfoView>, DeviceFilterErrorView>
    decreases devices.len() - at,
{
    if at < 0 || at >= devices.len() {
        ProgressView::Done(done, used)
    } else {
        match probe_plan(devices[at], sources, replies.skip(used)) {
            ProgressView::Run(operation) => ProgressView::Run(operation),
            ProgressView::Failed(error, n) => ProgressView::Failed(error, used + n),
            ProgressView::Done(info, n) => collect_from(
                devices,
                sources,
                replies,
                at + 1,
                used + n,
                done.push(info),
            ),
        }
    }
}

/// Plan of `collect_device_infos`: the list of mounted sources is taken
/// once, then each device is probed in order; the first probe that fails
/// ends the batch.
pub open spec fn collect_plan(devices: Seq<Seq<char>>, replies: Seq<ReplyView>) -> ProgressView<
    Seq<DeviceInfoView>,
    DeviceFilterErrorView,
> {
    match disk_info_plan(replies) {
        ProgressView::Run(operation) => ProgressView::Run(operation),
        ProgressView::Failed(error, used) => ProgressView::Failed(error, used),
        ProgressView::Done(sources, used) => collect_from(
            devices,
            sources,
            replies,
            0,
            used,
            Seq::empty(),
        ),
    }
}

/// Probes each device, in order.
pub fn collect_device_infos(devices: Vec<String>, replies: &[Reply]) -> (r: Progress<
    Vec<DeviceInfo>,
    DeviceFilterError,
>)
    ensures
        r@ == collect_plan(devices.deep_view(), replies.deep_view()),
        r@.within(replies.len() as int),
{
    let (sources, first) = match create_disk_info(replies) {
        Progress::Run(operation) => {
            return Progress::Run(operation);
        },
        Progress::Failed(error, used) => {
            return Progress::Failed(error, used);
        },
        Progress::Done(sources, used) => (sources, used),
    };
    let mut done: Vec<DeviceInfo> = Vec::new();
    let mut used: usize = first;
    let mut at: usize = 0;
    assert(done.deep_view() =~= Seq::<DeviceInfoView>::empty());
    while at < devices.len()
        invariant
            at <= devices.len(),
            used <= replies.len(),
            collect_plan(devices.deep_view(), replies.deep_view()) == collect_from(
                devices.deep_view(),
                sources.deep_view(),
                replies.deep_view(),
                at as int,
                used as int,
                done.deep_view(),
            ),
        decreases devices.len() - at,
    {
        match probe(devices[at].as_str(), sources.as_slice(), rest(replies, used)) {
            Progress::Run(operation) => {
                return Progress::Run(operation);
            },
            Progress::Failed(error, n) => {
                return Progress::Failed(error, used + n);
            },
            Progress::Done(info, n) => {
                proof {
                    lemma_push_deep_view(done@, info);
                }
                done.push(info);
                used = used + n;
            },
        }
        at += 1;
    }
    Progress::Done(done, used)
}

/// A disk that may be taken into service: it rotates and is not mounted.
pub open spec fn is_candidate(info: DeviceInfoView) -> bool {
    info.is_rotational && !info.is_mounted
}

/// The paths of the candidates among `infos`, in their order.
pub open spec fn candidates(infos: Seq<DeviceInfoView>) -> Seq<Seq<char>>
    decreases infos.len(),
{
    if infos.len() == 0 {
        Seq::empty()
    } else if is_candidate(infos.last()) {
        candidates(infos.drop_last()).push(infos.last().path)
    } else {
        candidates(infos.drop_last())
    }
}

/// The places of the candidates among `infos`, ascending.
pub open spec fn candidate_places(infos: Seq<DeviceInfoView>) -> Seq<int>
    decreases infos.len(),
{
    if infos.len() == 0 {
        Seq::empty()
    } else if is_candidate(infos.last()) {
        candidate_places(infos.drop_last()).push(infos.len() - 1)
    } else {
        candidate_places(infos.drop_last())
    }
}

/// Plan of `filter_unmounted_hdd_devices`: every device is probed, and the
/// candidates are kept in their order.
pub open spec fn filter_plan(devices: Seq<Seq<char>>, replies: Seq<ReplyView>) -> ProgressView<
    Seq<Seq<char>>,
    DeviceFilterErrorView,
> {
    match collect_plan(devices, replies) {
        ProgressView::Run(operation) => ProgressView::Run(operation),
        ProgressView::Failed(error, used) => ProgressView::Failed(error, used),
        ProgressView::Done(infos, used) => ProgressView::Done(candidates(infos), used),
    }
}

/// Keeps the devices that rotate and are not mounted, in the order in which
/// they were given. A probe that fails ends the call with its error.
pub fn filter_unmounted_hdd_devices(devices: Vec<String>, replies: &[Reply]) -> (r: Progress<
    Vec<String>,
    DeviceFilterError,
>)
    ensures
        r@ == filter_plan(devices.deep_view(), replies.deep_view()),
        r@.within(replies.len() as int),
{
    match collect_device_infos(devices, replies) {
        Progress::Run(operation) => Progress::Run(operation),
        Progress::Failed(error, used) => Progress::Failed(error, used),
        Progress::Done(infos, used) => {
            let mut kept: Vec<String> = Vec::new();
            let mut i: usize = 0;
            assert(infos.deep_view().take(0) =~= Seq::<DeviceInfoView>::empty());
            assert(kept.deep_view() =~= Seq::<Seq<char>>::empty());
            while i < infos.len()
                invariant
                    i <= infos.len(),
                    kept.deep_view() == candidates(infos.deep_view().take(i as int)),
                decreases infos.len() - i,
            {
                proof {
                    let before = infos.deep_view().take(i + 1);
                    assert(before.drop_last() =~= infos.deep_view().take(i as int));
                    assert(before.last() == infos[i as int]@);
                }
                if infos[i].is_rotational && !infos[i].is_mounted {
                    let path = infos[i].path.clone();
                    proof {
                        lemma_push_deep_view(kept@, path);
                    }
                    kept.push(path);
                }
                i += 1;
            }
            assert(infos.deep_view().take(infos.len() as int) =~= infos.deep_view());
            Progress::Done(kept, used)
        },
    }
}

/// The candidates are the paths at the candidate places; the places ascend,
/// lie within the list, and are those of the disks that rotate and are not
/// mounted, all of them.
pub proof fn lemma_candidates(infos: Seq<DeviceInfoView>)
    ensures
        candidates(infos).len() == candidate_places(infos).len(),
        forall|k: int|
            0 <= k < candidate_places(infos).len() ==> {
                let place = #[trigger] candidate_places(infos)[k];
                &&& 0 <= place < infos.len()
                &&& is_candidate(infos[place])
                &&& candidates(infos)[k] == infos[place].path
            },
        forall|k: int, l: int|
            0 <= k < l < candidate_places(infos).len() ==> candidate_places(infos)[k]
                < candidate_places(infos)[l],
        forall|j: int|
            0 <= j < infos.len() && is_candidate(#[trigger] infos[j]) ==> candidate_places(
                infos,
            ).contains(j),
    decreases infos.len(),
{
    if infos.len() > 0 {
        let front = infos.drop_last();
        lemma_candidates(front);
        let places = candidate_places(infos);
        let inner = candidate_places(front);
        assert forall|j: int| 0 <= j < infos.len() && is_candidate(
            #[trigger] infos[j],
        ) implies places.contains(j) by {
            if j < infos.len() - 1 {
                assert(front[j] == infos[j]);
                assert(inner.contains(j));
                let k = choose|k: int| 0 <= k < inner.len() && inner[k] == j;
                assert(places[k] == j);
            } else {
                assert(places[places.len() - 1] == j);
            }
        }
        assert forall|k: int| 0 <= k < places.len() implies {
            let place = #[trigger] places[k];
            &&& 0 <= place < infos.len()
            &&& is_candidate(infos[place])
            &&& candidates(infos)[k] == infos[place].path
        } by {
            if k < inner.len() {
                assert(places[k] == inner[k]);
                assert(front[inner[k]] == infos[inner[k]]);
            }
        }
        assert forall|k: int, l: int| 0 <= k < l < places.len() implies places[k] < places[l] by {
            assert(places[k] == inner[k]);
            if l < inner.len() {
                assert(places[l] == inner[l]);
            }
        }
    }
}

/// Probing keeps the devices apart: what `collect_from` ends with holds one
/// record for each device, in order, under the device's own path.
pub proof fn lemma_collect_from(
    devices: Seq<Seq<char>>,
    sources: Seq<Seq<char>>,
    replies: Seq<ReplyView>,
    at: int,
    used: int,
    done: Seq<DeviceInfoView>,
)
    requires
        0 <= at <= devices.len(),
        done.len() == at,
        forall|j: int| 0 <= j < at ==> (#[trigger] done[j]).path == devices[j],
    ensures
        collect_from(devices, sources, replies, at, used, done) matches ProgressView::Done(
            infos,
            _,
        ) ==> {
            &&& infos.len() == devices.len()
            &&& forall|j: int| 0 <= j < infos.len() ==> (#[trigger] infos[j]).path == devices[j]
        },
    decreases devices.len() - at,
{
    if at < devices.len() {
        match probe_plan(devices[at], sources, replies.skip(used)) {
            ProgressView::Done(info, n) => {
                lemma_collect_from(devices, sources, replies, at + 1, used + n, done.push(info));
            },
            _ => {},
        }
    }
}

/// What the filter keeps is a selection of the devices it was given, in
/// their order: the kept paths are the devices at ascending places, and
/// these places are those of the devices that the probe has reported as
/// rotating and not mounted, all of them and no other.
pub proof fn lemma_filter_selects_in_order(devices: Seq<Seq<char>>, replies: Seq<ReplyView>)
    ensures
        filter_plan(devices, replies) matches ProgressView::Done(kept, used) ==> {
            &&& collect_plan(devices, replies) matches ProgressView::Done(infos, probed)
            &&& probed == used
            &&& infos.len() == devices.len()
            &&& kept.len() == candidate_places(infos).len()
            &&& forall|k: int|
                0 <= k < kept.len() ==> {
                    let place = #[trigger] candidate_places(infos)[k];
                    &&& 0 <= place < devices.len()
                    &&& kept[k] == devices[place]
                    &&& infos[place].path == devices[place]
                    &&& infos[place].is_rotational
                    &&& !infos[place].is_mounted
                }
            &&& forall|k: int, l: int|
                0 <= k < l < kept.len() ==> candidate_places(infos)[k] < candidate_places(infos)[l]
            &&& forall|j: int|
                0 <= j < infos.len() && (#[trigger] infos[j]).is_rotational && !infos[j].is_mounted
                    ==> candidate_places(infos).contains(j)
        },
{
    match disk_info_plan(replies) {
        ProgressView::Done(sources, used) => {
            lemma_collect_from(devices, sources, replies, 0, used, Seq::empty());
            match collect_plan(devices, replies) {
                ProgressView::Done(infos, _) => {
                    lemma_candidates(infos);
                },
                _ => {},
            }
        },
        _ => {},
    }
}

} // verus!
