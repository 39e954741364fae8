//! The error of the whole crate: that of one of its parts.

use vstd::prelude::*;
use vstd::std_specs::convert::FromSpecImpl;
use crate::device_discovery::{DeviceDiscoveryError, DeviceDiscoveryErrorView};
use crate::device_filter::{DeviceFilterError, DeviceFilterErrorView};
use crate::filesystem::{FilesystemError, FilesystemErrorView};
use crate::mount_manager::{MountError, MountErrorView};
use crate::partition_manager::{PartitionError, PartitionErrorView};
use crate::text::concat;

verus! {

/// What went wrong, by the part in which it did.
#[derive(Debug, Clone, PartialEq, Eq)]
pub enum Error {
    DeviceDiscoveryError(DeviceDiscoveryError),
    DeviceFilterError(DeviceFilterError),
    PartitionError(PartitionError),
    FilesystemError(FilesystemError),
    MountError(MountError),
}

/// What an `Error` is, over characters.
pub enum ErrorView {
    DeviceDiscoveryError(DeviceDiscoveryErrorView),
    DeviceFilterError(DeviceFilterErrorView),
    PartitionError(PartitionErrorView),
    FilesystemError(FilesystemErrorView),
    MountError(MountErrorView),
}

impl DeepView for Error {
    type V = ErrorView;

    open spec fn deep_view(&self) -> ErrorView {
        match self {
            Error::DeviceDiscoveryError(error) => ErrorView::DeviceDiscoveryError(error@),
            Error::DeviceFilterError(error) => ErrorView::DeviceFilterError(error@),
            Error::PartitionError(error) => ErrorView::PartitionError(error@),
            Error::FilesystemError(error) => ErrorView::FilesystemError(error@),
            Error::MountError(error) => ErrorView::MountError(error@),
        }
    }
}

impl View for Error {
    type V = ErrorView;

    open spec fn view(&self) -> ErrorView {
        self.deep_view()
    }
}

impl ErrorView {
    /// The error as a line for the operator.
    pub open spec fn message(self) -> Seq<char> {
        match self {
            ErrorView::DeviceDiscoveryError(error) => "Device discovery error: "@ + error.message(),
            ErrorView::DeviceFilterError(error) => "Device filter error: "@ + error.message(),
            ErrorView::PartitionError(error) => "Partition error: "@ + error.message(),
            ErrorView::FilesystemError(error) => "Filesystem error: "@ + error.message(),
            ErrorView::MountError(error) => "Mount error: "@ + error.message(),
        }
    }
}

impl Error {
    /// The error as a line for the operator.
    pub fn message(&self) -> (r: String)
        ensures
            r@ == self@.message(),
    {
        match self {
            Error::DeviceDiscoveryError(error) => concat(
                "Device discovery error: ",
                error.message().as_str(),
            ),
            Error::DeviceFilterError(error) => concat(
                "Device filter error: ",
                error.message().as_str(),
            ),
            Error::PartitionError(error) => concat("Partition error: ", error.message().as_str()),
            Error::FilesystemError(error) => concat("Filesystem error: ", error.message().as_str()),
            Error::MountError(error) => concat("Mount error: ", error.message().as_str()),
        }
    }
}

impl From<DeviceDiscoveryError> for Error {
    fn from(error: DeviceDiscoveryError) -> (r: Self) {
        Error::DeviceDiscoveryError(error)
    }
}

impl FromSpecImpl<DeviceDiscoveryError> for Error {
    open spec fn obeys_from_spec() -> bool {
        true
    }

    open spec fn from_spec(error: DeviceDiscoveryError) -> Self {
        Error::DeviceDiscoveryError(error)
    }
}

impl From<DeviceFilterError> for Error {
    fn from(error: DeviceFilterError) -> (r: Self) {
        Error::DeviceFilterError(error)
    }
}

impl FromSpecImpl<DeviceFilterError> for Error {
    open spec fn obeys_from_spec() -> bool {
        true
    }

    open spec fn from_spec(error: DeviceFilterError) -> Self {
        Error::DeviceFilterError(error)
    }
}

impl From<PartitionError> for Error {
    fn from(error: PartitionError) -> (r: Self) {
        Error::PartitionError(error)
    }
}

impl FromSpecImpl<PartitionError> for Error {
    open spec fn obeys_from_spec() -> bool {
        true
    }

    open spec fn from_spec(error: PartitionError) -> Self {
        Error::PartitionError(error)
    }
}

impl From<FilesystemError> for Error {
    fn from(error: FilesystemError) -> (r: Self) {
        Error::FilesystemError(error)
    }
}

impl FromSpecImpl<FilesystemError> for Error {
    open spec fn obeys_from_spec() -> bool {
        true
    }

    open spec fn from_spec(error: FilesystemError) -> Self {
        Error::FilesystemError(error)
    }
}

impl From<MountError> for Error {
    fn from(error: MountError) -> (r: Self) {
        Error::MountError(error)
    }
}

impl FromSpecImpl<MountError> for Error {
    open spec fn obeys_from_spec() -> bool {
        true
    }

    open spec fn from_spec(error: MountError) -> Self {
        Error::MountError(error)
    }
}

} // verus!
