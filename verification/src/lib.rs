//! Core of an automatic disk provisioning tool: the decisions that bring a
//! newly attached disk into service, free of any input or output.
//!
//! Every function that needs the system is a plan (see `command`): it is
//! handed the replies to the operations carried out for it so far and
//! answers with the next operation, or with its result.

pub mod command;
pub mod device_discovery;
pub mod device_filter;
pub mod error;
pub mod filesystem;
pub mod mount_manager;
pub mod partition_manager;
pub mod smart_mount;
pub mod table_file;
pub mod text;

pub use command::{Operation, Progress, Reply};
pub use device_discovery::{find_connected_satas, DeviceDiscoveryError};
pub use device_filter::{filter_unmounted_hdd_devices, DeviceFilterError, DeviceInfo};
pub use error::Error;
pub use filesystem::{format_devices, FilesystemError, FilesystemType, FormatResult};
pub use mount_manager::{mount_devices, MountError, MountResult};
pub use partition_manager::{
    change_devices_to_gpt, create_partition, GptConversionResult, PartitionError, PartitionResult,
};
pub use smart_mount::{
    gpt_auto_mount, simple_auto_mount, smart_auto_mount, smart_auto_mount_with_config, MountConfig,
    SmartMountError,
};
