//! Discovery of removable storage partitions, their correlation with the
//! kernel mount table, and the decisions behind mounting and unmounting them.
//!
//! The library works on plain values. Whoever uses it reads the mount table
//! and the device database, hands their contents in, and carries out on the
//! filesystem what the mount and unmount sessions ask for.

pub mod device;
pub mod display;
pub mod mount;
pub mod mount_table;
pub mod paths;
pub mod select;
pub mod text;
pub mod unmount;

pub use device::{get_available_partition_devices, DeviceRecord, PartitionDevice};
pub use display::{format_mount_points, format_optional_string, format_partition_size};
pub use mount_table::MountInfo;
