//! Driver slipstreaming: the VirtIO driver ISO and the OEMDRV FAT disk image.

pub mod fat_disk;
pub mod fat_volume;
pub mod virtio_driver;

pub use fat_disk::FatDiskBuilder;
pub use virtio_driver::VirtioDriverHelper;
