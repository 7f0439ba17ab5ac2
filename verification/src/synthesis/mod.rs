//! Synthesis of libvirt domain XML and standalone QEMU launch scripts.

pub mod libvirt_xml;
pub mod qemu_script;
