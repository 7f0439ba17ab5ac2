use clerestory::error::ClerestoryError;
use clerestory::slipstream::fat_disk::{FatDiskBuilder, FatFileError};
use clerestory::slipstream::virtio_driver::{VirtioDriverHelper, VIRTIO_WIN_STABLE_URL};
use std::io::Read;

#[test]
fn test_find_local_iso_order() {
    assert_eq!(
        VirtioDriverHelper::find_local_iso(&vec![false, true, true]),
        Some("/var/lib/libvirt/images/virtio-win.iso".to_string())
    );
    assert_eq!(VirtioDriverHelper::find_local_iso(&vec![false, false, false]), None);
}

#[test]
fn test_verify_iso_missing() {
    assert!(VirtioDriverHelper::verify_iso("/tmp/virtio-win.iso", true).is_ok());
    match VirtioDriverHelper::verify_iso("/tmp/none.iso", false) {
        Err(ClerestoryError::MissingPrerequisite { name, install_hint }) => {
            assert_eq!(name, "VirtIO Driver ISO at /tmp/none.iso");
            assert_eq!(install_hint, format!("Download from: {}", VIRTIO_WIN_STABLE_URL));
        }
        other => panic!("unexpected {:?}", other),
    }
}

#[test]
fn test_build_image_holds_answer_file_and_drivers() {
    let drivers = vec![("/netkvm.sys".to_string(), vec![1u8, 2, 3, 4])];
    let image = FatDiskBuilder::build_image(b"<unattend/>", &drivers).expect("image").into_image();
    assert_eq!(image.len(), 32 * 1024 * 1024);
    let fs = fatfs::FileSystem::new(std::io::Cursor::new(image), fatfs::FsOptions::new()).expect("open");
    assert_eq!(fs.volume_label(), "OEMDRV");
    let mut xml = String::new();
    fs.root_dir().open_file("autounattend.xml").expect("answer file").read_to_string(&mut xml).unwrap();
    assert_eq!(xml, "<unattend/>");
    let mut data = Vec::new();
    fs.root_dir().open_file("netkvm.sys").expect("driver").read_to_end(&mut data).unwrap();
    assert_eq!(data, vec![1, 2, 3, 4]);
}

#[test]
fn test_fat_error_messages() {
    match FatDiskBuilder::file_error("netkvm.sys", FatFileError::Create("disk full".to_string())) {
        ClerestoryError::SlipstreamError(m) => assert_eq!(m, "Failed to create netkvm.sys: disk full"),
        other => panic!("unexpected {:?}", other),
    }
    match FatDiskBuilder::file_error("a", FatFileError::Open("bad".to_string())) {
        ClerestoryError::SlipstreamError(m) => assert_eq!(m, "FAT open error: bad"),
        other => panic!("unexpected {:?}", other),
    }
    match FatDiskBuilder::format_error("too small") {
        ClerestoryError::SlipstreamError(m) => assert_eq!(m, "FAT format error: too small"),
        other => panic!("unexpected {:?}", other),
    }
}

#[test]
fn test_volume_files_order_and_names() {
    let drivers = vec![
        ("//amd64/netkvm.sys".to_string(), vec![7u8]),
        ("viostor.inf".to_string(), vec![8u8, 9]),
    ];
    let files = FatDiskBuilder::volume_files(b"xml", &drivers);
    assert_eq!(
        files,
        vec![
            ("autounattend.xml".to_string(), b"xml".to_vec()),
            ("amd64/netkvm.sys".to_string(), vec![7u8]),
            ("viostor.inf".to_string(), vec![8u8, 9]),
        ]
    );
}
