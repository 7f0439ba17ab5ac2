//! A FAT volume image in memory and the two FAT operations made on it.
//!
//! A `FatVolume` can only come from `fat_format`, so every image the file
//! writer is handed is one the FAT layer has itself formatted and written.

use vstd::prelude::*;

verus! {

/// Why writing a file into the volume failed, with the I/O error's message.
#[derive(Debug, Clone, PartialEq, Eq)]
pub enum FatFileError {
    /// The volume could not be opened as a FAT filesystem.
    Open(String),
    /// The file could not be created.
    Create(String),
    /// The file's contents could not be written.
    Write(String),
}

/// A formatted FAT volume image, with a record of what was handed to the FAT
/// layer for it: the volume label it was formatted with, and each file
/// (name, contents) written into its root directory, in order. The record is
/// specification only; it takes no room in the value.
pub struct FatVolume {
    image: Vec<u8>,
    label: Ghost<Seq<u8>>,
    files: Ghost<Seq<(Seq<char>, Seq<u8>)>>,
}

impl FatVolume {
    /// Length of the image in bytes.
    pub closed spec fn size(&self) -> nat {
        self.image@.len()
    }

    /// The label the volume was formatted with.
    pub closed spec fn label(&self) -> Seq<u8> {
        self.label@
    }

    /// The files handed to the FAT layer for the volume, in order.
    pub closed spec fn files(&self) -> Seq<(Seq<char>, Seq<u8>)> {
        self.files@
    }

    /// The bytes of the volume image.
    pub fn into_image(self) -> (v: Vec<u8>)
        ensures
            v@.len() == self.size(),
    {
        self.image
    }
}

/// Formats `image` as a FAT volume with the given label (`fatfs::format_volume`
/// with `FormatVolumeOptions::volume_label`, on a cursor over the image).
/// Claims that a formatted volume keeps the image's length and records the
/// label and no files; nothing about the bytes written.
#[verifier::external_body]
pub(crate) fn fat_format(image: Vec<u8>, label: [u8; 11]) -> (r: Result<FatVolume, String>)
    ensures
        r matches Ok(v) ==> v.size() == image@.len() && v.label() == label@
            && v.files() == Seq::<(Seq<char>, Seq<u8>)>::empty(),
{
    let mut image = image;
    let options = fatfs::FormatVolumeOptions::new().volume_label(label);
    match fatfs::format_volume(std::io::Cursor::new(&mut image[..]), options) {
        Ok(()) => Ok(FatVolume { image, label: Ghost(label@), files: Ghost(Seq::empty()) }),
        Err(e) => Err(e.to_string()),
    }
}

/// Opens the volume (`fatfs::FileSystem::new`), creates or opens the file
/// `name` in its root directory (`Dir::create_file`) and writes `data` into it
/// (`Write::write_all`). Claims that the image keeps its length and label and
/// that the record gains (`name`, `data`); nothing about the bytes written.
#[verifier::external_body]
pub(crate) fn fat_write_file(vol: &mut FatVolume, name: &str, data: &[u8]) -> (r: Result<(), FatFileError>)
    ensures
        final(vol).size() == old(vol).size(),
        final(vol).label() == old(vol).label(),
        final(vol).files() == old(vol).files().push((name@, data@)),
{
    let fs = match fatfs::FileSystem::new(std::io::Cursor::new(&mut vol.image[..]), fatfs::FsOptions::new()) {
        Ok(fs) => fs,
        Err(e) => return Err(FatFileError::Open(e.to_string())),
    };
    let mut file = match fs.root_dir().create_file(name) {
        Ok(f) => f,
        Err(e) => return Err(FatFileError::Create(e.to_string())),
    };
    match std::io::Write::write_all(&mut file, data) {
        Ok(()) => Ok(()),
        Err(e) => Err(FatFileError::Write(e.to_string())),
    }
}

} // verus!
