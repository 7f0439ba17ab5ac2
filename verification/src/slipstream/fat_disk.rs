//! The OEMDRV driver disk: a 32 MiB FAT volume holding the answer file and
//! driver payloads, built in memory.

use crate::error::ClerestoryError;
use crate::slipstream::fat_volume::{fat_format, fat_write_file, FatVolume};
use crate::text::{chars_of, push_chars, push_str, string_from, trim_leading_slashes, trim_slashes_chars};

pub use crate::slipstream::fat_volume::FatFileError;
use vstd::prelude::*;

verus! {

/// Size of the OEMDRV volume: 32 MiB.
pub open spec fn image_size() -> nat {
    33554432
}

/// The label the OEMDRV volume is formatted with: "OEMDRV" padded to eleven bytes.
pub open spec fn oemdrv_label() -> Seq<u8> {
    seq![79u8, 69u8, 77u8, 68u8, 82u8, 86u8, 32u8, 32u8, 32u8, 32u8, 32u8]
}

/// The files of the OEMDRV volume, in the order they are written:
/// autounattend.xml with the answer file, then each driver file under its
/// path without leading '/'.
pub open spec fn oemdrv_files(answer: Seq<u8>, drivers: Seq<(String, Vec<u8>)>) -> Seq<(Seq<char>, Seq<u8>)> {
    seq![("autounattend.xml"@, answer)]
        + drivers.map_values(|d: (String, Vec<u8>)| (trim_leading_slashes(d.0@), d.1@))
}

/// The (name, contents) views of a file list.
pub open spec fn file_views(fs: Seq<(String, Vec<u8>)>) -> Seq<(Seq<char>, Seq<u8>)> {
    fs.map_values(|f: (String, Vec<u8>)| (f.0@, f.1@))
}

/// A copy of a byte slice.
fn copy_bytes(b: &[u8]) -> (r: Vec<u8>)
    ensures
        r@ == b@,
{
    let mut r: Vec<u8> = Vec::new();
    let mut i: usize = 0;
    while i < b.len()
        invariant
            i <= b.len(),
            r@ == b@.take(i as int),
        decreases b.len() - i,
    {
        r.push(b[i]);
        assert(b@.take(i + 1) =~= b@.take(i as int).push(b@[i as int]));
        i = i + 1;
    }
    assert(b@.take(b.len() as int) =~= b@);
    r
}

/// The message of a failure to put file `name` on the volume.
pub open spec fn file_error_message(name: Seq<char>, e: FatFileError) -> Seq<char> {
    match e {
        FatFileError::Open(m) => "FAT open error: "@ + m@,
        FatFileError::Create(m) => "Failed to create "@ + name + ": "@ + m@,
        FatFileError::Write(m) => "Failed to write "@ + name + ": "@ + m@,
    }
}

pub struct FatDiskBuilder;

impl FatDiskBuilder {
    /// The slipstream error for a failure to put file `name` on the volume.
    pub fn file_error(name: &str, e: FatFileError) -> (r: ClerestoryError)
        ensures
            r matches ClerestoryError::SlipstreamError(m) && m@ == file_error_message(name@, e),
    {
        let mut m = String::new();
        match e {
            FatFileError::Open(msg) => {
                push_str(&mut m, "FAT open error: ");
                push_str(&mut m, msg.as_str());
            },
            FatFileError::Create(msg) => {
                push_str(&mut m, "Failed to create ");
                push_str(&mut m, name);
                push_str(&mut m, ": ");
                push_str(&mut m, msg.as_str());
            },
            FatFileError::Write(msg) => {
                push_str(&mut m, "Failed to write ");
                push_str(&mut m, name);
                push_str(&mut m, ": ");
                push_str(&mut m, msg.as_str());
            },
        }
        ClerestoryError::SlipstreamError(m)
    }

    /// The slipstream error for a failure to format the volume.
    pub fn format_error(msg: &str) -> (r: ClerestoryError)
        ensures
            r matches ClerestoryError::SlipstreamError(m) && m@ == "FAT format error: "@ + msg@,
    {
        let mut m = string_from("FAT format error: ");
        push_str(&mut m, msg);
        ClerestoryError::SlipstreamError(m)
    }

    /// The files of the OEMDRV volume, in the order they are written.
    pub fn volume_files(answer_file: &[u8], driver_files: &Vec<(String, Vec<u8>)>) -> (r: Vec<(String, Vec<u8>)>)
        ensures
            file_views(r@) == oemdrv_files(answer_file@, driver_files@),
    {
        let mut r: Vec<(String, Vec<u8>)> = Vec::new();
        r.push((string_from("autounattend.xml"), copy_bytes(answer_file)));
        let ghost head = seq![("autounattend.xml"@, answer_file@)];
        assert(file_views(r@) =~= head);
        let mut i: usize = 0;
        while i < driver_files.len()
            invariant
                i <= driver_files.len(),
                head == seq![("autounattend.xml"@, answer_file@)],
                file_views(r@) == head + driver_files@.take(i as int).map_values(
                    |d: (String, Vec<u8>)| (trim_leading_slashes(d.0@), d.1@)),
            decreases driver_files.len() - i,
        {
            let ghost before = file_views(r@);
            let ghost d = driver_files@[i as int];
            let (rel_path, data) = &driver_files[i];
            assert(rel_path@ == d.0@ && data@ == d.1@);
            let clean = trim_slashes_chars(&chars_of(rel_path.as_str()));
            let mut name = String::new();
            push_chars(&mut name, &clean);
            assert(name@ =~= clean@);
            let bytes = copy_bytes(data.as_slice());
            r.push((name, bytes));
            assert(file_views(r@) =~= before.push((trim_leading_slashes(d.0@), d.1@)));
            assert(driver_files@.take(i + 1) =~= driver_files@.take(i as int).push(driver_files@[i as int]));
            assert(file_views(r@) =~= head + driver_files@.take(i + 1).map_values(
                |d: (String, Vec<u8>)| (trim_leading_slashes(d.0@), d.1@)));
            i = i + 1;
        }
        assert(driver_files@.take(driver_files.len() as int) =~= driver_files@);
        r
    }

    /// Builds the OEMDRV volume: 32 MiB formatted FAT with label "OEMDRV",
    /// into which the files of `volume_files` are written in order. A failure
    /// of the FAT layer is a slipstream error.
    pub fn build_image(answer_file: &[u8], driver_files: &Vec<(String, Vec<u8>)>) -> (r: Result<FatVolume, ClerestoryError>)
        ensures
            match r {
                Ok(v) => v.size() == image_size() && v.label() == oemdrv_label()
                    && v.files() == oemdrv_files(answer_file@, driver_files@),
                Err(e) => e is SlipstreamError,
            },
    {
        let files = Self::volume_files(answer_file, driver_files);
        let image: Vec<u8> = vec![0u8; 33554432];
        let label: [u8; 11] = [79, 69, 77, 68, 82, 86, 32, 32, 32, 32, 32];
        assert(label@ =~= oemdrv_label());
        let mut vol = match fat_format(image, label) {
            Ok(v) => v,
            Err(msg) => return Err(Self::format_error(msg.as_str())),
        };
        let mut i: usize = 0;
        while i < files.len()
            invariant
                i <= files.len(),
                vol.size() == image_size(),
                vol.label() == oemdrv_label(),
                vol.files() == file_views(files@).take(i as int),
            decreases files.len() - i,
        {
            let (name, data) = &files[i];
            match fat_write_file(&mut vol, name.as_str(), data.as_slice()) {
                Ok(()) => {},
                Err(e) => return Err(Self::file_error(name.as_str(), e)),
            }
            assert(file_views(files@).take(i + 1) =~= file_views(files@).take(i as int).push(file_views(files@)[i as int]));
            i = i + 1;
        }
        assert(file_views(files@).take(files.len() as int) =~= file_views(files@));
        Ok(vol)
    }
}

} // verus!
