//! Opening a container of any supported format: one tagged handle
//! over the format-specific backends, selected once at open time by
//! extension or by magic bytes and fixed for the handle's lifetime.

use vstd::prelude::*;
use crate::archive::{
    detect_archive_type, detect_archive_type_from_bytes, spec_detect_archive_type,
    spec_type_of_extension, Archive, ArchiveEntry, ArchiveMetadata, ArchiveType,
};
use crate::errors::CbxError;
use crate::names::spec_extension;
use crate::sevenz_stream::{sevenz_parses, SevenZipArchiveFromStream};
use crate::zip_stream::{zip_parses, ZipArchiveFromStream};

verus! {

/// An opened container of any supported format.  RAR containers
/// cannot be opened from plain bytes — their extraction needs random
/// access to a filesystem path — so the host layer handles them and
/// this handle has no RAR variant.
pub enum CbxArchive {
    /// A ZIP container.
    Zip(ZipArchiveFromStream),
    /// A 7-Zip container.
    SevenZip(SevenZipArchiveFromStream),
}

impl Archive for CbxArchive {
    /// The listing of whichever backend the handle carries.
    open spec fn entries(&self) -> Seq<(Seq<char>, u64, bool)> {
        match self {
            CbxArchive::Zip(z) => z.entries(),
            CbxArchive::SevenZip(s) => s.entries(),
        }
    }

    open spec fn kind(&self) -> ArchiveType {
        match self {
            CbxArchive::Zip(_) => ArchiveType::Zip,
            CbxArchive::SevenZip(_) => ArchiveType::SevenZip,
        }
    }

    open spec fn records_ok(&self) -> bool {
        match self {
            CbxArchive::Zip(z) => z.records_ok(),
            CbxArchive::SevenZip(s) => s.records_ok(),
        }
    }

    open spec fn data_of(&self, name: Seq<char>) -> Option<Seq<u8>> {
        match self {
            CbxArchive::Zip(z) => z.data_of(name),
            CbxArchive::SevenZip(s) => s.data_of(name),
        }
    }

    fn find_first_image(&mut self, sort: bool) -> (r: Result<ArchiveEntry, CbxError>) {
        match self {
            CbxArchive::Zip(z) => z.find_first_image(sort),
            CbxArchive::SevenZip(s) => s.find_first_image(sort),
        }
    }

    fn extract_entry(&mut self, entry: &ArchiveEntry) -> (r: Result<Vec<u8>, CbxError>) {
        match self {
            CbxArchive::Zip(z) => z.extract_entry(entry),
            CbxArchive::SevenZip(s) => s.extract_entry(entry),
        }
    }

    fn get_metadata(&mut self) -> (r: Result<ArchiveMetadata, CbxError>) {
        match self {
            CbxArchive::Zip(z) => z.get_metadata(),
            CbxArchive::SevenZip(s) => s.get_metadata(),
        }
    }

    fn archive_type(&self) -> (t: ArchiveType) {
        match self {
            CbxArchive::Zip(_) => ArchiveType::Zip,
            CbxArchive::SevenZip(_) => ArchiveType::SevenZip,
        }
    }
}

/// Opens an archive held in memory, choosing the backend by the
/// extension of `name`.  Fails with [`CbxError::InvalidPath`] when
/// the name has no extension and with [`CbxError::UnsupportedFormat`]
/// when the extension names no supported container; a RAR extension
/// is reported as an archive error, because RAR extraction needs a
/// filesystem source that the host layer owns.
pub fn open_archive(name: &str, data: Vec<u8>) -> (r: Result<CbxArchive, CbxError>)
    ensures
        match spec_extension(name@) {
            None => r == Err::<CbxArchive, CbxError>(CbxError::InvalidPath),
            Some(e) => match spec_type_of_extension(e) {
                None => r matches Err(CbxError::UnsupportedFormat(u)) && u@ == e,
                Some(t) => match t {
                    ArchiveType::Zip => (r matches Ok(a) ==> a.kind() == ArchiveType::Zip) && (r
                        is Ok <==> zip_parses(data@)) && (!zip_parses(data@) ==> r matches Err(
                        CbxError::Archive(_),
                    )),
                    ArchiveType::SevenZip => (r matches Ok(a) ==> a.kind()
                        == ArchiveType::SevenZip) && (r is Ok <==> sevenz_parses(data@)) && (
                    !sevenz_parses(data@) ==> r matches Err(CbxError::Archive(_))),
                    ArchiveType::Rar => r matches Err(CbxError::Archive(_)),
                },
            },
        },
{
    match detect_archive_type(name) {
        Err(e) => Err(e),
        Ok(t) => match t {
            ArchiveType::Zip => match ZipArchiveFromStream::new(data) {
                Ok(z) => Ok(CbxArchive::Zip(z)),
                Err(e) => Err(e),
            },
            ArchiveType::SevenZip => match SevenZipArchiveFromStream::new(data) {
                Ok(s) => Ok(CbxArchive::SevenZip(s)),
                Err(e) => Err(e),
            },
            ArchiveType::Rar => Err(
                CbxError::Archive("RAR archives need a filesystem source".to_owned()),
            ),
        },
    }
}

/// Opens an archive held in memory, choosing the backend by the magic
/// bytes of the data itself: the source typing never trusts a name
/// hint.  Unrecognised leading bytes are an unsupported format; RAR
/// bytes are reported as an archive error, as in [`open_archive`].
pub fn open_archive_from_bytes(data: Vec<u8>) -> (r: Result<CbxArchive, CbxError>)
    ensures
        match spec_detect_archive_type(data@) {
            None => r matches Err(CbxError::UnsupportedFormat(_)),
            Some(t) => match t {
                ArchiveType::Zip => (r matches Ok(a) ==> a.kind() == ArchiveType::Zip) && (r is Ok
                    <==> zip_parses(data@)) && (!zip_parses(data@) ==> r matches Err(
                    CbxError::Archive(_),
                )),
                ArchiveType::SevenZip => (r matches Ok(a) ==> a.kind() == ArchiveType::SevenZip)
                    && (r is Ok <==> sevenz_parses(data@)) && (!sevenz_parses(data@) ==> r matches
                    Err(CbxError::Archive(_))),
                ArchiveType::Rar => r matches Err(CbxError::Archive(_)),
            },
        },
{
    let detected = detect_archive_type_from_bytes(data.as_slice());
    match detected {
        Err(e) => Err(e),
        Ok(t) => match t {
            ArchiveType::Zip => match ZipArchiveFromStream::new(data) {
                Ok(z) => Ok(CbxArchive::Zip(z)),
                Err(e) => Err(e),
            },
            ArchiveType::SevenZip => match SevenZipArchiveFromStream::new(data) {
                Ok(s) => Ok(CbxArchive::SevenZip(s)),
                Err(e) => Err(e),
            },
            ArchiveType::Rar => Err(
                CbxError::Archive("RAR archives need a filesystem source".to_owned()),
            ),
        },
    }
}

} // verus!
