//! Archive container types: the supported formats, entry and metadata
//! records, format detection from magic bytes and from extensions, and
//! magic-header verification of extracted image bytes.

use vstd::prelude::*;
use vstd::string::StringExecFns;
use crate::errors::CbxError;
use crate::magic::{detect_image_format, spec_detect_image_format};
use crate::names::{
    contains_substr, eq_ignore_ascii_case, extension_start, spec_extension, str_contains,
};

verus! {

/// The supported container formats.
#[derive(Debug, Clone, Copy, PartialEq, Eq, Structural)]
pub enum ArchiveType {
    /// ZIP container (also CBZ, EPUB, PHZ).
    Zip,
    /// RAR container (also CBR).
    Rar,
    /// 7-Zip container (also CB7).
    SevenZip,
}

/// The archive type that an extension names, compared without regard
/// to ASCII case.
pub open spec fn spec_type_of_extension(e: Seq<char>) -> Option<ArchiveType> {
    if eq_ignore_ascii_case(e, "zip"@) || eq_ignore_ascii_case(e, "cbz"@) || eq_ignore_ascii_case(
        e,
        "epub"@,
    ) || eq_ignore_ascii_case(e, "phz"@) {
        Some(ArchiveType::Zip)
    } else if eq_ignore_ascii_case(e, "rar"@) || eq_ignore_ascii_case(e, "cbr"@) {
        Some(ArchiveType::Rar)
    } else if eq_ignore_ascii_case(e, "7z"@) || eq_ignore_ascii_case(e, "cb7"@) {
        Some(ArchiveType::SevenZip)
    } else {
        None
    }
}

impl ArchiveType {
    /// Maps a file extension (without the dot, any ASCII case) to the
    /// archive type it names: `zip, cbz, epub, phz` are ZIP; `rar,
    /// cbr` are RAR; `7z, cb7` are 7-Zip.
    pub fn from_extension(ext: &str) -> (r: Option<ArchiveType>)
        ensures
            r == spec_type_of_extension(ext@),
    {
        proof {
            assert(ext@.skip(0) =~= ext@);
        }
        if crate::names::suffix_eq_ignore_case(ext, 0, "zip") || crate::names::suffix_eq_ignore_case(
            ext,
            0,
            "cbz",
        ) || crate::names::suffix_eq_ignore_case(ext, 0, "epub")
            || crate::names::suffix_eq_ignore_case(ext, 0, "phz") {
            Some(ArchiveType::Zip)
        } else if crate::names::suffix_eq_ignore_case(ext, 0, "rar")
            || crate::names::suffix_eq_ignore_case(ext, 0, "cbr") {
            Some(ArchiveType::Rar)
        } else if crate::names::suffix_eq_ignore_case(ext, 0, "7z")
            || crate::names::suffix_eq_ignore_case(ext, 0, "cb7") {
            Some(ArchiveType::SevenZip)
        } else {
            None
        }
    }

    /// The display name of the archive type.
    pub fn as_str(&self) -> (r: &'static str)
        ensures
            r@ == self.as_str_spec(),
    {
        match self {
            ArchiveType::Zip => "ZIP",
            ArchiveType::Rar => "RAR",
            ArchiveType::SevenZip => "7-Zip",
        }
    }

    /// The name returned by [`Self::as_str`].
    pub open spec fn as_str_spec(&self) -> Seq<char> {
        match self {
            ArchiveType::Zip => "ZIP"@,
            ArchiveType::Rar => "RAR"@,
            ArchiveType::SevenZip => "7-Zip"@,
        }
    }
}

/// One named item inside a container, as the listing reports it.
#[derive(Debug)]
pub struct ArchiveEntry {
    /// The entry's name, as stored in the container.
    pub name: String,
    /// The declared uncompressed size in bytes.
    pub size: u64,
    /// True when the entry is a directory marker.
    pub is_directory: bool,
}

impl Clone for ArchiveEntry {
    /// An exact copy of the record.
    fn clone(&self) -> (r: Self)
        ensures
            r == *self,
    {
        ArchiveEntry {
            name: self.name.clone(),
            size: self.size,
            is_directory: self.is_directory,
        }
    }
}

/// Summary data about a container, recomputed on demand.
#[derive(Debug, Clone, Copy)]
pub struct ArchiveMetadata {
    /// Number of entries in the listing.
    pub total_files: usize,
    /// Number of entries passing the image-extension filter.
    pub image_count: usize,
    /// Best-effort size of the whole container in bytes.
    pub compressed_size: u64,
    /// The container's format.
    pub archive_type: ArchiveType,
}

/// The names of a listing, in listing order.
pub open spec fn listing_names(entries: Seq<(Seq<char>, u64, bool)>) -> Seq<Seq<char>> {
    entries.map_values(|t: (Seq<char>, u64, bool)| t.0)
}

/// The common capability contract of every archive backend.  A
/// backend models its container by a listing of (name, declared size,
/// directory flag) records, by the bytes each name extracts to, and
/// by whether its records can be read back; the contract ties each
/// operation to that model.  Operations take the handle exclusively:
/// the backend owns a single read cursor, and no two operations on
/// one handle may interleave.
pub trait Archive {
    /// The listing that models the container.
    spec fn entries(&self) -> Seq<(Seq<char>, u64, bool)>;

    /// The container's format.
    spec fn kind(&self) -> ArchiveType;

    /// Whether every record of the listing can be read back; a
    /// backend whose record lookup cannot fail returns true.
    spec fn records_ok(&self) -> bool;

    /// The uncompressed bytes the named entry extracts to, or nothing
    /// when lookup or decompression fails for that name.
    spec fn data_of(&self, name: Seq<char>) -> Option<Seq<u8>>;

    /// Picks the cover entry: the first listed image name when `sort`
    /// is false, the naturally smallest image name when `sort` is
    /// true.  Fails with [`CbxError::NoImageFound`] when no listed
    /// name passes the image filter (an empty listing in sorted mode
    /// is reported as an archive error); succeeds whenever an image
    /// is listed and the records are readable, and a successful
    /// result is an image record of the listing.
    fn find_first_image(&mut self, sort: bool) -> (r: Result<ArchiveEntry, CbxError>)
        ensures
            final(self).entries() == old(self).entries(),
            final(self).kind() == old(self).kind(),
            final(self).records_ok() == old(self).records_ok(),
            forall|nm: Seq<char>|
                #![trigger final(self).data_of(nm)]
                final(self).data_of(nm) == old(self).data_of(nm),
            match crate::selection::spec_find_first_image(
                listing_names(old(self).entries()),
                sort,
            ) {
                None => r is Err && (!(sort && old(self).entries().len() == 0) ==> r == Err::<
                    ArchiveEntry,
                    CbxError,
                >(CbxError::NoImageFound)),
                Some(nm) => (r matches Ok(e) ==> e.name@ == nm) && (old(self).records_ok() ==> r
                    is Ok),
            },
            r matches Ok(e) ==> crate::selection::spec_is_image_name(e.name@) && exists|k: int|
                0 <= k < old(self).entries().len() && old(self).entries()[k] == (
                e.name@,
                e.size,
                e.is_directory,
                ),
    ;

    /// Extracts one entry to bytes.  An entry whose declared size
    /// exceeds [`crate::selection::MAX_ENTRY_SIZE`] is rejected
    /// before any decompression is attempted; below the ceiling the
    /// call succeeds exactly when the container yields bytes for the
    /// entry's name, and returns exactly those bytes.
    fn extract_entry(&mut self, entry: &ArchiveEntry) -> (r: Result<Vec<u8>, CbxError>)
        ensures
            final(self).entries() == old(self).entries(),
            final(self).kind() == old(self).kind(),
            final(self).records_ok() == old(self).records_ok(),
            forall|nm: Seq<char>|
                #![trigger final(self).data_of(nm)]
                final(self).data_of(nm) == old(self).data_of(nm),
            entry.size > crate::selection::MAX_ENTRY_SIZE ==> (r matches Err(
                CbxError::Archive(m),
            ) && m@ == "entry exceeds the size ceiling"@),
            r matches Ok(d) ==> entry.size <= crate::selection::MAX_ENTRY_SIZE && old(
                self,
            ).data_of(entry.name@) == Some(d@),
            entry.size <= crate::selection::MAX_ENTRY_SIZE ==> (r is Ok <==> old(self).data_of(
                entry.name@,
            ) is Some),
    ;

    /// Summarises the container: the listing length, the number of
    /// image entries, and a best-effort container size.  Never fails.
    fn get_metadata(&mut self) -> (r: Result<ArchiveMetadata, CbxError>)
        ensures
            final(self).entries() == old(self).entries(),
            final(self).kind() == old(self).kind(),
            final(self).records_ok() == old(self).records_ok(),
            forall|nm: Seq<char>|
                #![trigger final(self).data_of(nm)]
                final(self).data_of(nm) == old(self).data_of(nm),
            r is Ok,
            r matches Ok(m) ==> m.total_files == old(self).entries().len() && m.image_count
                == crate::selection::count_images(listing_names(old(self).entries()))
                && m.archive_type == old(self).kind(),
    ;

    /// The container's format.
    fn archive_type(&self) -> (t: ArchiveType)
        ensures
            t == self.kind(),
    ;
}

/// The archive type that the magic bytes of `d` spell, if any; at
/// least eight bytes are required.
pub open spec fn spec_detect_archive_type(d: Seq<u8>) -> Option<ArchiveType> {
    if d.len() < 8 {
        None
    } else if d[0] == 0x50 && d[1] == 0x4B && (
        (d[2] == 0x03 && d[3] == 0x04) || (d[2] == 0x05 && d[3] == 0x06) || (d[2] == 0x07 && d[3]
        == 0x08)) {
        Some(ArchiveType::Zip)
    } else if d[0] == 0x37 && d[1] == 0x7A && d[2] == 0xBC && d[3] == 0xAF && d[4] == 0x27 && d[5]
        == 0x1C {
        Some(ArchiveType::SevenZip)
    } else if d[0] == 0x52 && d[1] == 0x61 && d[2] == 0x72 && d[3] == 0x21 && d[4] == 0x1A && d[5]
        == 0x07 && (d[6] == 0x00 || (d[6] == 0x01 && d[7] == 0x00)) {
        Some(ArchiveType::Rar)
    } else {
        None
    }
}

/// Detects the archive type from the magic bytes of `data`: ZIP by a
/// `PK..` signature, 7-Zip by `7z BC AF 27 1C`, RAR by the 4.x or 5.x
/// `Rar!` signature.  Succeeds exactly when one signature matches and
/// at least eight bytes were given.
pub fn detect_archive_type_from_bytes(data: &[u8]) -> (r: Result<ArchiveType, CbxError>)
    ensures
        match spec_detect_archive_type(data@) {
            Some(t) => r == Ok::<ArchiveType, CbxError>(t),
            None => r matches Err(CbxError::UnsupportedFormat(_)),
        },
{
    if data.len() < 8 {
        return Err(CbxError::UnsupportedFormat("data too short".to_owned()));
    }
    if data[0] == 0x50 && data[1] == 0x4B && ((data[2] == 0x03 && data[3] == 0x04) || (data[2]
        == 0x05 && data[3] == 0x06) || (data[2] == 0x07 && data[3] == 0x08)) {
        return Ok(ArchiveType::Zip);
    }
    if data[0] == 0x37 && data[1] == 0x7A && data[2] == 0xBC && data[3] == 0xAF && data[4] == 0x27
        && data[5] == 0x1C {
        return Ok(ArchiveType::SevenZip);
    }
    if data[0] == 0x52 && data[1] == 0x61 && data[2] == 0x72 && data[3] == 0x21 && data[4] == 0x1A
        && data[5] == 0x07 && (data[6] == 0x00 || (data[6] == 0x01 && data[7] == 0x00)) {
        return Ok(ArchiveType::Rar);
    }
    Err(CbxError::UnsupportedFormat("unrecognized archive format".to_owned()))
}

/// Detects the archive type from the extension of a file name or
/// path.  Fails with [`CbxError::InvalidPath`] when the name has no
/// extension, and with [`CbxError::UnsupportedFormat`] when the
/// extension names no supported container.
pub fn detect_archive_type(name: &str) -> (r: Result<ArchiveType, CbxError>)
    ensures
        match spec_extension(name@) {
            None => r == Err::<ArchiveType, CbxError>(CbxError::InvalidPath),
            Some(e) => match spec_type_of_extension(e) {
                Some(t) => r == Ok::<ArchiveType, CbxError>(t),
                None => r matches Err(CbxError::UnsupportedFormat(u)) && u@ == e,
            },
        },
{
    match extension_start(name) {
        None => Err(CbxError::InvalidPath),
        Some(p) => {
            if crate::names::suffix_eq_ignore_case(name, p, "zip")
                || crate::names::suffix_eq_ignore_case(name, p, "cbz")
                || crate::names::suffix_eq_ignore_case(name, p, "epub")
                || crate::names::suffix_eq_ignore_case(name, p, "phz") {
                Ok(ArchiveType::Zip)
            } else if crate::names::suffix_eq_ignore_case(name, p, "rar")
                || crate::names::suffix_eq_ignore_case(name, p, "cbr") {
                Ok(ArchiveType::Rar)
            } else if crate::names::suffix_eq_ignore_case(name, p, "7z")
                || crate::names::suffix_eq_ignore_case(name, p, "cb7") {
                Ok(ArchiveType::SevenZip)
            } else {
                let ext = name.substring_char(p, name.unicode_len());
                proof {
                    assert(name@.subrange(p as int, name@.len() as int) =~= name@.skip(p as int));
                }
                Err(CbxError::UnsupportedFormat(ext.to_owned()))
            }
        },
    }
}

/// Verifies that extracted bytes really are an image by their magic
/// header, guarding against entries whose extension lies about their
/// content.  The file name is taken for context only.  Succeeds
/// exactly when the format detector recognises the bytes.
pub fn verify_image_data(data: &[u8], filename: &str) -> (r: Result<(), CbxError>)
    ensures
        match spec_detect_image_format(data@) {
            Some(f) => r == Ok::<(), CbxError>(()),
            None => r matches Err(CbxError::Image(m)) && m@
                == "entry data failed magic header verification: "@ + filename@,
        },
{
    match detect_image_format(data) {
        Ok(_) => Ok(()),
        Err(_) => {
            let mut message = "entry data failed magic header verification: ".to_owned();
            message.append(filename);
            Err(CbxError::Image(message))
        },
    }
}

/// Classifies the text of a RAR open failure: true exactly when it
/// speaks of a password or of encryption, so that the host can skip a
/// password-protected archive quietly instead of treating it as
/// corruption.
pub fn is_password_protected_rar_error(message: &str) -> (r: bool)
    ensures
        r == (contains_substr(message@, "password"@) || contains_substr(message@, "encrypted"@)
            || contains_substr(message@, "BadPassword"@)),
{
    ||| str_contains(message, "password")
    ||| str_contains(message, "encrypted")
    ||| str_contains(message, "BadPassword")
}

} // verus!
