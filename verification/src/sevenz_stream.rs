//! The 7-Zip backend over an in-memory seekable source, built on the
//! `sevenz-rust` crate.  The parsed container is modelled by a listing
//! of (name, declared size, directory flag) records and by the
//! per-entry uncompressed bytes; entry selection, counting and the
//! size guard are verified against that model, and only the calls
//! into the crate are trusted.

use vstd::prelude::*;
use std::io::Cursor;
use std::io::Read;
use crate::archive::{listing_names, Archive, ArchiveEntry, ArchiveMetadata, ArchiveType};
use crate::errors::CbxError;
use crate::selection::{
    count_image_names, find_first_image, lemma_selection_in_list, lemma_selection_is_image,
    name_views, MAX_ENTRY_SIZE,
};

verus! {

/// The parsed 7z container over its in-memory source.  The reader
/// type's bounds keep Verus from declaring it directly, so it is held
/// opaquely here and reached only through the trusted wrappers below.
#[verifier::external_body]
pub struct SevenZSource {
    inner: sevenz_rust::SevenZReader<Cursor<Vec<u8>>>,
}

/// The listing of the parsed container: for every entry, in archive
/// order, its name, declared uncompressed size, and directory flag.
pub uninterp spec fn sevenz_entry_list(a: SevenZSource) -> Seq<(Seq<char>, u64, bool)>;

/// The uncompressed bytes the entry with the given name decodes to,
/// or nothing when no entry carries the name or its block fails to
/// decode.
pub uninterp spec fn sevenz_entry_data(a: SevenZSource, name: Seq<char>) -> Option<Seq<u8>>;

/// Whether the `sevenz-rust` crate can parse container headers out of
/// these bytes: a function of the bytes alone.
pub uninterp spec fn sevenz_parses(data: Seq<u8>) -> bool;

/// Relies on `SevenZReader::new`: parses the container headers over
/// the in-memory source, succeeding exactly when the bytes hold them.
#[verifier::external_body]
fn sevenz_open(data: Vec<u8>) -> (r: Result<SevenZSource, String>)
    ensures
        r is Ok <==> sevenz_parses(data@),
{
    let len = data.len() as u64;
    match sevenz_rust::SevenZReader::new(Cursor::new(data), len, sevenz_rust::Password::empty()) {
        Ok(inner) => Ok(SevenZSource { inner }),
        Err(e) => Err(format!("{:?}", e)),
    }
}

/// Relies on `SevenZReader::archive`: the parsed header's file table,
/// with each entry's name, uncompressed size and directory flag, read
/// without touching the byte source.
#[verifier::external_body]
fn sevenz_entries(a: &SevenZSource) -> (r: Vec<ArchiveEntry>)
    ensures
        r@.len() == sevenz_entry_list(*a).len(),
        forall|i: int|
            0 <= i < r@.len() ==> (#[trigger] r@[i].name@, r@[i].size, r@[i].is_directory)
                == sevenz_entry_list(*a)[i],
{
    a.inner.archive().files.iter().map(
        |e| ArchiveEntry {
            name: e.name().to_string(),
            size: e.size(),
            is_directory: e.is_directory(),
        },
    ).collect()
}

/// Relies on `SevenZReader::for_each_entries`: decodes the archive's
/// blocks in order and hands each entry's reader to the callback; the
/// callback here copies out an entry whose name matches (the walk
/// runs folder by folder, so with duplicate names the last match
/// wins).  The whole outcome is a function of the container and the
/// name; decoding reads through the source but leaves the parsed
/// container as it was.
#[verifier::external_body]
fn sevenz_read_entry(a: &mut SevenZSource, name: &str) -> (r: Result<
    Option<Vec<u8>>,
    String,
>)
    ensures
        sevenz_entry_list(*final(a)) == sevenz_entry_list(*old(a)),
        forall|nm: Seq<char>|
            #[trigger] sevenz_entry_data(*final(a), nm) == sevenz_entry_data(*old(a), nm),
        match r {
            Ok(d) => match d {
                Some(bytes) => sevenz_entry_data(*old(a), name@) == Some(bytes@),
                None => sevenz_entry_data(*old(a), name@) is None,
            },
            Err(_) => sevenz_entry_data(*old(a), name@) is None,
        },
{
    let mut out: Option<Vec<u8>> = None;
    let res = a.inner.for_each_entries(&mut |e: &sevenz_rust::SevenZArchiveEntry, rd: &mut dyn Read| {
        if e.name() != name { return Ok(true); }
        let mut buf = Vec::new();
        rd.read_to_end(&mut buf).map_err(|err| sevenz_rust::Error::Io(err, "extract failed".into()))?;
        out = Some(buf);
        Ok(false)
    });
    match res { Ok(()) => Ok(out), Err(e) => Err(format!("{:?}", e)) }
}

/// A 7-Zip container opened from an in-memory seekable byte source.
/// Every operation re-walks the parsed headers instead of holding
/// decompression state.
pub struct SevenZipArchiveFromStream {
    inner: SevenZSource,
    size: u64,
}

impl SevenZipArchiveFromStream {
    /// The modelled bytes of the named entry.
    pub closed spec fn entry_data(&self, name: Seq<char>) -> Option<Seq<u8>> {
        sevenz_entry_data(self.inner, name)
    }

    /// Opens a 7z container held in memory; succeeds exactly when the
    /// bytes hold parseable headers.
    pub fn new(data: Vec<u8>) -> (r: Result<Self, CbxError>)
        ensures
            r is Ok <==> sevenz_parses(data@),
            r matches Err(e) ==> e matches CbxError::Archive(_),
    {
        let size = data.len() as u64;
        match sevenz_open(data) {
            Ok(inner) => Ok(SevenZipArchiveFromStream { inner, size }),
            Err(_) => Err(CbxError::Archive("failed to open archive from stream".to_owned())),
        }
    }

    /// The listing of the container, in archive order.
    fn list_entries(&self) -> (r: Vec<ArchiveEntry>)
        ensures
            r@.len() == self.entries().len(),
            forall|i: int|
                0 <= i < r@.len() ==> (#[trigger] r@[i].name@, r@[i].size, r@[i].is_directory)
                    == self.entries()[i],
    {
        sevenz_entries(&self.inner)
    }
}

/// The names of the given entry records, in order.
fn names_of_entries(entries: &Vec<ArchiveEntry>) -> (r: Vec<String>)
    ensures
        r@.len() == entries@.len(),
        forall|i: int| 0 <= i < r@.len() ==> #[trigger] r@[i]@ == entries@[i].name@,
{
    let n = entries.len();
    let mut names: Vec<String> = Vec::new();
    let mut i: usize = 0;
    while i < n
        invariant
            i <= n,
            n == entries@.len(),
            names@.len() == i,
            forall|k: int| 0 <= k < i ==> #[trigger] names@[k]@ == entries@[k].name@,
        decreases n - i,
    {
        names.push(entries[i].name.clone());
        i = i + 1;
    }
    names
}

impl Archive for SevenZipArchiveFromStream {
    /// The listing that models this container.
    closed spec fn entries(&self) -> Seq<(Seq<char>, u64, bool)> {
        sevenz_entry_list(self.inner)
    }

    open spec fn kind(&self) -> ArchiveType {
        ArchiveType::SevenZip
    }

    /// The record table is part of the parsed headers, so reading a
    /// record back cannot fail.
    open spec fn records_ok(&self) -> bool {
        true
    }

    closed spec fn data_of(&self, name: Seq<char>) -> Option<Seq<u8>> {
        sevenz_entry_data(self.inner, name)
    }

    fn find_first_image(&mut self, sort: bool) -> (r: Result<ArchiveEntry, CbxError>) {
        let records = self.list_entries();
        let names = names_of_entries(&records);
        proof {
            assert(name_views(names@) =~= listing_names(self.entries()));
            lemma_selection_is_image(name_views(names@), sort);
            lemma_selection_in_list(name_views(names@), sort);
        }
        if sort && names.len() == 0 {
            return Err(CbxError::Archive("archive is empty".to_owned()));
        }
        match find_first_image(&names, sort) {
            None => Err(CbxError::NoImageFound),
            Some(nm) => {
                let n = records.len();
                let mut i: usize = 0;
                while i < n
                    invariant
                        i <= n,
                        n == records@.len(),
                        self == old(self),
                        n == self.entries().len(),
                        forall|k: int|
                            0 <= k < n ==> (#[trigger] records@[k].name@, records@[k].size,
                            records@[k].is_directory) == self.entries()[k],
                        crate::selection::spec_find_first_image(
                            listing_names(old(self).entries()),
                            sort,
                        ) == Some(nm@),
                        crate::selection::spec_is_image_name(nm@),
                        forall|k: int| 0 <= k < i ==> #[trigger] records@[k].name@ != nm@,
                        exists|k: int| 0 <= k < n && #[trigger] records@[k].name@ == nm@,
                    decreases n - i,
                {
                    if records[i].name == nm {
                        return Ok(records[i].clone());
                    }
                    i = i + 1;
                }
                proof {
                    // unreachable: the picked name occurs in the records
                    assert(false);
                }
                Err(CbxError::Archive("entry not found".to_owned()))
            },
        }
    }

    fn extract_entry(&mut self, entry: &ArchiveEntry) -> (r: Result<Vec<u8>, CbxError>) {
        if entry.size > MAX_ENTRY_SIZE {
            return Err(CbxError::Archive("entry exceeds the size ceiling".to_owned()));
        }
        match sevenz_read_entry(&mut self.inner, entry.name.as_str()) {
            Ok(Some(d)) => Ok(d),
            Ok(None) => Err(CbxError::Archive("entry not found".to_owned())),
            Err(_) => Err(CbxError::Archive("failed to extract entry".to_owned())),
        }
    }

    fn get_metadata(&mut self) -> (r: Result<ArchiveMetadata, CbxError>) {
        let records = self.list_entries();
        let names = names_of_entries(&records);
        proof {
            assert(name_views(names@) =~= listing_names(self.entries()));
        }
        let image_count = count_image_names(&names);
        Ok(
            ArchiveMetadata {
                total_files: records.len(),
                image_count,
                compressed_size: self.size,
                archive_type: ArchiveType::SevenZip,
            },
        )
    }

    fn archive_type(&self) -> (t: ArchiveType) {
        ArchiveType::SevenZip
    }
}

} // verus!
