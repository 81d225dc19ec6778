//! The ZIP backend over an in-memory seekable source, built on the
//! `zip` crate.  The parsed container is modelled by named functions
//! of the opaque archive value: the listing (decoded name, declared
//! size, directory flag per entry, in central directory order), the
//! per-entry uncompressed bytes, and whether each record can be read
//! back.  Entry selection, counting and the size guard are verified
//! against that model; only the calls into the `zip` crate are
//! trusted.

use vstd::prelude::*;
use std::io::Cursor;
use std::io::Read;
use crate::archive::{listing_names, Archive, ArchiveEntry, ArchiveMetadata, ArchiveType};
use crate::errors::CbxError;
use crate::selection::{
    count_image_names, find_first_image, lemma_selection_is_image, name_views, MAX_ENTRY_SIZE,
};

verus! {

#[verifier::external_type_specification]
#[verifier::external_body]
#[verifier::reject_recursive_types(R)]
pub struct ExZipArchive<R>(zip::read::ZipArchive<R>);

#[verifier::external_type_specification]
#[verifier::external_body]
#[verifier::reject_recursive_types(T)]
pub struct ExCursor<T>(std::io::Cursor<T>);

/// Whether the `zip` crate can parse a central directory out of these
/// bytes: a function of the bytes alone.
pub uninterp spec fn zip_parses(data: Seq<u8>) -> bool;

/// The listing of the parsed container: for every entry, in central
/// directory order, its decoded name, declared uncompressed size, and
/// directory flag.
pub uninterp spec fn zip_entry_list(a: zip::read::ZipArchive<Cursor<Vec<u8>>>) -> Seq<
    (Seq<char>, u64, bool),
>;

/// The uncompressed bytes that looking up `name` and reading the hit
/// to its end yields, or nothing when the lookup or the read fails.
/// The lookup keys on the stored raw name bytes, so it is not the
/// same thing as membership of `name` in the decoded listing.
pub uninterp spec fn zip_entry_data(
    a: zip::read::ZipArchive<Cursor<Vec<u8>>>,
    name: Seq<char>,
) -> Option<Seq<u8>>;

/// Whether the record at an index can be opened (its local header
/// parses and it needs no password): a function of the archive value.
pub uninterp spec fn zip_record_ok(a: zip::read::ZipArchive<Cursor<Vec<u8>>>, i: int) -> bool;

/// Relies on `zip::ZipArchive::new`: parses the central directory of
/// the container, succeeding exactly when the bytes hold one.
#[verifier::external_body]
fn zip_open(data: Vec<u8>) -> (r: Result<zip::read::ZipArchive<Cursor<Vec<u8>>>, String>)
    ensures
        r is Ok <==> zip_parses(data@),
{
    zip::read::ZipArchive::new(Cursor::new(data)).map_err(|e| e.to_string())
}

/// Relies on `zip::ZipArchive::len`: the number of entries in the
/// central directory.
#[verifier::external_body]
fn zip_len(a: &zip::read::ZipArchive<Cursor<Vec<u8>>>) -> (n: usize)
    ensures
        n == zip_entry_list(*a).len(),
{
    a.len()
}

/// Relies on `zip::ZipArchive::name_for_index`: the stored name of
/// the entry at an index below `len`, read from the central directory
/// without touching the byte source.
#[verifier::external_body]
fn zip_name_at(a: &zip::read::ZipArchive<Cursor<Vec<u8>>>, i: usize) -> (r: String)
    requires
        i < zip_entry_list(*a).len(),
    ensures
        r@ == zip_entry_list(*a)[i as int].0,
{
    match a.name_for_index(i) {
        Some(s) => s.to_string(),
        None => String::new(),
    }
}

/// Relies on `zip::ZipArchive::by_index`: the entry record at the
/// index, with the declared size and directory flag of the listing.
/// Success is a function of the archive value; reading moves only the
/// cursor and does not change the parsed container.
#[verifier::external_body]
fn zip_entry_at(a: &mut zip::read::ZipArchive<Cursor<Vec<u8>>>, i: usize) -> (r: Option<
    ArchiveEntry,
>)
    requires
        i < zip_entry_list(*old(a)).len(),
    ensures
        zip_entry_list(*final(a)) == zip_entry_list(*old(a)),
        forall|nm: Seq<char>|
            #[trigger] zip_entry_data(*final(a), nm) == zip_entry_data(*old(a), nm),
        forall|k: int| #[trigger] zip_record_ok(*final(a), k) == zip_record_ok(*old(a), k),
        zip_record_ok(*old(a), i as int) ==> r is Some,
        r matches Some(e) ==> (e.name@, e.size, e.is_directory) == zip_entry_list(*old(a))[
            i as int],
{
    match a.by_index(i) {
        Ok(f) => Some(
            ArchiveEntry { name: f.name().to_string(), size: f.size(), is_directory: f.is_dir() },
        ),
        Err(_) => None,
    }
}

/// Relies on `zip::ZipArchive::by_name` and `Read::read_to_end`:
/// decompresses the entry whose stored raw name matches to its
/// uncompressed bytes.  Success and result are a function of the
/// archive value and the name; reading moves only the cursor.
#[verifier::external_body]
fn zip_read_by_name(a: &mut zip::read::ZipArchive<Cursor<Vec<u8>>>, name: &str) -> (r: Result<
    Vec<u8>,
    String,
>)
    ensures
        zip_entry_list(*final(a)) == zip_entry_list(*old(a)),
        forall|nm: Seq<char>|
            #[trigger] zip_entry_data(*final(a), nm) == zip_entry_data(*old(a), nm),
        forall|k: int| #[trigger] zip_record_ok(*final(a), k) == zip_record_ok(*old(a), k),
        match r {
            Ok(d) => zip_entry_data(*old(a), name@) == Some(d@),
            Err(_) => zip_entry_data(*old(a), name@) is None,
        },
{
    let mut file = a.by_name(name).map_err(|e| e.to_string())?;
    let mut buffer = Vec::new();
    file.read_to_end(&mut buffer).map_err(|e| e.to_string())?;
    Ok(buffer)
}

/// A ZIP container opened from an in-memory seekable byte source.
pub struct ZipArchiveFromStream {
    inner: zip::read::ZipArchive<Cursor<Vec<u8>>>,
}

impl ZipArchiveFromStream {
    /// The entry names of the listing, in order.
    pub open spec fn entry_name_seq(&self) -> Seq<Seq<char>> {
        listing_names(self.entries())
    }

    /// Opens a ZIP container held in memory; succeeds exactly when
    /// the bytes hold a parseable central directory.
    pub fn new(data: Vec<u8>) -> (r: Result<Self, CbxError>)
        ensures
            r is Ok <==> zip_parses(data@),
            r matches Err(e) ==> e matches CbxError::Archive(_),
    {
        match zip_open(data) {
            Ok(inner) => Ok(ZipArchiveFromStream { inner }),
            Err(_) => Err(CbxError::Archive("failed to open archive from stream".to_owned())),
        }
    }

    /// All entry names of the container, in listing order.
    pub fn get_entry_names(&self) -> (r: Vec<String>)
        ensures
            name_views(r@) == self.entry_name_seq(),
    {
        let n = zip_len(&self.inner);
        let mut names: Vec<String> = Vec::new();
        let mut i: usize = 0;
        while i < n
            invariant
                i <= n,
                n == self.entries().len(),
                names@.len() == i,
                forall|k: int| 0 <= k < i ==> names@[k]@ == self.entries()[k].0,
            decreases n - i,
        {
            let name = zip_name_at(&self.inner, i);
            names.push(name);
            i = i + 1;
        }
        proof {
            assert(name_views(names@) =~= self.entry_name_seq());
        }
        names
    }

    /// The full entry record for a listed name: the declared size and
    /// directory flag beside it in the listing.  Succeeds whenever the
    /// name is listed and the records are readable.
    pub fn get_entry_by_name(&mut self, name: &str) -> (r: Result<ArchiveEntry, CbxError>)
        ensures
            final(self).entries() == old(self).entries(),
            final(self).records_ok() == old(self).records_ok(),
            forall|nm: Seq<char>|
                #![trigger final(self).data_of(nm)]
                final(self).data_of(nm) == old(self).data_of(nm),
            r matches Ok(e) ==> e.name@ == name@ && exists|k: int|
                0 <= k < old(self).entries().len() && old(self).entries()[k] == (
                e.name@,
                e.size,
                e.is_directory,
                ),
            (forall|k: int|
                0 <= k < old(self).entries().len() ==> old(self).entries()[k].0 != name@) ==> r
                is Err,
            (old(self).records_ok() && exists|k: int|
                0 <= k < old(self).entries().len() && old(self).entries()[k].0 == name@) ==> r
                is Ok,
    {
        let n = zip_len(&self.inner);
        let target: String = name.to_owned();
        let mut i: usize = 0;
        while i < n
            invariant
                i <= n,
                n == self.entries().len(),
                self.entries() == old(self).entries(),
                zip_record_ok_all(self.inner) == zip_record_ok_all(old(self).inner),
                forall|k: int|
                    #![trigger zip_record_ok(self.inner, k)]
                    zip_record_ok(self.inner, k) == zip_record_ok(old(self).inner, k),
                forall|nm: Seq<char>|
                    #![trigger zip_entry_data(self.inner, nm)]
                    zip_entry_data(self.inner, nm) == zip_entry_data(old(self).inner, nm),
                target@ == name@,
                forall|k: int| 0 <= k < i ==> self.entries()[k].0 != name@,
            decreases n - i,
        {
            let candidate = zip_name_at(&self.inner, i);
            if candidate == target {
                let ghost before = self.inner;
                proof {
                    if zip_record_ok_all(self.inner) {
                        assert(zip_record_ok(self.inner, i as int));
                    }
                }
                let found = zip_entry_at(&mut self.inner, i);
                proof {
                    lemma_record_ok_all_congruence(self.inner, before);
                    lemma_record_ok_all_congruence(before, old(self).inner);
                }
                match found {
                    Some(e) => {
                        return Ok(e);
                    },
                    None => {
                        return Err(CbxError::Archive("failed to read entry record".to_owned()));
                    },
                }
            }
            i = i + 1;
        }
        Err(CbxError::Archive("entry not found".to_owned()))
    }
}

/// Every record of the listing can be read back.
pub open spec fn zip_record_ok_all(a: zip::read::ZipArchive<Cursor<Vec<u8>>>) -> bool {
    forall|i: int| 0 <= i < zip_entry_list(a).len() ==> #[trigger] zip_record_ok(a, i)
}

proof fn lemma_record_ok_all_congruence(
    a: zip::read::ZipArchive<Cursor<Vec<u8>>>,
    b: zip::read::ZipArchive<Cursor<Vec<u8>>>,
)
    requires
        zip_entry_list(a) == zip_entry_list(b),
        forall|k: int| #[trigger] zip_record_ok(a, k) == zip_record_ok(b, k),
    ensures
        zip_record_ok_all(a) == zip_record_ok_all(b),
{
    if zip_record_ok_all(b) {
        assert forall|i: int| 0 <= i < zip_entry_list(a).len() implies #[trigger] zip_record_ok(
            a,
            i,
        ) by {
            assert(zip_record_ok(b, i));
        }
    }
    if zip_record_ok_all(a) {
        assert forall|i: int| 0 <= i < zip_entry_list(b).len() implies #[trigger] zip_record_ok(
            b,
            i,
        ) by {
            assert(zip_record_ok(a, i));
        }
    }
}

impl Archive for ZipArchiveFromStream {
    /// The listing that models this container.
    closed spec fn entries(&self) -> Seq<(Seq<char>, u64, bool)> {
        zip_entry_list(self.inner)
    }

    open spec fn kind(&self) -> ArchiveType {
        ArchiveType::Zip
    }

    /// Whether every record of the listing can be read back.
    closed spec fn records_ok(&self) -> bool {
        zip_record_ok_all(self.inner)
    }

    /// The modelled bytes of the named entry.
    closed spec fn data_of(&self, name: Seq<char>) -> Option<Seq<u8>> {
        zip_entry_data(self.inner, name)
    }

    fn find_first_image(&mut self, sort: bool) -> (r: Result<ArchiveEntry, CbxError>) {
        let names = self.get_entry_names();
        proof {
            lemma_selection_is_image(name_views(names@), sort);
            crate::selection::lemma_selection_in_list(name_views(names@), sort);
        }
        if sort && names.len() == 0 {
            return Err(CbxError::Archive("archive is empty".to_owned()));
        }
        match find_first_image(&names, sort) {
            None => Err(CbxError::NoImageFound),
            Some(nm) => {
                proof {
                    let v = name_views(names@);
                    if exists|k: int| 0 <= k < v.len() && v[k] == nm@ {
                        let k = choose|k: int| 0 <= k < v.len() && v[k] == nm@;
                        assert(listing_names(old(self).entries())[k] == old(self).entries()[k].0);
                        assert(old(self).entries()[k].0 == nm@);
                    }
                }
                self.get_entry_by_name(nm.as_str())
            },
        }
    }

    fn extract_entry(&mut self, entry: &ArchiveEntry) -> (r: Result<Vec<u8>, CbxError>) {
        if entry.size > MAX_ENTRY_SIZE {
            return Err(CbxError::Archive("entry exceeds the size ceiling".to_owned()));
        }
        let ghost before = self.inner;
        let extracted = zip_read_by_name(&mut self.inner, entry.name.as_str());
        proof {
            lemma_record_ok_all_congruence(self.inner, before);
        }
        match extracted {
            Ok(d) => Ok(d),
            Err(_) => Err(CbxError::Archive("failed to extract entry".to_owned())),
        }
    }

    fn get_metadata(&mut self) -> (r: Result<ArchiveMetadata, CbxError>) {
        let names = self.get_entry_names();
        let image_count = count_image_names(&names);
        Ok(
            ArchiveMetadata {
                total_files: names.len(),
                image_count,
                compressed_size: 0,
                archive_type: ArchiveType::Zip,
            },
        )
    }

    fn archive_type(&self) -> (t: ArchiveType) {
        ArchiveType::Zip
    }
}

} // verus!
