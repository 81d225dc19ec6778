//! Tests for archive type detection and the ZIP and 7-Zip backends,
//! including the size guard and the sorted/unsorted selection modes.

use std::io::Write;
use cbxcore::archive::{
    detect_archive_type, detect_archive_type_from_bytes, Archive, ArchiveEntry, ArchiveType,
};
use cbxcore::errors::CbxError;
use cbxcore::open::{open_archive, open_archive_from_bytes, CbxArchive};
use cbxcore::selection::MAX_ENTRY_SIZE;
use cbxcore::sevenz_stream::SevenZipArchiveFromStream;
use cbxcore::zip_stream::ZipArchiveFromStream;

#[test]
fn test_detect_archive_type_zip() {
    assert_eq!(detect_archive_type("test.zip").unwrap(), ArchiveType::Zip);
    assert_eq!(detect_archive_type("comic.cbz").unwrap(), ArchiveType::Zip);
    assert_eq!(detect_archive_type("book.epub").unwrap(), ArchiveType::Zip);
    assert_eq!(detect_archive_type("archive.phz").unwrap(), ArchiveType::Zip);
}

#[test]
fn test_detect_archive_type_rar() {
    assert_eq!(detect_archive_type("test.rar").unwrap(), ArchiveType::Rar);
    assert_eq!(detect_archive_type("comic.cbr").unwrap(), ArchiveType::Rar);
}

#[test]
fn test_detect_archive_type_7z() {
    assert_eq!(detect_archive_type("test.7z").unwrap(), ArchiveType::SevenZip);
    assert_eq!(detect_archive_type("comic.cb7").unwrap(), ArchiveType::SevenZip);
}

#[test]
fn test_detect_archive_type_case_insensitive() {
    assert_eq!(detect_archive_type("test.ZIP").unwrap(), ArchiveType::Zip);
    assert_eq!(detect_archive_type("test.Cbz").unwrap(), ArchiveType::Zip);
}

#[test]
fn test_detect_archive_type_unsupported() {
    let result = detect_archive_type("test.txt");
    assert!(result.is_err());
    assert!(matches!(result.unwrap_err(), CbxError::UnsupportedFormat(_)));
}

#[test]
fn test_detect_archive_type_no_extension() {
    let result = detect_archive_type("test");
    assert!(result.is_err());
    assert!(matches!(result.unwrap_err(), CbxError::InvalidPath));
}

#[test]
fn test_detect_archive_type_with_path() {
    assert_eq!(
        detect_archive_type("G:\\comics\\issue1.cbz").unwrap(),
        ArchiveType::Zip
    );
    assert_eq!(
        detect_archive_type("C:\\temp\\archive.7z").unwrap(),
        ArchiveType::SevenZip
    );
}

#[test]
fn test_from_extension() {
    assert_eq!(ArchiveType::from_extension("zip"), Some(ArchiveType::Zip));
    assert_eq!(ArchiveType::from_extension("CBZ"), Some(ArchiveType::Zip));
    assert_eq!(ArchiveType::from_extension("rar"), Some(ArchiveType::Rar));
    assert_eq!(ArchiveType::from_extension("cb7"), Some(ArchiveType::SevenZip));
    assert_eq!(ArchiveType::from_extension("txt"), None);
}

#[test]
fn test_archive_type_as_str() {
    assert_eq!(ArchiveType::Zip.as_str(), "ZIP");
    assert_eq!(ArchiveType::Rar.as_str(), "RAR");
    assert_eq!(ArchiveType::SevenZip.as_str(), "7-Zip");
}

#[test]
fn test_detect_zip_format() {
    let zip_data = b"PK\x03\x04\x14\x00\x00\x00\x08\x00";
    assert_eq!(
        detect_archive_type_from_bytes(zip_data).unwrap(),
        ArchiveType::Zip
    );
}

#[test]
fn test_detect_zip_central_directory() {
    let zip_data = b"PK\x05\x06\x00\x00\x00\x00";
    assert_eq!(
        detect_archive_type_from_bytes(zip_data).unwrap(),
        ArchiveType::Zip
    );
}

#[test]
fn test_detect_7z_format() {
    let sevenz_data = b"7z\xBC\xAF\x27\x1C\x00\x00";
    assert_eq!(
        detect_archive_type_from_bytes(sevenz_data).unwrap(),
        ArchiveType::SevenZip
    );
}

#[test]
fn test_detect_rar4_format() {
    let rar_data = b"Rar!\x1A\x07\x00\x00";
    assert_eq!(
        detect_archive_type_from_bytes(rar_data).unwrap(),
        ArchiveType::Rar
    );
}

#[test]
fn test_detect_rar5_format() {
    let rar_data = b"Rar!\x1A\x07\x01\x00";
    assert_eq!(
        detect_archive_type_from_bytes(rar_data).unwrap(),
        ArchiveType::Rar
    );
}

#[test]
fn test_detect_unknown_format() {
    let unknown_data = b"UNKNOWN\x00\x00\x00\x00";
    assert!(detect_archive_type_from_bytes(unknown_data).is_err());
}

#[test]
fn test_detect_data_too_short() {
    let short_data = b"PK";
    assert!(detect_archive_type_from_bytes(short_data).is_err());
}

/// Builds a ZIP archive in memory from (name, content) pairs.
fn create_test_zip(files: &[(&str, &[u8])]) -> Vec<u8> {
    let mut zip = zip::write::ZipWriter::new(std::io::Cursor::new(Vec::new()));
    let options = zip::write::SimpleFileOptions::default();
    for (name, content) in files {
        zip.start_file(*name, options).unwrap();
        zip.write_all(content).unwrap();
    }
    zip.finish().unwrap().into_inner()
}

/// Builds a 7z archive in memory from (name, content) pairs.
fn create_test_7z(files: &[(&str, &[u8])]) -> Vec<u8> {
    let mut sz = sevenz_rust::SevenZWriter::new(std::io::Cursor::new(Vec::new())).unwrap();
    for (name, content) in files {
        sz.push_archive_entry(
            sevenz_rust::SevenZArchiveEntry::from_path(
                std::path::Path::new(name),
                (*name).to_string(),
            ),
            Some(std::io::Cursor::new(content)),
        )
        .unwrap();
    }
    sz.finish().unwrap().into_inner()
}

#[test]
fn zip_test_open_valid() {
    let data = create_test_zip(&[("test.jpg", b"fake image data")]);
    let archive = ZipArchiveFromStream::new(data).unwrap();
    assert_eq!(archive.archive_type(), ArchiveType::Zip);
}

#[test]
fn zip_test_open_invalid() {
    let result = ZipArchiveFromStream::new(b"not a zip file".to_vec());
    assert!(result.is_err());
}

#[test]
fn zip_test_find_first_image_sorted() {
    let data = create_test_zip(&[
        ("readme.txt", b"text file"),
        ("page10.jpg", b"image 10"),
        ("page2.jpg", b"image 2"),
        ("page1.jpg", b"image 1"),
    ]);
    let mut archive = ZipArchiveFromStream::new(data).unwrap();
    let entry = archive.find_first_image(true).unwrap();
    // Natural sort: page1.jpg < page2.jpg < page10.jpg
    assert_eq!(entry.name, "page1.jpg");
}

#[test]
fn zip_test_find_first_image_unsorted() {
    let data = create_test_zip(&[
        ("readme.txt", b"text file"),
        ("page10.jpg", b"image 10"),
        ("page2.jpg", b"image 2"),
    ]);
    let mut archive = ZipArchiveFromStream::new(data).unwrap();
    let entry = archive.find_first_image(false).unwrap();
    // Unsorted: first image encountered
    assert_eq!(entry.name, "page10.jpg");
}

#[test]
fn zip_test_round_trip_selection() {
    // A ZIP holding page1.jpg, page2.jpg, page10.jpg and readme.txt:
    // sorted mode picks page1.jpg; unsorted mode picks the first
    // image in the container's native order.
    let data = create_test_zip(&[
        ("page1.jpg", b"one"),
        ("page2.jpg", b"two"),
        ("page10.jpg", b"ten"),
        ("readme.txt", b"text"),
    ]);
    let mut archive = ZipArchiveFromStream::new(data.clone()).unwrap();
    let sorted = archive.find_first_image(true).unwrap();
    assert_eq!(sorted.name, "page1.jpg");
    let mut archive = ZipArchiveFromStream::new(data).unwrap();
    let unsorted = archive.find_first_image(false).unwrap();
    assert_eq!(unsorted.name, "page1.jpg");
}

#[test]
fn zip_test_single_image_fast_and_sorted_agree() {
    // Exactly one image among several non-image entries: both modes
    // return it.
    let data = create_test_zip(&[
        ("notes.txt", b"a"),
        ("cover.png", b"img"),
        ("data.json", b"{}"),
    ]);
    let mut archive = ZipArchiveFromStream::new(data.clone()).unwrap();
    let sorted = archive.find_first_image(true).unwrap();
    let mut archive = ZipArchiveFromStream::new(data).unwrap();
    let unsorted = archive.find_first_image(false).unwrap();
    assert_eq!(sorted.name, "cover.png");
    assert_eq!(sorted.name, unsorted.name);
}

#[test]
fn zip_test_no_images_found() {
    let data = create_test_zip(&[("readme.txt", b"text"), ("data.json", b"{}")]);
    let mut archive = ZipArchiveFromStream::new(data).unwrap();
    let result = archive.find_first_image(true);
    assert!(result.is_err());
    // the absence of an image is distinguishable from corruption
    assert!(matches!(result.err().unwrap(), CbxError::NoImageFound));
}

#[test]
fn zip_test_extract_entry() {
    let content = b"fake jpeg data";
    let data = create_test_zip(&[("image.jpg", content)]);
    let mut archive = ZipArchiveFromStream::new(data).unwrap();
    let entry = archive.find_first_image(false).unwrap();
    let extracted = archive.extract_entry(&entry).unwrap();
    assert_eq!(extracted, content);
}

#[test]
fn zip_test_extract_too_large_entry() {
    // The size guard fires on the declared size alone, before any
    // archive data is read.
    let data = create_test_zip(&[("image.jpg", b"small")]);
    let mut archive = ZipArchiveFromStream::new(data).unwrap();
    let oversized = ArchiveEntry {
        name: "image.jpg".to_string(),
        size: 32 * 1024 * 1024 + 1,
        is_directory: false,
    };
    let result = archive.extract_entry(&oversized);
    assert!(result.is_err());
    assert!(matches!(result.unwrap_err(), CbxError::Archive(_)));

    let at_limit = ArchiveEntry {
        name: "image.jpg".to_string(),
        size: MAX_ENTRY_SIZE,
        is_directory: false,
    };
    // At the ceiling the guard does not fire; the declared size is a
    // lie here, but extraction itself still succeeds.
    assert!(archive.extract_entry(&at_limit).is_ok());
}

#[test]
fn zip_test_get_metadata() {
    let data = create_test_zip(&[
        ("page1.jpg", b"image 1"),
        ("page2.jpg", b"image 2"),
        ("readme.txt", b"text"),
    ]);
    let mut archive = ZipArchiveFromStream::new(data).unwrap();
    let metadata = archive.get_metadata().unwrap();
    assert_eq!(metadata.total_files, 3);
    assert_eq!(metadata.image_count, 2);
    assert_eq!(metadata.archive_type, ArchiveType::Zip);
}

#[test]
fn zip_test_entry_names() {
    let data = create_test_zip(&[("b.txt", b"1"), ("a.jpg", b"2")]);
    let archive = ZipArchiveFromStream::new(data).unwrap();
    let names = archive.get_entry_names();
    assert_eq!(names, ["b.txt".to_string(), "a.jpg".to_string()]);
}

#[test]
fn zip_test_get_entry_by_name() {
    let content = b"image bytes";
    let data = create_test_zip(&[("x.txt", b"t"), ("pic.jpg", content)]);
    let mut archive = ZipArchiveFromStream::new(data).unwrap();
    let entry = archive.get_entry_by_name("pic.jpg").unwrap();
    assert_eq!(entry.name, "pic.jpg");
    assert_eq!(entry.size, content.len() as u64);
    assert!(!entry.is_directory);
    assert!(archive.get_entry_by_name("missing.jpg").is_err());
}

#[test]
fn sevenz_test_open_valid() {
    let data = create_test_7z(&[("test.jpg", b"fake image data")]);
    let archive = SevenZipArchiveFromStream::new(data).unwrap();
    assert_eq!(archive.archive_type(), ArchiveType::SevenZip);
}

#[test]
fn sevenz_test_open_invalid() {
    let result = SevenZipArchiveFromStream::new(b"not a 7z file".to_vec());
    assert!(result.is_err());
}

#[test]
fn sevenz_test_find_first_image_sorted() {
    let data = create_test_7z(&[
        ("readme.txt", b"text file"),
        ("page10.jpg", b"image 10"),
        ("page2.jpg", b"image 2"),
        ("page1.jpg", b"image 1"),
    ]);
    let mut archive = SevenZipArchiveFromStream::new(data).unwrap();
    let entry = archive.find_first_image(true).unwrap();
    assert_eq!(entry.name, "page1.jpg");
}

#[test]
fn sevenz_test_find_first_image_unsorted() {
    let data = create_test_7z(&[
        ("readme.txt", b"text file"),
        ("page10.jpg", b"image 10"),
        ("page2.jpg", b"image 2"),
    ]);
    let mut archive = SevenZipArchiveFromStream::new(data).unwrap();
    let entry = archive.find_first_image(false).unwrap();
    // First image in the container's native order.
    assert!(
        entry.name == "page10.jpg" || entry.name == "page2.jpg",
        "Expected an image file, got: {}",
        entry.name
    );
}

#[test]
fn sevenz_test_no_images_found() {
    let data = create_test_7z(&[("readme.txt", b"text"), ("data.json", b"{}")]);
    let mut archive = SevenZipArchiveFromStream::new(data).unwrap();
    let result = archive.find_first_image(true);
    assert!(result.is_err());
    // the absence of an image is distinguishable from corruption
    assert!(matches!(result.err().unwrap(), CbxError::NoImageFound));
}

#[test]
fn sevenz_test_extract_entry() {
    let content = b"fake jpeg data";
    let data = create_test_7z(&[("image.jpg", content)]);
    let mut archive = SevenZipArchiveFromStream::new(data).unwrap();
    let entry = archive.find_first_image(false).unwrap();
    let extracted = archive.extract_entry(&entry).unwrap();
    assert_eq!(extracted, content);
}

#[test]
fn sevenz_test_extract_too_large_entry() {
    let data = create_test_7z(&[("image.jpg", b"small")]);
    let mut archive = SevenZipArchiveFromStream::new(data).unwrap();
    let oversized = ArchiveEntry {
        name: "image.jpg".to_string(),
        size: MAX_ENTRY_SIZE + 1,
        is_directory: false,
    };
    let result = archive.extract_entry(&oversized);
    assert!(result.is_err());
}

#[test]
fn sevenz_test_get_metadata() {
    let data = create_test_7z(&[
        ("page1.jpg", b"image 1"),
        ("page2.jpg", b"image 2"),
        ("readme.txt", b"text"),
    ]);
    let size = data.len() as u64;
    let mut archive = SevenZipArchiveFromStream::new(data).unwrap();
    let metadata = archive.get_metadata().unwrap();
    assert_eq!(metadata.total_files, 3);
    assert_eq!(metadata.image_count, 2);
    assert_eq!(metadata.compressed_size, size);
    assert_eq!(metadata.archive_type, ArchiveType::SevenZip);
}

#[test]
fn test_open_archive_by_extension() {
    let data = create_test_zip(&[("page1.jpg", b"img")]);
    let mut archive = open_archive("comic.cbz", data).unwrap();
    assert_eq!(archive.archive_type(), ArchiveType::Zip);
    let entry = archive.find_first_image(true).unwrap();
    assert_eq!(entry.name, "page1.jpg");

    let data = create_test_7z(&[("page1.jpg", b"img")]);
    let archive = open_archive("comic.cb7", data).unwrap();
    assert!(matches!(archive, CbxArchive::SevenZip(_)));

    assert!(matches!(
        open_archive("file.txt", Vec::new()).err().unwrap(),
        CbxError::UnsupportedFormat(_)
    ));
    assert!(matches!(
        open_archive("noext", Vec::new()).err().unwrap(),
        CbxError::InvalidPath
    ));
    assert!(matches!(
        open_archive("comic.cbr", Vec::new()).err().unwrap(),
        CbxError::Archive(_)
    ));
}

#[test]
fn test_open_archive_from_bytes_by_magic() {
    let data = create_test_zip(&[("page1.jpg", b"img")]);
    let archive = open_archive_from_bytes(data).unwrap();
    assert!(matches!(archive, CbxArchive::Zip(_)));

    let data = create_test_7z(&[("page1.jpg", b"img")]);
    let archive = open_archive_from_bytes(data).unwrap();
    assert!(matches!(archive, CbxArchive::SevenZip(_)));

    assert!(matches!(
        open_archive_from_bytes(b"UNKNOWN\x00\x00\x00\x00".to_vec()).err().unwrap(),
        CbxError::UnsupportedFormat(_)
    ));

    let rar_bytes = b"Rar!\x1A\x07\x00\x00".to_vec();
    assert!(matches!(
        open_archive_from_bytes(rar_bytes).err().unwrap(),
        CbxError::Archive(_)
    ));
}
