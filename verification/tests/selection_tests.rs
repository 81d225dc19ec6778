//! Tests for the entry-selection policy: the image-extension filter,
//! natural name ordering, and cover-entry choice.

use std::cmp::Ordering;
use cbxcore::selection::{find_first_image, is_image_file, natural_sort_cmp, MAX_ENTRY_SIZE};

#[test]
fn test_is_image_file() {
    assert!(is_image_file("test.jpg"));
    assert!(is_image_file("TEST.PNG"));
    assert!(is_image_file("image.webp"));
    assert!(is_image_file("photo.JPEG"));
    assert!(is_image_file("icon.ico"));
    assert!(is_image_file("graphic.bmp"));
    assert!(is_image_file("scan.tiff"));

    assert!(!is_image_file("readme.txt"));
    assert!(!is_image_file("archive.zip"));
    assert!(!is_image_file("video.mp4"));
    assert!(!is_image_file("noextension"));
}

#[test]
fn test_natural_sort_cmp() {
    assert_eq!(natural_sort_cmp("page1.jpg", "page2.jpg"), Ordering::Less);
    assert_eq!(natural_sort_cmp("page2.jpg", "page10.jpg"), Ordering::Less);
    assert_eq!(natural_sort_cmp("page10.jpg", "page2.jpg"), Ordering::Greater);
    assert_eq!(natural_sort_cmp("page1.jpg", "page1.jpg"), Ordering::Equal);

    assert_eq!(natural_sort_cmp("apple.jpg", "banana.jpg"), Ordering::Less);
}

#[test]
fn test_natural_sort_cmp_literal_pairs() {
    assert_eq!(natural_sort_cmp("page2.x", "page10.x"), Ordering::Less);
    assert_eq!(natural_sort_cmp("page10.x", "page2.x"), Ordering::Greater);
    assert_eq!(natural_sort_cmp("anything at all", "anything at all"), Ordering::Equal);
}

#[test]
fn test_natural_sort_cmp_leading_zeros() {
    // Numerically equal runs fall through to code-point order.
    assert_eq!(natural_sort_cmp("page002.jpg", "page2.jpg"), Ordering::Less);
    assert_eq!(natural_sort_cmp("page02.jpg", "page10.jpg"), Ordering::Less);
    assert_eq!(natural_sort_cmp("a10", "a9"), Ordering::Greater);
}

fn owned(names: &[&str]) -> Vec<String> {
    names.iter().map(|s| (*s).to_string()).collect()
}

#[test]
fn utils_test_find_first_image_sorted() {
    let files = owned(&["readme.txt", "page10.jpg", "page2.jpg", "page1.jpg"]);
    let result = find_first_image(&files, true);
    assert_eq!(result, Some("page1.jpg".to_string()));
}

#[test]
fn utils_test_find_first_image_unsorted() {
    let files = owned(&["readme.txt", "page10.jpg", "page2.jpg"]);
    let result = find_first_image(&files, false);
    assert_eq!(result, Some("page10.jpg".to_string()));
}

#[test]
fn test_find_first_image_no_images() {
    let files = owned(&["readme.txt", "license.md", "notes.doc"]);
    let result = find_first_image(&files, true);
    assert_eq!(result, None);
}

#[test]
fn test_find_first_image_empty() {
    let files: Vec<String> = Vec::new();
    let result = find_first_image(&files, true);
    assert_eq!(result, None);
}

#[test]
fn test_find_first_image_single_image_both_modes() {
    let files = owned(&["readme.txt", "notes.doc", "cover.png", "data.json"]);
    let sorted = find_first_image(&files, true);
    let unsorted = find_first_image(&files, false);
    assert_eq!(sorted, Some("cover.png".to_string()));
    assert_eq!(sorted, unsorted);
}

#[test]
fn test_max_entry_size() {
    assert_eq!(MAX_ENTRY_SIZE, 33_554_432);
    assert_eq!(MAX_ENTRY_SIZE, 32 * 1024 * 1024);
}
