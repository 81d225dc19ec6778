//! Tests for the management tool's configuration state.

use cbxcore::app_state::{AppState, ExtensionConfig};
use cbxcore::errors::CbxError;

#[test]
fn test_extension_config_new() {
    let config = ExtensionConfig::new(".cbz");
    assert_eq!(config.extension, ".cbz");
    assert!(!config.thumbnail_enabled);
    assert!(!config.infotip_enabled);
}

#[test]
fn test_extension_config_enabled() {
    let config = ExtensionConfig::enabled(".cbr");
    assert_eq!(config.extension, ".cbr");
    assert!(config.thumbnail_enabled);
    assert!(config.infotip_enabled);
}

#[test]
fn test_app_state_default() {
    let state = AppState::default();
    assert_eq!(state.extensions.len(), 6);
    assert!(!state.sort_enabled); // Default: sort disabled for performance
    assert!(!state.dll_registered);
    assert!(!state.has_any_handlers_enabled());
}

#[test]
fn test_has_any_handlers_enabled() {
    let mut state = AppState::default();
    assert!(!state.has_any_handlers_enabled());

    state.extensions[0].thumbnail_enabled = true;
    assert!(state.has_any_handlers_enabled());
}

#[test]
fn test_get_extension() {
    let state = AppState::default();
    let ext = state.get_extension(".cbz");
    assert!(ext.is_some());
    assert_eq!(ext.unwrap().extension, ".cbz");

    let missing = state.get_extension(".unknown");
    assert!(missing.is_none());
}

#[test]
fn test_get_extension_mut() {
    let mut state = AppState::default();

    if let Some(ext) = state.get_extension_mut(".cbz") {
        ext.thumbnail_enabled = true;
    }

    let ext = state.get_extension(".cbz").unwrap();
    assert!(ext.thumbnail_enabled);
}

#[test]
fn test_is_valid() {
    let mut state = AppState::default();
    assert!(state.is_valid()); // No handlers, no registration - valid

    state.extensions[0].thumbnail_enabled = true;
    assert!(!state.is_valid()); // Handlers without registration - invalid

    state.dll_registered = true;
    assert!(state.is_valid()); // Handlers with registration - valid
}

#[test]
fn test_is_image_file_jpeg() {
    assert!(cbxcore::selection::is_image_file("image.jpg"));
    assert!(cbxcore::selection::is_image_file("image.jpeg"));
    assert!(cbxcore::selection::is_image_file("image.jpe"));
    assert!(cbxcore::selection::is_image_file("image.jfif"));
}

#[test]
fn test_is_image_file_png() {
    assert!(cbxcore::selection::is_image_file("image.png"));
    assert!(cbxcore::selection::is_image_file("IMAGE.PNG")); // Case insensitive
}

#[test]
fn test_is_image_file_webp() {
    assert!(cbxcore::selection::is_image_file("image.webp"));
    assert!(cbxcore::selection::is_image_file("photo.WEBP"));
}

#[test]
fn test_is_image_file_avif() {
    assert!(cbxcore::selection::is_image_file("image.avif"));
}

#[test]
fn test_is_image_file_other_formats() {
    assert!(cbxcore::selection::is_image_file("image.gif"));
    assert!(cbxcore::selection::is_image_file("image.bmp"));
    assert!(cbxcore::selection::is_image_file("image.tif"));
    assert!(cbxcore::selection::is_image_file("image.tiff"));
    assert!(cbxcore::selection::is_image_file("icon.ico"));
}

#[test]
fn test_is_image_file_not_image() {
    assert!(!cbxcore::selection::is_image_file("document.txt"));
    assert!(!cbxcore::selection::is_image_file("archive.zip"));
    assert!(!cbxcore::selection::is_image_file("video.mp4"));
    assert!(!cbxcore::selection::is_image_file("audio.mp3"));
}

#[test]
fn test_is_image_file_no_extension() {
    assert!(!cbxcore::selection::is_image_file("README"));
    assert!(!cbxcore::selection::is_image_file("file"));
}

#[test]
fn test_is_image_file_with_path() {
    assert!(cbxcore::selection::is_image_file("path/to/image.jpg"));
    assert!(cbxcore::selection::is_image_file(r"C:\Users\test\photo.png"));
    assert!(!cbxcore::selection::is_image_file("path/to/document.txt"));
}

#[test]
fn test_is_image_file_case_insensitive() {
    assert!(cbxcore::selection::is_image_file("image.JPG"));
    assert!(cbxcore::selection::is_image_file("image.JpG"));
    assert!(cbxcore::selection::is_image_file("image.PnG"));
    assert!(cbxcore::selection::is_image_file("image.WEBP"));
}

#[test]
fn test_is_image_file_edge_cases() {
    assert!(!cbxcore::selection::is_image_file(""));
    assert!(!cbxcore::selection::is_image_file(".jpg")); // Just extension, no filename
    assert!(cbxcore::selection::is_image_file("a.jpg")); // Single character filename
}

#[test]
fn test_error_kind_labels() {
    assert_eq!(CbxError::NoImageFound.kind(), "no image found in archive");
    assert_eq!(CbxError::InvalidPath.kind(), "invalid file path");
    assert_eq!(
        CbxError::UnsupportedFormat("x".to_string()).kind(),
        "unsupported format"
    );
}
