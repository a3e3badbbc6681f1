use std::collections::HashMap;
use vectorize::batch::{resolve_download, DownloadOutcome};
use vectorize::models::health_response;
use vectorize::naming::{decimal_string, extension_or_png, file_stem, output_path, svg_name_for, upload_path};
use vectorize::preprocess::{Image, Pixel};
use vectorize::registry::Registry;
use vectorize::settings::parse_settings;
use vectorize::vectorizer::convert_image_to_svg;

fn identity_table() -> Vec<u8> {
    (0..=255u8).collect()
}

fn solid_gray(width: usize, height: usize) -> Image {
    let mut pixels = Vec::new();
    for _ in 0..width * height {
        pixels.push(Pixel { r: 128, g: 128, b: 128, a: 255 });
    }
    Image { width, height, pixels }
}

#[test]
fn monochrome_conversion_round_trip() {
    // upload a 10x10 solid-gray image with output_mode=monochrome,
    // threshold=128: conversion succeeds with non-empty vector text, and a
    // download for the identifier returns byte-identical text
    let img = solid_gray(10, 10);
    let payload = b"{\"output_mode\":\"monochrome\",\"threshold\":128}".to_vec();
    let settings = parse_settings(&payload).expect("well-formed settings payload");
    let svg = convert_image_to_svg(&img, &settings, &identity_table()).expect("conversion succeeds");
    assert!(!svg.is_empty());

    // the artifact store stands in for the output directory here
    let mut disk: HashMap<String, Vec<u8>> = HashMap::new();
    let id = "11111111-2222-3333-4444-555555555555".to_string();
    let out = output_path(&id);
    disk.insert(out.clone(), svg.as_bytes().to_vec());

    let mut reg = Registry::new();
    reg.store_file_metadata(&id, &"gray.png".to_string(), &upload_path(&id, "png"), &out, 7);
    let found = reg.get_file_metadata(&id);
    let exists = found.as_ref().map(|m| disk.contains_key(&m.output_path)).unwrap_or(false);
    match resolve_download(&found, exists) {
        DownloadOutcome::Ready(d) => {
            assert_eq!(d.download_name, "gray.svg");
            assert_eq!(disk.get(&d.output_path).unwrap(), svg.as_bytes());
        },
        _ => panic!("artifact must resolve"),
    }
}

#[test]
fn failed_conversion_reports_processing_error() {
    let img = Image { width: 0, height: 0, pixels: Vec::new() };
    let payload = b"{}".to_vec();
    let settings = parse_settings(&payload).unwrap();
    match convert_image_to_svg(&img, &settings, &identity_table()) {
        Err(vectorize::vectorizer::VectorizerError::ProcessingError(_)) => {},
        _ => panic!("an empty image cannot be traced"),
    }
}

#[test]
fn filename_derivation_rules() {
    assert_eq!(file_stem("dir/photo.tar.gz"), "photo.tar");
    assert_eq!(file_stem(".hidden"), ".hidden");
    assert_eq!(file_stem("plain"), "plain");
    assert_eq!(file_stem("a/b/c.png"), "c");
    assert_eq!(extension_or_png("shot.jpeg"), "jpeg");
    assert_eq!(extension_or_png("noext"), "png");
    assert_eq!(extension_or_png(".hidden"), "png");
    assert_eq!(svg_name_for("pic.png", "download"), "pic.svg");
    assert_eq!(svg_name_for("", "download"), "download.svg");
    assert_eq!(upload_path("abc", "png"), "uploads/abc.png");
    assert_eq!(output_path("abc"), "output/abc.svg");
    assert_eq!(decimal_string(0), "0");
    assert_eq!(decimal_string(350), "350");
}

#[test]
fn health_probe_is_static() {
    let h = health_response();
    assert_eq!(h.status, "ok");
    assert_eq!(h.message, "Server is running");
}
