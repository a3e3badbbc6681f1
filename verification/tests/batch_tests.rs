use std::io::Read;
use vectorize::batch::{build_archive, plan_batch, resolve_download, BatchError, BatchFile, DownloadOutcome};
use vectorize::registry::{FileMetadata, Registry};

fn sid(s: &str) -> String {
    s.to_string()
}

#[test]
fn batch_plan_skips_absent_and_keeps_duplicates() {
    let mut reg = Registry::new();
    reg.store_file_metadata(&sid("present"), &sid("img.png"), &sid("u"), &sid("output/present.svg"), 1);
    let ids = vec![sid("present"), sid("absent"), sid("present")];
    let items = plan_batch(&reg, &ids);
    assert_eq!(items.len(), 2);
    assert_eq!(items[0].output_path, "output/present.svg");
    assert_eq!(items[0].entry_name, "img.svg");
    // the duplicate is processed independently; its colliding name carries
    // the batch position
    assert_eq!(items[1].output_path, "output/present.svg");
    assert_eq!(items[1].entry_name, "img-2.svg");
}

#[test]
fn archive_contains_exactly_the_found_files() {
    let files = vec![
        BatchFile { entry_name: sid("img.svg"), data: Some(b"<svg>one</svg>".to_vec()) },
        BatchFile { entry_name: sid("gone.svg"), data: None },
        BatchFile { entry_name: sid("img-2.svg"), data: Some(b"<svg>two</svg>".to_vec()) },
    ];
    let bytes = build_archive(&files).expect("two files were found");
    let mut ar = zip::ZipArchive::new(std::io::Cursor::new(bytes)).expect("valid archive");
    assert_eq!(ar.len(), 2);
    let mut first = String::new();
    ar.by_name("img.svg").unwrap().read_to_string(&mut first).unwrap();
    assert_eq!(first, "<svg>one</svg>");
    let mut second = String::new();
    ar.by_name("img-2.svg").unwrap().read_to_string(&mut second).unwrap();
    assert_eq!(second, "<svg>two</svg>");
}

#[test]
fn empty_batch_reports_nothing_found() {
    let files = vec![
        BatchFile { entry_name: sid("a.svg"), data: None },
        BatchFile { entry_name: sid("b.svg"), data: None },
    ];
    match build_archive(&files) {
        Err(BatchError::NothingFound) => {},
        _ => panic!("expected the nothing-found condition"),
    }
    match build_archive(&Vec::new()) {
        Err(BatchError::NothingFound) => {},
        _ => panic!("expected the nothing-found condition"),
    }
}

fn meta(name: &str, output: &str) -> FileMetadata {
    FileMetadata {
        original_name: sid(name),
        input_path: sid("u"),
        output_path: sid(output),
        timestamp: 0,
    }
}

#[test]
fn download_resolution_distinguishes_missing_record_from_missing_file() {
    match resolve_download(&None, true) {
        DownloadOutcome::NoRecord => {},
        _ => panic!("unknown identifier must be not-found"),
    }
    match resolve_download(&Some(meta("pic.jpeg", "output/x.svg")), false) {
        DownloadOutcome::FileMissing => {},
        _ => panic!("a record without its file is a distinct condition"),
    }
    match resolve_download(&Some(meta("pic.jpeg", "output/x.svg")), true) {
        DownloadOutcome::Ready(d) => {
            assert_eq!(d.output_path, "output/x.svg");
            assert_eq!(d.download_name, "pic.svg");
        },
        _ => panic!("record and file present must be ready"),
    }
    // an empty stem falls back to "download"
    match resolve_download(&Some(meta("", "output/y.svg")), true) {
        DownloadOutcome::Ready(d) => assert_eq!(d.download_name, "download.svg"),
        _ => panic!("record and file present must be ready"),
    }
}

#[test]
fn residual_name_collisions_are_renamed_until_free() {
    let mut reg = Registry::new();
    reg.store_file_metadata(&sid("x"), &sid("a.png"), &sid("u1"), &sid("output/x.svg"), 1);
    reg.store_file_metadata(&sid("y"), &sid("a-2.png"), &sid("u2"), &sid("output/y.svg"), 1);
    let ids = vec![sid("x"), sid("y"), sid("x")];
    let items = plan_batch(&reg, &ids);
    assert_eq!(items.len(), 3);
    assert_eq!(items[0].entry_name, "a.svg");
    assert_eq!(items[1].entry_name, "a-2.svg");
    // the duplicate's first renaming attempt "a-2.svg" is taken too
    assert_eq!(items[2].entry_name, "a-2-2.svg");
    let files: Vec<BatchFile> = items
        .into_iter()
        .map(|it| BatchFile { entry_name: it.entry_name, data: Some(b"<svg/>".to_vec()) })
        .collect();
    let bytes = build_archive(&files).expect("distinct names archive cleanly");
    let ar = zip::ZipArchive::new(std::io::Cursor::new(bytes)).expect("valid archive");
    assert_eq!(ar.len(), 3);
}

#[test]
fn archive_bytes_are_reproducible() {
    let files = vec![BatchFile { entry_name: sid("img.svg"), data: Some(b"<svg>one</svg>".to_vec()) }];
    let a = build_archive(&files).unwrap();
    let b = build_archive(&files).unwrap();
    assert_eq!(a, b);
}

#[test]
fn refused_entries_are_skipped_not_fatal() {
    // a name over the format's 65535-byte bound is refused by the encoder;
    // the batch goes on with the rest, as the reference did
    let long_name = "x".repeat(70000) + ".svg";
    let files = vec![
        BatchFile { entry_name: long_name, data: Some(b"<svg>big name</svg>".to_vec()) },
        BatchFile { entry_name: sid("ok.svg"), data: Some(b"<svg>kept</svg>".to_vec()) },
    ];
    let bytes = build_archive(&files).expect("the remaining entry is archived");
    let mut ar = zip::ZipArchive::new(std::io::Cursor::new(bytes)).expect("valid archive");
    assert_eq!(ar.len(), 1);
    let mut kept = String::new();
    ar.by_name("ok.svg").unwrap().read_to_string(&mut kept).unwrap();
    assert_eq!(kept, "<svg>kept</svg>");
}
