use dirclip::doc::append_directory_section;
use dirclip::doc::append_file_section;
use dirclip::doc::assemble_document;
use dirclip::doc::DocItem;

#[test]
fn directory_section_exact_framing() {
    let items = vec![DocItem::Directory {
        path: ".".to_string(),
        listing: Some("total 0\n".to_string()),
    }];
    let doc = assemble_document(&items);
    assert_eq!(doc, "\n=== Directory: . ===\ntotal 0\n");
}

#[test]
fn directory_without_listing_keeps_header() {
    let items = vec![DocItem::Directory { path: "./sub".to_string(), listing: None }];
    let doc = assemble_document(&items);
    assert_eq!(doc, "\n=== Directory: ./sub ===\n");
}

#[test]
fn file_section_exact_framing() {
    let items = vec![DocItem::File {
        path: "./a.rs".to_string(),
        contents: Some("fn a() {}\n".to_string()),
    }];
    let doc = assemble_document(&items);
    assert_eq!(doc, "\n=== File: ./a.rs ===\nfn a() {}\n\n");
}

#[test]
fn unreadable_file_contributes_nothing() {
    let items = vec![DocItem::File { path: "./broken.bin".to_string(), contents: None }];
    let doc = assemble_document(&items);
    assert_eq!(doc, "");
}

#[test]
fn document_concatenates_in_scan_order() {
    let items = vec![
        DocItem::Directory { path: ".".to_string(), listing: Some("a.rs\n".to_string()) },
        DocItem::File { path: "./a.rs".to_string(), contents: Some("body".to_string()) },
    ];
    let doc = assemble_document(&items);
    assert_eq!(doc, "\n=== Directory: . ===\na.rs\n\n=== File: ./a.rs ===\nbody\n");
}

#[test]
fn append_directory_section_extends_in_place() {
    let mut out = String::from("before");
    append_directory_section(&mut out, &".".to_string(), None);
    assert_eq!(out, "before\n=== Directory: . ===\n");
}

#[test]
fn append_file_section_extends_in_place() {
    let mut out = String::new();
    append_file_section(&mut out, &"./a.rs".to_string(), Some(&"x".to_string()));
    assert_eq!(out, "\n=== File: ./a.rs ===\nx\n");
    append_file_section(&mut out, &"./gone.rs".to_string(), None);
    assert_eq!(out, "\n=== File: ./a.rs ===\nx\n");
}
