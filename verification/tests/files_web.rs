use poem_acme::service::{
    decide_response, path_allowed, resolve_path, Files, FilesDecision, FsInfo,
};
use poem_acme::service::{render_listing, FileRef};
use poem_acme::web::{Data, Html, Json};

fn strs(v: &[&str]) -> Vec<String> {
    v.iter().map(|s| String::from(*s)).collect()
}

#[test]
fn files_builder_flags() {
    let files = Files::new(strs(&["srv", "www"]));
    assert!(!files.show_files_listing);
    assert!(files.index_file.is_none());
    let files = files.show_files_listing();
    assert!(files.show_files_listing);
    let files = files.index_file(String::from("index.html"));
    assert_eq!(files.index_file, Some(String::from("index.html")));
    assert_eq!(files.path, strs(&["srv", "www"]));
}

#[test]
fn path_resolution_follows_dot_segments() {
    let base = strs(&["srv", "www"]);
    let resolved = resolve_path(&base, &strs(&["a", ".", "b", "..", "c"]));
    assert_eq!(resolved, strs(&["srv", "www", "a", "c"]));
    assert!(path_allowed(&base, &resolved));
}

#[test]
fn escaping_the_base_directory_is_refused() {
    let base = strs(&["srv", "www"]);
    let resolved = resolve_path(&base, &strs(&["..", "..", "etc", "passwd"]));
    assert_eq!(resolved, strs(&["etc", "passwd"]));
    assert!(!path_allowed(&base, &resolved));
    // Stepping out and back under another name is likewise refused.
    let resolved = resolve_path(&base, &strs(&["..", "..", "srv", "www2", "x"]));
    assert!(!path_allowed(&base, &resolved));
    // Stepping out and straight back in resolves under the base again.
    let resolved = resolve_path(&base, &strs(&["..", "www", "x"]));
    assert_eq!(resolved, strs(&["srv", "www", "x"]));
    assert!(path_allowed(&base, &resolved));
}

#[test]
fn response_decisions() {
    let plain = Files::new(strs(&["srv"]));
    assert_eq!(
        decide_response(&plain, false, true, FsInfo::File),
        FilesDecision::MethodNotAllowed
    );
    assert_eq!(
        decide_response(&plain, true, false, FsInfo::File),
        FilesDecision::Forbidden
    );
    assert_eq!(
        decide_response(&plain, true, true, FsInfo::Missing),
        FilesDecision::NotFound
    );
    assert_eq!(
        decide_response(&plain, true, true, FsInfo::File),
        FilesDecision::ServeFile
    );
    // A bare directory is not served.
    assert_eq!(
        decide_response(&plain, true, true, FsInfo::Directory { index_is_file: false }),
        FilesDecision::NotFound
    );
    // With an index file present, it is served.
    let with_index = Files::new(strs(&["srv"])).index_file(String::from("index.html"));
    assert_eq!(
        decide_response(&with_index, true, true, FsInfo::Directory { index_is_file: true }),
        FilesDecision::ServeIndex
    );
    // A missing index falls back to the listing when enabled.
    let with_listing = with_index.show_files_listing();
    assert_eq!(
        decide_response(&with_listing, true, true, FsInfo::Directory { index_is_file: false }),
        FilesDecision::ShowListing
    );
}

#[test]
fn test_data_extractor() {
    let value = Data(&100i32);
    assert_eq!(value.0, &100);
}

#[test]
fn wrappers_carry_their_values() {
    assert_eq!(Data(7u8).into_inner(), 7);
    assert_eq!(Html(String::from("<p>hi</p>")).into_inner(), "<p>hi</p>");
    assert_eq!(Json(vec![1, 2, 3]).into_inner(), vec![1, 2, 3]);
}

#[test]
fn listing_page_escapes_entries() {
    let files = vec![
        FileRef {
            url: String::from("/srv/a%20b"),
            filename: String::from("a<b>.txt"),
            is_dir: false,
        },
        FileRef { url: String::from("/srv/sub"), filename: String::from("sub"), is_dir: true },
    ];
    let page = String::from_utf8(render_listing("/srv", &files)).unwrap();
    let mut expected = String::from("<html><head><title>Index of /srv</title></head>");
    expected.push_str("<body><h1>Index of /srv</h1><ul>");
    expected.push_str("<li><a href=\"/srv/a%20b\">a&lt;b&gt;.txt</a></li>");
    expected.push_str("<li><a href=\"/srv/sub\">sub/</a></li>");
    expected.push_str("</ul></body></html>");
    assert_eq!(page, expected);
    // A quote in an entry cannot break out of the href attribute, and an
    // ampersand cannot smuggle an entity.
    let tricky = vec![FileRef {
        url: String::from("x\" onclick=\"y"),
        filename: String::from("f&g"),
        is_dir: false,
    }];
    let page = String::from_utf8(render_listing("/", &tricky)).unwrap();
    assert!(page.contains("href=\"x&quot; onclick=&quot;y\""));
    assert!(page.contains(">f&amp;g</a>"));
}
