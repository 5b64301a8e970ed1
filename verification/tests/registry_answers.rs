use blaze::error::ErrorKind;
use blaze::packages::Entry;
use blaze::registry::{
    archive_file_name, archive_url, declared_dependencies, get_latest_version, get_version,
    latest_of, package_url, read_package_document, release_url, select_version, PackageMetadata,
};

const LEFT_PAD: &str = "{\"name\":\"left-pad\",\"dist-tags\":{\"latest\":\"2.0.0\"},\"versions\":{\"1.0.0\":{},\"1.0.1\":{},\"1.3.0\":{},\"2.0.0\":{}}}";

#[test]
fn package_url_names_the_package() {
    assert_eq!(package_url("left-pad"), "https://registry.npmjs.org/left-pad");
}

#[test]
fn release_url_names_package_and_version() {
    assert_eq!(release_url("left-pad", "1.3.0"), "https://registry.npmjs.org/left-pad/1.3.0");
}

#[test]
fn archive_file_name_joins_name_and_version() {
    assert_eq!(archive_file_name("left-pad", "1.3.0"), "left-pad-1.3.0.tgz");
}

#[test]
fn archive_url_follows_the_registry_layout() {
    assert_eq!(
        archive_url("left-pad", "1.3.0"),
        "https://registry.npmjs.org/left-pad/-/left-pad-1.3.0.tgz"
    );
}

#[test]
fn read_package_document_copies_tag_and_versions() {
    let doc = read_package_document(LEFT_PAD).unwrap();
    assert_eq!(doc.latest, Some("2.0.0".to_string()));
    assert_eq!(
        doc.versions,
        Some(vec![
            "1.0.0".to_string(),
            "1.0.1".to_string(),
            "1.3.0".to_string(),
            "2.0.0".to_string()
        ])
    );
}

#[test]
fn read_package_document_tells_missing_members() {
    let doc = read_package_document("{\"name\":\"x\"}").unwrap();
    assert_eq!(doc.latest, None);
    assert_eq!(doc.versions, None);
    let odd = read_package_document("{\"dist-tags\":{\"latest\":7},\"versions\":[\"1.0.0\"]}")
        .unwrap();
    assert_eq!(odd.latest, None);
    assert_eq!(odd.versions, None);
}

#[test]
fn read_package_document_refuses_what_is_no_json() {
    assert!(read_package_document("<html>").is_none());
    assert!(read_package_document("").is_none());
}

#[test]
fn get_latest_version_reads_the_tag() {
    assert_eq!(get_latest_version("left-pad", LEFT_PAD).unwrap(), "2.0.0");
}

#[test]
fn get_latest_version_fails_without_a_tag() {
    let e = get_latest_version("left-pad", "{\"versions\":{}}").unwrap_err();
    assert_eq!(e.kind, ErrorKind::Parse);
    assert_eq!(e.detail, "left-pad");
}

#[test]
fn get_latest_version_fails_on_a_malformed_answer() {
    let e = get_latest_version("left-pad", "not json").unwrap_err();
    assert_eq!(e.kind, ErrorKind::Parse);
    assert_eq!(e.detail, "left-pad");
}

#[test]
fn get_version_resolves_a_caret_constraint() {
    assert_eq!(get_version("left-pad", "^1.0.0", LEFT_PAD).unwrap(), "1.3.0");
}

#[test]
fn get_version_resolves_a_tilde_constraint() {
    assert_eq!(get_version("left-pad", "~2.0.0", LEFT_PAD).unwrap(), "2.0.0");
}

#[test]
fn get_version_resolves_a_bare_constraint() {
    assert_eq!(get_version("left-pad", "1.0.1", LEFT_PAD).unwrap(), "1.3.0");
}

#[test]
fn get_version_takes_latest_for_a_wildcard() {
    assert_eq!(get_version("left-pad", "*", LEFT_PAD).unwrap(), "2.0.0");
    assert_eq!(get_version("left-pad", "^1.*", LEFT_PAD).unwrap(), "2.0.0");
}

#[test]
fn get_version_fails_for_a_wildcard_without_a_tag() {
    let e = get_version("left-pad", "*", "{\"versions\":{\"1.0.0\":{}}}").unwrap_err();
    assert_eq!(e.kind, ErrorKind::Parse);
    assert_eq!(e.detail, "left-pad");
}

#[test]
fn get_version_fails_when_nothing_satisfies() {
    let e = get_version("left-pad", "^3.0.0", LEFT_PAD).unwrap_err();
    assert_eq!(e.kind, ErrorKind::Resolution);
    assert_eq!(e.detail, "left-pad");
}

#[test]
fn get_version_fails_on_an_unreadable_constraint() {
    let e = get_version("left-pad", "^1.0", LEFT_PAD).unwrap_err();
    assert_eq!(e.kind, ErrorKind::Resolution);
    assert_eq!(e.detail, "left-pad");
    let inner = get_version("left-pad", "1.^0.0", LEFT_PAD).unwrap_err();
    assert_eq!(inner.kind, ErrorKind::Resolution);
}

#[test]
fn get_version_fails_when_no_published_version_is_readable() {
    let e = get_version("odd", "^1.0.0", "{\"versions\":{\"one\":{},\"1.0\":{}}}").unwrap_err();
    assert_eq!(e.kind, ErrorKind::Resolution);
    assert_eq!(e.detail, "odd");
}

#[test]
fn get_version_fails_without_versions() {
    let e = get_version("left-pad", "^1.0.0", "{\"dist-tags\":{\"latest\":\"1.0.0\"}}")
        .unwrap_err();
    assert_eq!(e.kind, ErrorKind::Parse);
    assert_eq!(e.detail, "left-pad");
}

#[test]
fn get_version_fails_on_a_malformed_answer() {
    let e = get_version("left-pad", "^1.0.0", "{\"versions\":").unwrap_err();
    assert_eq!(e.kind, ErrorKind::Parse);
    assert_eq!(e.detail, "left-pad");
}

#[test]
fn select_version_works_on_a_decoded_document() {
    let doc = PackageMetadata {
        latest: Some("9.9.9".to_string()),
        versions: Some(vec!["0.3.1".to_string(), "0.3.4".to_string(), "0.2.0".to_string()]),
    };
    assert_eq!(select_version("pkg", "^0.3.0", &doc).unwrap(), "0.3.4");
    assert_eq!(select_version("pkg", "*", &doc).unwrap(), "9.9.9");
    assert_eq!(latest_of("pkg", &doc).unwrap(), "9.9.9");
    let e = select_version("pkg", "^1.0.0", &doc).unwrap_err();
    assert_eq!(e.kind, ErrorKind::Resolution);
    assert_eq!(e.detail, "pkg");
}

#[test]
fn declared_dependencies_lists_names_with_constraints() {
    let body = "{\"name\":\"a\",\"version\":\"1.0.0\",\"dependencies\":{\"b\":\"^1.0.0\",\"c\":\"~0.2.0\"}}";
    let declared = declared_dependencies("a", body).unwrap();
    assert_eq!(
        declared,
        vec![
            Entry { name: "b".to_string(), version: "^1.0.0".to_string() },
            Entry { name: "c".to_string(), version: "~0.2.0".to_string() }
        ]
    );
}

#[test]
fn declared_dependencies_is_empty_without_the_member() {
    assert_eq!(declared_dependencies("a", "{\"name\":\"a\"}").unwrap(), Vec::new());
    assert_eq!(declared_dependencies("a", "{\"dependencies\":[]}").unwrap(), Vec::new());
    assert_eq!(declared_dependencies("a", "{\"dependencies\":{}}").unwrap(), Vec::new());
}

#[test]
fn declared_dependencies_fails_on_a_constraint_that_is_no_string() {
    let e = declared_dependencies("a", "{\"dependencies\":{\"b\":1}}").unwrap_err();
    assert_eq!(e.kind, ErrorKind::Parse);
    assert_eq!(e.detail, "a");
}

#[test]
fn declared_dependencies_fails_on_a_malformed_answer() {
    let e = declared_dependencies("a", "Not Found").unwrap_err();
    assert_eq!(e.kind, ErrorKind::Parse);
    assert_eq!(e.detail, "a");
}

#[test]
fn find_text_takes_the_string_of_a_key() {
    let list = vec![
        blaze::json::Member { key: "next".to_string(), text: Some("3.0.0-rc.1".to_string()) },
        blaze::json::Member { key: "latest".to_string(), text: Some("2.0.0".to_string()) },
        blaze::json::Member { key: "odd".to_string(), text: None },
    ];
    assert_eq!(blaze::json::find_text(&list, "latest"), Some("2.0.0".to_string()));
    assert_eq!(blaze::json::find_text(&list, "next"), Some("3.0.0-rc.1".to_string()));
    assert_eq!(blaze::json::find_text(&list, "odd"), None);
    assert_eq!(blaze::json::find_text(&list, "beta"), None);
    assert_eq!(blaze::json::find_text(&Vec::new(), "latest"), None);
}

#[test]
fn member_keys_keeps_the_order() {
    let list = vec![
        blaze::json::Member { key: "1.0.0".to_string(), text: None },
        blaze::json::Member { key: "0.9.0".to_string(), text: Some("x".to_string()) },
    ];
    assert_eq!(blaze::json::member_keys(&list), vec!["1.0.0".to_string(), "0.9.0".to_string()]);
}

#[test]
fn read_package_document_reads_tags_among_others() {
    let doc = read_package_document(
        "{\"dist-tags\":{\"beta\":\"3.0.0-beta\",\"latest\":\"2.1.0\"},\"versions\":{\"2.1.0\":{\"dist\":{}}}}",
    )
    .unwrap();
    assert_eq!(doc.latest, Some("2.1.0".to_string()));
    assert_eq!(doc.versions, Some(vec!["2.1.0".to_string()]));
}
