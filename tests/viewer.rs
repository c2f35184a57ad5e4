use tmo_catalog::pages::{html_paginated_json, ChapterParser, ExtractError, ViewerFormat};
use tmo_catalog::resolve::UrlParts;

const CASCADE: &str = r#"<html><body><div>
<img class="viewer-img" data-src="https://img.example/a/001.webp">
<img class="viewer-img" data-src="https://img.example/a/002.webp">
<img class="other" data-src="https://img.example/ignored.webp">
<img class="viewer-img" data-src="https://img.example/a/003.webp">
</div></body></html>"#;

const PAGINATED: &str = r#"<html><head><script>
var dirPath = 'https://cdn.example/x/';
var images = JSON.parse('["1.webp","2.webp"]');
</script></head><body></body></html>"#;

#[test]
fn cascade_three_images_in_order() {
    assert_eq!(ChapterParser::detect(CASCADE), ViewerFormat::Cascade);
    let urls = ChapterParser::get_images(CASCADE).unwrap();
    assert_eq!(
        urls,
        vec![
            "https://img.example/a/001.webp",
            "https://img.example/a/002.webp",
            "https://img.example/a/003.webp",
        ]
    );
}

#[test]
fn cascade_missing_source_fails() {
    let page = r#"<img class="viewer-img" data-src="https://a"><img class="viewer-img" src="https://b">"#;
    assert_eq!(ChapterParser::get_images(page).unwrap_err(), ExtractError::MissingImageSrc);
}

#[test]
fn cascade_without_images_is_empty() {
    assert!(ChapterParser::cascade("<html></html>").unwrap().is_empty());
}

#[test]
fn paginated_joins_directory_and_names() {
    assert_eq!(ChapterParser::detect(PAGINATED), ViewerFormat::Paginated);
    let urls = ChapterParser::get_images(PAGINATED).unwrap();
    assert_eq!(urls, vec!["https://cdn.example/x/1.webp", "https://cdn.example/x/2.webp"]);
    assert_eq!(html_paginated_json(PAGINATED).unwrap(), urls);
}

#[test]
fn paginated_missing_list_fails() {
    let page = "<script>var dirPath = 'https://cdn.example/x/';</script>";
    assert_eq!(ChapterParser::get_images(page).unwrap_err(), ExtractError::MarkerNotFound);
}

#[test]
fn paginated_unclosed_directory_fails() {
    let page = "<script>var dirPath = 'https://cdn.example/x/";
    assert_eq!(ChapterParser::paginated(page).unwrap_err(), ExtractError::MarkerNotFound);
}

#[test]
fn paginated_unclosed_list_fails() {
    let page = "var dirPath = 'd/'; JSON.parse('[\"1.webp\"";
    assert_eq!(ChapterParser::paginated(page).unwrap_err(), ExtractError::MarkerNotFound);
}

#[test]
fn paginated_without_directory_marker_fails() {
    assert_eq!(ChapterParser::paginated(CASCADE).unwrap_err(), ExtractError::MarkerNotFound);
}

#[test]
fn paginated_single_name_and_empty_list() {
    let one = "var dirPath = 'https://c/'; JSON.parse('[\"p.jpg\"]');";
    assert_eq!(ChapterParser::paginated(one).unwrap(), vec!["https://c/p.jpg"]);
    let none = "var dirPath = 'https://c/'; JSON.parse('[]');";
    assert_eq!(ChapterParser::paginated(none).unwrap(), vec!["https://c/"]);
}

#[test]
fn cascade_addresses_are_normalized() {
    let page = r#"<img class="viewer-img" data-src="HTTPS://IMG.Example/a/1.webp">"#;
    assert_eq!(ChapterParser::get_images(page).unwrap(), vec!["https://img.example/a/1.webp"]);
}

#[test]
fn cascade_invalid_address_fails() {
    let page = r#"<img class="viewer-img" data-src="https://a/1"><img class="viewer-img" data-src="not an address">"#;
    assert_eq!(ChapterParser::get_images(page).unwrap_err(), ExtractError::InvalidImageUrl);
}

#[test]
fn paginated_relative_directory_fails() {
    let page = "var dirPath = 'images/'; JSON.parse('[\"1.webp\"]');";
    assert_eq!(ChapterParser::paginated(page).unwrap_err(), ExtractError::InvalidImageUrl);
}

#[test]
fn addresses_from_parsed_parts() {
    let part = |h: &str| UrlParts { href: h.to_string(), host: None, segments: None };
    let ok = vec![Some(part("https://a/1")), Some(part("https://a/2"))];
    assert_eq!(ChapterParser::addresses_from_parsed(&ok).unwrap(), vec!["https://a/1", "https://a/2"]);
    let bad = vec![Some(part("https://a/1")), None];
    assert_eq!(ChapterParser::addresses_from_parsed(&bad).unwrap_err(), ExtractError::InvalidImageUrl);
    assert!(ChapterParser::addresses_from_parsed(&vec![]).unwrap().is_empty());
}
