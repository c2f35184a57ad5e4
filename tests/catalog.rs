use tmo_catalog::serie::{
    chapter_number, Chapter, Provider, Serie, SerieParseError, SerieUrlInfo,
};

fn info(is_oneshot: bool) -> SerieUrlInfo {
    SerieUrlInfo {
        url: "https://zonatmo.com/library/manga/7/name".to_string(),
        index: 7,
        slug: "name".to_string(),
        is_oneshot,
    }
}

const MULTI: &str = r#"<html><body>
<h1 class="element-title">  My Title  </h1>
<div id="chapters"><ul>
<li class="upload-link"><h4><a> Capítulo 2.00 Second </a></h4>
  <ul>
    <li class="list-group-item"><a href="https://x/group">GroupA</a> <a href="https://view/2a">view</a></li>
    <li class="list-group-item"><span>no anchor</span></li>
  </ul>
</li>
<li class="upload-link"><h4><a>Capítulo 1.50 Earlier</a></h4>
  <ul>
    <li class="list-group-item"><a href="https://view/1b"> GroupB </a></li>
  </ul>
</li>
</ul></div>
</body></html>"#;

#[test]
fn multi_chapter_catalog_is_ascending() {
    let s = Serie::from_html(info(false), MULTI).unwrap();
    assert_eq!(s.title, "My Title");
    assert_eq!(s.url_info.index, 7);
    assert_eq!(s.chapters.len(), 2);
    assert_eq!(s.chapters[0].number, (1, 50));
    assert_eq!(s.chapters[0].name, "Capítulo 1.50 Earlier");
    assert_eq!(s.chapters[1].number, (2, 0));
    assert_eq!(s.chapters[1].name, "Capítulo 2.00 Second");
    assert!(s.chapters[0].number < s.chapters[1].number);
}

#[test]
fn multi_chapter_providers_first_name_last_link() {
    let s = Serie::from_html(info(false), MULTI).unwrap();
    let second = &s.chapters[1].providers;
    assert_eq!(second.len(), 1);
    assert_eq!(second[0].scan, "GroupA");
    assert_eq!(second[0].link, "https://view/2a");
    let first = &s.chapters[0].providers;
    assert_eq!(first.len(), 1);
    assert_eq!(first[0].scan, "GroupB");
    assert_eq!(first[0].link, "https://view/1b");
}

#[test]
fn missing_title_fails() {
    let page = "<html><body><h2>no title</h2><div id=\"chapters\"></div></body></html>";
    assert_eq!(Serie::from_html(info(false), page).unwrap_err(), SerieParseError::MissingTitle);
    assert_eq!(Serie::from_html(info(true), page).unwrap_err(), SerieParseError::MissingTitle);
}

#[test]
fn malformed_heading_fails_the_catalog() {
    let page = r#"<h1 class="element-title">T</h1><div id="chapters"><ul>
<li class="upload-link"><h4><a>Capítulo 3.00</a></h4></li>
<li class="upload-link"><h4><a>Capitulo 2</a></h4></li>
</ul></div>"#;
    assert_eq!(Serie::from_html(info(false), page).unwrap_err(), SerieParseError::MissingTitle);
}

#[test]
fn heading_number_too_large_fails() {
    let page = r#"<h1 class="element-title">T</h1><div id="chapters"><ul>
<li class="upload-link"><h4><a>Capítulo 4294967296.0</a></h4></li>
</ul></div>"#;
    assert_eq!(Serie::from_html(info(false), page).unwrap_err(), SerieParseError::MissingTitle);
}

#[test]
fn chapter_without_heading_fails() {
    let page = r#"<h1 class="element-title">T</h1><div id="chapters"><ul>
<li class="upload-link"><h4>no anchor</h4></li>
</ul></div>"#;
    assert_eq!(Serie::from_html(info(false), page).unwrap_err(), SerieParseError::MissingTitle);
}

#[test]
fn multi_chapter_catalog_without_chapters_fails() {
    let page = r#"<h1 class="element-title">Empty</h1><div id="chapters"></div>"#;
    assert_eq!(Serie::from_html(info(false), page).unwrap_err(), SerieParseError::MissingTitle);
}

fn oneshot_page(entries: &str) -> String {
    format!(
        "<html><body><h1 class=\"element-title\">One Shot</h1><ul>{}</ul></body></html>",
        entries
    )
}

#[test]
fn oneshot_without_providers() {
    let s = Serie::from_html(info(true), &oneshot_page("")).unwrap();
    assert_eq!(s.chapters.len(), 1);
    assert_eq!(s.chapters[0].number, (0, 0));
    assert_eq!(s.chapters[0].name, "One Shot");
    assert!(s.chapters[0].providers.is_empty());
}

#[test]
fn oneshot_with_one_provider() {
    let entry = r#"<li class="list-group-item"><span> Scan X </span><a href="https://view/os">Ver</a></li>"#;
    let s = Serie::from_html(info(true), &oneshot_page(entry)).unwrap();
    assert_eq!(s.chapters.len(), 1);
    assert_eq!(s.chapters[0].number, (0, 0));
    assert_eq!(s.chapters[0].providers.len(), 1);
    assert_eq!(s.chapters[0].providers[0].scan, "Scan X");
    assert_eq!(s.chapters[0].providers[0].link, "https://view/os");
}

#[test]
fn oneshot_with_many_providers_drops_broken_ones() {
    let entries = r#"<li class="list-group-item"><span>A</span><a href="https://a">1</a><a href="https://b">2</a></li>
<li class="list-group-item"><span>B</span></li>
<li class="list-group-item"><a href="https://c">no span</a></li>
<li class="list-group-item"><span>C</span><a href="https://d">3</a></li>"#;
    let s = Serie::from_html(info(true), &oneshot_page(entries)).unwrap();
    assert_eq!(s.chapters.len(), 1);
    assert_eq!(s.chapters[0].number, (0, 0));
    let p = &s.chapters[0].providers;
    assert_eq!(p.len(), 2);
    assert_eq!((p[0].scan.as_str(), p[0].link.as_str()), ("A", "https://a"));
    assert_eq!((p[1].scan.as_str(), p[1].link.as_str()), ("C", "https://d"));
}

#[test]
fn provider_from_parts() {
    let p = Provider::from_parts(&Some("  G  ".to_string()), &Some("https://l".to_string())).unwrap();
    assert_eq!(p.scan, "G");
    assert_eq!(p.link, "https://l");
    assert_eq!(
        Provider::from_parts(&None, &Some("https://l".to_string())).unwrap_err(),
        SerieParseError::MissingScan
    );
    assert_eq!(
        Provider::from_parts(&Some("G".to_string()), &None).unwrap_err(),
        SerieParseError::MissingScan
    );
}

#[test]
fn provider_fragments() {
    let frag = r#"<li class="list-group-item"><a href="https://first">Name</a><a href="https://last">go</a></li>"#;
    let p = Provider::from_serie_provider_fragment(frag).unwrap();
    assert_eq!((p.scan.as_str(), p.link.as_str()), ("Name", "https://last"));
    let q = Provider::from_oneshot_provider_fragment(frag).unwrap_err();
    assert_eq!(q, SerieParseError::MissingScan);
    let frag2 = r#"<li><span>S</span><a href="https://first">Name</a><a href="https://last">go</a></li>"#;
    let r = Provider::from_oneshot_provider_fragment(frag2).unwrap();
    assert_eq!((r.scan.as_str(), r.link.as_str()), ("S", "https://first"));
}

#[test]
fn chapter_from_fragment() {
    let frag = r#"<li class="upload-link"><h4><a>Capítulo   12.5 Title</a></h4></li>"#;
    let c = Chapter::from_fragment(frag).unwrap();
    assert_eq!(c.number, (12, 5));
    assert_eq!(c.name, "Capítulo   12.5 Title");
    assert!(c.providers.is_empty());
}

#[test]
fn chapter_numbers_from_groups() {
    assert_eq!(chapter_number(&Some(("12".to_string(), "05".to_string()))), Some((12, 5)));
    assert_eq!(chapter_number(&Some(("4294967295".to_string(), "0".to_string()))), Some((4294967295, 0)));
    assert_eq!(chapter_number(&Some(("4294967296".to_string(), "0".to_string()))), None);
    assert_eq!(chapter_number(&None), None);
}

#[test]
fn title_from_texts() {
    let t = Serie::title_from_texts(&vec![Some("  Hello \n".to_string()), Some("x".to_string())]);
    assert_eq!(t.unwrap(), "Hello");
    assert_eq!(Serie::title_from_texts(&vec![]).unwrap_err(), SerieParseError::MissingTitle);
    assert_eq!(Serie::title_from_texts(&vec![None]).unwrap_err(), SerieParseError::MissingTitle);
}

#[test]
fn chapter_entry_is_not_its_own_provider() {
    let frag = r#"<li class="upload-link list-group-item"><h4><a href="https://h">Capítulo 1.0</a></h4>
<ul><li class="list-group-item"><a href="https://view/1">G</a></li></ul></li>"#;
    let c = Chapter::from_fragment(frag).unwrap();
    assert_eq!(c.providers.len(), 1);
    assert_eq!(c.providers[0].scan, "G");
    assert_eq!(c.providers[0].link, "https://view/1");
}
