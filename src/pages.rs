//! Page-image extraction from a chapter viewer page, in either of the two
//! viewer layouts.
use crate::markup::{select_attr, selected_attr};
use crate::resolve::{parse_url_parts, url_parts_of, UrlParts, UrlPartsView};
use crate::text::{
    chars_of, find_chars, find_from, lemma_find_from_occurs, opt_views_of, push_char, views_of,
};
use vstd::prelude::*;

verus! {

/// The two layouts of a chapter viewer page.
#[derive(Debug, Clone, Copy, PartialEq, Eq, Structural)]
pub enum ViewerFormat {
    /// The image list sits in an inline script: a directory and file names.
    Paginated,
    /// Every image is an element that carries its own address.
    Cascade,
}

/// Why no image list could be taken from a viewer page.
#[derive(Debug, Clone, Copy, PartialEq, Eq, Structural)]
pub enum ExtractError {
    /// A script marker of the paginated layout is absent.
    MarkerNotFound,
    /// A viewer image of the cascade layout has no `data-src`.
    MissingImageSrc,
    /// An image address is not a valid absolute URL.
    InvalidImageUrl,
}

/// Parser of chapter viewer pages.
pub struct ChapterParser;

/// Script text that opens the image directory of the paginated layout.
pub open spec fn dir_marker() -> Seq<char> {
    "var dirPath = '"@
}

/// The quote that closes the image directory.
pub open spec fn dir_end() -> Seq<char> {
    "'"@
}

/// Script text that opens the list of image file names.
pub open spec fn list_start() -> Seq<char> {
    "JSON.parse('["@
}

/// Script text that closes the list of image file names.
pub open spec fn list_end() -> Seq<char> {
    "]');"@
}

/// Selector of the image elements of the cascade layout.
pub open spec fn viewer_img_selector() -> Seq<char> {
    "img.viewer-img"@
}

/// Attribute that holds an image's address in the cascade layout.
pub open spec fn image_src_attr() -> Seq<char> {
    "data-src"@
}

/// The layout that a page is taken to have: paginated exactly when the
/// directory marker occurs in it.
pub open spec fn format_of(markup: Seq<char>) -> ViewerFormat {
    if find_from(markup, dir_marker(), 0) is Some {
        ViewerFormat::Paginated
    } else {
        ViewerFormat::Cascade
    }
}

/// `s` without any occurrence of `c`.
pub open spec fn strip_char(s: Seq<char>, c: char) -> Seq<char>
    decreases s.len(),
{
    if s.len() == 0 {
        s
    } else if s.last() == c {
        strip_char(s.drop_last(), c)
    } else {
        strip_char(s.drop_last(), c).push(s.last())
    }
}

/// The pieces of `s` between occurrences of `sep`, as `str::split` gives
/// them: one more piece than there are separators.
pub open spec fn split_on(s: Seq<char>, sep: char) -> Seq<Seq<char>>
    decreases s.len(),
{
    if s.len() == 0 {
        seq![Seq::empty()]
    } else {
        let p = split_on(s.drop_last(), sep);
        if s.last() == sep {
            p.push(Seq::empty())
        } else {
            p.update(p.len() - 1, p.last().push(s.last()))
        }
    }
}

/// Each name of `names`, prefixed by `base`.
pub open spec fn prefixed(base: Seq<char>, names: Seq<Seq<char>>) -> Seq<Seq<char>> {
    names.map_values(|n: Seq<char>| base + n)
}

/// The image addresses that a paginated page lists: the directory between
/// the directory marker and the next quote, joined to each file name of the
/// embedded list once quotes are removed and the list is cut at commas.
pub open spec fn listed_addresses(m: Seq<char>) -> Result<Seq<Seq<char>>, ExtractError> {
    match find_from(m, dir_marker(), 0) {
        None => Err(ExtractError::MarkerNotFound),
        Some(a) => {
            let b0 = a + dir_marker().len();
            match find_from(m, dir_end(), b0) {
                None => Err(ExtractError::MarkerNotFound),
                Some(b) => match find_from(m, list_start(), 0) {
                    None => Err(ExtractError::MarkerNotFound),
                    Some(c) => {
                        let c0 = c + list_start().len();
                        match find_from(m, list_end(), c0) {
                            None => Err(ExtractError::MarkerNotFound),
                            Some(e) => Ok(
                                prefixed(
                                    m.subrange(b0, b),
                                    split_on(strip_char(m.subrange(c0, e), '"'), ','),
                                ),
                            ),
                        }
                    },
                },
            }
        },
    }
}

/// Every source is present: the list of them, else `MissingImageSrc`.
pub open spec fn all_sources(srcs: Seq<Option<Seq<char>>>) -> Result<Seq<Seq<char>>, ExtractError> {
    if exists|i: int| 0 <= i < srcs.len() && #[trigger] srcs[i] is None {
        Err(ExtractError::MissingImageSrc)
    } else {
        Ok(srcs.map_values(|o: Option<Seq<char>>| o->0))
    }
}

/// The views of a list of parsed addresses.
pub open spec fn parts_views(s: Seq<Option<UrlParts>>) -> Seq<Option<UrlPartsView>> {
    s.map_values(
        |o: Option<UrlParts>|
            match o {
                Some(p) => Some(p@),
                None => None,
            },
    )
}

/// The serialized form of a parsed address.
pub open spec fn href_of(o: Option<UrlPartsView>) -> Seq<char> {
    match o {
        Some(p) => p.0,
        None => Seq::empty(),
    }
}

/// Every address parsed: their serialized forms, else `InvalidImageUrl`.
pub open spec fn parsed_addresses(s: Seq<Option<UrlPartsView>>) -> Result<Seq<Seq<char>>, ExtractError> {
    if exists|i: int| 0 <= i < s.len() && #[trigger] s[i] is None {
        Err(ExtractError::InvalidImageUrl)
    } else {
        Ok(s.map_values(|o: Option<UrlPartsView>| href_of(o)))
    }
}

/// The addresses of `r` checked and written out by the URL parser; an
/// earlier error stays.
pub open spec fn checked_addresses(r: Result<Seq<Seq<char>>, ExtractError>) -> Result<
    Seq<Seq<char>>,
    ExtractError,
> {
    match r {
        Err(e) => Err(e),
        Ok(raws) => parsed_addresses(raws.map_values(|a: Seq<char>| url_parts_of(a))),
    }
}

/// The image addresses of a paginated page.
pub open spec fn paginated_urls(m: Seq<char>) -> Result<Seq<Seq<char>>, ExtractError> {
    checked_addresses(listed_addresses(m))
}

/// The image addresses of a cascade page.
pub open spec fn cascade_urls(m: Seq<char>) -> Result<Seq<Seq<char>>, ExtractError> {
    checked_addresses(all_sources(selected_attr(m, viewer_img_selector(), image_src_attr())))
}

/// The image addresses of a viewer page in the layout that it is taken to have.
pub open spec fn image_urls(m: Seq<char>) -> Result<Seq<Seq<char>>, ExtractError> {
    match format_of(m) {
        ViewerFormat::Paginated => paginated_urls(m),
        ViewerFormat::Cascade => cascade_urls(m),
    }
}

/// The view of an extraction result.
pub open spec fn urls_view(r: Result<Vec<String>, ExtractError>) -> Result<Seq<Seq<char>>, ExtractError> {
    match r {
        Ok(v) => Ok(views_of(v@)),
        Err(e) => Err(e),
    }
}

/// The string `base` followed by `name`.
fn joined(base: &Vec<char>, name: &Vec<char>) -> (r: String)
    ensures
        r@ == base@ + name@,
{
    let mut r = String::new();
    let mut i: usize = 0;
    while i < base.len()
        invariant
            i <= base@.len(),
            r@ == base@.take(i as int),
        decreases base.len() - i,
    {
        push_char(&mut r, base[i]);
        assert(base@.take(i + 1) =~= base@.take(i as int).push(base@[i as int]));
        i = i + 1;
    }
    assert(base@.take(i as int) =~= base@);
    let mut j: usize = 0;
    while j < name.len()
        invariant
            j <= name@.len(),
            r@ == base@ + name@.take(j as int),
        decreases name.len() - j,
    {
        push_char(&mut r, name[j]);
        assert(name@.take(j + 1) =~= name@.take(j as int).push(name@[j as int]));
        assert(base@ + name@.take(j + 1) =~= (base@ + name@.take(j as int)).push(name@[j as int]));
        j = j + 1;
    }
    assert(name@.take(j as int) =~= name@);
    r
}

impl ChapterParser {
    /// The layout of a viewer page: paginated exactly when the directory
    /// marker occurs in it.
    pub fn detect(html: &str) -> (r: ViewerFormat)
        ensures
            r == format_of(html@),
    {
        let m = chars_of(html);
        let marker = chars_of("var dirPath = '");
        match find_chars(&m, &marker, 0) {
            Some(_) => ViewerFormat::Paginated,
            None => ViewerFormat::Cascade,
        }
    }

    /// The page-image addresses of a viewer page, in page order.
    pub fn get_images(html: &str) -> (r: Result<Vec<String>, ExtractError>)
        ensures
            urls_view(r) == image_urls(html@),
    {
        match Self::detect(html) {
            ViewerFormat::Paginated => Self::paginated(html),
            ViewerFormat::Cascade => Self::cascade(html),
        }
    }

    /// The page-image addresses of a page in the paginated layout, each
    /// checked and written out by the URL parser.
    pub fn paginated(html: &str) -> (r: Result<Vec<String>, ExtractError>)
        ensures
            urls_view(r) == paginated_urls(html@),
    {
        match Self::read_listed_addresses(html) {
            Ok(raws) => Self::check_addresses(&raws),
            Err(e) => Err(e),
        }
    }

    /// The image addresses that a paginated page lists, as written.
    fn read_listed_addresses(html: &str) -> (r: Result<Vec<String>, ExtractError>)
        ensures
            urls_view(r) == listed_addresses(html@),
    {
        let m = chars_of(html);
        let dir = chars_of("var dirPath = '");
        let quote = chars_of("'");
        let start = chars_of("JSON.parse('[");
        let end = chars_of("]');");
        let n = m.len();
        let a = match find_chars(&m, &dir, 0) {
            Some(a) => a,
            None => return Err(ExtractError::MarkerNotFound),
        };
        proof {
            lemma_find_from_occurs(m@, dir@, 0, a as int);
            assert(a + dir@.len() <= n);
        }
        let b0 = a + dir.len();
        let b = match find_chars(&m, &quote, b0) {
            Some(b) => b,
            None => return Err(ExtractError::MarkerNotFound),
        };
        proof { lemma_find_from_occurs(m@, quote@, b0 as int, b as int); }
        let c = match find_chars(&m, &start, 0) {
            Some(c) => c,
            None => return Err(ExtractError::MarkerNotFound),
        };
        proof { lemma_find_from_occurs(m@, start@, 0, c as int); }
        let c0 = c + start.len();
        let e = match find_chars(&m, &end, c0) {
            Some(e) => e,
            None => return Err(ExtractError::MarkerNotFound),
        };
        proof { lemma_find_from_occurs(m@, end@, c0 as int, e as int); }
        assert(b0 <= b && c0 <= e);
        let mut base: Vec<char> = Vec::new();
        let mut k: usize = b0;
        while k < b
            invariant
                b0 <= k <= b <= m@.len(),
                base@ == m@.subrange(b0 as int, k as int),
            decreases b - k,
        {
            base.push(m[k]);
            assert(m@.subrange(b0 as int, k + 1) =~= m@.subrange(b0 as int, k as int).push(m@[k as int]));
            k = k + 1;
        }
        let ghost list = m@.subrange(c0 as int, e as int);
        let mut names: Vec<Vec<char>> = Vec::new();
        let mut cur: Vec<char> = Vec::new();
        let mut i: usize = c0;
        assert(list.subrange(0, 0) =~= Seq::<char>::empty());
        while i < e
            invariant
                c0 <= i <= e <= m@.len(),
                list == m@.subrange(c0 as int, e as int),
                names@.map_values(|v: Vec<char>| v@).push(cur@) == split_on(
                    strip_char(m@.subrange(c0 as int, i as int), '"'),
                    ',',
                ),
            decreases e - i,
        {
            let ch = m[i];
            let ghost before = m@.subrange(c0 as int, i as int);
            let ghost after = m@.subrange(c0 as int, i + 1);
            assert(after.drop_last() =~= before);
            assert(after.last() == ch);
            if ch == '"' {
                assert(strip_char(after, '"') == strip_char(before, '"'));
            } else if ch == ',' {
                assert(strip_char(after, '"') == strip_char(before, '"').push(ch));
                assert(strip_char(after, '"').drop_last() =~= strip_char(before, '"'));
                let ghost old_names = names@.map_values(|v: Vec<char>| v@);
                names.push(cur);
                cur = Vec::new();
                assert(names@.map_values(|v: Vec<char>| v@) =~= old_names.push(
                    names@[names@.len() - 1]@,
                ));
                assert(names@.map_values(|v: Vec<char>| v@).push(cur@) =~= split_on(
                    strip_char(after, '"'),
                    ',',
                ));
            } else {
                let ghost p = split_on(strip_char(before, '"'), ',');
                assert(strip_char(after, '"') == strip_char(before, '"').push(ch));
                assert(strip_char(after, '"').drop_last() =~= strip_char(before, '"'));
                cur.push(ch);
                assert(names@.map_values(|v: Vec<char>| v@).push(cur@) =~= p.update(
                    p.len() - 1,
                    p.last().push(ch),
                ));
            }
            i = i + 1;
        }
        names.push(cur);
        let ghost pieces = split_on(strip_char(list, '"'), ',');
        assert(names@.map_values(|v: Vec<char>| v@) =~= pieces);
        let mut urls: Vec<String> = Vec::new();
        let mut j: usize = 0;
        while j < names.len()
            invariant
                j <= names@.len(),
                names@.map_values(|v: Vec<char>| v@) == pieces,
                b0 <= b <= m@.len(),
                base@ == m@.subrange(b0 as int, b as int),
                views_of(urls@) == prefixed(base@, pieces.take(j as int)),
            decreases names.len() - j,
        {
            let u = joined(&base, &names[j]);
            let ghost before = views_of(urls@);
            let ghost uv = u@;
            urls.push(u);
            assert(pieces[j as int] == names@[j as int]@);
            assert(views_of(urls@) =~= before.push(uv));
            assert(prefixed(base@, pieces.take(j + 1)) =~= prefixed(base@, pieces.take(j as int)).push(
                base@ + pieces[j as int],
            ));
            j = j + 1;
        }
        assert(pieces.take(j as int) =~= pieces);
        Ok(urls)
    }

    /// The page-image addresses of a page in the cascade layout: the
    /// `data-src` of every viewer image, in the order the parser created them, each checked and
    /// written out by the URL parser.
    pub fn cascade(html: &str) -> (r: Result<Vec<String>, ExtractError>)
        ensures
            urls_view(r) == cascade_urls(html@),
    {
        let srcs = select_attr(html, "img.viewer-img", "data-src");
        match Self::urls_from_sources(&srcs) {
            Ok(raws) => Self::check_addresses(&raws),
            Err(e) => Err(e),
        }
    }

    /// Each address run through the URL parser.
    fn check_addresses(raws: &Vec<String>) -> (r: Result<Vec<String>, ExtractError>)
        ensures
            urls_view(r) == parsed_addresses(
                views_of(raws@).map_values(|a: Seq<char>| url_parts_of(a)),
            ),
    {
        let ghost target = views_of(raws@).map_values(|a: Seq<char>| url_parts_of(a));
        let mut parsed: Vec<Option<UrlParts>> = Vec::new();
        let mut i: usize = 0;
        while i < raws.len()
            invariant
                i <= raws@.len(),
                target == views_of(raws@).map_values(|a: Seq<char>| url_parts_of(a)),
                parts_views(parsed@) == target.take(i as int),
            decreases raws.len() - i,
        {
            let ghost before = parts_views(parsed@);
            let p = parse_url_parts(raws[i].as_str());
            let ghost pv = match &p {
                Some(q) => Some(q@),
                None => None,
            };
            parsed.push(p);
            assert(parts_views(parsed@) =~= before.push(pv));
            assert(target.take(i + 1) =~= target.take(i as int).push(target[i as int]));
            i = i + 1;
        }
        assert(target.take(i as int) =~= target);
        Self::addresses_from_parsed(&parsed)
    }

    /// The serialized forms of parsed addresses, in order; an address that
    /// did not parse gives `InvalidImageUrl`.
    pub fn addresses_from_parsed(parsed: &Vec<Option<UrlParts>>) -> (r: Result<Vec<String>, ExtractError>)
        ensures
            urls_view(r) == parsed_addresses(parts_views(parsed@)),
    {
        let ghost s = parts_views(parsed@);
        let mut urls: Vec<String> = Vec::new();
        let mut i: usize = 0;
        while i < parsed.len()
            invariant
                i <= parsed@.len(),
                s == parts_views(parsed@),
                forall|k: int| 0 <= k < i ==> #[trigger] s[k] is Some,
                views_of(urls@) == s.take(i as int).map_values(|o: Option<UrlPartsView>| href_of(o)),
            decreases parsed.len() - i,
        {
            match &parsed[i] {
                Some(p) => {
                    let ghost before = views_of(urls@);
                    urls.push(p.href.clone());
                    assert(s[i as int] == Some(p@));
                    assert(views_of(urls@) =~= before.push(p.href@));
                    assert(s.take(i + 1).map_values(|o: Option<UrlPartsView>| href_of(o)) =~= s.take(
                        i as int,
                    ).map_values(|o: Option<UrlPartsView>| href_of(o)).push(p.href@));
                },
                None => {
                    assert(s[i as int] is None);
                    return Err(ExtractError::InvalidImageUrl);
                },
            }
            i = i + 1;
        }
        assert(s.take(i as int) =~= s);
        Ok(urls)
    }

    /// The addresses read from the viewer images, in order; an image without
    /// an address gives `MissingImageSrc`.
    pub fn urls_from_sources(srcs: &Vec<Option<String>>) -> (r: Result<Vec<String>, ExtractError>)
        ensures
            urls_view(r) == all_sources(opt_views_of(srcs@)),
    {
        let ghost s = opt_views_of(srcs@);
        let mut urls: Vec<String> = Vec::new();
        let mut i: usize = 0;
        while i < srcs.len()
            invariant
                i <= srcs@.len(),
                s == opt_views_of(srcs@),
                forall|k: int| 0 <= k < i ==> #[trigger] s[k] is Some,
                views_of(urls@) == s.take(i as int).map_values(|o: Option<Seq<char>>| o->0),
            decreases srcs.len() - i,
        {
            match &srcs[i] {
                Some(u) => {
                    let ghost before = views_of(urls@);
                    urls.push(u.clone());
                    assert(s[i as int] == Some(u@));
                    assert(views_of(urls@) =~= before.push(u@));
                    assert(s.take(i + 1).map_values(|o: Option<Seq<char>>| o->0) =~= s.take(
                        i as int,
                    ).map_values(|o: Option<Seq<char>>| o->0).push(u@));
                },
                None => {
                    assert(s[i as int] is None);
                    return Err(ExtractError::MissingImageSrc);
                },
            }
            i = i + 1;
        }
        assert(s.take(i as int) =~= s);
        Ok(urls)
    }
}

/// The page-image addresses of a page in the paginated layout.
pub fn html_paginated_json(html: &str) -> (r: Result<Vec<String>, ExtractError>)
    ensures
        urls_view(r) == paginated_urls(html@),
{
    ChapterParser::paginated(html)
}

} // verus!
