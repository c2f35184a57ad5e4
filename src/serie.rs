//! The catalog model and the catalog parser: title, chapters in ascending
//! order, and the providers of each chapter.
use crate::markup::{select_attr, select_html, select_text, selected_attr, selected_html, selected_text};
use crate::text::{opt_views_of, parse_decimal, parse_unsigned, trim, trimmed};
use vstd::prelude::*;

verus! {

/// What is known of a catalog from the address it was given by.
#[derive(Debug, Clone)]
pub struct SerieUrlInfo {
    /// The catalog page's address; empty when only the id was given.
    pub url: String,
    /// The catalog's numeric id.
    pub index: u32,
    /// The catalog's slug; empty when only the id was given.
    pub slug: String,
    /// The catalog holds a single, implicit chapter.
    pub is_oneshot: bool,
}

/// A parsed catalog.
#[derive(Debug)]
pub struct Serie {
    pub url_info: SerieUrlInfo,
    pub title: String,
    /// Chapters in ascending order.
    pub chapters: Vec<Chapter>,
}

/// One chapter of a catalog.
#[derive(Debug)]
pub struct Chapter {
    /// Major and minor chapter number.
    pub number: (u32, u32),
    pub name: String,
    pub providers: Vec<Provider>,
}

/// One hosted rendering of a chapter.
#[derive(Debug)]
pub struct Provider {
    /// Name of the group that published it.
    pub scan: String,
    /// Address of its viewer page.
    pub link: String,
}

/// Why a catalog page or one of its provider entries could not be read.
#[derive(Debug, Clone, Copy, PartialEq, Eq, Structural)]
pub enum SerieParseError {
    /// The page title, or a chapter heading or its number, is missing.
    MissingTitle,
    /// A provider entry lacks its group name or its link.
    MissingScan,
}

/// What a `SerieUrlInfo` holds.
pub ghost struct UrlInfoView {
    pub url: Seq<char>,
    pub index: u32,
    pub slug: Seq<char>,
    pub is_oneshot: bool,
}

/// What a `Provider` holds.
pub ghost struct ProviderView {
    pub scan: Seq<char>,
    pub link: Seq<char>,
}

/// What a `Chapter` holds.
pub ghost struct ChapterView {
    pub number: (u32, u32),
    pub name: Seq<char>,
    pub providers: Seq<ProviderView>,
}

/// What a `Serie` holds.
pub ghost struct SerieView {
    pub url_info: UrlInfoView,
    pub title: Seq<char>,
    pub chapters: Seq<ChapterView>,
}

impl View for SerieUrlInfo {
    type V = UrlInfoView;

    open spec fn view(&self) -> UrlInfoView {
        UrlInfoView { url: self.url@, index: self.index, slug: self.slug@, is_oneshot: self.is_oneshot }
    }
}

impl View for Provider {
    type V = ProviderView;

    open spec fn view(&self) -> ProviderView {
        ProviderView { scan: self.scan@, link: self.link@ }
    }
}

/// The views of a list of providers.
pub open spec fn providers_view(v: Seq<Provider>) -> Seq<ProviderView> {
    v.map_values(|p: Provider| p@)
}

impl View for Chapter {
    type V = ChapterView;

    open spec fn view(&self) -> ChapterView {
        ChapterView { number: self.number, name: self.name@, providers: providers_view(self.providers@) }
    }
}

/// The views of a list of chapters.
pub open spec fn chapters_view(v: Seq<Chapter>) -> Seq<ChapterView> {
    v.map_values(|c: Chapter| c@)
}

impl View for Serie {
    type V = SerieView;

    open spec fn view(&self) -> SerieView {
        SerieView { url_info: self.url_info@, title: self.title@, chapters: chapters_view(self.chapters@) }
    }
}

/// Selector of the page title.
pub open spec fn title_selector() -> Seq<char> {
    "h1.element-title"@
}

/// Selector of a provider entry.
pub open spec fn provider_selector() -> Seq<char> {
    "li.list-group-item"@
}

/// Selector of a provider entry inside a chapter entry; the chapter entry
/// itself never matches it.
pub open spec fn chapter_provider_selector() -> Seq<char> {
    "li.upload-link li.list-group-item"@
}

/// Selector of a chapter entry of a multi-chapter catalog.
pub open spec fn chapter_selector() -> Seq<char> {
    "div#chapters li.upload-link"@
}

/// Selector of a chapter heading inside a chapter entry.
pub open spec fn heading_selector() -> Seq<char> {
    "h4 a"@
}

/// Pattern of a chapter heading: the word, whitespace, then major and minor
/// number around a dot.
pub open spec fn heading_pattern() -> Seq<char> {
    "Cap\u{ed}tulo\\s+(\\d+)\\.(\\d+)"@
}

/// The first entry, or `None` for an empty list.
pub open spec fn first_of(s: Seq<Option<Seq<char>>>) -> Option<Seq<char>> {
    if s.len() > 0 {
        s[0]
    } else {
        None
    }
}

/// The last entry, or `None` for an empty list.
pub open spec fn last_of(s: Seq<Option<Seq<char>>>) -> Option<Seq<char>> {
    if s.len() > 0 {
        s.last()
    } else {
        None
    }
}

/// The title: the trimmed first text of the first title element.
pub open spec fn title_of(texts: Seq<Option<Seq<char>>>) -> Result<Seq<char>, SerieParseError> {
    match first_of(texts) {
        Some(t) => Ok(trimmed(t)),
        None => Err(SerieParseError::MissingTitle),
    }
}

/// A provider from its group-name text and its link, both required.
pub open spec fn provider_of(scan: Option<Seq<char>>, link: Option<Seq<char>>) -> Result<
    ProviderView,
    SerieParseError,
> {
    match (scan, link) {
        (Some(s), Some(l)) => Ok(ProviderView { scan: trimmed(s), link: l }),
        _ => Err(SerieParseError::MissingScan),
    }
}

/// Provider entry of a oneshot catalog: name from the first `span`, link
/// from the first anchor.
pub open spec fn oneshot_provider(frag: Seq<char>) -> Result<ProviderView, SerieParseError> {
    provider_of(
        first_of(selected_text(frag, "span"@)),
        first_of(selected_attr(frag, "a"@, "href"@)),
    )
}

/// Provider entry of a multi-chapter catalog: name from the first anchor,
/// link from the last one.
pub open spec fn serie_provider(frag: Seq<char>) -> Result<ProviderView, SerieParseError> {
    provider_of(
        first_of(selected_text(frag, "a"@)),
        last_of(selected_attr(frag, "a"@, "href"@)),
    )
}

/// The successes of a list of results, in order; failures are dropped.
pub open spec fn keep_ok(s: Seq<Result<ProviderView, SerieParseError>>) -> Seq<ProviderView>
    decreases s.len(),
{
    if s.len() == 0 {
        Seq::empty()
    } else {
        match s.last() {
            Ok(p) => keep_ok(s.drop_last()).push(p),
            Err(_) => keep_ok(s.drop_last()),
        }
    }
}

/// The providers read from provider entries, with the rule of a oneshot or
/// of a multi-chapter catalog.
pub open spec fn providers_of(frags: Seq<Seq<char>>, oneshot: bool) -> Seq<ProviderView> {
    if oneshot {
        keep_ok(frags.map_values(|f: Seq<char>| oneshot_provider(f)))
    } else {
        keep_ok(frags.map_values(|f: Seq<char>| serie_provider(f)))
    }
}

/// The first two capture groups of the leftmost match of a regular
/// expression.
pub uninterp spec fn captures_of(pattern: Seq<char>, text: Seq<char>) -> Option<(Seq<char>, Seq<char>)>;

/// Major and minor number from the two captured groups, each an unsigned
/// 32-bit number.
pub open spec fn number_of(groups: Option<(Seq<char>, Seq<char>)>) -> Option<(u32, u32)> {
    match groups {
        Some((a, b)) => match (parse_unsigned(a, u32::MAX as nat), parse_unsigned(b, u32::MAX as nat)) {
            (Some(x), Some(y)) => Some((x as u32, y as u32)),
            _ => None,
        },
        None => None,
    }
}

/// A chapter entry of a multi-chapter catalog.
pub open spec fn chapter_of(frag: Seq<char>) -> Result<ChapterView, SerieParseError> {
    match first_of(selected_text(frag, heading_selector())) {
        None => Err(SerieParseError::MissingTitle),
        Some(t) => {
            let name = trimmed(t);
            match number_of(captures_of(heading_pattern(), name)) {
                None => Err(SerieParseError::MissingTitle),
                Some(number) => Ok(
                    ChapterView {
                        number,
                        name,
                        providers: providers_of(selected_html(frag, chapter_provider_selector()), false),
                    },
                ),
            }
        },
    }
}

/// The chapters of a list of chapter entries, taken from the last entry to
/// the first; any entry that fails fails the whole list.
pub open spec fn chapters_of(frags: Seq<Seq<char>>) -> Result<Seq<ChapterView>, SerieParseError>
    decreases frags.len(),
{
    if frags.len() == 0 {
        Ok(Seq::empty())
    } else {
        match chapter_of(frags.last()) {
            Err(e) => Err(e),
            Ok(c) => match chapters_of(frags.drop_last()) {
                Err(e) => Err(e),
                Ok(rest) => Ok(seq![c] + rest),
            },
        }
    }
}

/// The catalog that a page describes. A multi-chapter page must list at
/// least one chapter; a catalog always has one.
pub open spec fn serie_of(info: UrlInfoView, markup: Seq<char>) -> Result<SerieView, SerieParseError> {
    match title_of(selected_text(markup, title_selector())) {
        Err(e) => Err(e),
        Ok(title) => if info.is_oneshot {
            Ok(
                SerieView {
                    url_info: info,
                    title,
                    chapters: seq![
                        ChapterView {
                            number: (0, 0),
                            name: title,
                            providers: providers_of(selected_html(markup, provider_selector()), true),
                        },
                    ],
                },
            )
        } else {
            match chapters_of(selected_html(markup, chapter_selector())) {
                Err(e) => Err(e),
                Ok(chapters) => if chapters.len() == 0 {
                    Err(SerieParseError::MissingTitle)
                } else {
                    Ok(SerieView { url_info: info, title, chapters })
                },
            }
        },
    }
}

/// A page without a title element fails with `MissingTitle`.
pub proof fn lemma_missing_title(info: UrlInfoView, markup: Seq<char>)
    requires
        selected_text(markup, title_selector()).len() == 0,
    ensures
        serie_of(info, markup) == Err::<SerieView, _>(SerieParseError::MissingTitle),
{
}

/// A oneshot catalog has exactly one chapter, numbered `(0, 0)` and named
/// after the title, however many provider entries the page holds; it parses
/// exactly when the page has a title.
pub proof fn lemma_oneshot_single_chapter(info: UrlInfoView, markup: Seq<char>)
    requires
        info.is_oneshot,
    ensures
        serie_of(info, markup) is Ok <==> first_of(selected_text(markup, title_selector())) is Some,
        serie_of(info, markup) matches Ok(s) ==> s.chapters.len() == 1 && s.chapters[0].number == (
        0u32, 0u32) && s.chapters[0].name == s.title,
{
}

/// Chapter number `a` comes no later than `b`: by major, then by minor number.
pub open spec fn number_le(a: (u32, u32), b: (u32, u32)) -> bool {
    a.0 < b.0 || (a.0 == b.0 && a.1 <= b.1)
}

/// The chapters of a list of entries are those of the entries, last first.
pub proof fn lemma_chapters_reversed(frags: Seq<Seq<char>>, cs: Seq<ChapterView>)
    requires
        chapters_of(frags) == Ok::<_, SerieParseError>(cs),
    ensures
        cs.len() == frags.len(),
        forall|k: int|
            0 <= k < cs.len() ==> chapter_of(#[trigger] frags[frags.len() - 1 - k]) == Ok::<
                _,
                SerieParseError,
            >(cs[k]),
    decreases frags.len(),
{
    if frags.len() > 0 {
        let d = frags.drop_last();
        let rest = chapters_of(d)->Ok_0;
        lemma_chapters_reversed(d, rest);
        assert forall|k: int| 0 <= k < cs.len() implies chapter_of(
            #[trigger] frags[frags.len() - 1 - k],
        ) == Ok::<_, SerieParseError>(cs[k]) by {
            if k > 0 {
                assert(cs[k] == rest[k - 1]);
                assert(frags[frags.len() - 1 - k] == d[d.len() - 1 - (k - 1)]);
            }
        }
    }
}

/// When a multi-chapter page lists its chapters newest first, the parsed
/// catalog holds them in ascending order of number.
pub proof fn lemma_descending_page_ascending_chapters(info: UrlInfoView, markup: Seq<char>)
    requires
        !info.is_oneshot,
        serie_of(info, markup) is Ok,
        forall|i: int, j: int|
            0 <= i < j < selected_html(markup, chapter_selector()).len() ==> number_le(
                (#[trigger] chapter_of(selected_html(markup, chapter_selector())[j]))->Ok_0.number,
                (#[trigger] chapter_of(selected_html(markup, chapter_selector())[i]))->Ok_0.number,
            ),
    ensures
        forall|i: int, j: int|
            0 <= i < j < serie_of(info, markup)->Ok_0.chapters.len() ==> number_le(
                (#[trigger] serie_of(info, markup)->Ok_0.chapters[i]).number,
                (#[trigger] serie_of(info, markup)->Ok_0.chapters[j]).number,
            ),
{
    let frags = selected_html(markup, chapter_selector());
    let cs = serie_of(info, markup)->Ok_0.chapters;
    lemma_chapters_reversed(frags, cs);
    let n = frags.len();
    assert forall|i: int, j: int| 0 <= i < j < cs.len() implies number_le(
        (#[trigger] cs[i]).number,
        (#[trigger] cs[j]).number,
    ) by {
        assert(chapter_of(frags[n - 1 - i]) == Ok::<_, SerieParseError>(cs[i]));
        assert(chapter_of(frags[n - 1 - j]) == Ok::<_, SerieParseError>(cs[j]));
        assert(number_le(
            chapter_of(frags[n - 1 - i])->Ok_0.number,
            chapter_of(frags[n - 1 - j])->Ok_0.number,
        ));
    }
}

/// The view of a parse result.
pub open spec fn result_view<T: View>(r: Result<T, SerieParseError>) -> Result<T::V, SerieParseError> {
    match r {
        Ok(v) => Ok(v@),
        Err(e) => Err(e),
    }
}

/// Relies on regex's `Regex::new`, `Regex::captures` and `Captures::get`: the
/// text of groups 1 and 2 of the leftmost match of `pattern` in `text`;
/// `None` when the pattern does not compile, nothing matches, or a group did
/// not take part in the match.
#[verifier::external_body]
fn capture_pair(pattern: &str, text: &str) -> (r: Option<(String, String)>)
    ensures
        match r {
            Some((a, b)) => captures_of(pattern@, text@) == Some((a@, b@)),
            None => captures_of(pattern@, text@) is None,
        },
{
    let re = regex::Regex::new(pattern).ok()?;
    let caps = re.captures(text)?;
    Some((caps.get(1)?.as_str().to_string(), caps.get(2)?.as_str().to_string()))
}

impl Provider {
    /// A provider from its group-name text and link; either missing gives
    /// `MissingScan`. The name is trimmed.
    pub fn from_parts(scan: &Option<String>, link: &Option<String>) -> (r: Result<Provider, SerieParseError>)
        ensures
            result_view(r) == provider_of(crate::text::opt_view(*scan), crate::text::opt_view(*link)),
    {
        match (scan, link) {
            (Some(s), Some(l)) => Ok(Provider { scan: trim(s.as_str()), link: l.clone() }),
            _ => Err(SerieParseError::MissingScan),
        }
    }

    /// A provider entry of a oneshot catalog: group name from the first
    /// `span`, link from the first anchor.
    pub fn from_oneshot_provider_fragment(frag: &str) -> (r: Result<Provider, SerieParseError>)
        ensures
            result_view(r) == oneshot_provider(frag@),
    {
        let spans = select_text(frag, "span");
        let hrefs = select_attr(frag, "a", "href");
        let scan = first(&spans);
        let link = first(&hrefs);
        Self::from_parts(&scan, &link)
    }

    /// A provider entry of a multi-chapter catalog: group name from the
    /// first anchor, link from the last one.
    pub fn from_serie_provider_fragment(frag: &str) -> (r: Result<Provider, SerieParseError>)
        ensures
            result_view(r) == serie_provider(frag@),
    {
        let texts = select_text(frag, "a");
        let hrefs = select_attr(frag, "a", "href");
        let scan = first(&texts);
        let link = last(&hrefs);
        Self::from_parts(&scan, &link)
    }
}

/// The providers read from provider entries, in order, with the rule of a
/// oneshot or of a multi-chapter catalog; entries that fail are dropped.
pub fn providers_from_fragments(frags: &Vec<String>, oneshot: bool) -> (r: Vec<Provider>)
    ensures
        providers_view(r@) == providers_of(crate::text::views_of(frags@), oneshot),
{
    let ghost fs = crate::text::views_of(frags@);
    let ghost rs = if oneshot {
        fs.map_values(|f: Seq<char>| oneshot_provider(f))
    } else {
        fs.map_values(|f: Seq<char>| serie_provider(f))
    };
    let mut out: Vec<Provider> = Vec::new();
    let mut i: usize = 0;
    while i < frags.len()
        invariant
            i <= frags@.len(),
            fs == crate::text::views_of(frags@),
            rs.len() == fs.len(),
            forall|k: int|
                0 <= k < fs.len() ==> #[trigger] rs[k] == (if oneshot {
                    oneshot_provider(fs[k])
                } else {
                    serie_provider(fs[k])
                }),
            providers_view(out@) == keep_ok(rs.take(i as int)),
        decreases frags.len() - i,
    {
        let p = if oneshot {
            Provider::from_oneshot_provider_fragment(frags[i].as_str())
        } else {
            Provider::from_serie_provider_fragment(frags[i].as_str())
        };
        assert(rs.take(i + 1).drop_last() =~= rs.take(i as int));
        assert(fs[i as int] == frags@[i as int]@);
        match p {
            Ok(p) => {
                let ghost before = providers_view(out@);
                let ghost pv = p@;
                out.push(p);
                assert(providers_view(out@) =~= before.push(pv));
            },
            Err(_) => {},
        }
        i = i + 1;
    }
    assert(rs.take(i as int) =~= rs);
    out
}

/// Major and minor number from the two groups captured from a chapter
/// heading; `None` unless both are unsigned 32-bit numbers.
pub fn chapter_number(groups: &Option<(String, String)>) -> (r: Option<(u32, u32)>)
    ensures
        r == number_of(
            match groups {
                Some((a, b)) => Some((a@, b@)),
                None => None,
            },
        ),
{
    match groups {
        Some((a, b)) => {
            let x = parse_decimal(a.as_str(), 4294967295);
            let y = parse_decimal(b.as_str(), 4294967295);
            match (x, y) {
                (Some(x), Some(y)) => Some((x as u32, y as u32)),
                _ => None,
            }
        },
        None => None,
    }
}

impl Chapter {
    /// A chapter entry of a multi-chapter catalog: its heading, the number in
    /// the heading, and its providers.
    pub fn from_fragment(frag: &str) -> (r: Result<Chapter, SerieParseError>)
        ensures
            result_view(r) == chapter_of(frag@),
    {
        let texts = select_text(frag, "h4 a");
        let heading = match first(&texts) {
            Some(t) => t,
            None => return Err(SerieParseError::MissingTitle),
        };
        let name = trim(heading.as_str());
        let groups = capture_pair("Cap\u{ed}tulo\\s+(\\d+)\\.(\\d+)", name.as_str());
        let number = match chapter_number(&groups) {
            Some(n) => n,
            None => return Err(SerieParseError::MissingTitle),
        };
        let frags = select_html(frag, "li.upload-link li.list-group-item");
        let providers = providers_from_fragments(&frags, false);
        Ok(Chapter { number, name, providers })
    }
}

/// The chapters left to add in front of those already read.
pub open spec fn prepend(
    done: Seq<ChapterView>,
    rest: Result<Seq<ChapterView>, SerieParseError>,
) -> Result<Seq<ChapterView>, SerieParseError> {
    match rest {
        Ok(r) => Ok(done + r),
        Err(e) => Err(e),
    }
}

/// The chapters of the chapter entries, from the last entry to the first.
pub fn chapters_from_fragments(frags: &Vec<String>) -> (r: Result<Vec<Chapter>, SerieParseError>)
    ensures
        match r {
            Ok(v) => chapters_of(crate::text::views_of(frags@)) == Ok::<_, SerieParseError>(chapters_view(v@)),
            Err(e) => chapters_of(crate::text::views_of(frags@)) == Err::<Seq<ChapterView>, _>(e),
        },
{
    let ghost fs = crate::text::views_of(frags@);
    let mut out: Vec<Chapter> = Vec::new();
    let mut i: usize = frags.len();
    assert(fs.take(i as int) =~= fs);
    assert(Seq::<ChapterView>::empty() + Seq::<ChapterView>::empty() =~= Seq::<ChapterView>::empty());
    proof {
        match chapters_of(fs) {
            Ok(r) => assert(Seq::<ChapterView>::empty() + r =~= r),
            Err(_) => {},
        }
    }
    while i > 0
        invariant
            i <= frags@.len(),
            fs == crate::text::views_of(frags@),
            chapters_of(fs) == prepend(chapters_view(out@), chapters_of(fs.take(i as int))),
        decreases i,
    {
        let ghost t = fs.take(i as int);
        assert(t.drop_last() =~= fs.take(i - 1));
        assert(t.last() == frags@[i - 1]@);
        let c = Chapter::from_fragment(frags[i - 1].as_str());
        match c {
            Ok(c) => {
                let ghost before = chapters_view(out@);
                let ghost cv = c@;
                out.push(c);
                assert(chapters_view(out@) =~= before.push(cv));
                proof {
                    match chapters_of(fs.take(i - 1)) {
                        Ok(r) => assert(before + (seq![cv] + r) =~= before.push(cv) + r),
                        Err(_) => {},
                    }
                }
            },
            Err(e) => {
                return Err(e);
            },
        }
        i = i - 1;
    }
    assert(fs.take(0) =~= Seq::<Seq<char>>::empty());
    assert(chapters_view(out@) + Seq::<ChapterView>::empty() =~= chapters_view(out@));
    Ok(out)
}

impl Serie {
    /// The title from the texts of the title elements: the first one,
    /// trimmed; `MissingTitle` when there is none.
    pub fn title_from_texts(texts: &Vec<Option<String>>) -> (r: Result<String, SerieParseError>)
        ensures
            match r {
                Ok(t) => title_of(opt_views_of(texts@)) == Ok::<_, SerieParseError>(t@),
                Err(e) => title_of(opt_views_of(texts@)) == Err::<Seq<char>, _>(e),
            },
    {
        match first(texts) {
            Some(t) => Ok(trim(t.as_str())),
            None => Err(SerieParseError::MissingTitle),
        }
    }

    /// The catalog that a catalog page describes. A oneshot catalog gets one
    /// chapter numbered `(0, 0)` and named after the title; a multi-chapter
    /// one gets its chapters in the reverse of page order, and fails with
    /// `MissingTitle` when the page lists none.
    pub fn from_html(url_info: SerieUrlInfo, html: &str) -> (r: Result<Serie, SerieParseError>)
        ensures
            result_view(r) == serie_of(url_info@, html@),
            r is Ok ==> r->Ok_0.chapters@.len() >= 1,
    {
        let texts = select_text(html, "h1.element-title");
        let title = match Self::title_from_texts(&texts) {
            Ok(t) => t,
            Err(e) => return Err(e),
        };
        if url_info.is_oneshot {
            let frags = select_html(html, "li.list-group-item");
            let providers = providers_from_fragments(&frags, true);
            let name = title.clone();
            let chapters = vec![Chapter { number: (0, 0), name, providers }];
            let r = Serie { url_info, title, chapters };
            assert(r@.chapters =~= serie_of(url_info@, html@)->Ok_0.chapters);
            return Ok(r);
        }
        let frags = select_html(html, "div#chapters li.upload-link");
        match chapters_from_fragments(&frags) {
            Ok(chapters) => if chapters.len() == 0 {
                Err(SerieParseError::MissingTitle)
            } else {
                Ok(Serie { url_info, title, chapters })
            },
            Err(e) => Err(e),
        }
    }
}

/// A copy of the first entry of `v`, or `None` for an empty list.
fn first(v: &Vec<Option<String>>) -> (r: Option<String>)
    ensures
        crate::text::opt_view(r) == first_of(opt_views_of(v@)),
{
    if v.len() > 0 {
        v[0].clone()
    } else {
        None
    }
}

/// A copy of the last entry of `v`, or `None` for an empty list.
fn last(v: &Vec<Option<String>>) -> (r: Option<String>)
    ensures
        crate::text::opt_view(r) == last_of(opt_views_of(v@)),
{
    if v.len() > 0 {
        v[v.len() - 1].clone()
    } else {
        None
    }
}

} // verus!
