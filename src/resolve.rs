//! Turning a user's catalog reference, a numeric id or a catalog address,
//! into the identifier of the catalog.
use crate::serie::{SerieUrlInfo, UrlInfoView};
use crate::text::{opt_view, parse_decimal, parse_unsigned, same_text, views_of};
use vstd::prelude::*;

verus! {

/// The site whose catalog addresses are accepted: its host and the first
/// path segment of a catalog address.
#[derive(Debug, Clone)]
pub struct CatalogSite {
    pub domain: String,
    pub path_prefix: String,
}

impl CatalogSite {
    /// A site with the given host and catalog path prefix.
    pub fn new(domain: &str, path_prefix: &str) -> (r: CatalogSite)
        ensures
            r.domain@ == domain@,
            r.path_prefix@ == path_prefix@,
    {
        CatalogSite { domain: String::from_str(domain), path_prefix: String::from_str(path_prefix) }
    }

    /// The catalog site used by default.
    pub fn default_site() -> (r: CatalogSite)
        ensures
            r.domain@ == "zonatmo.com"@,
            r.path_prefix@ == "library"@,
    {
        Self::new("zonatmo.com", "library")
    }
}

/// The kinds of catalog that an address may name.
#[derive(Debug, Clone, Copy, PartialEq, Eq, Structural)]
pub enum ContentKind {
    /// A work of many chapters.
    Manga,
    /// A work of a single chapter.
    OneShot,
}

/// Why a catalog reference was not accepted.
#[derive(Debug, Clone, Copy, PartialEq, Eq, Structural)]
pub enum ResolveError {
    /// Neither a number nor an address.
    InvalidUrl,
    /// An address on another host.
    InvalidHost,
    /// An address whose path is not `/<prefix>/<kind>/<id>/<slug>...`.
    MissingSegments,
    /// An address whose kind segment names no known kind.
    UnknownContentKind,
    /// An address whose id segment is not an unsigned 32-bit number.
    InvalidId,
}

/// The parts of a parsed address that the resolver reads.
#[derive(Debug)]
pub struct UrlParts {
    /// The address as the parser writes it out.
    pub href: String,
    /// Its host, if it has one.
    pub host: Option<String>,
    /// Its path segments, if it has a hierarchical path.
    pub segments: Option<Vec<String>>,
}

/// Address text, host and path segments of a parsed address.
pub type UrlPartsView = (Seq<char>, Option<Seq<char>>, Option<Seq<Seq<char>>>);

impl View for UrlParts {
    type V = UrlPartsView;

    open spec fn view(&self) -> UrlPartsView {
        (
            self.href@,
            opt_view(self.host),
            match self.segments {
                Some(v) => Some(views_of(v@)),
                None => None,
            },
        )
    }
}

/// What the URL parser makes of a text: `None` when it is no valid absolute
/// address.
pub uninterp spec fn url_parts_of(s: Seq<char>) -> Option<UrlPartsView>;

/// Relies on url's `Url::parse`, `Url::as_str`, `Url::host_str` and
/// `Url::path_segments`: the serialized address, its host and its path
/// segments, or `None` when the text does not parse.
#[verifier::external_body]
pub(crate) fn parse_url_parts(s: &str) -> (r: Option<UrlParts>)
    ensures
        match r {
            Some(p) => url_parts_of(s@) == Some(p@),
            None => url_parts_of(s@) is None,
        },
{
    let url = url::Url::parse(s).ok()?;
    Some(UrlParts {
        href: url.as_str().to_string(),
        host: url.host_str().map(|h| h.to_string()),
        segments: url.path_segments().map(|p| p.map(|x| x.to_string()).collect()),
    })
}

/// The kind that a path segment names.
pub open spec fn kind_of(seg: Seq<char>) -> Option<ContentKind> {
    if seg == "manga"@ {
        Some(ContentKind::Manga)
    } else if seg == "one_shot"@ {
        Some(ContentKind::OneShot)
    } else {
        None
    }
}

/// The catalog identifier that a parsed address names on `site`.
pub open spec fn resolve_parts(domain: Seq<char>, prefix: Seq<char>, p: UrlPartsView) -> Result<
    UrlInfoView,
    ResolveError,
> {
    if p.1 != Some(domain) {
        Err(ResolveError::InvalidHost)
    } else {
        match p.2 {
            None => Err(ResolveError::MissingSegments),
            Some(segs) => if segs.len() < 4 || segs[0] != prefix {
                Err(ResolveError::MissingSegments)
            } else {
                match kind_of(segs[1]) {
                    None => Err(ResolveError::UnknownContentKind),
                    Some(kind) => match parse_unsigned(segs[2], u32::MAX as nat) {
                        None => Err(ResolveError::InvalidId),
                        Some(id) => Ok(
                            UrlInfoView {
                                url: p.0,
                                index: id as u32,
                                slug: segs[3],
                                is_oneshot: kind == ContentKind::OneShot,
                            },
                        ),
                    },
                }
            },
        }
    }
}

/// The catalog identifier that a reference names: a bare unsigned 32-bit
/// number gives the id alone; anything else must be a catalog address.
pub open spec fn resolve_spec(domain: Seq<char>, prefix: Seq<char>, input: Seq<char>) -> Result<
    UrlInfoView,
    ResolveError,
> {
    match parse_unsigned(input, u32::MAX as nat) {
        Some(n) => Ok(UrlInfoView { url: Seq::empty(), index: n as u32, slug: Seq::empty(), is_oneshot: false }),
        None => match url_parts_of(input) {
            None => Err(ResolveError::InvalidUrl),
            Some(p) => resolve_parts(domain, prefix, p),
        },
    }
}

/// An address on the site whose path reads `/<prefix>/<kind>/<id>/<slug>`
/// resolves to exactly the number written in its id segment and to its slug
/// segment.
pub proof fn lemma_resolve_reads_path(domain: Seq<char>, prefix: Seq<char>, input: Seq<char>, p: UrlPartsView)
    requires
        parse_unsigned(input, u32::MAX as nat) is None,
        url_parts_of(input) == Some(p),
        p.1 == Some(domain),
        p.2 is Some,
        p.2->0.len() >= 4,
        p.2->0[0] == prefix,
        kind_of(p.2->0[1]) is Some,
        parse_unsigned(p.2->0[2], u32::MAX as nat) is Some,
    ensures
        resolve_spec(domain, prefix, input) is Ok,
        resolve_spec(domain, prefix, input)->Ok_0.index as nat == parse_unsigned(p.2->0[2], u32::MAX as nat)->0,
        resolve_spec(domain, prefix, input)->Ok_0.slug == p.2->0[3],
{
}

/// Two addresses with the same host and path, whatever their query or
/// fragment, resolve alike: to the same id, slug and kind, or to the same
/// error.
pub proof fn lemma_resolve_ignores_query(domain: Seq<char>, prefix: Seq<char>, p: UrlPartsView, q: UrlPartsView)
    requires
        p.1 == q.1,
        p.2 == q.2,
    ensures
        match (resolve_parts(domain, prefix, p), resolve_parts(domain, prefix, q)) {
            (Ok(a), Ok(b)) => a.index == b.index && a.slug == b.slug && a.is_oneshot == b.is_oneshot,
            (Err(a), Err(b)) => a == b,
            _ => false,
        },
{
}

/// The view of a resolution result.
pub open spec fn info_result_view(r: Result<SerieUrlInfo, ResolveError>) -> Result<UrlInfoView, ResolveError> {
    match r {
        Ok(v) => Ok(v@),
        Err(e) => Err(e),
    }
}

/// The kind that a path segment names.
pub fn content_kind(seg: &str) -> (r: Option<ContentKind>)
    ensures
        r == kind_of(seg@),
{
    if same_text(seg, "manga") {
        Some(ContentKind::Manga)
    } else if same_text(seg, "one_shot") {
        Some(ContentKind::OneShot)
    } else {
        None
    }
}

/// The catalog identifier that a parsed address names on `site`.
pub fn resolve_url(site: &CatalogSite, parts: UrlParts) -> (r: Result<SerieUrlInfo, ResolveError>)
    ensures
        info_result_view(r) == resolve_parts(site.domain@, site.path_prefix@, parts@),
{
    let ghost pv = parts@;
    let host_ok = match &parts.host {
        Some(h) => same_text(h.as_str(), site.domain.as_str()),
        None => false,
    };
    if !host_ok {
        return Err(ResolveError::InvalidHost);
    }
    let segs = match parts.segments {
        Some(s) => s,
        None => return Err(ResolveError::MissingSegments),
    };
    assert(pv.2 == Some(views_of(segs@)));
    if segs.len() < 4 || !same_text(segs[0].as_str(), site.path_prefix.as_str()) {
        return Err(ResolveError::MissingSegments);
    }
    let kind = match content_kind(segs[1].as_str()) {
        Some(k) => k,
        None => return Err(ResolveError::UnknownContentKind),
    };
    let id = match parse_decimal(segs[2].as_str(), 4294967295) {
        Some(n) => n as u32,
        None => return Err(ResolveError::InvalidId),
    };
    Ok(SerieUrlInfo { url: parts.href, index: id, slug: segs[3].clone(), is_oneshot: kind == ContentKind::OneShot })
}

/// The catalog identifier that a reference names: a bare unsigned 32-bit
/// number gives the id alone; anything else is read as a catalog address on
/// `site`.
pub fn resolve(site: &CatalogSite, input: &str) -> (r: Result<SerieUrlInfo, ResolveError>)
    ensures
        info_result_view(r) == resolve_spec(site.domain@, site.path_prefix@, input@),
{
    match parse_decimal(input, 4294967295) {
        Some(n) => {
            let r = SerieUrlInfo { url: String::new(), index: n as u32, slug: String::new(), is_oneshot: false };
            assert(r@ == UrlInfoView { url: Seq::empty(), index: n as u32, slug: Seq::empty(), is_oneshot: false });
            Ok(r)
        },
        None => match parse_url_parts(input) {
            Some(parts) => resolve_url(site, parts),
            None => Err(ResolveError::InvalidUrl),
        },
    }
}

} // verus!
