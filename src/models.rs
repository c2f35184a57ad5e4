//! A flat catalog record (id, title, chapters with their renderings) and the
//! errors of the command-line front end.
use vstd::prelude::*;

verus! {

/// A catalog as a flat record: its id, title and chapters in page order.
#[derive(Debug)]
pub struct Manga {
    /// The catalog's numeric id, taken from its address.
    pub index: u32,
    /// The title, taken from the catalog page.
    pub title: String,
    pub chapters: Vec<Chapter>,
}

/// A chapter of a `Manga`: its heading and its renderings.
#[derive(Debug)]
pub struct Chapter {
    pub name: String,
    pub views: Vec<View>,
}

/// One rendering of a chapter: the group that published it and its viewer.
#[derive(Debug)]
pub struct View {
    pub scan: String,
    pub link: String,
}

/// Why the command line could not be acted on.
#[derive(Debug, Clone, PartialEq, Eq)]
pub enum CliError {
    /// The reference is neither an id nor an address.
    InvalidUrl(String),
    /// The address is not one of the catalog site.
    InvalidMangaUrl,
    /// The address holds no catalog id.
    MissingId,
    /// Both an id and an address were given.
    ConfuseInstruction,
    /// Neither an id nor an address was given.
    MissingOrigin,
    /// The catalog is not cached and cannot be fetched.
    MissingCache,
}

} // verus!
