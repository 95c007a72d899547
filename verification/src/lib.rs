//! A streaming reader for the M3U playlist text format and its extended
//! `#EXTM3U` variant.
//!
//! A playlist is a sequence of text lines.  Lines that are blank or start
//! with `#` are comments or directives; every other line names something
//! playable, either by URL or by filesystem path.  The extended variant
//! opens with a `#EXTM3U` header and precedes each entry with an
//! `#EXTINF:<duration>,<name>` tag.
//!
//! The readers here pull one line at a time from a [`source::LineSource`]
//! and read no more input than is needed to produce the next entry.

use vstd::prelude::*;

pub mod read;
pub mod source;
pub mod text;

pub use read::entry::{Entries, EntryReader};
pub use read::entry_ext::{
    EntryExtReader, EntryExtReaderConstructionError, EntryExts, ReadEntryExtError,
};
pub use read::Reader;

verus! {

/// A URL entry: the normalized serialization of a line that parsed as an
/// absolute URL with a non-empty host, together with that host.
#[derive(Clone, Debug, PartialEq, Eq)]
pub struct ParsedUrl {
    /// The normalized serialization of the URL.
    pub text: String,
    /// The host component; never empty.
    pub host: String,
}

/// Mathematical model of a [`ParsedUrl`].
pub struct ParsedUrlModel {
    pub text: Seq<char>,
    pub host: Seq<char>,
}

impl View for ParsedUrl {
    type V = ParsedUrlModel;

    open spec fn view(&self) -> ParsedUrlModel {
        ParsedUrlModel { text: self.text@, host: self.host@ }
    }
}

/// One playable reference: a URL when the line parses as an absolute URL
/// with a non-empty host, otherwise the line itself, taken as a path.
#[derive(Clone, Debug, PartialEq, Eq)]
pub enum Entry {
    Url(ParsedUrl),
    Path(String),
}

/// Mathematical model of an [`Entry`].
pub enum EntryModel {
    Url { text: Seq<char>, host: Seq<char> },
    Path { text: Seq<char> },
}

impl View for Entry {
    type V = EntryModel;

    open spec fn view(&self) -> EntryModel {
        match self {
            Entry::Url(u) => EntryModel::Url { text: u.text@, host: u.host@ },
            Entry::Path(p) => EntryModel::Path { text: p@ },
        }
    }
}

/// The metadata carried by an `#EXTINF:` tag: a duration in seconds and a
/// display name.  The duration's sign and units are opaque to this parser;
/// it is simply the number written in the tag.
#[derive(Clone, Debug, PartialEq, Eq)]
pub struct ExtInf {
    pub duration_secs: i64,
    pub name: String,
}

/// Mathematical model of an [`ExtInf`].
pub struct ExtInfModel {
    pub duration_secs: int,
    pub name: Seq<char>,
}

impl View for ExtInf {
    type V = ExtInfModel;

    open spec fn view(&self) -> ExtInfModel {
        ExtInfModel { duration_secs: self.duration_secs as int, name: self.name@ }
    }
}

/// An extended entry: one [`ExtInf`] paired with the [`Entry`] that follows
/// it in the input.  Never constructed without both parts.
#[derive(Clone, Debug, PartialEq, Eq)]
pub struct EntryExt {
    pub extinf: ExtInf,
    pub entry: Entry,
}

/// Mathematical model of an [`EntryExt`].
pub struct EntryExtModel {
    pub extinf: ExtInfModel,
    pub entry: EntryModel,
}

impl View for EntryExt {
    type V = EntryExtModel;

    open spec fn view(&self) -> EntryExtModel {
        EntryExtModel { extinf: self.extinf@, entry: self.entry@ }
    }
}

} // verus!
