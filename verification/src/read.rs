//! The readers: line classification and the skip loop of the basic M3U
//! format.  The extended `#EXTM3U` reader builds on these in
//! [`entry_ext`].

use vstd::prelude::*;
use vstd::string::StrSliceExecFns;

use crate::text::{trim_end_str, trim_start_str, trimmed, trimmed_start};
use crate::{Entry, EntryModel, ParsedUrl};

pub mod entry;
pub mod entry_ext;

verus! {

/// Whether `s` parses as an absolute URL that has a host component.
pub uninterp spec fn url_accepts(s: Seq<char>) -> bool;

/// The normalized serialization of the URL that `s` parses as.
pub uninterp spec fn url_text(s: Seq<char>) -> Seq<char>;

/// The host component of the URL that `s` parses as; may be empty, as it
/// is for some `file:` URLs.
pub uninterp spec fn url_host(s: Seq<char>) -> Seq<char>;

/// Relies on `url::Url::parse`, `url::Url::host_str` and `url::Url::as_str`:
/// whether a string parses as an absolute URL with a host component, and
/// the host and normalized serialization it then has, depend on the input
/// text alone.
#[verifier::external_body]
fn parse_url_line(line: &str) -> (r: Option<ParsedUrl>)
    ensures
        r.is_some() == url_accepts(line@),
        (r matches Some(u) ==> u.text@ == url_text(line@) && u.host@ == url_host(line@)),
{
    match url::Url::parse(line) {
        Ok(u) => match u.host_str() {
            Some(h) => {
                let host = h.to_string();
                Some(ParsedUrl { text: u.as_str().to_string(), host })
            },
            None => None,
        },
        Err(_) => None,
    }
}

/// What one line classifies as: a URL when it parses as an absolute URL
/// with a non-empty host, otherwise a path holding the line verbatim.
pub open spec fn classify(s: Seq<char>) -> EntryModel {
    if url_accepts(s) && url_host(s).len() > 0 {
        EntryModel::Url { text: url_text(s), host: url_host(s) }
    } else {
        EntryModel::Path { text: s }
    }
}

/// Read an [`Entry`] from the given line.
///
/// A URL entry is produced only when the line parses as an absolute URL
/// with a non-empty host; a hostless URL (say `file:relative/path`) is not
/// a usable media reference, so any other line becomes a path entry.
pub fn read_entry(line: &str) -> (e: Entry)
    ensures
        e@ == classify(line@),
{
    match parse_url_line(line) {
        Some(u) => {
            if u.host.as_str().unicode_len() > 0 {
                Entry::Url(u)
            } else {
                Entry::Path(line.to_owned())
            }
        },
        None => Entry::Path(line.to_owned()),
    }
}

/// Classification is a pure function of the line's text: equal lines
/// always classify equally, and nothing else enters into it.
pub proof fn lemma_classify_deterministic(s1: Seq<char>, s2: Seq<char>)
    requires
        s1 == s2,
    ensures
        classify(s1) == classify(s2),
{
}

/// Every line classifies one way or the other: as the URL it parses as
/// when it has a non-empty host, and as a path holding the line verbatim
/// otherwise.
pub proof fn lemma_classify_url_or_path(s: Seq<char>)
    ensures
        url_accepts(s) && url_host(s).len() > 0 ==> classify(s) == (EntryModel::Url {
            text: url_text(s),
            host: url_host(s),
        }),
        !(url_accepts(s) && url_host(s).len() > 0) ==> classify(s) == (EntryModel::Path {
            text: s,
        }),
{
}

/// A line the basic format passes over: blank, or a comment (its first
/// non-whitespace character is `#`).
pub open spec fn skippable(l: Seq<char>) -> bool {
    trimmed_start(l).len() == 0 || trimmed_start(l)[0] == '#'
}

/// The entry the basic protocol yields from `lines`, skipping blank lines
/// and comments; `None` when only such lines are left.
pub open spec fn basic_next(lines: Seq<Seq<char>>) -> Option<EntryModel>
    decreases lines.len(),
{
    if lines.len() == 0 {
        None
    } else if skippable(lines[0]) {
        basic_next(lines.skip(1))
    } else {
        Some(classify(trimmed(lines[0])))
    }
}

/// The lines left unread once the basic protocol has yielded.
pub open spec fn basic_rest(lines: Seq<Seq<char>>) -> Seq<Seq<char>>
    decreases lines.len(),
{
    if lines.len() == 0 {
        lines
    } else if skippable(lines[0]) {
        basic_rest(lines.skip(1))
    } else {
        lines.skip(1)
    }
}

/// An input of blank lines and comments alone yields nothing, and is read
/// to its end.
pub proof fn lemma_skippable_input_yields_nothing(lines: Seq<Seq<char>>)
    requires
        forall|i: int| 0 <= i < lines.len() ==> skippable(lines[i]),
    ensures
        basic_next(lines) is None,
        basic_rest(lines).len() == 0,
    decreases lines.len(),
{
    if lines.len() > 0 {
        assert(skippable(lines[0]));
        lemma_skippable_input_yields_nothing(lines.skip(1));
    }
}

/// Once the basic protocol has answered "end of input", it stays ended:
/// nothing is left to read, so every later pull answers the same.
pub proof fn lemma_basic_end_is_permanent(lines: Seq<Seq<char>>)
    requires
        basic_next(lines) is None,
    ensures
        basic_rest(lines).len() == 0,
        basic_next(basic_rest(lines)) is None,
    decreases lines.len(),
{
    if lines.len() > 0 {
        lemma_basic_end_is_permanent(lines.skip(1));
    }
}

/// A reader that reads the M3U format from an underlying line source.
///
/// A `Reader` is a streaming reader: it pulls lines from the source on
/// demand and reads no more than strictly necessary.  The marker type `E`
/// is the entry type the reader will read.
#[derive(Debug)]
pub struct Reader<R, E> where R: crate::source::LineSource {
    /// The source from which the M3U format is read.
    reader: R,
    /// String used for buffering read lines.
    line_buffer: String,
    /// The entry type that the `reader` will read.
    entry: core::marker::PhantomData<E>,
}

impl<R, E> Reader<R, E> where R: crate::source::LineSource {
    /// The lines the underlying source has yet to deliver.
    pub closed spec fn lines(&self) -> Seq<Seq<char>> {
        self.reader.lines()
    }

    pub(crate) fn new_inner(reader: R, line_buffer: String) -> (r: Self)
        ensures
            r.lines() == reader.lines(),
    {
        Reader { reader, line_buffer, entry: core::marker::PhantomData }
    }

    /// Produce the inner source.
    pub fn into_inner(self) -> (r: R)
        ensures
            r.lines() == self.lines(),
    {
        self.reader
    }
}

/// Attempt to read the next [`Entry`]: skip blank lines and comments, and
/// classify the first line that is neither.
pub(crate) fn read_next_entry<R: crate::source::LineSource>(
    reader: &mut R,
    line_buffer: &mut String,
) -> (r: Result<Option<Entry>, std::io::Error>)
    ensures
        (match r {
            Ok(Some(e)) => basic_next(old(reader).lines()) == Some(e@) && final (reader).lines()
                == basic_rest(old(reader).lines()),
            Ok(None) => basic_next(old(reader).lines()) is None && final (reader).lines()
                == basic_rest(old(reader).lines()),
            Err(_) => true,
        }),
{
    let ghost lines0 = reader.lines();
    loop
        invariant
            lines0 == old(reader).lines(),
            basic_next(reader.lines()) == basic_next(lines0),
            basic_rest(reader.lines()) == basic_rest(lines0),
        decreases reader.lines().len(),
    {
        let ghost lines_here = reader.lines();
        *line_buffer = String::new();
        let n = match reader.read_line(line_buffer) {
            Ok(n) => n,
            Err(e) => return Err(e),
        };
        if n == 0 {
            return Ok(None);
        }
        assert(line_buffer@ == lines_here[0]);
        let non_comment = {
            let line = trim_start_str(line_buffer.as_str());
            line.unicode_len() > 0 && line.get_char(0) != '#'
        };
        if non_comment {
            let entry = {
                let line = trim_start_str(line_buffer.as_str());
                read_entry(trim_end_str(line))
            };
            assert(entry@ == classify(trimmed(lines_here[0])));
            return Ok(Some(entry));
        }
        assert(skippable(lines_here[0]));
    }
}

} // verus!
