//! The extended reader: the `#EXTM3U` header, and `#EXTINF:` metadata
//! paired with the entry that follows it.

use vstd::prelude::*;
use vstd::string::StrSliceExecFns;

use crate::read::{basic_next, basic_rest, classify, read_entry, Reader};
use crate::source::LineSource;
use crate::text::{find_comma, parse_i64, trim_end_str, trim_start_str, trim_str};
use crate::text::{first_comma, parse_i64_spec, starts_with, starts_with_str, trimmed,
    trimmed_start};
use crate::{Entry, EntryExt, EntryModel, ExtInf, ExtInfModel};

verus! {

/// A [`Reader`] that reads [`EntryExt`]s.
pub type EntryExtReader<R> = Reader<R, EntryExt>;

/// Failures of extended-reader construction.
#[derive(Debug)]
pub enum EntryExtReaderConstructionError {
    /// The `#EXTM3U` header was not found on the first non-blank line.
    HeaderNotFound,
    /// A read failure of the underlying line source.
    BufRead(std::io::Error),
}

/// Failures of reading one [`EntryExt`].
#[derive(Debug)]
pub enum ReadEntryExtError {
    /// Either the `#EXTINF:` tag was not found for the entry, or the
    /// duration and name following the tag were not correctly formatted.
    /// The line is instead parsed as a plain [`Entry`] and surfaced here,
    /// so a caller may choose to accept it untagged.
    ExtInfNotFound(Entry),
    /// A read failure of the underlying line source.
    BufRead(std::io::Error),
}

impl From<std::io::Error> for EntryExtReaderConstructionError {
    fn from(err: std::io::Error) -> (r: Self) {
        EntryExtReaderConstructionError::BufRead(err)
    }
}

impl vstd::std_specs::convert::FromSpecImpl<std::io::Error> for EntryExtReaderConstructionError {
    open spec fn obeys_from_spec() -> bool {
        true
    }

    open spec fn from_spec(err: std::io::Error) -> Self {
        EntryExtReaderConstructionError::BufRead(err)
    }
}

impl From<std::io::Error> for ReadEntryExtError {
    fn from(err: std::io::Error) -> (r: Self) {
        ReadEntryExtError::BufRead(err)
    }
}

impl vstd::std_specs::convert::FromSpecImpl<std::io::Error> for ReadEntryExtError {
    open spec fn obeys_from_spec() -> bool {
        true
    }

    open spec fn from_spec(err: std::io::Error) -> Self {
        ReadEntryExtError::BufRead(err)
    }
}

impl EntryExtReaderConstructionError {
    /// A short description of the failure, in place of a `Display` impl.
    pub fn message(&self) -> (r: &'static str)
        ensures
            (match self {
                EntryExtReaderConstructionError::HeaderNotFound => r@ == (
                "the \"#EXTM3U\" header was not found")@,
                EntryExtReaderConstructionError::BufRead(_) => r@ == (
                "failed to read a line from the source")@,
            }),
    {
        match self {
            EntryExtReaderConstructionError::HeaderNotFound => {
                "the \"#EXTM3U\" header was not found"
            },
            EntryExtReaderConstructionError::BufRead(_) => "failed to read a line from the source",
        }
    }

    /// The underlying read failure, when there is one.
    pub fn io_cause(&self) -> (r: Option<&std::io::Error>)
        ensures
            r.is_some() == (self matches EntryExtReaderConstructionError::BufRead(_)),
    {
        match self {
            EntryExtReaderConstructionError::HeaderNotFound => None,
            EntryExtReaderConstructionError::BufRead(err) => Some(err),
        }
    }
}

impl ReadEntryExtError {
    /// A short description of the failure, in place of a `Display` impl.
    pub fn message(&self) -> (r: &'static str)
        ensures
            (match self {
                ReadEntryExtError::ExtInfNotFound(_) => r@ == (
                "the \"#EXTINF:\" tag was not found or was incorrectly formatted")@,
                ReadEntryExtError::BufRead(_) => r@ == ("failed to read a line from the source")@,
            }),
    {
        match self {
            ReadEntryExtError::ExtInfNotFound(_) => {
                "the \"#EXTINF:\" tag was not found or was incorrectly formatted"
            },
            ReadEntryExtError::BufRead(_) => "failed to read a line from the source",
        }
    }

    /// The underlying read failure, when there is one.
    pub fn io_cause(&self) -> (r: Option<&std::io::Error>)
        ensures
            r.is_some() == (self matches ReadEntryExtError::BufRead(_)),
    {
        match self {
            ReadEntryExtError::ExtInfNotFound(_) => None,
            ReadEntryExtError::BufRead(err) => Some(err),
        }
    }
}

/// The header token of the extended format.
pub open spec fn extm3u_header() -> Seq<char> {
    "#EXTM3U"@
}

/// The metadata tag of the extended format.
pub open spec fn extinf_tag() -> Seq<char> {
    "#EXTINF:"@
}

/// Whether the first non-blank line of `lines` begins, after leading
/// whitespace, with the `#EXTM3U` header.
pub open spec fn header_found(lines: Seq<Seq<char>>) -> bool
    decreases lines.len(),
{
    if lines.len() == 0 {
        false
    } else if starts_with(trimmed_start(lines[0]), extm3u_header()) {
        true
    } else if trimmed_start(lines[0]).len() == 0 {
        header_found(lines.skip(1))
    } else {
        false
    }
}

/// The lines left once the header line has been consumed.
pub open spec fn after_header(lines: Seq<Seq<char>>) -> Seq<Seq<char>>
    decreases lines.len(),
{
    if lines.len() == 0 {
        lines
    } else if starts_with(trimmed_start(lines[0]), extm3u_header()) {
        lines.skip(1)
    } else if trimmed_start(lines[0]).len() == 0 {
        after_header(lines.skip(1))
    } else {
        lines
    }
}

/// What follows the `#EXTINF:` tag on line `t`.
pub open spec fn extinf_payload(t: Seq<char>) -> Seq<char> {
    t.skip(extinf_tag().len() as int)
}

/// The metadata an `#EXTINF:` payload denotes: the text up to the first
/// comma read as a decimal duration, and the text after it, trimmed, as
/// the name — empty when there is no comma.  `None` when the duration does
/// not parse.
pub open spec fn parse_extinf(p: Seq<char>) -> Option<ExtInfModel> {
    let k = first_comma(p);
    match parse_i64_spec(p.take(k)) {
        None => None,
        Some(d) => Some(
            ExtInfModel {
                duration_secs: d,
                name: if k < p.len() {
                    trimmed(p.skip(k + 1))
                } else {
                    Seq::empty()
                },
            },
        ),
    }
}

/// What one pull of the extended protocol produces.
pub enum ExtNextModel {
    /// The input ended before a full record was found.
    End,
    /// A tagged record: metadata and the entry that follows it.
    Item { extinf: ExtInfModel, entry: EntryModel },
    /// An entry whose tag was missing or malformed.
    Untagged { entry: EntryModel },
}

/// The result the extended protocol yields from `lines`: skip blank lines
/// and comments; at an `#EXTINF:` tag, pair its metadata with the next
/// entry the basic protocol finds; at a plain entry line, report the entry
/// as untagged.
pub open spec fn ext_next(lines: Seq<Seq<char>>) -> ExtNextModel
    decreases lines.len(),
{
    if lines.len() == 0 {
        ExtNextModel::End
    } else {
        let t = trimmed_start(lines[0]);
        if t.len() == 0 {
            ext_next(lines.skip(1))
        } else if t[0] == '#' {
            if starts_with(t, extinf_tag()) {
                match basic_next(lines.skip(1)) {
                    None => ExtNextModel::End,
                    Some(entry) => match parse_extinf(extinf_payload(t)) {
                        Some(extinf) => ExtNextModel::Item { extinf, entry },
                        None => ExtNextModel::Untagged { entry },
                    },
                }
            } else {
                ext_next(lines.skip(1))
            }
        } else {
            ExtNextModel::Untagged { entry: classify(trimmed(lines[0])) }
        }
    }
}

/// A line the extended format passes over: blank, or a comment that does
/// not carry the `#EXTINF:` tag.
pub open spec fn ext_skippable(l: Seq<char>) -> bool {
    trimmed_start(l).len() == 0 || (trimmed_start(l)[0] == '#' && !starts_with(
        trimmed_start(l),
        extinf_tag(),
    ))
}

/// An input of blank lines and plain comments alone yields no record, and
/// is read to its end.
pub proof fn lemma_ext_skippable_input_yields_nothing(lines: Seq<Seq<char>>)
    requires
        forall|i: int| 0 <= i < lines.len() ==> ext_skippable(lines[i]),
    ensures
        ext_next(lines) is End,
        ext_rest(lines).len() == 0,
    decreases lines.len(),
{
    if lines.len() > 0 {
        assert(ext_skippable(lines[0]));
        lemma_ext_skippable_input_yields_nothing(lines.skip(1));
    }
}

/// The lines left unread once the extended protocol has yielded.
pub open spec fn ext_rest(lines: Seq<Seq<char>>) -> Seq<Seq<char>>
    decreases lines.len(),
{
    if lines.len() == 0 {
        lines
    } else {
        let t = trimmed_start(lines[0]);
        if t.len() == 0 {
            ext_rest(lines.skip(1))
        } else if t[0] == '#' {
            if starts_with(t, extinf_tag()) {
                basic_rest(lines.skip(1))
            } else {
                ext_rest(lines.skip(1))
            }
        } else {
            lines.skip(1)
        }
    }
}

/// Once the extended protocol has answered "end of input", it stays
/// ended: nothing is left to read, so every later pull answers the same.
pub proof fn lemma_ext_end_is_permanent(lines: Seq<Seq<char>>)
    requires
        ext_next(lines) is End,
    ensures
        ext_rest(lines).len() == 0,
        ext_next(ext_rest(lines)) is End,
    decreases lines.len(),
{
    if lines.len() > 0 {
        let t = trimmed_start(lines[0]);
        if t.len() == 0 || (t[0] == '#' && !starts_with(t, extinf_tag())) {
            lemma_ext_end_is_permanent(lines.skip(1));
        } else {
            crate::read::lemma_basic_end_is_permanent(lines.skip(1));
        }
    }
}

/// Read an [`ExtInf`] from a line that carries the `#EXTINF:` tag.
fn read_extinf(line: &str) -> (r: Option<ExtInf>)
    requires
        starts_with(line@, extinf_tag()),
    ensures
        (match r {
            Some(ei) => parse_extinf(extinf_payload(line@)) == Some(ei@),
            None => parse_extinf(extinf_payload(line@)) is None,
        }),
{
    proof {
        reveal_strlit("#EXTINF:");
    }
    let len = line.unicode_len();
    let rest = line.substring_char(8, len);
    proof {
        assert(rest@ =~= extinf_payload(line@));
    }
    let k = find_comma(rest);
    let dur_txt = rest.substring_char(0, k);
    proof {
        assert(dur_txt@ =~= rest@.take(k as int));
    }
    match parse_i64(dur_txt) {
        None => None,
        Some(d) => {
            let rest_len = rest.unicode_len();
            let name: String = if k < rest_len {
                let after = rest.substring_char(k + 1, rest_len);
                proof {
                    assert(after@ =~= rest@.skip(k as int + 1));
                }
                trim_str(after).to_owned()
            } else {
                String::new()
            };
            Some(ExtInf { duration_secs: d, name })
        },
    }
}

impl<R: LineSource> Reader<R, EntryExt> {
    /// Create a reader that reads the extended M3U [`EntryExt`] type.
    ///
    /// The `#EXTM3U` header is read immediately: blank lines before it are
    /// skipped, and the header line itself is consumed.  If the first
    /// non-blank line does not begin with the header, or the input ends
    /// before one is found, construction fails with `HeaderNotFound`.
    /// Reading entries is then done on demand.
    pub fn new_ext(reader: R) -> (r: Result<Self, EntryExtReaderConstructionError>)
        ensures
            (match r {
                Ok(rd) => header_found(reader.lines()) && rd.lines() == after_header(
                    reader.lines(),
                ),
                Err(EntryExtReaderConstructionError::HeaderNotFound) => !header_found(
                    reader.lines(),
                ),
                Err(EntryExtReaderConstructionError::BufRead(_)) => true,
            }),
    {
        let ghost lines0 = reader.lines();
        let mut inner = reader;
        let mut line_buffer = String::new();
        loop
            invariant
                lines0 == reader.lines(),
                header_found(inner.lines()) == header_found(lines0),
                header_found(lines0) ==> after_header(inner.lines()) == after_header(lines0),
            decreases inner.lines().len(),
        {
            let ghost lines_here = inner.lines();
            line_buffer = String::new();
            let num_read_bytes = match inner.read_line(&mut line_buffer) {
                Ok(n) => n,
                Err(e) => return Err(EntryExtReaderConstructionError::BufRead(e)),
            };
            let is_header = starts_with_str(trim_start_str(line_buffer.as_str()), "#EXTM3U");
            if is_header {
                proof {
                    reveal_strlit("#EXTM3U");
                    assert(lines_here.len() > 0);
                    assert(line_buffer@ == lines_here[0]);
                }
                return Ok(Self::new_inner(inner, line_buffer));
            }
            let is_blank = trim_start_str(line_buffer.as_str()).unicode_len() == 0;
            if num_read_bytes == 0 || !is_blank {
                // The first non-blank line was not the header, or the
                // input ended without one.
                return Err(EntryExtReaderConstructionError::HeaderNotFound);
            }
        }
    }

    /// Attempt to read the next [`EntryExt`] from the inner source.
    ///
    /// Blank lines and plain comments are skipped until an `#EXTINF:` tag
    /// is found; the next entry line is then paired with its metadata.  A
    /// plain entry line found first, or a tag whose duration does not
    /// parse, fails with `ExtInfNotFound` carrying the entry that was
    /// read.  Returns `Ok(None)` when there are no more lines — also when
    /// the input ends after a tag, in which case the metadata is dropped.
    pub fn read_next_entry(&mut self) -> (r: Result<Option<EntryExt>, ReadEntryExtError>)
        ensures
            (match r {
                Ok(Some(ee)) => ext_next(old(self).lines()) == (ExtNextModel::Item {
                    extinf: ee.extinf@,
                    entry: ee.entry@,
                }) && final (self).lines() == ext_rest(old(self).lines()),
                Ok(None) => ext_next(old(self).lines()) is End && final (self).lines() == ext_rest(
                    old(self).lines(),
                ),
                Err(ReadEntryExtError::ExtInfNotFound(e)) => ext_next(old(self).lines())
                    == (ExtNextModel::Untagged { entry: e@ }) && final (self).lines() == ext_rest(
                    old(self).lines(),
                ),
                Err(ReadEntryExtError::BufRead(_)) => true,
            }),
    {
        let ghost lines0 = self.lines();
        loop
            invariant
                lines0 == old(self).lines(),
                ext_next(self.lines()) == ext_next(lines0),
                ext_rest(self.lines()) == ext_rest(lines0),
            decreases self.lines().len(),
        {
            let ghost lines_here = self.reader.lines();
            self.line_buffer = String::new();
            let n = match self.reader.read_line(&mut self.line_buffer) {
                Ok(n) => n,
                Err(e) => return Err(ReadEntryExtError::BufRead(e)),
            };
            if n == 0 {
                return Ok(None);
            }
            assert(self.line_buffer@ == lines_here[0]);
            let is_blank = trim_start_str(self.line_buffer.as_str()).unicode_len() == 0;
            if is_blank {
                continue;
            }
            let is_comment = trim_start_str(self.line_buffer.as_str()).get_char(0) == '#';
            if !is_comment {
                let entry = {
                    let line = trim_start_str(self.line_buffer.as_str());
                    read_entry(trim_end_str(line))
                };
                return Err(ReadEntryExtError::ExtInfNotFound(entry));
            }
            let has_tag = starts_with_str(trim_start_str(self.line_buffer.as_str()), "#EXTINF:");
            if !has_tag {
                continue;
            }
            let extinf_opt = read_extinf(trim_start_str(self.line_buffer.as_str()));
            proof {
                reveal_strlit("#EXTINF:");
                assert(trimmed_start(lines_here[0])[0] == '#');
            }
            let ghost lines_rest = self.reader.lines();
            assert(lines_rest == lines_here.skip(1));
            let entry_opt = match crate::read::read_next_entry(
                &mut self.reader,
                &mut self.line_buffer,
            ) {
                Ok(x) => x,
                Err(e) => return Err(ReadEntryExtError::BufRead(e)),
            };
            match entry_opt {
                None => {
                    return Ok(None);
                },
                Some(entry) => match extinf_opt {
                    Some(extinf) => {
                        return Ok(Some(EntryExt { entry, extinf }));
                    },
                    None => {
                        return Err(ReadEntryExtError::ExtInfNotFound(entry));
                    },
                },
            }
        }
    }

    /// Produce an adapter that yields [`EntryExt`]s one pull at a time.
    ///
    /// The adapter owns the reader; [`EntryExts::into_reader`] gives it
    /// back.
    pub fn entry_exts(self) -> (it: EntryExts<R>)
        ensures
            it.lines() == self.lines(),
    {
        EntryExts { reader: self }
    }
}

/// A single-pass adapter that lazily yields [`EntryExt`]s.
pub struct EntryExts<R> where R: LineSource {
    reader: Reader<R, EntryExt>,
}

impl<R: LineSource> EntryExts<R> {
    /// The lines the underlying source has yet to deliver.
    pub closed spec fn lines(&self) -> Seq<Seq<char>> {
        self.reader.lines()
    }

    /// Pull one item: `Some(Ok(record))` for the next record, `None` at
    /// the end of the sequence, `Some(Err(failure))` otherwise.
    pub fn next(&mut self) -> (r: Option<Result<EntryExt, ReadEntryExtError>>)
        ensures
            (match r {
                Some(Ok(ee)) => ext_next(old(self).lines()) == (ExtNextModel::Item {
                    extinf: ee.extinf@,
                    entry: ee.entry@,
                }) && final (self).lines() == ext_rest(old(self).lines()),
                None => ext_next(old(self).lines()) is End && final (self).lines() == ext_rest(
                    old(self).lines(),
                ),
                Some(Err(ReadEntryExtError::ExtInfNotFound(e))) => ext_next(old(self).lines())
                    == (ExtNextModel::Untagged { entry: e@ }) && final (self).lines() == ext_rest(
                    old(self).lines(),
                ),
                Some(Err(ReadEntryExtError::BufRead(_))) => true,
            }),
    {
        match self.reader.read_next_entry() {
            Ok(Some(entry)) => Some(Ok(entry)),
            Ok(None) => None,
            Err(err) => Some(Err(err)),
        }
    }

    /// Give the reader back.
    pub fn into_reader(self) -> (r: Reader<R, EntryExt>)
        ensures
            r.lines() == self.lines(),
    {
        self.reader
    }
}

} // verus!
