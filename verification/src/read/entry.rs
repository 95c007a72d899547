//! The basic reader: plain entries, one per non-blank, non-comment line.

use vstd::prelude::*;

use crate::read::{basic_next, basic_rest, Reader};
use crate::source::LineSource;
use crate::Entry;

verus! {

/// A [`Reader`] that reads plain [`Entry`]s.
pub type EntryReader<R> = Reader<R, Entry>;

impl<R: LineSource> Reader<R, Entry> {
    /// Create a reader that reads the original, non-extended M3U entries.
    /// No validation is performed; reading is done on demand.
    pub fn new(reader: R) -> (r: Self)
        ensures
            r.lines() == reader.lines(),
    {
        Self::new_inner(reader, String::new())
    }

    /// Attempt to read the next [`Entry`] from the inner source.
    ///
    /// Returns `Ok(None)` when there are no more lines, and surfaces any
    /// read failure of the source unchanged.
    pub fn read_next_entry(&mut self) -> (r: Result<Option<Entry>, std::io::Error>)
        ensures
            (match r {
                Ok(Some(e)) => basic_next(old(self).lines()) == Some(e@) && final (self).lines()
                    == basic_rest(old(self).lines()),
                Ok(None) => basic_next(old(self).lines()) is None && final (self).lines()
                    == basic_rest(old(self).lines()),
                Err(_) => true,
            }),
    {
        crate::read::read_next_entry(&mut self.reader, &mut self.line_buffer)
    }

    /// Produce an adapter that yields [`Entry`]s one pull at a time.
    ///
    /// The adapter owns the reader; [`Entries::into_reader`] gives it back.
    pub fn entries(self) -> (it: Entries<R>)
        ensures
            it.lines() == self.lines(),
    {
        Entries { reader: self }
    }
}

/// A single-pass adapter that lazily yields [`Entry`]s.
pub struct Entries<R> where R: LineSource {
    reader: Reader<R, Entry>,
}

impl<R: LineSource> Entries<R> {
    /// The lines the underlying source has yet to deliver.
    pub closed spec fn lines(&self) -> Seq<Seq<char>> {
        self.reader.lines()
    }

    /// Pull one item: `Some(Ok(entry))` for the next entry, `None` at the
    /// end of the sequence, `Some(Err(failure))` when the source failed.
    pub fn next(&mut self) -> (r: Option<Result<Entry, std::io::Error>>)
        ensures
            (match r {
                Some(Ok(e)) => basic_next(old(self).lines()) == Some(e@) && final (self).lines()
                    == basic_rest(old(self).lines()),
                None => basic_next(old(self).lines()) is None && final (self).lines()
                    == basic_rest(old(self).lines()),
                Some(Err(_)) => true,
            }),
    {
        match self.reader.read_next_entry() {
            Ok(Some(entry)) => Some(Ok(entry)),
            Ok(None) => None,
            Err(err) => Some(Err(err)),
        }
    }

    /// Give the reader back.
    pub fn into_reader(self) -> (r: Reader<R, Entry>)
        ensures
            r.lines() == self.lines(),
    {
        self.reader
    }
}

} // verus!
