//! Line sources: the input contract the readers consume, and an in-memory
//! implementation of it.

use vstd::prelude::*;
use vstd::string::StrSliceExecFns;
use vstd::string::StringExecFns;

verus! {

/// How many characters the first line of `s` occupies, counting its `'\n'`
/// terminator; the whole of `s` when no terminator is left.
pub open spec fn line_len(s: Seq<char>) -> int
    decreases s.len(),
{
    if s.len() == 0 {
        0
    } else if s[0] == '\n' {
        1
    } else {
        1 + line_len(s.skip(1))
    }
}

pub proof fn lemma_line_len_bounds(s: Seq<char>)
    ensures
        s.len() > 0 ==> 1 <= line_len(s) <= s.len(),
        s.len() == 0 ==> line_len(s) == 0,
    decreases s.len(),
{
    if s.len() > 0 && s[0] != '\n' {
        lemma_line_len_bounds(s.skip(1));
    }
}

proof fn lemma_line_len_from_scan(s: Seq<char>, i: int)
    requires
        0 <= i <= s.len(),
        forall|j: int| 0 <= j < i ==> s[j] != '\n',
        i < s.len() ==> s[i] == '\n',
    ensures
        line_len(s) == if i < s.len() {
            i + 1
        } else {
            s.len() as int
        },
    decreases i,
{
    if i > 0 {
        lemma_line_len_from_scan(s.skip(1), i - 1);
    }
}

/// The lines of `s`: consecutive chunks each ending in `'\n'`, except
/// possibly the last.  Every chunk is non-empty.
pub open spec fn split_lines(s: Seq<char>) -> Seq<Seq<char>>
    decreases s.len(),
    via split_lines_decreases
{
    if s.len() == 0 {
        Seq::empty()
    } else {
        seq![s.take(line_len(s))] + split_lines(s.skip(line_len(s)))
    }
}

#[via_fn]
proof fn split_lines_decreases(s: Seq<char>) {
    lemma_line_len_bounds(s);
}

/// Relies on `std::io::Error` being an ordinary type: it only rides
/// through the readers as the payload of their failure cases.
#[verifier::external_type_specification]
#[verifier::external_body]
pub struct ExIoError(std::io::Error);

/// A buffered, line-oriented source of text.
///
/// `read_line` appends the next line of the input, terminator included, to
/// `buf` and returns how many units it read; `Ok(0)` signals the end of the
/// input, and a read failure is surfaced as the `Err` case.  The lines an
/// implementation will deliver are its `lines()`; after a failure nothing
/// is promised of them.
///
/// An implementation outside this crate (say, one wrapping buffered file
/// I/O) is not verified against this contract: the readers trust it to
/// behave as a line source, just as they trust [`StrSource`] is proved to.
pub trait LineSource {
    /// The lines still to be read, each with its terminator.  The default
    /// is the model of an exhausted source; an implementation proved
    /// against this contract gives its own.
    open spec fn lines(&self) -> Seq<Seq<char>> {
        Seq::empty()
    }

    /// Append the next line to `buf`; `Ok(0)` signals end of input.
    fn read_line(&mut self, buf: &mut String) -> (r: Result<usize, std::io::Error>)
        ensures
            (match r {
                Ok(n) => if old(self).lines().len() == 0 {
                    n == 0 && final (self).lines() == old(self).lines() && final (buf)@ == old(
                        buf,
                    )@
                } else {
                    n != 0 && final (self).lines() == old(self).lines().skip(1) && final (buf)@
                        == old(buf)@ + old(self).lines()[0]
                },
                Err(_) => true,
            }),
    ;
}

/// An in-memory [`LineSource`] over a string of text.
#[derive(Debug, Clone)]
pub struct StrSource {
    text: String,
    pos: usize,
}

impl StrSource {
    /// The text not yet handed out.
    pub closed spec fn remaining_text(&self) -> Seq<char> {
        if self.pos as int <= self.text@.len() {
            self.text@.skip(self.pos as int)
        } else {
            Seq::empty()
        }
    }

    /// Make a source that delivers the lines of `text`.
    pub fn new(text: &str) -> (r: StrSource)
        ensures
            r.lines() == split_lines(text@),
    {
        let r = StrSource { text: text.to_owned(), pos: 0 };
        proof {
            assert(r.text@.skip(0) =~= text@);
        }
        r
    }
}

impl LineSource for StrSource {
    closed spec fn lines(&self) -> Seq<Seq<char>> {
        split_lines(self.remaining_text())
    }

    fn read_line(&mut self, buf: &mut String) -> (r: Result<usize, std::io::Error>) {
        let len = self.text.as_str().unicode_len();
        if self.pos >= len {
            return Ok(0);
        }
        let mut i = self.pos;
        while i < len && self.text.as_str().get_char(i) != '\n'
            invariant
                old(self).pos <= i <= len,
                self == old(self),
                len == self.text@.len(),
                forall|j: int| old(self).pos <= j < i ==> self.text@[j] != '\n',
            decreases len - i,
        {
            i = i + 1;
        }
        let k = if i < len {
            i + 1
        } else {
            i
        };
        let ghost s = old(self).remaining_text();
        proof {
            let pos = old(self).pos as int;
            assert(s == self.text@.skip(pos));
            assert forall|j: int| 0 <= j < i as int - pos implies s[j] != '\n' by {
                assert(s[j] == self.text@[j + pos]);
            }
            if i < len {
                assert(s[i as int - pos] == self.text@[i as int]);
            }
            lemma_line_len_from_scan(s, i as int - pos);
            assert(line_len(s) == k as int - pos);
        }
        let chunk = self.text.as_str().substring_char(self.pos, k);
        let n = chunk.unicode_len();
        proof {
            let pos = old(self).pos as int;
            assert(chunk@ =~= s.take(k as int - pos));
            assert(s.skip(line_len(s)) =~= self.text@.skip(k as int));
            // `split_lines(s)` opens to its first chunk plus the rest.
            assert(split_lines(s) == seq![s.take(line_len(s))] + split_lines(
                s.skip(line_len(s)),
            ));
            assert(split_lines(s)[0] == chunk@);
            assert(split_lines(s).skip(1) =~= split_lines(self.text@.skip(k as int)));
        }
        buf.append(chunk);
        self.pos = k;
        Ok(n)
    }
}

} // verus!
