//! Tests of the classifier and the basic reader.

use m3u::source::StrSource;
use m3u::text::parse_i64;
use m3u::{read, Entry, EntryReader};

fn path(s: &str) -> Entry {
    Entry::Path(s.to_string())
}

#[test]
fn classify_url_with_host() {
    let e = read::read_entry("http://example.com/a.mp3");
    match e {
        Entry::Url(u) => {
            assert_eq!(u.host, "example.com");
            assert_eq!(u.text, "http://example.com/a.mp3");
        }
        Entry::Path(_) => panic!("expected a URL entry"),
    }
}

#[test]
fn classify_normalizes_url_text() {
    // The wrapper must hand back the parsed serialization, not its input.
    let e = read::read_entry("http://example.com");
    match e {
        Entry::Url(u) => {
            assert_eq!(u.text, "http://example.com/");
            assert_eq!(u.host, "example.com");
        }
        Entry::Path(_) => panic!("expected a URL entry"),
    }
}

#[test]
fn classify_hostless_url_is_path() {
    // Parses as a URL, but has no usable host: kept as a path.
    let e = read::read_entry("file:relative/path");
    assert_eq!(e, path("file:relative/path"));
}

#[test]
fn classify_plain_path() {
    let e = read::read_entry("relative/path.mp3");
    assert_eq!(e, path("relative/path.mp3"));
}

#[test]
fn classify_is_pure() {
    let a = read::read_entry("http://example.com/a.mp3");
    let b = read::read_entry("http://example.com/a.mp3");
    assert_eq!(a, b);
    let c = read::read_entry("some/path");
    let d = read::read_entry("some/path");
    assert_eq!(c, d);
}

#[test]
fn round_trip_single_url() {
    let mut reader = EntryReader::new(StrSource::new("http://example.com/a.mp3\n"));
    match reader.read_next_entry() {
        Ok(Some(Entry::Url(u))) => {
            assert_eq!(u.host, "example.com");
            assert_eq!(u.text, "http://example.com/a.mp3");
        }
        other => panic!("expected one URL entry, got {:?}", other),
    }
    assert!(matches!(reader.read_next_entry(), Ok(None)));
}

#[test]
fn single_relative_path() {
    let mut reader = EntryReader::new(StrSource::new("relative/path.mp3\n"));
    match reader.read_next_entry() {
        Ok(Some(e)) => assert_eq!(e, path("relative/path.mp3")),
        other => panic!("expected one path entry, got {:?}", other),
    }
    assert!(matches!(reader.read_next_entry(), Ok(None)));
}

#[test]
fn blank_and_comment_lines_yield_nothing() {
    let input = "\n   \n# a comment\n\t\n#EXTINF:1,looks like a tag\n#EXTM3U\n";
    let mut reader = EntryReader::new(StrSource::new(input));
    assert!(matches!(reader.read_next_entry(), Ok(None)));
}

#[test]
fn empty_input_yields_nothing() {
    let mut reader = EntryReader::new(StrSource::new(""));
    assert!(matches!(reader.read_next_entry(), Ok(None)));
}

#[test]
fn skips_blanks_and_comments_between_entries() {
    let input = "\n# header comment\nfirst.mp3\n\n# between\nsecond.mp3\n# trailing\n";
    let mut reader = EntryReader::new(StrSource::new(input));
    assert_eq!(reader.read_next_entry().unwrap(), Some(path("first.mp3")));
    assert_eq!(reader.read_next_entry().unwrap(), Some(path("second.mp3")));
    assert!(matches!(reader.read_next_entry(), Ok(None)));
}

#[test]
fn trims_surrounding_whitespace() {
    let mut reader = EntryReader::new(StrSource::new("  song.mp3  \r\n"));
    assert_eq!(reader.read_next_entry().unwrap(), Some(path("song.mp3")));
}

#[test]
fn last_line_without_terminator() {
    let mut reader = EntryReader::new(StrSource::new("a.mp3\nb.mp3"));
    assert_eq!(reader.read_next_entry().unwrap(), Some(path("a.mp3")));
    assert_eq!(reader.read_next_entry().unwrap(), Some(path("b.mp3")));
    assert!(matches!(reader.read_next_entry(), Ok(None)));
}

#[test]
fn entries_adapter_yields_all() {
    let reader = EntryReader::new(StrSource::new("a.mp3\nb.mp3\n"));
    let mut entries = reader.entries();
    assert_eq!(entries.next().unwrap().unwrap(), path("a.mp3"));
    assert_eq!(entries.next().unwrap().unwrap(), path("b.mp3"));
    assert!(entries.next().is_none());
}

#[test]
fn into_inner_gives_back_the_source() {
    let reader = EntryReader::new(StrSource::new("a.mp3\n"));
    let source = reader.into_inner();
    let mut again = EntryReader::new(source);
    assert_eq!(again.read_next_entry().unwrap(), Some(path("a.mp3")));
}

#[test]
fn parse_i64_accepts_plain_numbers() {
    assert_eq!(parse_i64("0"), Some(0));
    assert_eq!(parse_i64("123"), Some(123));
    assert_eq!(parse_i64("+5"), Some(5));
    assert_eq!(parse_i64("-42"), Some(-42));
    assert_eq!(parse_i64("007"), Some(7));
}

#[test]
fn parse_i64_bounds() {
    assert_eq!(parse_i64("9223372036854775807"), Some(i64::MAX));
    assert_eq!(parse_i64("9223372036854775808"), None);
    assert_eq!(parse_i64("-9223372036854775808"), Some(i64::MIN));
    assert_eq!(parse_i64("-9223372036854775809"), None);
    assert_eq!(parse_i64("99999999999999999999999"), None);
}

#[test]
fn parse_i64_rejects_junk() {
    assert_eq!(parse_i64(""), None);
    assert_eq!(parse_i64("-"), None);
    assert_eq!(parse_i64("+"), None);
    assert_eq!(parse_i64("12 "), None);
    assert_eq!(parse_i64(" 12"), None);
    assert_eq!(parse_i64("1e3"), None);
    assert_eq!(parse_i64("notanumber"), None);
}
