//! Tests of the extended reader: header validation, `#EXTINF:` metadata,
//! and its error reporting.

use m3u::source::{LineSource, StrSource};
use m3u::{Entry, EntryExt, EntryExtReader, EntryExtReaderConstructionError, ExtInf};
use m3u::ReadEntryExtError;

fn path(s: &str) -> Entry {
    Entry::Path(s.to_string())
}

fn ext(duration_secs: i64, name: &str, entry: Entry) -> EntryExt {
    EntryExt { extinf: ExtInf { duration_secs, name: name.to_string() }, entry }
}

#[test]
fn one_tagged_record() {
    let input = "#EXTM3U\n#EXTINF:123,Track Name\nsong.mp3\n";
    let mut reader = EntryExtReader::new_ext(StrSource::new(input)).unwrap();
    assert_eq!(
        reader.read_next_entry().unwrap(),
        Some(ext(123, "Track Name", path("song.mp3")))
    );
    assert!(matches!(reader.read_next_entry(), Ok(None)));
}

#[test]
fn missing_tag_is_reported_with_the_entry() {
    let input = "#EXTM3U\nsong.mp3\n";
    let mut reader = EntryExtReader::new_ext(StrSource::new(input)).unwrap();
    match reader.read_next_entry() {
        Err(ReadEntryExtError::ExtInfNotFound(e)) => assert_eq!(e, path("song.mp3")),
        other => panic!("expected ExtInfNotFound, got {:?}", other),
    }
}

#[test]
fn missing_header_fails_construction() {
    match EntryExtReader::new_ext(StrSource::new("song.mp3\n")) {
        Err(EntryExtReaderConstructionError::HeaderNotFound) => {}
        other => panic!("expected HeaderNotFound, got {:?}", other),
    }
}

#[test]
fn empty_input_fails_construction() {
    match EntryExtReader::new_ext(StrSource::new("")) {
        Err(EntryExtReaderConstructionError::HeaderNotFound) => {}
        other => panic!("expected HeaderNotFound, got {:?}", other),
    }
}

#[test]
fn unparseable_duration_is_reported_with_the_entry() {
    let input = "#EXTM3U\n#EXTINF:notanumber,Name\nsong.mp3\n";
    let mut reader = EntryExtReader::new_ext(StrSource::new(input)).unwrap();
    match reader.read_next_entry() {
        Err(ReadEntryExtError::ExtInfNotFound(e)) => assert_eq!(e, path("song.mp3")),
        other => panic!("expected ExtInfNotFound, got {:?}", other),
    }
}

#[test]
fn blank_lines_before_header_are_skipped() {
    let input = "\n   \n#EXTM3U\n#EXTINF:1,a\nx.mp3\n";
    let mut reader = EntryExtReader::new_ext(StrSource::new(input)).unwrap();
    assert_eq!(reader.read_next_entry().unwrap(), Some(ext(1, "a", path("x.mp3"))));
}

#[test]
fn header_prefix_match_ignores_trailing_content() {
    let input = "#EXTM3U some banner text\n#EXTINF:1,a\nx.mp3\n";
    let mut reader = EntryExtReader::new_ext(StrSource::new(input)).unwrap();
    assert_eq!(reader.read_next_entry().unwrap(), Some(ext(1, "a", path("x.mp3"))));
}

#[test]
fn comment_before_header_fails_construction() {
    // Only blank lines may precede the header; a comment may not.
    match EntryExtReader::new_ext(StrSource::new("# hello\n#EXTM3U\n")) {
        Err(EntryExtReaderConstructionError::HeaderNotFound) => {}
        other => panic!("expected HeaderNotFound, got {:?}", other),
    }
}

#[test]
fn comments_and_blanks_after_header_yield_nothing() {
    let input = "#EXTM3U\n# just a comment\n\n   \n# another\n";
    let mut reader = EntryExtReader::new_ext(StrSource::new(input)).unwrap();
    assert!(matches!(reader.read_next_entry(), Ok(None)));
}

#[test]
fn metadata_at_end_of_input_is_dropped() {
    let input = "#EXTM3U\n#EXTINF:5,last\n";
    let mut reader = EntryExtReader::new_ext(StrSource::new(input)).unwrap();
    assert!(matches!(reader.read_next_entry(), Ok(None)));
}

#[test]
fn tag_without_comma_fails_on_line_terminator() {
    // With no comma, the duration text keeps the line terminator and does
    // not parse, so the record is reported untagged.
    let input = "#EXTM3U\n#EXTINF:123\nsong.mp3\n";
    let mut reader = EntryExtReader::new_ext(StrSource::new(input)).unwrap();
    match reader.read_next_entry() {
        Err(ReadEntryExtError::ExtInfNotFound(e)) => assert_eq!(e, path("song.mp3")),
        other => panic!("expected ExtInfNotFound, got {:?}", other),
    }
}

#[test]
fn negative_duration_and_trimmed_name() {
    let input = "#EXTM3U\n#EXTINF:-1,  Live Stream  \nhttp://example.com/live\n";
    let mut reader = EntryExtReader::new_ext(StrSource::new(input)).unwrap();
    let record = reader.read_next_entry().unwrap().unwrap();
    assert_eq!(record.extinf.duration_secs, -1);
    assert_eq!(record.extinf.name, "Live Stream");
    match record.entry {
        Entry::Url(u) => assert_eq!(u.host, "example.com"),
        Entry::Path(_) => panic!("expected a URL entry"),
    }
}

#[test]
fn comma_only_name_is_empty() {
    let input = "#EXTM3U\n#EXTINF:7,\nx.mp3\n";
    let mut reader = EntryExtReader::new_ext(StrSource::new(input)).unwrap();
    assert_eq!(reader.read_next_entry().unwrap(), Some(ext(7, "", path("x.mp3"))));
}

#[test]
fn comments_between_tag_and_entry_are_skipped() {
    let input = "#EXTM3U\n#EXTINF:9,a\n# note\n\nx.mp3\n";
    let mut reader = EntryExtReader::new_ext(StrSource::new(input)).unwrap();
    assert_eq!(reader.read_next_entry().unwrap(), Some(ext(9, "a", path("x.mp3"))));
}

#[test]
fn entry_exts_adapter_yields_all() {
    let input = "#EXTM3U\n#EXTINF:1,a\na.mp3\n#EXTINF:2,b\nb.mp3\n";
    let reader = EntryExtReader::new_ext(StrSource::new(input)).unwrap();
    let mut records = reader.entry_exts();
    assert_eq!(records.next().unwrap().unwrap(), ext(1, "a", path("a.mp3")));
    assert_eq!(records.next().unwrap().unwrap(), ext(2, "b", path("b.mp3")));
    assert!(records.next().is_none());
}

#[test]
fn adapter_gives_the_reader_back() {
    let input = "#EXTM3U\n#EXTINF:1,a\na.mp3\n#EXTINF:2,b\nb.mp3\n";
    let reader = EntryExtReader::new_ext(StrSource::new(input)).unwrap();
    let mut records = reader.entry_exts();
    assert_eq!(records.next().unwrap().unwrap(), ext(1, "a", path("a.mp3")));
    let mut reader = records.into_reader();
    assert_eq!(reader.read_next_entry().unwrap(), Some(ext(2, "b", path("b.mp3"))));
}

#[test]
fn error_messages_name_the_problem() {
    let err = EntryExtReader::new_ext(StrSource::new("song.mp3\n")).unwrap_err();
    assert_eq!(err.message(), "the \"#EXTM3U\" header was not found");
    assert!(err.io_cause().is_none());
    let mut reader = EntryExtReader::new_ext(StrSource::new("#EXTM3U\nsong.mp3\n")).unwrap();
    let err = reader.read_next_entry().unwrap_err();
    assert_eq!(
        err.message(),
        "the \"#EXTINF:\" tag was not found or was incorrectly formatted"
    );
    assert!(err.io_cause().is_none());
}

#[test]
fn io_failure_carries_its_cause() {
    let err = EntryExtReader::new_ext(FailingSource).unwrap_err();
    assert_eq!(err.message(), "failed to read a line from the source");
    assert!(err.io_cause().is_some());
}

/// A line source that always fails, as a file with a read error would.
#[derive(Debug)]
struct FailingSource;

impl LineSource for FailingSource {
    fn read_line(&mut self, _buf: &mut String) -> Result<usize, std::io::Error> {
        Err(std::io::Error::new(std::io::ErrorKind::Other, "broken source"))
    }
}

#[test]
fn read_failure_surfaces_during_construction() {
    match EntryExtReader::new_ext(FailingSource) {
        Err(EntryExtReaderConstructionError::BufRead(_)) => {}
        other => panic!("expected BufRead, got {:?}", other),
    }
}

#[test]
fn read_failure_surfaces_from_basic_reader() {
    let mut reader = m3u::EntryReader::new(FailingSource);
    assert!(matches!(reader.read_next_entry(), Err(_)));
}
