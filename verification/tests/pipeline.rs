use blog::builder::{build_post, build_snapshot, BuildIssue, SourceFile};
use blog::header::{Header, HeaderError, HeaderField};
use blog::source::{ParseError, PostSource};
use blog::store::{handle_snapshot, Store};

fn file(name: &str, text: &str) -> SourceFile {
    SourceFile { name: name.to_string(), text: text.to_string() }
}

#[test]
fn round_trip_parse_format() {
    let text = "id: hello\ntitle: Hello World\npublish: 1700000000\n---\n# Not a heading\n\nBody text.";
    let ps = PostSource::parse(text).unwrap();
    assert_eq!(ps.header().id(), "hello");
    assert_eq!(ps.header().title(), "Hello World");
    assert_eq!(ps.header().publish(), 1700000000);
    assert_eq!(ps.markdown(), "# Not a heading\n\nBody text.");
    // Serializing reproduces the original text exactly.
    assert_eq!(ps.to_text(), text);
    // Re-parsing the serialization yields an equivalent value.
    let ps2 = PostSource::parse(&ps.to_text()).unwrap();
    assert_eq!(ps2.header().id(), ps.header().id());
    assert_eq!(ps2.header().title(), ps.header().title());
    assert_eq!(ps2.header().publish(), ps.header().publish());
    assert_eq!(ps2.markdown(), ps.markdown());
}

#[test]
fn parse_without_delimiter_fails() {
    let r = PostSource::parse("id: x\ntitle: y\npublish: 1\nno delimiter anywhere");
    assert!(matches!(r, Err(ParseError::NoDelimiter)));
}

#[test]
fn parse_empty_text_fails_with_no_delimiter() {
    assert!(matches!(PostSource::parse(""), Err(ParseError::NoDelimiter)));
}

#[test]
fn header_missing_id_is_reported() {
    let r = Header::parse("title: y\npublish: 1");
    assert_eq!(r.unwrap_err(), HeaderError::MissingField(HeaderField::Id));
}

#[test]
fn header_missing_title_is_reported() {
    let r = Header::parse("id: x\npublish: 1");
    assert_eq!(r.unwrap_err(), HeaderError::MissingField(HeaderField::Title));
}

#[test]
fn header_missing_publish_is_reported() {
    let r = Header::parse("id: x\ntitle: y");
    assert_eq!(r.unwrap_err(), HeaderError::MissingField(HeaderField::Publish));
}

#[test]
fn header_malformed_publish_is_reported() {
    let r = Header::parse("id: x\ntitle: y\npublish: tomorrow");
    assert_eq!(r.unwrap_err(), HeaderError::MalformedTimestamp(HeaderField::Publish));
}

#[test]
fn header_publish_overflow_is_reported() {
    // One more than u64::MAX.
    let r = Header::parse("id: x\ntitle: y\npublish: 18446744073709551616");
    assert_eq!(r.unwrap_err(), HeaderError::MalformedTimestamp(HeaderField::Publish));
    // Exactly u64::MAX parses.
    let h = Header::parse("id: x\ntitle: y\npublish: 18446744073709551615").unwrap();
    assert_eq!(h.publish(), u64::MAX);
}

#[test]
fn header_malformed_update_is_reported() {
    let r = Header::parse("id: x\ntitle: y\npublish: 1\nupdate: soon");
    assert_eq!(r.unwrap_err(), HeaderError::MalformedTimestamp(HeaderField::Update));
}

#[test]
fn header_malformed_draft_is_reported() {
    let r = Header::parse("id: x\ntitle: y\npublish: 1\ndraft: maybe");
    assert_eq!(r.unwrap_err(), HeaderError::MalformedFlag(HeaderField::Draft));
}

#[test]
fn header_unknown_fields_are_tolerated() {
    let h = Header::parse("id: x\nfancy-new-field: whatever\ntitle: y\npublish: 3\nextra: 1")
        .unwrap();
    assert_eq!(h.id(), "x");
    assert_eq!(h.title(), "y");
    assert_eq!(h.publish(), 3);
    assert_eq!(h.update(), None);
    assert!(!h.draft());
}

#[test]
fn header_tags_are_trimmed_and_deduplicated() {
    let h = Header::parse("id: x\ntitle: y\npublish: 1\ntags: a , b,, a, c").unwrap();
    assert_eq!(h.tags().as_slice(), ["a", "b", "c"]);
}

#[test]
fn header_draft_flag_parses() {
    let h = Header::parse("id: x\ntitle: y\npublish: 1\ndraft: true").unwrap();
    assert!(h.draft());
    let h = Header::parse("id: x\ntitle: y\npublish: 1\ndraft: false").unwrap();
    assert!(!h.draft());
}

#[test]
fn build_post_renders_body_and_summary() {
    let p = build_post("id: x\ntitle: y\npublish: 1\n---\nFirst paragraph.\n\nSecond.").unwrap();
    assert_eq!(p.html, "<p>First paragraph.</p>\n<p>Second.</p>\n");
    assert_eq!(p.summary, "First paragraph.");
}

#[test]
fn rebuild_isolation_keeps_good_posts() {
    // Three well-formed files and one malformed file: the snapshot holds
    // exactly three posts, and the rebuild as a whole does not fail.
    let files = vec![
        file("a.md", "id: a\ntitle: A\npublish: 30\n---\nalpha"),
        file("broken.md", "this file has no delimiter at all"),
        file("b.md", "id: b\ntitle: B\npublish: 10\n---\nbeta"),
        file("c.md", "id: c\ntitle: C\npublish: 20\n---\ngamma"),
    ];
    let (snap, failures) = build_snapshot(&files);
    assert_eq!(snap.len(), 3);
    assert_eq!(failures.len(), 1);
    assert_eq!(failures[0].name, "broken.md");
    assert_eq!(failures[0].issue, BuildIssue::Parse(ParseError::NoDelimiter));
    assert!(snap.get_by_id("a").is_some());
    assert!(snap.get_by_id("b").is_some());
    assert!(snap.get_by_id("c").is_some());
    assert!(snap.get_by_id("broken").is_none());
}

#[test]
fn duplicate_ids_are_excluded_and_reported() {
    let files = vec![
        file("a.md", "id: a\ntitle: First\npublish: 1\n---\none"),
        file("a2.md", "id: a\ntitle: Second\npublish: 2\n---\ntwo"),
    ];
    let (snap, failures) = build_snapshot(&files);
    assert_eq!(snap.len(), 1);
    assert_eq!(failures.len(), 1);
    assert_eq!(failures[0].name, "a2.md");
    assert_eq!(failures[0].issue, BuildIssue::DuplicateId);
    assert_eq!(snap.get_by_id("a").unwrap().title, "First");
}

#[test]
fn snapshot_ordering_is_descending_with_id_ties_ascending() {
    let files = vec![
        file("1", "id: mid\ntitle: M\npublish: 20\n---\nm"),
        file("2", "id: zz\ntitle: Z\npublish: 30\n---\nz"),
        file("3", "id: aa\ntitle: A\npublish: 30\n---\na"),
        file("4", "id: old\ntitle: O\npublish: 10\n---\no"),
    ];
    let (snap, failures) = build_snapshot(&files);
    assert!(failures.is_empty());
    let ids: Vec<&str> = snap.posts().iter().map(|p| p.id.as_str()).collect();
    // Descending by publish; equal timestamps ordered by ascending id.
    assert_eq!(ids, ["aa", "zz", "mid", "old"]);
}

#[test]
fn snapshot_lookup_matches_sequence() {
    let files = vec![
        file("1", "id: one\ntitle: One\npublish: 1\n---\nx"),
        file("2", "id: two\ntitle: Two\npublish: 2\n---\ny"),
    ];
    let (snap, _) = build_snapshot(&files);
    assert_eq!(snap.len(), snap.posts().len());
    for p in snap.posts() {
        let found = snap.get_by_id(&p.id).expect("every post is reachable by its id");
        assert_eq!(found.id, p.id);
        assert_eq!(found.title, p.title);
    }
}

#[test]
fn store_handle_stays_valid_across_publish() {
    let files1 = vec![file("1", "id: first\ntitle: F\npublish: 1\n---\nx")];
    let files2 = vec![
        file("1", "id: first\ntitle: F\npublish: 1\n---\nx"),
        file("2", "id: second\ntitle: S\npublish: 2\n---\ny"),
    ];
    let (snap1, _) = build_snapshot(&files1);
    let (snap2, _) = build_snapshot(&files2);

    let mut store = Store::new();
    assert_eq!(store.list_sorted().len(), 0);
    store.publish(snap1);
    let handle = store.current();
    assert_eq!(handle_snapshot(&handle).len(), 1);

    store.publish(snap2);
    // The old handle still reports the pre-publish contents.
    assert_eq!(handle_snapshot(&handle).len(), 1);
    assert!(handle_snapshot(&handle).get_by_id("second").is_none());
    // A fresh read observes the new snapshot.
    let fresh = store.current();
    assert_eq!(handle_snapshot(&fresh).len(), 2);
    assert!(handle_snapshot(&fresh).get_by_id("second").is_some());
    // Derived reads follow the current snapshot.
    assert!(store.get_by_id("second").is_some());
    assert!(store.get_by_id("missing").is_none());
}
