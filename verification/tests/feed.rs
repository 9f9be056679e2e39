use gargoyle_feed_monitor::detector::evaluate;
use gargoyle_feed_monitor::model::{EntryView, FeedSnapshot, FeedSource, Outcome};

// 2023-01-01T00:00:00Z and 2023-01-02T00:00:00Z, in microseconds since the
// Unix epoch.
const T1_MICROS: i64 = 1_672_531_200_000_000;
const T2_MICROS: i64 = 1_672_617_600_000_000;

/// Parses bytes with the real feed parser and projects out what the library
/// reads, exactly as the shell around the library does.
fn parse(bytes: &[u8], base_url: &str) -> Option<FeedSnapshot> {
    let parser = feed_rs::parser::Builder::new().base_uri(Some(base_url)).build();
    let feed = match parser.parse(bytes) {
        Ok(feed) => feed,
        Err(_) => return None,
    };
    let entries = feed
        .entries
        .iter()
        .map(|e| EntryView {
            title: e.title.as_ref().map(|t| t.content.clone()),
            updated_at: e.updated.map(|d| d.timestamp_micros()),
            links: e.links.iter().map(|l| l.href.clone()).collect(),
        })
        .collect();
    Some(FeedSnapshot { feed_updated_at: feed.updated.map(|d| d.timestamp_micros()), entries })
}

fn atom(feed_updated: &str, entries: &str) -> Vec<u8> {
    let mut s = String::new();
    s.push_str("<?xml version=\"1.0\" encoding=\"utf-8\"?>\n");
    s.push_str("<feed xmlns=\"http://www.w3.org/2005/Atom\">\n");
    s.push_str("  <title>Example feed</title>\n");
    s.push_str("  <id>urn:feed:example</id>\n");
    s.push_str(&format!("  <updated>{}</updated>\n", feed_updated));
    s.push_str(entries);
    s.push_str("</feed>\n");
    s.into_bytes()
}

fn atom_entry(title: &str, updated: &str, hrefs: &[&str]) -> String {
    let links: String = hrefs
        .iter()
        .map(|h| format!("    <link href=\"{}\"/>\n", h))
        .collect();
    let mut s = String::new();
    s.push_str("  <entry>\n");
    s.push_str(&format!("    <title>{}</title>\n", title));
    s.push_str(&format!("    <id>urn:entry:{}</id>\n", title));
    s.push_str(&format!("    <updated>{}</updated>\n", updated));
    s.push_str(&links);
    s.push_str("  </entry>\n");
    s
}

const URL: &str = "http://example.com/feed";

#[test]
fn first_parse_establishes_baseline_from_feed_bytes() {
    let mut source = FeedSource::new(URL.to_string());
    let bytes = atom(
        "2023-01-01T00:00:00Z",
        &atom_entry("A", "2022-12-31T00:00:00Z", &["http://example.com/x"]),
    );
    let snapshot = parse(&bytes, URL).unwrap();
    assert_eq!(snapshot.feed_updated_at, Some(T1_MICROS));
    assert_eq!(evaluate(&mut source, snapshot), Outcome::NoSignal);
    assert_eq!(source.last_observed_update, Some(T1_MICROS));
}

#[test]
fn moved_feed_with_new_entry_reports_update() {
    let mut source = FeedSource::new(URL.to_string());
    let first = atom(
        "2023-01-01T00:00:00Z",
        &atom_entry("A", "2022-12-31T00:00:00Z", &["http://example.com/x"]),
    );
    assert_eq!(evaluate(&mut source, parse(&first, URL).unwrap()), Outcome::NoSignal);

    let second = atom(
        "2023-01-02T00:00:00Z",
        &atom_entry(
            "B",
            "2023-01-02T00:00:00Z",
            &["http://example.com/y", "http://example.com/z"],
        ),
    );
    match evaluate(&mut source, parse(&second, URL).unwrap()) {
        Outcome::Update { summary } => {
            assert_eq!(
                summary,
                "New entries in feed:\r\nB (http://example.com/y, http://example.com/z)\r\n"
            );
        },
        Outcome::NoSignal => panic!("expected an update"),
    }
    assert_eq!(source.last_observed_update, Some(T2_MICROS));
}

#[test]
fn unchanged_feed_gives_no_signal() {
    let mut source = FeedSource::new(URL.to_string());
    let bytes = atom(
        "2023-01-01T00:00:00Z",
        &atom_entry("A", "2023-01-01T00:00:00Z", &["http://example.com/x"]),
    );
    assert_eq!(evaluate(&mut source, parse(&bytes, URL).unwrap()), Outcome::NoSignal);
    assert_eq!(evaluate(&mut source, parse(&bytes, URL).unwrap()), Outcome::NoSignal);
    assert_eq!(source.last_observed_update, Some(T1_MICROS));
}

#[test]
fn unparsable_bytes_are_a_parse_failure() {
    assert!(parse(b"this is not a feed", URL).is_none());
}

#[test]
fn feed_without_updated_field_is_inert() {
    let mut source = FeedSource::new(URL.to_string());
    // RSS without a channel-level date parses, but carries no feed timestamp
    let bytes = b"<rss version=\"2.0\"><channel><title>t</title>\
        <description>d</description><link>http://example.com</link>\
        </channel></rss>"
        .to_vec();
    let snapshot = parse(&bytes, URL).unwrap();
    assert_eq!(snapshot.feed_updated_at, None);
    assert_eq!(evaluate(&mut source, snapshot), Outcome::NoSignal);
    assert_eq!(source.last_observed_update, None);
}

#[test]
fn relative_links_resolve_against_the_source_url() {
    let mut source = FeedSource::new(URL.to_string());
    let first = atom("2023-01-01T00:00:00Z", "");
    assert_eq!(evaluate(&mut source, parse(&first, URL).unwrap()), Outcome::NoSignal);

    let second = atom(
        "2023-01-02T00:00:00Z",
        &atom_entry("B", "2023-01-02T00:00:00Z", &["/posts/b"]),
    );
    match evaluate(&mut source, parse(&second, URL).unwrap()) {
        Outcome::Update { summary } => {
            assert_eq!(summary, "New entries in feed:\r\nB (http://example.com/posts/b)\r\n");
        },
        Outcome::NoSignal => panic!("expected an update"),
    }
}
