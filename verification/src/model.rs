use vstd::prelude::*;

verus! {

/// One entry of a feed snapshot: an optional title, an optional update
/// timestamp (microseconds since the Unix epoch), and its links in the
/// order the feed declares them. An entry without a timestamp is never
/// eligible to be reported as new.
#[derive(Debug, Clone, PartialEq, Eq)]
pub struct EntryView {
    pub title: Option<String>,
    pub updated_at: Option<i64>,
    pub links: Vec<String>,
}

/// The result of one successful fetch and parse: the feed-level update
/// timestamp, if the format declares one, and the entries in declared order.
#[derive(Debug, Clone, PartialEq, Eq)]
pub struct FeedSnapshot {
    pub feed_updated_at: Option<i64>,
    pub entries: Vec<EntryView>,
}

/// The decision for one check cycle: either nothing actionable, or new
/// entries were found together with their rendered summary.
#[derive(Debug, Clone, PartialEq, Eq)]
pub enum Outcome {
    NoSignal,
    Update { summary: String },
}

/// Mathematical image of an `EntryView`: strings as character sequences.
pub struct EntrySpec {
    pub title: Option<Seq<char>>,
    pub updated_at: Option<i64>,
    pub links: Seq<Seq<char>>,
}

/// Mathematical image of a `FeedSnapshot`.
pub struct SnapshotSpec {
    pub feed_updated_at: Option<i64>,
    pub entries: Seq<EntrySpec>,
}

/// Mathematical image of an `Outcome`.
pub enum OutcomeSpec {
    NoSignal,
    Update { summary: Seq<char> },
}

pub open spec fn link_views(links: Seq<String>) -> Seq<Seq<char>> {
    links.map_values(|l: String| l@)
}

pub open spec fn entry_views(entries: Seq<EntryView>) -> Seq<EntrySpec> {
    entries.map_values(|e: EntryView| e@)
}

impl View for EntryView {
    type V = EntrySpec;

    open spec fn view(&self) -> EntrySpec {
        EntrySpec {
            title: match self.title {
                Some(t) => Some(t@),
                None => None,
            },
            updated_at: self.updated_at,
            links: link_views(self.links@),
        }
    }
}

impl View for FeedSnapshot {
    type V = SnapshotSpec;

    open spec fn view(&self) -> SnapshotSpec {
        SnapshotSpec { feed_updated_at: self.feed_updated_at, entries: entry_views(self.entries@) }
    }
}

impl View for Outcome {
    type V = OutcomeSpec;

    open spec fn view(&self) -> OutcomeSpec {
        match self {
            Outcome::NoSignal => OutcomeSpec::NoSignal,
            Outcome::Update { summary } => OutcomeSpec::Update { summary: summary@ },
        }
    }
}

/// One monitored feed: its URL and the feed-level timestamp most recently
/// observed for it. `last_observed_update` is `None` until the first
/// successful parse that carries a feed-level timestamp.
#[derive(Debug)]
pub struct FeedSource {
    pub url: String,
    pub last_observed_update: Option<i64>,
}

impl FeedSource {
    /// A freshly created source has no observed baseline yet.
    pub fn new(url: String) -> (r: FeedSource)
        ensures
            r.url@ == url@,
            r.last_observed_update is None,
    {
        FeedSource { url, last_observed_update: None }
    }
}

} // verus!
