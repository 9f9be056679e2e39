use vstd::prelude::*;
use vstd::string::StringExecFns;

use crate::model::{EntrySpec, EntryView, Outcome, OutcomeSpec, SnapshotSpec, FeedSnapshot, FeedSource, entry_views, link_views};

verus! {

/// An entry qualifies as new relative to the prior baseline `prev` when it
/// carries a timestamp strictly greater than `prev` (the boundary is
/// exclusive: an entry exactly at the baseline is not new).
pub open spec fn qualifies(e: EntrySpec, prev: i64) -> bool {
    match e.updated_at {
        Some(u) => u > prev,
        None => false,
    }
}

/// The entries that qualify as new relative to `prev`, in declared order.
pub open spec fn new_entries(entries: Seq<EntrySpec>, prev: i64) -> Seq<EntrySpec> {
    entries.filter(|e: EntrySpec| qualifies(e, prev))
}

/// The links of an entry joined with the fixed separator, in declared order.
pub open spec fn join_links(links: Seq<Seq<char>>) -> Seq<char>
    decreases links.len(),
{
    if links.len() == 0 {
        Seq::empty()
    } else if links.len() == 1 {
        links[0]
    } else {
        join_links(links.drop_last()) + ", "@ + links.last()
    }
}

/// One summary line: `title (links)` when the entry has a title, else
/// `(links)`, each line terminated by a carriage return and newline.
pub open spec fn entry_line(e: EntrySpec) -> Seq<char> {
    match e.title {
        Some(t) => t + " ("@ + join_links(e.links) + ")\r\n"@,
        None => "("@ + join_links(e.links) + ")\r\n"@,
    }
}

/// The concatenated summary lines of a sequence of entries.
pub open spec fn lines_of(entries: Seq<EntrySpec>) -> Seq<char>
    decreases entries.len(),
{
    if entries.len() == 0 {
        Seq::empty()
    } else {
        lines_of(entries.drop_last()) + entry_line(entries.last())
    }
}

/// The header line that opens every rendered summary.
pub open spec fn summary_header() -> Seq<char> {
    "New entries in feed:\r\n"@
}

/// The full summary for the entries that qualify relative to `prev`.
pub open spec fn summary_of(entries: Seq<EntrySpec>, prev: i64) -> Seq<char> {
    summary_header() + lines_of(new_entries(entries, prev))
}

/// The baseline after one evaluation: every snapshot that carries a
/// feed-level timestamp installs it; a snapshot without one changes nothing.
pub open spec fn next_observed(last: Option<i64>, snap: SnapshotSpec) -> Option<i64> {
    if snap.feed_updated_at is Some {
        snap.feed_updated_at
    } else {
        last
    }
}

/// The decision for one evaluation of `snap` against the baseline `last`.
pub open spec fn outcome_of(last: Option<i64>, snap: SnapshotSpec) -> OutcomeSpec {
    match (snap.feed_updated_at, last) {
        (Some(f), Some(p)) => if f == p {
            OutcomeSpec::NoSignal
        } else if new_entries(snap.entries, p).len() == 0 {
            OutcomeSpec::NoSignal
        } else {
            OutcomeSpec::Update { summary: summary_of(snap.entries, p) }
        },
        _ => OutcomeSpec::NoSignal,
    }
}

/// Appending one entry extends the qualifying set, and its rendered lines,
/// exactly when the entry qualifies.
proof fn lemma_new_entries_push(s: Seq<EntrySpec>, e: EntrySpec, prev: i64)
    ensures
        new_entries(s.push(e), prev) == (if qualifies(e, prev) {
            new_entries(s, prev).push(e)
        } else {
            new_entries(s, prev)
        }),
        lines_of(new_entries(s.push(e), prev)) == (if qualifies(e, prev) {
            lines_of(new_entries(s, prev)) + entry_line(e)
        } else {
            lines_of(new_entries(s, prev))
        }),
{
    reveal(Seq::filter);
    assert(s.push(e).drop_last() =~= s);
    if qualifies(e, prev) {
        let q = new_entries(s, prev).push(e);
        assert(q.drop_last() =~= new_entries(s, prev));
    }
}

/// Joining one more link appends the separator and the link, unless it is
/// the first link.
proof fn lemma_join_links_push(s: Seq<Seq<char>>, l: Seq<char>)
    ensures
        join_links(s.push(l)) == (if s.len() == 0 {
            l
        } else {
            join_links(s) + ", "@ + l
        }),
{
    assert(s.push(l).drop_last() =~= s);
    if s.len() == 0 {
        assert(join_links(s.push(l)) =~= l);
    }
}

/// Joins the links of one entry with the fixed `", "` separator, in order.
fn join_links_exec(links: &Vec<String>) -> (r: String)
    ensures
        r@ == join_links(link_views(links@)),
{
    let ghost ls = link_views(links@);
    let mut acc = String::new();
    let mut j: usize = 0;
    while j < links.len()
        invariant
            j <= links.len(),
            ls == link_views(links@),
            ls.len() == links@.len(),
            acc@ == join_links(ls.take(j as int)),
        decreases links@.len() - j,
    {
        if j > 0 {
            acc.append(", ");
        }
        acc.append(links[j].as_str());
        proof {
            assert(ls.take(j as int + 1) =~= ls.take(j as int).push(ls[j as int]));
            lemma_join_links_push(ls.take(j as int), ls[j as int]);
        }
        j = j + 1;
    }
    proof {
        assert(ls.take(links@.len() as int) =~= ls);
    }
    acc
}

/// Renders the qualifying entries relative to `prev`: `NoSignal` when none
/// qualifies, else the header followed by one line per qualifying entry.
fn render_new_entries(entries: &Vec<EntryView>, prev: i64) -> (r: Outcome)
    ensures
        r@ == (if new_entries(entry_views(entries@), prev).len() == 0 {
            OutcomeSpec::NoSignal
        } else {
            OutcomeSpec::Update { summary: summary_of(entry_views(entries@), prev) }
        }),
{
    let ghost es = entry_views(entries@);
    let mut message = "New entries in feed:\r\n".to_owned();
    let mut count: usize = 0;
    let mut i: usize = 0;
    while i < entries.len()
        invariant
            i <= entries.len(),
            count <= i,
            es == entry_views(entries@),
            es.len() == entries@.len(),
            message@ == summary_header() + lines_of(new_entries(es.take(i as int), prev)),
            count == new_entries(es.take(i as int), prev).len(),
        decreases entries@.len() - i,
    {
        let e = &entries[i];
        let is_new = match e.updated_at {
            Some(u) => u > prev,
            None => false,
        };
        if is_new {
            match &e.title {
                Some(t) => {
                    message.append(t.as_str());
                    message.append(" (");
                },
                None => {
                    message.append("(");
                },
            }
            let joined = join_links_exec(&e.links);
            message.append(joined.as_str());
            message.append(")\r\n");
            count = count + 1;
        }
        proof {
            assert(es.take(i as int + 1) =~= es.take(i as int).push(es[i as int]));
            lemma_new_entries_push(es.take(i as int), es[i as int], prev);
            if qualifies(es[i as int], prev) {
                assert(message@ =~= summary_header() + lines_of(
                    new_entries(es.take(i as int), prev),
                ) + entry_line(es[i as int]));
            }
        }
        i = i + 1;
    }
    proof {
        assert(es.take(entries@.len() as int) =~= es);
    }
    if count == 0 {
        Outcome::NoSignal
    } else {
        Outcome::Update { summary: message }
    }
}

/// Law: on a source with no baseline yet, a snapshot that carries a
/// feed-level timestamp gives no signal and installs that timestamp as the
/// baseline — the first observation only establishes the baseline.
pub proof fn lemma_baseline(last: Option<i64>, snap: SnapshotSpec)
    requires
        last is None,
        snap.feed_updated_at is Some,
    ensures
        outcome_of(last, snap) is NoSignal,
        next_observed(last, snap) == snap.feed_updated_at,
{
}

/// Law: evaluating the same timestamped snapshot twice in a row on a
/// tracking source gives `NoSignal` the second time and leaves the baseline
/// where the first evaluation put it; and when the snapshot's timestamp
/// already equals the baseline, the first evaluation gives `NoSignal` too.
pub proof fn lemma_idempotent(last: Option<i64>, snap: SnapshotSpec)
    requires
        last is Some,
        snap.feed_updated_at is Some,
    ensures
        outcome_of(next_observed(last, snap), snap) is NoSignal,
        next_observed(next_observed(last, snap), snap) == next_observed(last, snap),
        last == snap.feed_updated_at ==> outcome_of(last, snap) is NoSignal,
{
}

/// Law: once tracking, every timestamped snapshot moves the baseline to the
/// snapshot's feed-level timestamp, whether or not any entry qualifies; in
/// particular the baseline never reverts to absent.
pub proof fn lemma_monotonic_update(last: Option<i64>, snap: SnapshotSpec)
    requires
        last is Some,
        snap.feed_updated_at is Some,
    ensures
        next_observed(last, snap) == snap.feed_updated_at,
        next_observed(last, snap) is Some,
{
}

/// Law: an entry whose timestamp is exactly the prior baseline is excluded
/// from the qualifying set — the boundary is exclusive — whatever the other
/// entries and the feed-level timestamp are.
pub proof fn lemma_exclusive_boundary(entries: Seq<EntrySpec>, prev: i64, e: EntrySpec)
    requires
        e.updated_at == Some(prev),
    ensures
        !new_entries(entries, prev).contains(e),
{
    let q = new_entries(entries, prev);
    assert forall|i: int| 0 <= i < q.len() implies q[i] != e by {
        entries.lemma_filter_pred(|x: EntrySpec| qualifies(x, prev), i);
    }
}

/// Law: a snapshot without a feed-level timestamp never moves the baseline
/// and always gives `NoSignal`.
pub proof fn lemma_missing_timestamp_inert(last: Option<i64>, snap: SnapshotSpec)
    requires
        snap.feed_updated_at is None,
    ensures
        next_observed(last, snap) == last,
        outcome_of(last, snap) is NoSignal,
{
}

/// The core algorithm of one check cycle, applied to an already parsed
/// snapshot: installs the snapshot's feed-level timestamp as the new
/// baseline whenever one is present, and reports `Update` exactly when the
/// source was already tracking, the feed-level timestamp moved, and at
/// least one entry is newer than the prior baseline.
pub fn evaluate(source: &mut FeedSource, snapshot: FeedSnapshot) -> (r: Outcome)
    ensures
        final(source).url == old(source).url,
        final(source).last_observed_update == next_observed(
            old(source).last_observed_update,
            snapshot@,
        ),
        r@ == outcome_of(old(source).last_observed_update, snapshot@),
{
    let feed_updated = match snapshot.feed_updated_at {
        Some(f) => f,
        None => {
            return Outcome::NoSignal;
        },
    };
    let prev = match source.last_observed_update {
        None => {
            source.last_observed_update = Some(feed_updated);
            return Outcome::NoSignal;
        },
        Some(p) => p,
    };
    if feed_updated == prev {
        return Outcome::NoSignal;
    }
    source.last_observed_update = Some(feed_updated);
    render_new_entries(&snapshot.entries, prev)
}

} // verus!
