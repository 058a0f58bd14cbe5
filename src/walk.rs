use vstd::prelude::*;

use crate::capture::{CaptureView, Outcome, Phase};

verus! {

/// The state reached by feeding a sequence of outcomes, first to last.
pub open spec fn run(v: CaptureView, trace: Seq<Outcome>) -> CaptureView
    decreases trace.len(),
{
    if trace.len() == 0 {
        v
    } else {
        run(crate::capture::step_spec(v, trace[0]), trace.subrange(1, trace.len() as int))
    }
}

/// Feeding one more outcome after a trace is one more step: a capture fed
/// the outcomes of `trace`, one `step` each, has the view `run(crate::capture::start(), trace)`.
pub proof fn lemma_run_extend(v: CaptureView, trace: Seq<Outcome>, e: Outcome)
    ensures
        run(v, trace.push(e)) == crate::capture::step_spec(run(v, trace), e),
{
    lemma_run_concat(v, trace, seq![e]);
    assert(trace.push(e) =~= trace + seq![e]);
    lemma_run_one(run(v, trace), e);
}

/// The outcome of reading one entry: its content, or `None` when unreadable.
pub open spec fn read_outcome(entry: Option<Seq<u8>>) -> Outcome {
    match entry {
        Some(b) => Outcome::Read(b),
        None => Outcome::ReadFailed,
    }
}

/// The outcomes reported for a list of entries, each listed then read.
pub open spec fn entry_outcomes(entries: Seq<Option<Seq<u8>>>) -> Seq<Outcome>
    decreases entries.len(),
{
    if entries.len() == 0 {
        Seq::empty()
    } else {
        seq![Outcome::Entry, read_outcome(entries[0])] + entry_outcomes(
            entries.subrange(1, entries.len() as int),
        )
    }
}

/// The outcomes of a complete walk of a directory that opens and lists
/// without error.
pub open spec fn walk(entries: Seq<Option<Seq<u8>>>) -> Seq<Outcome> {
    seq![Outcome::Opened] + entry_outcomes(entries) + seq![Outcome::NoMoreEntries]
}

/// The contents of the readable entries, in listing order.
pub open spec fn readable(entries: Seq<Option<Seq<u8>>>) -> Seq<Seq<u8>>
    decreases entries.len(),
{
    if entries.len() == 0 {
        Seq::empty()
    } else {
        let rest = readable(entries.subrange(1, entries.len() as int));
        match entries[0] {
            Some(b) => seq![b] + rest,
            None => rest,
        }
    }
}

/// A directory of regular files that all read without error.
pub open spec fn all_readable(files: Seq<Seq<u8>>) -> Seq<Option<Seq<u8>>> {
    files.map_values(|f: Seq<u8>| Some(f))
}

proof fn lemma_run_concat(v: CaptureView, a: Seq<Outcome>, b: Seq<Outcome>)
    ensures
        run(v, a + b) == run(run(v, a), b),
    decreases a.len(),
{
    if a.len() > 0 {
        assert((a + b).subrange(1, (a + b).len() as int) =~= a.subrange(1, a.len() as int) + b);
        assert((a + b)[0] == a[0]);
        lemma_run_concat(crate::capture::step_spec(v, a[0]), a.subrange(1, a.len() as int), b);
    } else {
        assert(a + b =~= b);
    }
}

proof fn lemma_run_one(v: CaptureView, e: Outcome)
    ensures
        run(v, seq![e]) == crate::capture::step_spec(v, e),
{
    assert(seq![e].subrange(1, 1) =~= Seq::<Outcome>::empty());
    assert(run(crate::capture::step_spec(v, e), Seq::<Outcome>::empty()) == crate::capture::step_spec(v, e));
}

proof fn lemma_run_done(v: CaptureView, trace: Seq<Outcome>)
    requires
        v.phase == Phase::Done,
    ensures
        run(v, trace) == v,
    decreases trace.len(),
{
    if trace.len() > 0 {
        lemma_run_done(crate::capture::step_spec(v, trace[0]), trace.subrange(1, trace.len() as int));
    }
}

proof fn lemma_run_entries(v: CaptureView, entries: Seq<Option<Seq<u8>>>)
    requires
        v.phase == Phase::Listing,
    ensures
        run(v, entry_outcomes(entries)) == (CaptureView {
            phase: Phase::Listing,
            blobs: v.blobs + readable(entries),
        }),
    decreases entries.len(),
{
    let rest = entries.subrange(1, entries.len() as int);
    if entries.len() == 0 {
        assert(v.blobs + readable(entries) =~= v.blobs);
    } else {
        let head = seq![Outcome::Entry, read_outcome(entries[0])];
        assert(entry_outcomes(entries) == head + entry_outcomes(rest));
        lemma_run_concat(v, head, entry_outcomes(rest));
        assert(head =~= seq![Outcome::Entry] + seq![read_outcome(entries[0])]);
        lemma_run_concat(v, seq![Outcome::Entry], seq![read_outcome(entries[0])]);
        lemma_run_one(v, Outcome::Entry);
        let mid = crate::capture::step_spec(v, Outcome::Entry);
        lemma_run_one(mid, read_outcome(entries[0]));
        let after = run(v, head);
        assert(after == crate::capture::step_spec(mid, read_outcome(entries[0])));
        lemma_run_entries(after, rest);
        match entries[0] {
            Some(b) => {
                assert(after.blobs == v.blobs.push(b));
                assert(v.blobs.push(b) + readable(rest) =~= v.blobs + (seq![b] + readable(rest)));
            },
            None => {},
        }
    }
}

/// A directory that opens and lists without error yields one blob per
/// readable entry, equal to its content, in listing order; unreadable
/// entries are skipped.
pub proof fn lemma_walk_captures_readable(entries: Seq<Option<Seq<u8>>>)
    ensures
        run(crate::capture::start(), walk(entries)) == (CaptureView {
            phase: Phase::Done,
            blobs: readable(entries),
        }),
{
    let opened = seq![Outcome::Opened];
    let end = seq![Outcome::NoMoreEntries];
    lemma_run_concat(crate::capture::start(), opened + entry_outcomes(entries), end);
    lemma_run_concat(crate::capture::start(), opened, entry_outcomes(entries));
    lemma_run_one(crate::capture::start(), Outcome::Opened);
    lemma_run_entries(run(crate::capture::start(), opened), entries);
    assert(Seq::<Seq<u8>>::empty() + readable(entries) =~= readable(entries));
    lemma_run_one(run(crate::capture::start(), opened + entry_outcomes(entries)), Outcome::NoMoreEntries);
}

proof fn lemma_readable_all(files: Seq<Seq<u8>>)
    ensures
        readable(all_readable(files)) == files,
    decreases files.len(),
{
    let rest = files.subrange(1, files.len() as int);
    if files.len() == 0 {
        assert(all_readable(files) =~= Seq::<Option<Seq<u8>>>::empty());
    } else {
        assert(all_readable(files).subrange(1, files.len() as int) =~= all_readable(rest));
        lemma_readable_all(rest);
        assert(seq![files[0]] + rest =~= files);
    }
}

/// A directory of K regular files that all read yields exactly K blobs,
/// each the full content of the corresponding file.
pub proof fn lemma_readable_files_captured(files: Seq<Seq<u8>>)
    ensures
        run(crate::capture::start(), walk(all_readable(files))).phase == Phase::Done,
        run(crate::capture::start(), walk(all_readable(files))).blobs == files,
        run(crate::capture::start(), walk(all_readable(files))).blobs.len() == files.len(),
{
    lemma_walk_captures_readable(all_readable(files));
    lemma_readable_all(files);
}

/// A directory that cannot be opened yields an empty, finished capture
/// group, whatever is reported afterwards.
pub proof fn lemma_missing_directory_empty(trace: Seq<Outcome>)
    requires
        trace.len() > 0,
        trace[0] == Outcome::OpenFailed,
    ensures
        run(crate::capture::start(), trace) == (CaptureView { phase: Phase::Done, blobs: Seq::empty() }),
{
    lemma_run_done(crate::capture::step_spec(crate::capture::start(), trace[0]), trace.subrange(1, trace.len() as int));
}

proof fn lemma_singleton_multiset<A>(x: A)
    ensures
        forall|y: A| #[trigger] seq![x].to_multiset().count(y) == if y == x { 1nat } else { 0nat },
{
    broadcast use vstd::seq_lib::to_multiset_build, vstd::seq_lib::to_multiset_contains;
    broadcast use vstd::multiset::group_multiset_axioms;

    let e = Seq::<A>::empty();
    assert(seq![x] =~= e.push(x));
    assert forall|y: A| #[trigger] e.to_multiset().count(y) == 0 by {
        assert(!e.contains(y));
    }
}

proof fn lemma_readable_counts(entries: Seq<Option<Seq<u8>>>)
    ensures
        forall|b: Seq<u8>| #[trigger]
            readable(entries).to_multiset().count(b) == entries.to_multiset().count(Some(b)),
    decreases entries.len(),
{
    broadcast use vstd::multiset::group_multiset_axioms;

    if entries.len() == 0 {
        broadcast use vstd::seq_lib::to_multiset_contains;

        assert forall|b: Seq<u8>| #[trigger]
            readable(entries).to_multiset().count(b) == entries.to_multiset().count(Some(b)) by {
            assert(!entries.contains(Some(b)));
            assert(!readable(entries).contains(b));
        }
    } else {
        let rest = entries.subrange(1, entries.len() as int);
        lemma_readable_counts(rest);
        assert(entries =~= seq![entries[0]] + rest);
        vstd::seq_lib::lemma_multiset_commutative(seq![entries[0]], rest);
        lemma_singleton_multiset(entries[0]);
        let whole = entries.to_multiset();
        assert(whole == seq![entries[0]].to_multiset().add(rest.to_multiset()));
        match entries[0] {
            Some(x) => {
                assert(readable(entries) == seq![x] + readable(rest));
                vstd::seq_lib::lemma_multiset_commutative(seq![x], readable(rest));
                lemma_singleton_multiset(x);
                assert forall|b: Seq<u8>| #[trigger]
                    readable(entries).to_multiset().count(b) == whole.count(Some(b)) by {
                    assert(seq![entries[0]].to_multiset().count(Some(b)) == seq![x].to_multiset().count(b));
                }
            },
            None => {
                assert(readable(entries) == readable(rest));
                assert forall|b: Seq<u8>| #[trigger]
                    readable(entries).to_multiset().count(b) == whole.count(Some(b)) by {
                    assert(seq![entries[0]].to_multiset().count(Some(b)) == 0);
                }
            },
        }
    }
}

/// Walking one directory twice, with its entries listed in any two orders
/// and the same entries unreadable each time, yields the same blobs as a
/// multiset.
pub proof fn lemma_relisting_same_blobs(
    first: Seq<Option<Seq<u8>>>,
    second: Seq<Option<Seq<u8>>>,
)
    requires
        first.to_multiset() == second.to_multiset(),
    ensures
        run(crate::capture::start(), walk(first)).blobs.to_multiset() == run(
            crate::capture::start(),
            walk(second),
        ).blobs.to_multiset(),
{
    lemma_walk_captures_readable(first);
    lemma_walk_captures_readable(second);
    lemma_readable_counts(first);
    lemma_readable_counts(second);
    assert(readable(first).to_multiset() =~= readable(second).to_multiset());
}

} // verus!
