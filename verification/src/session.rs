//! What holds of a whole session: of every sequence of records that reaches
//! the store, from one connection or from many.
//!
//! The store takes one record at a time. However many connections submit at
//! once, the records reach it in some order, one after another; a log is such
//! an order, and the laws here hold of every log.
use vstd::prelude::*;
use crate::sample::{parsed_values, sample_of, SAMPLE_ARITY};
use crate::store::StoreView;

verus! {

/// The store after the records in `lines` were submitted to it, in order. A
/// record is given by the outcome of parsing each of its fields.
pub open spec fn submit_all<R>(start: StoreView<R>, lines: Seq<Seq<Option<R>>>) -> StoreView<R>
    decreases lines.len(),
{
    if lines.len() == 0 {
        start
    } else {
        submit_all(start, lines.drop_last()).submit(lines.last())
    }
}

/// The samples of the records in `lines` that yield one, in order.
pub open spec fn accepted<R>(lines: Seq<Seq<Option<R>>>) -> Seq<Seq<R>> {
    lines.filter_map(|fields: Seq<Option<R>>| sample_of(fields))
}

/// The first seven parsed values of each record in `lines`.
pub open spec fn first_sevens<R>(lines: Seq<Seq<Option<R>>>) -> Seq<Seq<R>> {
    lines.map_values(|fields: Seq<Option<R>>| parsed_values(fields).take(SAMPLE_ARITY as int))
}

/// One record on its way to the store, with the connection it came from.
pub struct Submission<R> {
    pub connection: nat,
    pub fields: Seq<Option<R>>,
}

/// One sample that reached the store, with the connection it came from.
pub struct Commit<R> {
    pub connection: nat,
    pub sample: Seq<R>,
}

/// The records of a log, without their connections.
pub open spec fn records<R>(log: Seq<Submission<R>>) -> Seq<Seq<Option<R>>> {
    log.map_values(|submission: Submission<R>| submission.fields)
}

/// The records that one connection submitted, in the order it submitted them.
pub open spec fn submitted_by<R>(log: Seq<Submission<R>>, connection: nat) -> Seq<Seq<Option<R>>> {
    records(log.filter(|submission: Submission<R>| submission.connection == connection))
}

/// The commits that a log leads to, in order: one for each record that yields
/// a sample.
pub open spec fn commits<R>(log: Seq<Submission<R>>) -> Seq<Commit<R>> {
    log.filter_map(
        |submission: Submission<R>|
            match sample_of(submission.fields) {
                Some(sample) => Some(Commit { connection: submission.connection, sample }),
                None => None,
            },
    )
}

/// The samples of the given commits.
pub open spec fn samples<R>(commits: Seq<Commit<R>>) -> Seq<Seq<R>> {
    commits.map_values(|commit: Commit<R>| commit.sample)
}

/// The samples that one connection committed, in the order in which they
/// reached the store.
pub open spec fn committed_by<R>(log: Seq<Submission<R>>, connection: nat) -> Seq<Seq<R>> {
    samples(commits(log).filter(|commit: Commit<R>| commit.connection == connection))
}

/// A record with fewer than seven parsed values changes nothing: neither the
/// latest sample nor the history.
pub proof fn lemma_short_record_changes_nothing<R>(store: StoreView<R>, fields: Seq<Option<R>>)
    requires
        parsed_values(fields).len() < SAMPLE_ARITY,
    ensures
        store.submit(fields) == store,
        store.submit(fields).latest_or_empty() == store.latest_or_empty(),
        store.submit(fields).history == store.history,
{
}

/// After a commit the latest sample is the last element of the history.
pub proof fn lemma_latest_is_last_after_commit<R>(store: StoreView<R>, sample: Seq<R>)
    ensures
        store.commit(sample).history.len() == store.history.len() + 1,
        store.commit(sample).latest == Some(store.commit(sample).history.last()),
        store.commit(sample).latest_or_empty() == sample,
{
}

/// After a reset both readers see nothing, whatever the store held.
pub proof fn lemma_reset_empties<R>(store: StoreView<R>)
    ensures
        store.reset().latest_or_empty() == Seq::<R>::empty(),
        store.reset().history == Seq::<Seq<R>>::empty(),
        store.reset().wf(),
{
}

/// The invariant of the store holds at the start and after every operation.
pub proof fn lemma_invariant_is_kept<R>(store: StoreView<R>, sample: Seq<R>, fields: Seq<Option<R>>)
    requires
        store.wf(),
    ensures
        StoreView::<R>::empty().wf(),
        sample.len() == SAMPLE_ARITY ==> store.commit(sample).wf(),
        store.submit(fields).wf(),
        store.reset().wf(),
{
}

/// The history after a run of submissions is the history before it, followed
/// by the samples of the records that yield one, in submission order. The
/// latest sample is the last of these, or the one before the run if there is
/// none.
pub proof fn lemma_history_after_submissions<R>(start: StoreView<R>, lines: Seq<Seq<Option<R>>>)
    ensures
        submit_all(start, lines).history == start.history + accepted(lines),
        submit_all(start, lines).latest == if accepted(lines).len() == 0 {
            start.latest
        } else {
            Some(accepted(lines).last())
        },
        start.wf() ==> submit_all(start, lines).wf(),
    decreases lines.len(),
{
    if lines.len() == 0 {
        assert(start.history + accepted(lines) =~= start.history);
    } else {
        let before = lines.drop_last();
        lemma_history_after_submissions(start, before);
        let middle = submit_all(start, before);
        match sample_of(lines.last()) {
            Some(sample) => {
                assert(accepted(lines) == accepted(before) + seq![sample]);
                assert(middle.commit(sample).history =~= start.history + accepted(lines));
            },
            None => {
                assert(accepted(lines) == accepted(before));
            },
        }
    }
}

/// Where every record has seven or more parsed values, every record yields a
/// sample: its first seven parsed values.
pub proof fn lemma_valid_records_all_accepted<R>(lines: Seq<Seq<Option<R>>>)
    requires
        forall|i: int| 0 <= i < lines.len() ==> parsed_values(#[trigger] lines[i]).len() >= SAMPLE_ARITY,
    ensures
        accepted(lines) == first_sevens(lines),
    decreases lines.len(),
{
    if lines.len() == 0 {
        assert(accepted(lines) =~= first_sevens(lines));
    } else {
        let before = lines.drop_last();
        lemma_valid_records_all_accepted(before);
        assert(parsed_values(lines[lines.len() - 1]).len() >= SAMPLE_ARITY);
        assert(first_sevens(lines) =~= first_sevens(before).push(
            parsed_values(lines.last()).take(SAMPLE_ARITY as int),
        ));
    }
}

/// Records with seven or more parsed values each, submitted one after another,
/// are all in the history afterwards, in submission order, each cut to its
/// first seven values.
pub proof fn lemma_valid_records_kept_in_order<R>(start: StoreView<R>, lines: Seq<Seq<Option<R>>>)
    requires
        forall|i: int| 0 <= i < lines.len() ==> parsed_values(#[trigger] lines[i]).len() >= SAMPLE_ARITY,
    ensures
        submit_all(start, lines).history == start.history + first_sevens(lines),
        submit_all(start, lines).history.len() == start.history.len() + lines.len(),
        forall|i: int|
            0 <= i < lines.len() ==> {
                &&& (#[trigger] submit_all(start, lines).history[start.history.len() + i]).len()
                    == SAMPLE_ARITY
                &&& submit_all(start, lines).history[start.history.len() + i] == parsed_values(
                    lines[i],
                ).take(SAMPLE_ARITY as int)
            },
{
    lemma_history_after_submissions(start, lines);
    lemma_valid_records_all_accepted(lines);
}

/// The history after a log is the history before it, followed by the samples
/// of the log's commits in the order of the log.
pub proof fn lemma_history_after_log<R>(start: StoreView<R>, log: Seq<Submission<R>>)
    ensures
        submit_all(start, records(log)).history == start.history + samples(commits(log)),
{
    lemma_history_after_submissions(start, records(log));
    lemma_accepted_records_are_commits(log);
}

/// The samples of a log's commits are the samples that its records yield.
proof fn lemma_accepted_records_are_commits<R>(log: Seq<Submission<R>>)
    ensures
        accepted(records(log)) == samples(commits(log)),
    decreases log.len(),
{
    if log.len() == 0 {
        assert(accepted(records(log)) =~= samples(commits(log)));
    } else {
        let before = log.drop_last();
        lemma_accepted_records_are_commits(before);
        assert(records(log).drop_last() =~= records(before));
        assert(records(log).last() == log.last().fields);
        match sample_of(log.last().fields) {
            Some(sample) => {
                let commit = Commit { connection: log.last().connection, sample };
                assert(commits(log) == commits(before) + seq![commit]);
                assert(samples(commits(log)) =~= samples(commits(before)).push(sample));
            },
            None => {},
        }
    }
}

/// Each connection keeps its own order, however the connections interleave:
/// the samples that a connection committed stand in the history in the order
/// in which that connection submitted their records.
pub proof fn lemma_connection_order_is_kept<R>(log: Seq<Submission<R>>, connection: nat)
    ensures
        committed_by(log, connection) == accepted(submitted_by(log, connection)),
    decreases log.len(),
{
    let from = |submission: Submission<R>| submission.connection == connection;
    let by = |commit: Commit<R>| commit.connection == connection;
    if log.len() == 0 {
        assert(log.filter(from) =~= Seq::<Submission<R>>::empty());
        assert(commits(log).filter(by) =~= Seq::<Commit<R>>::empty());
        assert(committed_by(log, connection) =~= accepted(submitted_by(log, connection)));
    } else {
        let before = log.drop_last();
        let last = log.last();
        lemma_connection_order_is_kept(before, connection);
        assert(log =~= before.push(last));
        before.lemma_filter_push(last, from);
        if last.connection == connection {
            let mine = before.filter(from);
            assert(log.filter(from) == mine.push(last));
            assert(records(mine.push(last)).len() == mine.len() + 1);
            assert(records(mine.push(last)).drop_last() =~= records(mine));
            assert(records(mine.push(last)).last() == last.fields);
        }
        match sample_of(last.fields) {
            Some(sample) => {
                let commit = Commit { connection: last.connection, sample };
                assert(commits(log) =~= commits(before).push(commit));
                commits(before).lemma_filter_push(commit, by);
                if last.connection == connection {
                    assert(samples(commits(before).filter(by).push(commit)) =~= samples(
                        commits(before).filter(by),
                    ).push(sample));
                }
            },
            None => {
                assert(commits(log) == commits(before));
            },
        }
    }
}

} // verus!
