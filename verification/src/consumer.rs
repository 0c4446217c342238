//! The resident consumer's decisions: what each queue entry does to the
//! store, which ordinal to read next, and when to replay the queue.
//!
//! The cursor position means "last fully processed ordinal": an entry is
//! ingested first and committed after, so a crash in between ingests it
//! again on restart, which changes nothing (see `law_ingest_is_idempotent`).
use vstd::prelude::*;
use crate::flow::{Entry, EntryV};
use crate::rapids::{classify, kind_of, Kind, KindV};
use crate::store::{
    ascending, attach_reply_spec, change_run, find_persona, find_reply, find_run, fresh_run,
    latest_prediction_before, latest_run_before, lemma_ascending_insert, lemma_find_persona_none,
    lemma_find_reply, lemma_find_run, lemma_slot, reanchor, reply_keys, run_keys, set_outcome_spec,
    set_prediction_spec, slot, upsert_run_spec, wf_view, ReplyV, RunChangeV, RunV, Store, StoreV,
};

verus! {

/// The store after ingesting entry `e`.
pub open spec fn ingest_spec(st: StoreV, e: EntryV) -> StoreV {
    match kind_of(e.content_type) {
        KindV::Query => upsert_run_spec(st, e.ordinal, e.body, e.enqueued_at),
        KindV::Reply { persona } => attach_reply_spec(st, e.ordinal, persona, e.body, e.enqueued_at),
        KindV::Prediction { item } => set_prediction_spec(st, item, e.ordinal, e.body),
        KindV::Outcome { item } => set_outcome_spec(st, item, e.ordinal, e.body),
        _ => st,
    }
}

/// Ingests one queue entry into the store; returns what the entry was.
/// Entries that are not ours (and tags that are not numbers) change nothing.
pub fn ingest(store: &mut Store, e: &Entry) -> (k: Kind)
    requires
        old(store).wf(),
    ensures
        final(store).wf(),
        final(store)@ == ingest_spec(old(store)@, e@),
        k@ == kind_of(e.content_type@),
{
    let k = classify(e.content_type.as_str());
    match &k {
        Kind::Query => store.upsert_run(e.ordinal, e.body.as_str(), e.enqueued_at),
        Kind::Reply { persona } => store.attach_reply(
            e.ordinal,
            persona.as_str(),
            e.body.as_str(),
            e.enqueued_at,
        ),
        Kind::Prediction { item } => store.set_prediction(*item, e.ordinal, e.body.as_str()),
        Kind::Outcome { item } => store.set_outcome(*item, e.ordinal, e.body.as_str()),
        _ => {},
    }
    k
}

/// The next ordinal to read after cursor position `position` (none for a fresh cursor).
pub fn next_ordinal(position: Option<u64>) -> (n: u64)
    requires
        position != Some(u64::MAX),
    ensures
        n == match position {
            Some(p) => p + 1,
            None => 0,
        },
{
    match position {
        Some(p) => p + 1,
        None => 0,
    }
}

/// Whether to drop the consumer's cursor and replay the queue from the
/// origin: the store holds no run at all (`run_count` is what counting the
/// runs gave, none if that failed) while the cursor has processed entries
/// (it has a position: the last fully processed ordinal).
pub fn should_replay(run_count: Option<u64>, position: Option<u64>) -> (r: bool)
    ensures
        r == (run_count == Some(0u64) && position is Some),
{
    let empty = match run_count {
        Some(n) => n == 0,
        None => false,
    };
    match position {
        Some(_) => empty,
        None => false,
    }
}

// ── laws ───────────────────────────────────────────────────────────────────

proof fn lemma_insert_run_found(runs: Seq<RunV>, v: RunV)
    requires
        ascending(run_keys(runs)),
        find_run(runs, v.item_ordinal) is None,
    ensures
        find_run(runs.insert(slot(run_keys(runs), v.item_ordinal), v), v.item_ordinal) is Some,
{
    lemma_slot(run_keys(runs), v.item_ordinal);
    let p = slot(run_keys(runs), v.item_ordinal);
    let n = runs.insert(p, v);
    assert(run_keys(n)[p] == v.item_ordinal);
    lemma_find_run(n, v.item_ordinal);
}

proof fn lemma_insert_reply_found(replies: Seq<ReplyV>, v: ReplyV)
    requires
        ascending(reply_keys(replies)),
    ensures
        find_reply(replies.insert(slot(reply_keys(replies), v.ordinal), v), v.ordinal) is Some,
{
    lemma_slot(reply_keys(replies), v.ordinal);
    let p = slot(reply_keys(replies), v.ordinal);
    let n = replies.insert(p, v);
    assert(reply_keys(n)[p] == v.ordinal);
    lemma_find_reply(n, v.ordinal);
}

proof fn lemma_change_run_twice(runs: Seq<RunV>, k: u64, c: RunChangeV)
    ensures
        change_run(change_run(runs, k, c), k, c) == change_run(runs, k, c),
{
    assert(change_run(change_run(runs, k, c), k, c) =~= change_run(runs, k, c));
}

proof fn lemma_reanchor_twice(replies: Seq<ReplyV>, item: u64, lo: u64, hi: u64)
    ensures
        reanchor(reanchor(replies, item, lo, hi), item, lo, hi) == reanchor(replies, item, lo, hi),
{
    assert(reanchor(reanchor(replies, item, lo, hi), item, lo, hi) =~= reanchor(replies, item, lo, hi));
}

/// Ingesting the same entry twice leaves the store as ingesting it once:
/// a crash between ingest and commit is harmless.
pub proof fn law_ingest_is_idempotent(st: StoreV, e: EntryV)
    requires
        wf_view(st),
    ensures
        ingest_spec(ingest_spec(st, e), e) == ingest_spec(st, e),
{
    match kind_of(e.content_type) {
        KindV::Query => {
            if find_run(st.runs, e.ordinal) is None {
                lemma_insert_run_found(st.runs, fresh_run(e.ordinal, e.body, e.enqueued_at));
            }
        },
        KindV::Reply { persona } => {
            match latest_run_before(st.runs, e.ordinal) {
                None => {},
                Some(item) => {
                    if find_reply(st.replies, e.ordinal) is None {
                        lemma_insert_reply_found(
                            st.replies,
                            ReplyV {
                                ordinal: e.ordinal,
                                item_ordinal: item,
                                persona_id: persona,
                                body: e.body,
                                enqueued_at: e.enqueued_at,
                            },
                        );
                    }
                },
            }
        },
        KindV::Prediction { item } => {
            let c = RunChangeV::Predicted { ordinal: e.ordinal, json: e.body };
            lemma_change_run_twice(st.runs, item, c);
            let runs = change_run(st.runs, item, c);
            let lo = match latest_prediction_before(runs, e.ordinal) {
                Some(x) => x,
                None => 0,
            };
            lemma_reanchor_twice(st.replies, item, lo, e.ordinal);
        },
        KindV::Outcome { item } => {
            lemma_change_run_twice(
                st.runs,
                item,
                RunChangeV::Outcome { ordinal: e.ordinal, json: e.body },
            );
        },
        _ => {},
    }
}

/// Ingesting keeps the store well-formed.
pub proof fn law_ingest_keeps_store_well_formed(st: StoreV, e: EntryV)
    requires
        wf_view(st),
    ensures
        wf_view(ingest_spec(st, e)),
{
    match kind_of(e.content_type) {
        KindV::Query => {
            if find_run(st.runs, e.ordinal) is None {
                lemma_find_run(st.runs, e.ordinal);
                lemma_ascending_insert(run_keys(st.runs), e.ordinal);
                lemma_slot(run_keys(st.runs), e.ordinal);
                let p = slot(run_keys(st.runs), e.ordinal);
                assert(run_keys(st.runs.insert(p, fresh_run(e.ordinal, e.body, e.enqueued_at)))
                    =~= run_keys(st.runs).insert(p, e.ordinal));
            }
        },
        KindV::Reply { persona } => {
            match latest_run_before(st.runs, e.ordinal) {
                None => {},
                Some(item) => {
                    if find_persona(st.personas, persona) is None {
                        lemma_find_persona_none(st.personas, persona);
                    }
                    if find_reply(st.replies, e.ordinal) is None {
                        lemma_find_reply(st.replies, e.ordinal);
                        lemma_ascending_insert(reply_keys(st.replies), e.ordinal);
                        lemma_slot(reply_keys(st.replies), e.ordinal);
                        let p = slot(reply_keys(st.replies), e.ordinal);
                        let v = ReplyV {
                            ordinal: e.ordinal,
                            item_ordinal: item,
                            persona_id: persona,
                            body: e.body,
                            enqueued_at: e.enqueued_at,
                        };
                        assert(reply_keys(st.replies.insert(p, v)) =~= reply_keys(st.replies).insert(
                            p,
                            e.ordinal,
                        ));
                    }
                },
            }
        },
        KindV::Prediction { item } => {
            let c = RunChangeV::Predicted { ordinal: e.ordinal, json: e.body };
            let runs = change_run(st.runs, item, c);
            assert(run_keys(runs) =~= run_keys(st.runs));
            let lo = match latest_prediction_before(runs, e.ordinal) {
                Some(x) => x,
                None => 0,
            };
            assert(reply_keys(reanchor(st.replies, item, lo, e.ordinal)) =~= reply_keys(st.replies));
        },
        KindV::Outcome { item } => {
            let c = RunChangeV::Outcome { ordinal: e.ordinal, json: e.body };
            assert(run_keys(change_run(st.runs, item, c)) =~= run_keys(st.runs));
        },
        _ => {},
    }
}

} // verus!
