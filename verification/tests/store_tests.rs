use ovk_panel::flow::Entry;
use ovk_panel::consumer::ingest;
use ovk_panel::rapids::Kind;
use ovk_panel::store::{PersonaSeed, Store};

fn entry(ordinal: u64, ct: &str, body: &str) -> Entry {
    Entry { ordinal, content_type: ct.to_string(), body: body.to_string(), enqueued_at: 1000 + ordinal as i64 }
}

fn seed(id: &str, arch: &str, locked: bool) -> PersonaSeed {
    PersonaSeed {
        id: id.to_string(),
        display_name: format!("Name {id}"),
        archetype: arch.to_string(),
        role: format!("role {id}"),
        role_et: format!("roll {id}"),
        locked_default: locked,
    }
}

#[test]
fn upsert_run_creates_a_pending_run_once() {
    let mut st = Store::new();
    st.upsert_run(5, "first draft", 10);
    st.upsert_run(5, "second draft", 20);
    assert_eq!(st.run_count(), 1);
    let r = st.get_run(5).unwrap();
    assert_eq!(r.draft, "first draft");
    assert_eq!(r.status, "pending");
    assert_eq!(r.notes, "");
    assert_eq!(r.enqueued_at, 10);
    assert_eq!(r.reply_count, 0);
    assert!(r.prediction_json.is_none() && r.outcome_json.is_none() && !r.archived);
    assert!(st.get_run(6).is_none());
}

#[test]
fn reply_joins_the_latest_query_before_it() {
    let mut st = Store::new();
    st.upsert_run(1, "a", 0);
    st.upsert_run(4, "b", 0);
    st.attach_reply(5, "sage", "hmm", 0);
    st.attach_reply(3, "hero", "ok", 0);
    st.attach_reply(0, "orphan", "lost", 0);
    assert_eq!(st.get_run(4).unwrap().reply_count, 1);
    assert_eq!(st.get_run(1).unwrap().reply_count, 1);
    assert_eq!(st.replies_for(4)[0].persona_id, "sage");
    assert_eq!(st.replies_for(1)[0].persona_id, "hero");
    assert_eq!(st.reply_records().len(), 2);
}

#[test]
fn replies_show_their_persona_or_their_id() {
    let mut st = Store::new();
    st.seed_personas(&vec![seed("outlaw", "Outlaw", true)]);
    st.upsert_run(1, "d", 0);
    st.attach_reply(2, "outlaw", "spin!", 0);
    st.attach_reply(3, "newcomer", "hi", 0);
    let rs = st.replies_for(1);
    assert_eq!(rs.len(), 2);
    assert_eq!(rs[0].display_name, "Name outlaw");
    assert!(rs[0].locked);
    assert_eq!(rs[0].role.as_deref(), Some("role outlaw"));
    // a persona first seen in a reply gets a bare row named by its id
    assert_eq!(rs[1].display_name, "newcomer");
    assert!(!rs[1].locked);
    assert_eq!(rs[1].archetype, None);
}

#[test]
fn prediction_reanchors_replies_since_the_previous_prediction() {
    let mut st = Store::new();
    st.upsert_run(1, "q1", 0);
    st.upsert_run(2, "q2", 0);
    // replies to q1 arrive after q2 landed: positionally they go to q2
    st.attach_reply(3, "a", "r1", 0);
    st.attach_reply(4, "b", "r2", 0);
    assert_eq!(st.get_run(2).unwrap().reply_count, 2);
    st.set_prediction(1, 5, "{\"weighted_favorability\":0.5}");
    let r1 = st.get_run(1).unwrap();
    assert_eq!(r1.status, "predicted");
    assert_eq!(r1.prediction_ordinal, Some(5));
    assert_eq!(r1.reply_count, 2);
    assert_eq!(st.get_run(2).unwrap().reply_count, 0);
    // the next prediction only claims replies after ordinal 5
    st.attach_reply(6, "c", "r3", 0);
    st.set_prediction(2, 7, "{}");
    assert_eq!(st.get_run(2).unwrap().reply_count, 1);
    assert_eq!(st.get_run(1).unwrap().reply_count, 2);
}

#[test]
fn shelves_partition_the_runs() {
    let mut st = Store::new();
    for k in 1..=5 {
        st.upsert_run(k, "d", 0);
    }
    st.set_archived(2, true);
    st.set_archived(4, true);
    st.set_archived(9, true);
    let active: Vec<u64> = st.list_runs(false).iter().map(|r| r.item_ordinal).collect();
    let archived: Vec<u64> = st.list_runs(true).iter().map(|r| r.item_ordinal).collect();
    assert_eq!(active, vec![5, 3, 1]);
    assert_eq!(archived, vec![4, 2]);
    assert_eq!(st.archived_count(), 2);
    assert_eq!(st.run_count(), 5);
    st.set_archived(2, false);
    assert_eq!(st.archived_count(), 1);
}

#[test]
fn calibrated_runs_need_prediction_and_outcome() {
    let mut st = Store::new();
    st.upsert_run(1, "a", 0);
    st.upsert_run(2, "b", 0);
    st.upsert_run(3, "c", 0);
    st.set_prediction(1, 10, "{}");
    st.set_prediction(2, 11, "{}");
    st.set_outcome(2, 12, "{\"item\":2}");
    st.set_outcome(3, 13, "{\"item\":3}");
    let cal: Vec<u64> = st.calibrated_runs().iter().map(|r| r.item_ordinal).collect();
    assert_eq!(cal, vec![2]);
    let r = st.get_run(2).unwrap();
    assert_eq!(r.outcome_ordinal, Some(12));
    assert_eq!(r.outcome_json.as_deref(), Some("{\"item\":2}"));
}

#[test]
fn notes_and_engines() {
    let mut st = Store::new();
    st.upsert_run(1, "a", 0);
    st.set_notes(1, "call the mayor");
    assert_eq!(st.get_run(1).unwrap().notes, "call the mayor");
    assert_eq!(st.engine_requested(1), None);
    st.set_engine_requested(1, "mock");
    st.set_engine_used(1, "mock (model unreachable)");
    st.set_engine_requested(1, "model");
    assert_eq!(st.engine_requested(1).as_deref(), Some("model"));
    assert_eq!(st.get_run(1).unwrap().engine_used.as_deref(), Some("mock (model unreachable)"));
    st.set_engine_used(2, "model");
    assert_eq!(st.engine_requested(2), None);
    assert_eq!(st.meta_records().len(), 2);
}

#[test]
fn operator_lock_beats_reseeding() {
    let mut st = Store::new();
    st.seed_personas(&vec![seed("outlaw", "Outlaw", true), seed("sage", "Sage", false)]);
    st.upsert_run(1, "d", 0);
    st.attach_reply(2, "outlaw", "x", 0);
    st.attach_reply(3, "sage", "y", 0);
    st.toggle_locked("outlaw");
    assert!(!st.replies_for(1)[0].locked);
    let mut again = seed("outlaw", "Outlaw", true);
    again.display_name = "Renamed".to_string();
    st.seed_personas(&vec![again, seed("sage", "Sage", true)]);
    let rs = st.replies_for(1);
    assert!(!rs[0].locked, "operator's unlock survives the reseed");
    assert_eq!(rs[0].display_name, "Renamed");
    assert!(rs[1].locked, "untouched lock follows the seed");
}

#[test]
fn toggling_twice_restores_the_lock() {
    let mut st = Store::new();
    st.seed_personas(&vec![seed("p", "Hero", false)]);
    st.toggle_locked("p");
    assert!(st.persona_records()[0].locked);
    st.toggle_locked("p");
    assert!(!st.persona_records()[0].locked);
    assert!(st.persona_records()[0].lock_touched);
    st.toggle_locked("nobody");
    assert_eq!(st.persona_records().len(), 1);
}

#[test]
fn ingest_dispatches_by_content_type() {
    let mut st = Store::new();
    assert!(matches!(ingest(&mut st, &entry(0, "content:query", "draft")), Kind::Query));
    assert!(matches!(ingest(&mut st, &entry(1, "reply:sage", "text")), Kind::Reply { .. }));
    assert!(matches!(ingest(&mut st, &entry(2, "prediction:0", "{}")), Kind::Prediction { item: 0 }));
    assert!(matches!(ingest(&mut st, &entry(3, "outcome:0", "{\"x\":1}")), Kind::Outcome { item: 0 }));
    match ingest(&mut st, &entry(4, "prediction:zero", "{}")) {
        Kind::BadPredictionTag { tag } => assert_eq!(tag, "zero"),
        _ => panic!("expected a bad tag"),
    }
    match ingest(&mut st, &entry(5, "outcome:", "{}")) {
        Kind::BadOutcomeTag { tag } => assert_eq!(tag, ""),
        _ => panic!("expected a bad tag"),
    }
    assert!(matches!(ingest(&mut st, &entry(6, "something:else", "?")), Kind::Other));
    let r = st.get_run(0).unwrap();
    assert_eq!(r.status, "predicted");
    assert_eq!(r.reply_count, 1);
    assert_eq!(r.outcome_ordinal, Some(3));
}

#[test]
fn ingesting_twice_changes_nothing() {
    let entries = vec![
        entry(0, "content:query", "d0"),
        entry(1, "reply:a", "x"),
        entry(2, "content:query", "d1"),
        entry(3, "reply:b", "y"),
        entry(4, "prediction:0", "{}"),
        entry(5, "outcome:0", "{}"),
    ];
    let mut once = Store::new();
    let mut twice = Store::new();
    for e in &entries {
        ingest(&mut once, e);
        ingest(&mut twice, e);
        ingest(&mut twice, e);
    }
    let ids = |s: &Store| -> Vec<(u64, u64)> {
        s.reply_records().iter().map(|r| (r.ordinal, r.item_ordinal)).collect()
    };
    assert_eq!(ids(&once), ids(&twice));
    assert_eq!(once.run_count(), twice.run_count());
    for k in [0u64, 2] {
        let (a, b) = (once.get_run(k).unwrap(), twice.get_run(k).unwrap());
        assert_eq!((a.status, a.reply_count, a.prediction_ordinal, a.outcome_ordinal),
            (b.status, b.reply_count, b.prediction_ordinal, b.outcome_ordinal));
    }
}

#[test]
fn restore_loads_rows_in_order() {
    let mut st = Store::new();
    st.upsert_run(3, "c", 0);
    st.upsert_run(1, "a", 0);
    let rows: Vec<u64> = st.run_records().iter().map(|r| r.item_ordinal).collect();
    assert_eq!(rows, vec![1, 3]);
    let mut copy = Store::new();
    for r in st.run_records().iter().rev() {
        copy.restore_run(ovk_panel::store::RunRecord {
            item_ordinal: r.item_ordinal,
            draft: r.draft.clone(),
            status: r.status.clone(),
            prediction_ordinal: r.prediction_ordinal,
            prediction_json: r.prediction_json.clone(),
            outcome_ordinal: r.outcome_ordinal,
            outcome_json: r.outcome_json.clone(),
            notes: "restored".to_string(),
            enqueued_at: r.enqueued_at,
            archived: r.archived,
        });
    }
    let rows: Vec<u64> = copy.run_records().iter().map(|r| r.item_ordinal).collect();
    assert_eq!(rows, vec![1, 3]);
    assert_eq!(copy.get_run(3).unwrap().notes, "restored");
}

fn persona_rows(st: &Store) -> Vec<(String, String, Option<String>, bool, Option<String>, Option<String>, bool)> {
    st.persona_records()
        .iter()
        .map(|p| {
            (
                p.id.clone(),
                p.display_name.clone(),
                p.archetype.clone(),
                p.locked,
                p.role.clone(),
                p.role_et.clone(),
                p.lock_touched,
            )
        })
        .collect()
}

#[test]
fn seeding_the_whole_panel_twice_changes_nothing() {
    let mut st = Store::new();
    st.upsert_run(1, "d", 0);
    st.attach_reply(2, "stranger", "x", 0);
    st.seed_personas(&vec![seed("hero", "Hero", false)]);
    st.toggle_locked("hero");
    let seeds = vec![seed("outlaw", "Outlaw", true), seed("hero", "Hero", false), seed("sage", "Sage", false)];
    st.seed_personas(&seeds);
    let once = persona_rows(&st);
    st.seed_personas(&seeds);
    assert_eq!(persona_rows(&st), once);
    let find = |id: &str| once.iter().find(|p| p.0 == id).unwrap().clone();
    assert_eq!(find("stranger").1, "stranger");
    assert_eq!(find("stranger").2, None);
    assert!(find("outlaw").3);
    assert!(find("hero").3, "the operator's lock stays");
    assert_eq!(find("hero").1, "Name hero");
    assert!(!find("sage").3);
    assert_eq!(once.len(), 4);
}

#[test]
fn archiving_moves_a_run_between_shelves() {
    let mut st = Store::new();
    st.upsert_run(7, "d", 0);
    let on = |st: &Store, a: bool| st.list_runs(a).iter().any(|r| r.item_ordinal == 7);
    assert!(on(&st, false) && !on(&st, true));
    st.set_archived(7, true);
    assert!(on(&st, true) && !on(&st, false));
    st.set_archived(7, false);
    assert!(on(&st, false) && !on(&st, true));
}
