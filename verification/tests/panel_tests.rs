use ovk_panel::consumer::{next_ordinal, should_replay};
use ovk_panel::listener::{
    aggregated_prediction, answer_step, answers, collect_replies, engine_label, listener_next, mock_reply,
    panel_persona, prediction_exists, probe_answered, reply_batch, resolve_engine, system_prompt,
    timeout_message, uses_model, wait_step, wants_model, AnswerStage, ListenerNext, WaitAction,
    POLL_INTERVAL_MS,
};
use ovk_panel::rapids::{
    classify, outcome_content_type, prediction_content_type, query_content_type, reply_content_type,
    Kind,
};
use ovk_panel::seeds::{display_name, panel_rows, persona_seed, role_for};

#[test]
fn content_types_read_back() {
    assert!(matches!(classify(&prediction_content_type(42)), Kind::Prediction { item: 42 }));
    assert!(matches!(classify(&outcome_content_type(0)), Kind::Outcome { item: 0 }));
    match classify(&reply_content_type("sage-1")) {
        Kind::Reply { persona } => assert_eq!(persona, "sage-1"),
        _ => panic!("expected a reply"),
    }
    assert!(matches!(classify(&query_content_type()), Kind::Query));
    assert_eq!(prediction_content_type(12), "prediction:12");
    assert_eq!(outcome_content_type(7), "outcome:7");
    assert!(matches!(classify("content:query2"), Kind::Other));
}

#[test]
fn consumer_reads_after_its_position() {
    assert_eq!(next_ordinal(None), 0);
    assert_eq!(next_ordinal(Some(9)), 10);
}

#[test]
fn replay_when_store_empty_and_cursor_has_processed_entries() {
    assert!(should_replay(Some(0), Some(3)));
    assert!(should_replay(Some(0), Some(0)));
    assert!(!should_replay(Some(0), None));
    assert!(!should_replay(Some(2), Some(3)));
    assert!(!should_replay(None, Some(3)));
}

#[test]
fn listener_skips_the_boot_backlog() {
    assert!(listener_next(None, 10) == ListenerNext { commit_to: Some(9), next: 10 });
    assert!(listener_next(None, 0) == ListenerNext { commit_to: None, next: 0 });
    assert!(listener_next(Some(12), 10) == ListenerNext { commit_to: None, next: 13 });
    assert!(answers("content:query"));
    assert!(!answers("reply:x"));
}

#[test]
fn an_answered_query_is_not_answered_again() {
    let later = vec!["reply:a".to_string(), "prediction:5".to_string()];
    assert!(prediction_exists(5, &later));
    assert!(!prediction_exists(4, &later));
    assert!(!prediction_exists(5, &vec![]));
}

#[test]
fn engines_are_labeled_honestly() {
    assert_eq!(resolve_engine(Some("mock".to_string()), "model"), "mock");
    assert_eq!(resolve_engine(None, "model"), "model");
    assert!(wants_model("model"));
    assert!(!wants_model("mock"));
    assert_eq!(engine_label("model", true), "model");
    assert_eq!(engine_label("model", false), "mock (model unreachable)");
    assert_eq!(engine_label("mock", true), "mock");
    assert!(uses_model("model"));
    assert!(!uses_model("mock (model unreachable)"));
    assert!(probe_answered(Some(" OK\n")));
    assert!(!probe_answered(Some("  \n")));
    assert!(!probe_answered(None));
}

#[test]
fn mock_replies_by_archetype() {
    assert_eq!(mock_reply("Innocent"), "It sounds honest and clear to me — I believe the city means well with this.");
    assert_eq!(mock_reply("Nobody"), "I'd need to see more detail before I can say.");
    assert!(mock_reply("Outlaw").starts_with("I don't trust a word of this"));
}

#[test]
fn system_prompt_frames_the_persona() {
    let p = system_prompt("# Persona — Ada");
    assert!(p.starts_with("You are a marketing panel persona."));
    assert!(p.contains("\n\n# Persona — Ada\n\n"));
    assert!(p.ends_with("No markdown, no signature."));
    let pp = panel_persona("ada", "Sage", "");
    assert_eq!(pp.id, "ada");
    assert_eq!(pp.archetype, "Sage");
    assert_eq!(pp.prompt, system_prompt(""));
}

#[test]
fn empty_replies_drop_their_persona() {
    let ids = vec!["a".to_string(), "b".to_string(), "c".to_string()];
    let texts = vec!["  fine  ".to_string(), " \n".to_string(), "no".to_string()];
    let kept = collect_replies(&ids, &texts);
    assert_eq!(kept, vec![("a".to_string(), "fine".to_string()), ("c".to_string(), "no".to_string())]);
    let batch = reply_batch(&kept).unwrap();
    assert_eq!(batch[0], ("fine".to_string(), "reply:a".to_string()));
    assert_eq!(batch[1], ("no".to_string(), "reply:c".to_string()));
    assert!(reply_batch(&vec![]).is_none());
    assert_eq!(aggregated_prediction("  {\"x\":1}\n").as_deref(), Some("{\"x\":1}"));
    assert_eq!(aggregated_prediction(" \n"), None);
}

#[test]
fn outlaw_ships_locked() {
    assert_eq!(role_for("Outlaw"), ("Hostile amplifier", "Vaenulik võimendaja", true));
    assert_eq!(role_for("Sage"), ("Investigative journalist", "Uuriv ajakirjanik", false));
    assert_eq!(role_for("Stranger"), ("Panel voice", "Paneelihääl", false));
}

#[test]
fn weights_table_rows() {
    let w = "ada\t0.1\tSage\textra\nshort\t0.2\n\t0.3\tHero\r\nbob\t0.4\tHero\r\n";
    assert_eq!(
        panel_rows(w),
        vec![("ada".to_string(), "Sage".to_string()), ("bob".to_string(), "Hero".to_string())]
    );
}

#[test]
fn display_names_from_title_lines() {
    let md = "# Panel Persona — Aisha Okafor (\"Creator\")\nmore";
    assert_eq!(display_name("aisha", Some(md)), "Aisha Okafor");
    assert_eq!(display_name("aisha", Some("# Panel Persona - no dash")), "Aisha");
    assert_eq!(display_name("aisha", Some("# Title —  (\"x\")")), "Aisha");
    assert_eq!(display_name("bob", None), "Bob");
    assert_eq!(display_name("", None), "");
    assert_eq!(display_name("émile", Some("")), "Émile");
    let s = persona_seed("out", "Outlaw", Some("# P — Rex"));
    assert_eq!(s.display_name, "Rex");
    assert!(s.locked_default);
    assert_eq!(s.role_et, "Vaenulik võimendaja");
}

#[test]
fn answers_land_replies_then_prediction() {
    assert_eq!(answer_step(AnswerStage::AppendReplies, true), AnswerStage::Aggregate);
    assert_eq!(answer_step(AnswerStage::Aggregate, true), AnswerStage::AppendPrediction);
    assert_eq!(answer_step(AnswerStage::AppendPrediction, true), AnswerStage::RecordEngine);
    assert_eq!(answer_step(AnswerStage::RecordEngine, true), AnswerStage::Answered);
    assert_eq!(answer_step(AnswerStage::AppendReplies, false), AnswerStage::Abandoned);
    assert_eq!(answer_step(AnswerStage::Aggregate, false), AnswerStage::Abandoned);
    assert_eq!(answer_step(AnswerStage::AppendPrediction, false), AnswerStage::Abandoned);
    assert_eq!(answer_step(AnswerStage::RecordEngine, false), AnswerStage::Abandoned);
    assert_eq!(answer_step(AnswerStage::Answered, false), AnswerStage::Answered);
    assert_eq!(answer_step(AnswerStage::Abandoned, true), AnswerStage::Abandoned);
    let mut stage = AnswerStage::AppendReplies;
    for ok in [false, true, true] {
        stage = answer_step(stage, ok);
    }
    assert_eq!(stage, AnswerStage::Abandoned);
}

#[test]
fn waiting_for_a_subprocess() {
    assert_eq!(wait_step(true, 500, 100), WaitAction::Collect);
    assert_eq!(wait_step(false, 101, 100), WaitAction::Kill);
    assert_eq!(wait_step(false, 100, 100), WaitAction::Poll);
    assert_eq!(wait_step(false, 0, 20_000), WaitAction::Poll);
    assert_eq!(POLL_INTERVAL_MS, 100);
    assert_eq!(timeout_message(120), "subprocess timed out after 120s");
}
