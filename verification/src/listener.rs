//! The resident panel listener's decisions: which queue entries it answers,
//! which engine answers them, what the personas say in mock mode, and what
//! lands back on the queue.
//!
//! Rules of engagement: a fresh cursor skips the backlog that existed at
//! boot; a query that already has a prediction later in the queue is skipped;
//! a run asking for the model degrades to mock, labeled so, when the model
//! does not answer a probe.
use vstd::prelude::*;
use crate::rapids::{prediction_content_type, prediction_type, reply_content_type, reply_prefix};
use crate::text::{decimal, decimal_spec, pair_views, same_text, trim, trim_spec, views};

verus! {

/// Where the listener reads next, and whether it must first commit its
/// cursor past the backlog.
#[derive(PartialEq, Eq, Structural)]
pub struct ListenerNext {
    /// Commit the (fresh) cursor to this ordinal first.
    pub commit_to: Option<u64>,
    /// The ordinal to read.
    pub next: u64,
}

/// From the cursor's `position` and the queue length at boot (`baseline`):
/// a positioned cursor reads the entry after it; a fresh cursor skips exactly
/// the entries that existed at boot.
pub fn listener_next(position: Option<u64>, baseline: u64) -> (r: ListenerNext)
    requires
        position != Some(u64::MAX),
    ensures
        r == match position {
            Some(p) => ListenerNext { commit_to: None, next: (p + 1) as u64 },
            None => if baseline > 0 {
                ListenerNext { commit_to: Some((baseline - 1) as u64), next: baseline }
            } else {
                ListenerNext { commit_to: None, next: 0 }
            },
        },
{
    match position {
        Some(p) => ListenerNext { commit_to: None, next: p + 1 },
        None => if baseline > 0 {
            ListenerNext { commit_to: Some(baseline - 1), next: baseline }
        } else {
            ListenerNext { commit_to: None, next: 0 }
        },
    }
}

/// Whether the entry is one the listener answers: a `content:query`.
pub fn answers(content_type: &str) -> (r: bool)
    ensures
        r == (content_type@ == "content:query"@),
{
    same_text(content_type, "content:query")
}

/// Whether a later entry (content types `later`, in order) already carries
/// the prediction for query `item`.
pub fn prediction_exists(item: u64, later: &Vec<String>) -> (r: bool)
    ensures
        r == exists|i: int| 0 <= i < later@.len() && (#[trigger] later@[i])@ == prediction_type(item),
{
    let tag = prediction_content_type(item);
    let n = later.len();
    let mut i: usize = 0;
    while i < n
        invariant
            n == later@.len(),
            i <= n,
            tag@ == prediction_type(item),
            forall|j: int| 0 <= j < i ==> (#[trigger] later@[j])@ != prediction_type(item),
        decreases n - i,
    {
        if later[i] == tag {
            return true;
        }
        i += 1;
    }
    false
}

/// The engine a run asked for, or the configured default.
pub fn resolve_engine(requested: Option<String>, default: &str) -> (r: String)
    ensures
        r@ == match requested {
            Some(e) => e@,
            None => default@,
        },
{
    match requested {
        Some(e) => e,
        None => default.to_owned(),
    }
}

/// Whether an engine choice asks for the model (and so for a probe).
pub fn wants_model(engine: &str) -> (r: bool)
    ensures
        r == (engine@ == "model"@),
{
    same_text(engine, "model")
}

pub open spec fn engine_label_spec(engine: Seq<char>, model_answered: bool) -> Seq<char> {
    if engine == "model"@ {
        if model_answered {
            "model"@
        } else {
            "mock (model unreachable)"@
        }
    } else {
        "mock"@
    }
}

/// The engine that answers a run, honestly labeled: the model when asked
/// for and its probe answered, else mock (saying so when the model was asked
/// for). `model_answered` matters only when the model was asked for.
pub fn engine_label(engine: &str, model_answered: bool) -> (r: String)
    ensures
        r@ == engine_label_spec(engine@, model_answered),
{
    if wants_model(engine) {
        if model_answered {
            String::from_str("model")
        } else {
            String::from_str("mock (model unreachable)")
        }
    } else {
        String::from_str("mock")
    }
}

/// Whether a run answered under `label` goes through the model.
pub fn uses_model(label: &str) -> (r: bool)
    ensures
        r == (label@ == "model"@),
{
    same_text(label, "model")
}

/// The deterministic, archetype-flavored reply of the mock engine.
pub open spec fn mock_reply_spec(archetype: Seq<char>) -> Seq<char> {
    if archetype == "Everyman"@ {
        "I'd want to know what this actually changes for my street and my wallet before making my mind up — the announcement alone doesn't tell me."@
    } else if archetype == "Caregiver"@ {
        "If the children's daily routine is protected I could support this — and promising parent meetings before anything changes is reassuring."@
    } else if archetype == "Explorer"@ {
        "Change doesn't scare me — this reads like a step forward and I'd welcome trying the new arrangement."@
    } else if archetype == "Creator"@ {
        "The wording is polished, but I'm looking for the substance behind it — show me what's actually being decided."@
    } else if archetype == "Sage"@ {
        "Where are the figures? Dates, budget lines, sources — until those are on the table this text tells me nothing."@
    } else if archetype == "Ruler"@ {
        "A city that governs properly publishes dates and budgets; this feels rushed and I doubt the follow-through."@
    } else if archetype == "Lover"@ {
        "The tone is respectful and it feels fair — if they follow through with the same warmth, I'm on board."@
    } else if archetype == "Innocent"@ {
        "It sounds honest and clear to me — I believe the city means well with this."@
    } else if archetype == "Jester"@ {
        "Ah, another majestic press release from city hall — I'll believe it when the diggers actually show up."@
    } else if archetype == "Outlaw"@ {
        "I don't trust a word of this — it's spin, the decision was made long ago and residents are the last to hear."@
    } else if archetype == "Hero"@ {
        "Commitments are only real when tracked — I'll be watching whether each promise here actually gets delivered."@
    } else if archetype == "Magician"@ {
        "There's a real chance here to change how the city feels — done properly, this is a welcome shift."@
    } else {
        "I'd need to see more detail before I can say."@
    }
}

/// The deterministic, archetype-flavored reply of the mock engine.
pub fn mock_reply(archetype: &str) -> (r: &'static str)
    ensures
        r@ == mock_reply_spec(archetype@),
{
    let a = archetype.to_owned();
    if a == String::from_str("Everyman") {
        "I'd want to know what this actually changes for my street and my wallet before making my mind up — the announcement alone doesn't tell me."
    } else if a == String::from_str("Caregiver") {
        "If the children's daily routine is protected I could support this — and promising parent meetings before anything changes is reassuring."
    } else if a == String::from_str("Explorer") {
        "Change doesn't scare me — this reads like a step forward and I'd welcome trying the new arrangement."
    } else if a == String::from_str("Creator") {
        "The wording is polished, but I'm looking for the substance behind it — show me what's actually being decided."
    } else if a == String::from_str("Sage") {
        "Where are the figures? Dates, budget lines, sources — until those are on the table this text tells me nothing."
    } else if a == String::from_str("Ruler") {
        "A city that governs properly publishes dates and budgets; this feels rushed and I doubt the follow-through."
    } else if a == String::from_str("Lover") {
        "The tone is respectful and it feels fair — if they follow through with the same warmth, I'm on board."
    } else if a == String::from_str("Innocent") {
        "It sounds honest and clear to me — I believe the city means well with this."
    } else if a == String::from_str("Jester") {
        "Ah, another majestic press release from city hall — I'll believe it when the diggers actually show up."
    } else if a == String::from_str("Outlaw") {
        "I don't trust a word of this — it's spin, the decision was made long ago and residents are the last to hear."
    } else if a == String::from_str("Hero") {
        "Commitments are only real when tracked — I'll be watching whether each promise here actually gets delivered."
    } else if a == String::from_str("Magician") {
        "There's a real chance here to change how the city feels — done properly, this is a welcome shift."
    } else {
        "I'd need to see more detail before I can say."
    }
}

pub open spec fn prompt_head() -> Seq<char> {
    "You are a marketing panel persona. Stay fully in character; never break the fourth wall.\n\n"@
}

pub open spec fn prompt_tail() -> Seq<char> {
    "\n\nRespond ONLY as this persona to the message shown, in 1-2 honest sentences filtered\nthrough all three layers (your demographics, your archetype's instincts, and your\nlocal context today). No markdown, no signature."@
}

/// The system prompt a persona answers under: its persona file framed by
/// the panel's standing instructions.
pub fn system_prompt(persona_md: &str) -> (r: String)
    ensures
        r@ == prompt_head() + persona_md@ + prompt_tail(),
{
    String::from_str(
        "You are a marketing panel persona. Stay fully in character; never break the fourth wall.\n\n",
    ).concat(persona_md).concat(
        "\n\nRespond ONLY as this persona to the message shown, in 1-2 honest sentences filtered\nthrough all three layers (your demographics, your archetype's instincts, and your\nlocal context today). No markdown, no signature.",
    )
}

/// A persona of the panel as the listener uses it.
pub struct PanelPersona {
    pub id: String,
    pub archetype: String,
    pub prompt: String,
}

/// The panel persona `id` of archetype `archetype`, with its file's
/// contents (empty when unreadable).
pub fn panel_persona(id: &str, archetype: &str, persona_md: &str) -> (p: PanelPersona)
    ensures
        p.id@ == id@,
        p.archetype@ == archetype@,
        p.prompt@ == prompt_head() + persona_md@ + prompt_tail(),
{
    PanelPersona { id: id.to_owned(), archetype: archetype.to_owned(), prompt: system_prompt(persona_md) }
}

/// The replies that count, in panel order: each persona's text, trimmed,
/// when anything is left of it (a failed or empty answer drops the persona).
pub open spec fn kept_replies(ids: Seq<Seq<char>>, texts: Seq<Seq<char>>) -> Seq<(Seq<char>, Seq<char>)>
    decreases ids.len(),
{
    if ids.len() == 0 || texts.len() == 0 {
        Seq::empty()
    } else {
        let rest = kept_replies(ids.drop_last(), texts.drop_last());
        let t = trim_spec(texts.last());
        if t.len() > 0 {
            rest.push((ids.last(), t))
        } else {
            rest
        }
    }
}

/// The `(persona id, reply)` pairs that count, from the personas' ids and
/// their raw answers.
pub fn collect_replies(ids: &Vec<String>, texts: &Vec<String>) -> (r: Vec<(String, String)>)
    requires
        ids@.len() == texts@.len(),
    ensures
        pair_views(r@) == kept_replies(views(ids@), views(texts@)),
{
    let ghost iv = views(ids@);
    let ghost tv = views(texts@);
    let n = ids.len();
    let mut out: Vec<(String, String)> = Vec::new();
    let mut i: usize = 0;
    assert(iv.take(0) =~= Seq::<Seq<char>>::empty());
    while i < n
        invariant
            n == ids@.len() == texts@.len() == iv.len() == tv.len(),
            iv == views(ids@),
            tv == views(texts@),
            i <= n,
            pair_views(out@) == kept_replies(iv.take(i as int), tv.take(i as int)),
        decreases n - i,
    {
        assert(iv.take(i + 1).drop_last() =~= iv.take(i as int));
        assert(tv.take(i + 1).drop_last() =~= tv.take(i as int));
        assert(iv.take(i + 1).last() == ids@[i as int]@);
        assert(tv.take(i + 1).last() == texts@[i as int]@);
        let t = trim(texts[i].as_str());
        if !t.as_str().is_empty() {
            let ghost before = out@;
            out.push((ids[i].clone(), t));
            assert(pair_views(out@) =~= pair_views(before).push((ids@[i as int]@, trim_spec(texts@[i as int]@))));
        }
        i += 1;
    }
    assert(iv.take(n as int) =~= iv);
    assert(tv.take(n as int) =~= tv);
    out
}

/// The reply entries to append atomically, `(body, content type)`, one per
/// kept reply; none at all when no persona replied (then nothing is batched
/// and no prediction is made).
pub fn reply_batch(replies: &Vec<(String, String)>) -> (r: Option<Vec<(String, String)>>)
    ensures
        replies@.len() == 0 <==> r is None,
        r matches Some(b) ==> b@.len() == replies@.len() && forall|i: int|
            0 <= i < b@.len() ==> (#[trigger] b@[i]).0@ == replies@[i].1@ && b@[i].1@ == reply_prefix()
                + replies@[i].0@,
{
    if replies.len() == 0 {
        return None;
    }
    let n = replies.len();
    let mut out: Vec<(String, String)> = Vec::new();
    let mut i: usize = 0;
    while i < n
        invariant
            n == replies@.len(),
            i <= n,
            out@.len() == i,
            forall|j: int| 0 <= j < i ==> (#[trigger] out@[j]).0@ == replies@[j].1@ && out@[j].1@
                == reply_prefix() + replies@[j].0@,
        decreases n - i,
    {
        out.push((replies[i].1.clone(), reply_content_type(replies[i].0.as_str())));
        i += 1;
    }
    Some(out)
}


/// Whether the model's answer to the probe counts as an answer: anything
/// besides white space (no output at all, a failure, does not).
pub fn probe_answered(output: Option<&str>) -> (r: bool)
    ensures
        r == match output {
            Some(o) => trim_spec(o@).len() > 0,
            None => false,
        },
{
    match output {
        Some(o) => !trim(o).as_str().is_empty(),
        None => false,
    }
}

/// The prediction the aggregation printed: its output trimmed; none when
/// nothing is left.
pub fn aggregated_prediction(stdout: &str) -> (r: Option<String>)
    ensures
        match r {
            Some(j) => j@ == trim_spec(stdout@) && j@.len() > 0,
            None => trim_spec(stdout@).len() == 0,
        },
{
    let j = trim(stdout);
    if j.as_str().is_empty() {
        None
    } else {
        Some(j)
    }
}


/// A run is labeled as answered by the model only when the model was asked
/// for and answered the probe: a degraded run is never passed off as a model run.
pub proof fn law_model_label_is_honest(engine: Seq<char>, model_answered: bool)
    ensures
        engine_label_spec(engine, model_answered) == "model"@ <==> (engine == "model"@ && model_answered),
{
    reveal_strlit("model");
    reveal_strlit("mock");
    reveal_strlit("mock (model unreachable)");
    assert("mock"@.len() != "model"@.len());
    assert("mock (model unreachable)"@.len() != "model"@.len());
}

/// Only a run that asked for the model can be labeled a degraded model run:
/// a run that asked for anything else is plain mock whatever a probe gave,
/// and "mock (model unreachable)" means exactly that the model was asked for
/// and did not answer.
pub proof fn law_mock_runs_are_plain_mock(engine: Seq<char>, model_answered: bool)
    ensures
        engine != "model"@ ==> engine_label_spec(engine, model_answered) == "mock"@,
        engine_label_spec(engine, model_answered) == "mock (model unreachable)"@ <==> (engine == "model"@
            && !model_answered),
        engine_label_spec(engine, model_answered) == "mock"@ <==> engine != "model"@,
{
    reveal_strlit("model");
    reveal_strlit("mock");
    reveal_strlit("mock (model unreachable)");
    assert("mock"@.len() != "model"@.len());
    assert("mock (model unreachable)"@.len() != "model"@.len());
    assert("mock (model unreachable)"@.len() != "mock"@.len());
}

// ── landing an answer ──────────────────────────────────────────────────────

/// Where landing an answer stands: the replies go onto the queue as one
/// batch, then the prediction is aggregated from them and appended, then the
/// engine used is recorded.
#[derive(PartialEq, Eq, Structural, Clone, Copy, Debug)]
pub enum AnswerStage {
    AppendReplies,
    Aggregate,
    AppendPrediction,
    RecordEngine,
    /// Every step succeeded.
    Answered,
    /// A step failed; nothing after it is done.
    Abandoned,
}

/// The stage after `stage` once its step succeeded or failed; the two ends stay.
pub open spec fn next_stage(stage: AnswerStage, succeeded: bool) -> AnswerStage {
    match stage {
        AnswerStage::Answered => AnswerStage::Answered,
        AnswerStage::Abandoned => AnswerStage::Abandoned,
        _ => if !succeeded {
            AnswerStage::Abandoned
        } else {
            match stage {
                AnswerStage::AppendReplies => AnswerStage::Aggregate,
                AnswerStage::Aggregate => AnswerStage::AppendPrediction,
                AnswerStage::AppendPrediction => AnswerStage::RecordEngine,
                _ => AnswerStage::Answered,
            }
        },
    }
}

/// The stage reached from the first step by steps with outcomes `outcomes`.
pub open spec fn stage_after(outcomes: Seq<bool>) -> AnswerStage
    decreases outcomes.len(),
{
    if outcomes.len() == 0 {
        AnswerStage::AppendReplies
    } else {
        next_stage(stage_after(outcomes.drop_last()), outcomes.last())
    }
}

/// The stage that follows `stage` when its step `succeeded` or not.
pub fn answer_step(stage: AnswerStage, succeeded: bool) -> (r: AnswerStage)
    ensures
        r == next_stage(stage, succeeded),
{
    match stage {
        AnswerStage::Answered => AnswerStage::Answered,
        AnswerStage::Abandoned => AnswerStage::Abandoned,
        _ => if !succeeded {
            AnswerStage::Abandoned
        } else {
            match stage {
                AnswerStage::AppendReplies => AnswerStage::Aggregate,
                AnswerStage::Aggregate => AnswerStage::AppendPrediction,
                AnswerStage::AppendPrediction => AnswerStage::RecordEngine,
                _ => AnswerStage::Answered,
            }
        },
    }
}

proof fn lemma_stage_after(outcomes: Seq<bool>)
    ensures
        stage_after(outcomes) == AnswerStage::AppendReplies ==> outcomes.len() == 0,
        stage_after(outcomes) == AnswerStage::Aggregate ==> outcomes.len() == 1 && outcomes[0],
        stage_after(outcomes) == AnswerStage::AppendPrediction ==> outcomes.len() == 2 && outcomes[0]
            && outcomes[1],
        stage_after(outcomes) == AnswerStage::RecordEngine ==> outcomes.len() == 3 && outcomes[0]
            && outcomes[1] && outcomes[2],
        stage_after(outcomes) == AnswerStage::Answered ==> outcomes.len() >= 4 && outcomes[0]
            && outcomes[1] && outcomes[2] && outcomes[3],
    decreases outcomes.len(),
{
    if outcomes.len() > 0 {
        let prev = outcomes.drop_last();
        lemma_stage_after(prev);
        if prev.len() > 0 {
            assert(prev[0] == outcomes[0]);
        }
        if prev.len() > 1 {
            assert(prev[1] == outcomes[1]);
        }
        if prev.len() > 2 {
            assert(prev[2] == outcomes[2]);
        }
        if prev.len() > 3 {
            assert(prev[3] == outcomes[3]);
        }
    }
}

/// A prediction is appended only after the reply batch landed and the
/// aggregation succeeded, and an answer counts as landed only when all four
/// steps (replies, aggregation, prediction, engine record) succeeded in turn.
pub proof fn law_prediction_follows_the_reply_batch(outcomes: Seq<bool>)
    ensures
        stage_after(outcomes) == AnswerStage::AppendPrediction ==> outcomes.len() == 2 && outcomes[0]
            && outcomes[1],
        stage_after(outcomes) == AnswerStage::Answered <==> (outcomes.len() >= 4 && outcomes[0]
            && outcomes[1] && outcomes[2] && outcomes[3]),
    decreases outcomes.len(),
{
    lemma_stage_after(outcomes);
    if outcomes.len() >= 4 && outcomes[0] && outcomes[1] && outcomes[2] && outcomes[3] {
        if outcomes.len() == 4 {
            let o = outcomes;
            assert(o.take(1).drop_last() =~= Seq::<bool>::empty());
            assert(o.take(2).drop_last() =~= o.take(1));
            assert(o.take(3).drop_last() =~= o.take(2));
            assert(o.drop_last() =~= o.take(3));
            assert(o.take(1).last() == o[0]);
            assert(o.take(2).last() == o[1]);
            assert(o.take(3).last() == o[2]);
            assert(stage_after(Seq::<bool>::empty()) == AnswerStage::AppendReplies);
            assert(stage_after(o.take(1)) == AnswerStage::Aggregate);
            assert(stage_after(o.take(2)) == AnswerStage::AppendPrediction);
            assert(stage_after(o.take(3)) == AnswerStage::RecordEngine);
        } else {
            let prev = outcomes.drop_last();
            law_prediction_follows_the_reply_batch(prev);
            assert(prev[0] && prev[1] && prev[2] && prev[3]);
        }
    }
}

// ── waiting for a subprocess ───────────────────────────────────────────────

/// How long to sleep between two polls of a running subprocess, in milliseconds.
pub const POLL_INTERVAL_MS: u64 = 100;

/// What to do with a subprocess that is being waited for.
#[derive(PartialEq, Eq, Structural, Clone, Copy, Debug)]
pub enum WaitAction {
    /// It has exited: read what it printed.
    Collect,
    /// It ran past its time: kill it and report the timeout.
    Kill,
    /// Sleep for the poll interval and look again.
    Poll,
}

/// One look at a subprocess: whether it has `exited`, and how long it has
/// run (`elapsed_ms`) against its `timeout_ms`.
pub fn wait_step(exited: bool, elapsed_ms: u64, timeout_ms: u64) -> (r: WaitAction)
    ensures
        r == (if exited {
            WaitAction::Collect
        } else if elapsed_ms > timeout_ms {
            WaitAction::Kill
        } else {
            WaitAction::Poll
        }),
{
    if exited {
        WaitAction::Collect
    } else if elapsed_ms > timeout_ms {
        WaitAction::Kill
    } else {
        WaitAction::Poll
    }
}

/// What is reported when a subprocess was killed after `secs` seconds.
pub fn timeout_message(secs: u64) -> (r: String)
    ensures
        r@ == "subprocess timed out after "@ + decimal_spec(secs as nat) + "s"@,
{
    String::from_str("subprocess timed out after ").concat(decimal(secs).as_str()).concat("s")
}

} // verus!
