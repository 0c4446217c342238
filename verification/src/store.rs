//! The enrichment store: what this project holds that the queue does not.
//!
//! Four tables, as they are kept on disk: runs (one per
//! `content:query`, keyed by the query's ordinal), replies (keyed by their own
//! ordinal and associated with a run), personas (keyed by id) and run metadata
//! (engine choice per run). Runs and replies are kept in ordinal order; no key
//! occurs twice in any table. The on-disk copy is kept by the application.
use vstd::prelude::*;

verus! {

// ── rows ───────────────────────────────────────────────────────────────────

/// A stored run row.
pub struct RunRecord {
    pub item_ordinal: u64,
    pub draft: String,
    pub status: String,
    pub prediction_ordinal: Option<u64>,
    pub prediction_json: Option<String>,
    pub outcome_ordinal: Option<u64>,
    pub outcome_json: Option<String>,
    pub notes: String,
    pub enqueued_at: i64,
    pub archived: bool,
}

/// A stored reply row.
pub struct ReplyRecord {
    pub ordinal: u64,
    pub item_ordinal: u64,
    pub persona_id: String,
    pub body: String,
    pub enqueued_at: i64,
}

/// A stored persona row.
pub struct PersonaRecord {
    pub id: String,
    pub display_name: String,
    pub display_name_et: Option<String>,
    pub archetype: Option<String>,
    pub locked: bool,
    pub role: Option<String>,
    pub role_et: Option<String>,
    pub lock_touched: bool,
}

/// A stored run-metadata row.
pub struct MetaRecord {
    pub item_ordinal: u64,
    pub engine_requested: Option<String>,
    pub engine_used: Option<String>,
}

/// A run as the screens show it: its row joined with its reply count and the
/// engine that answered it.
pub struct Run {
    pub item_ordinal: u64,
    pub draft: String,
    pub status: String,
    pub prediction_ordinal: Option<u64>,
    pub prediction_json: Option<String>,
    pub outcome_ordinal: Option<u64>,
    pub outcome_json: Option<String>,
    pub notes: String,
    pub enqueued_at: i64,
    pub reply_count: u64,
    pub engine_used: Option<String>,
    pub archived: bool,
}

/// Startup seed for a persona row: identity from the panel files, red-team
/// role from this project.
pub struct PersonaSeed {
    pub id: String,
    pub display_name: String,
    pub archetype: String,
    pub role: String,
    pub role_et: String,
    pub locked_default: bool,
}

/// A reply as the screens show it: its row joined with its persona.
pub struct Reply {
    pub ordinal: u64,
    pub persona_id: String,
    pub body: String,
    pub display_name: String,
    pub archetype: Option<String>,
    pub role: Option<String>,
    pub role_et: Option<String>,
    pub locked: bool,
}

// ── mathematical model ─────────────────────────────────────────────────────

pub open spec fn ov(o: Option<String>) -> Option<Seq<char>> {
    match o {
        Some(s) => Some(s@),
        None => None,
    }
}

pub struct RunV {
    pub item_ordinal: u64,
    pub draft: Seq<char>,
    pub status: Seq<char>,
    pub prediction_ordinal: Option<u64>,
    pub prediction_json: Option<Seq<char>>,
    pub outcome_ordinal: Option<u64>,
    pub outcome_json: Option<Seq<char>>,
    pub notes: Seq<char>,
    pub enqueued_at: i64,
    pub archived: bool,
}

pub struct ReplyV {
    pub ordinal: u64,
    pub item_ordinal: u64,
    pub persona_id: Seq<char>,
    pub body: Seq<char>,
    pub enqueued_at: i64,
}

pub struct PersonaV {
    pub id: Seq<char>,
    pub display_name: Seq<char>,
    pub display_name_et: Option<Seq<char>>,
    pub archetype: Option<Seq<char>>,
    pub locked: bool,
    pub role: Option<Seq<char>>,
    pub role_et: Option<Seq<char>>,
    pub lock_touched: bool,
}

pub struct MetaV {
    pub item_ordinal: u64,
    pub engine_requested: Option<Seq<char>>,
    pub engine_used: Option<Seq<char>>,
}

/// The whole store: each table as the sequence of its rows.
pub struct StoreV {
    pub runs: Seq<RunV>,
    pub replies: Seq<ReplyV>,
    pub personas: Seq<PersonaV>,
    pub meta: Seq<MetaV>,
}

impl View for RunRecord {
    type V = RunV;

    open spec fn view(&self) -> RunV {
        RunV {
            item_ordinal: self.item_ordinal,
            draft: self.draft@,
            status: self.status@,
            prediction_ordinal: self.prediction_ordinal,
            prediction_json: ov(self.prediction_json),
            outcome_ordinal: self.outcome_ordinal,
            outcome_json: ov(self.outcome_json),
            notes: self.notes@,
            enqueued_at: self.enqueued_at,
            archived: self.archived,
        }
    }
}

impl View for ReplyRecord {
    type V = ReplyV;

    open spec fn view(&self) -> ReplyV {
        ReplyV {
            ordinal: self.ordinal,
            item_ordinal: self.item_ordinal,
            persona_id: self.persona_id@,
            body: self.body@,
            enqueued_at: self.enqueued_at,
        }
    }
}

impl View for PersonaRecord {
    type V = PersonaV;

    open spec fn view(&self) -> PersonaV {
        PersonaV {
            id: self.id@,
            display_name: self.display_name@,
            display_name_et: ov(self.display_name_et),
            archetype: ov(self.archetype),
            locked: self.locked,
            role: ov(self.role),
            role_et: ov(self.role_et),
            lock_touched: self.lock_touched,
        }
    }
}

impl View for MetaRecord {
    type V = MetaV;

    open spec fn view(&self) -> MetaV {
        MetaV {
            item_ordinal: self.item_ordinal,
            engine_requested: ov(self.engine_requested),
            engine_used: ov(self.engine_used),
        }
    }
}

pub open spec fn run_views(s: Seq<RunRecord>) -> Seq<RunV> {
    s.map_values(|r: RunRecord| r@)
}

pub open spec fn reply_views(s: Seq<ReplyRecord>) -> Seq<ReplyV> {
    s.map_values(|r: ReplyRecord| r@)
}

pub open spec fn persona_views(s: Seq<PersonaRecord>) -> Seq<PersonaV> {
    s.map_values(|r: PersonaRecord| r@)
}

pub open spec fn meta_views(s: Seq<MetaRecord>) -> Seq<MetaV> {
    s.map_values(|r: MetaRecord| r@)
}

// ── keys and lookups ───────────────────────────────────────────────────────

pub open spec fn run_keys(s: Seq<RunV>) -> Seq<u64> {
    s.map_values(|r: RunV| r.item_ordinal)
}

pub open spec fn reply_keys(s: Seq<ReplyV>) -> Seq<u64> {
    s.map_values(|r: ReplyV| r.ordinal)
}

/// Strictly increasing.
pub open spec fn ascending(k: Seq<u64>) -> bool {
    forall|i: int, j: int| 0 <= i < j < k.len() ==> k[i] < k[j]
}

/// Where `x` belongs in the ascending keys `k`: after every key below it.
pub open spec fn slot(k: Seq<u64>, x: u64) -> int
    decreases k.len(),
{
    if k.len() == 0 {
        0
    } else if k.last() < x {
        k.len() as int
    } else {
        slot(k.drop_last(), x)
    }
}

/// The run with ordinal `k`, if any.
pub open spec fn find_run(s: Seq<RunV>, k: u64) -> Option<RunV>
    decreases s.len(),
{
    if s.len() == 0 {
        None
    } else if s.last().item_ordinal == k {
        Some(s.last())
    } else {
        find_run(s.drop_last(), k)
    }
}

/// The reply with ordinal `k`, if any.
pub open spec fn find_reply(s: Seq<ReplyV>, k: u64) -> Option<ReplyV>
    decreases s.len(),
{
    if s.len() == 0 {
        None
    } else if s.last().ordinal == k {
        Some(s.last())
    } else {
        find_reply(s.drop_last(), k)
    }
}

/// The persona with id `id`, if any.
pub open spec fn find_persona(s: Seq<PersonaV>, id: Seq<char>) -> Option<PersonaV>
    decreases s.len(),
{
    if s.len() == 0 {
        None
    } else if s.last().id == id {
        Some(s.last())
    } else {
        find_persona(s.drop_last(), id)
    }
}

/// The metadata of run `k`, if any.
pub open spec fn find_meta(s: Seq<MetaV>, k: u64) -> Option<MetaV>
    decreases s.len(),
{
    if s.len() == 0 {
        None
    } else if s.last().item_ordinal == k {
        Some(s.last())
    } else {
        find_meta(s.drop_last(), k)
    }
}

pub open spec fn unique_ids(s: Seq<PersonaV>) -> bool {
    forall|i: int, j: int| 0 <= i < j < s.len() ==> s[i].id != s[j].id
}

pub open spec fn unique_meta(s: Seq<MetaV>) -> bool {
    forall|i: int, j: int| 0 <= i < j < s.len() ==> s[i].item_ordinal != s[j].item_ordinal
}

/// No key occurs twice in a table, and runs and replies are in ordinal order.
pub open spec fn wf_view(v: StoreV) -> bool {
    &&& ascending(run_keys(v.runs))
    &&& ascending(reply_keys(v.replies))
    &&& unique_ids(v.personas)
    &&& unique_meta(v.meta)
}

/// The store after a `content:query` arrives: a new pending run, unless the run exists.
pub open spec fn upsert_run_spec(st: StoreV, item: u64, draft: Seq<char>, enqueued_at: i64) -> StoreV {
    if find_run(st.runs, item) is Some {
        st
    } else {
        StoreV {
            runs: st.runs.insert(slot(run_keys(st.runs), item), fresh_run(item, draft, enqueued_at)),
            ..st
        }
    }
}

/// The store after the outcome of run `item` is recorded.
pub open spec fn set_outcome_spec(st: StoreV, item: u64, outcome_ordinal: u64, json: Seq<char>) -> StoreV {
    StoreV {
        runs: change_run(st.runs, item, RunChangeV::Outcome { ordinal: outcome_ordinal, json }),
        ..st
    }
}

// ── generic facts about keys ───────────────────────────────────────────────

pub proof fn lemma_slot(k: Seq<u64>, x: u64)
    requires
        ascending(k),
    ensures
        0 <= slot(k, x) <= k.len(),
        forall|i: int| 0 <= i < slot(k, x) ==> k[i] < x,
        forall|i: int| slot(k, x) <= i < k.len() ==> k[i] >= x,
    decreases k.len(),
{
    if k.len() > 0 {
        if k.last() < x {
            assert forall|i: int| 0 <= i < k.len() implies k[i] < x by {
                if i < k.len() - 1 {
                    assert(k[i] < k[k.len() - 1]);
                }
            };
        } else {
            let d = k.drop_last();
            assert(ascending(d));
            lemma_slot(d, x);
            assert forall|i: int| 0 <= i < slot(k, x) implies k[i] < x by {
                assert(k[i] == d[i]);
            };
            assert forall|i: int| slot(k, x) <= i < k.len() implies k[i] >= x by {
                if i < k.len() - 1 {
                    assert(k[i] == d[i]);
                }
            };
        }
    }
}

pub proof fn lemma_ascending_insert(k: Seq<u64>, x: u64)
    requires
        ascending(k),
        !k.contains(x),
    ensures
        ascending(k.insert(slot(k, x), x)),
{
    lemma_slot(k, x);
    let p = slot(k, x);
    let n = k.insert(p, x);
    assert forall|i: int, j: int| 0 <= i < j < n.len() implies n[i] < n[j] by {
        if j < p {
        } else if j == p {
        } else if i < p {
            assert(k[j - 1] >= x);
            assert(k[j - 1] != x);
        } else if i == p {
            assert(k[j - 1] >= x);
            assert(k[j - 1] != x);
        } else {
        }
    };
}


pub proof fn lemma_find_run(s: Seq<RunV>, k: u64)
    ensures
        find_run(s, k) is None <==> !run_keys(s).contains(k),
        find_run(s, k) matches Some(v) ==> v.item_ordinal == k && s.contains(v),
    decreases s.len(),
{
    if s.len() > 0 {
        lemma_find_run(s.drop_last(), k);
        assert(run_keys(s.drop_last()) =~= run_keys(s).drop_last());
        if s.last().item_ordinal == k {
            assert(run_keys(s)[s.len() - 1] == k);
        } else {
            if run_keys(s).contains(k) {
                let i = choose|i: int| 0 <= i < run_keys(s).len() && run_keys(s)[i] == k;
                assert(run_keys(s.drop_last())[i] == k);
            }
        }
        if let Some(v) = find_run(s, k) {
            if s.last().item_ordinal != k {
                let j = choose|j: int| 0 <= j < s.drop_last().len() && s.drop_last()[j] == v;
                assert(s[j] == v);
            } else {
                assert(s[s.len() - 1] == v);
            }
        }
    }
}

pub proof fn lemma_find_reply(s: Seq<ReplyV>, k: u64)
    ensures
        find_reply(s, k) is None <==> !reply_keys(s).contains(k),
    decreases s.len(),
{
    if s.len() > 0 {
        lemma_find_reply(s.drop_last(), k);
        assert(reply_keys(s.drop_last()) =~= reply_keys(s).drop_last());
        if s.last().ordinal == k {
            assert(reply_keys(s)[s.len() - 1] == k);
        } else {
            if reply_keys(s).contains(k) {
                let i = choose|i: int| 0 <= i < reply_keys(s).len() && reply_keys(s)[i] == k;
                assert(reply_keys(s.drop_last())[i] == k);
            }
        }
    }
}

pub proof fn lemma_find_persona_none(s: Seq<PersonaV>, id: Seq<char>)
    ensures
        find_persona(s, id) is None <==> (forall|i: int| 0 <= i < s.len() ==> s[i].id != id),
    decreases s.len(),
{
    if s.len() > 0 {
        let d = s.drop_last();
        lemma_find_persona_none(d, id);
        if s.last().id != id {
            if find_persona(s, id) is None {
                assert forall|i: int| 0 <= i < s.len() implies s[i].id != id by {
                    if i < s.len() - 1 {
                        assert(s[i] == d[i]);
                    }
                };
            } else {
                let i = choose|i: int| 0 <= i < d.len() && d[i].id == id;
                assert(s[i].id == id);
            }
        } else {
            assert(s[s.len() - 1].id == id);
        }
    }
}

pub proof fn lemma_find_meta_none(s: Seq<MetaV>, k: u64)
    ensures
        find_meta(s, k) is None <==> (forall|i: int| 0 <= i < s.len() ==> s[i].item_ordinal != k),
    decreases s.len(),
{
    if s.len() > 0 {
        let d = s.drop_last();
        lemma_find_meta_none(d, k);
        if s.last().item_ordinal != k {
            if find_meta(s, k) is None {
                assert forall|i: int| 0 <= i < s.len() implies s[i].item_ordinal != k by {
                    if i < s.len() - 1 {
                        assert(s[i] == d[i]);
                    }
                };
            } else {
                let i = choose|i: int| 0 <= i < d.len() && d[i].item_ordinal == k;
                assert(s[i].item_ordinal == k);
            }
        } else {
            assert(s[s.len() - 1].item_ordinal == k);
        }
    }
}

pub proof fn lemma_find_meta_some(s: Seq<MetaV>, k: u64)
    ensures
        find_meta(s, k) matches Some(m) ==> m.item_ordinal == k,
    decreases s.len(),
{
    if s.len() > 0 {
        lemma_find_meta_some(s.drop_last(), k);
    }
}

// ── run rows: the model of each write ──────────────────────────────────────

/// The row a new `content:query` gets.
pub open spec fn fresh_run(item: u64, draft: Seq<char>, enqueued_at: i64) -> RunV {
    RunV {
        item_ordinal: item,
        draft,
        status: "pending"@,
        prediction_ordinal: None,
        prediction_json: None,
        outcome_ordinal: None,
        outcome_json: None,
        notes: Seq::empty(),
        enqueued_at,
        archived: false,
    }
}

/// One keyed change to a run row.
enum RunChange {
    Predicted { ordinal: u64, json: String },
    Outcome { ordinal: u64, json: String },
    Notes { notes: String },
    Archived { archived: bool },
}

/// One keyed change to a run row, in the model.
pub enum RunChangeV {
    Predicted { ordinal: u64, json: Seq<char> },
    Outcome { ordinal: u64, json: Seq<char> },
    Notes { notes: Seq<char> },
    Archived { archived: bool },
}

impl View for RunChange {
    type V = RunChangeV;

    closed spec fn view(&self) -> RunChangeV {
        match self {
            RunChange::Predicted { ordinal, json } => RunChangeV::Predicted { ordinal: *ordinal, json: json@ },
            RunChange::Outcome { ordinal, json } => RunChangeV::Outcome { ordinal: *ordinal, json: json@ },
            RunChange::Notes { notes } => RunChangeV::Notes { notes: notes@ },
            RunChange::Archived { archived } => RunChangeV::Archived { archived: *archived },
        }
    }
}

pub open spec fn apply_run_change(r: RunV, c: RunChangeV) -> RunV {
    match c {
        RunChangeV::Predicted { ordinal, json } => RunV {
            status: "predicted"@,
            prediction_ordinal: Some(ordinal),
            prediction_json: Some(json),
            ..r
        },
        RunChangeV::Outcome { ordinal, json } => RunV {
            outcome_ordinal: Some(ordinal),
            outcome_json: Some(json),
            ..r
        },
        RunChangeV::Notes { notes } => RunV { notes, ..r },
        RunChangeV::Archived { archived } => RunV { archived, ..r },
    }
}

/// `runs` with the change applied to the row of run `k` (if there is one).
pub open spec fn change_run(runs: Seq<RunV>, k: u64, c: RunChangeV) -> Seq<RunV> {
    runs.map_values(|r: RunV| if r.item_ordinal == k { apply_run_change(r, c) } else { r })
}


/// The most recent run before ordinal `o`: the greatest run ordinal below `o`.
pub open spec fn latest_run_before(runs: Seq<RunV>, o: u64) -> Option<u64>
    decreases runs.len(),
{
    if runs.len() == 0 {
        None
    } else {
        let m = latest_run_before(runs.drop_last(), o);
        let k = runs.last().item_ordinal;
        if k < o && (match m {
            None => true,
            Some(x) => x < k,
        }) {
            Some(k)
        } else {
            m
        }
    }
}

/// The greatest prediction ordinal recorded on any run that is below `p`.
pub open spec fn latest_prediction_before(runs: Seq<RunV>, p: u64) -> Option<u64>
    decreases runs.len(),
{
    if runs.len() == 0 {
        None
    } else {
        let m = latest_prediction_before(runs.drop_last(), p);
        match runs.last().prediction_ordinal {
            Some(k) => if k < p && (match m {
                None => true,
                Some(x) => x < k,
            }) {
                Some(k)
            } else {
                m
            },
            None => m,
        }
    }
}

/// A reply strictly between ordinals `lo` and `hi` now belongs to run `item`.
pub open spec fn anchor_reply(r: ReplyV, item: u64, lo: u64, hi: u64) -> ReplyV {
    if lo < r.ordinal && r.ordinal < hi {
        ReplyV { item_ordinal: item, ..r }
    } else {
        r
    }
}

pub open spec fn reanchor(replies: Seq<ReplyV>, item: u64, lo: u64, hi: u64) -> Seq<ReplyV> {
    replies.map_values(|r: ReplyV| anchor_reply(r, item, lo, hi))
}

/// The persona row a reply's persona gets when it has none yet.
pub open spec fn bare_persona(id: Seq<char>) -> PersonaV {
    PersonaV {
        id,
        display_name: id,
        display_name_et: None,
        archetype: None,
        locked: false,
        role: None,
        role_et: None,
        lock_touched: false,
    }
}

/// The store after a reply at `ordinal` arrives (the model of `attach_reply`).
pub open spec fn attach_reply_spec(
    st: StoreV,
    ordinal: u64,
    persona_id: Seq<char>,
    body: Seq<char>,
    enqueued_at: i64,
) -> StoreV {
    match latest_run_before(st.runs, ordinal) {
        None => st,
        Some(item) => StoreV {
            personas: if find_persona(st.personas, persona_id) is Some {
                st.personas
            } else {
                st.personas.push(bare_persona(persona_id))
            },
            replies: if find_reply(st.replies, ordinal) is Some {
                st.replies
            } else {
                st.replies.insert(
                    slot(reply_keys(st.replies), ordinal),
                    ReplyV { ordinal, item_ordinal: item, persona_id, body, enqueued_at },
                )
            },
            ..st
        },
    }
}

/// The store after a prediction for run `item` arrives (the model of `set_prediction`).
pub open spec fn set_prediction_spec(st: StoreV, item: u64, prediction_ordinal: u64, json: Seq<char>) -> StoreV {
    let runs = change_run(
        st.runs,
        item,
        RunChangeV::Predicted { ordinal: prediction_ordinal, json },
    );
    let lo = match latest_prediction_before(runs, prediction_ordinal) {
        Some(x) => x,
        None => 0,
    };
    StoreV { runs, replies: reanchor(st.replies, item, lo, prediction_ordinal), ..st }
}


pub struct PersonaSeedV {
    pub id: Seq<char>,
    pub display_name: Seq<char>,
    pub archetype: Seq<char>,
    pub role: Seq<char>,
    pub role_et: Seq<char>,
    pub locked_default: bool,
}

impl View for PersonaSeed {
    type V = PersonaSeedV;

    open spec fn view(&self) -> PersonaSeedV {
        PersonaSeedV {
            id: self.id@,
            display_name: self.display_name@,
            archetype: self.archetype@,
            role: self.role@,
            role_et: self.role_et@,
            locked_default: self.locked_default,
        }
    }
}

/// A persona row refreshed from a seed: identity always follows the seed; the
/// lock follows it only until an operator has toggled the lock.
pub open spec fn reseeded(p: PersonaV, s: PersonaSeedV) -> PersonaV {
    PersonaV {
        display_name: s.display_name,
        archetype: Some(s.archetype),
        role: Some(s.role),
        role_et: Some(s.role_et),
        locked: if p.lock_touched {
            p.locked
        } else {
            s.locked_default
        },
        ..p
    }
}

/// The row a seed creates for a persona not seen before.
pub open spec fn seeded_persona(s: PersonaSeedV) -> PersonaV {
    PersonaV {
        id: s.id,
        display_name: s.display_name,
        display_name_et: None,
        archetype: Some(s.archetype),
        locked: s.locked_default,
        role: Some(s.role),
        role_et: Some(s.role_et),
        lock_touched: false,
    }
}

pub open spec fn seed_one(ps: Seq<PersonaV>, s: PersonaSeedV) -> Seq<PersonaV> {
    if find_persona(ps, s.id) is Some {
        ps.map_values(|p: PersonaV| if p.id == s.id { reseeded(p, s) } else { p })
    } else {
        ps.push(seeded_persona(s))
    }
}

/// The personas after applying the seeds in order.
pub open spec fn seed_all(ps: Seq<PersonaV>, seeds: Seq<PersonaSeedV>) -> Seq<PersonaV>
    decreases seeds.len(),
{
    if seeds.len() == 0 {
        ps
    } else {
        seed_one(seed_all(ps, seeds.drop_last()), seeds.last())
    }
}

/// The personas after an operator toggles the lock of persona `id`.
pub open spec fn toggle_spec(ps: Seq<PersonaV>, id: Seq<char>) -> Seq<PersonaV> {
    ps.map_values(
        |p: PersonaV|
            if p.id == id {
                PersonaV { locked: !p.locked, lock_touched: true, ..p }
            } else {
                p
            },
    )
}

/// The run metadata after recording the engine requested (`used == false`)
/// or used (`used == true`) for run `k`.
pub open spec fn set_engine_spec(ms: Seq<MetaV>, k: u64, engine: Seq<char>, used: bool) -> Seq<MetaV> {
    if find_meta(ms, k) is Some {
        ms.map_values(
            |m: MetaV|
                if m.item_ordinal == k {
                    if used {
                        MetaV { engine_used: Some(engine), ..m }
                    } else {
                        MetaV { engine_requested: Some(engine), ..m }
                    }
                } else {
                    m
                },
        )
    } else if used {
        ms.push(MetaV { item_ordinal: k, engine_requested: None, engine_used: Some(engine) })
    } else {
        ms.push(MetaV { item_ordinal: k, engine_requested: Some(engine), engine_used: None })
    }
}

pub open spec fn engine_requested_of(ms: Seq<MetaV>, k: u64) -> Option<Seq<char>> {
    match find_meta(ms, k) {
        Some(m) => m.engine_requested,
        None => None,
    }
}

pub open spec fn engine_used_of(ms: Seq<MetaV>, k: u64) -> Option<Seq<char>> {
    match find_meta(ms, k) {
        Some(m) => m.engine_used,
        None => None,
    }
}


/// The replies associated with run `k`, in ordinal order.
pub open spec fn replies_of(rs: Seq<ReplyV>, k: u64) -> Seq<ReplyV> {
    rs.filter(|r: ReplyV| r.item_ordinal == k)
}

/// The runs on one shelf (archived or active), in ordinal order.
pub open spec fn on_shelf(runs: Seq<RunV>, archived: bool) -> Seq<RunV> {
    runs.filter(|r: RunV| r.archived == archived)
}

/// The runs that have both a prediction and an outcome, in ordinal order.
pub open spec fn calibrated(runs: Seq<RunV>) -> Seq<RunV> {
    runs.filter(|r: RunV| r.prediction_json is Some && r.outcome_json is Some)
}

/// `out` shows run row `r` of store `st`: its fields, how many replies it
/// has, and the engine recorded as used for it.
pub open spec fn shows_run(out: Run, st: StoreV, r: RunV) -> bool {
    &&& out.item_ordinal == r.item_ordinal
    &&& out.draft@ == r.draft
    &&& out.status@ == r.status
    &&& out.prediction_ordinal == r.prediction_ordinal
    &&& ov(out.prediction_json) == r.prediction_json
    &&& out.outcome_ordinal == r.outcome_ordinal
    &&& ov(out.outcome_json) == r.outcome_json
    &&& out.notes@ == r.notes
    &&& out.enqueued_at == r.enqueued_at
    &&& out.reply_count == replies_of(st.replies, r.item_ordinal).len()
    &&& ov(out.engine_used) == engine_used_of(st.meta, r.item_ordinal)
    &&& out.archived == r.archived
}

/// `out` shows reply row `r` of store `st` joined with its persona; a reply
/// whose persona has no row shows its persona id as name and is not locked.
pub open spec fn shows_reply(out: Reply, st: StoreV, r: ReplyV) -> bool {
    &&& out.ordinal == r.ordinal
    &&& out.persona_id@ == r.persona_id
    &&& out.body@ == r.body
    &&& match find_persona(st.personas, r.persona_id) {
        Some(p) => {
            &&& out.display_name@ == p.display_name
            &&& ov(out.archetype) == p.archetype
            &&& ov(out.role) == p.role
            &&& ov(out.role_et) == p.role_et
            &&& out.locked == p.locked
        },
        None => {
            &&& out.display_name@ == r.persona_id
            &&& out.archetype is None
            &&& out.role is None
            &&& out.role_et is None
            &&& !out.locked
        },
    }
}

/// `runs` with row `v` stored under its ordinal, replacing any row there.
pub open spec fn put_run(runs: Seq<RunV>, v: RunV) -> Seq<RunV> {
    if find_run(runs, v.item_ordinal) is Some {
        runs.map_values(|r: RunV| if r.item_ordinal == v.item_ordinal { v } else { r })
    } else {
        runs.insert(slot(run_keys(runs), v.item_ordinal), v)
    }
}

/// `replies` with row `v` stored under its ordinal, replacing any row there.
pub open spec fn put_reply(replies: Seq<ReplyV>, v: ReplyV) -> Seq<ReplyV> {
    if find_reply(replies, v.ordinal) is Some {
        replies.map_values(|r: ReplyV| if r.ordinal == v.ordinal { v } else { r })
    } else {
        replies.insert(slot(reply_keys(replies), v.ordinal), v)
    }
}

/// `personas` with row `v` stored under its id, replacing any row there.
pub open spec fn put_persona(ps: Seq<PersonaV>, v: PersonaV) -> Seq<PersonaV> {
    if find_persona(ps, v.id) is Some {
        ps.map_values(|p: PersonaV| if p.id == v.id { v } else { p })
    } else {
        ps.push(v)
    }
}

/// `meta` with row `v` stored under its run, replacing any row there.
pub open spec fn put_meta(ms: Seq<MetaV>, v: MetaV) -> Seq<MetaV> {
    if find_meta(ms, v.item_ordinal) is Some {
        ms.map_values(|m: MetaV| if m.item_ordinal == v.item_ordinal { v } else { m })
    } else {
        ms.push(v)
    }
}

fn clone_opt(o: &Option<String>) -> (r: Option<String>)
    ensures
        ov(r) == ov(*o),
{
    match o {
        Some(s) => Some(s.clone()),
        None => None,
    }
}

/// The store.
pub struct Store {
    runs: Vec<RunRecord>,
    replies: Vec<ReplyRecord>,
    personas: Vec<PersonaRecord>,
    meta: Vec<MetaRecord>,
}

impl View for Store {
    type V = StoreV;

    closed spec fn view(&self) -> StoreV {
        StoreV {
            runs: run_views(self.runs@),
            replies: reply_views(self.replies@),
            personas: persona_views(self.personas@),
            meta: meta_views(self.meta@),
        }
    }
}

impl Store {
    /// Well-formed: no key twice in a table, runs and replies in ordinal order.
    pub open spec fn wf(&self) -> bool {
        wf_view(self@)
    }

    /// An empty store.
    pub fn new() -> (st: Store)
        ensures
            st.wf(),
            st@.runs.len() == 0,
            st@.replies.len() == 0,
            st@.personas.len() == 0,
            st@.meta.len() == 0,
    {
        let st = Store { runs: Vec::new(), replies: Vec::new(), personas: Vec::new(), meta: Vec::new() };
        assert(run_keys(st@.runs) =~= Seq::<u64>::empty());
        assert(reply_keys(st@.replies) =~= Seq::<u64>::empty());
        st
    }

    fn run_index(&self, k: u64) -> (r: Option<usize>)
        ensures
            r is None ==> find_run(self@.runs, k) is None,
            r matches Some(i) ==> i < self.runs@.len() && self.runs@[i as int].item_ordinal == k
                && find_run(self@.runs, k) == Some(self@.runs[i as int]),
    {
        let mut i = self.runs.len();
        assert(self@.runs.take(i as int) =~= self@.runs);
        while i > 0
            invariant
                i <= self.runs@.len(),
                find_run(self@.runs, k) == find_run(self@.runs.take(i as int), k),
            decreases i,
        {
            assert(self@.runs.take(i as int).drop_last() =~= self@.runs.take(i - 1));
            if self.runs[i - 1].item_ordinal == k {
                return Some(i - 1);
            }
            i -= 1;
        }
        None
    }

    fn run_slot(&self, k: u64) -> (p: usize)
        ensures
            p == slot(run_keys(self@.runs), k),
    {
        let ghost keys = run_keys(self@.runs);
        let mut i = self.runs.len();
        assert(keys.take(i as int) =~= keys);
        while i > 0 && self.runs[i - 1].item_ordinal >= k
            invariant
                i <= self.runs@.len() == keys.len(),
                keys == run_keys(self@.runs),
                slot(keys, k) == slot(keys.take(i as int), k),
            decreases i,
        {
            assert(keys.take(i as int).drop_last() =~= keys.take(i - 1));
            i -= 1;
        }
        i
    }

    /// Records a `content:query`: a new pending run, unless the run exists already.
    pub fn upsert_run(&mut self, item_ordinal: u64, draft: &str, enqueued_at: i64)
        requires
            old(self).wf(),
        ensures
            final(self).wf(),
            final(self)@ == upsert_run_spec(old(self)@, item_ordinal, draft@, enqueued_at),
    {
        if self.run_index(item_ordinal).is_some() {
            return;
        }
        let p = self.run_slot(item_ordinal);
        let rec = RunRecord {
            item_ordinal,
            draft: draft.to_owned(),
            status: String::from_str("pending"),
            prediction_ordinal: None,
            prediction_json: None,
            outcome_ordinal: None,
            outcome_json: None,
            notes: String::new(),
            enqueued_at,
            archived: false,
        };
        let ghost before = self.runs@;
        proof {
            lemma_find_run(run_views(before), item_ordinal);
            lemma_slot(run_keys(run_views(before)), item_ordinal);
            lemma_ascending_insert(run_keys(run_views(before)), item_ordinal);
        }
        self.runs.insert(p, rec);
        assert(run_views(self.runs@) =~= run_views(before).insert(p as int, rec@));
        assert(rec@ == fresh_run(item_ordinal, draft@, enqueued_at));
        assert(run_keys(run_views(self.runs@)) =~= run_keys(run_views(before)).insert(
            p as int,
            item_ordinal,
        ));
    }

    fn change_run_rows(&mut self, k: u64, c: RunChange)
        requires
            old(self).wf(),
        ensures
            final(self).wf(),
            final(self)@.runs == change_run(old(self)@.runs, k, c@),
            final(self)@.replies == old(self)@.replies,
            final(self)@.personas == old(self)@.personas,
            final(self)@.meta == old(self)@.meta,
    {
        let ghost before = self.runs@;
        let ghost v0 = self@;
        let ghost target = change_run(run_views(before), k, c@);
        let n = self.runs.len();
        let mut i: usize = 0;
        while i < n
            invariant
                n == self.runs@.len() == before.len(),
                v0 == old(self)@,
                before == old(self).runs@,
                self.replies == old(self).replies,
                self.personas == old(self).personas,
                self.meta == old(self).meta,
                target.len() == n,
                target == change_run(run_views(before), k, c@),
                i <= n,
                forall|j: int| 0 <= j < i ==> #[trigger] self.runs@[j]@ == target[j],
                forall|j: int| i <= j < n ==> #[trigger] self.runs@[j] == before[j],
            decreases n - i,
        {
            if self.runs[i].item_ordinal == k {
                match &c {
                    RunChange::Predicted { ordinal, json } => {
                        self.runs[i].status = String::from_str("predicted");
                        self.runs[i].prediction_ordinal = Some(*ordinal);
                        self.runs[i].prediction_json = Some(json.clone());
                    },
                    RunChange::Outcome { ordinal, json } => {
                        self.runs[i].outcome_ordinal = Some(*ordinal);
                        self.runs[i].outcome_json = Some(json.clone());
                    },
                    RunChange::Notes { notes } => {
                        self.runs[i].notes = notes.clone();
                    },
                    RunChange::Archived { archived } => {
                        self.runs[i].archived = *archived;
                    },
                }
            }
            i += 1;
        }
        assert(run_views(self.runs@) =~= target);
        assert(run_keys(target) =~= run_keys(run_views(before)));
    }

    /// Marks run `item` archived or active again.
    pub fn set_archived(&mut self, item_ordinal: u64, archived: bool)
        requires
            old(self).wf(),
        ensures
            final(self).wf(),
            final(self)@ == (StoreV {
                runs: change_run(old(self)@.runs, item_ordinal, RunChangeV::Archived { archived }),
                ..old(self)@
            }),
    {
        self.change_run_rows(item_ordinal, RunChange::Archived { archived });
    }

    /// Replaces the operator notes of run `item`.
    pub fn set_notes(&mut self, item_ordinal: u64, notes: &str)
        requires
            old(self).wf(),
        ensures
            final(self).wf(),
            final(self)@ == (StoreV {
                runs: change_run(old(self)@.runs, item_ordinal, RunChangeV::Notes { notes: notes@ }),
                ..old(self)@
            }),
    {
        self.change_run_rows(item_ordinal, RunChange::Notes { notes: notes.to_owned() });
    }

    /// Records the outcome of run `item`.
    pub fn set_outcome(&mut self, item_ordinal: u64, outcome_ordinal: u64, json: &str)
        requires
            old(self).wf(),
        ensures
            final(self).wf(),
            final(self)@ == set_outcome_spec(old(self)@, item_ordinal, outcome_ordinal, json@),
    {
        self.change_run_rows(
            item_ordinal,
            RunChange::Outcome { ordinal: outcome_ordinal, json: json.to_owned() },
        );
    }

    fn latest_prediction(&self, p: u64) -> (r: Option<u64>)
        ensures
            r == latest_prediction_before(self@.runs, p),
    {
        let ghost v = self@.runs;
        let n = self.runs.len();
        let mut best: Option<u64> = None;
        let mut i: usize = 0;
        while i < n
            invariant
                n == v.len(),
                v == self@.runs,
                i <= n,
                best == latest_prediction_before(v.take(i as int), p),
            decreases n - i,
        {
            assert(v.take(i + 1).drop_last() =~= v.take(i as int));
            assert(v.take(i + 1).last() == v[i as int]);
            match self.runs[i].prediction_ordinal {
                Some(k) => {
                    if k < p && (match best {
                        None => true,
                        Some(x) => x < k,
                    }) {
                        best = Some(k);
                    }
                },
                None => {},
            }
            i += 1;
        }
        assert(v.take(n as int) =~= v);
        best
    }

    fn latest_run(&self, o: u64) -> (r: Option<u64>)
        ensures
            r == latest_run_before(self@.runs, o),
    {
        let ghost v = self@.runs;
        let n = self.runs.len();
        let mut best: Option<u64> = None;
        let mut i: usize = 0;
        while i < n
            invariant
                n == v.len(),
                v == self@.runs,
                i <= n,
                best == latest_run_before(v.take(i as int), o),
            decreases n - i,
        {
            assert(v.take(i + 1).drop_last() =~= v.take(i as int));
            assert(v.take(i + 1).last() == v[i as int]);
            let k = self.runs[i].item_ordinal;
            if k < o && (match best {
                None => true,
                Some(x) => x < k,
            }) {
                best = Some(k);
            }
            i += 1;
        }
        assert(v.take(n as int) =~= v);
        best
    }

    fn reanchor_rows(&mut self, item: u64, lo: u64, hi: u64)
        requires
            old(self).wf(),
        ensures
            final(self).wf(),
            final(self)@ == (StoreV { replies: reanchor(old(self)@.replies, item, lo, hi), ..old(self)@ }),
    {
        let ghost before = self.replies@;
        let ghost target = reanchor(reply_views(before), item, lo, hi);
        let n = self.replies.len();
        let mut i: usize = 0;
        while i < n
            invariant
                n == self.replies@.len() == before.len(),
                before == old(self).replies@,
                self.runs == old(self).runs,
                self.personas == old(self).personas,
                self.meta == old(self).meta,
                target.len() == n,
                target == reanchor(reply_views(before), item, lo, hi),
                i <= n,
                forall|j: int| 0 <= j < i ==> #[trigger] self.replies@[j]@ == target[j],
                forall|j: int| i <= j < n ==> #[trigger] self.replies@[j] == before[j],
            decreases n - i,
        {
            let o = self.replies[i].ordinal;
            if lo < o && o < hi {
                self.replies[i].item_ordinal = item;
            }
            i += 1;
        }
        assert(reply_views(self.replies@) =~= target);
        assert(reply_keys(target) =~= reply_keys(reply_views(before)));
    }

    /// Records the prediction for run `item` and re-anchors the replies that
    /// arrived since the previous prediction to it.
    pub fn set_prediction(&mut self, item_ordinal: u64, prediction_ordinal: u64, json: &str)
        requires
            old(self).wf(),
        ensures
            final(self).wf(),
            final(self)@ == set_prediction_spec(old(self)@, item_ordinal, prediction_ordinal, json@),
    {
        self.change_run_rows(
            item_ordinal,
            RunChange::Predicted { ordinal: prediction_ordinal, json: json.to_owned() },
        );
        let last = self.latest_prediction(prediction_ordinal);
        let lo = match last {
            Some(x) => x,
            None => 0,
        };
        self.reanchor_rows(item_ordinal, lo, prediction_ordinal);
    }

    fn reply_index(&self, k: u64) -> (r: Option<usize>)
        ensures
            r is None ==> find_reply(self@.replies, k) is None,
            r is Some ==> find_reply(self@.replies, k) is Some,
    {
        let mut i = self.replies.len();
        assert(self@.replies.take(i as int) =~= self@.replies);
        while i > 0
            invariant
                i <= self.replies@.len(),
                find_reply(self@.replies, k) == find_reply(self@.replies.take(i as int), k),
            decreases i,
        {
            assert(self@.replies.take(i as int).drop_last() =~= self@.replies.take(i - 1));
            if self.replies[i - 1].ordinal == k {
                return Some(i - 1);
            }
            i -= 1;
        }
        None
    }

    fn reply_slot(&self, k: u64) -> (p: usize)
        ensures
            p == slot(reply_keys(self@.replies), k),
    {
        let ghost keys = reply_keys(self@.replies);
        let mut i = self.replies.len();
        assert(keys.take(i as int) =~= keys);
        while i > 0 && self.replies[i - 1].ordinal >= k
            invariant
                i <= self.replies@.len() == keys.len(),
                keys == reply_keys(self@.replies),
                slot(keys, k) == slot(keys.take(i as int), k),
            decreases i,
        {
            assert(keys.take(i as int).drop_last() =~= keys.take(i - 1));
            i -= 1;
        }
        i
    }

    fn persona_index(&self, id: &String) -> (r: Option<usize>)
        ensures
            r is None ==> find_persona(self@.personas, id@) is None,
            r matches Some(i) ==> i < self.personas@.len() && find_persona(self@.personas, id@)
                == Some(self@.personas[i as int]) && self.personas@[i as int].id@ == id@,
    {
        let mut i = self.personas.len();
        assert(self@.personas.take(i as int) =~= self@.personas);
        while i > 0
            invariant
                i <= self.personas@.len(),
                find_persona(self@.personas, id@) == find_persona(self@.personas.take(i as int), id@),
            decreases i,
        {
            assert(self@.personas.take(i as int).drop_last() =~= self@.personas.take(i - 1));
            if self.personas[i - 1].id == *id {
                return Some(i - 1);
            }
            i -= 1;
        }
        None
    }

    fn add_persona_if_absent(&mut self, id: &String)
        requires
            old(self).wf(),
        ensures
            final(self).wf(),
            final(self)@ == (StoreV {
                personas: if find_persona(old(self)@.personas, id@) is Some {
                    old(self)@.personas
                } else {
                    old(self)@.personas.push(bare_persona(id@))
                },
                ..old(self)@
            }),
    {
        if self.persona_index(id).is_some() {
            return;
        }
        let rec = PersonaRecord {
            id: id.clone(),
            display_name: id.clone(),
            display_name_et: None,
            archetype: None,
            locked: false,
            role: None,
            role_et: None,
            lock_touched: false,
        };
        let ghost before = persona_views(self.personas@);
        proof {
            lemma_find_persona_none(before, id@);
        }
        self.personas.push(rec);
        assert(persona_views(self.personas@) =~= before.push(bare_persona(id@)));
    }

    /// Records a reply: it belongs to the most recent run before it. A reply
    /// with no run before it is dropped; a reply already recorded is kept as it was.
    pub fn attach_reply(&mut self, ordinal: u64, persona_id: &str, body: &str, enqueued_at: i64)
        requires
            old(self).wf(),
        ensures
            final(self).wf(),
            final(self)@ == attach_reply_spec(old(self)@, ordinal, persona_id@, body@, enqueued_at),
    {
        let item = match self.latest_run(ordinal) {
            None => return,
            Some(item) => item,
        };
        let id = persona_id.to_owned();
        self.add_persona_if_absent(&id);
        if self.reply_index(ordinal).is_some() {
            return;
        }
        let p = self.reply_slot(ordinal);
        let rec = ReplyRecord {
            ordinal,
            item_ordinal: item,
            persona_id: id,
            body: body.to_owned(),
            enqueued_at,
        };
        let ghost before = self.replies@;
        proof {
            lemma_find_reply(reply_views(before), ordinal);
            lemma_slot(reply_keys(reply_views(before)), ordinal);
            lemma_ascending_insert(reply_keys(reply_views(before)), ordinal);
        }
        self.replies.insert(p, rec);
        assert(reply_views(self.replies@) =~= reply_views(before).insert(p as int, rec@));
        assert(reply_keys(reply_views(self.replies@)) =~= reply_keys(reply_views(before)).insert(
            p as int,
            ordinal,
        ));
    }

    fn seed_persona(&mut self, seed: &PersonaSeed)
        requires
            old(self).wf(),
        ensures
            final(self).wf(),
            final(self)@ == (StoreV { personas: seed_one(old(self)@.personas, seed@), ..old(self)@ }),
    {
        match self.persona_index(&seed.id) {
            None => {
                let rec = PersonaRecord {
                    id: seed.id.clone(),
                    display_name: seed.display_name.clone(),
                    display_name_et: None,
                    archetype: Some(seed.archetype.clone()),
                    locked: seed.locked_default,
                    role: Some(seed.role.clone()),
                    role_et: Some(seed.role_et.clone()),
                    lock_touched: false,
                };
                let ghost before = persona_views(self.personas@);
                proof {
                    lemma_find_persona_none(before, seed.id@);
                }
                self.personas.push(rec);
                assert(persona_views(self.personas@) =~= before.push(seeded_persona(seed@)));
            },
            Some(_) => {
                let ghost before = self.personas@;
                let ghost target = seed_one(persona_views(before), seed@);
                let n = self.personas.len();
                let mut i: usize = 0;
                while i < n
                    invariant
                        n == self.personas@.len() == before.len(),
                        before == old(self).personas@,
                        find_persona(persona_views(before), seed.id@) is Some,
                        self.runs == old(self).runs,
                        self.replies == old(self).replies,
                        self.meta == old(self).meta,
                        target.len() == n,
                        target == seed_one(persona_views(before), seed@),
                        i <= n,
                        forall|j: int| 0 <= j < i ==> #[trigger] self.personas@[j]@ == target[j],
                        forall|j: int| i <= j < n ==> #[trigger] self.personas@[j] == before[j],
                    decreases n - i,
                {
                    if self.personas[i].id == seed.id {
                        self.personas[i].display_name = seed.display_name.clone();
                        self.personas[i].archetype = Some(seed.archetype.clone());
                        self.personas[i].role = Some(seed.role.clone());
                        self.personas[i].role_et = Some(seed.role_et.clone());
                        if !self.personas[i].lock_touched {
                            self.personas[i].locked = seed.locked_default;
                        }
                    }
                    i += 1;
                }
                assert(persona_views(self.personas@) =~= target);
                assert forall|a: int, b: int| 0 <= a < b < target.len() implies target[a].id
                    != target[b].id by {
                    assert(target[a].id == persona_views(before)[a].id);
                    assert(target[b].id == persona_views(before)[b].id);
                };
            },
        }
    }

    /// Seeds persona rows: identity fields always refresh from the seed; the
    /// lock takes the seed's default only until an operator has toggled it.
    pub fn seed_personas(&mut self, seeds: &Vec<PersonaSeed>)
        requires
            old(self).wf(),
        ensures
            final(self).wf(),
            final(self)@ == (StoreV {
                personas: seed_all(old(self)@.personas, seeds@.map_values(|s: PersonaSeed| s@)),
                ..old(self)@
            }),
    {
        let ghost sv = seeds@.map_values(|s: PersonaSeed| s@);
        let n = seeds.len();
        let mut i: usize = 0;
        assert(sv.take(0) =~= Seq::<PersonaSeedV>::empty());
        while i < n
            invariant
                n == seeds@.len() == sv.len(),
                sv == seeds@.map_values(|s: PersonaSeed| s@),
                i <= n,
                self.wf(),
                self@ == (StoreV {
                    personas: seed_all(old(self)@.personas, sv.take(i as int)),
                    ..old(self)@
                }),
            decreases n - i,
        {
            self.seed_persona(&seeds[i]);
            assert(sv.take(i + 1).drop_last() =~= sv.take(i as int));
            assert(sv.take(i + 1).last() == seeds@[i as int]@);
            i += 1;
        }
        assert(sv.take(n as int) =~= sv);
    }

    /// Flips the lock of persona `id` and remembers that an operator chose it.
    pub fn toggle_locked(&mut self, persona_id: &str)
        requires
            old(self).wf(),
        ensures
            final(self).wf(),
            final(self)@ == (StoreV { personas: toggle_spec(old(self)@.personas, persona_id@), ..old(self)@ }),
    {
        let id = persona_id.to_owned();
        let ghost before = self.personas@;
        let ghost target = toggle_spec(persona_views(before), persona_id@);
        let n = self.personas.len();
        let mut i: usize = 0;
        while i < n
            invariant
                n == self.personas@.len() == before.len(),
                before == old(self).personas@,
                id@ == persona_id@,
                self.runs == old(self).runs,
                self.replies == old(self).replies,
                self.meta == old(self).meta,
                target.len() == n,
                target == toggle_spec(persona_views(before), persona_id@),
                i <= n,
                forall|j: int| 0 <= j < i ==> #[trigger] self.personas@[j]@ == target[j],
                forall|j: int| i <= j < n ==> #[trigger] self.personas@[j] == before[j],
            decreases n - i,
        {
            if self.personas[i].id == id {
                let was = self.personas[i].locked;
                self.personas[i].locked = !was;
                self.personas[i].lock_touched = true;
            }
            i += 1;
        }
        assert(persona_views(self.personas@) =~= target);
        assert forall|a: int, b: int| 0 <= a < b < target.len() implies target[a].id != target[b].id by {
            assert(target[a].id == persona_views(before)[a].id);
            assert(target[b].id == persona_views(before)[b].id);
        };
    }

    fn meta_index(&self, k: u64) -> (r: Option<usize>)
        ensures
            r is None ==> find_meta(self@.meta, k) is None,
            r matches Some(i) ==> i < self.meta@.len() && find_meta(self@.meta, k) == Some(
                self@.meta[i as int],
            ),
    {
        let mut i = self.meta.len();
        assert(self@.meta.take(i as int) =~= self@.meta);
        while i > 0
            invariant
                i <= self.meta@.len(),
                find_meta(self@.meta, k) == find_meta(self@.meta.take(i as int), k),
            decreases i,
        {
            assert(self@.meta.take(i as int).drop_last() =~= self@.meta.take(i - 1));
            if self.meta[i - 1].item_ordinal == k {
                return Some(i - 1);
            }
            i -= 1;
        }
        None
    }

    fn set_engine(&mut self, item_ordinal: u64, engine: &str, used: bool)
        requires
            old(self).wf(),
        ensures
            final(self).wf(),
            final(self)@ == (StoreV {
                meta: set_engine_spec(old(self)@.meta, item_ordinal, engine@, used),
                ..old(self)@
            }),
    {
        if self.meta_index(item_ordinal).is_none() {
            let rec = if used {
                MetaRecord { item_ordinal, engine_requested: None, engine_used: Some(engine.to_owned()) }
            } else {
                MetaRecord { item_ordinal, engine_requested: Some(engine.to_owned()), engine_used: None }
            };
            let ghost before = meta_views(self.meta@);
            proof {
                lemma_find_meta_none(before, item_ordinal);
            }
            self.meta.push(rec);
            assert(meta_views(self.meta@) =~= set_engine_spec(before, item_ordinal, engine@, used));
            return;
        }
        let ghost before = self.meta@;
        let ghost target = set_engine_spec(meta_views(before), item_ordinal, engine@, used);
        let n = self.meta.len();
        let mut i: usize = 0;
        while i < n
            invariant
                n == self.meta@.len() == before.len(),
                before == old(self).meta@,
                find_meta(meta_views(before), item_ordinal) is Some,
                self.runs == old(self).runs,
                self.replies == old(self).replies,
                self.personas == old(self).personas,
                target.len() == n,
                target == set_engine_spec(meta_views(before), item_ordinal, engine@, used),
                i <= n,
                forall|j: int| 0 <= j < i ==> #[trigger] self.meta@[j]@ == target[j],
                forall|j: int| i <= j < n ==> #[trigger] self.meta@[j] == before[j],
            decreases n - i,
        {
            if self.meta[i].item_ordinal == item_ordinal {
                if used {
                    self.meta[i].engine_used = Some(engine.to_owned());
                } else {
                    self.meta[i].engine_requested = Some(engine.to_owned());
                }
            }
            i += 1;
        }
        assert(meta_views(self.meta@) =~= target);
        assert forall|a: int, b: int| 0 <= a < b < target.len() implies target[a].item_ordinal
            != target[b].item_ordinal by {
            assert(target[a].item_ordinal == meta_views(before)[a].item_ordinal);
            assert(target[b].item_ordinal == meta_views(before)[b].item_ordinal);
        };
    }

    /// Records the engine a submission asked for.
    pub fn set_engine_requested(&mut self, item_ordinal: u64, engine: &str)
        requires
            old(self).wf(),
        ensures
            final(self).wf(),
            final(self)@ == (StoreV {
                meta: set_engine_spec(old(self)@.meta, item_ordinal, engine@, false),
                ..old(self)@
            }),
    {
        self.set_engine(item_ordinal, engine, false);
    }

    /// Records the engine that actually answered a run.
    pub fn set_engine_used(&mut self, item_ordinal: u64, engine: &str)
        requires
            old(self).wf(),
        ensures
            final(self).wf(),
            final(self)@ == (StoreV {
                meta: set_engine_spec(old(self)@.meta, item_ordinal, engine@, true),
                ..old(self)@
            }),
    {
        self.set_engine(item_ordinal, engine, true);
    }

    /// The engine that was asked for on run `item`, if one was recorded.
    pub fn engine_requested(&self, item_ordinal: u64) -> (r: Option<String>)
        ensures
            ov(r) == engine_requested_of(self@.meta, item_ordinal),
    {
        match self.meta_index(item_ordinal) {
            None => None,
            Some(i) => clone_opt(&self.meta[i].engine_requested),
        }
    }

    /// How many replies belong to run `k`.
    fn reply_count(&self, k: u64) -> (c: u64)
        ensures
            c == replies_of(self@.replies, k).len(),
    {
        let ghost v = self@.replies;
        let n = self.replies.len();
        let mut c: u64 = 0;
        let mut i: usize = 0;
        assert(v.take(0) =~= Seq::<ReplyV>::empty());
        proof {
            reveal(Seq::filter);
        }
        while i < n
            invariant
                n == v.len(),
                v == self@.replies,
                i <= n,
                c as int == replies_of(v.take(i as int), k).len(),
                c <= i,
            decreases n - i,
        {
            proof {
                reveal(Seq::filter);
                assert(v.take(i + 1).drop_last() =~= v.take(i as int));
                assert(v.take(i + 1).last() == v[i as int]);
            }
            if self.replies[i].item_ordinal == k {
                c += 1;
            }
            i += 1;
        }
        assert(v.take(n as int) =~= v);
        c
    }

    fn engine_used(&self, k: u64) -> (r: Option<String>)
        ensures
            ov(r) == engine_used_of(self@.meta, k),
    {
        match self.meta_index(k) {
            None => None,
            Some(i) => clone_opt(&self.meta[i].engine_used),
        }
    }

    fn run_out(&self, i: usize) -> (out: Run)
        requires
            i < self@.runs.len(),
        ensures
            shows_run(out, self@, self@.runs[i as int]),
    {
        let r = &self.runs[i];
        Run {
            item_ordinal: r.item_ordinal,
            draft: r.draft.clone(),
            status: r.status.clone(),
            prediction_ordinal: r.prediction_ordinal,
            prediction_json: clone_opt(&r.prediction_json),
            outcome_ordinal: r.outcome_ordinal,
            outcome_json: clone_opt(&r.outcome_json),
            notes: r.notes.clone(),
            enqueued_at: r.enqueued_at,
            reply_count: self.reply_count(r.item_ordinal),
            engine_used: self.engine_used(r.item_ordinal),
            archived: r.archived,
        }
    }

    /// Total runs on either shelf.
    pub fn run_count(&self) -> (n: u64)
        ensures
            n == self@.runs.len(),
    {
        assert(self@.runs.len() == self.runs@.len());
        self.runs.len() as u64
    }

    /// Runs on the archived shelf.
    pub fn archived_count(&self) -> (n: u64)
        ensures
            n == on_shelf(self@.runs, true).len(),
    {
        let ghost v = self@.runs;
        let n = self.runs.len();
        let mut c: u64 = 0;
        let mut i: usize = 0;
        assert(v.take(0) =~= Seq::<RunV>::empty());
        proof {
            reveal(Seq::filter);
        }
        while i < n
            invariant
                n == v.len(),
                v == self@.runs,
                i <= n,
                c as int == on_shelf(v.take(i as int), true).len(),
                c <= i,
            decreases n - i,
        {
            proof {
                reveal(Seq::filter);
                assert(v.take(i + 1).drop_last() =~= v.take(i as int));
                assert(v.take(i + 1).last() == v[i as int]);
            }
            if self.runs[i].archived {
                c += 1;
            }
            i += 1;
        }
        assert(v.take(n as int) =~= v);
        c
    }

    /// Run `item`, if there is one.
    pub fn get_run(&self, item_ordinal: u64) -> (r: Option<Run>)
        ensures
            r is None <==> find_run(self@.runs, item_ordinal) is None,
            r matches Some(out) ==> (find_run(self@.runs, item_ordinal) matches Some(v) && shows_run(
                out,
                self@,
                v,
            )),
    {
        match self.run_index(item_ordinal) {
            None => None,
            Some(i) => Some(self.run_out(i)),
        }
    }

    /// The runs whose rows satisfy `which` (archived shelf, active shelf or
    /// calibrated), newest first.
    fn select_runs(&self, which: u8, archived: bool) -> (out: Vec<Run>)
        requires
            which < 2,
        ensures
            ({
                let sel = if which == 0 {
                    on_shelf(self@.runs, archived)
                } else {
                    calibrated(self@.runs)
                };
                &&& out@.len() == sel.len()
                &&& forall|j: int| 0 <= j < out@.len() ==> shows_run(#[trigger] out@[j], self@, sel.reverse()[j])
            }),
    {
        let ghost v = self@.runs;
        let ghost sel_of = |t: Seq<RunV>| if which == 0 {
            on_shelf(t, archived)
        } else {
            calibrated(t)
        };
        let n = self.runs.len();
        let mut asc: Vec<Run> = Vec::new();
        let mut i: usize = 0;
        assert(v.take(0) =~= Seq::<RunV>::empty());
        proof {
            reveal(Seq::filter);
        }
        while i < n
            invariant
                n == v.len(),
                v == self@.runs,
                which < 2,
                i <= n,
                sel_of == (|t: Seq<RunV>| if which == 0 {
                    on_shelf(t, archived)
                } else {
                    calibrated(t)
                }),
                asc@.len() == sel_of(v.take(i as int)).len(),
                forall|j: int| 0 <= j < asc@.len() ==> shows_run(#[trigger] asc@[j], self@, sel_of(v.take(i as int))[j]),
            decreases n - i,
        {
            proof {
                reveal(Seq::filter);
                assert(v.take(i + 1).drop_last() =~= v.take(i as int));
                assert(v.take(i + 1).last() == v[i as int]);
            }
            let r = &self.runs[i];
            let keep = if which == 0 {
                r.archived == archived
            } else {
                r.prediction_json.is_some() && r.outcome_json.is_some()
            };
            if keep {
                let out = self.run_out(i);
                asc.push(out);
            }
            i += 1;
        }
        assert(v.take(n as int) =~= v);
        let ghost sel = sel_of(v);
        let ghost full = asc@;
        let m = asc.len();
        let mut rev: Vec<Run> = Vec::new();
        while asc.len() > 0
            invariant
                m == full.len() == sel.len(),
                asc@.len() + rev@.len() == m,
                asc@ == full.take(asc@.len() as int),
                forall|j: int| 0 <= j < full.len() ==> shows_run(#[trigger] full[j], self@, sel[j]),
                forall|j: int| 0 <= j < rev@.len() ==> shows_run(#[trigger] rev@[j], self@, sel[m - 1 - j]),
            decreases asc@.len(),
        {
            let ghost k = asc@.len();
            let x = asc.pop().unwrap();
            assert(x == full[k - 1]);
            rev.push(x);
            assert(asc@ =~= full.take(k - 1));
        }
        assert forall|j: int| 0 <= j < rev@.len() implies shows_run(#[trigger] rev@[j], self@, sel.reverse()[j]) by {
            assert(sel.reverse()[j] == sel[m - 1 - j]);
        };
        rev
    }

    /// The runs on one shelf (archived or active), newest first.
    pub fn list_runs(&self, archived: bool) -> (out: Vec<Run>)
        ensures
            out@.len() == on_shelf(self@.runs, archived).len(),
            forall|j: int| 0 <= j < out@.len() ==> shows_run(
                #[trigger] out@[j],
                self@,
                on_shelf(self@.runs, archived).reverse()[j],
            ),
    {
        self.select_runs(0, archived)
    }

    /// The runs that have both a prediction and a recorded outcome, newest first.
    pub fn calibrated_runs(&self) -> (out: Vec<Run>)
        ensures
            out@.len() == calibrated(self@.runs).len(),
            forall|j: int| 0 <= j < out@.len() ==> shows_run(
                #[trigger] out@[j],
                self@,
                calibrated(self@.runs).reverse()[j],
            ),
    {
        self.select_runs(1, false)
    }

    fn reply_out(&self, i: usize) -> (out: Reply)
        requires
            i < self@.replies.len(),
        ensures
            shows_reply(out, self@, self@.replies[i as int]),
    {
        let r = &self.replies[i];
        match self.persona_index(&r.persona_id) {
            Some(pi) => {
                let p = &self.personas[pi];
                Reply {
                    ordinal: r.ordinal,
                    persona_id: r.persona_id.clone(),
                    body: r.body.clone(),
                    display_name: p.display_name.clone(),
                    archetype: clone_opt(&p.archetype),
                    role: clone_opt(&p.role),
                    role_et: clone_opt(&p.role_et),
                    locked: p.locked,
                }
            },
            None => Reply {
                ordinal: r.ordinal,
                persona_id: r.persona_id.clone(),
                body: r.body.clone(),
                display_name: r.persona_id.clone(),
                archetype: None,
                role: None,
                role_et: None,
                locked: false,
            },
        }
    }

    /// The replies of run `item`, in ordinal order, joined with their personas.
    pub fn replies_for(&self, item_ordinal: u64) -> (out: Vec<Reply>)
        ensures
            out@.len() == replies_of(self@.replies, item_ordinal).len(),
            forall|j: int| 0 <= j < out@.len() ==> shows_reply(
                #[trigger] out@[j],
                self@,
                replies_of(self@.replies, item_ordinal)[j],
            ),
    {
        let ghost v = self@.replies;
        let n = self.replies.len();
        let mut out: Vec<Reply> = Vec::new();
        let mut i: usize = 0;
        assert(v.take(0) =~= Seq::<ReplyV>::empty());
        proof {
            reveal(Seq::filter);
        }
        while i < n
            invariant
                n == v.len(),
                v == self@.replies,
                i <= n,
                out@.len() == replies_of(v.take(i as int), item_ordinal).len(),
                forall|j: int| 0 <= j < out@.len() ==> shows_reply(
                    #[trigger] out@[j],
                    self@,
                    replies_of(v.take(i as int), item_ordinal)[j],
                ),
            decreases n - i,
        {
            proof {
                reveal(Seq::filter);
                assert(v.take(i + 1).drop_last() =~= v.take(i as int));
                assert(v.take(i + 1).last() == v[i as int]);
            }
            if self.replies[i].item_ordinal == item_ordinal {
                let r = self.reply_out(i);
                out.push(r);
            }
            i += 1;
        }
        assert(v.take(n as int) =~= v);
        out
    }

    /// Loads a run row kept on disk, replacing any row with its ordinal.
    pub fn restore_run(&mut self, rec: RunRecord)
        requires
            old(self).wf(),
        ensures
            final(self).wf(),
            final(self)@ == (StoreV { runs: put_run(old(self)@.runs, rec@), ..old(self)@ }),
    {
        let k = rec.item_ordinal;
        match self.run_index(k) {
            Some(i) => {
                proof {
                    lemma_find_run(self@.runs, k);
                }
                let ghost before = self.runs@;
                let ghost target = put_run(run_views(before), rec@);
                let ghost keys = run_keys(run_views(before));
                assert forall|j: int| 0 <= j < before.len() && before[j].item_ordinal == k implies j
                    == i by {
                    if j < i {
                        assert(keys[j] < keys[i as int]);
                    } else if j > i {
                        assert(keys[i as int] < keys[j]);
                    }
                };
                self.runs.set(i, rec);
                assert(run_views(self.runs@) =~= target);
                assert(run_keys(target) =~= keys);
            },
            None => {
                let p = self.run_slot(k);
                let ghost before = self.runs@;
                proof {
                    lemma_find_run(run_views(before), k);
                    lemma_slot(run_keys(run_views(before)), k);
                    lemma_ascending_insert(run_keys(run_views(before)), k);
                }
                let ghost rv = rec@;
                self.runs.insert(p, rec);
                assert(run_views(self.runs@) =~= run_views(before).insert(p as int, rv));
                assert(run_keys(run_views(self.runs@)) =~= run_keys(run_views(before)).insert(
                    p as int,
                    k,
                ));
            },
        }
    }

    /// Loads a reply row kept on disk, replacing any row with its ordinal.
    pub fn restore_reply(&mut self, rec: ReplyRecord)
        requires
            old(self).wf(),
        ensures
            final(self).wf(),
            final(self)@ == (StoreV { replies: put_reply(old(self)@.replies, rec@), ..old(self)@ }),
    {
        let k = rec.ordinal;
        let p = self.reply_slot(k);
        let ghost before = self.replies@;
        let ghost keys = reply_keys(reply_views(before));
        proof {
            lemma_find_reply(reply_views(before), k);
            lemma_slot(keys, k);
        }
        if p < self.replies.len() && self.replies[p].ordinal == k {
            let ghost target = put_reply(reply_views(before), rec@);
            assert(keys[p as int] == k);
            assert forall|j: int| 0 <= j < before.len() && before[j].ordinal == k implies j == p by {
                if j < p {
                    assert(keys[j] < keys[p as int]);
                } else if j > p {
                    assert(keys[p as int] < keys[j]);
                }
            };
            self.replies.set(p, rec);
            assert(reply_views(self.replies@) =~= target);
            assert(reply_keys(target) =~= keys);
        } else {
            assert(!keys.contains(k)) by {
                if keys.contains(k) {
                    let j = choose|j: int| 0 <= j < keys.len() && keys[j] == k;
                    if j < p {
                    } else if j > p {
                        assert(keys[p as int] < keys[j]);
                    }
                }
            };
            proof {
                lemma_ascending_insert(keys, k);
            }
            let ghost rv = rec@;
            self.replies.insert(p, rec);
            assert(reply_views(self.replies@) =~= reply_views(before).insert(p as int, rv));
            assert(reply_keys(reply_views(self.replies@)) =~= keys.insert(p as int, k));
        }
    }

    /// Loads a persona row kept on disk, replacing any row with its id.
    pub fn restore_persona(&mut self, rec: PersonaRecord)
        requires
            old(self).wf(),
        ensures
            final(self).wf(),
            final(self)@ == (StoreV { personas: put_persona(old(self)@.personas, rec@), ..old(self)@ }),
    {
        let ghost before = self.personas@;
        let ghost bv = persona_views(before);
        proof {
            lemma_find_persona_none(bv, rec.id@);
        }
        match self.persona_index(&rec.id) {
            Some(i) => {
                let ghost target = put_persona(bv, rec@);
                assert forall|j: int| 0 <= j < before.len() && bv[j].id == rec.id@ implies j == i by {
                    if j != i {
                        assert(bv[i as int].id == rec.id@);
                    }
                };
                self.personas.set(i, rec);
                assert(persona_views(self.personas@) =~= target);
                assert forall|a: int, b: int| 0 <= a < b < target.len() implies target[a].id
                    != target[b].id by {
                    assert(target[a].id == bv[a].id);
                    assert(target[b].id == bv[b].id);
                };
            },
            None => {
                let ghost rv = rec@;
                self.personas.push(rec);
                assert(persona_views(self.personas@) =~= bv.push(rv));
            },
        }
    }

    /// Loads a run-metadata row kept on disk, replacing any row for its run.
    pub fn restore_meta(&mut self, rec: MetaRecord)
        requires
            old(self).wf(),
        ensures
            final(self).wf(),
            final(self)@ == (StoreV { meta: put_meta(old(self)@.meta, rec@), ..old(self)@ }),
    {
        let ghost before = self.meta@;
        let ghost bv = meta_views(before);
        proof {
            lemma_find_meta_none(bv, rec.item_ordinal);
        }
        match self.meta_index(rec.item_ordinal) {
            Some(i) => {
                let ghost target = put_meta(bv, rec@);
                assert(bv[i as int].item_ordinal == rec.item_ordinal) by {
                    lemma_find_meta_some(bv, rec.item_ordinal);
                };
                assert forall|j: int|
                    0 <= j < before.len() && bv[j].item_ordinal == rec.item_ordinal implies j == i by {
                    if j != i {
                        assert(bv[i as int].item_ordinal == rec.item_ordinal);
                    }
                };
                self.meta.set(i, rec);
                assert(meta_views(self.meta@) =~= target);
                assert forall|a: int, b: int| 0 <= a < b < target.len() implies target[a].item_ordinal
                    != target[b].item_ordinal by {
                    assert(target[a].item_ordinal == bv[a].item_ordinal);
                    assert(target[b].item_ordinal == bv[b].item_ordinal);
                };
            },
            None => {
                let ghost rv = rec@;
                self.meta.push(rec);
                assert(meta_views(self.meta@) =~= bv.push(rv));
            },
        }
    }

    /// The run rows, in ordinal order (for writing them to disk).
    pub fn run_records(&self) -> (r: &Vec<RunRecord>)
        ensures
            run_views(r@) == self@.runs,
    {
        &self.runs
    }

    /// The reply rows, in ordinal order (for writing them to disk).
    pub fn reply_records(&self) -> (r: &Vec<ReplyRecord>)
        ensures
            reply_views(r@) == self@.replies,
    {
        &self.replies
    }

    /// The persona rows (for writing them to disk).
    pub fn persona_records(&self) -> (r: &Vec<PersonaRecord>)
        ensures
            persona_views(r@) == self@.personas,
    {
        &self.personas
    }

    /// The run-metadata rows (for writing them to disk).
    pub fn meta_records(&self) -> (r: &Vec<MetaRecord>)
        ensures
            meta_views(r@) == self@.meta,
    {
        &self.meta
    }
}

} // verus!

verus! {

// ── laws ───────────────────────────────────────────────────────────────────

proof fn lemma_shelves_split(runs: Seq<RunV>)
    ensures
        on_shelf(runs, true).len() + on_shelf(runs, false).len() == runs.len(),
    decreases runs.len(),
{
    reveal(Seq::filter);
    if runs.len() > 0 {
        lemma_shelves_split(runs.drop_last());
    }
}

/// Every run stands on exactly one shelf: the archived list and the active
/// list together hold all runs.
pub proof fn law_shelves_partition_runs(st: StoreV)
    ensures
        on_shelf(st.runs, true).len() + on_shelf(st.runs, false).len() == st.runs.len(),
        forall|i: int|
            0 <= i < on_shelf(st.runs, true).len() ==> (#[trigger] on_shelf(st.runs, true)[i]).archived,
        forall|i: int|
            0 <= i < on_shelf(st.runs, false).len() ==> !(#[trigger] on_shelf(st.runs, false)[i]).archived,
{
    lemma_shelves_split(st.runs);
    assert forall|i: int| 0 <= i < on_shelf(st.runs, true).len() implies (#[trigger] on_shelf(
        st.runs,
        true,
    )[i]).archived by {
        st.runs.lemma_filter_pred(|r: RunV| r.archived == true, i);
    };
    assert forall|i: int| 0 <= i < on_shelf(st.runs, false).len() implies !(#[trigger] on_shelf(
        st.runs,
        false,
    )[i]).archived by {
        st.runs.lemma_filter_pred(|r: RunV| r.archived == false, i);
    };
}

/// A reply belongs to the most recent run before it: the run it is attached
/// to comes before it, and no run between the two exists.
pub proof fn law_reply_joins_latest_query(runs: Seq<RunV>, o: u64)
    ensures
        latest_run_before(runs, o) matches Some(k) ==> k < o && run_keys(runs).contains(k) && (forall|
            i: int,
        | 0 <= i < runs.len() && runs[i].item_ordinal < o ==> runs[i].item_ordinal <= k),
        latest_run_before(runs, o) is None ==> forall|i: int|
            0 <= i < runs.len() ==> runs[i].item_ordinal >= o,
    decreases runs.len(),
{
    if runs.len() > 0 {
        let d = runs.drop_last();
        law_reply_joins_latest_query(d, o);
        assert(run_keys(d) =~= run_keys(runs).drop_last());
        assert forall|i: int| 0 <= i < d.len() implies runs[i] == d[i] by {};
        let k = runs.last().item_ordinal;
        assert(run_keys(runs)[runs.len() - 1] == k);
        if let Some(m) = latest_run_before(d, o) {
            let j = choose|j: int| 0 <= j < run_keys(d).len() && run_keys(d)[j] == m;
            assert(run_keys(runs)[j] == m);
        }
    }
}

proof fn lemma_find_persona_mapped(ps: Seq<PersonaV>, id: Seq<char>, s: PersonaSeedV)
    ensures
        find_persona(ps.map_values(|p: PersonaV| if p.id == s.id { reseeded(p, s) } else { p }), id)
            == match find_persona(ps, id) {
            Some(p) => Some(if p.id == s.id { reseeded(p, s) } else { p }),
            None => None,
        },
    decreases ps.len(),
{
    let f = |p: PersonaV| if p.id == s.id { reseeded(p, s) } else { p };
    if ps.len() > 0 {
        lemma_find_persona_mapped(ps.drop_last(), id, s);
        assert(ps.map_values(f).drop_last() =~= ps.drop_last().map_values(f));
    }
}

proof fn lemma_find_persona_id(ps: Seq<PersonaV>, id: Seq<char>)
    ensures
        find_persona(ps, id) matches Some(p) ==> p.id == id,
    decreases ps.len(),
{
    if ps.len() > 0 {
        lemma_find_persona_id(ps.drop_last(), id);
    }
}

/// An operator's lock choice outlives reseeding: once a persona's lock has
/// been toggled, a seed refreshes its identity but not its lock.
pub proof fn law_seeding_keeps_operator_lock(ps: Seq<PersonaV>, s: PersonaSeedV)
    requires
        find_persona(ps, s.id) matches Some(p) && p.lock_touched,
    ensures
        find_persona(seed_one(ps, s), s.id) matches Some(q) && q.locked == find_persona(
            ps,
            s.id,
        )->0.locked && q.display_name == s.display_name,
{
    lemma_find_persona_mapped(ps, s.id, s);
    lemma_find_persona_id(ps, s.id);
}

proof fn lemma_toggle_find(ps: Seq<PersonaV>, id: Seq<char>)
    ensures
        find_persona(toggle_spec(ps, id), id) == match find_persona(ps, id) {
            Some(p) => Some(PersonaV { locked: !p.locked, lock_touched: true, ..p }),
            None => None,
        },
    decreases ps.len(),
{
    if ps.len() > 0 {
        lemma_toggle_find(ps.drop_last(), id);
        assert(toggle_spec(ps, id).drop_last() =~= toggle_spec(ps.drop_last(), id));
    }
}

/// Toggling a persona's lock twice gives back the lock it had, now marked
/// as an operator's choice.
pub proof fn law_toggle_twice_restores_lock(ps: Seq<PersonaV>, id: Seq<char>)
    ensures
        find_persona(toggle_spec(toggle_spec(ps, id), id), id) == match find_persona(ps, id) {
            Some(p) => Some(PersonaV { lock_touched: true, ..p }),
            None => None,
        },
{
    lemma_toggle_find(ps, id);
    lemma_toggle_find(toggle_spec(ps, id), id);
}


/// A prediction claims the replies that arrived since the previous
/// prediction: afterwards every reply strictly between the two belongs to the
/// predicted run, and every other reply keeps its run.
pub proof fn law_prediction_claims_its_replies(st: StoreV, item: u64, p: u64, json: Seq<char>)
    ensures
        ({
            let after = set_prediction_spec(st, item, p, json);
            let lo = match latest_prediction_before(after.runs, p) {
                Some(x) => x,
                None => 0,
            };
            &&& after.replies.len() == st.replies.len()
            &&& forall|i: int|
                0 <= i < st.replies.len() ==> (#[trigger] after.replies[i]).ordinal == st.replies[i].ordinal
                    && after.replies[i].item_ordinal == (if lo < st.replies[i].ordinal < p {
                    item
                } else {
                    st.replies[i].item_ordinal
                })
        }),
{
}

// ── seeding the whole panel ────────────────────────────────────────────────

/// The row a seed leaves for its persona in `ps`: the existing row refreshed,
/// or a new row.
pub open spec fn seeded_row(ps: Seq<PersonaV>, s: PersonaSeedV) -> PersonaV {
    match find_persona(ps, s.id) {
        Some(p) => reseeded(p, s),
        None => seeded_persona(s),
    }
}

/// Every row of persona `s.id` in `ps` is already as seed `s` leaves it.
pub open spec fn seed_settled(ps: Seq<PersonaV>, s: PersonaSeedV) -> bool {
    forall|i: int| 0 <= i < ps.len() && (#[trigger] ps[i]).id == s.id ==> reseeded(ps[i], s) == ps[i]
}

proof fn lemma_seed_one_find(ps: Seq<PersonaV>, s: PersonaSeedV, id: Seq<char>)
    ensures
        find_persona(seed_one(ps, s), id) == (if id == s.id {
            Some(seeded_row(ps, s))
        } else {
            find_persona(ps, id)
        }),
{
    lemma_find_persona_id(ps, id);
    lemma_find_persona_id(ps, s.id);
    if find_persona(ps, s.id) is Some {
        lemma_find_persona_mapped(ps, id, s);
    } else {
        assert(ps.push(seeded_persona(s)).drop_last() =~= ps);
    }
}

proof fn lemma_seed_one_settles(ps: Seq<PersonaV>, s: PersonaSeedV, t: PersonaSeedV)
    requires
        t.id == s.id ==> t == s,
        t.id != s.id ==> seed_settled(ps, t),
    ensures
        seed_settled(seed_one(ps, s), t),
{
    let q = seed_one(ps, s);
    if find_persona(ps, s.id) is Some {
        assert forall|i: int| 0 <= i < q.len() && (#[trigger] q[i]).id == t.id implies reseeded(q[i], t)
            == q[i] by {
            if ps[i].id == s.id {
                assert(q[i] == reseeded(ps[i], s));
                assert(reseeded(reseeded(ps[i], s), s) =~= reseeded(ps[i], s));
            } else {
                assert(q[i] == ps[i]);
            }
        };
    } else {
        lemma_find_persona_none(ps, s.id);
        assert forall|i: int| 0 <= i < q.len() && (#[trigger] q[i]).id == t.id implies reseeded(q[i], t)
            == q[i] by {
            if i < ps.len() {
                assert(q[i] == ps[i]);
            } else {
                assert(q[i] == seeded_persona(s));
                assert(reseeded(seeded_persona(s), s) =~= seeded_persona(s));
            }
        };
    }
}

proof fn lemma_seed_one_settled(ps: Seq<PersonaV>, s: PersonaSeedV)
    requires
        find_persona(ps, s.id) is Some,
        seed_settled(ps, s),
    ensures
        seed_one(ps, s) == ps,
{
    assert(seed_one(ps, s) =~= ps) by {
        assert forall|i: int| 0 <= i < ps.len() implies seed_one(ps, s)[i] == ps[i] by {
            if ps[i].id == s.id {
                assert(reseeded(ps[i], s) == ps[i]);
            }
        };
    };
}

proof fn lemma_seed_prefix(ps: Seq<PersonaV>, seeds: Seq<PersonaSeedV>, k: int)
    requires
        0 <= k <= seeds.len(),
        forall|i: int, j: int| 0 <= i < j < seeds.len() ==> seeds[i].id != seeds[j].id,
    ensures
        forall|j: int|
            #![trigger seeds[j]]
            0 <= j < k ==> find_persona(seed_all(ps, seeds.take(k)), seeds[j].id) == Some(
                seeded_row(ps, seeds[j]),
            ) && seed_settled(seed_all(ps, seeds.take(k)), seeds[j]),
        forall|id: Seq<char>|
            (forall|j: int| 0 <= j < k ==> seeds[j].id != id) ==> #[trigger] find_persona(
                seed_all(ps, seeds.take(k)),
                id,
            ) == find_persona(ps, id),
    decreases k,
{
    if k == 0 {
        assert(seeds.take(0) =~= Seq::<PersonaSeedV>::empty());
    } else {
        lemma_seed_prefix(ps, seeds, k - 1);
        let prev = seed_all(ps, seeds.take(k - 1));
        let s = seeds[k - 1];
        assert(seeds.take(k).drop_last() =~= seeds.take(k - 1));
        assert(seeds.take(k).last() == s);
        assert(seed_all(ps, seeds.take(k)) == seed_one(prev, s));
        let q = seed_one(prev, s);
        assert(find_persona(prev, s.id) == find_persona(ps, s.id)) by {
            assert forall|j: int| 0 <= j < k - 1 implies seeds[j].id != s.id by {};
        };
        assert forall|j: int|
            #![trigger seeds[j]]
            0 <= j < k implies find_persona(q, seeds[j].id) == Some(seeded_row(ps, seeds[j]))
                && seed_settled(q, seeds[j]) by {
            lemma_seed_one_find(prev, s, seeds[j].id);
            if j == k - 1 {
                lemma_seed_one_settles(prev, s, s);
            } else {
                lemma_seed_one_settles(prev, s, seeds[j]);
            }
        };
        assert forall|id: Seq<char>|
            (forall|j: int| 0 <= j < k ==> seeds[j].id != id) implies #[trigger] find_persona(q, id)
                == find_persona(ps, id) by {
            lemma_seed_one_find(prev, s, id);
            assert(seeds[k - 1].id != id);
        };
    }
}

proof fn lemma_reseed_prefix(q: Seq<PersonaV>, seeds: Seq<PersonaSeedV>, k: int)
    requires
        0 <= k <= seeds.len(),
        forall|j: int|
            #![trigger seeds[j]]
            0 <= j < seeds.len() ==> find_persona(q, seeds[j].id) is Some && seed_settled(q, seeds[j]),
    ensures
        seed_all(q, seeds.take(k)) == q,
    decreases k,
{
    if k == 0 {
        assert(seeds.take(0) =~= Seq::<PersonaSeedV>::empty());
    } else {
        lemma_reseed_prefix(q, seeds, k - 1);
        assert(seeds.take(k).drop_last() =~= seeds.take(k - 1));
        assert(seeds.take(k).last() == seeds[k - 1]);
        lemma_seed_one_settled(q, seeds[k - 1]);
    }
}

/// Seeding the whole panel, for seeds with distinct ids: each seed's persona
/// ends up as that seed leaves it (identity from the seed, the lock from the
/// seed unless an operator had toggled it), every other persona is as it
/// was, and seeding again with the same seeds changes nothing.
pub proof fn law_seeding_the_whole_panel(ps: Seq<PersonaV>, seeds: Seq<PersonaSeedV>)
    requires
        forall|i: int, j: int| 0 <= i < j < seeds.len() ==> seeds[i].id != seeds[j].id,
    ensures
        forall|i: int|
            #![trigger seeds[i]]
            0 <= i < seeds.len() ==> find_persona(seed_all(ps, seeds), seeds[i].id) == Some(
                seeded_row(ps, seeds[i]),
            ),
        forall|id: Seq<char>|
            (forall|i: int| 0 <= i < seeds.len() ==> seeds[i].id != id) ==> #[trigger] find_persona(
                seed_all(ps, seeds),
                id,
            ) == find_persona(ps, id),
        seed_all(seed_all(ps, seeds), seeds) == seed_all(ps, seeds),
{
    let n = seeds.len() as int;
    assert(seeds.take(n) =~= seeds);
    lemma_seed_prefix(ps, seeds, n);
    let q = seed_all(ps, seeds);
    lemma_reseed_prefix(q, seeds, n);
}

// ── archiving ──────────────────────────────────────────────────────────────

/// Archiving moves a run between the shelves: after `set_archived(item, a)`
/// on a store holding run `item`, the run is listed on shelf `a` and not on
/// the other shelf.
pub proof fn law_archiving_moves_the_run(st: StoreV, item: u64, archived: bool)
    requires
        find_run(st.runs, item) is Some,
    ensures
        ({
            let runs = change_run(st.runs, item, RunChangeV::Archived { archived });
            &&& run_keys(on_shelf(runs, archived)).contains(item)
            &&& !run_keys(on_shelf(runs, !archived)).contains(item)
        }),
{
    let runs = change_run(st.runs, item, RunChangeV::Archived { archived });
    lemma_find_run(st.runs, item);
    let i = choose|i: int| 0 <= i < run_keys(st.runs).len() && run_keys(st.runs)[i] == item;
    assert(runs[i].item_ordinal == item && runs[i].archived == archived);
    let here = on_shelf(runs, archived);
    runs.lemma_filter_contains(|r: RunV| r.archived == archived, i);
    let j = choose|j: int| 0 <= j < here.len() && here[j] == runs[i];
    assert(run_keys(here)[j] == item);
    let there = on_shelf(runs, !archived);
    if run_keys(there).contains(item) {
        let j = choose|j: int| 0 <= j < run_keys(there).len() && run_keys(there)[j] == item;
        runs.lemma_filter_pred(|r: RunV| r.archived == !archived, j);
        assert(there.contains(there[j]));
        runs.lemma_filter_contains_rev(|r: RunV| r.archived == !archived, there[j]);
        let m = choose|m: int| 0 <= m < runs.len() && runs[m] == there[j];
        assert(runs[m].item_ordinal == item);
        assert(runs[m].archived == archived);
    }
}

// ── where re-anchoring starts ──────────────────────────────────────────────

/// Re-anchoring starts at the most recent earlier prediction: the bound is a
/// prediction ordinal recorded on some run, it lies below `p`, and no run
/// records a prediction ordinal below `p` that is greater; with no bound, no
/// run records a prediction below `p`.
pub proof fn law_reanchoring_starts_at_the_latest_prediction(runs: Seq<RunV>, p: u64)
    ensures
        match latest_prediction_before(runs, p) {
            Some(lo) => {
                &&& lo < p
                &&& exists|i: int| 0 <= i < runs.len() && runs[i].prediction_ordinal == Some(lo)
                &&& forall|i: int|
                    0 <= i < runs.len() ==> match (#[trigger] runs[i]).prediction_ordinal {
                        Some(q) => q < p ==> q <= lo,
                        None => true,
                    }
            },
            None => forall|i: int|
                0 <= i < runs.len() ==> match (#[trigger] runs[i]).prediction_ordinal {
                    Some(q) => q >= p,
                    None => true,
                },
        },
    decreases runs.len(),
{
    if runs.len() > 0 {
        let d = runs.drop_last();
        law_reanchoring_starts_at_the_latest_prediction(d, p);
        assert forall|i: int| 0 <= i < d.len() implies runs[i] == d[i] by {};
        if let Some(lo) = latest_prediction_before(runs, p) {
            if runs.last().prediction_ordinal == Some(lo) {
                assert(runs[runs.len() - 1].prediction_ordinal == Some(lo));
            } else {
                let i = choose|i: int| 0 <= i < d.len() && d[i].prediction_ordinal == Some(lo);
                assert(runs[i].prediction_ordinal == Some(lo));
            }
        }
    }
}

/// A prediction never claims replies that an earlier prediction already
/// closed: after `prediction:p` lands, a reply at or below the prediction
/// ordinal of any run that was predicted before `p` keeps its run.
pub proof fn law_prediction_spares_earlier_claims(st: StoreV, item: u64, p: u64, json: Seq<char>)
    ensures
        ({
            let after = set_prediction_spec(st, item, p, json);
            forall|i: int, j: int|
                #![trigger after.runs[j], st.replies[i]]
                0 <= i < st.replies.len() && 0 <= j < after.runs.len() ==> match after.runs[j].prediction_ordinal {
                    Some(q) => q < p && st.replies[i].ordinal <= q ==> after.replies[i].item_ordinal
                        == st.replies[i].item_ordinal,
                    None => true,
                }
        }),
{
    let after = set_prediction_spec(st, item, p, json);
    law_reanchoring_starts_at_the_latest_prediction(after.runs, p);
    law_prediction_claims_its_replies(st, item, p, json);
}

/// Seeding gives each seed's persona the seed's identity: its name,
/// archetype and roles (EN and ET); its lock is the seed's default unless an
/// operator had toggled the lock of an existing row, which then keeps it.
pub proof fn law_seeding_sets_identity(ps: Seq<PersonaV>, seeds: Seq<PersonaSeedV>)
    requires
        forall|i: int, j: int| 0 <= i < j < seeds.len() ==> seeds[i].id != seeds[j].id,
    ensures
        forall|i: int|
            #![trigger seeds[i]]
            0 <= i < seeds.len() ==> match find_persona(seed_all(ps, seeds), seeds[i].id) {
                Some(q) => {
                &&& q.id == seeds[i].id
                &&& q.display_name == seeds[i].display_name
                &&& q.archetype == Some(seeds[i].archetype)
                &&& q.role == Some(seeds[i].role)
                &&& q.role_et == Some(seeds[i].role_et)
                &&& q.locked == match find_persona(ps, seeds[i].id) {
                    Some(p) => if p.lock_touched {
                        p.locked
                    } else {
                        seeds[i].locked_default
                    },
                    None => seeds[i].locked_default,
                }
                },
                None => false,
            },
{
    law_seeding_the_whole_panel(ps, seeds);
    assert forall|i: int| 0 <= i < seeds.len() implies match find_persona(ps, #[trigger] seeds[i].id) {
        Some(p) => p.id == seeds[i].id,
        None => true,
    } by {
        lemma_find_persona_id(ps, seeds[i].id);
    };
}

} // verus!
