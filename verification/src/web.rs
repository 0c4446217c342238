//! The decisions behind the screens: which language to speak, which engine a
//! submission asks for, how a run card is titled, and what the operator is
//! told after a submission.
use vstd::prelude::*;
use crate::config::Runner;
use crate::i18n::Lang;
use crate::rapids::query_type;
use crate::store::ov;
use crate::text::{
    after_first, after_first_spec, before_first, before_first_spec, chars_of, decimal,
    decimal_spec, push_char, same_text, split_char, split_spec, string_of, trim, trim_spec, views,
};

verus! {

// ── language ───────────────────────────────────────────────────────────────

/// The language one cookie (`name=value`, blanks around it ignored) sets:
/// only a `lang` cookie with a known code sets one.
pub open spec fn cookie_lang(piece: Seq<char>) -> Option<Lang> {
    let c = trim_spec(piece);
    match after_first_spec(c, "="@) {
        Some(v) => if before_first_spec(c, "="@) == "lang"@ {
            Lang::from_code_spec(v)
        } else {
            None
        },
        None => None,
    }
}

/// The first language set among the cookies `pieces`.
pub open spec fn first_cookie_lang(pieces: Seq<Seq<char>>) -> Option<Lang>
    decreases pieces.len(),
{
    if pieces.len() == 0 {
        None
    } else {
        match cookie_lang(pieces[0]) {
            Some(l) => Some(l),
            None => first_cookie_lang(pieces.drop_first()),
        }
    }
}

/// The language of a request: the `lang` query parameter when it names one,
/// else the first `lang` cookie that names one, else English.
pub open spec fn resolve_lang_spec(query: Option<Seq<char>>, cookies: Option<Seq<char>>) -> Lang {
    match (match query {
        Some(q) => Lang::from_code_spec(q),
        None => None,
    }) {
        Some(l) => l,
        None => match (match cookies {
            Some(c) => first_cookie_lang(split_spec(c, ';')),
            None => None,
        }) {
            Some(l) => l,
            None => Lang::En,
        },
    }
}

fn one_cookie_lang(piece: &str) -> (r: Option<Lang>)
    ensures
        r == cookie_lang(piece@),
{
    let c = trim(piece);
    match after_first(c.as_str(), "=") {
        Some(v) => {
            let k = before_first(c.as_str(), "=");
            if same_text(k.as_str(), "lang") {
                Lang::from_code(v.as_str())
            } else {
                None
            }
        },
        None => None,
    }
}

/// The language of a request, from its `lang` query parameter and its
/// `Cookie` header (each absent when the request has none).
pub fn resolve_lang(query: Option<&str>, cookies: Option<&str>) -> (l: Lang)
    ensures
        l == resolve_lang_spec(
            match query {
                Some(q) => Some(q@),
                None => None,
            },
            match cookies {
                Some(c) => Some(c@),
                None => None,
            },
        ),
{
    if let Some(q) = query {
        if let Some(l) = Lang::from_code(q) {
            return l;
        }
    }
    let c = match cookies {
        Some(c) => c,
        None => return Lang::En,
    };
    let pieces = split_char(c, ';');
    let ghost pv = views(pieces@);
    let n = pieces.len();
    let mut i: usize = 0;
    assert(pv.skip(0) =~= pv);
    while i < n
        invariant
            n == pieces@.len() == pv.len(),
            pv == views(pieces@),
            pv == split_spec(c@, ';'),
            cookies == Some(c),
            (match query {
                Some(q) => Lang::from_code_spec(q@),
                None => None,
            }) is None,
            i <= n,
            first_cookie_lang(pv) == first_cookie_lang(pv.skip(i as int)),
        decreases n - i,
    {
        assert(pv.skip(i as int)[0] == pieces@[i as int]@);
        assert(pv.skip(i as int).drop_first() =~= pv.skip(i + 1));
        if let Some(l) = one_cookie_lang(pieces[i].as_str()) {
            return l;
        }
        i += 1;
    }
    Lang::En
}

/// The cookie that remembers the language for a year.
pub fn lang_cookie(lang: Lang) -> (r: String)
    ensures
        r@ == "lang="@ + lang.code_spec() + "; Path=/; Max-Age=31536000"@,
{
    String::from_str("lang=").concat(lang.code()).concat("; Path=/; Max-Age=31536000")
}

// ── submissions ────────────────────────────────────────────────────────────

/// A submitted draft, trimmed; none when nothing is left (nothing is submitted).
pub fn submitted_draft(raw: &str) -> (r: Option<String>)
    ensures
        match r {
            Some(d) => d@ == trim_spec(raw@) && d@.len() > 0,
            None => trim_spec(raw@).len() == 0,
        },
{
    let d = trim(raw);
    if d.as_str().is_empty() {
        None
    } else {
        Some(d)
    }
}

/// The engine a submission asks for: `mock` or `model` when the form names
/// one, else the configured default.
pub fn choose_engine(form_engine: &str, default: &str) -> (r: String)
    ensures
        r@ == (if form_engine@ == "mock"@ || form_engine@ == "model"@ {
            form_engine@
        } else {
            default@
        }),
{
    if same_text(form_engine, "mock") || same_text(form_engine, "model") {
        form_engine.to_owned()
    } else {
        default.to_owned()
    }
}

/// What the operator is told once a draft is on the queue.
pub fn appended_message(ordinal: u64, engine: &str) -> (r: String)
    ensures
        r@ == query_type() + " appended at ordinal "@ + decimal_spec(ordinal as nat) + " (engine: "@
            + engine@ + "). The listener picks it up within seconds."@,
{
    String::from_str("content:query").concat(" appended at ordinal ").concat(
        decimal(ordinal).as_str(),
    ).concat(" (engine: ").concat(engine).concat("). The listener picks it up within seconds.")
}

/// What the operator is told once a draft is handed to the panel script.
pub fn handed_message(engine: &str) -> (r: String)
    ensures
        r@ == "Handed to OVK's panel-run (engine: "@ + engine@
            + "). The run appears below as the rapids fill."@,
{
    String::from_str("Handed to OVK's panel-run (engine: ").concat(engine).concat(
        "). The run appears below as the rapids fill.",
    )
}

/// How the submission path is described on the front page.
pub fn runner_label(runner: Runner, listener_enabled: bool) -> (r: &'static str)
    ensures
        r@ == match runner {
            Runner::PanelRun => "panel-run.sh"@,
            Runner::AppendOnly => if listener_enabled {
                "append + resident listener"@
            } else {
                "append-only (no listener!)"@
            },
        },
{
    match runner {
        Runner::PanelRun => "panel-run.sh",
        Runner::AppendOnly => if listener_enabled {
            "append + resident listener"
        } else {
            "append-only (no listener!)"
        },
    }
}

// ── run cards and replies ──────────────────────────────────────────────────

/// A card title: the first `max` characters, with `…` when there were more.
pub open spec fn title_spec(draft: Seq<char>, max: nat) -> Seq<char> {
    if draft.len() > max {
        draft.take(max as int).push('…')
    } else {
        draft
    }
}

/// A card title: the first `max` characters of the draft, with `…` when
/// there were more.
pub fn card_title(draft: &str, max: usize) -> (r: String)
    ensures
        r@ == title_spec(draft@, max as nat),
{
    let c = chars_of(draft);
    if c.len() > max {
        let mut t = string_of(&c, 0, max);
        push_char(&mut t, '…');
        assert(t@ =~= draft@.take(max as int).push('…'));
        t
    } else {
        let t = string_of(&c, 0, c.len());
        assert(t@ =~= draft@);
        t
    }
}

/// Whether a run is still waiting for its prediction.
pub fn is_pending(status: &str) -> (r: bool)
    ensures
        r == (status@ == "pending"@),
{
    same_text(status, "pending")
}

/// A persona's role as shown: in Estonian the Estonian role, falling back
/// to the English one; in English the English role; empty when unknown.
pub fn role_label(lang: Lang, role: &Option<String>, role_et: &Option<String>) -> (r: String)
    ensures
        r@ == match lang {
            Lang::Et => match ov(*role_et) {
                Some(x) => x,
                None => match ov(*role) {
                    Some(x) => x,
                    None => Seq::empty(),
                },
            },
            Lang::En => match ov(*role) {
                Some(x) => x,
                None => Seq::empty(),
            },
        },
{
    match lang {
        Lang::Et => match role_et {
            Some(x) => x.clone(),
            None => match role {
                Some(x) => x.clone(),
                None => String::new(),
            },
        },
        Lang::En => match role {
            Some(x) => x.clone(),
            None => String::new(),
        },
    }
}

/// A reply's text as shown: a locked persona's text is withheld and the
/// notice shown in its place (its score still counts).
pub fn shown_reply_text<'a>(locked: bool, body: &'a str, notice: &'a str) -> (r: &'a str)
    ensures
        r@ == (if locked {
            notice@
        } else {
            body@
        }),
{
    if locked {
        notice
    } else {
        body
    }
}

/// Why a screen could not be served.
pub enum AppError {
    NotFound,
    Internal { message: String },
}

} // verus!
