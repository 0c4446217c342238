//! The content types that ride the queue and how they are told apart.
use vstd::prelude::*;
use crate::text::{
    decimal, decimal_spec, law_decimal_parses_back, parse_u64, parse_u64_spec, same_text,
    strip_prefix, strip_prefix_spec,
};

verus! {

/// What a queue entry is, by its content type.
pub enum Kind {
    /// `content:query`: a draft submitted to the panel.
    Query,
    /// `reply:<persona>`: one persona's reply.
    Reply { persona: String },
    /// `prediction:<item>`: the panel's prediction for query `item`.
    Prediction { item: u64 },
    /// `outcome:<item>`: the recorded real-world outcome of query `item`.
    Outcome { item: u64 },
    /// `prediction:<tag>` whose tag is not a number.
    BadPredictionTag { tag: String },
    /// `outcome:<tag>` whose tag is not a number.
    BadOutcomeTag { tag: String },
    /// Anything else: not ours to handle.
    Other,
}

pub enum KindV {
    Query,
    Reply { persona: Seq<char> },
    Prediction { item: u64 },
    Outcome { item: u64 },
    BadPredictionTag { tag: Seq<char> },
    BadOutcomeTag { tag: Seq<char> },
    Other,
}

impl View for Kind {
    type V = KindV;

    open spec fn view(&self) -> KindV {
        match self {
            Kind::Query => KindV::Query,
            Kind::Reply { persona } => KindV::Reply { persona: persona@ },
            Kind::Prediction { item } => KindV::Prediction { item: *item },
            Kind::Outcome { item } => KindV::Outcome { item: *item },
            Kind::BadPredictionTag { tag } => KindV::BadPredictionTag { tag: tag@ },
            Kind::BadOutcomeTag { tag } => KindV::BadOutcomeTag { tag: tag@ },
            Kind::Other => KindV::Other,
        }
    }
}

pub open spec fn query_type() -> Seq<char> {
    "content:query"@
}

pub open spec fn reply_prefix() -> Seq<char> {
    "reply:"@
}

pub open spec fn prediction_prefix() -> Seq<char> {
    "prediction:"@
}

pub open spec fn outcome_prefix() -> Seq<char> {
    "outcome:"@
}

/// What an entry with content type `ct` is.
pub open spec fn kind_of(ct: Seq<char>) -> KindV {
    if ct == query_type() {
        KindV::Query
    } else {
        match strip_prefix_spec(ct, reply_prefix()) {
            Some(p) => KindV::Reply { persona: p },
            None => match strip_prefix_spec(ct, prediction_prefix()) {
                Some(t) => match parse_u64_spec(t) {
                    Some(item) => KindV::Prediction { item },
                    None => KindV::BadPredictionTag { tag: t },
                },
                None => match strip_prefix_spec(ct, outcome_prefix()) {
                    Some(t) => match parse_u64_spec(t) {
                        Some(item) => KindV::Outcome { item },
                        None => KindV::BadOutcomeTag { tag: t },
                    },
                    None => KindV::Other,
                },
            },
        }
    }
}

/// What an entry with content type `ct` is.
pub fn classify(ct: &str) -> (k: Kind)
    ensures
        k@ == kind_of(ct@),
{
    if same_text(ct, "content:query") {
        return Kind::Query;
    }
    if let Some(p) = strip_prefix(ct, "reply:") {
        return Kind::Reply { persona: p };
    }
    if let Some(t) = strip_prefix(ct, "prediction:") {
        return match parse_u64(t.as_str()) {
            Some(item) => Kind::Prediction { item },
            None => Kind::BadPredictionTag { tag: t },
        };
    }
    if let Some(t) = strip_prefix(ct, "outcome:") {
        return match parse_u64(t.as_str()) {
            Some(item) => Kind::Outcome { item },
            None => Kind::BadOutcomeTag { tag: t },
        };
    }
    Kind::Other
}

/// The content type of a submitted draft.
pub fn query_content_type() -> (r: String)
    ensures
        r@ == query_type(),
{
    String::from_str("content:query")
}

/// The content type of persona `id`'s reply.
pub fn reply_content_type(id: &str) -> (r: String)
    ensures
        r@ == reply_prefix() + id@,
{
    String::from_str("reply:").concat(id)
}

pub open spec fn prediction_type(item: u64) -> Seq<char> {
    prediction_prefix() + decimal_spec(item as nat)
}

pub open spec fn outcome_type(item: u64) -> Seq<char> {
    outcome_prefix() + decimal_spec(item as nat)
}

/// The content type of the prediction for query `item`.
pub fn prediction_content_type(item: u64) -> (r: String)
    ensures
        r@ == prediction_type(item),
{
    String::from_str("prediction:").concat(decimal(item).as_str())
}

/// The content type of the outcome recorded for query `item`.
pub fn outcome_content_type(item: u64) -> (r: String)
    ensures
        r@ == outcome_type(item),
{
    String::from_str("outcome:").concat(decimal(item).as_str())
}

/// A prediction's content type names its query: reading it back gives the
/// same item.
pub proof fn law_prediction_tag_names_its_item(item: u64)
    ensures
        kind_of(prediction_type(item)) == (KindV::Prediction { item }),
{
    reveal_strlit("content:query");
    reveal_strlit("reply:");
    reveal_strlit("prediction:");
    let ct = prediction_type(item);
    assert(ct[0] == 'p');
    assert(ct != query_type());
    assert(!reply_prefix().is_prefix_of(ct)) by {
        assert(ct.subrange(0, 6)[0] == 'p');
    };
    assert(prediction_prefix().is_prefix_of(ct)) by {
        assert(ct.subrange(0, 11) =~= prediction_prefix());
    };
    assert(ct.skip(11) =~= decimal_spec(item as nat));
    law_decimal_parses_back(item);
}

/// An outcome's content type names its query: reading it back gives the
/// same item.
pub proof fn law_outcome_tag_names_its_item(item: u64)
    ensures
        kind_of(outcome_type(item)) == (KindV::Outcome { item }),
{
    reveal_strlit("content:query");
    reveal_strlit("reply:");
    reveal_strlit("prediction:");
    reveal_strlit("outcome:");
    let ct = outcome_type(item);
    assert(ct[0] == 'o');
    assert(ct != query_type());
    assert(!reply_prefix().is_prefix_of(ct)) by {
        assert(ct.subrange(0, 6)[0] == 'o');
    };
    assert(!prediction_prefix().is_prefix_of(ct)) by {
        if ct.len() >= 11 {
            assert(ct.subrange(0, 11)[0] == 'o');
        }
    };
    assert(outcome_prefix().is_prefix_of(ct)) by {
        assert(ct.subrange(0, 8) =~= outcome_prefix());
    };
    assert(ct.skip(8) =~= decimal_spec(item as nat));
    law_decimal_parses_back(item);
}

/// A reply's content type names its persona.
pub proof fn law_reply_tag_names_its_persona(id: Seq<char>)
    ensures
        kind_of(reply_prefix() + id) == (KindV::Reply { persona: id }),
{
    reveal_strlit("content:query");
    reveal_strlit("reply:");
    let ct = reply_prefix() + id;
    assert(ct[0] == 'r');
    assert(ct != query_type());
    assert(reply_prefix().is_prefix_of(ct)) by {
        assert(ct.subrange(0, 6) =~= reply_prefix());
    };
    assert(ct.skip(6) =~= id);
}

} // verus!
