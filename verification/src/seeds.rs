//! The persona panel: the archetypes of the panel files cast as a
//! communications red-team, and what is read out of the panel files.
//!
//! The hostile-amplification voice (Outlaw) ships locked: its score counts,
//! its text is never shown.
use vstd::prelude::*;
use crate::store::{PersonaSeed, PersonaSeedV};
use crate::text::{
    after_first, after_first_spec, before_first, before_first_spec, chars_of, lines, lines_spec,
    pair_views, split_char, split_spec, string_of, trim, trim_spec, views,
};

verus! {

/// The red-team role (English, Estonian) an archetype plays, and whether
/// its voice ships locked.
pub open spec fn role_spec(archetype: Seq<char>) -> (Seq<char>, Seq<char>, bool) {
    if archetype == "Everyman"@ {
        ("Ordinary reader"@, "Tavalugeja"@, false)
    } else if archetype == "Caregiver"@ {
        ("Concerned parent"@, "Murelik lapsevanem"@, false)
    } else if archetype == "Explorer"@ {
        ("Early adopter"@, "Varajane omaksvõtja"@, false)
    } else if archetype == "Creator"@ {
        ("Creative professional"@, "Loovprofessionaal"@, false)
    } else if archetype == "Sage"@ {
        ("Investigative journalist"@, "Uuriv ajakirjanik"@, false)
    } else if archetype == "Ruler"@ {
        ("Regulator / official"@, "Ametnik"@, false)
    } else if archetype == "Lover"@ {
        ("Sympathetic reader"@, "Poolehoidja"@, false)
    } else if archetype == "Innocent"@ {
        ("Trusting reader"@, "Usaldav lugeja"@, false)
    } else if archetype == "Jester"@ {
        ("Meme amplifier"@, "Meemivõimendaja"@, false)
    } else if archetype == "Outlaw"@ {
        ("Hostile amplifier"@, "Vaenulik võimendaja"@, true)
    } else if archetype == "Hero"@ {
        ("Watchdog"@, "Valvekoer"@, false)
    } else if archetype == "Magician"@ {
        ("Spin analyst"@, "Sõnumianalüütik"@, false)
    } else {
        ("Panel voice"@, "Paneelihääl"@, false)
    }
}

/// The red-team role (English, Estonian) an archetype plays, and whether
/// its voice ships locked.
pub fn role_for(archetype: &str) -> (r: (&'static str, &'static str, bool))
    ensures
        (r.0@, r.1@, r.2) == role_spec(archetype@),
{
    let a = archetype.to_owned();
    if a == String::from_str("Everyman") {
        ("Ordinary reader", "Tavalugeja", false)
    } else if a == String::from_str("Caregiver") {
        ("Concerned parent", "Murelik lapsevanem", false)
    } else if a == String::from_str("Explorer") {
        ("Early adopter", "Varajane omaksvõtja", false)
    } else if a == String::from_str("Creator") {
        ("Creative professional", "Loovprofessionaal", false)
    } else if a == String::from_str("Sage") {
        ("Investigative journalist", "Uuriv ajakirjanik", false)
    } else if a == String::from_str("Ruler") {
        ("Regulator / official", "Ametnik", false)
    } else if a == String::from_str("Lover") {
        ("Sympathetic reader", "Poolehoidja", false)
    } else if a == String::from_str("Innocent") {
        ("Trusting reader", "Usaldav lugeja", false)
    } else if a == String::from_str("Jester") {
        ("Meme amplifier", "Meemivõimendaja", false)
    } else if a == String::from_str("Outlaw") {
        ("Hostile amplifier", "Vaenulik võimendaja", true)
    } else if a == String::from_str("Hero") {
        ("Watchdog", "Valvekoer", false)
    } else if a == String::from_str("Magician") {
        ("Spin analyst", "Sõnumianalüütik", false)
    } else {
        ("Panel voice", "Paneelihääl", false)
    }
}

/// Only the hostile-amplification voice ships locked: an archetype's voice
/// is locked exactly when the archetype is Outlaw.
pub proof fn law_only_the_outlaw_ships_locked(archetype: Seq<char>)
    ensures
        role_spec(archetype).2 <==> archetype == "Outlaw"@,
{
    reveal_strlit("Everyman");
    reveal_strlit("Caregiver");
    reveal_strlit("Explorer");
    reveal_strlit("Creator");
    reveal_strlit("Sage");
    reveal_strlit("Ruler");
    reveal_strlit("Lover");
    reveal_strlit("Innocent");
    reveal_strlit("Jester");
    reveal_strlit("Outlaw");
    reveal_strlit("Hero");
    reveal_strlit("Magician");
    assert("Outlaw"@.len() != "Everyman"@.len());
    assert("Outlaw"@.len() != "Caregiver"@.len());
    assert("Outlaw"@.len() != "Explorer"@.len());
    assert("Outlaw"@.len() != "Creator"@.len());
    assert("Outlaw"@.len() != "Sage"@.len());
    assert("Outlaw"@.len() != "Ruler"@.len());
    assert("Outlaw"@.len() != "Lover"@.len());
    assert("Outlaw"@.len() != "Innocent"@.len());
    assert("Outlaw"@[0] != "Jester"@[0]);
}

/// The red-team cast: each of the twelve archetypes plays its own role, in
/// English and Estonian, and any other archetype is a generic panel voice.
pub proof fn law_role_table()
    ensures
        role_spec("Everyman"@) == ("Ordinary reader"@, "Tavalugeja"@, false),
        role_spec("Caregiver"@) == ("Concerned parent"@, "Murelik lapsevanem"@, false),
        role_spec("Explorer"@) == ("Early adopter"@, "Varajane omaksvõtja"@, false),
        role_spec("Creator"@) == ("Creative professional"@, "Loovprofessionaal"@, false),
        role_spec("Sage"@) == ("Investigative journalist"@, "Uuriv ajakirjanik"@, false),
        role_spec("Ruler"@) == ("Regulator / official"@, "Ametnik"@, false),
        role_spec("Lover"@) == ("Sympathetic reader"@, "Poolehoidja"@, false),
        role_spec("Innocent"@) == ("Trusting reader"@, "Usaldav lugeja"@, false),
        role_spec("Jester"@) == ("Meme amplifier"@, "Meemivõimendaja"@, false),
        role_spec("Outlaw"@) == ("Hostile amplifier"@, "Vaenulik võimendaja"@, true),
        role_spec("Hero"@) == ("Watchdog"@, "Valvekoer"@, false),
        role_spec("Magician"@) == ("Spin analyst"@, "Sõnumianalüütik"@, false),
{
    reveal_strlit("Everyman");
    reveal_strlit("Caregiver");
    reveal_strlit("Explorer");
    reveal_strlit("Creator");
    reveal_strlit("Sage");
    reveal_strlit("Ruler");
    reveal_strlit("Lover");
    reveal_strlit("Innocent");
    reveal_strlit("Jester");
    reveal_strlit("Outlaw");
    reveal_strlit("Hero");
    reveal_strlit("Magician");
    assert("Caregiver"@.len() != "Everyman"@.len());
    assert("Explorer"@[1] != "Everyman"@[1]);
    assert("Explorer"@.len() != "Caregiver"@.len());
    assert("Creator"@.len() != "Everyman"@.len());
    assert("Creator"@.len() != "Caregiver"@.len());
    assert("Creator"@.len() != "Explorer"@.len());
    assert("Sage"@.len() != "Everyman"@.len());
    assert("Sage"@.len() != "Caregiver"@.len());
    assert("Sage"@.len() != "Explorer"@.len());
    assert("Sage"@.len() != "Creator"@.len());
    assert("Ruler"@.len() != "Everyman"@.len());
    assert("Ruler"@.len() != "Caregiver"@.len());
    assert("Ruler"@.len() != "Explorer"@.len());
    assert("Ruler"@.len() != "Creator"@.len());
    assert("Ruler"@.len() != "Sage"@.len());
    assert("Lover"@.len() != "Everyman"@.len());
    assert("Lover"@.len() != "Caregiver"@.len());
    assert("Lover"@.len() != "Explorer"@.len());
    assert("Lover"@.len() != "Creator"@.len());
    assert("Lover"@.len() != "Sage"@.len());
    assert("Lover"@[0] != "Ruler"@[0]);
    assert("Innocent"@[0] != "Everyman"@[0]);
    assert("Innocent"@.len() != "Caregiver"@.len());
    assert("Innocent"@[0] != "Explorer"@[0]);
    assert("Innocent"@.len() != "Creator"@.len());
    assert("Innocent"@.len() != "Sage"@.len());
    assert("Innocent"@.len() != "Ruler"@.len());
    assert("Innocent"@.len() != "Lover"@.len());
    assert("Jester"@.len() != "Everyman"@.len());
    assert("Jester"@.len() != "Caregiver"@.len());
    assert("Jester"@.len() != "Explorer"@.len());
    assert("Jester"@.len() != "Creator"@.len());
    assert("Jester"@.len() != "Sage"@.len());
    assert("Jester"@.len() != "Ruler"@.len());
    assert("Jester"@.len() != "Lover"@.len());
    assert("Jester"@.len() != "Innocent"@.len());
    assert("Outlaw"@.len() != "Everyman"@.len());
    assert("Outlaw"@.len() != "Caregiver"@.len());
    assert("Outlaw"@.len() != "Explorer"@.len());
    assert("Outlaw"@.len() != "Creator"@.len());
    assert("Outlaw"@.len() != "Sage"@.len());
    assert("Outlaw"@.len() != "Ruler"@.len());
    assert("Outlaw"@.len() != "Lover"@.len());
    assert("Outlaw"@.len() != "Innocent"@.len());
    assert("Outlaw"@[0] != "Jester"@[0]);
    assert("Hero"@.len() != "Everyman"@.len());
    assert("Hero"@.len() != "Caregiver"@.len());
    assert("Hero"@.len() != "Explorer"@.len());
    assert("Hero"@.len() != "Creator"@.len());
    assert("Hero"@[0] != "Sage"@[0]);
    assert("Hero"@.len() != "Ruler"@.len());
    assert("Hero"@.len() != "Lover"@.len());
    assert("Hero"@.len() != "Innocent"@.len());
    assert("Hero"@.len() != "Jester"@.len());
    assert("Hero"@.len() != "Outlaw"@.len());
    assert("Magician"@[0] != "Everyman"@[0]);
    assert("Magician"@.len() != "Caregiver"@.len());
    assert("Magician"@[0] != "Explorer"@[0]);
    assert("Magician"@.len() != "Creator"@.len());
    assert("Magician"@.len() != "Sage"@.len());
    assert("Magician"@.len() != "Ruler"@.len());
    assert("Magician"@.len() != "Lover"@.len());
    assert("Magician"@[0] != "Innocent"@[0]);
    assert("Magician"@.len() != "Jester"@.len());
    assert("Magician"@.len() != "Outlaw"@.len());
    assert("Magician"@.len() != "Hero"@.len());
}

// ── the weights table ──────────────────────────────────────────────────────

/// A weights line `id<TAB>weight<TAB>archetype…` gives `(id, archetype)`;
/// a line with fewer than three fields, or an empty id, gives nothing.
pub open spec fn panel_row(line: Seq<char>) -> Option<(Seq<char>, Seq<char>)> {
    let f = split_spec(line, '\t');
    if f.len() >= 3 && f[0].len() > 0 {
        Some((f[0], f[2]))
    } else {
        None
    }
}

pub open spec fn panel_rows_spec(ls: Seq<Seq<char>>) -> Seq<(Seq<char>, Seq<char>)>
    decreases ls.len(),
{
    if ls.len() == 0 {
        Seq::empty()
    } else {
        let r = panel_rows_spec(ls.drop_last());
        match panel_row(ls.last()) {
            Some(x) => r.push(x),
            None => r,
        }
    }
}

/// The `(id, archetype)` rows of a weights table, in order.
pub fn panel_rows(weights: &str) -> (r: Vec<(String, String)>)
    ensures
        pair_views(r@) == panel_rows_spec(lines_spec(weights@)),
{
    let ls = lines(weights);
    let ghost lv = views(ls@);
    let n = ls.len();
    let mut out: Vec<(String, String)> = Vec::new();
    let mut i: usize = 0;
    assert(lv.take(0) =~= Seq::<Seq<char>>::empty());
    while i < n
        invariant
            n == ls@.len() == lv.len(),
            lv == views(ls@),
            i <= n,
            pair_views(out@) == panel_rows_spec(lv.take(i as int)),
        decreases n - i,
    {
        assert(lv.take(i + 1).drop_last() =~= lv.take(i as int));
        assert(lv.take(i + 1).last() == ls@[i as int]@);
        let f = split_char(ls[i].as_str(), '\t');
        let ghost fv = views(f@);
        if f.len() >= 3 && !f[0].as_str().is_empty() {
            let ghost before = out@;
            out.push((f[0].clone(), f[2].clone()));
            assert(fv[0] == f@[0]@ && fv[2] == f@[2]@);
            assert(pair_views(out@) =~= pair_views(before).push((f@[0]@, f@[2]@)));
        }
        i += 1;
    }
    assert(lv.take(n as int) =~= lv);
    out
}

// ── persona files ──────────────────────────────────────────────────────────

/// The uppercase mapping of `c` (one or more characters).
pub uninterp spec fn uppercase_of(c: char) -> Seq<char>;

/// `char::to_uppercase`, collected: the uppercase mapping of `c`; an ASCII
/// lowercase letter maps to its capital, other ASCII letters and digits to
/// themselves.
#[verifier::external_body]
pub fn char_uppercase(c: char) -> (r: String)
    ensures
        r@ == uppercase_of(c),
        'a' <= c <= 'z' ==> r@ == seq![((c as u32) - 32) as char],
        ('A' <= c <= 'Z') || ('0' <= c <= '9') ==> r@ == seq![c],
{
    c.to_uppercase().collect::<String>()
}

/// An id with its first character in uppercase.
pub open spec fn capitalized(id: Seq<char>) -> Seq<char> {
    if id.len() == 0 {
        Seq::empty()
    } else {
        uppercase_of(id[0]) + id.drop_first()
    }
}

/// The name in a persona file's title line, e.g.
/// `# Panel Persona — Aisha Okafor ("Creator")` gives `Aisha Okafor`.
pub open spec fn title_name(md: Seq<char>) -> Option<Seq<char>> {
    let ls = lines_spec(md);
    if ls.len() == 0 {
        None
    } else {
        match after_first_spec(ls[0], "— "@) {
            None => None,
            Some(after) => {
                let name = trim_spec(before_first_spec(after, " (\""@));
                if name.len() == 0 {
                    None
                } else {
                    Some(name)
                }
            },
        }
    }
}

/// A persona's display name: the name in its file's title line, else its
/// id capitalized.
pub open spec fn display_name_spec(id: Seq<char>, md: Option<Seq<char>>) -> Seq<char> {
    match md {
        Some(m) => match title_name(m) {
            Some(n) => n,
            None => capitalized(id),
        },
        None => capitalized(id),
    }
}

fn capitalize(id: &str) -> (r: String)
    ensures
        r@ == capitalized(id@),
{
    let c = chars_of(id);
    if c.len() == 0 {
        return String::new();
    }
    let head = char_uppercase(c[0]);
    let rest = string_of(&c, 1, c.len());
    assert(rest@ =~= id@.drop_first());
    head.concat(rest.as_str())
}

fn title_name_of(md: &str) -> (r: Option<String>)
    ensures
        match r {
            Some(n) => title_name(md@) == Some(n@),
            None => title_name(md@) is None,
        },
{
    let ls = lines(md);
    if ls.len() == 0 {
        return None;
    }
    let after = match after_first(ls[0].as_str(), "— ") {
        None => return None,
        Some(a) => a,
    };
    let name = trim(before_first(after.as_str(), " (\"").as_str());
    if name.as_str().is_empty() {
        None
    } else {
        Some(name)
    }
}

/// A persona's display name from its id and its file (none when unreadable).
pub fn display_name(id: &str, md: Option<&str>) -> (r: String)
    ensures
        r@ == display_name_spec(id@, match md {
            Some(m) => Some(m@),
            None => None,
        }),
{
    match md {
        None => capitalize(id),
        Some(m) => match title_name_of(m) {
            Some(n) => n,
            None => capitalize(id),
        },
    }
}

/// The seed for persona `id` of archetype `archetype`, with its file's
/// contents `md` (none when unreadable).
pub fn persona_seed(id: &str, archetype: &str, md: Option<&str>) -> (s: PersonaSeed)
    ensures
        s@ == (PersonaSeedV {
            id: id@,
            display_name: display_name_spec(id@, match md {
                Some(m) => Some(m@),
                None => None,
            }),
            archetype: archetype@,
            role: role_spec(archetype@).0,
            role_et: role_spec(archetype@).1,
            locked_default: role_spec(archetype@).2,
        }),
{
    let (role, role_et, locked_default) = role_for(archetype);
    PersonaSeed {
        id: id.to_owned(),
        display_name: display_name(id, md),
        archetype: archetype.to_owned(),
        role: role.to_owned(),
        role_et: role_et.to_owned(),
        locked_default,
    }
}

} // verus!
