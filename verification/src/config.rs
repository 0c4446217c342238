//! Configuration: every knob has a working default. Nothing here changes the
//! engine's checkout; its root is only used to find the queue daemon and,
//! optionally, to run the engine's own one-shot panel script.
use vstd::prelude::*;
use crate::store::ov;
use crate::text::same_text;

verus! {

/// How a submitted draft reaches the panel.
#[derive(PartialEq, Eq, Structural, Clone, Copy, Debug)]
pub enum Runner {
    /// The engine's one-shot `panel-run.sh` answers it.
    PanelRun,
    /// The draft is appended to the queue; the resident listener answers it.
    AppendOnly,
}

/// The settings as the environment gives them (each absent when unset).
pub struct Settings {
    /// The engine checkout, already made absolute where that was possible.
    pub ovk_root: String,
    pub queue: Option<String>,
    pub socket: Option<String>,
    pub flow_hub: Option<String>,
    pub cursor: Option<String>,
    pub runner: Option<String>,
    pub listener: Option<String>,
    pub reply_engine: Option<String>,
    pub bind: Option<String>,
    pub data_dir: Option<String>,
}

/// The server's configuration.
pub struct Config {
    /// Checkout of the engine (read-only from our side).
    pub ovk_root: String,
    /// Queue the panel rides on.
    pub queue: String,
    /// Explicit daemon socket path; when absent the socket is discovered.
    pub socket_override: Option<String>,
    /// TCP flow hub `host:port`, when one is set.
    pub flow_hub: Option<String>,
    /// Durable cursor this backend consumes the queue with.
    pub cursor: String,
    pub runner: Runner,
    /// Resident panel listener (on unless turned off).
    pub listener_enabled: bool,
    /// Default reply engine (`mock` or `model`).
    pub reply_engine: String,
    /// Address the HTTP server binds.
    pub bind: String,
    /// Where this project's own data lives.
    pub data_dir: String,
}

/// The checkout used when none is set.
pub fn default_ovk_root() -> (r: &'static str)
    ensures
        r@ == "../../ovk"@,
{
    "../../ovk"
}

pub open spec fn or_default(o: Option<String>, d: Seq<char>) -> Seq<char> {
    match o {
        Some(s) => s@,
        None => d,
    }
}

fn value_or(o: Option<String>, d: &str) -> (r: String)
    ensures
        r@ == or_default(o, d@),
{
    match o {
        Some(s) => s,
        None => d.to_owned(),
    }
}

impl Config {
    /// The configuration the settings give: each unset knob takes its
    /// default; the runner is the panel script only when asked for by name;
    /// the listener is off only when set to `0`; an empty flow hub is no hub.
    pub fn from_settings(s: Settings) -> (c: Config)
        ensures
            c.ovk_root@ == s.ovk_root@,
            c.queue@ == or_default(s.queue, "panel"@),
            ov(c.socket_override) == ov(s.socket),
            ov(c.flow_hub) == (match s.flow_hub {
                Some(h) => if h@.len() > 0 {
                    Some(h@)
                } else {
                    None
                },
                None => None,
            }),
            c.cursor@ == or_default(s.cursor, "ovk-prototype"@),
            c.runner == (if ov(s.runner) == Some("panel-run"@) {
                Runner::PanelRun
            } else {
                Runner::AppendOnly
            }),
            c.listener_enabled == (ov(s.listener) != Some("0"@)),
            c.reply_engine@ == or_default(s.reply_engine, "model"@),
            c.bind@ == or_default(s.bind, "127.0.0.1:8787"@),
            c.data_dir@ == or_default(s.data_dir, "data"@),
    {
        let runner = match &s.runner {
            Some(r) => if same_text(r.as_str(), "panel-run") {
                Runner::PanelRun
            } else {
                Runner::AppendOnly
            },
            None => Runner::AppendOnly,
        };
        let listener_enabled = match &s.listener {
            Some(l) => !same_text(l.as_str(), "0"),
            None => true,
        };
        let flow_hub = match s.flow_hub {
            Some(h) => if h.as_str().is_empty() {
                None
            } else {
                Some(h)
            },
            None => None,
        };
        Config {
            ovk_root: s.ovk_root,
            queue: value_or(s.queue, "panel"),
            socket_override: s.socket,
            flow_hub,
            cursor: value_or(s.cursor, "ovk-prototype"),
            runner,
            listener_enabled,
            reply_engine: value_or(s.reply_engine, "model"),
            bind: value_or(s.bind, "127.0.0.1:8787"),
            data_dir: value_or(s.data_dir, "data"),
        }
    }

    /// Where the enrichment store lives: `ovk-prototype.db` in the data directory.
    pub fn db_path(&self) -> (p: String)
        ensures
            p@ == joined(self.data_dir@, "ovk-prototype.db"@),
    {
        join_path(self.data_dir.as_str(), "ovk-prototype.db")
    }
}

/// `dir` joined with the relative path `name`, as `Path::join` joins them: a
/// separator goes between unless `dir` is empty or already ends with one.
pub open spec fn joined(dir: Seq<char>, name: Seq<char>) -> Seq<char> {
    if dir.len() == 0 || dir.last() == '/' {
        dir + name
    } else {
        dir + seq!['/'] + name
    }
}

/// `dir` joined with the relative path `name`.
pub fn join_path(dir: &str, name: &str) -> (p: String)
    ensures
        p@ == joined(dir@, name@),
{
    let d = dir.to_owned();
    let n = d.as_str().unicode_len();
    if n == 0 || d.as_str().get_char(n - 1) == '/' {
        d.concat(name)
    } else {
        let mut d2 = d;
        crate::text::push_char(&mut d2, '/');
        d2.concat(name)
    }
}

} // verus!
