use ovk_panel::config::{default_ovk_root, join_path, Config, Runner, Settings};
use ovk_panel::i18n::{t, Lang, Verdict};
use ovk_panel::web::{
    appended_message, card_title, choose_engine, handed_message, is_pending, lang_cookie,
    resolve_lang, role_label, runner_label, shown_reply_text, submitted_draft,
};

fn settings() -> Settings {
    Settings {
        ovk_root: "/srv/ovk".to_string(),
        queue: None,
        socket: None,
        flow_hub: None,
        cursor: None,
        runner: None,
        listener: None,
        reply_engine: None,
        bind: None,
        data_dir: None,
    }
}

#[test]
fn config_defaults() {
    let c = Config::from_settings(settings());
    assert_eq!(c.queue, "panel");
    assert_eq!(c.cursor, "ovk-prototype");
    assert!(c.runner == Runner::AppendOnly);
    assert!(c.listener_enabled);
    assert_eq!(c.reply_engine, "model");
    assert_eq!(c.bind, "127.0.0.1:8787");
    assert_eq!(c.data_dir, "data");
    assert_eq!(c.db_path(), "data/ovk-prototype.db");
    assert!(c.flow_hub.is_none() && c.socket_override.is_none());
    assert_eq!(default_ovk_root(), "../../ovk");
}

#[test]
fn config_overrides() {
    let mut s = settings();
    s.runner = Some("panel-run".to_string());
    s.listener = Some("0".to_string());
    s.flow_hub = Some(String::new());
    s.data_dir = Some("/var/lib/ovk/".to_string());
    s.socket = Some("/run/q.sock".to_string());
    let c = Config::from_settings(s);
    assert!(c.runner == Runner::PanelRun);
    assert!(!c.listener_enabled);
    assert!(c.flow_hub.is_none());
    assert_eq!(c.db_path(), "/var/lib/ovk/ovk-prototype.db");
    assert_eq!(c.socket_override.as_deref(), Some("/run/q.sock"));
    let mut s = settings();
    s.runner = Some("other".to_string());
    s.listener = Some("1".to_string());
    s.flow_hub = Some("100.1.2.3:9440".to_string());
    let c = Config::from_settings(s);
    assert!(c.runner == Runner::AppendOnly);
    assert!(c.listener_enabled);
    assert_eq!(c.flow_hub.as_deref(), Some("100.1.2.3:9440"));
    assert_eq!(join_path("", "x.db"), "x.db");
}

#[test]
fn language_codes() {
    assert_eq!(Lang::from_code("en"), Some(Lang::En));
    assert_eq!(Lang::from_code("et"), Some(Lang::Et));
    assert_eq!(Lang::from_code("fr"), None);
    assert_eq!(Lang::En.code(), "en");
    assert_eq!(Lang::from_code(Lang::Et.code()), Some(Lang::Et));
}

#[test]
fn language_resolution_order() {
    assert_eq!(resolve_lang(Some("et"), Some("lang=en")), Lang::Et);
    assert_eq!(resolve_lang(Some("xx"), Some("a=b; lang=et")), Lang::Et);
    assert_eq!(resolve_lang(None, Some("lang=fr;  lang=et ")), Lang::Et);
    assert_eq!(resolve_lang(None, Some("language=et; x")), Lang::En);
    assert_eq!(resolve_lang(None, None), Lang::En);
    assert_eq!(lang_cookie(Lang::Et), "lang=et; Path=/; Max-Age=31536000");
}

#[test]
fn string_tables() {
    assert_eq!(t(Lang::En).run_button, "Run the panel");
    assert_eq!(t(Lang::Et).run_button, "Käivita paneel");
    assert_eq!(t(Lang::En).other_lang, "et");
    assert_eq!(t(Lang::Et).lang, "et");
    assert_eq!(Lang::En.verdict_word(Verdict::Win), "LIKELY WINS");
    assert_eq!(Lang::Et.verdict_word(Verdict::Flop), "TÕENÄOLINE LÄBIKUKKUMINE");
    assert_eq!(Verdict::Mixed.class(), "mixed");
}

#[test]
fn submissions() {
    assert_eq!(submitted_draft("  Hello city  "), Some("Hello city".to_string()));
    assert_eq!(submitted_draft(" \n "), None);
    assert_eq!(choose_engine("mock", "model"), "mock");
    assert_eq!(choose_engine("", "model"), "model");
    assert_eq!(choose_engine("gpt", "mock"), "mock");
    assert_eq!(
        appended_message(12, "mock"),
        "content:query appended at ordinal 12 (engine: mock). The listener picks it up within seconds."
    );
    assert_eq!(
        handed_message("model"),
        "Handed to OVK's panel-run (engine: model). The run appears below as the rapids fill."
    );
    assert_eq!(runner_label(Runner::PanelRun, true), "panel-run.sh");
    assert_eq!(runner_label(Runner::AppendOnly, true), "append + resident listener");
    assert_eq!(runner_label(Runner::AppendOnly, false), "append-only (no listener!)");
}

#[test]
fn cards_and_roles() {
    assert_eq!(card_title("short", 90), "short");
    assert_eq!(card_title("abcdef", 3), "abc…");
    assert_eq!(card_title("abc", 3), "abc");
    assert_eq!(card_title("õunad", 2), "õu…");
    assert!(is_pending("pending"));
    assert!(!is_pending("predicted"));
    let en = Some("Watchdog".to_string());
    let et = Some("Valvekoer".to_string());
    assert_eq!(role_label(Lang::Et, &en, &et), "Valvekoer");
    assert_eq!(role_label(Lang::Et, &en, &None), "Watchdog");
    assert_eq!(role_label(Lang::En, &en, &et), "Watchdog");
    assert_eq!(role_label(Lang::En, &None, &et), "");
}

#[test]
fn locked_replies_are_withheld() {
    assert_eq!(shown_reply_text(true, "spin!", "withheld"), "withheld");
    assert_eq!(shown_reply_text(false, "spin!", "withheld"), "spin!");
}
