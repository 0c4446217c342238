use base64::Engine as _;
use ovk_panel::flow::{
    append_batch_request, append_request, append_batch_result, append_result, cursor_move_result,
    cursor_position_result, get_result, len_result, needs_short_path, resolve_socket_path,
    discover_failure, discover_step, socket_from_status, CommitPlan, DaemonResponse, DiscoverAction, FlowClient,
    FlowError, MoveTo, Request, DISCOVER_ATTEMPTS, SUN_PATH_MAX,
};

fn resp() -> DaemonResponse {
    DaemonResponse {
        ok: None,
        ordinal: None,
        len: None,
        position: None,
        ordinals: None,
        body: None,
        content_type: None,
        enqueued_at: None,
        raw: "{\"raw\":true}".to_string(),
    }
}

#[test]
fn append_request_encodes_the_body() {
    match append_request("héllo", "content:query") {
        Request::Append { body, content_type } => {
            assert_eq!(body, base64::engine::general_purpose::STANDARD.encode("héllo"));
            assert_ne!(body, "héllo");
            assert_eq!(content_type, "content:query");
        }
        _ => panic!("wrong request"),
    }
}

#[test]
fn append_batch_request_encodes_each_body() {
    let items = vec![("one".to_string(), "reply:a".to_string()), ("two".to_string(), "reply:b".to_string())];
    match append_batch_request(&items) {
        Request::AppendBatch { items: out } => {
            assert_eq!(out.len(), 2);
            assert_eq!(out[0].0, "b25l");
            assert_eq!(out[1].0, "dHdv");
            assert_eq!(out[1].1, "reply:b");
        }
        _ => panic!("wrong request"),
    }
}

#[test]
fn append_result_needs_an_ordinal() {
    let mut r = resp();
    r.ordinal = Some(17);
    assert!(matches!(append_result(r), Ok(17)));
    match append_result(resp()) {
        Err(FlowError::NoOrdinal { raw }) => assert_eq!(raw, "{\"raw\":true}"),
        _ => panic!("expected NoOrdinal"),
    }
}

#[test]
fn append_batch_result_keeps_integer_ordinals() {
    let mut r = resp();
    r.ok = Some(true);
    r.ordinals = Some(vec![Some(4), None, Some(6)]);
    assert_eq!(append_batch_result(r).ok().unwrap(), vec![4, 6]);
    let mut r = resp();
    r.ok = Some(true);
    assert_eq!(append_batch_result(r).ok().unwrap(), Vec::<u64>::new());
    let mut r = resp();
    r.ok = Some(false);
    assert!(matches!(append_batch_result(r), Err(FlowError::BatchFailed { .. })));
    assert!(matches!(append_batch_result(resp()), Err(FlowError::BatchFailed { .. })));
}

#[test]
fn len_result_needs_a_length() {
    let mut r = resp();
    r.len = Some(12);
    assert!(matches!(len_result(r), Ok(12)));
    assert!(matches!(len_result(resp()), Err(FlowError::BadLen { .. })));
}

#[test]
fn get_result_decodes_entries() {
    let mut r = resp();
    r.ok = Some(true);
    r.ordinal = Some(9);
    r.body = Some(base64::engine::general_purpose::STANDARD.encode("tõde"));
    r.content_type = Some("reply:sage".to_string());
    r.enqueued_at = Some(1700000000);
    let e = get_result(r).ok().unwrap().unwrap();
    assert_eq!(e.ordinal, 9);
    assert_eq!(e.body, "tõde");
    assert_eq!(e.content_type, "reply:sage");
    assert_eq!(e.enqueued_at, 1700000000);
}

#[test]
fn get_result_defaults_and_errors() {
    assert!(matches!(get_result(resp()), Ok(None)));
    let mut r = resp();
    r.ok = Some(true);
    r.body = Some("!!not base64!!".to_string());
    r.ordinal = Some(1);
    assert!(matches!(get_result(r), Err(FlowError::BadBase64)));
    let mut r = resp();
    r.ok = Some(true);
    r.body = Some("aGk=".to_string());
    assert!(matches!(get_result(r), Err(FlowError::NoEntryOrdinal)));
    let mut r = resp();
    r.ok = Some(true);
    r.ordinal = Some(3);
    let e = get_result(r).ok().unwrap().unwrap();
    assert_eq!(e.body, "");
    assert_eq!(e.content_type, "");
    assert_eq!(e.enqueued_at, 0);
    let mut r = resp();
    r.ok = Some(true);
    r.ordinal = Some(3);
    r.body = Some(base64::engine::general_purpose::STANDARD.encode([0xffu8, b'a']));
    assert_eq!(get_result(r).ok().unwrap().unwrap().body, "\u{fffd}a");
}

#[test]
fn cursor_moves_and_positions() {
    let mut r = resp();
    r.position = Some(5);
    assert_eq!(cursor_position_result(&r), Some(5));
    assert_eq!(cursor_position_result(&resp()), None);
    let mut r = resp();
    r.ok = Some(true);
    assert!(matches!(cursor_move_result(MoveTo::Head, r), Ok(0)));
    let mut r = resp();
    r.ok = Some(true);
    r.position = Some(41);
    assert!(matches!(cursor_move_result(MoveTo::Next, r), Ok(41)));
    match cursor_move_result(MoveTo::Prev, resp()) {
        Err(FlowError::MoveFailed { to, .. }) => assert!(to == MoveTo::Prev),
        _ => panic!("expected MoveFailed"),
    }
    assert_eq!(MoveTo::Origin.word(), "origin");
    assert_eq!(MoveTo::Next.word(), "next");
}

#[test]
fn commit_plans_walk_to_the_target() {
    let c = FlowClient::new("/tmp/q.sock".to_string(), None);
    assert!(matches!(c.cursor_commit("cur", 7, None), Ok(CommitPlan { from_origin: true, steps: 7 })));
    assert!(matches!(c.cursor_commit("cur", 7, Some(6)), Ok(CommitPlan { from_origin: false, steps: 1 })));
    assert!(matches!(c.cursor_commit("cur", 7, Some(7)), Ok(CommitPlan { from_origin: false, steps: 0 })));
    match c.cursor_commit("cur", 7, Some(9)) {
        Err(FlowError::CursorBeyond { name, position, target }) => {
            assert_eq!((name.as_str(), position, target), ("cur", 9, 7));
        }
        _ => panic!("expected CursorBeyond"),
    }
}

#[test]
fn move_head_positions_a_fresh_cursor_first() {
    let c = FlowClient::new("/tmp/q.sock".to_string(), None);
    let fresh = c.cursor_move_head("l", None);
    assert_eq!(fresh.len(), 2);
    assert!(matches!(&fresh[0], Request::CursorMove { to: MoveTo::Origin, .. }));
    assert!(matches!(&fresh[1], Request::CursorMove { to: MoveTo::Head, .. }));
    let placed = c.cursor_move_head("l", Some(3));
    assert_eq!(placed.len(), 1);
    assert!(matches!(&placed[0], Request::CursorMove { to: MoveTo::Head, .. }));
}

#[test]
fn long_socket_paths_go_through_a_short_link() {
    let long = format!("/{}", "d".repeat(SUN_PATH_MAX + 5));
    assert!(needs_short_path(&long));
    assert!(!needs_short_path("/tmp/x.sock"));
    let c = FlowClient::new(long.clone(), Some("/tmp/ovk-proto-1.sock".to_string()));
    assert_eq!(c.socket_path(), "/tmp/ovk-proto-1.sock");
    let c = FlowClient::new(long.clone(), None);
    assert_eq!(c.socket_path(), &long);
    let c = FlowClient::new("/tmp/x.sock".to_string(), Some("/tmp/y".to_string()));
    assert_eq!(c.socket_path(), "/tmp/x.sock");
}

#[test]
fn discovery_reads_the_socket_line() {
    let out = "queue panel\n  socket   .ground/flow/panel.sock  \nstate running\n";
    assert_eq!(socket_from_status(out).as_deref(), Some(".ground/flow/panel.sock"));
    assert_eq!(socket_from_status("nothing here"), None);
    assert_eq!(resolve_socket_path("/srv/ovk", ".ground/p.sock"), "/srv/ovk/.ground/p.sock");
    assert_eq!(resolve_socket_path("/srv/ovk/", "p.sock"), "/srv/ovk/p.sock");
    assert_eq!(resolve_socket_path("/srv/ovk", "/run/p.sock"), "/run/p.sock");
}

#[test]
fn an_appended_body_reads_back() {
    for body in ["héllo wörld", "", "a\nb", "日本語 ✓"] {
        let sent = match append_request(body, "content:query") {
            Request::Append { body, .. } => body,
            _ => panic!("not an append"),
        };
        assert_ne!(sent, body.to_string() + "x");
        let mut r = resp();
        r.ok = Some(true);
        r.ordinal = Some(7);
        r.body = Some(sent);
        r.content_type = Some("content:query".to_string());
        let e = get_result(r).ok().unwrap().unwrap();
        assert_eq!(e.body, body);
        assert_eq!(e.ordinal, 7);
    }
}

#[test]
fn discovery_rounds() {
    match discover_step(3, "queue panel\n  socket  run/flow.sock \n", "/srv/ovk") {
        DiscoverAction::Connect(p) => assert_eq!(p, "/srv/ovk/run/flow.sock"),
        _ => panic!("expected a connection"),
    }
    match discover_step(0, "socket /tmp/f.sock", "/srv/ovk") {
        DiscoverAction::Connect(p) => assert_eq!(p, "/tmp/f.sock"),
        _ => panic!("expected a connection"),
    }
    assert!(matches!(discover_step(0, "not running", "/srv/ovk"), DiscoverAction::StartDaemon));
    assert!(matches!(discover_step(1, "not running", "/srv/ovk"), DiscoverAction::Wait));
    assert!(matches!(discover_step(DISCOVER_ATTEMPTS - 2, "", "/srv/ovk"), DiscoverAction::Wait));
    assert!(matches!(discover_step(DISCOVER_ATTEMPTS - 1, "", "/srv/ovk"), DiscoverAction::GiveUp));
    assert_eq!(DISCOVER_ATTEMPTS, 10);
}

#[test]
fn errors_read_as_reported() {
    let e = FlowError::CursorBeyond { name: "ui".to_string(), position: 12, target: 7 };
    assert_eq!(e.message(), "cursor 'ui' at 12, beyond commit target 7");
    assert_eq!(FlowError::NoOrdinal { raw: "{}".to_string() }.message(), "append: no ordinal in response: {}");
    assert_eq!(FlowError::BatchFailed { raw: "r".to_string() }.message(), "append_batch failed: r");
    assert_eq!(FlowError::BadLen { raw: "r".to_string() }.message(), "len: bad response: r");
    assert_eq!(
        FlowError::MoveFailed { to: MoveTo::Head, raw: "r".to_string() }.message(),
        "cursor_move head failed: r"
    );
    assert_eq!(FlowError::BadBase64.message(), "entry body is not valid base64");
    assert_eq!(FlowError::NoEntryOrdinal.message(), "entry without ordinal");
    assert_eq!(
        discover_failure("panel", "/srv/ovk"),
        "could not discover flow socket for queue 'panel' in /srv/ovk"
    );
}
