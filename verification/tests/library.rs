use azcli::json::Json;
use azcli::models::{AuthType, BastionSku};
use azcli::output::{
    colorize_json_line, colorize_json_value, display_name, extract_field, format_table, format_tsv,
    short_scope, summarize_restrictions,
};
use azcli::text::{parse_key_val, to_lowercase};
use azcli::tui::app::ListState;
use azcli::tui::ui::{fit, pad, picker_widths, rg_row_line, short_id, status_line, visible_window};
use azcli::tunnel::{
    check_upgrade_bytes, cleanup_args, connect_target, new_websocket_key, record_token, relay_frame,
    token_request_args, upgrade_request, websocket_url, RelayAction, TunnelError, TunnelSession,
};
use base64::Engine;
use azcli::ws::{encode_frame, parse_frame, ReadOutcome, WsFrame, WsReader, WsWriter};

fn s(x: &str) -> Json {
    Json::Str(x.to_string())
}

fn obj(m: Vec<(&str, Json)>) -> Json {
    Json::Object(m.into_iter().map(|(k, v)| (k.to_string(), v)).collect())
}

fn list(n: usize, cursor: usize) -> ListState {
    let mut l = ListState::new();
    l.items = (0..n).map(|i| s(&i.to_string())).collect();
    l.cursor = cursor;
    l.loading = false;
    l
}

#[test]
fn key_value_arguments_split_at_the_first_equals() {
    assert_eq!(parse_key_val("a=b=c").unwrap(), ("a".to_string(), "b=c".to_string()));
    assert_eq!(parse_key_val("novalue").unwrap_err(), "invalid KEY=value: no `=` found in `novalue`");
}

#[test]
fn lowercase_is_unicode_aware() {
    assert_eq!(to_lowercase("ÀBC"), "àbc");
}

#[test]
fn fit_cuts_with_an_ellipsis() {
    assert_eq!(fit("hello", 10), "hello");
    assert_eq!(fit("hello", 3), "he\u{2026}");
    assert_eq!(fit("hello", 1), "\u{2026}");
    assert_eq!(fit("hello", 0), "");
    assert_eq!(pad("ab", 4), "ab  ");
    assert_eq!(pad("abcdef", 4), "abcdef");
}

#[test]
fn status_line_reports_error_loading_and_empty() {
    let mut l = ListState::new();
    assert_eq!(status_line(&l).as_deref(), Some("Loading..."));
    l.loading = false;
    assert_eq!(status_line(&l).as_deref(), Some("(empty)"));
    l.error = Some("bad".to_string());
    assert_eq!(status_line(&l).as_deref(), Some("Error: bad"));
    assert_eq!(status_line(&list(2, 0)), None);
}

#[test]
fn window_keeps_the_cursor_in_view() {
    assert_eq!(visible_window(&list(100, 50), 10), (45, 55));
    assert_eq!(visible_window(&list(100, 98), 10), (90, 100));
    assert_eq!(visible_window(&list(5, 4), 10), (0, 5));
    assert_eq!(visible_window(&list(0, 0), 10), (0, 0));
}

#[test]
fn list_rows_and_picker_columns() {
    let row = obj(vec![("location", s("eastus")), ("name", s("group-with-long-name"))]);
    assert_eq!(rg_row_line(&row, 8), "group-w\u{2026}  eastus");
    assert_eq!(picker_widths(100), (41, 31));
    assert_eq!(short_id("12345678-aaaa"), "12345678");
    assert_eq!(short_id("123"), "123");
}

#[test]
fn list_cursor_moves_clamped() {
    let mut l = list(3, 1);
    l.move_by(-5);
    assert_eq!(l.cursor, 0);
    l.move_by(7);
    assert_eq!(l.cursor, 2);
    let mut e = list(0, 0);
    e.move_by(3);
    assert_eq!(e.cursor, 0);
}

#[test]
fn table_shows_known_columns() {
    let v = Json::Array(vec![
        obj(vec![("location", s("eastus")), ("name", s("a"))]),
        obj(vec![("location", s("westus")), ("name", s("bb"))]),
    ]);
    let t = format_table(&v).unwrap();
    assert!(t.contains("Name"));
    assert!(t.contains("eastus"));
    let tsv = format_tsv(&v);
    assert!(tsv.contains("a\teastus") || tsv.contains("eastus\ta"));
}

#[test]
fn display_names_and_fields() {
    assert_eq!(display_name("@resourceType"), "ResourceType");
    assert_eq!(display_name("properties.provisioningState"), "provisioningState");
    let item = obj(vec![("properties", obj(vec![("x", Json::Bool(true))]))]);
    assert_eq!(extract_field(&item, "properties.x"), "true");
    assert_eq!(summarize_restrictions(None), "None");
}

#[test]
fn scopes_are_shortened() {
    assert_eq!(short_scope("/subscriptions/12345678-9abc/resourceGroups/rg1"), "sub:12345678/rg1");
}

#[test]
fn json_lines_are_coloured() {
    assert_eq!(colorize_json_value(": true,"), ": \u{1b}[33mtrue\u{1b}[0m,");
    assert!(colorize_json_line("  \"name\": \"x\"").contains("\u{1b}[32m"));
}

#[test]
fn frames_round_trip() {
    let bytes = encode_frame(2, b"hello", [1, 2, 3, 4]);
    match parse_frame(&bytes) {
        ReadOutcome::Frame(WsFrame::Binary(p), n) => {
            assert_eq!(p, b"hello".to_vec());
            assert_eq!(n, bytes.len());
        },
        _ => panic!("expected a binary frame"),
    }
    assert!(matches!(parse_frame(&bytes[..3]), ReadOutcome::NeedMore));
    assert!(matches!(parse_frame(b"HTTP/1.1 400"), ReadOutcome::HttpResponse));
}

#[test]
fn the_first_header_byte_ors_in_the_opcode() {
    let bytes = encode_frame(0x92, b"", [0, 0, 0, 0]);
    assert_eq!(bytes, vec![0x92, 0x80, 0, 0, 0, 0]);
    let bytes = encode_frame(0x21, b"x", [0, 0, 0, 0]);
    assert_eq!(bytes[0], 0xA1);
    assert_eq!(WsWriter::new().write_frame(0x40, b"")[0], 0xC0);
}

#[test]
fn reader_keeps_the_rest_of_the_buffer() {
    let w = WsWriter::new();
    let mut data = w.write_binary(b"ab");
    data.extend(w.write_close());
    let mut r = WsReader::new();
    r.feed(&data);
    assert!(matches!(r.read_frame(), ReadOutcome::Frame(WsFrame::Binary(_), _)));
    assert!(matches!(r.read_frame(), ReadOutcome::Frame(WsFrame::Close, _)));
    assert!(matches!(r.read_frame(), ReadOutcome::NeedMore));
}

#[test]
fn tunnel_urls_and_targets() {
    assert_eq!(websocket_url("host", BastionSku::Developer, "tok", "n1"), "wss://host/omni/webtunnel/tok");
    assert_eq!(websocket_url("host", BastionSku::Standard, "tok", "n1"), "wss://host/webtunnelv2/tok?X-Node-Id=n1");
    let t = connect_target("wss://example.com/a/b?x=1").unwrap();
    assert_eq!(t.host, "example.com");
    assert_eq!(t.port, 443);
    assert_eq!(t.path_and_query, "/a/b?x=1");
    assert!(matches!(connect_target("not a url"), Err(TunnelError::InvalidUrl)));
}

#[test]
fn websocket_key_is_sixteen_bytes_in_base64() {
    let k = new_websocket_key();
    assert_eq!(k.len(), 24);
    assert!(k.ends_with("=="));
    assert_ne!(new_websocket_key(), k);
    let bytes = base64::engine::general_purpose::STANDARD.decode(&k).unwrap();
    assert_eq!(bytes.len(), 16);
    assert_eq!(bytes[6] >> 4, 4);
    assert_eq!(bytes[8] >> 6, 2);
}

#[test]
fn a_session_passes_on_the_last_token_and_node() {
    let mut session = TunnelSession::new();
    assert_eq!(token_request_args(&session), (None, None));
    assert!(cleanup_args(&session).is_none());
    record_token(&mut session, "auth-1", "node-a");
    assert_eq!(token_request_args(&session), (Some("auth-1".to_string()), Some("node-a".to_string())));
    record_token(&mut session, "auth-2", "node-b");
    assert_eq!(session.last_token.as_deref(), Some("auth-2"));
    assert_eq!(cleanup_args(&session), Some(("auth-2".to_string(), Some("node-b".to_string()))));
}

#[test]
fn upgrade_answers_are_checked() {
    assert!(check_upgrade_bytes(b"HTTP/1.1 101 Switching Protocols\r\n\r\n").is_ok());
    match check_upgrade_bytes(b"HTTP/1.1 403 Forbidden\r\n\r\n") {
        Err(TunnelError::UpgradeRejected(t)) => assert!(t.starts_with("HTTP/1.1 403")),
        _ => panic!("expected a rejection"),
    }
    let req = upgrade_request("/p", "h", "k");
    assert!(req.starts_with("GET /p HTTP/1.1\r\nHost: h\r\n"));
}

#[test]
fn relay_forwards_data_and_stops_on_close() {
    assert!(matches!(relay_frame(WsFrame::Binary(vec![1])), RelayAction::Forward(b) if b == vec![1]));
    assert!(matches!(relay_frame(WsFrame::Close), RelayAction::Stop));
    assert!(matches!(relay_frame(WsFrame::Ping(vec![])), RelayAction::Skip));
}

#[test]
fn sku_and_auth_names() {
    assert!(BastionSku::Premium.is_standard_or_higher());
    assert!(!BastionSku::Developer.is_standard_or_higher());
    assert!(BastionSku::Developer.supports_native_client());
    assert_eq!(BastionSku::QuickConnect.to_string(), "QuickConnect");
    assert_eq!(AuthType::SshKey.to_string(), "ssh-key");
}

#[test]
fn set_then_get_reads_the_value_back() {
    let mut doc = Json::Null;
    doc.set("a".to_string(), s("1"));
    doc.set("b".to_string(), s("2"));
    doc.set("a".to_string(), s("3"));
    assert_eq!(doc.get("a").and_then(|v| v.as_str()), Some("3"));
    assert_eq!(doc.get("b").and_then(|v| v.as_str()), Some("2"));
    assert_eq!(doc.to_compact_string(), "{\"a\":\"3\",\"b\":\"2\"}");
}
