use samsung_artmode::client::{on_data, still_waiting, wait_limit_secs, wait_timeout, Awaited, Heard};
use samsung_artmode::client::{
    connect_error, connection_id, connection_target_from_url, envelope, extract_data,
    format_image_date, format_request_id, format_timestamp, now_timestamp, frame_step, generate_id, handshake_error,
    host_without_port, image_added_id, now_image_date, pairing_timeout, parse_connection_target,
    response_timeout, send_image_payload, str_has_char, upload_connect_error, upload_frame,
    upload_header, upload_target, DataField, FrameKind, FrameStep, UriAuthority,
    APP_NAME_BASE64, ART_APP_ENDPOINT,
};
use samsung_artmode::error::{Error, ErrorCode, IoKind, WsFailure};
use samsung_artmode::json::{set_member, Json};

fn text<'a>(j: &'a Json, key: &str) -> &'a str {
    j.get(key).and_then(|v| v.as_str()).unwrap()
}

fn object(pairs: Vec<(&str, Json)>) -> Json {
    Json::Object(pairs.into_iter().map(|(k, v)| (k.to_string(), v)).collect())
}

const CHANNEL: &str = "/api/v2/channels/com.samsung.art-app?name=U2Ftc3VuZ0FydENsaQ==";

#[test]
fn plain_host_targets() {
    assert_eq!(ART_APP_ENDPOINT, "com.samsung.art-app");
    assert_eq!(APP_NAME_BASE64, "U2Ftc3VuZ0FydENsaQ==");
    let (url, tls, addr) = parse_connection_target("192.168.1.10", None).unwrap();
    assert_eq!(url, format!("ws://192.168.1.10:8001{CHANNEL}"));
    assert!(!tls);
    assert_eq!(addr, "192.168.1.10:8001");
    let (url, tls, addr) = parse_connection_target("192.168.1.10", Some("abc")).unwrap();
    assert_eq!(url, format!("wss://192.168.1.10:8002{CHANNEL}&token=abc"));
    assert!(tls);
    assert_eq!(addr, "192.168.1.10:8002");
    let (url, tls, addr) = parse_connection_target("tv.local:9000", Some("t")).unwrap();
    assert_eq!(addr, "tv.local:9000");
    assert_eq!(url, format!("wss://tv.local:9000{CHANNEL}&token=t"));
    assert!(tls);
    assert_eq!(host_without_port("tv.local:9000"), "tv.local");
    assert_eq!(host_without_port("tv.local"), "tv.local");
    assert!(str_has_char("a?b", '?'));
    assert!(!str_has_char("ab", '?'));
}

#[test]
fn url_targets() {
    let (url, tls, addr) = parse_connection_target("ws://127.0.0.1:5555", None).unwrap();
    assert_eq!(url, format!("ws://127.0.0.1:5555{CHANNEL}"));
    assert!(!tls);
    assert_eq!(addr, "127.0.0.1:5555");
    let (url, tls, addr) = parse_connection_target("wss://tv.local", Some("k")).unwrap();
    assert_eq!(addr, "tv.local:8002");
    assert!(tls);
    assert_eq!(url, format!("wss://tv.local{CHANNEL}&token=k"));
    let (url, _, addr) = parse_connection_target("ws://tv.local/x?y=1", None).unwrap();
    assert_eq!(url, "ws://tv.local/x?y=1&name=U2Ftc3VuZ0FydENsaQ==");
    assert_eq!(addr, "tv.local:8001");
    let e = parse_connection_target("ws://bad host", None).unwrap_err();
    assert_eq!(e.code, ErrorCode::InvalidInput);
    assert!(e.message.starts_with("Invalid URL: ws://bad host ("));

    let e = connection_target_from_url("ws://x", None, UriAuthority::Missing).unwrap_err();
    assert_eq!(e.message, "Missing host/authority in URL");
    let e = connection_target_from_url("ws://x", None, UriAuthority::Invalid("oops".to_string()))
        .unwrap_err();
    assert_eq!(e.message, "Invalid URL: ws://x (oops)");
    let (url, tls, addr) = connection_target_from_url(
        "wss://x?p=1",
        Some("z"),
        UriAuthority::Present("x".to_string(), Some(7)),
    )
    .unwrap();
    assert_eq!(url, "wss://x?p=1&name=U2Ftc3VuZ0FydENsaQ==&token=z");
    assert!(tls);
    assert_eq!(addr, "x:7");
}

#[test]
fn envelopes_and_replies() {
    let env = envelope("{\"request\":\"get_brightness\"}".to_string());
    assert_eq!(text(&env, "method"), "ms.channel.emit");
    let params = env.get("params").unwrap();
    assert_eq!(text(params, "event"), "art_app_request");
    assert_eq!(text(params, "to"), "host");
    assert_eq!(text(params, "data"), "{\"request\":\"get_brightness\"}");

    let root = object(vec![("data", Json::Str("{\"a\":1}".to_string()))]);
    assert!(matches!(extract_data(root), DataField::Text(ref s) if s == "{\"a\":1}"));
    let root = object(vec![("data", object(vec![("request", Json::Str("x".to_string()))]))]);
    match extract_data(root) {
        DataField::Value(v) => assert_eq!(text(&v, "request"), "x"),
        other => panic!("unexpected {:?}", other),
    }
    assert!(matches!(extract_data(object(vec![])), DataField::Absent));
    assert!(matches!(extract_data(Json::Null), DataField::Absent));

    let wrong = object(vec![
        ("event", Json::Str("ready_to_use".to_string())),
        ("content_id", Json::Str("X".to_string())),
    ]);
    assert_eq!(image_added_id(&wrong), None);
}

#[test]
fn upload_target_defaults_and_errors() {
    let info = object(vec![("ip", Json::Str("1.2.3.4".to_string())), ("port", Json::UInt(70000))]);
    let t = upload_target(&info).unwrap();
    assert_eq!(t.port, 4464);
    assert!(!t.secured);
    assert_eq!(t.sec_key, "");
    let info = object(vec![
        ("ip", Json::Str("1.2.3.4".to_string())),
        ("port", Json::UInt(1)),
        ("secured", Json::Bool(true)),
        ("secKey", Json::Str("sk".to_string())),
    ]);
    let t = upload_target(&info).unwrap();
    assert!(t.secured);
    assert_eq!(t.sec_key, "sk");
    let e = upload_target(&object(vec![("port", Json::UInt(1))])).unwrap_err();
    assert_eq!(e.message, "Missing 'ip' in ready_to_use connection info");
    assert_eq!(e.code, ErrorCode::Network);
    let e = upload_target(&object(vec![("ip", Json::Str("1.2.3.4".to_string()))])).unwrap_err();
    assert_eq!(e.message, "Missing 'port' in ready_to_use connection info");
}

#[test]
fn upload_messages() {
    let p = send_image_payload(
        "jpeg",
        10,
        "id1".to_string(),
        "rid".to_string(),
        None,
        "2024:01:01 00:00:00".to_string(),
        123456,
        "cid".to_string(),
    );
    assert_eq!(text(&p, "request"), "send_image");
    assert_eq!(text(&p, "file_type"), "jpeg");
    assert_eq!(p.get("file_size").unwrap().as_u64(), Some(10));
    assert_eq!(text(&p, "matte_id"), "none");
    assert_eq!(text(&p, "portrait_matte_id"), "none");
    assert_eq!(text(&p, "image_date"), "2024:01:01 00:00:00");
    let ci = p.get("conn_info").unwrap();
    assert_eq!(text(ci, "d2d_mode"), "socket");
    assert_eq!(ci.get("connection_id").unwrap().as_u64(), Some(123456));
    assert_eq!(text(ci, "id"), "cid");

    let h = upload_header(10, "png", "key");
    assert_eq!(h.get("num").unwrap().as_u64(), Some(0));
    assert_eq!(h.get("total").unwrap().as_u64(), Some(1));
    assert_eq!(h.get("fileLength").unwrap().as_u64(), Some(10));
    assert_eq!(text(&h, "fileName"), "upload");
    assert_eq!(text(&h, "fileType"), "png");
    assert_eq!(text(&h, "secKey"), "key");
    assert_eq!(text(&h, "version"), "0.0.1");

    let frame = upload_frame(b"{}", &[1, 2, 3]);
    assert_eq!(frame, vec![0, 0, 0, 2, b'{', b'}', 1, 2, 3]);
    let big = vec![7u8; 300];
    let frame = upload_frame(&big, &[]);
    assert_eq!(&frame[..4], &[0, 0, 1, 44]);
    assert_eq!(frame.len(), 304);
}

#[test]
fn frame_steps() {
    assert!(matches!(frame_step(FrameKind::Text), FrameStep::Deliver));
    assert!(matches!(frame_step(FrameKind::Binary), FrameStep::Deliver));
    assert!(matches!(frame_step(FrameKind::Ping), FrameStep::AnswerPing));
    assert!(matches!(frame_step(FrameKind::Pong), FrameStep::Skip));
    assert!(matches!(frame_step(FrameKind::Raw), FrameStep::Skip));
    match frame_step(FrameKind::Close) {
        FrameStep::Fail(e) => {
            assert_eq!(e.code, ErrorCode::Network);
            assert_eq!(e.message, "WebSocket connection closed by TV.");
        }
        other => panic!("unexpected {:?}", other),
    }
}

#[test]
fn ids_and_dates() {
    assert_eq!(format_request_id(0x1234, 0), "00000000000012345a5a5a5a5a5a5a5a");
    assert_eq!(
        format_request_id(u128::MAX >> 60, 0x5a5a5a5a5a5a5a5a),
        "fffffffffffffffff0000000000000000"
    );
    let id = generate_id();
    assert!(id.len() >= 32);
    assert!(id.chars().all(|c| c.is_ascii_hexdigit() && !c.is_ascii_uppercase()));

    assert_eq!(connection_id(Some(0)), 100_000);
    assert_eq!(connection_id(Some(900_000)), 100_000);
    assert_eq!(connection_id(Some(899_999)), 999_999);
    assert_eq!(connection_id(Some((1u128 << 32) + 5)), 100_005);
    assert_eq!(connection_id(None), 123_456);

    assert_eq!(format_image_date(0), "1970:01:01 00:00:00");
    assert_eq!(format_image_date(951_782_400), "2000:02:29 00:00:00");
    assert_eq!(format_image_date(1_700_000_000), "2023:11:14 22:13:20");
    assert_eq!(format_image_date(-1), "1969:12:31 23:59:59");
    assert_eq!(format_image_date(-62_135_596_800), "0001:01:01 00:00:00");
    assert_eq!(format_image_date(-62_167_219_200), "0000:01:01 00:00:00");
    assert_eq!(format_image_date(-62_198_755_200), "-001:01:01 00:00:00");
    assert_eq!(format_timestamp(0), "1970-01-01T00:00:00Z");
    assert_eq!(format_timestamp(1_700_000_000), "2023-11-14T22:13:20Z");
    assert_eq!(now_timestamp().len(), 20);
    let now = now_image_date();
    assert_eq!(now.len(), 19);
    assert_eq!(&now[4..5], ":");
    assert_eq!(&now[10..11], " ");
}

#[test]
fn error_classes() {
    let e = Error::from_io(IoKind::NotFound, "no such file".to_string());
    assert_eq!(e.code, ErrorCode::InvalidInput);
    assert_eq!(e.to_string(), "no such file");
    for k in [IoKind::ConnectionRefused, IoKind::ConnectionReset, IoKind::TimedOut] {
        assert_eq!(Error::from_io(k, "x".to_string()).code, ErrorCode::Network);
    }
    let e = Error::from_io(IoKind::Other, "disk".to_string());
    assert_eq!(e.code, ErrorCode::Error);
    assert_eq!(e.detail.as_deref(), Some("io"));

    let e = Error::from_ws(WsFailure::Closed("Connection closed normally".to_string()));
    assert_eq!(e.message, "Connection to TV was closed unexpectedly.");
    assert_eq!(e.detail.as_deref(), Some("Connection closed normally"));
    let e = Error::from_ws(WsFailure::Io("reset".to_string()));
    assert_eq!(e.message, "Network I/O error: reset");
    let e = Error::from_ws(WsFailure::Tls("bad cert".to_string()));
    assert_eq!(e.message, "TLS handshake with TV failed: bad cert");
    let e = Error::from_ws(WsFailure::Other("proto".to_string()));
    assert_eq!(e.message, "WebSocket communication error: proto");
    assert_eq!(e.code, ErrorCode::Network);

    let e = connect_error("10.0.0.1:8001", "refused", "10.0.0.1");
    assert_eq!(e.message, "Could not connect to TV at 10.0.0.1:8001: refused");
    assert_eq!(
        e.detail.as_deref(),
        Some("Check that the TV is powered on, connected to the network, and IP is correct. (Underlying error: refused)")
    );
    assert_eq!(e.remediation.as_deref(), Some("samsung-artmode pair 10.0.0.1"));
    let e = handshake_error("ws://x", "403");
    assert_eq!(e.message, "WebSocket handshake with TV failed: 403");
    assert_eq!(e.detail.as_deref(), Some("Handshake failed for ws://x. The TV may have rejected the connection."));
    let e = upload_connect_error("1.2.3.4", 8080, "refused");
    assert_eq!(e.message, "Failed to connect to TV binary upload socket at 1.2.3.4:8080: refused");
    let e = response_timeout("get_brightness");
    assert_eq!(e.message, "Timed out waiting for response to 'get_brightness' from TV.");
    let e = pairing_timeout("10.0.0.1");
    assert_eq!(e.code, ErrorCode::AuthRequired);
    assert_eq!(e.code.exit_code(), 3);
    assert_eq!(e.remediation.as_deref(), Some("samsung-artmode pair 10.0.0.1"));

    let names: Vec<&str> = [
        ErrorCode::Error,
        ErrorCode::Network,
        ErrorCode::AuthRequired,
        ErrorCode::NotFound,
        ErrorCode::RateLimited,
        ErrorCode::InvalidInput,
        ErrorCode::NoAccount,
    ]
    .iter()
    .map(|c| c.name())
    .collect();
    assert_eq!(
        names,
        vec!["error", "network", "auth_required", "not_found", "rate_limited", "invalid_input", "no_account"]
    );
    assert_eq!(Error::not_found("x".to_string()).code.exit_code(), 4);
    assert_eq!(Error::other("x".to_string()).code.exit_code(), 1);
    let e = Error::auth("m".to_string()).detail("d".to_string()).fix("f".to_string());
    assert_eq!(e.code, ErrorCode::AuthRequired);
    assert_eq!(e.detail.as_deref(), Some("d"));
    assert_eq!(e.remediation.as_deref(), Some("f"));
    assert_eq!(Error::no_account("m".to_string()).code.exit_code(), 7);
}

#[test]
fn json_member_setting() {
    let mut m: Vec<(String, Json)> = Vec::new();
    set_member(&mut m, "a".to_string(), Json::UInt(1));
    set_member(&mut m, "b".to_string(), Json::UInt(2));
    set_member(&mut m, "a".to_string(), Json::UInt(3));
    assert_eq!(m.len(), 2);
    assert_eq!(m[0].0, "a");
    assert_eq!(m[0].1.as_u64(), Some(3));
    let j = Json::Object(m);
    assert_eq!(j.get("b").unwrap().as_u64(), Some(2));
    assert!(j.get("c").is_none());
    assert_eq!(j.get_text("a"), None);
}

#[test]
fn waits() {
    assert_eq!(wait_limit_secs(&Awaited::Reply("x".to_string())), 15);
    assert_eq!(wait_limit_secs(&Awaited::UploadReady), 30);
    assert_eq!(wait_limit_secs(&Awaited::ImageAdded), 30);
    assert!(still_waiting(14_999, 15));
    assert!(!still_waiting(15_000, 15));

    let reply = object(vec![("request", Json::Str("get_brightness".to_string())), ("value", Json::UInt(7))]);
    match on_data(&Awaited::Reply("get_brightness".to_string()), reply) {
        Some(Heard::Reply(d)) => assert_eq!(d.get("value").unwrap().as_u64(), Some(7)),
        other => panic!("unexpected {:?}", other),
    }
    let other = object(vec![("request", Json::Str("get_matte_list".to_string()))]);
    assert!(on_data(&Awaited::Reply("get_brightness".to_string()), other).is_none());
    let ready = object(vec![
        ("request", Json::Str("ready_to_use".to_string())),
        ("conn_info", object(vec![("ip", Json::Str("1.2.3.4".to_string()))])),
    ]);
    match on_data(&Awaited::UploadReady, ready) {
        Some(Heard::ConnInfo(c)) => assert_eq!(text(&c, "ip"), "1.2.3.4"),
        other => panic!("unexpected {:?}", other),
    }
    let added = object(vec![
        ("event", Json::Str("image_added".to_string())),
        ("content_id", Json::Str("MY_F0001".to_string())),
    ]);
    assert!(matches!(on_data(&Awaited::ImageAdded, added), Some(Heard::ContentId(ref c)) if c == "MY_F0001"));
    assert_eq!(
        wait_timeout(&Awaited::UploadReady).message,
        "Timed out waiting for upload ready signal from TV."
    );
    assert_eq!(
        wait_timeout(&Awaited::Reply("get_brightness".to_string())).message,
        "Timed out waiting for response to 'get_brightness' from TV."
    );
}
