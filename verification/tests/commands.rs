use samsung_artmode::account::{resolve, no_target_error, Config, ResolveStep};
use samsung_artmode::cli::{Accounts, Brightness, Command, Matte};
use samsung_artmode::client::{
    art_request_payload, image_added_id, pairing_token, response_matches, upload_file_type,
    upload_ready_info, upload_target, ArtRequest,
};
use samsung_artmode::commands::art::{
    brightness_set, choose_discovered, delete_report, missing_file_error, pair_account_name,
    pair_host, pair_report, pair_wait_secs, slideshow, upload_report,
};
use samsung_artmode::commands::{run, Action};
use samsung_artmode::discovery::DiscoveredTv;
use samsung_artmode::error::ErrorCode;
use samsung_artmode::json::Json;
use samsung_artmode::readme::{manual_json, rules, API_VERSION, README};

fn text<'a>(j: &'a Json, key: &str) -> &'a str {
    j.get(key).and_then(|v| v.as_str()).unwrap()
}

fn object(pairs: Vec<(&str, Json)>) -> Json {
    Json::Object(pairs.into_iter().map(|(k, v)| (k.to_string(), v)).collect())
}

fn ask(command: Command) -> ArtRequest {
    match run(command, None, Some("10.0.0.9".to_string()), None) {
        Ok(Action::Ask { target, request }) => {
            assert_eq!(target.host.as_deref(), Some("10.0.0.9"));
            assert!(target.account.is_none());
            assert!(target.token.is_none());
            request
        }
        other => panic!("expected a request, got {:?}", other),
    }
}

fn extra_text<'a>(r: &'a ArtRequest, key: &str) -> &'a str {
    r.extra.iter().find(|(k, _)| k == key).and_then(|(_, v)| v.as_str()).unwrap()
}

#[test]
fn agent_readme_markdown_and_json() {
    assert!(README.contains("# samsung-artmode - agent operating manual"));
    assert!(README.contains("Target Device Resolution"));
    assert!(README.contains("    samsung-artmode accounts list"));
    let j = manual_json();
    assert_eq!(text(&j, "tool"), "samsung-artmode");
    assert_eq!(text(&j, "apiVersion"), "1.0.0");
    assert_eq!(API_VERSION, "1.0.0");
    match j.get("rules") {
        Some(Json::Array(items)) => {
            assert_eq!(items.len(), 7);
            assert_eq!(items[5].as_str(), Some("Brightness values must be between 0 and 10."));
        }
        other => panic!("rules is not an array: {:?}", other),
    }
    let codes = j.get("exitCodes").unwrap();
    assert_eq!(text(codes, "0"), "ok");
    assert_eq!(text(codes, "3"), "auth_required - stop, surface the remediation to a human");
    assert_eq!(
        text(codes, "7"),
        "no_account - pass --account or --host, or run samsung-artmode accounts list"
    );
    assert_eq!(rules().len(), 7);
}

#[test]
fn artmode_status_and_list() {
    let r = ask(Command::Status);
    assert_eq!(r.request, "get_artmode_status");
    assert!(r.extra.is_empty());
    let r = ask(Command::List { category: Some("MY-C0002".to_string()) });
    assert_eq!(r.request, "get_content_list");
    assert_eq!(extra_text(&r, "category"), "MY-C0002");
    let r = ask(Command::List { category: None });
    assert!(r.extra.is_empty());

    let reply = object(vec![
        ("request", Json::Str("get_artmode_status".to_string())),
        ("status", Json::Str("on".to_string())),
    ]);
    assert!(response_matches("get_artmode_status", &reply));
    assert!(!response_matches("get_content_list", &reply));
    let event = object(vec![("event", Json::Str("get_content_list".to_string()))]);
    assert!(response_matches("get_content_list", &event));
}

#[test]
fn current_and_select() {
    let r = ask(Command::Current);
    assert_eq!(r.request, "get_current_artwork");
    let r = ask(Command::Select { content_id: "SAM-F002".to_string(), show: true });
    assert_eq!(r.request, "select_image");
    assert_eq!(extra_text(&r, "content_id"), "SAM-F002");
    let show = r.extra.iter().find(|(k, _)| k == "show").unwrap();
    assert_eq!(show.1.as_bool(), Some(true));
}

#[test]
fn brightness_commands() {
    let r = ask(Command::Brightness(Brightness::Get));
    assert_eq!(r.request, "get_brightness");
    let r = ask(Command::Brightness(Brightness::Change { value: 9 }));
    assert_eq!(r.request, "set_brightness");
    assert_eq!(r.extra[0].1.as_u64(), Some(9));
    let err = run(Command::Brightness(Brightness::Change { value: 15 }), None, None, None).unwrap_err();
    assert_eq!(err.code, ErrorCode::InvalidInput);
    assert_eq!(err.code.exit_code(), 6);
    assert_eq!(err.code.name(), "invalid_input");
    assert_eq!(err.message, "Brightness value must be between 0 and 10.");
    assert!(brightness_set(10).is_ok());
    assert!(brightness_set(11).is_err());
    assert!(brightness_set(0).is_ok());
}

#[test]
fn matte_and_favorite_commands() {
    let r = ask(Command::Matte(Matte::List));
    assert_eq!(r.request, "get_matte_list");
    let r = ask(Command::Matte(Matte::Apply {
        content_id: "SAM-F001".to_string(),
        matte_id: "flexible_polar".to_string(),
    }));
    assert_eq!(r.request, "change_matte");
    assert_eq!(extra_text(&r, "content_id"), "SAM-F001");
    assert_eq!(extra_text(&r, "matte_id"), "flexible_polar");
    assert_eq!(extra_text(&r, "portrait_matte_id"), "none");
    let r = ask(Command::Favorite { content_id: "SAM-F001".to_string(), remove: false });
    assert_eq!(r.request, "change_favorite");
    assert_eq!(extra_text(&r, "status"), "on");
    let r = ask(Command::Favorite { content_id: "SAM-F001".to_string(), remove: true });
    assert_eq!(extra_text(&r, "status"), "off");
}

#[test]
fn slideshow_and_delete() {
    let r = ask(Command::Slideshow {
        off: false,
        interval: Some(30),
        category: "MY-C0002".to_string(),
        shuffle: true,
    });
    assert_eq!(r.request, "set_slideshow_status");
    assert_eq!(extra_text(&r, "value"), "30");
    assert_eq!(extra_text(&r, "category_id"), "MY-C0002");
    assert_eq!(extra_text(&r, "type"), "shuffleslideshow");
    let r = slideshow(false, None, "MY-C0004", false);
    assert_eq!(extra_text(&r, "value"), "10");
    assert_eq!(extra_text(&r, "type"), "slideshow");
    let r = slideshow(true, Some(5), "MY-C0002", true);
    assert_eq!(r.extra.len(), 1);
    assert_eq!(extra_text(&r, "value"), "off");

    match run(Command::Delete { content_id: "SAM-F001".to_string() }, None, None, None) {
        Ok(Action::Delete { request, content_id, .. }) => {
            assert_eq!(request.request, "delete_image_list");
            assert_eq!(content_id, "SAM-F001");
            match &request.extra[0].1 {
                Json::Array(items) => assert_eq!(text(&items[0], "content_id"), "SAM-F001"),
                other => panic!("not a list: {:?}", other),
            }
        }
        other => panic!("unexpected {:?}", other),
    }
    let rep = delete_report("SAM-F001");
    assert_eq!(text(&rep, "status"), "ok");
    assert_eq!(text(&rep, "deleted"), "SAM-F001");
}

#[test]
fn upload_image_flow() {
    match run(
        Command::Upload {
            file: "art.jpg".to_string(),
            matte: Some("shadowbox_black".to_string()),
            select: true,
        },
        Some("den".to_string()),
        None,
        None,
    ) {
        Ok(Action::Upload { target, file, matte, select }) => {
            assert_eq!(target.account.as_deref(), Some("den"));
            assert_eq!(file, "art.jpg");
            assert_eq!(matte.as_deref(), Some("shadowbox_black"));
            assert!(select);
        }
        other => panic!("unexpected {:?}", other),
    }
    assert_eq!(upload_file_type("jpg").unwrap(), "jpeg");
    assert_eq!(upload_file_type("JPEG").unwrap(), "jpeg");
    assert_eq!(upload_file_type("Png").unwrap(), "png");
    let e = upload_file_type("GIF").unwrap_err();
    assert_eq!(e.code, ErrorCode::InvalidInput);
    assert_eq!(e.message, "Unsupported image format: 'gif'. Supported formats are PNG and JPEG.");

    let ready = object(vec![
        ("event", Json::Str("ready_to_use".to_string())),
        (
            "conn_info",
            object(vec![
                ("ip", Json::Str("127.0.0.1".to_string())),
                ("port", Json::UInt(40123)),
                ("secured", Json::Bool(false)),
                ("key", Json::Str("mock-sec-key".to_string())),
            ]),
        ),
    ]);
    let info = upload_ready_info(ready).unwrap();
    let t = upload_target(&info).unwrap();
    assert_eq!(t.ip, "127.0.0.1");
    assert_eq!(t.port, 40123);
    assert!(!t.secured);
    assert_eq!(t.sec_key, "mock-sec-key");

    let added = object(vec![
        ("event", Json::Str("image_added".to_string())),
        ("content_id", Json::Str("SAM-UPLOADDONE".to_string())),
    ]);
    assert_eq!(image_added_id(&added).as_deref(), Some("SAM-UPLOADDONE"));
    let rep = upload_report("SAM-UPLOADDONE", true);
    assert_eq!(text(&rep, "status"), "ok");
    assert_eq!(text(&rep, "contentId"), "SAM-UPLOADDONE");
    assert_eq!(rep.get("selected").unwrap().as_bool(), Some(true));
    let e = missing_file_error("/no/such.png");
    assert_eq!(e.message, "File not found: /no/such.png");
    assert_eq!(e.code, ErrorCode::NotFound);
    assert_eq!(e.code.exit_code(), 4);
}

#[test]
fn pair_command_with_mock_tv() {
    let hello = object(vec![
        ("event", Json::Str("ms.channel.connect".to_string())),
        ("data", object(vec![("token", Json::Str("mock-tv-token-12345".to_string()))])),
    ]);
    assert_eq!(pairing_token(&hello).as_deref(), Some("mock-tv-token-12345"));
    let other = object(vec![("event", Json::Str("ms.channel.connect".to_string()))]);
    assert_eq!(pairing_token(&other), None);

    let rep = pair_report("ws://127.0.0.1:1234", "mock-tv-token-12345", Some("living-room"));
    assert_eq!(text(&rep, "status"), "ok");
    assert_eq!(text(&rep, "token"), "mock-tv-token-12345");
    assert_eq!(text(&rep, "account"), "living-room");
    assert_eq!(rep.get("paired").unwrap().as_bool(), Some(true));
    let rep = pair_report("10.0.0.2", "tok", None);
    assert!(rep.get("account").is_none());
    assert_eq!(
        text(&rep, "remediation"),
        "samsung-artmode accounts add living-room --host 10.0.0.2 --token tok"
    );
    assert_eq!(pair_wait_secs(5), 20);
    assert_eq!(pair_wait_secs(45), 45);
    assert_eq!(pair_account_name(Some("  ")), None);
    assert_eq!(pair_account_name(Some("den")).as_deref(), Some("den"));
    assert_eq!(pair_host(Some(" 10.0.0.3 ")).as_deref(), Some("10.0.0.3"));
    assert_eq!(pair_host(Some("   ")), None);
    assert_eq!(pair_host(None), None);
}

#[test]
fn login_is_pairing() {
    match run(
        Command::Login { host: None, name: Some("den".to_string()), timeout: 7 },
        None,
        Some("10.1.1.1".to_string()),
        None,
    ) {
        Ok(Action::Pair { host, name, timeout }) => {
            assert_eq!(host.as_deref(), Some("10.1.1.1"));
            assert_eq!(name.as_deref(), Some("den"));
            assert_eq!(timeout, 7);
        }
        other => panic!("unexpected {:?}", other),
    }
    match run(
        Command::Pair { host: Some("10.2.2.2".to_string()), name: None, timeout: 5 },
        None,
        Some("10.1.1.1".to_string()),
        None,
    ) {
        Ok(Action::Pair { host, .. }) => assert_eq!(host.as_deref(), Some("10.2.2.2")),
        other => panic!("unexpected {:?}", other),
    }
    assert!(matches!(run(Command::AgentReadme, None, None, None), Ok(Action::AgentReadme)));
    assert!(matches!(
        run(Command::Accounts(Accounts::List), None, None, None),
        Ok(Action::AccountsList)
    ));
}

#[test]
fn missing_tv_account_reports_no_account() {
    assert!(matches!(resolve(None, None, None, None, None), ResolveStep::NoTarget));
    let e = no_target_error(&Config::new());
    assert_eq!(e.code, ErrorCode::NoAccount);
    assert_eq!(e.code.exit_code(), 7);
    assert_eq!(e.code.name(), "no_account");
    assert_eq!(e.message, "No TV specified. Pass --account <name> or --host <ip>.");
    assert!(e.detail.as_deref().unwrap().contains("No TV accounts are configured yet"));
    assert_eq!(e.remediation.as_deref(), Some("samsung-artmode accounts list"));
}

#[test]
fn discovered_tv_choice() {
    let e = choose_discovered(&vec![]).unwrap_err();
    assert_eq!(e.code, ErrorCode::Network);
    assert_eq!(e.message, "No Samsung TVs found on the local network.");
    assert_eq!(e.remediation.as_deref(), Some("Specify the IP directly: samsung-artmode pair <ip>"));
    let one = vec![DiscoveredTv { host: "192.168.1.7".to_string(), name: None, model: None }];
    assert_eq!(choose_discovered(&one).unwrap(), "192.168.1.7");
    let two = vec![
        DiscoveredTv { host: "192.168.1.10".to_string(), name: None, model: None },
        DiscoveredTv {
            host: "192.168.1.7".to_string(),
            name: Some("Samsung-Linux".to_string()),
            model: Some("QN55".to_string()),
        },
    ];
    let e = choose_discovered(&two).unwrap_err();
    assert_eq!(e.code, ErrorCode::InvalidInput);
    assert_eq!(e.message, "Multiple Samsung TVs found on the network.");
    assert_eq!(
        e.detail.as_deref(),
        Some("Available TVs: 192.168.1.10 (Samsung TV), 192.168.1.7 (Samsung-Linux)")
    );
    assert_eq!(e.remediation.as_deref(), Some("samsung-artmode pair 192.168.1.10"));
}

#[test]
fn request_payload_members() {
    let r = ask(Command::Brightness(Brightness::Change { value: 3 }));
    let p = art_request_payload(r, "abc".to_string());
    match &p {
        Json::Object(m) => {
            let keys: Vec<&str> = m.iter().map(|(k, _)| k.as_str()).collect();
            assert_eq!(keys, vec!["request", "id", "value"]);
        }
        other => panic!("not an object: {:?}", other),
    }
    assert_eq!(text(&p, "request"), "set_brightness");
    assert_eq!(text(&p, "id"), "abc");
    assert_eq!(p.get("value").unwrap().as_u64(), Some(3));
}
