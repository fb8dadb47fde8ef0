use samsung_artmode::account::{
    account_resolved, describe_accounts, resolve, resolve_account, AccountConfig, Config,
    ResolveStep,
};
use samsung_artmode::commands::accounts::{add, list, remove, removal_prompt, test_report};
use samsung_artmode::error::ErrorCode;
use samsung_artmode::json::Json;

fn text<'a>(j: &'a Json, key: &str) -> &'a str {
    j.get(key).and_then(|v| v.as_str()).unwrap()
}

fn entries(j: &Json) -> &Vec<Json> {
    match j.get("accounts") {
        Some(Json::Array(items)) => items,
        other => panic!("accounts is not an array: {:?}", other),
    }
}

fn account(host: &str, model: &str) -> AccountConfig {
    AccountConfig {
        host: host.to_string(),
        mac: String::new(),
        model: model.to_string(),
        added_at: "2024-05-01T10:00:00Z".to_string(),
    }
}

#[test]
fn accounts_lifecycle() {
    let mut cfg = Config::new();
    assert_eq!(entries(&list(&cfg)).len(), 0);

    let added = add(
        &mut cfg,
        "living-room",
        "192.168.1.50",
        Some("secret-token"),
        None,
        Some("TheFrame-2024"),
        false,
        "2024-05-01T10:00:00Z".to_string(),
    )
    .unwrap();
    assert_eq!(text(&added.report, "status"), "ok");
    assert_eq!(text(&added.report, "account"), "living-room");
    assert_eq!(text(&added.report, "host"), "192.168.1.50");
    assert_eq!(added.report.get("tokenConfigured").unwrap().as_bool(), Some(true));
    assert_eq!(added.store_token.as_deref(), Some("secret-token"));

    let err = add(&mut cfg, "living-room", "192.168.1.50", None, None, None, false, "x".to_string())
        .unwrap_err();
    assert_eq!(err.code, ErrorCode::InvalidInput);
    assert_eq!(err.code.exit_code(), 6);
    assert_eq!(err.code.name(), "invalid_input");
    assert_eq!(err.message, "Account 'living-room' already exists. Pass --force to replace it.");
    assert_eq!(cfg.len(), 1);

    let j = list(&cfg);
    let items = entries(&j);
    assert_eq!(items.len(), 1);
    assert_eq!(text(&items[0], "name"), "living-room");
    assert_eq!(text(&items[0], "host"), "192.168.1.50");
    assert_eq!(text(&items[0], "model"), "TheFrame-2024");
    assert!(matches!(items[0].get("mac"), Some(Json::Null)));
    assert_eq!(text(&items[0], "addedAt"), "2024-05-01T10:00:00Z");

    assert_eq!(
        removal_prompt("living-room", false).as_deref(),
        Some("Are you sure you want to remove TV account 'living-room'? Pass --yes to confirm.")
    );
    assert_eq!(removal_prompt("living-room", true), None);
    let (name, rep) = remove(&mut cfg, "living-room").unwrap();
    assert_eq!(name, "living-room");
    assert_eq!(text(&rep, "status"), "ok");
    assert_eq!(text(&rep, "removed"), "living-room");
    assert_eq!(entries(&list(&cfg)).len(), 0);
    let err = remove(&mut cfg, "living-room").unwrap_err();
    assert_eq!(err.code, ErrorCode::NotFound);
    assert_eq!(err.message, "No TV account named 'living-room'.");
    assert_eq!(err.remediation.as_deref(), Some("samsung-artmode accounts list"));
}

#[test]
fn add_trims_and_force_replaces_in_place() {
    let mut cfg = Config::new();
    add(&mut cfg, "b", " 10.0.0.2 ", Some("  "), Some(" aa:bb "), None, false, "t1".to_string()).unwrap();
    add(&mut cfg, "a", "10.0.0.1", None, None, None, false, "t2".to_string()).unwrap();
    let (_, acct) = cfg.find("b").unwrap();
    assert_eq!(acct.host, "10.0.0.2");
    assert_eq!(acct.mac, "aa:bb");
    assert_eq!(acct.model, "");
    let out = add(&mut cfg, "b", "10.0.0.9", Some(" tok "), None, None, true, "t3".to_string()).unwrap();
    assert_eq!(out.store_token.as_deref(), Some("tok"));
    assert_eq!(cfg.len(), 2);
    // Replaced in its place: "b" is still the first account added.
    let (first, acct) = cfg.entry(0);
    assert_eq!(first, "b");
    assert_eq!(acct.host, "10.0.0.9");
    assert_eq!(acct.added_at, "t3");
    // A blank token is not kept, but the report says one was given.
    let mut cfg2 = Config::new();
    let out = add(&mut cfg2, "c", "h", Some("   "), None, None, false, "t".to_string()).unwrap();
    assert_eq!(out.store_token, None);
    assert_eq!(out.report.get("tokenConfigured").unwrap().as_bool(), Some(true));
    // Listed by name.
    let j = list(&cfg);
    let items = entries(&j);
    assert_eq!(text(&items[0], "name"), "a");
    assert_eq!(text(&items[1], "name"), "b");
    assert!(matches!(items[1].get("mac"), Some(Json::Null)));
    assert_eq!(text(&items[1], "host"), "10.0.0.9");
}

#[test]
fn insert_find_and_remove_law() {
    let mut cfg = Config::new();
    cfg.insert("den".to_string(), account("10.0.0.4", ""));
    cfg.insert("attic".to_string(), account("10.0.0.5", "QN"));
    cfg.insert("den".to_string(), account("10.0.0.6", ""));
    assert_eq!(cfg.len(), 2);
    assert_eq!(cfg.find("den").unwrap().1.host, "10.0.0.6");
    assert_eq!(cfg.find("attic").unwrap().1.host, "10.0.0.5");
    assert_eq!(cfg.position("den"), Some(0));
    assert!(cfg.find("Den").is_none());
    assert!(cfg.shift_remove("den"));
    assert!(cfg.find("den").is_none());
    assert_eq!(cfg.find("attic").unwrap().1.host, "10.0.0.5");
    assert!(!cfg.shift_remove("den"));
    assert_eq!(cfg.len(), 1);
    assert!(!cfg.is_empty());
}

#[test]
fn description_lists_accounts_by_name() {
    let mut cfg = Config::new();
    assert_eq!(
        describe_accounts(&cfg),
        "No TV accounts are configured yet. Run 'samsung-artmode pair' or 'samsung-artmode accounts add <name> --host <ip>'."
    );
    cfg.insert("living-room".to_string(), account("192.168.1.50", "QE55LS03"));
    cfg.insert("bedroom".to_string(), account("192.168.1.51", "  "));
    assert_eq!(
        describe_accounts(&cfg),
        "Configured TV accounts: bedroom (192.168.1.51), living-room (192.168.1.50 - QE55LS03)"
    );
    assert_eq!(cfg.sorted(), vec![1, 0]);
}

#[test]
fn target_resolution_order() {
    // --host wins over --account and the environment.
    match resolve(Some("den"), Some(" 10.0.0.1 "), Some(" tok "), Some("10.9.9.9"), Some("env")) {
        ResolveStep::Resolved(t) => {
            assert_eq!(t.host, "10.0.0.1");
            assert_eq!(t.token.as_deref(), Some("tok"));
            assert!(t.name.is_none());
        }
        other => panic!("unexpected {:?}", other),
    }
    // The environment token is used as it is when no --token is given.
    match resolve(None, Some("10.0.0.1"), Some("  "), None, Some(" env ")) {
        ResolveStep::Resolved(t) => assert_eq!(t.token.as_deref(), Some(" env ")),
        other => panic!("unexpected {:?}", other),
    }
    // Then --account.
    match resolve(Some(" den "), Some("  "), None, Some("10.9.9.9"), None) {
        ResolveStep::Account(a) => assert_eq!(a, "den"),
        other => panic!("unexpected {:?}", other),
    }
    // Then SAMSUNG_TV_HOST.
    match resolve(None, None, None, Some("10.9.9.9"), Some("  ")) {
        ResolveStep::Resolved(t) => {
            assert_eq!(t.host, "10.9.9.9");
            assert!(t.token.is_none());
        }
        other => panic!("unexpected {:?}", other),
    }
    assert!(matches!(resolve(Some(""), None, None, Some(" "), None), ResolveStep::NoTarget));
}

#[test]
fn account_lookup() {
    let mut cfg = Config::new();
    cfg.insert("den".to_string(), account("10.0.0.4", ""));
    let (name, host, tok) = resolve_account(&cfg, "den", Some(" t ")).unwrap();
    assert_eq!(name, "den");
    assert_eq!(host, "10.0.0.4");
    assert_eq!(tok.as_deref(), Some("t"));
    let e = resolve_account(&cfg, "attic", None).unwrap_err();
    assert_eq!(e.code, ErrorCode::NoAccount);
    assert_eq!(e.message, "No TV account named 'attic'.");
    assert_eq!(e.detail.as_deref(), Some("Configured TV accounts: den (10.0.0.4)"));
    let t = account_resolved("den".to_string(), "10.0.0.4".to_string(), None, Some("  ".to_string()));
    assert!(t.token.is_none());
    assert_eq!(t.name.as_deref(), Some("den"));
    let t = account_resolved("den".to_string(), "10.0.0.4".to_string(), None, Some("k".to_string()));
    assert_eq!(t.token.as_deref(), Some("k"));
    // A token given on the command line wins over the stored one.
    let t = account_resolved("den".to_string(), "10.0.0.4".to_string(), Some("g".to_string()), Some("k".to_string()));
    assert_eq!(t.token.as_deref(), Some("g"));
    assert!(samsung_artmode::account::stored_token_needed(&None));
    assert!(!samsung_artmode::account::stored_token_needed(&Some("g".to_string())));

    let (n, h) = samsung_artmode::commands::accounts::test(&cfg, "den").unwrap();
    assert_eq!((n.as_str(), h.as_str()), ("den", "10.0.0.4"));
    let e = samsung_artmode::commands::accounts::test(&cfg, "attic").unwrap_err();
    assert_eq!(e.code, ErrorCode::NotFound);
    let status = Json::Object(vec![("status".to_string(), Json::Str("on".to_string()))]);
    let rep = test_report("den", "10.0.0.4", status);
    assert_eq!(text(&rep, "account"), "den");
    assert_eq!(rep.get("connected").unwrap().as_bool(), Some(true));
    assert_eq!(text(rep.get("tvStatus").unwrap(), "status"), "on");
    let rec = samsung_artmode::account::paired_account("10.0.0.4", "t".to_string());
    assert_eq!((rec.host.as_str(), rec.mac.as_str(), rec.model.as_str(), rec.added_at.as_str()), ("10.0.0.4", "", "", "t"));
}
