use samsung_artmode::discovery::{
    can_read_header, can_record, extract_header, read_header, extract_model, is_samsung_tv, record_response, take_answer,
    DiscoveredTv, M_SEARCH_ALL, M_SEARCH_SAMSUNG, SSDP_MULTICAST,
};

const ANSWER: &str = "HTTP/1.1 200 OK\r\nCACHE-CONTROL: max-age=1800\r\nLOCATION: http://192.168.1.100:9197/dmr/SamsungMRDesc.xml\r\nSERVER: SHP, UPnP/1.0, Samsung UPnP SDK/1.0\r\nST: urn:samsung.com:device:RemoteControlReceiver:1\r\nUSN: uuid:1234::urn:samsung.com:device:RemoteControlReceiver:1\r\n\r\n";

#[test]
fn probes() {
    assert_eq!(SSDP_MULTICAST, "239.255.255.250:1900");
    assert!(M_SEARCH_SAMSUNG.starts_with("M-SEARCH * HTTP/1.1\r\nHOST: 239.255.255.250:1900\r\n"));
    assert!(M_SEARCH_SAMSUNG.contains("MAN: \"ssdp:discover\"\r\n"));
    assert!(M_SEARCH_SAMSUNG.ends_with("ST: urn:samsung.com:device:RemoteControlReceiver:1\r\n\r\n"));
    assert!(M_SEARCH_ALL.ends_with("ST: ssdp:all\r\n\r\n"));
}

#[test]
fn samsung_answers() {
    assert!(is_samsung_tv(ANSWER));
    assert!(is_samsung_tv("SERVER: SEC_HHP_[TV] The Frame"));
    assert!(is_samsung_tv("ST: urn:x:RemoteControlReceiver"));
    assert!(!is_samsung_tv("HTTP/1.1 200 OK\r\nSERVER: Linux UPnP/1.0 Sonos/70\r\n"));
}

#[test]
fn headers_and_model() {
    assert!(can_read_header(ANSWER, "SERVER"));
    assert_eq!(
        extract_header(ANSWER, "SERVER").as_deref(),
        Some("SHP, UPnP/1.0, Samsung UPnP SDK/1.0")
    );
    assert_eq!(extract_header(ANSWER, "server").as_deref(), Some("SHP, UPnP/1.0, Samsung UPnP SDK/1.0"));
    assert_eq!(extract_header("  location:   x  \nA: b", "LOCATION").as_deref(), Some("x"));
    assert_eq!(extract_header("LOCATION:   \nLOCATION: y", "LOCATION").as_deref(), Some("y"));
    assert_eq!(extract_header(ANSWER, "X-MISSING"), None);
    assert_eq!(extract_model(ANSWER).as_deref(), Some("SamsungMRDesc"));
    assert_eq!(extract_model("LOCATION: http://h/Frame/desc.xml").as_deref(), Some("desc"));
    assert_eq!(extract_model("LOCATION: http://h/desc.json"), None);
    assert_eq!(extract_model("LOCATION: http://h/.xml"), None);
    assert_eq!(extract_model("SERVER: x"), None);
    // Lower-casing the line can move where the header name ends: such a line cannot be cut.
    assert!(!can_read_header("\u{212A}: v", "k"));
    assert!(can_read_header("\u{212A}: v", "x"));
    assert_eq!(read_header("\u{212A}: v", "k"), None);
    assert_eq!(read_header("\u{212A}: v", "x"), Some(None));
    assert_eq!(read_header(ANSWER, "USN"), Some(Some("uuid:1234::urn:samsung.com:device:RemoteControlReceiver:1".to_string())));
}

#[test]
fn first_answer_per_host_and_host_order() {
    let mut tvs: Vec<DiscoveredTv> = Vec::new();
    assert!(can_record(&tvs, "192.168.1.3", ANSWER));
    record_response(&mut tvs, "192.168.1.3".to_string(), ANSWER);
    record_response(&mut tvs, "192.168.1.20".to_string(), "SERVER: Samsung TV Two\r\n");
    record_response(&mut tvs, "192.168.1.3".to_string(), "SERVER: Samsung Again\r\n");
    record_response(&mut tvs, "192.168.1.9".to_string(), "SERVER: Sonos\r\n");
    record_response(&mut tvs, "10.0.0.1".to_string(), "USN: uuid:samsung-1\r\n");
    let hosts: Vec<&str> = tvs.iter().map(|t| t.host.as_str()).collect();
    assert_eq!(hosts, vec!["10.0.0.1", "192.168.1.20", "192.168.1.3"]);
    assert_eq!(tvs[2].name.as_deref(), Some("SHP, UPnP/1.0, Samsung UPnP SDK/1.0"));
    assert_eq!(tvs[2].model.as_deref(), Some("SamsungMRDesc"));
    assert_eq!(tvs[1].name.as_deref(), Some("Samsung TV Two"));
    assert_eq!(tvs[1].model, None);
    assert_eq!(tvs[0].name.as_deref(), Some("uuid:samsung-1"));
    let before = tvs.len();
    assert!(take_answer(&mut tvs, "10.0.0.8".to_string(), "Sonos\n"));
    assert_eq!(tvs.len(), before);
    assert!(take_answer(&mut tvs, "10.0.0.8".to_string(), "Samsung\nSERVER: S\n"));
    assert_eq!(tvs.len(), before + 1);
}
