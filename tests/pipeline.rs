use scanner::backend::ReaderCooldown;
use scanner::card::{get_idm_command, is_blank_idm, parse_idm_response};
use scanner::dedup::{Action, CardState, DedupStore};
use scanner::dispatch::{classify_response, outcome_cue, plan_scan, response_cue, Outcome, ScanPlan, Sound};
use scanner::port::{parse_u32, usb_port_from_location};
use scanner::usb::{
    build_pcsc_to_usb_mapping, find_usb_port_for_product, identify_reader, known_reader_model,
    pair_by_index, reader_type_from_pcsc_name, UsbReaderInfo,
};

fn s(x: &str) -> String {
    x.to_string()
}

#[test]
fn dedup_payment_port_scenario() {
    let mut store = DedupStore::new();
    let x = s("0113ABFF00000001");
    assert_eq!(store.observe(Some(1), &x, 10_000), Action::Notify);
    assert_eq!(store.observe(Some(1), &x, 11_000), Action::SuppressWithSecondarySound);
    // the repeat refreshed the window at 11 s, so 13.5 s is still within it
    assert_eq!(store.observe(Some(1), &x, 13_500), Action::SuppressWithSecondarySound);
    // a different card on the same port is an independent key
    let y = s("0113ABFF00000002");
    assert_eq!(store.observe(Some(1), &y, 14_000), Action::Notify);
    // three seconds after the last refresh the card is fresh again
    assert_eq!(store.observe(Some(1), &x, 16_500), Action::Notify);
}

#[test]
fn dedup_repeated_rearms_window() {
    let mut store = DedupStore::new();
    let x = s("AA");
    assert_eq!(store.observe(Some(2), &x, 0), Action::Notify);
    assert_eq!(store.observe(Some(2), &x, 2_000), Action::SuppressWithSecondarySound);
    assert_eq!(store.lookup(2, &x), Some(CardState::Repeated(2_000)));
    assert_eq!(store.observe(Some(2), &x, 4_999), Action::SuppressWithSecondarySound);
    assert_eq!(store.observe(Some(2), &x, 7_999), Action::Notify);
    assert_eq!(store.lookup(2, &x), Some(CardState::FirstSeen(7_999)));
}

#[test]
fn dedup_window_edge_is_exclusive() {
    let mut store = DedupStore::new();
    let x = s("AB");
    assert_eq!(store.observe(Some(4), &x, 1_000), Action::Notify);
    assert_eq!(store.observe(Some(4), &x, 4_000), Action::Notify);
    assert_eq!(store.observe(Some(4), &x, 6_999), Action::SuppressWithSecondarySound);
}

#[test]
fn dedup_same_card_other_port_is_independent() {
    let mut store = DedupStore::new();
    let x = s("CC");
    assert_eq!(store.observe(Some(1), &x, 0), Action::Notify);
    assert_eq!(store.observe(Some(3), &x, 100), Action::Notify);
    assert_eq!(store.observe(Some(1), &x, 200), Action::SuppressWithSecondarySound);
}

#[test]
fn dedup_non_payment_ports_always_notify() {
    let mut store = DedupStore::new();
    let x = s("DD");
    for t in [0u64, 1, 500, 1_000, 5_000] {
        assert_eq!(store.observe(Some(6), &x, t), Action::Notify);
        assert_eq!(store.observe(Some(5), &x, t), Action::Notify);
        assert_eq!(store.observe(None, &x, t), Action::Notify);
        assert_eq!(store.observe(Some(9), &x, t), Action::Notify);
    }
    assert_eq!(store.lookup(6, &x), None);
}

#[test]
fn dedup_same_instant_notifies_once() {
    let mut store = DedupStore::new();
    let x = s("EE");
    let a = store.observe(Some(3), &x, 42);
    let b = store.observe(Some(3), &x, 42);
    assert_eq!(a, Action::Notify);
    assert_eq!(b, Action::SuppressWithSecondarySound);
}

#[test]
fn dispatch_outcome_cues() {
    assert_eq!(classify_response(Some(200)), Outcome::Accepted);
    assert_eq!(classify_response(Some(400)), Outcome::Duplicate);
    assert_eq!(classify_response(Some(403)), Outcome::Forbidden);
    assert_eq!(classify_response(Some(404)), Outcome::NotFound);
    assert_eq!(classify_response(Some(500)), Outcome::TransportError);
    assert_eq!(classify_response(Some(201)), Outcome::TransportError);
    assert_eq!(classify_response(None), Outcome::TransportError);

    assert_eq!(response_cue(Some(1), Some(200)), Some(Sound::Success));
    assert_eq!(response_cue(Some(2), Some(400)), Some(Sound::Payback));
    assert_eq!(response_cue(Some(6), Some(400)), Some(Sound::Success));
    assert_eq!(response_cue(None, Some(400)), Some(Sound::Success));
    assert_eq!(response_cue(Some(7), Some(403)), Some(Sound::Activate));
    assert_eq!(response_cue(Some(3), Some(404)), Some(Sound::Register));
    assert_eq!(response_cue(Some(4), None), Some(Sound::Error));
    assert_eq!(response_cue(Some(4), Some(502)), Some(Sound::Error));
}

#[test]
fn admin_port_cues_before_dispatch_only() {
    for o in [
        Outcome::Accepted,
        Outcome::Duplicate,
        Outcome::Forbidden,
        Outcome::NotFound,
        Outcome::TransportError,
    ] {
        assert_eq!(outcome_cue(Some(5), o), None);
    }
    let mut store = DedupStore::new();
    let idm = s("0102030405060708");
    let path = Some(s("1-1.3.2"));
    for t in [0u64, 10, 20] {
        match plan_scan(&mut store, &idm, &path, t, s("2026-02-23T09:33:00.033Z")) {
            ScanPlan::Send { cue_before, data } => {
                assert_eq!(cue_before, Some(Sound::Admin));
                assert_eq!(data.usb_port, Some(5));
                assert_eq!(data.idm, "0102030405060708");
                assert_eq!(data.timestamp, "2026-02-23T09:33:00.033Z");
            }
            ScanPlan::Suppress { .. } => panic!("admin reads are never suppressed"),
        }
    }
}

#[test]
fn plan_scan_payment_port_suppresses_repeat() {
    let mut store = DedupStore::new();
    let idm = s("0102030405060708");
    let path = Some(s("1-1.4"));
    match plan_scan(&mut store, &idm, &path, 0, s("t0")) {
        ScanPlan::Send { cue_before, data } => {
            assert_eq!(cue_before, None);
            assert_eq!(data.usb_port, Some(1));
        }
        ScanPlan::Suppress { .. } => panic!("first read must be sent"),
    }
    match plan_scan(&mut store, &idm, &path, 1_000, s("t1")) {
        ScanPlan::Suppress { cue } => assert_eq!(cue, Some(Sound::Again)),
        ScanPlan::Send { .. } => panic!("repeat must be suppressed"),
    }
    match plan_scan(&mut store, &idm, &None, 1_000, s("t2")) {
        ScanPlan::Send { cue_before, data } => {
            assert_eq!(cue_before, None);
            assert_eq!(data.usb_port, None);
        }
        ScanPlan::Suppress { .. } => panic!("unassigned port is never suppressed"),
    }
}

#[test]
fn sound_paths() {
    assert_eq!(Sound::Success.path(), "/usr/local/share/sounds/paypay.mp3");
    assert_eq!(Sound::Again.path(), "/usr/local/share/sounds/again.mp3");
    assert_eq!(Sound::Admin.path(), "/usr/local/share/sounds/admin-2.mp3");
}

#[test]
fn correlation_pairs_by_index() {
    let names = vec![s("Reader A"), s("Reader B")];
    let ports = vec![s("1-1.2"), s("1-1.4")];
    let m = pair_by_index(&names, &ports);
    assert_eq!(m.pairs, vec![(s("Reader A"), s("1-1.2")), (s("Reader B"), s("1-1.4"))]);
    assert!(!m.count_mismatch);

    let names3 = vec![s("A"), s("B"), s("C")];
    let m = pair_by_index(&names3, &ports);
    assert_eq!(m.pairs.len(), 2);
    assert!(m.count_mismatch);
}

fn reader(port: &str, pid: &str, name: &str) -> UsbReaderInfo {
    UsbReaderInfo { usb_port: s(port), product_id: s(pid), reader_name: s(name) }
}

#[test]
fn build_mapping_sorts_and_filters() {
    let readers = vec![
        reader("1-1.4", "0dc9", "RC-S300"),
        reader("1-1.3.2", "01bb", "RC-S320"),
        reader("1-1.2", "0dc9", "RC-S300"),
    ];
    let names = vec![
        s("Sony FeliCa Port/PaSoRi 4.0 (RC-S300) 01 00"),
        s("Other Reader 00 00"),
        s("Sony FeliCa Port/PaSoRi 4.0 (RC-S300) 00 00"),
    ];
    let m = build_pcsc_to_usb_mapping(&names, &readers, "0dc9");
    assert!(!m.count_mismatch);
    assert_eq!(
        m.pairs,
        vec![
            (s("Sony FeliCa Port/PaSoRi 4.0 (RC-S300) 00 00"), s("1-1.2")),
            (s("Sony FeliCa Port/PaSoRi 4.0 (RC-S300) 01 00"), s("1-1.4")),
        ]
    );
    assert_eq!(
        m.port_for_reader("Sony FeliCa Port/PaSoRi 4.0 (RC-S300) 01 00"),
        Some(s("1-1.4"))
    );
    assert_eq!(m.port_for_reader("Other Reader 00 00"), None);
    assert!(!m.needs_rebuild(2));
    assert!(m.needs_rebuild(3));

    let upper = vec![s("Generic 0DC9 reader")];
    let m = build_pcsc_to_usb_mapping(&upper, &readers, "0dc9");
    assert!(m.count_mismatch);
    assert_eq!(m.pairs, vec![(s("Generic 0DC9 reader"), s("1-1.2"))]);

    let m = build_pcsc_to_usb_mapping(&names, &readers, "ffff");
    assert!(m.pairs.is_empty());
    assert!(!m.count_mismatch);
    assert!(m.needs_rebuild(0));
}

#[test]
fn find_port_for_product_takes_first() {
    let readers = vec![
        reader("1-1.3.1", "01bb", "RC-S320"),
        reader("1-1.4", "0dc9", "RC-S300"),
        reader("1-1.2", "01bb", "RC-S320"),
    ];
    assert_eq!(find_usb_port_for_product(&readers, "01bb"), Some(s("1-1.3.1")));
    assert_eq!(find_usb_port_for_product(&readers, "0dc9"), Some(s("1-1.4")));
    assert_eq!(find_usb_port_for_product(&readers, "02e1"), None);
    assert_eq!(find_usb_port_for_product(&Vec::new(), "01bb"), None);
}

#[test]
fn identify_reader_normalises_ids() {
    let info = identify_reader("1-1.4", "054C\n", " 0DC9\n").unwrap();
    assert_eq!(info.usb_port, "1-1.4");
    assert_eq!(info.product_id, "0dc9");
    assert_eq!(info.reader_name, "RC-S300");
    let info = identify_reader("1-1.2", "054c", "01bb").unwrap();
    assert_eq!(info.reader_name, "RC-S320");
    assert!(identify_reader("1-1.2", "054c", "02e1").is_none());
    assert!(identify_reader("1-1.2", "1d6b", "0002").is_none());
    assert_eq!(known_reader_model("054c", "0dc9"), Some("RC-S300"));
    assert_eq!(known_reader_model("054C", "0dc9"), None);
}

#[test]
fn reader_type_from_names() {
    assert_eq!(reader_type_from_pcsc_name("Sony FeliCa Port/PaSoRi RC-S300/P 00 00"), "RC-S300");
    assert_eq!(reader_type_from_pcsc_name("SONY S320 reader"), "RC-S320");
    assert_eq!(reader_type_from_pcsc_name("PaSoRi RC-S330"), "RC-S330");
    assert_eq!(reader_type_from_pcsc_name("ACS ACR122U"), "Unknown");
    assert_eq!(reader_type_from_pcsc_name(""), "Unknown");
}

#[test]
fn location_port_extraction() {
    assert_eq!(usb_port_from_location("Port_#0001.Hub_#0004"), Some(1));
    assert_eq!(usb_port_from_location("x\nPort_#0012.Hub_#0002\nPort_#0003"), Some(12));
    assert_eq!(usb_port_from_location("Hub_#0004"), None);
    assert_eq!(usb_port_from_location("Port_#99999999999.Hub_#0001"), None);
    assert_eq!(parse_u32("+42"), Some(42));
    assert_eq!(parse_u32("4294967295"), Some(4294967295));
    assert_eq!(parse_u32("4294967296"), None);
    assert_eq!(parse_u32(""), None);
    assert_eq!(parse_u32("+"), None);
    assert_eq!(parse_u32("12a"), None);
    assert_eq!(parse_u32("-1"), None);
}

#[test]
fn idm_response_parsing() {
    let ok = [0x01, 0x02, 0xAB, 0xCD, 0x90, 0x00];
    assert_eq!(parse_idm_response(&ok), Some(s("0102ABCD")));
    assert_eq!(parse_idm_response(&[0x01, 0x02, 0x63, 0x00]), None);
    assert_eq!(parse_idm_response(&[0x90, 0x00]), None);
    assert_eq!(parse_idm_response(&[0x01, 0x02, 0x90, 0x00]), Some(s("0102")));
    assert_eq!(get_idm_command(), vec![0xFF, 0xCA, 0x00, 0x00, 0x00]);
    assert!(is_blank_idm(&[0u8; 8]));
    assert!(!is_blank_idm(&[0, 0, 0, 0, 0, 0, 0, 1]));
}

#[test]
fn backend_cooldown_cycle() {
    let mut cd = ReaderCooldown::new();
    let a = s("0102");
    assert!(cd.poll_allowed(0));
    assert!(cd.accept(&a, 0));
    assert!(!cd.poll_allowed(100));
    assert!(!cd.poll_allowed(1_999));
    assert!(cd.poll_allowed(2_000));
    assert!(cd.accept(&a, 2_100));
    assert!(!cd.accept(&a, 2_200));
    assert!(cd.accept(&s("0304"), 2_300));
}
