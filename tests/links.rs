use jals::links::{code_from_digest, hash_url, LinkManager, LinkManagerResult};

#[test]
fn hash_url_takes_first_four_digest_bytes() {
    assert_eq!(hash_url("hello"), "2cf24dba");
    assert_eq!(hash_url("https://example.com"), "100680ad");
    assert_eq!(hash_url("https://example.com").len(), 8);
}

#[test]
fn code_from_digest_writes_lower_hex() {
    assert_eq!(code_from_digest(&[0xde, 0xad, 0xbe, 0xef, 0x01]), "deadbeef");
    assert_eq!(code_from_digest(&[0x00, 0x0a, 0xf0, 0x7f]), "000af07f");
}

#[test]
fn new_link_returns_short_code() {
    let mut m = LinkManager::new();
    match m.new_link("https://example.com") {
        LinkManagerResult::String(code) => assert_eq!(code, "100680ad"),
        _ => panic!("expected a short code"),
    }
}

#[test]
fn new_link_twice_reports_update() {
    let mut m = LinkManager::new();
    m.new_link("https://example.com");
    match m.new_link("https://example.com") {
        LinkManagerResult::Error(e) => assert_eq!(e, "INSERT_UPDATED"),
        _ => panic!("expected INSERT_UPDATED"),
    }
    assert_eq!(m.list().len(), 1);
}

#[test]
fn get_link_finds_stored_record() {
    let mut m = LinkManager::new();
    m.new_link("https://www.rust-lang.org");
    match m.get_link("24c164df") {
        LinkManagerResult::Link(l) => {
            assert!(l.active);
            assert_eq!(l.url, "https://www.rust-lang.org");
            assert_eq!(l.short_url, "24c164df");
            assert_eq!(l.view_count, 0);
        }
        _ => panic!("expected a record"),
    }
}

#[test]
fn get_link_reports_missing_code() {
    let m = LinkManager::new();
    match m.get_link("deadbeef") {
        LinkManagerResult::Error(e) => assert_eq!(e, "NOT_FOUND"),
        _ => panic!("expected NOT_FOUND"),
    }
}

#[test]
fn list_keeps_insertion_order() {
    let mut m = LinkManager::new();
    m.new_link("hello");
    m.new_link("https://example.com");
    m.new_link("hello");
    let all = m.list();
    assert_eq!(all.len(), 2);
    assert_eq!(all[0].short_url, "2cf24dba");
    assert_eq!(all[0].url, "hello");
    assert_eq!(all[1].short_url, "100680ad");
}
