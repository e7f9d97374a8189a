use sha2::{Digest, Sha256};
use yutai_watch::fingerprint::{detect_new_item, generate_fingerprint, source_text, to_hex_lower};
use yutai_watch::models::{ScrapedItem, ScraperOutput, State, Timestamp};

fn item(title: &str) -> ScrapedItem {
    ScrapedItem {
        ticker_symbol: "7203".to_string(),
        ticker_name: "トヨタ自動車".to_string(),
        published_at: "2024-05-01".to_string(),
        title: title.to_string(),
        url: "https://example.com/a".to_string(),
    }
}

fn at(secs: i64) -> Timestamp {
    Timestamp { secs, nanos: 0, offset_secs: 9 * 3600 }
}

fn state_with(keys: Vec<String>) -> State {
    State { creat_state_at: at(0), last_update_at: at(0), last_seen_item: ScrapedItem::new(), notified_item_keys: keys }
}

#[test]
fn hex_is_lower_case_two_digits_per_byte() {
    assert_eq!(to_hex_lower(&[0x00, 0xff, 0x1a, 0x09]), "00ff1a09");
    assert_eq!(to_hex_lower(&[]), "");
}

#[test]
fn source_text_joins_fields_with_bars() {
    assert_eq!(source_text(&item("t")), "https://example.com/a|2024-05-01|7203|t");
}

#[test]
fn fingerprint_of_empty_item() {
    assert_eq!(
        generate_fingerprint(&ScrapedItem::new()),
        "be5be69f55e91af25e54ecc2154d4da359b67b3b27e25f5cc0b3ff54eb74dff3"
    );
}

#[test]
fn fingerprint_hashes_the_utf8_bytes() {
    let it = item("株主優待制度の新設に関するお知らせ");
    let fp = generate_fingerprint(&it);
    assert_eq!(fp, "45fd2387a97f4cb930536ed4c90e57f85720c1b25cf0b4f3ed599c96f4606562");
    let direct = format!("{:x}", Sha256::digest(source_text(&it).as_bytes()));
    assert_eq!(fp, direct);
    assert_eq!(fp.len(), 64);
}

#[test]
fn known_items_are_skipped() {
    let a = item("a");
    let b = item("b");
    let output = ScraperOutput { fetched_at: at(10), items: vec![a.clone(), b.clone()] };
    let state = state_with(vec!["other".to_string(), generate_fingerprint(&a)]);
    let found = detect_new_item(&output, &state).unwrap();
    assert_eq!(found.len(), 1);
    assert_eq!(found[0].0, generate_fingerprint(&b));
    assert_eq!(found[0].1.title, "b");
}

#[test]
fn everything_is_new_against_an_empty_state() {
    let output = ScraperOutput { fetched_at: at(10), items: vec![item("a"), item("b"), item("a")] };
    let found = detect_new_item(&output, &state_with(Vec::new())).unwrap();
    let titles: Vec<&str> = found.iter().map(|p| p.1.title.as_str()).collect();
    assert_eq!(titles, vec!["a", "b", "a"]);
}

#[test]
fn empty_output_finds_nothing() {
    let output = ScraperOutput { fetched_at: at(10), items: Vec::new() };
    assert!(detect_new_item(&output, &state_with(Vec::new())).unwrap().is_empty());
}

#[test]
fn more_known_fingerprints_find_no_more_items() {
    let items = vec![item("a"), item("b"), item("c"), item("d")];
    let output = ScraperOutput { fetched_at: at(1), items: items.clone() };
    let fa = generate_fingerprint(&items[0]);
    let fc = generate_fingerprint(&items[2]);
    let fewer = detect_new_item(&output, &state_with(vec![fa.clone()])).unwrap();
    let more = detect_new_item(&output, &state_with(vec![fc.clone(), fa.clone()])).unwrap();
    let fewer_titles: Vec<&str> = fewer.iter().map(|(_, i)| i.title.as_str()).collect();
    let more_titles: Vec<&str> = more.iter().map(|(_, i)| i.title.as_str()).collect();
    assert_eq!(fewer_titles, vec!["b", "c", "d"]);
    assert_eq!(more_titles, vec!["b", "d"]);
    let kept: Vec<(String, String)> =
        fewer.iter().filter(|(f, _)| *f != fc && *f != fa).map(|(f, i)| (f.clone(), i.title.clone())).collect();
    let got: Vec<(String, String)> = more.iter().map(|(f, i)| (f.clone(), i.title.clone())).collect();
    assert_eq!(got, kept);
}
