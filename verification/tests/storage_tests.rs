use yutai_watch::constants::{DETECT_HISTORY_LIMIT, NOTIFIED_KEYS_LIMIT, UPDATE_HISTORY_LIMIT};
use yutai_watch::storage::prune_text;

#[test]
fn short_file_is_left_alone() {
    assert!(prune_text("a\nb\nc\n", 3).is_none());
    assert!(prune_text("", 0).is_none());
}

#[test]
fn oldest_records_go() {
    let p = prune_text("a\nb\nc\n", 2).unwrap();
    assert_eq!(p.pruned_count, 1);
    assert_eq!(p.content, "b\nc\n");
}

#[test]
fn crlf_and_missing_final_newline() {
    let p = prune_text("a\r\nb\r\nc", 1).unwrap();
    assert_eq!(p.pruned_count, 2);
    assert_eq!(p.content, "c\n");
}

#[test]
fn limit_zero_empties_the_file() {
    let p = prune_text("{\"x\":1}\n{\"x\":2}\n", 0).unwrap();
    assert_eq!(p.pruned_count, 2);
    assert_eq!(p.content, "");
}

#[test]
fn pruning_twice_changes_nothing_more() {
    let text: String = (0..15).map(|i| format!("{{\"n\":{}}}\n", i)).collect();
    let p = prune_text(&text, 10).unwrap();
    assert_eq!(p.pruned_count, 5);
    assert_eq!(p.content.lines().count(), 10);
    assert!(p.content.starts_with("{\"n\":5}\n"));
    assert!(prune_text(&p.content, 10).is_none());
}

#[test]
fn limits_of_the_files() {
    assert_eq!(DETECT_HISTORY_LIMIT, 10000);
    assert_eq!(UPDATE_HISTORY_LIMIT, 1000);
    assert_eq!(NOTIFIED_KEYS_LIMIT, 200);
}
