use yutai_watch::discord::{
    build_embed, build_embeds, embed_payloads, log_payload, log_payloads, notify_payloads, EMBED_COLOR,
};
use yutai_watch::logger::{init, log};
use yutai_watch::models::ScrapedItem;

fn item(n: usize) -> ScrapedItem {
    ScrapedItem {
        ticker_symbol: format!("{}", 1000 + n),
        ticker_name: format!("会社{}", n),
        published_at: "2024/05/01".to_string(),
        title: format!("優待新設{}", n),
        url: format!("https://example.com/{}", n),
    }
}

#[test]
fn embed_of_an_item() {
    let e = build_embed(&item(1));
    assert_eq!(e.title, "会社1(1001)");
    assert_eq!(e.description, "タイトル：優待新設1\nURL：https://example.com/1");
    assert_eq!(e.url, None);
    assert_eq!(e.color, Some(0x87CEEB));
    assert_eq!(EMBED_COLOR, 0x87CEEB);
    assert!(e.fields.is_empty());
    assert_eq!(e.footer.unwrap().text, "公開日：2024/05/01");
    assert_eq!(e.timestamp, None);
}

#[test]
fn embeds_keep_item_order() {
    let items: Vec<ScrapedItem> = (0..3).map(item).collect();
    let embeds = build_embeds(&items);
    let titles: Vec<&str> = embeds.iter().map(|e| e.title.as_str()).collect();
    assert_eq!(titles, vec!["会社0(1000)", "会社1(1001)", "会社2(1002)"]);
}

#[test]
fn payloads_hold_at_most_ten_embeds() {
    let items: Vec<ScrapedItem> = (0..25).map(item).collect();
    let payloads = embed_payloads(build_embeds(&items));
    let sizes: Vec<usize> = payloads.iter().map(|p| p.embeds.len()).collect();
    assert_eq!(sizes, vec![10, 10, 5]);
    assert!(payloads.iter().all(|p| p.content.is_none()));
    let titles: Vec<String> = payloads.iter().flat_map(|p| p.embeds.iter().map(|e| e.title.clone())).collect();
    let expected: Vec<String> = (0..25).map(|n| format!("会社{}({})", n, 1000 + n)).collect();
    assert_eq!(titles, expected);
}

#[test]
fn exactly_ten_embeds_make_one_payload() {
    let items: Vec<ScrapedItem> = (0..10).map(item).collect();
    assert_eq!(embed_payloads(build_embeds(&items)).len(), 1);
}

#[test]
fn no_items_no_payloads() {
    assert!(notify_payloads(&Vec::new()).is_empty());
}

#[test]
fn notify_payloads_carry_the_items() {
    let items: Vec<ScrapedItem> = (0..11).map(item).collect();
    let payloads = notify_payloads(&items);
    assert_eq!(payloads.len(), 2);
    assert_eq!(payloads[1].embeds.len(), 1);
    assert_eq!(payloads[1].embeds[0].title, "会社10(1010)");
}

#[test]
fn log_payload_is_a_code_block() {
    let p = log_payload("line\n");
    assert_eq!(p.content.as_deref(), Some("```\nline\n\n```"));
    assert!(p.embeds.is_empty());
}

#[test]
fn log_payloads_keep_to_the_content_limit() {
    let mut buffer = init();
    log(&mut buffer, &"x".repeat(1000));
    log(&mut buffer, &"y".repeat(998));
    let payloads = log_payloads(&buffer);
    assert_eq!(payloads.len(), 2);
    let first = format!("```\n{}\n\n```", "x".repeat(1000));
    let second = format!("```\n{}\n\n```", "y".repeat(998));
    assert_eq!(payloads[0].content.as_deref(), Some(first.as_str()));
    assert_eq!(payloads[1].content.as_deref(), Some(second.as_str()));
    for p in &payloads {
        assert!(p.content.as_ref().unwrap().chars().count() <= 2000);
        assert!(p.embeds.is_empty());
    }
}

#[test]
fn an_empty_log_gives_no_payloads() {
    assert!(log_payloads(&init()).is_empty());
}
