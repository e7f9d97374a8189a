use yutai_watch::errors::AppError;
use yutai_watch::fingerprint::{detect_new_item, generate_fingerprint};
use yutai_watch::flow::{jitter_secs, record_notified, unzip_pairs, Action, Event, LogLevel, Step};
use yutai_watch::initialize_flow::{initialize_accepts_event, initialize_step, InitializeStage};
use yutai_watch::models::{
    current_time, timestamp_from_clock, DetectHistory, ScrapedItem, ScraperOutput, State, Timestamp, UpdateHistory,
};
use yutai_watch::monitor_flow::{monitor_accepts_event, monitor_step, MonitorStage};
use yutai_watch::prune_flow::{prune_accepts_event, prune_step, PruneStage};

fn at(secs: i64) -> Timestamp {
    Timestamp { secs, nanos: 5, offset_secs: 9 * 3600 }
}

fn item(n: usize) -> ScrapedItem {
    ScrapedItem {
        ticker_symbol: format!("{}", 1000 + n),
        ticker_name: format!("会社{}", n),
        published_at: "2024/05/01".to_string(),
        title: format!("優待{}", n),
        url: format!("https://example.com/{}", n),
    }
}

fn state_with(keys: Vec<String>) -> State {
    State { creat_state_at: at(1), last_update_at: at(2), last_seen_item: ScrapedItem::new(), notified_item_keys: keys }
}

fn notes(step: &Step) -> Vec<(LogLevel, String, String)> {
    step.notes.iter().map(|n| (n.level, n.target.clone(), n.message.clone())).collect()
}

fn monitor(stage: MonitorStage, event: Event) -> (MonitorStage, Step) {
    assert!(monitor_accepts_event(&stage, &event));
    monitor_step(stage, event)
}

fn ok() -> Event {
    Event::Completed(Ok(()))
}

#[test]
fn monitor_run_with_one_new_item() {
    let known = item(1);
    let fresh = item(2);
    let state = state_with(vec![generate_fingerprint(&known)]);
    let (stage, step) = monitor(MonitorStage::Start, Event::Begin);
    assert!(matches!(step.action, Action::LoadState));
    let (stage, step) = monitor(stage, Event::StateLoaded(Ok(Some(state))));
    assert!(matches!(step.action, Action::RunScraper));
    let output = ScraperOutput { fetched_at: at(100), items: vec![known.clone(), fresh.clone()] };
    let (stage, step) = monitor(stage, Event::Scraped(Ok(output)));
    assert!(step.notes.is_empty());
    match &step.action {
        Action::Notify(items) => {
            assert_eq!(items.len(), 1);
            assert_eq!(items[0].title, "優待2");
        }
        other => panic!("unexpected {:?}", other),
    }
    let (stage, step) = monitor(stage, ok());
    match &step.action {
        Action::SaveState(s) => {
            assert_eq!(s.creat_state_at, at(1));
            assert_eq!(s.last_update_at, at(100));
            assert_eq!(s.last_seen_item.title, "優待2");
            assert_eq!(s.notified_item_keys, vec![generate_fingerprint(&known), generate_fingerprint(&fresh)]);
        }
        other => panic!("unexpected {:?}", other),
    }
    let (stage, step) = monitor(stage, ok());
    match &step.action {
        Action::AppendDetectHistory(h) => assert_eq!(*h, DetectHistory { detected_at: at(100), new_items: 1 }),
        other => panic!("unexpected {:?}", other),
    }
    let (stage, step) = monitor(stage, ok());
    match &step.action {
        Action::AppendUpdateHistory(h) => {
            assert_eq!(h.detected_at, at(100));
            assert_eq!(h.ticker_symbol, "1002");
            assert_eq!(h.url, "https://example.com/2");
        }
        other => panic!("unexpected {:?}", other),
    }
    let (stage, step) = monitor(stage, ok());
    assert!(matches!(step.action, Action::Finish));
    let (stage, step) = monitor(stage, ok());
    assert!(matches!(step.action, Action::Return(Ok(()))));
    assert!(matches!(stage, MonitorStage::Done));
}

#[test]
fn monitor_records_every_new_item() {
    let state = state_with(Vec::new());
    let (stage, _) = monitor(MonitorStage::Start, Event::Begin);
    let (stage, _) = monitor(stage, Event::StateLoaded(Ok(Some(state))));
    let output = ScraperOutput { fetched_at: at(7), items: (0..3).map(item).collect() };
    let (mut stage, _) = monitor(stage, Event::Scraped(Ok(output)));
    let mut urls = Vec::new();
    loop {
        let (next, step) = monitor(stage, ok());
        stage = next;
        match step.action {
            Action::AppendUpdateHistory(h) => urls.push(h.url),
            Action::Return(r) => {
                assert!(r.is_ok());
                break;
            }
            _ => {}
        }
    }
    assert_eq!(urls, vec!["https://example.com/0", "https://example.com/1", "https://example.com/2"]);
}

#[test]
fn monitor_with_nothing_new() {
    let it = item(1);
    let state = state_with(vec![generate_fingerprint(&it)]);
    let (stage, _) = monitor(MonitorStage::Start, Event::Begin);
    let (stage, _) = monitor(stage, Event::StateLoaded(Ok(Some(state))));
    let (stage, step) = monitor(stage, Event::Scraped(Ok(ScraperOutput { fetched_at: at(9), items: vec![it] })));
    match &step.action {
        Action::AppendDetectHistory(h) => assert_eq!(*h, DetectHistory { detected_at: at(9), new_items: 0 }),
        other => panic!("unexpected {:?}", other),
    }
    let (stage, step) = monitor(stage, ok());
    assert!(matches!(step.action, Action::Finish));
    let (_, step) = monitor(stage, Event::Completed(Err(AppError::Discord("down".into()))));
    match step.action {
        Action::Return(Err(e)) => assert_eq!(e.message(), "Discord送信エラー: down"),
        other => panic!("unexpected {:?}", other),
    }
}

#[test]
fn monitor_with_empty_scrape_warns() {
    let (stage, _) = monitor(MonitorStage::Start, Event::Begin);
    let (stage, _) = monitor(stage, Event::StateLoaded(Ok(Some(state_with(Vec::new())))));
    let (_, step) = monitor(stage, Event::Scraped(Ok(ScraperOutput { fetched_at: at(9), items: Vec::new() })));
    assert_eq!(
        notes(&step),
        vec![(LogLevel::Warn, "detect_new_item".to_string(), "ScraperOutput.itemsが空".to_string())]
    );
}

#[test]
fn monitor_without_readable_state_initializes_and_fails() {
    let (stage, _) = monitor(MonitorStage::Start, Event::Begin);
    let (stage, step) = monitor(stage, Event::StateLoaded(Err(AppError::Storage("broken".into()))));
    assert!(matches!(step.action, Action::RunInitialize));
    assert_eq!(
        notes(&step),
        vec![
            (LogLevel::Error, "monitor".to_string(), "Stateの取得に失敗".to_string()),
            (LogLevel::Info, "monitor".to_string(), "initialize処理を実行".to_string()),
        ]
    );
    let (_, step) = monitor(stage, ok());
    match step.action {
        Action::Return(Err(AppError::Process(m))) => {
            assert_eq!(m, "Stateの取得に失敗。initフローの実行をしました: ストレージエラー: broken")
        }
        other => panic!("unexpected {:?}", other),
    }
}

#[test]
fn monitor_without_state_initializes_and_fails() {
    let (stage, _) = monitor(MonitorStage::Start, Event::Begin);
    let (stage, _) = monitor(stage, Event::StateLoaded(Ok(None)));
    let (_, step) = monitor(stage, ok());
    match step.action {
        Action::Return(Err(AppError::Process(m))) => assert_eq!(m, "Stateに中身がなかったためinitフローを実行しました"),
        other => panic!("unexpected {:?}", other),
    }
}

#[test]
fn monitor_fails_when_initialize_fails() {
    let (stage, _) = monitor(MonitorStage::Start, Event::Begin);
    let (stage, _) = monitor(stage, Event::StateLoaded(Ok(None)));
    let (_, step) = monitor(stage, Event::Completed(Err(AppError::Config("bad".into()))));
    assert_eq!(notes(&step), vec![(LogLevel::Error, "monitor".to_string(), "initialize処理失敗".to_string())]);
    assert!(matches!(step.action, Action::Return(Err(AppError::Config(_)))));
}

#[test]
fn monitor_scrape_failure_sends_log_then_fails() {
    let (stage, _) = monitor(MonitorStage::Start, Event::Begin);
    let (stage, _) = monitor(stage, Event::StateLoaded(Ok(Some(state_with(Vec::new())))));
    let (stage, step) = monitor(stage, Event::Scraped(Err(AppError::Process("boom".into()))));
    assert!(matches!(step.action, Action::Finish));
    let (_, step) = monitor(stage, ok());
    match step.action {
        Action::Return(Err(AppError::Process(m))) => assert_eq!(m, "Pythonプロセスエラー: boom"),
        other => panic!("unexpected {:?}", other),
    }
}

#[test]
fn monitor_stops_at_a_failed_save() {
    let (stage, _) = monitor(MonitorStage::Start, Event::Begin);
    let (stage, _) = monitor(stage, Event::StateLoaded(Ok(Some(state_with(Vec::new())))));
    let (stage, _) = monitor(stage, Event::Scraped(Ok(ScraperOutput { fetched_at: at(3), items: vec![item(1)] })));
    let (stage, _) = monitor(stage, ok());
    let (stage, step) = monitor(stage, Event::Completed(Err(AppError::Storage("disk".into()))));
    assert_eq!(notes(&step), vec![(LogLevel::Error, "monitor".to_string(), "state.json更新失敗".to_string())]);
    assert!(matches!(step.action, Action::Return(Err(AppError::Storage(_)))));
    assert!(matches!(stage, MonitorStage::Done));
}

#[test]
fn recorded_items_are_not_found_again() {
    let items: Vec<ScrapedItem> = (0..4).map(item).collect();
    let output = ScraperOutput { fetched_at: at(5), items: items.clone() };
    let state = state_with(vec![generate_fingerprint(&items[1])]);
    let found = detect_new_item(&output, &state).unwrap();
    assert_eq!(found.len(), 3);
    let (fps, new) = unzip_pairs(found);
    let next = record_notified(state, at(5), fps, &new);
    assert!(detect_new_item(&output, &next).unwrap().is_empty());
}

#[test]
fn state_keeps_the_newest_two_hundred_keys() {
    let keys: Vec<String> = (0..199).map(|i| format!("k{}", i)).collect();
    let state = state_with(keys);
    let added = vec!["n1".to_string(), "n2".to_string(), "n3".to_string()];
    let next = record_notified(state, at(6), added, &vec![item(8)]);
    assert_eq!(next.notified_item_keys.len(), 200);
    assert_eq!(next.notified_item_keys[0], "k2");
    assert_eq!(next.notified_item_keys[199], "n3");
    assert_eq!(next.last_seen_item.title, "優待8");
    assert_eq!(next.last_update_at, at(6));
    assert_eq!(next.creat_state_at, at(1));
}

#[test]
fn unzip_keeps_order() {
    let (fps, items) = unzip_pairs(vec![("a".to_string(), item(1)), ("b".to_string(), item(2))]);
    assert_eq!(fps, vec!["a", "b"]);
    assert_eq!(items[1].title, "優待2");
}

#[test]
fn jitter_is_within_range() {
    for _ in 0..100 {
        let s = jitter_secs(3, 5);
        assert!((3..=5).contains(&s));
    }
    assert_eq!(jitter_secs(4, 4), 4);
    let samples: Vec<u64> = (0..50).map(|_| jitter_secs(0, 1_000_000)).collect();
    assert!(samples.iter().any(|&s| s != samples[0]));
}

fn initialize(stage: InitializeStage, event: Event) -> (InitializeStage, Step) {
    assert!(initialize_accepts_event(&stage, &event));
    initialize_step(stage, event)
}

#[test]
fn initialize_run() {
    let (stage, step) = initialize(InitializeStage::Start, Event::Begin);
    assert!(matches!(step.action, Action::RemoveDataDir));
    assert_eq!(notes(&step), vec![(LogLevel::Info, "initialize".to_string(), "initialize処理実行開始".to_string())]);
    let (stage, step) = initialize(stage, Event::DirDone(Ok(())));
    assert!(matches!(step.action, Action::CreateDataDir));
    let (stage, step) = initialize(stage, Event::DirDone(Ok(())));
    assert!(matches!(step.action, Action::RunScraper));
    let items: Vec<ScrapedItem> = (0..3).map(item).collect();
    let (stage, step) = initialize(stage, Event::Scraped(Ok(ScraperOutput { fetched_at: at(50), items: items.clone() })));
    match &step.action {
        Action::SaveState(s) => {
            assert_eq!(s.creat_state_at, at(50));
            assert_eq!(s.last_update_at, at(50));
            assert_eq!(s.last_seen_item.title, "優待0");
            let expected: Vec<String> = items.iter().map(generate_fingerprint).collect();
            assert_eq!(s.notified_item_keys, expected);
        }
        other => panic!("unexpected {:?}", other),
    }
    let (stage, step) = initialize(stage, ok());
    match &step.action {
        Action::AppendDetectHistory(h) => assert_eq!(*h, DetectHistory { detected_at: at(50), new_items: 3 }),
        other => panic!("unexpected {:?}", other),
    }
    let (stage, step) = initialize(stage, ok());
    match &step.action {
        Action::AppendUpdateHistory(h) => {
            assert_eq!(h.detected_at, at(50));
            assert_eq!(h.title, "優待2");
        }
        other => panic!("unexpected {:?}", other),
    }
    let (stage, step) = initialize(stage, ok());
    assert!(matches!(step.action, Action::Finish));
    assert_eq!(notes(&step), vec![(LogLevel::Info, "initialize".to_string(), "initialize処理実行完了".to_string())]);
    let (stage, step) = initialize(stage, ok());
    assert!(matches!(step.action, Action::Return(Ok(()))));
    assert!(matches!(stage, InitializeStage::Done));
}

#[test]
fn initialize_keeps_the_newest_two_hundred_keys() {
    let (stage, _) = initialize(InitializeStage::Start, Event::Begin);
    let (stage, _) = initialize(stage, Event::DirDone(Ok(())));
    let (stage, _) = initialize(stage, Event::DirDone(Ok(())));
    let items: Vec<ScrapedItem> = (0..250).map(item).collect();
    let (stage, step) = initialize(stage, Event::Scraped(Ok(ScraperOutput { fetched_at: at(7), items: items.clone() })));
    match &step.action {
        Action::SaveState(s) => {
            let expected: Vec<String> = items[50..].iter().map(generate_fingerprint).collect();
            assert_eq!(s.notified_item_keys.len(), 200);
            assert_eq!(s.notified_item_keys, expected);
            assert_eq!(s.last_seen_item.title, "優待0");
        }
        other => panic!("unexpected {:?}", other),
    }
    let (stage, step) = initialize(stage, ok());
    assert!(matches!(step.action, Action::AppendDetectHistory(DetectHistory { new_items: 250, .. })));
    let (_, step) = initialize(stage, ok());
    match &step.action {
        Action::AppendUpdateHistory(h) => assert_eq!(h.title, "優待249"),
        other => panic!("unexpected {:?}", other),
    }
}

#[test]
fn initialize_with_no_items() {
    let (stage, _) = initialize(InitializeStage::Start, Event::Begin);
    let (stage, _) = initialize(stage, Event::DirDone(Ok(())));
    let (stage, _) = initialize(stage, Event::DirDone(Ok(())));
    let (stage, step) = initialize(stage, Event::Scraped(Ok(ScraperOutput { fetched_at: at(2), items: Vec::new() })));
    match &step.action {
        Action::SaveState(s) => {
            assert!(s.notified_item_keys.is_empty());
            assert_eq!(s.last_seen_item.url, "");
        }
        other => panic!("unexpected {:?}", other),
    }
    let (stage, step) = initialize(stage, ok());
    assert!(matches!(step.action, Action::AppendDetectHistory(DetectHistory { new_items: 0, .. })));
    let (_, step) = initialize(stage, ok());
    match &step.action {
        Action::AppendUpdateHistory(h) => assert_eq!(h.title, ""),
        other => panic!("unexpected {:?}", other),
    }
}

#[test]
fn initialize_fails_when_directory_cannot_be_removed() {
    let (stage, _) = initialize(InitializeStage::Start, Event::Begin);
    let (stage, step) = initialize(stage, Event::DirDone(Err("permission denied".into())));
    assert_eq!(notes(&step), vec![(LogLevel::Error, "initialize".to_string(), "dataフォルダ削除失敗".to_string())]);
    match step.action {
        Action::Return(Err(AppError::Process(m))) => assert_eq!(m, "dataフォルダの削除失敗: permission denied"),
        other => panic!("unexpected {:?}", other),
    }
    assert!(matches!(stage, InitializeStage::Done));
}

#[test]
fn initialize_fails_when_directory_cannot_be_created() {
    let (stage, _) = initialize(InitializeStage::Start, Event::Begin);
    let (stage, _) = initialize(stage, Event::DirDone(Ok(())));
    let (_, step) = initialize(stage, Event::DirDone(Err("read-only".into())));
    match step.action {
        Action::Return(Err(AppError::Process(m))) => assert_eq!(m, "dataフォルダの作成失敗: read-only"),
        other => panic!("unexpected {:?}", other),
    }
}

#[test]
fn initialize_scrape_failure_keeps_the_error() {
    let (stage, _) = initialize(InitializeStage::Start, Event::Begin);
    let (stage, _) = initialize(stage, Event::DirDone(Ok(())));
    let (stage, _) = initialize(stage, Event::DirDone(Ok(())));
    let (stage, step) = initialize(stage, Event::Scraped(Err(AppError::Parse("eof".into()))));
    assert!(matches!(step.action, Action::Finish));
    let (_, step) = initialize(stage, ok());
    assert!(matches!(step.action, Action::Return(Err(AppError::Parse(_)))));
}

#[test]
fn prune_run() {
    let run = |stage: PruneStage, event: Event| {
        assert!(prune_accepts_event(stage, &event));
        prune_step(stage, event)
    };
    let (stage, step) = run(PruneStage::Start, Event::Begin);
    assert!(matches!(step.action, Action::PruneDetectHistory));
    let (stage, step) = run(stage, ok());
    assert!(matches!(step.action, Action::PruneUpdateHistory));
    let (stage, step) = run(stage, ok());
    assert!(matches!(step.action, Action::Finish));
    assert_eq!(notes(&step), vec![(LogLevel::Info, "prune".to_string(), "prune処理実行完了".to_string())]);
    let (stage, step) = run(stage, ok());
    assert!(matches!(step.action, Action::Return(Ok(()))));
    assert_eq!(stage, PruneStage::Done);
    let (_, step) = run(PruneStage::PruningUpdateHistory, Event::Completed(Err(AppError::Storage("x".into()))));
    assert_eq!(notes(&step), vec![(LogLevel::Error, "prune".to_string(), "update_historyの圧縮失敗".to_string())]);
}

#[test]
fn update_history_from_item() {
    let h = UpdateHistory::from_item(at(4), item(3));
    assert_eq!(h.detected_at, at(4));
    assert_eq!(h.ticker_name, "会社3");
    let fresh = UpdateHistory::new();
    assert_eq!(fresh.title, "");
    assert_eq!(fresh.detected_at.offset_secs, 0);
    assert!(fresh.detected_at.secs > 1_600_000_000);
}

#[test]
fn clock_readings_become_utc_timestamps() {
    let utc = |secs: i64, nanos: u32| Timestamp { secs, nanos, offset_secs: 0 };
    assert_eq!(timestamp_from_clock(Ok((5, 7))), utc(5, 7));
    assert_eq!(timestamp_from_clock(Ok((0, 0))), utc(0, 0));
    assert_eq!(timestamp_from_clock(Err((2, 0))), utc(-2, 0));
    assert_eq!(timestamp_from_clock(Err((2, 250_000_000))), utc(-3, 750_000_000));
    assert_eq!(timestamp_from_clock(Ok((u64::MAX, 1))), utc(i64::MAX, 1));
    assert_eq!(timestamp_from_clock(Err((u64::MAX, 1))), utc(i64::MIN, 999_999_999));
    assert_eq!(timestamp_from_clock(Err((1u64 << 63, 0))), utc(i64::MIN, 0));
}

#[test]
fn current_time_is_utc_now() {
    let t = current_time();
    assert_eq!(t.offset_secs, 0);
    assert!(t.nanos < 1_000_000_000);
    assert!(t.secs > 1_600_000_000);
}
