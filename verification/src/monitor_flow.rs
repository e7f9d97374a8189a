use vstd::prelude::*;

use crate::constants::NOTIFIED_KEYS_LIMIT;
use crate::errors::{AppError, ErrorKind, error_message};
use crate::fingerprint::{detect_new_item, lemma_recorded_items_are_not_new_again, new_items};
use crate::flow::{Action, Event, LogLevel, Step, keep_newest, note_views, quiet, record_notified, unzip_pairs, with_note};
use crate::models::{
    DetectHistory, ItemView, ScrapedItem, State, StateView, Timestamp, UpdateHistory,
    UpdateHistoryView, item_views, string_views,
};

verus! {

broadcast use vstd::seq_lib::group_seq_properties;

/// Where a monitoring run stands: which outside work it waits for, and what it
/// holds until then.
#[derive(Debug)]
pub enum MonitorStage {
    /// Nothing has happened yet.
    Start,
    /// Waiting for the state file.
    LoadingState,
    /// Waiting for the first-run flow; afterwards the run fails with `failure`.
    Initializing { failure: AppError },
    /// Waiting for the scraper, with the loaded state.
    Scraping { state: State },
    /// Waiting for the log to be sent; afterwards the run fails with `error`.
    FinishingWithError { error: AppError },
    /// Waiting for the record that nothing was new.
    RecordingNoNews,
    /// Waiting for the notification of `items`.
    Notifying { state: State, fetched_at: Timestamp, fingerprints: Vec<String>, items: Vec<ScrapedItem> },
    /// Waiting for the new state to be written.
    SavingState { fetched_at: Timestamp, items: Vec<ScrapedItem> },
    /// Waiting for the record of how many items were new.
    RecordingDetection { fetched_at: Timestamp, items: Vec<ScrapedItem> },
    /// Waiting for the record of item `next`.
    RecordingUpdates { fetched_at: Timestamp, items: Vec<ScrapedItem>, next: usize },
    /// Waiting for the log to be sent; afterwards the run ends with that result.
    Finishing,
    /// The run is over.
    Done,
}

/// The stage holds what its later steps need: items to notify of, one
/// fingerprint per item, and a next record within the items.
pub open spec fn monitor_stage_ok(stage: MonitorStage) -> bool {
    match stage {
        MonitorStage::Notifying { fingerprints, items, .. } => items@.len() > 0
            && fingerprints@.len() == items@.len(),
        MonitorStage::SavingState { items, .. } => items@.len() > 0,
        MonitorStage::RecordingDetection { items, .. } => items@.len() > 0,
        MonitorStage::RecordingUpdates { items, next, .. } => next < items@.len(),
        _ => true,
    }
}

/// The event answers the work that the stage waits for.
pub open spec fn monitor_accepts(stage: MonitorStage, event: Event) -> bool {
    match stage {
        MonitorStage::Start => event is Begin,
        MonitorStage::LoadingState => event is StateLoaded,
        MonitorStage::Scraping { .. } => event is Scraped,
        MonitorStage::Done => false,
        _ => event is Completed,
    }
}

/// Whether `event` answers the work that `stage` waits for.
pub fn monitor_accepts_event(stage: &MonitorStage, event: &Event) -> (ok: bool)
    ensures
        ok == monitor_accepts(*stage, *event),
{
    match stage {
        MonitorStage::Start => matches!(event, Event::Begin),
        MonitorStage::LoadingState => matches!(event, Event::StateLoaded(_)),
        MonitorStage::Scraping { .. } => matches!(event, Event::Scraped(_)),
        MonitorStage::Done => false,
        _ => matches!(event, Event::Completed(_)),
    }
}

/// The error that a run returns after it ran the first-run flow because the
/// state could not be read.
pub open spec fn load_failure(e: (ErrorKind, Seq<char>)) -> (ErrorKind, Seq<char>) {
    (ErrorKind::Process, "Stateの取得に失敗。initフローの実行をしました: "@ + error_message(e))
}

/// The error that a run returns after it ran the first-run flow because there
/// was no state.
pub open spec fn missing_state_failure() -> (ErrorKind, Seq<char>) {
    (ErrorKind::Process, "Stateに中身がなかったためinitフローを実行しました"@)
}

/// The note of a failed step of a monitoring run.
pub open spec fn monitor_error(message: Seq<char>) -> Seq<(LogLevel, Seq<char>, Seq<char>)> {
    seq![(LogLevel::Error, "monitor"@, message)]
}

/// The fingerprints of found pairs.
pub open spec fn found_keys(found: Seq<(Seq<char>, ItemView)>) -> Seq<Seq<char>> {
    found.map_values(|p: (Seq<char>, ItemView)| p.0)
}

/// The items of found pairs.
pub open spec fn found_items(found: Seq<(Seq<char>, ItemView)>) -> Seq<ItemView> {
    found.map_values(|p: (Seq<char>, ItemView)| p.1)
}

/// The action ends the run with an error whose view is `e`.
pub open spec fn returns_err(action: Action, e: (ErrorKind, Seq<char>)) -> bool {
    action matches Action::Return(Err(x)) && x@ == e
}

/// The step that a monitoring run takes from `stage` on `event`: the stage it
/// goes to, the notes to log, and the action to perform.
///
/// The run reads the state; if that fails, or there is none, it runs the first
/// run and fails. Otherwise it scrapes, and on failure sends the log and fails.
/// If no scraped item is new, it records that and sends the log. Otherwise it
/// notifies of the new items, writes the state with their fingerprints, records
/// how many were new and each new item, and sends the log. A failed step ends the
/// run with its error, after a note.
pub fn monitor_step(stage: MonitorStage, event: Event) -> (result: (MonitorStage, Step))
    requires
        monitor_stage_ok(stage),
        monitor_accepts(stage, event),
    ensures
        monitor_stage_ok(result.0),
        ({
            let (next, step) = result;
            match stage {
                MonitorStage::Start => next is LoadingState && step.action is LoadState
                    && step.notes@.len() == 0,
                MonitorStage::LoadingState => match event {
                    Event::StateLoaded(Err(e)) => next matches MonitorStage::Initializing { failure }
                        && failure@ == load_failure(e@)
                        && step.action is RunInitialize
                        && note_views(step.notes@) == seq![
                            (LogLevel::Error, "monitor"@, "Stateの取得に失敗"@),
                            (LogLevel::Info, "monitor"@, "initialize処理を実行"@),
                        ],
                    Event::StateLoaded(Ok(None)) => next matches MonitorStage::Initializing { failure }
                        && failure@ == missing_state_failure()
                        && step.action is RunInitialize
                        && note_views(step.notes@) == seq![
                            (LogLevel::Error, "monitor"@, "Stateに値が存在しません"@),
                            (LogLevel::Info, "monitor"@, "initialize処理を実行"@),
                        ],
                    Event::StateLoaded(Ok(Some(s))) => next matches MonitorStage::Scraping { state }
                        && state@ == s@ && step.action is RunScraper && step.notes@.len() == 0,
                    _ => false,
                },
                MonitorStage::Initializing { failure } => next is Done && match event {
                    Event::Completed(Err(e)) => returns_err(step.action, e@) && note_views(step.notes@) == monitor_error("initialize処理失敗"@),
                    _ => returns_err(step.action, failure@)
                        && step.notes@.len() == 0,
                },
                MonitorStage::Scraping { state } => match event {
                    Event::Scraped(Err(e)) => next matches MonitorStage::FinishingWithError { error }
                        && error@ == (ErrorKind::Process, error_message(e@))
                        && step.action is Finish
                        && note_views(step.notes@) == monitor_error("スクレイピング失敗"@),
                    Event::Scraped(Ok(output)) => {
                        let found = new_items(item_views(output.items@), state@.notified_item_keys);
                        &&& if output.items@.len() == 0 {
                            note_views(step.notes@) == seq![
                                (LogLevel::Warn, "detect_new_item"@, "ScraperOutput.itemsが空"@),
                            ]
                        } else {
                            step.notes@.len() == 0
                        }
                        &&& if found.len() == 0 {
                            &&& next is RecordingNoNews
                            &&& step.action == Action::AppendDetectHistory(
                                DetectHistory { detected_at: output.fetched_at, new_items: 0 },
                            )
                        } else {
                            &&& next matches MonitorStage::Notifying { state: s, fetched_at, fingerprints, items }
                                && s@ == state@ && fetched_at == output.fetched_at
                                && string_views(fingerprints@) == found_keys(found)
                                && item_views(items@) == found_items(found)
                            &&& step.action matches Action::Notify(v) && item_views(v@) == found_items(found)
                        }
                    },
                    _ => false,
                },
                MonitorStage::FinishingWithError { error } => next is Done && match event {
                    Event::Completed(Err(e)) => returns_err(step.action, e@),
                    _ => returns_err(step.action, error@),
                } && step.notes@.len() == 0,
                MonitorStage::RecordingNoNews => match event {
                    Event::Completed(Err(e)) => next is Done
                        && returns_err(step.action, e@)
                        && note_views(step.notes@) == monitor_error("detect_historyの更新失敗"@),
                    _ => next is Finishing && step.action is Finish && step.notes@.len() == 0,
                },
                MonitorStage::Notifying { state, fetched_at, fingerprints, items } => match event {
                    Event::Completed(Err(e)) => next is Done
                        && returns_err(step.action, e@)
                        && note_views(step.notes@) == monitor_error("discordに送信失敗"@),
                    _ => {
                        &&& next matches MonitorStage::SavingState { fetched_at: t, items: v }
                            && t == fetched_at && item_views(v@) == item_views(items@)
                        &&& step.action matches Action::SaveState(s) && s@ == (StateView {
                            creat_state_at: state@.creat_state_at,
                            last_update_at: fetched_at,
                            last_seen_item: items@[0]@,
                            notified_item_keys: keep_newest(
                                state@.notified_item_keys + string_views(fingerprints@),
                                NOTIFIED_KEYS_LIMIT as int,
                            ),
                        })
                        &&& step.notes@.len() == 0
                    },
                },
                MonitorStage::SavingState { fetched_at, items } => match event {
                    Event::Completed(Err(e)) => next is Done
                        && returns_err(step.action, e@)
                        && note_views(step.notes@) == monitor_error("state.json更新失敗"@),
                    _ => {
                        &&& next matches MonitorStage::RecordingDetection { fetched_at: t, items: v }
                            && t == fetched_at && item_views(v@) == item_views(items@)
                        &&& step.action == Action::AppendDetectHistory(
                            DetectHistory { detected_at: fetched_at, new_items: items@.len() as usize },
                        )
                        &&& step.notes@.len() == 0
                    },
                },
                MonitorStage::RecordingDetection { fetched_at, items } => match event {
                    Event::Completed(Err(e)) => next is Done
                        && returns_err(step.action, e@)
                        && note_views(step.notes@) == monitor_error("detect_history.json更新失敗"@),
                    _ => {
                        &&& next matches MonitorStage::RecordingUpdates { fetched_at: t, items: v, next: n }
                            && t == fetched_at && item_views(v@) == item_views(items@) && n == 0
                        &&& step.action matches Action::AppendUpdateHistory(h)
                            && h@ == (UpdateHistoryView { detected_at: fetched_at, item: items@[0]@ })
                        &&& step.notes@.len() == 0
                    },
                },
                MonitorStage::RecordingUpdates { fetched_at, items, next: n } => match event {
                    Event::Completed(Err(e)) => next is Done
                        && returns_err(step.action, e@)
                        && note_views(step.notes@) == monitor_error("update_history更新失敗"@),
                    _ => step.notes@.len() == 0 && if n + 1 < items@.len() {
                        &&& next matches MonitorStage::RecordingUpdates { fetched_at: t, items: v, next: m }
                            && t == fetched_at && item_views(v@) == item_views(items@) && m == n + 1
                        &&& step.action matches Action::AppendUpdateHistory(h)
                            && h@ == (UpdateHistoryView { detected_at: fetched_at, item: items@[n + 1]@ })
                    } else {
                        next is Finishing && step.action is Finish
                    },
                },
                MonitorStage::Finishing => next is Done && step.notes@.len() == 0 && match event {
                    Event::Completed(Err(e)) => returns_err(step.action, e@),
                    _ => step.action matches Action::Return(Ok(())),
                },
                MonitorStage::Done => false,
            }
        }),
{
    match stage {
        MonitorStage::Start => (MonitorStage::LoadingState, quiet(Action::LoadState)),
        MonitorStage::LoadingState => match event {
            Event::StateLoaded(Err(e)) => {
                let mut text = "Stateの取得に失敗。initフローの実行をしました: ".to_owned();
                text.append(e.message().as_str());
                let mut step = with_note(LogLevel::Error, "monitor", "Stateの取得に失敗", Action::RunInitialize);
                push_note(&mut step, LogLevel::Info, "monitor", "initialize処理を実行");
                (MonitorStage::Initializing { failure: AppError::Process(text) }, step)
            },
            Event::StateLoaded(Ok(None)) => {
                let text = "Stateに中身がなかったためinitフローを実行しました".to_owned();
                let mut step = with_note(LogLevel::Error, "monitor", "Stateに値が存在しません", Action::RunInitialize);
                push_note(&mut step, LogLevel::Info, "monitor", "initialize処理を実行");
                (MonitorStage::Initializing { failure: AppError::Process(text) }, step)
            },
            Event::StateLoaded(Ok(Some(state))) => (MonitorStage::Scraping { state }, quiet(Action::RunScraper)),
            _ => (MonitorStage::Done, quiet(Action::LoadState)),
        },
        MonitorStage::Initializing { failure } => match event {
            Event::Completed(Err(e)) => (
                MonitorStage::Done,
                with_note(LogLevel::Error, "monitor", "initialize処理失敗", Action::Return(Err(e))),
            ),
            _ => (MonitorStage::Done, quiet(Action::Return(Err(failure)))),
        },
        MonitorStage::Scraping { state } => match event {
            Event::Scraped(Err(e)) => {
                let error = AppError::Process(e.message());
                (
                    MonitorStage::FinishingWithError { error },
                    with_note(LogLevel::Error, "monitor", "スクレイピング失敗", Action::Finish),
                )
            },
            Event::Scraped(Ok(output)) => {
                let found = match detect_new_item(&output, &state) {
                    Ok(found) => found,
                    Err(_) => Vec::new(),
                };
                let ghost fv = crate::fingerprint::pair_views(found@);
                let fetched_at = output.fetched_at;
                let empty_output = output.items.len() == 0;
                if found.len() == 0 {
                    let action = Action::AppendDetectHistory(DetectHistory { detected_at: fetched_at, new_items: 0 });
                    let step = if empty_output {
                        with_note(LogLevel::Warn, "detect_new_item", "ScraperOutput.itemsが空", action)
                    } else {
                        quiet(action)
                    };
                    (MonitorStage::RecordingNoNews, step)
                } else {
                    let (fingerprints, items) = unzip_pairs(found);
                    assert(string_views(fingerprints@) =~= found_keys(fv));
                    assert(item_views(items@) =~= found_items(fv));
                    let copies = clone_items(&items);
                    let action = Action::Notify(copies);
                    let step = if empty_output {
                        with_note(LogLevel::Warn, "detect_new_item", "ScraperOutput.itemsが空", action)
                    } else {
                        quiet(action)
                    };
                    (MonitorStage::Notifying { state, fetched_at, fingerprints, items }, step)
                }
            },
            _ => (MonitorStage::Done, quiet(Action::Finish)),
        },
        MonitorStage::FinishingWithError { error } => match event {
            Event::Completed(Err(e)) => (MonitorStage::Done, quiet(Action::Return(Err(e)))),
            _ => (MonitorStage::Done, quiet(Action::Return(Err(error)))),
        },
        MonitorStage::RecordingNoNews => match event {
            Event::Completed(Err(e)) => (
                MonitorStage::Done,
                with_note(LogLevel::Error, "monitor", "detect_historyの更新失敗", Action::Return(Err(e))),
            ),
            _ => (MonitorStage::Finishing, quiet(Action::Finish)),
        },
        MonitorStage::Notifying { state, fetched_at, fingerprints, items } => match event {
            Event::Completed(Err(e)) => (
                MonitorStage::Done,
                with_note(LogLevel::Error, "monitor", "discordに送信失敗", Action::Return(Err(e))),
            ),
            _ => {
                let next_state = record_notified(state, fetched_at, fingerprints, &items);
                (MonitorStage::SavingState { fetched_at, items }, quiet(Action::SaveState(next_state)))
            },
        },
        MonitorStage::SavingState { fetched_at, items } => match event {
            Event::Completed(Err(e)) => (
                MonitorStage::Done,
                with_note(LogLevel::Error, "monitor", "state.json更新失敗", Action::Return(Err(e))),
            ),
            _ => {
                let record = DetectHistory { detected_at: fetched_at, new_items: items.len() };
                (MonitorStage::RecordingDetection { fetched_at, items }, quiet(Action::AppendDetectHistory(record)))
            },
        },
        MonitorStage::RecordingDetection { fetched_at, items } => match event {
            Event::Completed(Err(e)) => (
                MonitorStage::Done,
                with_note(LogLevel::Error, "monitor", "detect_history.json更新失敗", Action::Return(Err(e))),
            ),
            _ => {
                let record = UpdateHistory::from_item(fetched_at, items[0].clone());
                (
                    MonitorStage::RecordingUpdates { fetched_at, items, next: 0 },
                    quiet(Action::AppendUpdateHistory(record)),
                )
            },
        },
        MonitorStage::RecordingUpdates { fetched_at, items, next } => match event {
            Event::Completed(Err(e)) => (
                MonitorStage::Done,
                with_note(LogLevel::Error, "monitor", "update_history更新失敗", Action::Return(Err(e))),
            ),
            _ => {
                if next < items.len() - 1 {
                    let record = UpdateHistory::from_item(fetched_at, items[next + 1].clone());
                    (
                        MonitorStage::RecordingUpdates { fetched_at, items, next: next + 1 },
                        quiet(Action::AppendUpdateHistory(record)),
                    )
                } else {
                    (MonitorStage::Finishing, quiet(Action::Finish))
                }
            },
        },
        MonitorStage::Finishing => match event {
            Event::Completed(Err(e)) => (MonitorStage::Done, quiet(Action::Return(Err(e)))),
            _ => (MonitorStage::Done, quiet(Action::Return(Ok(())))),
        },
        MonitorStage::Done => (MonitorStage::Done, quiet(Action::Return(Ok(())))),
    }
}

/// Adds a note to a step.
fn push_note(step: &mut Step, level: LogLevel, target: &str, message: &str)
    ensures
        note_views(final(step).notes@) == note_views(old(step).notes@).push((level, target@, message@)),
        final(step).action == old(step).action,
{
    let ghost before = note_views(step.notes@);
    step.notes.push(crate::flow::note(level, target, message));
    assert(note_views(step.notes@) =~= before.push((level, target@, message@)));
}

/// Copies of `items`.
pub fn clone_items(items: &Vec<ScrapedItem>) -> (copies: Vec<ScrapedItem>)
    ensures
        item_views(copies@) == item_views(items@),
{
    let mut copies: Vec<ScrapedItem> = Vec::new();
    let mut i: usize = 0;
    while i < items.len()
        invariant
            i <= items@.len(),
            item_views(copies@) == item_views(items@.take(i as int)),
        decreases items@.len() - i,
    {
        let ghost before = item_views(copies@);
        copies.push(items[i].clone());
        assert(item_views(items@.take(i + 1)) =~= before.push(items@[i as int]@));
        assert(item_views(copies@) =~= before.push(items@[i as int]@));
        i = i + 1;
    }
    assert(items@.take(items@.len() as int) =~= items@);
    copies
}

/// A monitoring run notifies of an item once: after it records the new items'
/// fingerprints in the state, checking the same items against that state finds
/// nothing new, as long as no fingerprint had to be dropped to stay within
/// [`NOTIFIED_KEYS_LIMIT`].
pub proof fn lemma_notified_once(items: Seq<ItemView>, keys: Seq<Seq<char>>)
    requires
        keys.len() + new_items(items, keys).len() <= NOTIFIED_KEYS_LIMIT,
    ensures
        new_items(
            items,
            keep_newest(keys + found_keys(new_items(items, keys)), NOTIFIED_KEYS_LIMIT as int),
        ).len() == 0,
{
    lemma_recorded_items_are_not_new_again(items, keys);
    let all = keys + found_keys(new_items(items, keys));
    assert(keep_newest(all, NOTIFIED_KEYS_LIMIT as int) == all);
}

} // verus!
