use vstd::prelude::*;

use crate::errors::{AppError, ErrorKind};
use crate::fingerprint::{detect_new_item, new_items, pair_views};
use crate::constants::NOTIFIED_KEYS_LIMIT;
use crate::flow::{
    Action, Event, LogLevel, Step, keep_newest, keep_newest_keys, note_views, quiet, unzip_pairs,
    with_note,
};
use crate::models::{
    DetectHistory, ItemView, ScrapedItem, State, StateView, Timestamp, UpdateHistory, empty_item,
    item_views, string_views,
};
use crate::monitor_flow::{found_items, found_keys, returns_err};

verus! {

broadcast use vstd::seq_lib::group_seq_properties;

/// Where a first run stands: which outside work it waits for, and what it holds
/// until then.
#[derive(Debug)]
pub enum InitializeStage {
    /// Nothing has happened yet.
    Start,
    /// Waiting for the old data directory to be removed.
    RemovingDataDir,
    /// Waiting for the data directory to be created.
    CreatingDataDir,
    /// Waiting for the scraper.
    Scraping,
    /// Waiting for the log to be sent; afterwards the run fails with `error`.
    FinishingWithError { error: AppError },
    /// Waiting for the first state to be written.
    SavingState { fetched_at: Timestamp, new_count: usize, last_item: Option<ScrapedItem> },
    /// Waiting for the record of how many items there were.
    RecordingDetection { fetched_at: Timestamp, last_item: Option<ScrapedItem> },
    /// Waiting for the record of the newest item.
    RecordingUpdate,
    /// Waiting for the log to be sent; afterwards the run ends with that result.
    Finishing,
    /// The run is over.
    Done,
}

/// The event answers the work that the stage waits for.
pub open spec fn initialize_accepts(stage: InitializeStage, event: Event) -> bool {
    match stage {
        InitializeStage::Start => event is Begin,
        InitializeStage::RemovingDataDir => event is DirDone,
        InitializeStage::CreatingDataDir => event is DirDone,
        InitializeStage::Scraping => event is Scraped,
        InitializeStage::Done => false,
        _ => event is Completed,
    }
}

/// Whether `event` answers the work that `stage` waits for.
pub fn initialize_accepts_event(stage: &InitializeStage, event: &Event) -> (ok: bool)
    ensures
        ok == initialize_accepts(*stage, *event),
{
    match stage {
        InitializeStage::Start => matches!(event, Event::Begin),
        InitializeStage::RemovingDataDir => matches!(event, Event::DirDone(_)),
        InitializeStage::CreatingDataDir => matches!(event, Event::DirDone(_)),
        InitializeStage::Scraping => matches!(event, Event::Scraped(_)),
        InitializeStage::Done => false,
        _ => matches!(event, Event::Completed(_)),
    }
}

/// The note of a failed step of a first run.
pub open spec fn initialize_error(message: Seq<char>) -> Seq<(LogLevel, Seq<char>, Seq<char>)> {
    seq![(LogLevel::Error, "initialize"@, message)]
}

/// The view of an optional item.
pub open spec fn opt_item(item: Option<ScrapedItem>) -> Option<ItemView> {
    match item {
        Some(i) => Some(i@),
        None => None,
    }
}

/// The state that a first run starts with at `fetched_at`, given the fingerprints
/// and items it found: they are all notified, of which the state keeps the newest
/// [`NOTIFIED_KEYS_LIMIT`] fingerprints, and the first item is the last one seen
/// (an empty item when there are none).
pub open spec fn first_state(fetched_at: Timestamp, found: Seq<(Seq<char>, ItemView)>) -> StateView {
    StateView {
        creat_state_at: fetched_at,
        last_update_at: fetched_at,
        last_seen_item: if found.len() > 0 { found[0].1 } else { empty_item() },
        notified_item_keys: keep_newest(found_keys(found), NOTIFIED_KEYS_LIMIT as int),
    }
}

/// The step that a first run takes from `stage` on `event`: the stage it goes
/// to, the notes to log, and the action to perform.
///
/// The run removes and re-creates the data directory, scrapes (on failure it
/// sends the log and fails), writes a state in which every scraped item is
/// notified (keeping the newest fingerprints only), records how many items there
/// were and the last of them, and sends the log. A failed step ends the run with its error, after a note.
pub fn initialize_step(stage: InitializeStage, event: Event) -> (result: (InitializeStage, Step))
    requires
        initialize_accepts(stage, event),
    ensures
        ({
            let (next, step) = result;
            match stage {
                InitializeStage::Start => next is RemovingDataDir && step.action is RemoveDataDir
                    && note_views(step.notes@) == seq![(LogLevel::Info, "initialize"@, "initialize処理実行開始"@)],
                InitializeStage::RemovingDataDir => match event {
                    Event::DirDone(Err(text)) => next is Done
                        && returns_err(step.action, (ErrorKind::Process, "dataフォルダの削除失敗: "@ + text@))
                        && note_views(step.notes@) == initialize_error("dataフォルダ削除失敗"@),
                    _ => next is CreatingDataDir && step.action is CreateDataDir && step.notes@.len() == 0,
                },
                InitializeStage::CreatingDataDir => match event {
                    Event::DirDone(Err(text)) => next is Done
                        && returns_err(step.action, (ErrorKind::Process, "dataフォルダの作成失敗: "@ + text@))
                        && note_views(step.notes@) == initialize_error("dataフォルダ作成失敗"@),
                    _ => next is Scraping && step.action is RunScraper && step.notes@.len() == 0,
                },
                InitializeStage::Scraping => match event {
                    Event::Scraped(Err(e)) => next matches InitializeStage::FinishingWithError { error }
                        && error@ == e@
                        && step.action is Finish
                        && note_views(step.notes@) == initialize_error("スクレイピング失敗"@),
                    Event::Scraped(Ok(output)) => {
                        let found = new_items(item_views(output.items@), Seq::empty());
                        &&& if output.items@.len() == 0 {
                            note_views(step.notes@) == seq![
                                (LogLevel::Warn, "detect_new_item"@, "ScraperOutput.itemsが空"@),
                            ]
                        } else {
                            step.notes@.len() == 0
                        }
                        &&& next matches InitializeStage::SavingState { fetched_at, new_count, last_item }
                            && fetched_at == output.fetched_at && new_count == found.len()
                            && opt_item(last_item) == (if found.len() > 0 {
                                Some(found.last().1)
                            } else {
                                None
                            })
                        &&& step.action matches Action::SaveState(s) && s@ == first_state(output.fetched_at, found)
                    },
                    _ => false,
                },
                InitializeStage::FinishingWithError { error } => next is Done && step.notes@.len() == 0
                    && match event {
                        Event::Completed(Err(e)) => returns_err(step.action, e@),
                        _ => returns_err(step.action, error@),
                    },
                InitializeStage::SavingState { fetched_at, new_count, last_item } => match event {
                    Event::Completed(Err(e)) => next is Done && returns_err(step.action, e@)
                        && note_views(step.notes@) == initialize_error("stateの書き込み失敗"@),
                    _ => {
                        &&& next matches InitializeStage::RecordingDetection { fetched_at: t, last_item: l }
                            && t == fetched_at && opt_item(l) == opt_item(last_item)
                        &&& step.action == Action::AppendDetectHistory(
                            DetectHistory { detected_at: fetched_at, new_items: new_count },
                        )
                        &&& step.notes@.len() == 0
                    },
                },
                InitializeStage::RecordingDetection { fetched_at, last_item } => match event {
                    Event::Completed(Err(e)) => next is Done && returns_err(step.action, e@)
                        && note_views(step.notes@) == initialize_error("detect_history作成失敗"@),
                    _ => {
                        &&& next is RecordingUpdate
                        &&& step.action matches Action::AppendUpdateHistory(h) && h@.detected_at == fetched_at
                            && h@.item == match opt_item(last_item) {
                                Some(i) => i,
                                None => empty_item(),
                            }
                        &&& step.notes@.len() == 0
                    },
                },
                InitializeStage::RecordingUpdate => match event {
                    Event::Completed(Err(e)) => next is Done && returns_err(step.action, e@)
                        && note_views(step.notes@) == initialize_error("update_history作成失敗"@),
                    _ => next is Finishing && step.action is Finish
                        && note_views(step.notes@) == seq![(LogLevel::Info, "initialize"@, "initialize処理実行完了"@)],
                },
                InitializeStage::Finishing => next is Done && step.notes@.len() == 0 && match event {
                    Event::Completed(Err(e)) => returns_err(step.action, e@),
                    _ => step.action matches Action::Return(Ok(())),
                },
                InitializeStage::Done => false,
            }
        }),
{
    match stage {
        InitializeStage::Start => (
            InitializeStage::RemovingDataDir,
            with_note(LogLevel::Info, "initialize", "initialize処理実行開始", Action::RemoveDataDir),
        ),
        InitializeStage::RemovingDataDir => match event {
            Event::DirDone(Err(text)) => {
                let mut message = "dataフォルダの削除失敗: ".to_owned();
                message.append(text.as_str());
                (
                    InitializeStage::Done,
                    with_note(LogLevel::Error, "initialize", "dataフォルダ削除失敗", Action::Return(Err(AppError::Process(message)))),
                )
            },
            _ => (InitializeStage::CreatingDataDir, quiet(Action::CreateDataDir)),
        },
        InitializeStage::CreatingDataDir => match event {
            Event::DirDone(Err(text)) => {
                let mut message = "dataフォルダの作成失敗: ".to_owned();
                message.append(text.as_str());
                (
                    InitializeStage::Done,
                    with_note(LogLevel::Error, "initialize", "dataフォルダ作成失敗", Action::Return(Err(AppError::Process(message)))),
                )
            },
            _ => (InitializeStage::Scraping, quiet(Action::RunScraper)),
        },
        InitializeStage::Scraping => match event {
            Event::Scraped(Err(error)) => (
                InitializeStage::FinishingWithError { error },
                with_note(LogLevel::Error, "initialize", "スクレイピング失敗", Action::Finish),
            ),
            Event::Scraped(Ok(output)) => {
                let fetched_at = output.fetched_at;
                let state = State {
                    creat_state_at: fetched_at,
                    last_update_at: fetched_at,
                    last_seen_item: ScrapedItem::new(),
                    notified_item_keys: Vec::new(),
                };
                assert(state@.notified_item_keys =~= Seq::<Seq<char>>::empty());
                let found = match detect_new_item(&output, &state) {
                    Ok(found) => found,
                    Err(_) => Vec::new(),
                };
                let ghost fv = pair_views(found@);
                let empty_output = output.items.len() == 0;
                let (fingerprints, items) = unzip_pairs(found);
                assert(string_views(fingerprints@) =~= found_keys(fv));
                assert(item_views(items@) =~= found_items(fv));
                let new_count = fingerprints.len();
                let mut state = state;
                let mut last_item: Option<ScrapedItem> = None;
                if items.len() > 0 {
                    state.notified_item_keys = keep_newest_keys(fingerprints);
                    state.last_seen_item = items[0].clone();
                    last_item = Some(items[items.len() - 1].clone());
                }
                assert(state@ == first_state(fetched_at, fv));
                let action = Action::SaveState(state);
                let step = if empty_output {
                    with_note(LogLevel::Warn, "detect_new_item", "ScraperOutput.itemsが空", action)
                } else {
                    quiet(action)
                };
                (InitializeStage::SavingState { fetched_at, new_count, last_item }, step)
            },
            _ => (InitializeStage::Done, quiet(Action::Finish)),
        },
        InitializeStage::FinishingWithError { error } => match event {
            Event::Completed(Err(e)) => (InitializeStage::Done, quiet(Action::Return(Err(e)))),
            _ => (InitializeStage::Done, quiet(Action::Return(Err(error)))),
        },
        InitializeStage::SavingState { fetched_at, new_count, last_item } => match event {
            Event::Completed(Err(e)) => (
                InitializeStage::Done,
                with_note(LogLevel::Error, "initialize", "stateの書き込み失敗", Action::Return(Err(e))),
            ),
            _ => (
                InitializeStage::RecordingDetection { fetched_at, last_item },
                quiet(Action::AppendDetectHistory(DetectHistory { detected_at: fetched_at, new_items: new_count })),
            ),
        },
        InitializeStage::RecordingDetection { fetched_at, last_item } => match event {
            Event::Completed(Err(e)) => (
                InitializeStage::Done,
                with_note(LogLevel::Error, "initialize", "detect_history作成失敗", Action::Return(Err(e))),
            ),
            _ => {
                let mut record = UpdateHistory::new();
                record.detected_at = fetched_at;
                match last_item {
                    Some(item) => {
                        record.ticker_symbol = item.ticker_symbol;
                        record.ticker_name = item.ticker_name;
                        record.published_at = item.published_at;
                        record.title = item.title;
                        record.url = item.url;
                    },
                    None => {},
                }
                (InitializeStage::RecordingUpdate, quiet(Action::AppendUpdateHistory(record)))
            },
        },
        InitializeStage::RecordingUpdate => match event {
            Event::Completed(Err(e)) => (
                InitializeStage::Done,
                with_note(LogLevel::Error, "initialize", "update_history作成失敗", Action::Return(Err(e))),
            ),
            _ => (
                InitializeStage::Finishing,
                with_note(LogLevel::Info, "initialize", "initialize処理実行完了", Action::Finish),
            ),
        },
        InitializeStage::Finishing => match event {
            Event::Completed(Err(e)) => (InitializeStage::Done, quiet(Action::Return(Err(e)))),
            _ => (InitializeStage::Done, quiet(Action::Return(Ok(())))),
        },
        InitializeStage::Done => (InitializeStage::Done, quiet(Action::Return(Ok(())))),
    }
}

} // verus!
