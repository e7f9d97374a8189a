use vstd::prelude::*;

use rand::Rng;

use crate::constants::NOTIFIED_KEYS_LIMIT;
use crate::errors::AppError;
use crate::models::{DetectHistory, ScrapedItem, ScraperOutput, State, Timestamp, UpdateHistory, string_views};

verus! {

broadcast use vstd::seq_lib::group_seq_properties;

/// How serious a log note is.
#[derive(Clone, Copy, Debug, PartialEq, Eq, Structural)]
pub enum LogLevel {
    Info,
    Warn,
    Error,
}

/// A line for the run's log: its level, the part of the program it comes from,
/// and what happened.
#[derive(Debug)]
pub struct LogNote {
    pub level: LogLevel,
    pub target: String,
    pub message: String,
}

/// The views of a sequence of log notes.
pub open spec fn note_views(notes: Seq<LogNote>) -> Seq<(LogLevel, Seq<char>, Seq<char>)> {
    notes.map_values(|n: LogNote| (n.level, n.target@, n.message@))
}

/// Makes a log note.
pub fn note(level: LogLevel, target: &str, message: &str) -> (n: LogNote)
    ensures
        n.level == level,
        n.target@ == target@,
        n.message@ == message@,
{
    LogNote { level, target: target.to_owned(), message: message.to_owned() }
}

/// The outside work that a run asks for next.
#[derive(Debug)]
pub enum Action {
    /// Read the state file.
    LoadState,
    /// Run the whole first-run flow.
    RunInitialize,
    /// Remove the data directory if it exists.
    RemoveDataDir,
    /// Create the data directory and its parents.
    CreateDataDir,
    /// Run the scraper.
    RunScraper,
    /// Send these items to the notification webhooks.
    Notify(Vec<ScrapedItem>),
    /// Write this state to the state file.
    SaveState(State),
    /// Append this record to the detect history.
    AppendDetectHistory(DetectHistory),
    /// Append this record to the update history.
    AppendUpdateHistory(UpdateHistory),
    /// Prune the detect history to its limit.
    PruneDetectHistory,
    /// Prune the update history to its limit.
    PruneUpdateHistory,
    /// Send the log to the log webhooks.
    Finish,
    /// The run is over with this result.
    Return(Result<(), AppError>),
}

/// What came of the outside work that a run asked for.
#[derive(Debug)]
pub enum Event {
    /// The run starts.
    Begin,
    /// The state file was read: nothing there, a state, or an error.
    StateLoaded(Result<Option<State>, AppError>),
    /// The scraper ran.
    Scraped(Result<ScraperOutput, AppError>),
    /// A data directory operation ran; on failure, the text of the I/O error.
    DirDone(Result<(), String>),
    /// Any other work finished.
    Completed(Result<(), AppError>),
}

/// What one step of a run gives: the action to perform next, and the notes to
/// log before it.
#[derive(Debug)]
pub struct Step {
    pub notes: Vec<LogNote>,
    pub action: Action,
}

/// A step with no notes.
pub fn quiet(action: Action) -> (s: Step)
    ensures
        s.notes@.len() == 0,
        s.action == action,
{
    Step { notes: Vec::new(), action }
}

/// A step with one note.
pub fn with_note(level: LogLevel, target: &str, message: &str, action: Action) -> (s: Step)
    ensures
        note_views(s.notes@) == seq![(level, target@, message@)],
        s.action == action,
{
    let mut notes = Vec::new();
    notes.push(note(level, target, message));
    let s = Step { notes, action };
    assert(note_views(s.notes@) =~= seq![(level, target@, message@)]);
    s
}

/// `keys` cut to its newest `limit` entries: the oldest ones go first.
pub open spec fn keep_newest(keys: Seq<Seq<char>>, limit: int) -> Seq<Seq<char>> {
    if keys.len() > limit {
        keys.skip(keys.len() - limit)
    } else {
        keys
    }
}

/// Keeping the newest entries leaves at most `limit` of them: the last ones, in
/// their order.
pub proof fn lemma_keep_newest(keys: Seq<Seq<char>>, limit: int)
    requires
        limit >= 0,
    ensures
        keep_newest(keys, limit).len() == if keys.len() > limit { limit } else { keys.len() as int },
        keep_newest(keys, limit) == keys.skip(keys.len() - keep_newest(keys, limit).len()),
{
    if keys.len() <= limit {
        assert(keys.skip(0) =~= keys);
    }
}

/// Keeps only the newest [`NOTIFIED_KEYS_LIMIT`] of `keys`, the oldest going first.
pub fn keep_newest_keys(keys: Vec<String>) -> (kept: Vec<String>)
    ensures
        string_views(kept@) == keep_newest(string_views(keys@), NOTIFIED_KEYS_LIMIT as int),
{
    let mut keys = keys;
    let ghost all = string_views(keys@);
    if keys.len() > NOTIFIED_KEYS_LIMIT {
        let overflow = keys.len() - NOTIFIED_KEYS_LIMIT;
        let kept = keys.split_off(overflow);
        keys = kept;
        assert(string_views(keys@) =~= all.skip(overflow as int));
    }
    keys
}

/// Records that `items` (with their `fingerprints`) were notified at `fetched_at`:
/// the state's last update time becomes `fetched_at`, its last seen item the first
/// of `items`, and the fingerprints are added after the known ones, keeping only
/// the newest [`NOTIFIED_KEYS_LIMIT`].
pub fn record_notified(state: State, fetched_at: Timestamp, fingerprints: Vec<String>, items: &Vec<ScrapedItem>) -> (next: State)
    requires
        items@.len() > 0,
    ensures
        next@.creat_state_at == state@.creat_state_at,
        next@.last_update_at == fetched_at,
        next@.last_seen_item == items@[0]@,
        next@.notified_item_keys == keep_newest(
            state@.notified_item_keys + string_views(fingerprints@),
            NOTIFIED_KEYS_LIMIT as int,
        ),
{
    let mut keys = state.notified_item_keys;
    let mut added = fingerprints;
    let ghost all = string_views(keys@) + string_views(added@);
    keys.append(&mut added);
    assert(string_views(keys@) =~= all);
    let keys = keep_newest_keys(keys);
    State {
        creat_state_at: state.creat_state_at,
        last_update_at: fetched_at,
        last_seen_item: items[0].clone(),
        notified_item_keys: keys,
    }
}

/// Splits pairs of a fingerprint and an item into the fingerprints and the items,
/// each in the same order.
pub fn unzip_pairs(pairs: Vec<(String, ScrapedItem)>) -> (result: (Vec<String>, Vec<ScrapedItem>))
    ensures
        result.0@.len() == pairs@.len(),
        result.1@.len() == pairs@.len(),
        forall|k: int| 0 <= k < pairs@.len() ==> (#[trigger] result.0@[k])@ == pairs@[k].0@,
        forall|k: int| 0 <= k < pairs@.len() ==> (#[trigger] result.1@[k])@ == pairs@[k].1@,
{
    let mut fingerprints: Vec<String> = Vec::new();
    let mut items: Vec<ScrapedItem> = Vec::new();
    let mut i: usize = 0;
    while i < pairs.len()
        invariant
            i <= pairs@.len(),
            fingerprints@.len() == i,
            items@.len() == i,
            forall|k: int| 0 <= k < i ==> (#[trigger] fingerprints@[k])@ == pairs@[k].0@,
            forall|k: int| 0 <= k < i ==> (#[trigger] items@[k])@ == pairs@[k].1@,
        decreases pairs@.len() - i,
    {
        fingerprints.push(pairs[i].0.clone());
        items.push(pairs[i].1.clone());
        i = i + 1;
    }
    (fingerprints, items)
}

/// A random whole number of seconds from `min_secs` to `max_secs`, both included
/// (`rand::Rng::gen_range` on the thread's generator). The number itself is chance.
#[verifier::external_body]
fn random_secs(min_secs: u64, max_secs: u64) -> (secs: u64)
    requires
        min_secs <= max_secs,
    ensures
        min_secs <= secs <= max_secs,
{
    rand::thread_rng().gen_range(min_secs..=max_secs)
}

/// How long to wait before a run: a random number of seconds from `min_secs` to
/// `max_secs`, both included.
pub fn jitter_secs(min_secs: u64, max_secs: u64) -> (secs: u64)
    requires
        min_secs <= max_secs,
    ensures
        min_secs <= secs <= max_secs,
{
    random_secs(min_secs, max_secs)
}

} // verus!
