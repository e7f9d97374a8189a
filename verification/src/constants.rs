use vstd::prelude::*;

verus! {

/// Discord's limit on the length of a message's text.
pub const CONTENT_LIMIT: usize = 2000;
/// The longest chunk of the log that, put into a code block (three backquotes
/// and a newline before it, a newline and three backquotes after it), keeps to
/// [`CONTENT_LIMIT`].
pub const LOG_CHUNK_LIMIT: usize = CONTENT_LIMIT - 8;
/// Discord's limit on the length of an embed's title.
pub const EMBED_TITLE_LIMIT: usize = 256;
/// Discord's limit on the length of an embed's description.
pub const EMBED_DESCRIPTION_LIMIT: usize = 4096;
/// Discord's limit on the length of an embed field's name.
pub const EMBED_FIELD_NAME_LIMIT: usize = 256;
/// Discord's limit on the length of an embed field's value.
pub const EMBED_FIELD_VALUE_LIMIT: usize = 1024;
/// Discord's limit on the total length of an embed.
pub const EMBED_TOTAL_LIMIT: usize = 6000;
/// Discord's limit on the number of embeds in one message.
pub const EMBED_COUNT_LIMIT: usize = 10;

/// The file that holds the state between runs.
pub const STATE_FILE_NAME: &'static str = "state.json";
/// The file that records each check for new items, one JSON object per line.
pub const DETECT_HISTORY_FILE_NAME: &'static str = "detect_history.jsonl";
/// The file that records each new item, one JSON object per line.
pub const UPDATE_HISTORY_FILE_NAME: &'static str = "update_history.jsonl";

/// How many notified fingerprints the state keeps; the oldest go first.
pub const NOTIFIED_KEYS_LIMIT: usize = 200;
/// How many records the detect history keeps when it is pruned.
pub const DETECT_HISTORY_LIMIT: usize = 10000;
/// How many records the update history keeps when it is pruned.
pub const UPDATE_HISTORY_LIMIT: usize = 1000;

} // verus!
