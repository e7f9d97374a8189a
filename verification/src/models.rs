use vstd::prelude::*;

pub use crate::text::string_views;

verus! {

/// A point in time with the UTC offset it was written with: seconds and
/// nanoseconds since the Unix epoch, and the offset east of UTC in seconds.
#[derive(Clone, Copy, Debug, PartialEq, Eq, Structural)]
pub struct Timestamp {
    pub secs: i64,
    pub nanos: u32,
    pub offset_secs: i32,
}

/// Reads the system clock (`std::time::UNIX_EPOCH.elapsed()`, that is
/// `SystemTime::elapsed` from the Unix epoch): `Ok` with how far the clock is past
/// the epoch, or `Err` with how far it is before it, each as whole seconds and the
/// nanoseconds past them. The nanoseconds are below one billion, as
/// `Duration::subsec_nanos` documents. Nothing else is stated of the reading: it
/// depends on the clock.
#[verifier::external_body]
fn clock_reading() -> (r: Result<(u64, u32), (u64, u32)>)
    ensures
        match r {
            Ok((_, n)) => n < 1_000_000_000,
            Err((_, n)) => n < 1_000_000_000,
        },
{
    match std::time::UNIX_EPOCH.elapsed() {
        Ok(d) => Ok((d.as_secs(), d.subsec_nanos())),
        Err(e) => Err((e.duration().as_secs(), e.duration().subsec_nanos())),
    }
}

/// `x` held within the range of an `i64`.
pub open spec fn clamp_secs(x: int) -> i64 {
    if x > i64::MAX {
        i64::MAX
    } else if x < i64::MIN {
        i64::MIN
    } else {
        x as i64
    }
}

/// The UTC timestamp of a clock reading that lies `s` seconds and `n` nanoseconds
/// after (`Ok`) or before (`Err`) the Unix epoch: the seconds since the epoch,
/// rounded down, and the nanoseconds past them. A second count that an `i64`
/// cannot hold is held at its bound.
pub open spec fn clock_timestamp(reading: Result<(u64, u32), (u64, u32)>) -> Timestamp {
    match reading {
        Ok((s, n)) => Timestamp { secs: clamp_secs(s as int), nanos: n, offset_secs: 0 },
        Err((s, n)) => if n == 0 {
            Timestamp { secs: clamp_secs(-(s as int)), nanos: 0, offset_secs: 0 }
        } else {
            Timestamp { secs: clamp_secs(-(s as int) - 1), nanos: (1_000_000_000 - n) as u32, offset_secs: 0 }
        },
    }
}

/// The UTC timestamp of a clock reading (see [`clock_timestamp`]).
pub fn timestamp_from_clock(reading: Result<(u64, u32), (u64, u32)>) -> (t: Timestamp)
    requires
        match reading {
            Ok((_, n)) => n < 1_000_000_000,
            Err((_, n)) => n < 1_000_000_000,
        },
    ensures
        t == clock_timestamp(reading),
        t.nanos < 1_000_000_000,
{
    match reading {
        Ok((s, n)) => {
            let secs: i64 = if s <= 9_223_372_036_854_775_807u64 {
                s as i64
            } else {
                i64::MAX
            };
            Timestamp { secs, nanos: n, offset_secs: 0 }
        },
        Err((s, n)) => {
            if n == 0 {
                let secs: i64 = if s < 9_223_372_036_854_775_808u64 {
                    -(s as i64)
                } else {
                    i64::MIN
                };
                Timestamp { secs, nanos: 0, offset_secs: 0 }
            } else {
                let secs: i64 = if s < 9_223_372_036_854_775_807u64 {
                    -(s as i64) - 1
                } else {
                    i64::MIN
                };
                Timestamp { secs, nanos: 1_000_000_000 - n, offset_secs: 0 }
            }
        },
    }
}

/// The time now, in UTC: the system clock read as a timestamp (see
/// [`clock_timestamp`]). Its offset from UTC is zero and its nanoseconds are
/// below one billion; which instant it is depends on the clock.
pub fn current_time() -> (t: Timestamp)
    ensures
        t.offset_secs == 0,
        t.nanos < 1_000_000_000,
{
    let reading = clock_reading();
    timestamp_from_clock(reading)
}

/// One entry that the scraper found.
#[derive(Debug)]
pub struct ScrapedItem {
    pub ticker_symbol: String,
    pub ticker_name: String,
    pub published_at: String,
    pub title: String,
    pub url: String,
}

/// The text fields of a [`ScrapedItem`].
pub struct ItemView {
    pub ticker_symbol: Seq<char>,
    pub ticker_name: Seq<char>,
    pub published_at: Seq<char>,
    pub title: Seq<char>,
    pub url: Seq<char>,
}

impl View for ScrapedItem {
    type V = ItemView;

    open spec fn view(&self) -> ItemView {
        ItemView {
            ticker_symbol: self.ticker_symbol@,
            ticker_name: self.ticker_name@,
            published_at: self.published_at@,
            title: self.title@,
            url: self.url@,
        }
    }
}

/// An item whose fields are all empty.
pub open spec fn empty_item() -> ItemView {
    ItemView {
        ticker_symbol: Seq::empty(),
        ticker_name: Seq::empty(),
        published_at: Seq::empty(),
        title: Seq::empty(),
        url: Seq::empty(),
    }
}

impl ScrapedItem {
    /// An item whose fields are all empty.
    pub fn new() -> (item: ScrapedItem)
        ensures
            item@ == empty_item(),
    {
        ScrapedItem {
            ticker_symbol: String::new(),
            ticker_name: String::new(),
            published_at: String::new(),
            title: String::new(),
            url: String::new(),
        }
    }
}

impl Clone for ScrapedItem {
    fn clone(&self) -> (item: Self)
        ensures
            item@ == self@,
    {
        ScrapedItem {
            ticker_symbol: self.ticker_symbol.clone(),
            ticker_name: self.ticker_name.clone(),
            published_at: self.published_at.clone(),
            title: self.title.clone(),
            url: self.url.clone(),
        }
    }
}

/// What one run of the scraper returns.
#[derive(Debug)]
pub struct ScraperOutput {
    pub fetched_at: Timestamp,
    pub items: Vec<ScrapedItem>,
}

/// The views of a sequence of items.
pub open spec fn item_views(items: Seq<ScrapedItem>) -> Seq<ItemView> {
    items.map_values(|i: ScrapedItem| i@)
}

/// What is kept between two runs.
#[derive(Debug)]
pub struct State {
    pub creat_state_at: Timestamp,
    pub last_update_at: Timestamp,
    pub last_seen_item: ScrapedItem,
    pub notified_item_keys: Vec<String>,
}

/// The fields of a [`State`] by their views.
pub struct StateView {
    pub creat_state_at: Timestamp,
    pub last_update_at: Timestamp,
    pub last_seen_item: ItemView,
    pub notified_item_keys: Seq<Seq<char>>,
}

impl View for State {
    type V = StateView;

    open spec fn view(&self) -> StateView {
        StateView {
            creat_state_at: self.creat_state_at,
            last_update_at: self.last_update_at,
            last_seen_item: self.last_seen_item@,
            notified_item_keys: string_views(self.notified_item_keys@),
        }
    }
}

/// One record of a check for new items: when, and how many were new.
#[derive(Clone, Copy, Debug, PartialEq, Eq, Structural)]
pub struct DetectHistory {
    pub detected_at: Timestamp,
    pub new_items: usize,
}

/// One record of a new item and when it was found.
#[derive(Debug)]
pub struct UpdateHistory {
    pub detected_at: Timestamp,
    pub ticker_symbol: String,
    pub ticker_name: String,
    pub published_at: String,
    pub title: String,
    pub url: String,
}

/// The fields of an [`UpdateHistory`] by their views.
pub struct UpdateHistoryView {
    pub detected_at: Timestamp,
    pub item: ItemView,
}

impl View for UpdateHistory {
    type V = UpdateHistoryView;

    open spec fn view(&self) -> UpdateHistoryView {
        UpdateHistoryView {
            detected_at: self.detected_at,
            item: ItemView {
                ticker_symbol: self.ticker_symbol@,
                ticker_name: self.ticker_name@,
                published_at: self.published_at@,
                title: self.title@,
                url: self.url@,
            },
        }
    }
}

impl UpdateHistory {
    /// A record stamped with the current time in UTC, with all text fields empty.
    pub fn new() -> (h: UpdateHistory)
        ensures
            h@.item == empty_item(),
            h.detected_at.offset_secs == 0,
            h.detected_at.nanos < 1_000_000_000,
    {
        UpdateHistory {
            detected_at: current_time(),
            ticker_symbol: String::new(),
            ticker_name: String::new(),
            published_at: String::new(),
            title: String::new(),
            url: String::new(),
        }
    }

    /// The record of `item` found at `detected_at`.
    pub fn from_item(detected_at: Timestamp, item: ScrapedItem) -> (h: UpdateHistory)
        ensures
            h@ == (UpdateHistoryView { detected_at, item: item@ }),
    {
        UpdateHistory {
            detected_at,
            ticker_symbol: item.ticker_symbol,
            ticker_name: item.ticker_name,
            published_at: item.published_at,
            title: item.title,
            url: item.url,
        }
    }
}

/// A shareholder-benefit entry as the site lists it.
#[derive(Debug)]
pub struct YutaiItem {
    pub stock_code: String,
    pub stock_name: String,
    pub published_at: String,
    pub scraped_at: String,
    pub benefit_title: String,
    pub detail_url: String,
}

} // verus!
