use vstd::prelude::*;

use crate::constants::{CONTENT_LIMIT, EMBED_COUNT_LIMIT, LOG_CHUNK_LIMIT};
use crate::logger::{chunks_of, code_block, to_chunks, wrap_code_block, LogBuffer};
use crate::text::lines_of;
use crate::models::{ItemView, ScrapedItem};

verus! {

broadcast use vstd::seq_lib::group_seq_properties;

/// A message to a Discord webhook.
#[derive(Debug)]
pub struct WebhookPayload {
    pub content: Option<String>,
    pub embeds: Vec<DiscordEmbed>,
}

/// One embed of a Discord message.
#[derive(Clone, Debug)]
pub struct DiscordEmbed {
    pub title: String,
    pub description: String,
    pub url: Option<String>,
    pub color: Option<u32>,
    pub fields: Vec<EmbedField>,
    pub footer: Option<EmbedFooter>,
    pub timestamp: Option<String>,
}

/// A named field of an embed.
#[derive(Clone, Debug)]
pub struct EmbedField {
    pub name: String,
    pub value: String,
    pub inline: bool,
}

/// The footer of an embed.
#[derive(Clone, Debug)]
pub struct EmbedFooter {
    pub text: String,
}

/// The colour of the notification embeds (sky blue).
pub const EMBED_COLOR: u32 = 0x87CEEB;

/// The title of an item's embed: the company name, then the ticker symbol in brackets.
pub open spec fn embed_title(item: ItemView) -> Seq<char> {
    item.ticker_name + "("@ + item.ticker_symbol + ")"@
}

/// The body of an item's embed: its title on one line, its URL on the next.
pub open spec fn embed_description(item: ItemView) -> Seq<char> {
    "タイトル："@ + item.title + "\nURL："@ + item.url
}

/// The footer text of an item's embed: the date it was published.
pub open spec fn embed_footer(item: ItemView) -> Seq<char> {
    "公開日："@ + item.published_at
}

/// `e` is the notification embed of `item`: its title, body and footer as above,
/// the sky-blue colour, and no link, fields or timestamp.
pub open spec fn is_embed_of(e: DiscordEmbed, item: ItemView) -> bool {
    &&& e.title@ == embed_title(item)
    &&& e.description@ == embed_description(item)
    &&& e.url is None
    &&& e.color == Some(EMBED_COLOR)
    &&& e.fields@.len() == 0
    &&& e.footer matches Some(f) && f.text@ == embed_footer(item)
    &&& e.timestamp is None
}

/// An item's embed carries its fields whole:
/// - its title is the company name, then the ticker symbol in round brackets;
/// - its description is the five-character label "タイトル：", the item's title,
///   a newline, the four-character label "URL：" and the URL;
/// - its footer is the four-character label "公開日：" and the publication date;
/// so each field reads back unchanged from the embed, whatever its length.
pub proof fn lemma_embed_shows_whole_fields(e: DiscordEmbed, item: ItemView)
    requires
        is_embed_of(e, item),
    ensures
        e.title@.len() == item.ticker_name.len() + item.ticker_symbol.len() + 2,
        e.title@.subrange(0, item.ticker_name.len() as int) == item.ticker_name,
        e.title@[item.ticker_name.len() as int] == '(',
        e.title@.subrange(item.ticker_name.len() as int + 1, e.title@.len() - 1) == item.ticker_symbol,
        e.title@.last() == ')',
        e.description@.len() == item.title.len() + item.url.len() + 10,
        e.description@.subrange(5, 5 + item.title.len() as int) == item.title,
        e.description@[5 + item.title.len() as int] == '\n',
        e.description@.subrange(e.description@.len() - item.url.len(), e.description@.len() as int)
            == item.url,
        e.footer matches Some(f) && f.text@.len() == item.published_at.len() + 4 && f.text@.skip(4)
            == item.published_at,
{
    reveal_strlit("タイトル：");
    reveal_strlit("\nURL：");
    reveal_strlit("(");
    reveal_strlit(")");
    reveal_strlit("公開日：");
    let d = e.description@;
    assert(d.subrange(5, 5 + item.title.len() as int) =~= item.title);
    assert(d.subrange(d.len() - item.url.len(), d.len() as int) =~= item.url);
    let t = e.title@;
    assert(t.subrange(0, item.ticker_name.len() as int) =~= item.ticker_name);
    assert(t.subrange(item.ticker_name.len() as int + 1, t.len() - 1) =~= item.ticker_symbol);
    let f = e.footer->0.text@;
    assert(f.skip(4) =~= item.published_at);
}

/// Builds the notification embed of one item.
pub fn build_embed(item: &ScrapedItem) -> (e: DiscordEmbed)
    ensures
        is_embed_of(e, item@),
{
    let mut title = item.ticker_name.clone();
    title.append("(");
    title.append(item.ticker_symbol.as_str());
    title.append(")");
    let mut description = "タイトル：".to_owned();
    description.append(item.title.as_str());
    description.append("\nURL：");
    description.append(item.url.as_str());
    let mut footer = "公開日：".to_owned();
    footer.append(item.published_at.as_str());
    DiscordEmbed {
        title,
        description,
        url: None,
        color: Some(EMBED_COLOR),
        fields: Vec::new(),
        footer: Some(EmbedFooter { text: footer }),
        timestamp: None,
    }
}

/// Builds the notification embeds of `items`, one per item, in order.
pub fn build_embeds(items: &Vec<ScrapedItem>) -> (embeds: Vec<DiscordEmbed>)
    ensures
        embeds@.len() == items@.len(),
        forall|k: int| 0 <= k < items@.len() ==> is_embed_of(#[trigger] embeds@[k], items@[k]@),
{
    let mut embeds: Vec<DiscordEmbed> = Vec::new();
    let mut i: usize = 0;
    while i < items.len()
        invariant
            i <= items@.len(),
            embeds@.len() == i,
            forall|k: int| 0 <= k < i ==> is_embed_of(#[trigger] embeds@[k], items@[k]@),
        decreases items@.len() - i,
    {
        let e = build_embed(&items[i]);
        embeds.push(e);
        i = i + 1;
    }
    embeds
}

/// The number of messages that `n` embeds need, at most ten to a message.
pub open spec fn batch_count(n: int) -> int {
    (n + EMBED_COUNT_LIMIT - 1) / EMBED_COUNT_LIMIT as int
}

/// Where message `k` of `n` embeds ends: ten after it starts, or at the last embed.
pub open spec fn batch_end(n: int, k: int) -> int {
    if k * EMBED_COUNT_LIMIT + EMBED_COUNT_LIMIT < n { k * EMBED_COUNT_LIMIT + EMBED_COUNT_LIMIT } else { n }
}

/// The embeds that message `k` carries: the `k`-th run of ten, or the rest.
pub open spec fn batch(embeds: Seq<DiscordEmbed>, k: int) -> Seq<DiscordEmbed> {
    embeds.subrange(k * EMBED_COUNT_LIMIT, batch_end(embeds.len() as int, k))
}

/// All the runs of embeds that the messages carry, in order.
pub open spec fn batches(embeds: Seq<DiscordEmbed>) -> Seq<Seq<DiscordEmbed>> {
    Seq::new(batch_count(embeds.len() as int) as nat, |k: int| batch(embeds, k))
}

/// The messages carry every embed once, in order, and each carries from one to
/// ten embeds.
pub proof fn lemma_batches_cover(embeds: Seq<DiscordEmbed>)
    ensures
        batches(embeds).flatten() == embeds,
        forall|k: int| 0 <= k < batches(embeds).len()
            ==> 1 <= (#[trigger] batches(embeds)[k]).len() <= EMBED_COUNT_LIMIT,
    decreases embeds.len(),
{
    let n = embeds.len() as int;
    let b = batches(embeds);
    if n == 0 {
        assert(b.len() == 0);
        assert(b.flatten() =~= embeds);
    } else {
        let rest = embeds.skip(EMBED_COUNT_LIMIT as int);
        if n <= EMBED_COUNT_LIMIT {
            assert(b.len() == 1);
            assert(b[0] =~= embeds);
            assert(b.drop_first().len() == 0);
            assert(b.flatten() =~= b[0] + b.drop_first().flatten());
        } else {
            lemma_batches_cover(rest);
            let rb = batches(rest);
            assert(b.len() == rb.len() + 1);
            assert forall|k: int| 0 <= k < rb.len() implies b.drop_first()[k] == #[trigger] rb[k] by {
                assert(b.drop_first()[k] =~= rb[k]);
            }
            assert(b.drop_first() =~= rb);
            assert(b[0] =~= embeds.take(EMBED_COUNT_LIMIT as int));
            assert(b.flatten() == b[0] + b.drop_first().flatten());
            assert(embeds.take(EMBED_COUNT_LIMIT as int) + rest =~= embeds);
            assert forall|k: int| 0 <= k < b.len()
                implies 1 <= (#[trigger] b[k]).len() <= EMBED_COUNT_LIMIT by {
                if k > 0 {
                    assert(b[k] =~= rb[k - 1]);
                }
            }
        }
    }
}

/// Splits `embeds` into messages of at most ten embeds each, in order, with no text.
pub fn embed_payloads(embeds: Vec<DiscordEmbed>) -> (payloads: Vec<WebhookPayload>)
    ensures
        payloads@.len() == batch_count(embeds@.len() as int),
        forall|k: int| 0 <= k < payloads@.len() ==> {
            &&& (#[trigger] payloads@[k]).content is None
            &&& payloads@[k].embeds@ == batch(embeds@, k)
        },
{
    let ghost all = embeds@;
    assert(all.skip(0) =~= all);
    let mut rest = embeds;
    let mut payloads: Vec<WebhookPayload> = Vec::new();
    while rest.len() > 0
        invariant
            rest@.len() > 0 ==> rest@ == all.skip(payloads@.len() * EMBED_COUNT_LIMIT)
                && payloads@.len() * EMBED_COUNT_LIMIT < all.len(),
            rest@.len() == 0 ==> payloads@.len() * EMBED_COUNT_LIMIT >= all.len(),
            payloads@.len() * EMBED_COUNT_LIMIT < all.len() + EMBED_COUNT_LIMIT,
            payloads@.len() * EMBED_COUNT_LIMIT <= all.len() || rest@.len() == 0,
            forall|k: int| 0 <= k < payloads@.len() ==> {
                &&& (#[trigger] payloads@[k]).content is None
                &&& payloads@[k].embeds@ == batch(all, k)
            },
        decreases rest@.len(),
    {
        let take = if rest.len() < EMBED_COUNT_LIMIT { rest.len() } else { EMBED_COUNT_LIMIT };
        let tail = rest.split_off(take);
        let ghost k = payloads@.len() as int;
        assert(rest@ =~= batch(all, k));
        assert(tail@ =~= all.skip(k * EMBED_COUNT_LIMIT + take));
        payloads.push(WebhookPayload { content: None, embeds: rest });
        rest = tail;
        if take < EMBED_COUNT_LIMIT {
            assert(rest@.len() == 0);
        }
    }
    payloads
}

/// The messages that notify of `items`: their embeds, at most ten to a message.
/// There are none when there are no items.
pub fn notify_payloads(items: &Vec<ScrapedItem>) -> (payloads: Vec<WebhookPayload>)
    ensures
        payloads@.len() == batch_count(items@.len() as int),
        forall|k: int| 0 <= k < payloads@.len() ==> {
            &&& (#[trigger] payloads@[k]).content is None
            &&& payloads@[k].embeds@.len() == batch_end(items@.len() as int, k) - k * EMBED_COUNT_LIMIT
            &&& forall|j: int| 0 <= j < payloads@[k].embeds@.len() ==> is_embed_of(
                #[trigger] payloads@[k].embeds@[j],
                items@[k * EMBED_COUNT_LIMIT + j]@,
            )
        },
{
    let embeds = build_embeds(items);
    let ghost ev = embeds@;
    let payloads = embed_payloads(embeds);
    assert forall|k: int| 0 <= k < payloads@.len() implies (forall|j: int|
        0 <= j < (#[trigger] payloads@[k]).embeds@.len() ==> is_embed_of(
            #[trigger] payloads@[k].embeds@[j],
            items@[k * EMBED_COUNT_LIMIT + j]@,
        )) by {
        assert forall|j: int| 0 <= j < payloads@[k].embeds@.len() implies is_embed_of(
            #[trigger] payloads@[k].embeds@[j],
            items@[k * EMBED_COUNT_LIMIT + j]@,
        ) by {
            assert(payloads@[k].embeds@[j] == ev[k * EMBED_COUNT_LIMIT + j]);
        }
    }
    payloads
}

/// The message that carries one chunk of the log, in a code block.
pub fn log_payload(content: &str) -> (p: WebhookPayload)
    ensures
        p.content matches Some(c) && c@ == code_block(content@),
        p.embeds@.len() == 0,
{
    WebhookPayload { content: Some(wrap_code_block(content)), embeds: Vec::new() }
}

/// The messages that carry the log: its chunks of at most 1992 characters (see
/// [`chunks_of`]), each in a code block, so that no message's text is longer than
/// Discord's 2000 characters. There are none when the log is empty.
pub fn log_payloads(buffer: &LogBuffer) -> (payloads: Vec<WebhookPayload>)
    ensures
        payloads@.len() == chunks_of(lines_of(buffer@), LOG_CHUNK_LIMIT as int).len(),
        forall|k: int| 0 <= k < payloads@.len() ==> {
            &&& (#[trigger] payloads@[k]).content matches Some(c) && c@ == code_block(
                chunks_of(lines_of(buffer@), LOG_CHUNK_LIMIT as int)[k],
            ) && c@.len() <= CONTENT_LIMIT
            &&& payloads@[k].embeds@.len() == 0
        },
{
    let chunks = to_chunks(buffer, LOG_CHUNK_LIMIT);
    let ghost cv = chunks_of(lines_of(buffer@), LOG_CHUNK_LIMIT as int);
    let mut payloads: Vec<WebhookPayload> = Vec::new();
    let mut i: usize = 0;
    while i < chunks.len()
        invariant
            i <= chunks@.len(),
            chunks@.len() == cv.len(),
            forall|k: int| 0 <= k < chunks@.len() ==> (#[trigger] chunks@[k])@ == cv[k],
            forall|k: int| 0 <= k < chunks@.len() ==> (#[trigger] chunks@[k])@.len() <= LOG_CHUNK_LIMIT,
            payloads@.len() == i,
            forall|k: int| 0 <= k < i ==> {
                &&& (#[trigger] payloads@[k]).content matches Some(c) && c@ == code_block(cv[k])
                    && c@.len() <= CONTENT_LIMIT
                &&& payloads@[k].embeds@.len() == 0
            },
        decreases chunks@.len() - i,
    {
        let p = log_payload(chunks[i].as_str());
        payloads.push(p);
        i = i + 1;
    }
    payloads
}

} // verus!
