use vstd::prelude::*;
use vstd::utf8::encode_utf8;

use sha2::Digest;

use crate::errors::AppError;
use crate::models::{ItemView, ScrapedItem, ScraperOutput, State, item_views, string_views};
use crate::text::push_char;

verus! {

broadcast use vstd::seq_lib::group_seq_properties;

/// The SHA-256 digest of `data`.
pub uninterp spec fn sha256_of(data: Seq<u8>) -> Seq<u8>;

/// The SHA-256 digest of `data` (`sha2::Sha256::digest`): the digest of those
/// bytes, 32 bytes long.
#[verifier::external_body]
fn sha256_digest(data: &[u8]) -> (digest: Vec<u8>)
    ensures
        digest@ == sha256_of(data@),
        digest@.len() == 32,
{
    sha2::Sha256::digest(data).to_vec()
}

/// The lower-case hexadecimal digit of `n` (below 16).
pub open spec fn hex_digit(n: u8) -> char {
    if n < 10 {
        (n + 48) as char
    } else {
        (n + 87) as char
    }
}

/// Each byte as two lower-case hexadecimal digits, the high half first.
pub open spec fn hex_lower(bytes: Seq<u8>) -> Seq<char>
    decreases bytes.len(),
{
    if bytes.len() == 0 {
        seq![]
    } else {
        hex_lower(bytes.drop_last()) + seq![hex_digit(bytes.last() / 16), hex_digit(bytes.last() % 16)]
    }
}

fn digit(n: u8) -> (c: char)
    requires
        n < 16,
    ensures
        c == hex_digit(n),
{
    if n < 10 {
        (n + 48) as char
    } else {
        (n + 87) as char
    }
}

/// Writes `bytes` as lower-case hexadecimal (see [`hex_lower`]).
pub fn to_hex_lower(bytes: &[u8]) -> (s: String)
    ensures
        s@ == hex_lower(bytes@),
        s@.len() == 2 * bytes@.len(),
{
    let mut s = String::new();
    let mut i: usize = 0;
    while i < bytes.len()
        invariant
            i <= bytes@.len(),
            s@ == hex_lower(bytes@.take(i as int)),
            s@.len() == 2 * i,
        decreases bytes@.len() - i,
    {
        let b = bytes[i];
        assert(bytes@.take(i + 1).drop_last() =~= bytes@.take(i as int));
        assert(bytes@.take(i + 1).last() == b);
        push_char(&mut s, digit(b / 16));
        push_char(&mut s, digit(b % 16));
        assert(s@ =~= hex_lower(bytes@.take(i as int)) + seq![hex_digit(b / 16), hex_digit(b % 16)]);
        i = i + 1;
    }
    assert(bytes@.take(bytes@.len() as int) =~= bytes@);
    s
}

/// The text that identifies an item: its URL, publication date, ticker symbol and
/// title, separated by `|`.
pub open spec fn fingerprint_source(item: ItemView) -> Seq<char> {
    item.url + "|"@ + item.published_at + "|"@ + item.ticker_symbol + "|"@ + item.title
}

/// An item's identifying text holds its fields whole and in this order: the URL,
/// a `|`, the publication date, a `|`, the ticker symbol, a `|` and the title.
pub proof fn lemma_source_fields(item: ItemView)
    ensures
        ({
            let s = fingerprint_source(item);
            let u = item.url.len() as int;
            let p = item.published_at.len() as int;
            let t = item.ticker_symbol.len() as int;
            &&& s.len() == u + p + t + item.title.len() + 3
            &&& s.subrange(0, u) == item.url
            &&& s[u] == '|'
            &&& s.subrange(u + 1, u + 1 + p) == item.published_at
            &&& s[u + 1 + p] == '|'
            &&& s.subrange(u + p + 2, u + p + 2 + t) == item.ticker_symbol
            &&& s[u + p + t + 2] == '|'
            &&& s.skip(u + p + t + 3) == item.title
        }),
{
    reveal_strlit("|");
    let s = fingerprint_source(item);
    let u = item.url.len() as int;
    let p = item.published_at.len() as int;
    let t = item.ticker_symbol.len() as int;
    assert(s.subrange(0, u) =~= item.url);
    assert(s.subrange(u + 1, u + 1 + p) =~= item.published_at);
    assert(s.subrange(u + p + 2, u + p + 2 + t) =~= item.ticker_symbol);
    assert(s.skip(u + p + t + 3) =~= item.title);
}

/// Text before a `|` is read back whole: when neither `x1` nor `x2` holds a `|`,
/// `x1`, a `|` and `r1` equal `x2`, a `|` and `r2` only if `x1 == x2` and `r1 == r2`.
proof fn lemma_split_at_bar(x1: Seq<char>, r1: Seq<char>, x2: Seq<char>, r2: Seq<char>)
    requires
        !x1.contains('|'),
        !x2.contains('|'),
        x1 + "|"@ + r1 == x2 + "|"@ + r2,
    ensures
        x1 == x2,
        r1 == r2,
{
    reveal_strlit("|");
    let a = x1 + "|"@ + r1;
    let b = x2 + "|"@ + r2;
    if x1.len() < x2.len() {
        assert(a[x1.len() as int] == '|');
        assert(b[x1.len() as int] == x2[x1.len() as int]);
        assert(x2.contains('|'));
    } else if x2.len() < x1.len() {
        assert(b[x2.len() as int] == '|');
        assert(a[x2.len() as int] == x1[x2.len() as int]);
        assert(x1.contains('|'));
    } else {
        assert(x1 =~= a.take(x1.len() as int));
        assert(x2 =~= b.take(x2.len() as int));
        assert(r1 =~= a.skip(x1.len() as int + 1));
        assert(r2 =~= b.skip(x2.len() as int + 1));
    }
}

/// An item's identifying text tells it apart: for items whose URL, publication
/// date and ticker symbol hold no `|`, the same text means the same URL, date,
/// ticker symbol and whole title. Cutting the text at its `|`s gives back each field.
pub proof fn lemma_source_identifies_item(a: ItemView, b: ItemView)
    requires
        !a.url.contains('|'),
        !a.published_at.contains('|'),
        !a.ticker_symbol.contains('|'),
        !b.url.contains('|'),
        !b.published_at.contains('|'),
        !b.ticker_symbol.contains('|'),
        fingerprint_source(a) == fingerprint_source(b),
    ensures
        a.url == b.url,
        a.published_at == b.published_at,
        a.ticker_symbol == b.ticker_symbol,
        a.title == b.title,
{
    let bar = "|"@;
    let ra = a.published_at + bar + a.ticker_symbol + bar + a.title;
    let rb = b.published_at + bar + b.ticker_symbol + bar + b.title;
    assert(fingerprint_source(a) =~= a.url + bar + ra);
    assert(fingerprint_source(b) =~= b.url + bar + rb);
    lemma_split_at_bar(a.url, ra, b.url, rb);
    let sa = a.ticker_symbol + bar + a.title;
    let sb = b.ticker_symbol + bar + b.title;
    assert(ra =~= a.published_at + bar + sa);
    assert(rb =~= b.published_at + bar + sb);
    lemma_split_at_bar(a.published_at, sa, b.published_at, sb);
    lemma_split_at_bar(a.ticker_symbol, a.title, b.ticker_symbol, b.title);
}

/// The fingerprint of an item: the SHA-256 digest of the UTF-8 bytes of its
/// identifying text, in lower-case hexadecimal.
pub open spec fn fingerprint_of(item: ItemView) -> Seq<char> {
    hex_lower(sha256_of(encode_utf8(fingerprint_source(item))))
}

/// Builds the identifying text of an item (see [`fingerprint_source`]).
pub fn source_text(item: &ScrapedItem) -> (s: String)
    ensures
        s@ == fingerprint_source(item@),
{
    let mut s = item.url.clone();
    s.append("|");
    s.append(item.published_at.as_str());
    s.append("|");
    s.append(item.ticker_symbol.as_str());
    s.append("|");
    s.append(item.title.as_str());
    s
}

/// The fingerprint of an item (see [`fingerprint_of`]), 64 hexadecimal digits.
pub fn generate_fingerprint(item: &ScrapedItem) -> (fp: String)
    ensures
        fp@ == fingerprint_of(item@),
        fp@.len() == 64,
{
    let source = source_text(item);
    let digest = sha256_digest(source.as_str().as_bytes());
    to_hex_lower(digest.as_slice())
}

/// The items of `items` whose fingerprint is not among `keys`, in order, each
/// with its fingerprint.
pub open spec fn new_items(items: Seq<ItemView>, keys: Seq<Seq<char>>) -> Seq<(Seq<char>, ItemView)>
    decreases items.len(),
{
    if items.len() == 0 {
        seq![]
    } else {
        let before = new_items(items.drop_last(), keys);
        let fp = fingerprint_of(items.last());
        if keys.contains(fp) {
            before
        } else {
            before.push((fp, items.last()))
        }
    }
}

/// The views of pairs of a fingerprint and an item.
pub open spec fn pair_views(v: Seq<(String, ScrapedItem)>) -> Seq<(Seq<char>, ItemView)> {
    v.map_values(|p: (String, ScrapedItem)| (p.0@, p.1@))
}

fn contains_key(keys: &Vec<String>, key: &String) -> (found: bool)
    ensures
        found == string_views(keys@).contains(key@),
{
    let mut i: usize = 0;
    while i < keys.len()
        invariant
            i <= keys@.len(),
            forall|j: int| 0 <= j < i ==> keys@[j]@ != key@,
        decreases keys@.len() - i,
    {
        if keys[i] == *key {
            assert(string_views(keys@)[i as int] == key@);
            return true;
        }
        i = i + 1;
    }
    assert forall|j: int| 0 <= j < string_views(keys@).len() implies string_views(keys@)[j] != key@ by {
        assert(string_views(keys@)[j] == keys@[j]@);
    }
    false
}

/// Checks the scraped items against the state: returns those that were not
/// notified yet (see [`new_items`]). It never fails.
pub fn detect_new_item(output: &ScraperOutput, state: &State) -> (result: Result<Vec<(String, ScrapedItem)>, AppError>)
    ensures
        result matches Ok(v) && pair_views(v@) == new_items(item_views(output.items@), state@.notified_item_keys),
{
    let ghost iv = item_views(output.items@);
    let ghost keys = state@.notified_item_keys;
    let mut found: Vec<(String, ScrapedItem)> = Vec::new();
    let mut i: usize = 0;
    while i < output.items.len()
        invariant
            i <= output.items@.len(),
            iv == item_views(output.items@),
            keys == string_views(state.notified_item_keys@),
            pair_views(found@) == new_items(iv.take(i as int), keys),
        decreases output.items@.len() - i,
    {
        let item = &output.items[i];
        assert(iv.take(i + 1).drop_last() =~= iv.take(i as int));
        assert(iv.take(i + 1).last() == item@);
        let fp = generate_fingerprint(item);
        if !contains_key(&state.notified_item_keys, &fp) {
            let ghost before = pair_views(found@);
            let copy = item.clone();
            found.push((fp, copy));
            assert(pair_views(found@) =~= before.push((fingerprint_of(item@), item@)));
        }
        i = i + 1;
    }
    assert(iv.take(output.items@.len() as int) =~= iv);
    Ok(found)
}

/// Every item reported as new has a fingerprint that is not among the known
/// ones, and it is that item's fingerprint; the reported items are items of
/// the input, in their order.
pub proof fn lemma_new_items_are_new(items: Seq<ItemView>, keys: Seq<Seq<char>>)
    ensures
        new_items(items, keys).len() <= items.len(),
        forall|k: int| 0 <= k < new_items(items, keys).len() ==> {
            let p = #[trigger] new_items(items, keys)[k];
            &&& !keys.contains(p.0)
            &&& p.0 == fingerprint_of(p.1)
            &&& items.contains(p.1)
        },
    decreases items.len(),
{
    if items.len() > 0 {
        let rest = items.drop_last();
        lemma_new_items_are_new(rest, keys);
        let before = new_items(rest, keys);
        assert forall|k: int| 0 <= k < new_items(items, keys).len() implies ({
            let p = #[trigger] new_items(items, keys)[k];
            &&& !keys.contains(p.0)
            &&& p.0 == fingerprint_of(p.1)
            &&& items.contains(p.1)
        }) by {
            let p = new_items(items, keys)[k];
            if k < before.len() {
                assert(p == before[k]);
                let j = choose|j: int| 0 <= j < rest.len() && rest[j] == p.1;
                assert(items[j] == p.1);
            } else {
                assert(items[items.len() - 1] == p.1);
            }
        }
    }
}

/// Against no known fingerprints, every item is new.
pub proof fn lemma_all_new_when_nothing_known(items: Seq<ItemView>)
    ensures
        new_items(items, Seq::empty()).len() == items.len(),
        forall|k: int| 0 <= k < items.len() ==> (#[trigger] new_items(items, Seq::empty())[k]).1 == items[k],
    decreases items.len(),
{
    if items.len() > 0 {
        lemma_all_new_when_nothing_known(items.drop_last());
        let before = new_items(items.drop_last(), Seq::empty());
        assert forall|k: int| 0 <= k < items.len() implies (#[trigger] new_items(items, Seq::empty())[k]).1 == items[k] by {
            if k < items.len() - 1 {
                assert(new_items(items, Seq::empty())[k] == before[k]);
            }
        }
    }
}

proof fn lemma_known_stays_known(items: Seq<ItemView>, keys: Seq<Seq<char>>, more: Seq<Seq<char>>)
    requires
        new_items(items, keys).len() == 0,
    ensures
        new_items(items, keys + more).len() == 0,
    decreases items.len(),
{
    if items.len() > 0 {
        let fp = fingerprint_of(items.last());
        if !keys.contains(fp) {
            assert(new_items(items, keys).len() == new_items(items.drop_last(), keys).len() + 1);
        }
        lemma_known_stays_known(items.drop_last(), keys, more);
        let j = choose|j: int| 0 <= j < keys.len() && keys[j] == fp;
        assert((keys + more)[j] == fp);
    }
}

/// Once the fingerprints of the new items are added to the known ones, checking
/// the same items again finds nothing new.
pub proof fn lemma_recorded_items_are_not_new_again(items: Seq<ItemView>, keys: Seq<Seq<char>>)
    ensures
        new_items(items, keys + new_items(items, keys).map_values(|p: (Seq<char>, ItemView)| p.0)).len() == 0,
    decreases items.len(),
{
    let f = |p: (Seq<char>, ItemView)| p.0;
    if items.len() > 0 {
        let rest = items.drop_last();
        let before = new_items(rest, keys);
        lemma_recorded_items_are_not_new_again(rest, keys);
        let fp = fingerprint_of(items.last());
        let all = keys + new_items(items, keys).map_values(f);
        if keys.contains(fp) {
            let j = choose|j: int| 0 <= j < keys.len() && keys[j] == fp;
            assert(all[j] == fp);
        } else {
            assert(new_items(items, keys).map_values(f) =~= before.map_values(f).push(fp));
            assert(all =~= (keys + before.map_values(f)) + seq![fp]);
            lemma_known_stays_known(rest, keys + before.map_values(f), seq![fp]);
            assert(all[all.len() - 1] == fp);
        }
    }
}

/// Knowing more fingerprints never finds more new items: against known
/// fingerprints `more` that include all of `keys`, the new items are those found
/// against `keys` whose fingerprint is not among `more`, in the same order.
pub proof fn lemma_more_known_finds_no_more(items: Seq<ItemView>, keys: Seq<Seq<char>>, more: Seq<Seq<char>>)
    requires
        forall|k: Seq<char>| #[trigger] keys.contains(k) ==> more.contains(k),
    ensures
        new_items(items, more) == new_items(items, keys).filter(
            |p: (Seq<char>, ItemView)| !more.contains(p.0),
        ),
        new_items(items, more).len() <= new_items(items, keys).len(),
    decreases items.len(),
{
    let unknown = |p: (Seq<char>, ItemView)| !more.contains(p.0);
    if items.len() == 0 {
        assert(Seq::<(Seq<char>, ItemView)>::empty().filter(unknown) =~= Seq::<(Seq<char>, ItemView)>::empty());
    } else {
        let rest = items.drop_last();
        lemma_more_known_finds_no_more(rest, keys, more);
        let fp = fingerprint_of(items.last());
        let before = new_items(rest, keys);
        if !keys.contains(fp) {
            before.lemma_filter_push((fp, items.last()), unknown);
        }
    }
    new_items(items, keys).lemma_filter_len(unknown);
}

} // verus!
