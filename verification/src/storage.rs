use vstd::prelude::*;

use crate::text::{
    joined, lemma_lines_have_no_newline, lemma_lines_of_joined, lemma_plain_lines_come_back, lines_of,
    plain_line, push_char,
    split_lines, string_views, terminated,
};

verus! {

broadcast use vstd::seq_lib::group_seq_properties;

/// What pruning a history file decides: how many of its oldest records go, and
/// the text that the file is left with.
pub struct PrunedFile {
    pub pruned_count: usize,
    pub content: String,
}

/// Pruning keeps the newest `limit` lines of `text`: `None` when it has no more
/// than `limit` lines (the file stays as it is); otherwise how many lines go and
/// the text of the remaining ones, each followed by a newline.
pub open spec fn prune_spec(text: Seq<char>, limit: int) -> Option<(int, Seq<char>)> {
    let ls = lines_of(text);
    if ls.len() <= limit {
        None
    } else {
        Some((ls.len() - limit, joined(ls.skip(ls.len() - limit))))
    }
}

/// Decides how a history file of text `text` is pruned to its newest `limit`
/// records, one per line (see [`prune_spec`]).
pub fn prune_text(text: &str, limit: usize) -> (result: Option<PrunedFile>)
    ensures
        match prune_spec(text@, limit as int) {
            None => result is None,
            Some((count, content)) => result matches Some(p) && p.pruned_count == count
                && p.content@ == content,
        },
{
    let lines = split_lines(text);
    let ghost ls = string_views(lines@);
    let total = lines.len();
    if total <= limit {
        return None;
    }
    let pruned_count = total - limit;
    let mut content = String::new();
    let mut i: usize = pruned_count;
    let ghost kept = ls.skip(pruned_count as int);
    while i < total
        invariant
            pruned_count <= i <= total,
            total == lines@.len(),
            ls == string_views(lines@),
            kept == ls.skip(pruned_count as int),
            content@ == joined(kept.take(i - pruned_count)),
        decreases total - i,
    {
        proof {
            let k = i - pruned_count;
            let t = |l: Seq<char>| terminated(l);
            assert(kept.take(k + 1) =~= kept.take(k).push(kept[k]));
            assert(kept.take(k + 1).map_values(t) =~= kept.take(k).map_values(t).push(terminated(kept[k])));
            kept.take(k).map_values(t).lemma_flatten_push(terminated(kept[k]));
            assert(kept[k] == lines@[i as int]@);
        }
        content.append(lines[i].as_str());
        push_char(&mut content, '\n');
        assert(content@ =~= joined(kept.take(i - pruned_count)) + terminated(lines@[i as int]@));
        i = i + 1;
    }
    assert(kept.take(total - pruned_count) =~= kept);
    Some(PrunedFile { pruned_count, content })
}

/// A pruned file keeps exactly `limit` records, and pruning it again leaves it
/// as it is.
pub proof fn lemma_prune_settles(text: Seq<char>, limit: int)
    requires
        limit >= 0,
    ensures
        prune_spec(text, limit) matches Some((_, content)) ==> lines_of(content).len() == limit
            && prune_spec(content, limit) is None,
{
    let ls = lines_of(text);
    if ls.len() > limit {
        let kept = ls.skip(ls.len() - limit);
        lemma_lines_have_no_newline(text);
        assert forall|k: int| 0 <= k < kept.len() implies !(#[trigger] kept[k]).contains('\n') by {
            let j = ls.len() - limit + k;
            assert(kept[k] == ls[j]);
        }
        lemma_lines_of_joined(kept);
    }
}

/// Pruning keeps the newest records as they were, when none of them ends with a
/// carriage return.
pub proof fn lemma_prune_keeps_newest(text: Seq<char>, limit: int)
    requires
        limit >= 0,
        lines_of(text).len() > limit,
        forall|k: int| lines_of(text).len() - limit <= k < lines_of(text).len() ==> {
            let l = #[trigger] lines_of(text)[k];
            l.len() == 0 || l.last() != '\r'
        },
    ensures
        prune_spec(text, limit) matches Some((count, content)) && count == lines_of(text).len() - limit
            && lines_of(content) == lines_of(text).skip(count),
{
    let ls = lines_of(text);
    let kept = ls.skip(ls.len() - limit);
    lemma_lines_have_no_newline(text);
    assert forall|k: int| 0 <= k < kept.len() implies plain_line(#[trigger] kept[k]) by {
        let j = ls.len() - limit + k;
        assert(kept[k] == ls[j]);
        assert(!ls[j].contains('\n'));
    }
    lemma_plain_lines_come_back(kept);
}

/// Pruning closes every kept record with a newline: what is left is the newest
/// `limit` lines of the file, each followed by a newline, so it ends with a
/// newline unless nothing is kept, and a record appended afterwards starts a
/// line of its own.
pub proof fn lemma_prune_closes_every_record(text: Seq<char>, limit: int)
    requires
        limit >= 0,
    ensures
        prune_spec(text, limit) matches Some((count, content)) ==> {
            &&& count == lines_of(text).len() - limit
            &&& content == joined(lines_of(text).skip(count))
            &&& content.len() == 0 <==> limit == 0
            &&& content.len() > 0 ==> content.last() == '\n'
        },
{
    let ls = lines_of(text);
    if ls.len() > limit {
        let kept = ls.skip(ls.len() - limit);
        let tf = |l: Seq<char>| terminated(l);
        if limit == 0 {
            assert(kept =~= Seq::<Seq<char>>::empty());
            assert(kept.map_values(tf) =~= Seq::<Seq<char>>::empty());
            assert(joined(kept) =~= Seq::<char>::empty());
        } else {
            let rest = kept.drop_last();
            assert(kept.map_values(tf) =~= rest.map_values(tf).push(terminated(kept.last())));
            rest.map_values(tf).lemma_flatten_push(terminated(kept.last()));
            assert(joined(kept) == joined(rest) + terminated(kept.last()));
        }
    }
}

} // verus!
