use vstd::prelude::*;

use crate::constants::{CONTENT_LIMIT, LOG_CHUNK_LIMIT};
use crate::text::{
    joined, lemma_joined_lines_of, lemma_lines_have_no_newline, lemma_line_scan_closed, lemma_line_scan_concat,
    lemma_line_scan_no_newline, lines_of, no_crlf, push_char, split_lines, string_views, strip_cr,
    terminated,
};

verus! {

broadcast use vstd::seq_lib::group_seq_properties;

/// Cuts `t` into pieces, one character after another: once the open piece holds
/// `limit` characters it is closed and the next character starts a new one.
/// The closed pieces and the open piece.
pub open spec fn cut_scan(t: Seq<char>, limit: int) -> (Seq<Seq<char>>, Seq<char>)
    decreases t.len(),
{
    if t.len() == 0 {
        (seq![], seq![])
    } else {
        let (pieces, open) = cut_scan(t.drop_last(), limit);
        if open.len() >= limit {
            (pieces.push(open), seq![t.last()])
        } else {
            (pieces, open.push(t.last()))
        }
    }
}

/// The chunks that are closed so far and the chunk that is being filled, after
/// the lines have been placed greedily: a line and its newline go into the current
/// chunk while the chunk stays within `limit` characters; otherwise the current
/// chunk, unless it is empty, is closed, and the line and its newline are cut into
/// pieces of `limit` characters (see [`cut_scan`]), the last of which stays open.
pub open spec fn chunk_scan(lines: Seq<Seq<char>>, limit: int) -> (Seq<Seq<char>>, Seq<char>)
    decreases lines.len(),
{
    if lines.len() == 0 {
        (seq![], seq![])
    } else {
        let (closed, current) = chunk_scan(lines.drop_last(), limit);
        let t = terminated(lines.last());
        if current.len() + t.len() <= limit {
            (closed, current + t)
        } else {
            let kept = if current.len() == 0 {
                closed
            } else {
                closed.push(current)
            };
            let (pieces, open) = cut_scan(t, limit);
            (kept + pieces, open)
        }
    }
}

/// The chunks of at most `limit` characters that `lines` are split into; the
/// chunk left open at the end is kept unless it is empty. No chunk can keep to a
/// limit below one character, so then there are none.
pub open spec fn chunks_of(lines: Seq<Seq<char>>, limit: int) -> Seq<Seq<char>> {
    if limit <= 0 {
        seq![]
    } else {
        let (closed, current) = chunk_scan(lines, limit);
        if current.len() == 0 {
            closed
        } else {
            closed.push(current)
        }
    }
}

/// A chunk holds at least one and at most `limit` characters.
pub open spec fn chunk_fits(chunk: Seq<char>, limit: int) -> bool {
    0 < chunk.len() <= limit
}

/// Cutting a text into pieces drops, reorders and adds nothing.
proof fn lemma_cut_keeps_text(t: Seq<char>, limit: int)
    ensures
        cut_scan(t, limit).0.flatten() + cut_scan(t, limit).1 == t,
    decreases t.len(),
{
    if t.len() == 0 {
        assert(Seq::<Seq<char>>::empty().flatten() =~= Seq::<char>::empty());
        assert(cut_scan(t, limit).0.flatten() + cut_scan(t, limit).1 =~= t);
    } else {
        let s = t.drop_last();
        lemma_cut_keeps_text(s, limit);
        let (pieces, open) = cut_scan(s, limit);
        assert(s.push(t.last()) =~= t);
        if open.len() >= limit {
            pieces.lemma_flatten_push(open);
            assert(pieces.push(open).flatten() + seq![t.last()] =~= t);
        } else {
            assert(pieces.flatten() + open.push(t.last()) =~= (pieces.flatten() + open).push(t.last()));
        }
    }
}

/// Every closed piece holds exactly `limit` characters, the open piece at most
/// `limit`, and at least one when the text is not empty; a text that keeps to the
/// limit is not cut.
proof fn lemma_cut_sizes(t: Seq<char>, limit: int)
    requires
        limit > 0,
    ensures
        forall|k: int| 0 <= k < cut_scan(t, limit).0.len()
            ==> (#[trigger] cut_scan(t, limit).0[k]).len() == limit,
        cut_scan(t, limit).1.len() <= limit,
        t.len() > 0 ==> cut_scan(t, limit).1.len() > 0,
        t.len() <= limit ==> cut_scan(t, limit) == (Seq::<Seq<char>>::empty(), t),
    decreases t.len(),
{
    if t.len() > 0 {
        let s = t.drop_last();
        lemma_cut_sizes(s, limit);
        let (pieces, open) = cut_scan(s, limit);
        if open.len() >= limit {
            assert(pieces.push(open)[pieces.len() as int] == open);
        } else if t.len() <= limit {
            assert(open.push(t.last()) =~= t);
        }
    }
}

proof fn lemma_scan_text(lines: Seq<Seq<char>>, limit: int)
    ensures
        chunk_scan(lines, limit).0.flatten() + chunk_scan(lines, limit).1 == joined(lines),
    decreases lines.len(),
{
    let tf = |l: Seq<char>| terminated(l);
    if lines.len() == 0 {
        assert(lines.map_values(tf) =~= Seq::<Seq<char>>::empty());
        assert(chunk_scan(lines, limit).0.flatten() + chunk_scan(lines, limit).1 =~= Seq::<char>::empty());
    } else {
        let rest = lines.drop_last();
        let t = terminated(lines.last());
        lemma_scan_text(rest, limit);
        assert(lines.map_values(tf) =~= rest.map_values(tf).push(t));
        rest.map_values(tf).lemma_flatten_push(t);
        let (closed, current) = chunk_scan(rest, limit);
        if current.len() + t.len() <= limit {
            assert(closed.flatten() + (current + t) =~= closed.flatten() + current + t);
        } else {
            let kept = if current.len() == 0 {
                closed
            } else {
                closed.push(current)
            };
            if current.len() == 0 {
                assert(closed.flatten() + current =~= closed.flatten());
            } else {
                closed.lemma_flatten_push(current);
            }
            let (pieces, open) = cut_scan(t, limit);
            lemma_cut_keeps_text(t, limit);
            vstd::seq_lib::lemma_flatten_concat(kept, pieces);
            assert((kept + pieces).flatten() + open =~= kept.flatten() + (pieces.flatten() + open));
        }
    }
}

proof fn lemma_scan_sizes(lines: Seq<Seq<char>>, limit: int)
    requires
        limit > 0,
    ensures
        forall|k: int| 0 <= k < chunk_scan(lines, limit).0.len()
            ==> chunk_fits(#[trigger] chunk_scan(lines, limit).0[k], limit),
        chunk_scan(lines, limit).1.len() <= limit,
        lines.len() > 0 ==> chunk_scan(lines, limit).1.len() > 0,
    decreases lines.len(),
{
    if lines.len() > 0 {
        let rest = lines.drop_last();
        lemma_scan_sizes(rest, limit);
        let (closed, current) = chunk_scan(rest, limit);
        let t = terminated(lines.last());
        if current.len() + t.len() > limit {
            let kept = if current.len() == 0 {
                closed
            } else {
                closed.push(current)
            };
            assert forall|k: int| 0 <= k < kept.len() implies chunk_fits(#[trigger] kept[k], limit) by {
                if k < closed.len() {
                    assert(kept[k] == closed[k]);
                }
            }
            let (pieces, open) = cut_scan(t, limit);
            lemma_cut_sizes(t, limit);
            assert forall|k: int| 0 <= k < (kept + pieces).len() implies chunk_fits(
                #[trigger] (kept + pieces)[k],
                limit,
            ) by {
                if k >= kept.len() {
                    assert((kept + pieces)[k] == pieces[k - kept.len()]);
                }
            }
        }
    }
}

/// Placing lines into chunks drops, reorders and adds nothing: for a limit of at
/// least one character, the chunks put together are the lines, each followed by
/// a newline.
pub proof fn lemma_chunks_keep_text(lines: Seq<Seq<char>>, limit: int)
    requires
        limit > 0,
    ensures
        chunks_of(lines, limit).flatten() == joined(lines),
{
    lemma_scan_text(lines, limit);
    let (closed, current) = chunk_scan(lines, limit);
    if current.len() == 0 {
        assert(closed.flatten() + current =~= closed.flatten());
    } else {
        closed.lemma_flatten_push(current);
    }
}

/// Every chunk holds at least one and at most `limit` characters.
pub proof fn lemma_chunk_sizes(lines: Seq<Seq<char>>, limit: int)
    ensures
        forall|k: int| 0 <= k < chunks_of(lines, limit).len()
            ==> chunk_fits(#[trigger] chunks_of(lines, limit)[k], limit),
{
    if limit > 0 {
        lemma_scan_sizes(lines, limit);
        let (closed, current) = chunk_scan(lines, limit);
        assert forall|k: int| 0 <= k < chunks_of(lines, limit).len() implies chunk_fits(
            #[trigger] chunks_of(lines, limit)[k],
            limit,
        ) by {
            if k < closed.len() {
                assert(chunks_of(lines, limit)[k] == closed[k]);
            }
        }
    }
}

/// The chunks closed and the chunk being filled, at a limit of `large`
/// characters, all hold at most `small` characters.
spec fn scan_within(lines: Seq<Seq<char>>, small: int, large: int) -> bool {
    &&& forall|k: int| 0 <= k < chunk_scan(lines, large).0.len()
        ==> (#[trigger] chunk_scan(lines, large).0[k]).len() <= small
    &&& chunk_scan(lines, large).1.len() <= small
}

proof fn lemma_scan_within_prefix(lines: Seq<Seq<char>>, small: int, large: int)
    requires
        lines.len() > 0,
        scan_within(lines, small, large),
    ensures
        scan_within(lines.drop_last(), small, large),
{
    let rest = lines.drop_last();
    let (closed, current) = chunk_scan(rest, large);
    let t = terminated(lines.last());
    let all = chunk_scan(lines, large).0;
    if current.len() + t.len() <= large {
        assert((current + t).len() >= current.len());
    } else {
        let kept = if current.len() == 0 {
            closed
        } else {
            closed.push(current)
        };
        let pieces = cut_scan(t, large).0;
        assert forall|k: int| 0 <= k < closed.len() implies (#[trigger] closed[k]).len() <= small by {
            assert(all[k] == (kept + pieces)[k]);
            assert(kept[k] == closed[k]);
        }
        if current.len() > 0 {
            assert(all[closed.len() as int] == current);
        }
    }
}

proof fn lemma_scan_same_at_smaller_limit(lines: Seq<Seq<char>>, small: int, large: int)
    requires
        0 < small < large,
        scan_within(lines, small, large),
    ensures
        chunk_scan(lines, small) == chunk_scan(lines, large),
    decreases lines.len(),
{
    if lines.len() > 0 {
        let rest = lines.drop_last();
        lemma_scan_within_prefix(lines, small, large);
        lemma_scan_same_at_smaller_limit(rest, small, large);
        let (closed, current) = chunk_scan(rest, large);
        let t = terminated(lines.last());
        if current.len() + t.len() > large {
            let kept = if current.len() == 0 {
                closed
            } else {
                closed.push(current)
            };
            let (pieces, open) = cut_scan(t, large);
            lemma_cut_sizes(t, large);
            lemma_cut_keeps_text(t, large);
            if t.len() > large {
                if pieces.len() == 0 {
                    assert(pieces =~= Seq::<Seq<char>>::empty());
                    assert(pieces.flatten() =~= Seq::<char>::empty());
                    assert(pieces.flatten() + open =~= open);
                }
                assert(chunk_scan(lines, large).0[kept.len() as int] == pieces[0]);
                assert(false);
            }
            lemma_cut_sizes(t, small);
        }
    }
}

/// Chunks that keep to a smaller limit anyway come out the same at that limit:
/// when every chunk at a limit of `large` characters holds at most `small`, the
/// chunks at `small` are the same chunks.
pub proof fn lemma_chunks_same_at_smaller_limit(lines: Seq<Seq<char>>, small: int, large: int)
    requires
        0 < small <= large,
        forall|k: int| 0 <= k < chunks_of(lines, large).len()
            ==> (#[trigger] chunks_of(lines, large)[k]).len() <= small,
    ensures
        chunks_of(lines, small) == chunks_of(lines, large),
{
    if small < large {
        let (closed, current) = chunk_scan(lines, large);
        assert forall|k: int| 0 <= k < closed.len() implies (#[trigger] closed[k]).len() <= small by {
            assert(chunks_of(lines, large)[k] == closed[k]);
        }
        if current.len() > 0 {
            assert(chunks_of(lines, large)[closed.len() as int] == current);
        }
        lemma_scan_same_at_smaller_limit(lines, small, large);
    }
}

/// When every chunk of the log at Discord's 2000 characters holds at most 1992,
/// the Discord chunks are those very chunks, each in a code block.
pub proof fn lemma_discord_chunks_are_fenced_chunks(text: Seq<char>)
    requires
        forall|k: int| 0 <= k < chunks_of(lines_of(text), CONTENT_LIMIT as int).len()
            ==> (#[trigger] chunks_of(lines_of(text), CONTENT_LIMIT as int)[k]).len() <= LOG_CHUNK_LIMIT,
    ensures
        chunks_of(lines_of(text), LOG_CHUNK_LIMIT as int).map_values(|c: Seq<char>| code_block(c))
            == chunks_of(lines_of(text), CONTENT_LIMIT as int).map_values(|c: Seq<char>| code_block(c)),
{
    lemma_chunks_same_at_smaller_limit(lines_of(text), LOG_CHUNK_LIMIT as int, CONTENT_LIMIT as int);
}

/// `chunk` has no room for the first line of `next` (up to and including its
/// first newline, or all of `next` when it has none): the two together exceed
/// `limit` characters.
pub open spec fn no_room_for_next(chunk: Seq<char>, next: Seq<char>, limit: int) -> bool {
    &&& chunk.len() + next.len() > limit
    &&& forall|i: int| 0 <= i < next.len() && #[trigger] next[i] == '\n' ==> chunk.len() + i + 1 > limit
}

/// Each chunk of `chunks` but the last has no room for the first line of the next.
pub open spec fn greedy(chunks: Seq<Seq<char>>, limit: int) -> bool {
    forall|k: int|
        #![trigger chunks[k]]
        0 <= k < chunks.len() - 1 ==> no_room_for_next(chunks[k], chunks[k + 1], limit)
}

/// No newline anywhere in `s`.
spec fn newline_free(s: Seq<char>) -> bool {
    forall|i: int| 0 <= i < s.len() ==> #[trigger] s[i] != '\n'
}

proof fn lemma_no_room_extends(a: Seq<char>, b: Seq<char>, x: Seq<char>, limit: int)
    requires
        no_room_for_next(a, b, limit),
    ensures
        no_room_for_next(a, b + x, limit),
{
    assert forall|i: int| 0 <= i < (b + x).len() && #[trigger] (b + x)[i] == '\n' implies a.len() + i + 1 > limit by {
        if i < b.len() {
            assert(b[i] == (b + x)[i]);
        }
    }
}

proof fn lemma_full_chunk_has_no_room(a: Seq<char>, b: Seq<char>, limit: int)
    requires
        a.len() >= limit,
        b.len() > 0,
    ensures
        no_room_for_next(a, b, limit),
{
}

proof fn lemma_greedy_concat(a: Seq<Seq<char>>, b: Seq<Seq<char>>, limit: int)
    requires
        greedy(a, limit),
        greedy(b, limit),
        a.len() > 0 && b.len() > 0 ==> no_room_for_next(a.last(), b[0], limit),
    ensures
        greedy(a + b, limit),
{
    let c = a + b;
    assert forall|k: int| #![trigger c[k]] 0 <= k < c.len() - 1 implies no_room_for_next(c[k], c[k + 1], limit) by {
        if k < a.len() - 1 {
            assert(c[k] == a[k] && c[k + 1] == a[k + 1]);
        } else if k == a.len() - 1 {
            assert(c[k] == a.last() && c[k + 1] == b[0]);
        } else {
            let j = k - a.len();
            assert(c[k] == b[j] && c[k + 1] == b[j + 1]);
            assert(no_room_for_next(b[j], b[j + 1], limit));
        }
    }
}

proof fn lemma_greedy_prefix(a: Seq<Seq<char>>, x: Seq<char>, limit: int)
    requires
        greedy(a.push(x), limit),
    ensures
        greedy(a, limit),
        a.len() > 0 ==> no_room_for_next(a.last(), x, limit),
{
    let c = a.push(x);
    assert forall|k: int| #![trigger a[k]] 0 <= k < a.len() - 1 implies no_room_for_next(a[k], a[k + 1], limit) by {
        assert(c[k] == a[k] && c[k + 1] == a[k + 1]);
    }
    if a.len() > 0 {
        let k = a.len() - 1;
        assert(c[k] == a.last() && c[k + 1] == x);
    }
}

proof fn lemma_cut_newline_free(u: Seq<char>, limit: int)
    requires
        newline_free(u),
    ensures
        forall|k: int| 0 <= k < cut_scan(u, limit).0.len() ==> newline_free(#[trigger] cut_scan(u, limit).0[k]),
        newline_free(cut_scan(u, limit).1),
    decreases u.len(),
{
    if u.len() > 0 {
        let s = u.drop_last();
        assert(newline_free(s)) by {
            assert forall|i: int| 0 <= i < s.len() implies #[trigger] s[i] != '\n' by {
                assert(s[i] == u[i]);
            }
        }
        lemma_cut_newline_free(s, limit);
        let (p, o) = cut_scan(s, limit);
        assert(u[u.len() - 1] != '\n');
        if o.len() >= limit {
            assert forall|k: int| 0 <= k < p.push(o).len() implies newline_free(#[trigger] p.push(o)[k]) by {
                if k < p.len() {
                    assert(p.push(o)[k] == p[k]);
                }
            }
        } else {
            assert forall|i: int| 0 <= i < o.push(u.last()).len() implies #[trigger] o.push(u.last())[i] != '\n' by {
                if i < o.len() {
                    assert(o.push(u.last())[i] == o[i]);
                }
            }
        }
    }
}

/// How a line and its newline are cut: the pieces and the open piece follow one
/// another greedily, and a chunk `cur` that has no room for the whole line has no
/// room for its first piece either.
proof fn lemma_cut_greedy(line: Seq<char>, cur: Seq<char>, limit: int)
    requires
        limit > 0,
        newline_free(line),
    ensures
        greedy(cut_scan(terminated(line), limit).0.push(cut_scan(terminated(line), limit).1), limit),
        cur.len() > 0 && cur.len() + terminated(line).len() > limit ==> no_room_for_next(
            cur,
            cut_scan(terminated(line), limit).0.push(cut_scan(terminated(line), limit).1)[0],
            limit,
        ),
{
    let t = terminated(line);
    let (pieces, open) = cut_scan(t, limit);
    let all = pieces.push(open);
    lemma_cut_sizes(t, limit);
    lemma_cut_keeps_text(t, limit);
    assert(t.drop_last() =~= line);
    lemma_cut_newline_free(line, limit);
    let (p0, o0) = cut_scan(line, limit);
    assert forall|k: int| 0 <= k < pieces.len() implies newline_free(#[trigger] pieces[k]) by {
        if o0.len() >= limit {
            if k < p0.len() {
                assert(pieces[k] == p0[k]);
            } else {
                assert(pieces[k] == o0);
            }
        } else {
            assert(pieces[k] == p0[k]);
        }
    }
    assert forall|k: int| #![trigger all[k]] 0 <= k < all.len() - 1 implies no_room_for_next(all[k], all[k + 1], limit) by {
        assert(all[k] == pieces[k]);
        lemma_full_chunk_has_no_room(all[k], all[k + 1], limit);
    }
    if pieces.len() > 0 {
        assert(all[0] == pieces[0]);
        assert(newline_free(pieces[0]));
    } else if cur.len() > 0 && cur.len() + t.len() > limit {
        assert(pieces =~= Seq::<Seq<char>>::empty());
        assert(pieces.flatten() + open =~= open);
        assert(all[0] == t);
        assert forall|i: int| 0 <= i < t.len() && #[trigger] t[i] == '\n' implies cur.len() + i + 1 > limit by {
            if i < line.len() {
                assert(t[i] == line[i]);
            }
        }
    }
}

/// The invariant of [`chunk_scan`] behind [`lemma_chunks_are_greedy`].
spec fn scan_greedy(lines: Seq<Seq<char>>, limit: int) -> bool {
    &&& greedy(chunk_scan(lines, limit).0.push(chunk_scan(lines, limit).1), limit)
    &&& chunk_scan(lines, limit).0.len() > 0 ==> chunk_scan(lines, limit).1.len() > 0
}

proof fn lemma_scan_greedy(lines: Seq<Seq<char>>, limit: int)
    requires
        limit > 0,
        forall|k: int| 0 <= k < lines.len() ==> newline_free(#[trigger] lines[k]),
    ensures
        scan_greedy(lines, limit),
    decreases lines.len(),
{
    if lines.len() > 0 {
        let rest = lines.drop_last();
        assert forall|k: int| 0 <= k < rest.len() implies newline_free(#[trigger] rest[k]) by {
            assert(rest[k] == lines[k]);
        }
        lemma_scan_greedy(rest, limit);
        let (closed, current) = chunk_scan(rest, limit);
        let line = lines.last();
        assert(newline_free(lines[lines.len() - 1]));
        let t = terminated(line);
        lemma_cut_sizes(t, limit);
        lemma_greedy_prefix(closed, current, limit);
        if current.len() + t.len() <= limit {
            if closed.len() > 0 {
                lemma_no_room_extends(closed.last(), current, t, limit);
            }
            lemma_greedy_concat(closed, seq![current + t], limit);
            assert(closed + seq![current + t] =~= closed.push(current + t));
        } else {
            let kept = if current.len() == 0 {
                closed
            } else {
                closed.push(current)
            };
            let (pieces, open) = cut_scan(t, limit);
            if current.len() > 0 {
                lemma_cut_greedy(line, current, limit);
                assert(kept.last() == current);
            } else {
                assert(kept =~= Seq::<Seq<char>>::empty());
                lemma_cut_greedy(line, current, limit);
            }
            lemma_greedy_concat(kept, pieces.push(open), limit);
            assert(kept + pieces.push(open) =~= (kept + pieces).push(open));
        }
    }
}

/// Chunks are filled greedily: each chunk but the last has no room left for
/// the first line of the next one (its text up to and including its first
/// newline, or all of it when it has none), so a chunk is closed only when the
/// next line does not fit in it.
pub proof fn lemma_chunks_are_greedy(lines: Seq<Seq<char>>, limit: int)
    requires
        forall|k: int| 0 <= k < lines.len() ==> !(#[trigger] lines[k]).contains('\n'),
    ensures
        greedy(chunks_of(lines, limit), limit),
{
    if limit > 0 {
        assert forall|k: int| 0 <= k < lines.len() implies newline_free(#[trigger] lines[k]) by {
            assert forall|i: int| 0 <= i < lines[k].len() implies #[trigger] lines[k][i] != '\n' by {
                if lines[k][i] == '\n' {
                    assert(lines[k].contains('\n'));
                }
            }
        }
        lemma_scan_greedy(lines, limit);
        let (closed, current) = chunk_scan(lines, limit);
        if current.len() == 0 {
            assert(closed.len() == 0);
            assert(chunks_of(lines, limit) =~= Seq::<Seq<char>>::empty());
        }
    }
}

/// Every closed chunk ends a line or is full, and the chunk being filled ends a
/// line.
spec fn scan_cuts_full(lines: Seq<Seq<char>>, limit: int) -> bool {
    &&& forall|k: int| 0 <= k < chunk_scan(lines, limit).0.len() ==> {
        let c = #[trigger] chunk_scan(lines, limit).0[k];
        c.last() == '\n' || c.len() == limit
    }
    &&& chunk_scan(lines, limit).1.len() > 0 ==> chunk_scan(lines, limit).1.last() == '\n'
}

proof fn lemma_scan_cuts_full(lines: Seq<Seq<char>>, limit: int)
    requires
        limit > 0,
    ensures
        scan_cuts_full(lines, limit),
    decreases lines.len(),
{
    if lines.len() > 0 {
        let rest = lines.drop_last();
        lemma_scan_cuts_full(rest, limit);
        let (closed, current) = chunk_scan(rest, limit);
        let t = terminated(lines.last());
        lemma_cut_sizes(t, limit);
        if current.len() + t.len() > limit {
            let kept = if current.len() == 0 {
                closed
            } else {
                closed.push(current)
            };
            let (pieces, open) = cut_scan(t, limit);
            let all = kept + pieces;
            assert forall|k: int| 0 <= k < all.len() implies ((#[trigger] all[k]).last() == '\n'
                || all[k].len() == limit) by {
                if k < closed.len() {
                    assert(all[k] == closed[k]);
                } else if k < kept.len() {
                    assert(all[k] == current);
                } else {
                    assert(all[k] == pieces[k - kept.len()]);
                }
            }
            assert(t.drop_last() =~= lines.last());
        }
    }
}

/// A line is cut only where a chunk is full: every chunk that does not end with
/// a newline holds exactly `limit` characters.
pub proof fn lemma_lines_cut_only_at_full_chunks(lines: Seq<Seq<char>>, limit: int)
    ensures
        forall|k: int| 0 <= k < chunks_of(lines, limit).len() && (#[trigger] chunks_of(lines, limit)[k]).last() != '\n'
            ==> chunks_of(lines, limit)[k].len() == limit,
{
    if limit > 0 {
        lemma_scan_cuts_full(lines, limit);
        let (closed, current) = chunk_scan(lines, limit);
        assert forall|k: int| 0 <= k < chunks_of(lines, limit).len() && (#[trigger] chunks_of(lines, limit)[k]).last() != '\n'
            implies chunks_of(lines, limit)[k].len() == limit by {
            if k < closed.len() {
                assert(chunks_of(lines, limit)[k] == closed[k]);
            }
        }
    }
}

/// A text that fits within the limit is sent as one chunk: all the lines, each
/// followed by a newline.
pub proof fn lemma_fitting_text_is_one_chunk(lines: Seq<Seq<char>>, limit: int)
    requires
        lines.len() > 0,
        forall|k: int| 0 <= k < lines.len() ==> !(#[trigger] lines[k]).contains('\n'),
        joined(lines).len() <= limit,
    ensures
        chunks_of(lines, limit) == seq![joined(lines)],
{
    let tf = |l: Seq<char>| terminated(l);
    let rest = lines.drop_last();
    assert(lines.map_values(tf) =~= rest.map_values(tf).push(terminated(lines.last())));
    rest.map_values(tf).lemma_flatten_push(terminated(lines.last()));
    assert(joined(lines).len() > 0);
    let cs = chunks_of(lines, limit);
    lemma_chunks_keep_text(lines, limit);
    lemma_chunks_are_greedy(lines, limit);
    if cs.len() == 0 {
        assert(cs =~= Seq::<Seq<char>>::empty());
        assert(cs.flatten() =~= Seq::<char>::empty());
    } else if cs.len() == 1 {
        cs.lemma_flatten_one_element();
        assert(cs =~= seq![joined(lines)]);
    } else {
        let two = cs.take(2);
        vstd::seq_lib::lemma_flatten_concat(two, cs.skip(2));
        assert(two + cs.skip(2) =~= cs);
        assert(two.drop_first().flatten() == two[1] + two.drop_first().drop_first().flatten());
        assert(two.drop_first().drop_first() =~= Seq::<Seq<char>>::empty());
        assert(two.flatten() =~= cs[0] + cs[1]);
        assert(no_room_for_next(cs[0], cs[1], limit));
        assert(false);
    }
}

/// Sending a text in chunks sends all of it, in order and unchanged, when the
/// limit is at least one character, the text ends its last line with a newline
/// and never puts a carriage return right before a newline.
pub proof fn lemma_chunks_give_back_text(text: Seq<char>, limit: int)
    requires
        limit > 0,
        text.len() == 0 || text.last() == '\n',
        no_crlf(text),
    ensures
        chunks_of(lines_of(text), limit).flatten() == text,
{
    lemma_chunks_keep_text(lines_of(text), limit);
    lemma_joined_lines_of(text);
}

/// One step of [`cut_scan`]: closes `open` into `chunks` when it is full, then
/// adds `c` to it. Returns the new length of `open`.
fn cut_step(chunks: &mut Vec<String>, open: &mut String, open_len: usize, c: char, limit: usize) -> (n: usize)
    requires
        limit > 0,
        open_len == old(open)@.len(),
        open_len <= limit,
    ensures
        old(open)@.len() >= limit ==> string_views(final(chunks)@) == string_views(old(chunks)@).push(
            old(open)@,
        ) && final(open)@ == seq![c],
        old(open)@.len() < limit ==> string_views(final(chunks)@) == string_views(old(chunks)@)
            && final(open)@ == old(open)@.push(c),
        n == final(open)@.len(),
        n <= limit,
{
    let mut n = open_len;
    if open_len >= limit {
        let ghost before = string_views(chunks@);
        let mut full = String::new();
        std::mem::swap(&mut full, open);
        let ghost f = full@;
        chunks.push(full);
        assert(string_views(chunks@) =~= before.push(f));
        n = 0;
    }
    let ghost o = open@;
    push_char(open, c);
    assert(o.len() == 0 ==> open@ =~= seq![c]);
    n + 1
}

/// Cuts `line` and a newline into pieces (see [`cut_scan`]): appends the closed
/// pieces to `chunks` and returns the open piece and its length.
fn cut_line(chunks: &mut Vec<String>, line: &str, limit: usize) -> (res: (String, usize))
    requires
        limit > 0,
    ensures
        string_views(final(chunks)@) == string_views(old(chunks)@) + cut_scan(
            terminated(line@),
            limit as int,
        ).0,
        res.0@ == cut_scan(terminated(line@), limit as int).1,
        res.1 == res.0@.len(),
        res.1 <= limit,
{
    let ghost base = string_views(chunks@);
    let mut open = String::new();
    let mut open_len: usize = 0;
    assert(base + Seq::<Seq<char>>::empty() =~= base);
    for c in it: line.chars()
        invariant
            it.seq() == line@,
            limit > 0,
            string_views(chunks@) == base + cut_scan(line@.take(it.index()), limit as int).0,
            open@ == cut_scan(line@.take(it.index()), limit as int).1,
            open_len == open@.len(),
            open_len <= limit,
    {
        let ghost i = it.index();
        let ghost prev = cut_scan(line@.take(i), limit as int);
        assert(line@.take(i + 1).drop_last() =~= line@.take(i));
        open_len = cut_step(chunks, &mut open, open_len, c, limit);
        assert(base + prev.0.push(prev.1) =~= (base + prev.0).push(prev.1));
    }
    assert(line@.take(line@.len() as int) =~= line@);
    let ghost prev = cut_scan(line@, limit as int);
    assert(terminated(line@).drop_last() =~= line@);
    open_len = cut_step(chunks, &mut open, open_len, '\n', limit);
    assert(base + prev.0.push(prev.1) =~= (base + prev.0).push(prev.1));
    (open, open_len)
}

/// Groups `lines` into chunks of at most `limit` characters each (see [`chunks_of`]).
pub fn chunk_lines(lines: &Vec<String>, limit: usize) -> (chunks: Vec<String>)
    ensures
        string_views(chunks@) == chunks_of(string_views(lines@), limit as int),
{
    let mut chunks: Vec<String> = Vec::new();
    if limit == 0 {
        return chunks;
    }
    let ghost lv = string_views(lines@);
    let mut current = String::new();
    let mut current_len: usize = 0;
    let mut i: usize = 0;
    while i < lines.len()
        invariant
            limit > 0,
            i <= lines@.len(),
            lv == string_views(lines@),
            chunk_scan(lv.take(i as int), limit as int) == (string_views(chunks@), current@),
            current_len == current@.len(),
            current_len <= limit,
        decreases lines@.len() - i,
    {
        let line = &lines[i];
        assert(lv.take(i + 1).drop_last() =~= lv.take(i as int));
        assert(lv.take(i + 1).last() == line@);
        let line_len = line.as_str().unicode_len();
        if line_len < limit && current_len <= limit - 1 - line_len {
            let ghost base = current@;
            current.append(line.as_str());
            push_char(&mut current, '\n');
            current_len = current_len + line_len + 1;
            assert(current@ =~= base + terminated(line@));
        } else {
            if current_len > 0 {
                let ghost before = string_views(chunks@);
                let mut full = String::new();
                std::mem::swap(&mut full, &mut current);
                let ghost f = full@;
                chunks.push(full);
                assert(string_views(chunks@) =~= before.push(f));
            }
            let (open, open_len) = cut_line(&mut chunks, line.as_str(), limit);
            current = open;
            current_len = open_len;
        }
        i = i + 1;
    }
    assert(lv.take(lines@.len() as int) =~= lv);
    if current_len == 0 {
        chunks
    } else {
        let ghost before = string_views(chunks@);
        let ghost c = current@;
        chunks.push(current);
        assert(string_views(chunks@) =~= before.push(c));
        chunks
    }
}

/// A text buffer that collects log messages, one per line, to be sent out in chunks.
pub struct LogBuffer {
    text: String,
}

impl LogBuffer {
    /// Every message is closed by a newline.
    #[verifier::type_invariant]
    spec fn closed_lines(self) -> bool {
        self.text@.len() == 0 || self.text@.last() == '\n'
    }

    /// The text collected so far.
    pub closed spec fn text_view(self) -> Seq<char> {
        self.text@
    }

    /// The text collected so far.
    pub fn as_str(&self) -> (s: &str)
        ensures
            s@ == self.text_view(),
    {
        self.text.as_str()
    }
}

impl View for LogBuffer {
    type V = Seq<char>;

    open spec fn view(&self) -> Seq<char> {
        self.text_view()
    }
}

/// Starts an empty log.
pub fn init() -> (buffer: LogBuffer)
    ensures
        buffer@ == Seq::<char>::empty(),
{
    LogBuffer { text: String::new() }
}

/// Appends `msg` and a newline to the log.
pub fn log(buffer: &mut LogBuffer, msg: &str)
    ensures
        final(buffer)@ == old(buffer)@ + msg@.push('\n'),
{
    let mut text = String::new();
    std::mem::swap(&mut text, &mut buffer.text);
    let ghost before = text@;
    text.append(msg);
    push_char(&mut text, '\n');
    assert(text@ =~= before + msg@.push('\n'));
    buffer.text = text;
}

/// Splits the log into chunks of at most `limit` characters, line by line,
/// cutting a line only where it does not fit in a chunk of its own (see [`chunks_of`]).
pub fn to_chunks(buffer: &LogBuffer, limit: usize) -> (chunks: Vec<String>)
    ensures
        string_views(chunks@) == chunks_of(lines_of(buffer@), limit as int),
        forall|k: int| 0 <= k < chunks@.len() ==> chunk_fits(#[trigger] chunks@[k]@, limit as int),
        limit > 0 && no_crlf(buffer@) ==> string_views(chunks@).flatten() == buffer@,
        greedy(string_views(chunks@), limit as int),
{
    proof {
        use_type_invariant(buffer);
        lemma_lines_have_no_newline(buffer@);
        lemma_chunks_are_greedy(lines_of(buffer@), limit as int);
        if limit > 0 && no_crlf(buffer@) {
            lemma_chunks_give_back_text(buffer@, limit as int);
        }
    }
    let lines = split_lines(buffer.as_str());
    let chunks = chunk_lines(&lines, limit);
    proof {
        lemma_chunk_sizes(lines_of(buffer@), limit as int);
        assert forall|k: int| 0 <= k < chunks@.len() implies chunk_fits(#[trigger] chunks@[k]@, limit as int) by {
            assert(string_views(chunks@)[k] == chunks@[k]@);
        }
    }
    chunks
}

/// What the log holds is a closed sequence of lines: a message written by [`log`]
/// comes back as the lines of that message, after the lines that were there before.
pub proof fn lemma_log_lines(before: Seq<char>, msg: Seq<char>)
    requires
        before.len() == 0 || before.last() == '\n',
    ensures
        lines_of(before + msg.push('\n')) == lines_of(before) + lines_of(msg.push('\n')),
{
    lemma_line_scan_closed(before);
    lemma_line_scan_closed(msg.push('\n'));
    lemma_line_scan_concat(before, msg.push('\n'));
}

/// A one-line message comes back unchanged as a single line.
pub proof fn lemma_message_is_one_line(msg: Seq<char>)
    requires
        !msg.contains('\n'),
        msg.len() == 0 || msg.last() != '\r',
    ensures
        lines_of(msg.push('\n')) == seq![msg],
{
    lemma_line_scan_no_newline(msg);
    assert(msg.push('\n').drop_last() =~= msg);
    assert(strip_cr(msg) == msg);
    assert(Seq::<Seq<char>>::empty().push(msg) =~= seq![msg]);
}

/// An in-memory log whose text is sent to Discord in code blocks.
pub struct Logger {
    buf: LogBuffer,
}

impl Logger {
    /// The text collected so far.
    pub closed spec fn text_view(self) -> Seq<char> {
        self.buf@
    }

    /// An empty log.
    pub fn new() -> (logger: Logger)
        ensures
            logger@ == Seq::<char>::empty(),
    {
        Logger { buf: init() }
    }

    /// Appends `msg` and a newline.
    pub fn log(&mut self, msg: &str)
        ensures
            final(self)@ == old(self)@ + msg@.push('\n'),
    {
        log(&mut self.buf, msg);
    }

    /// Splits the log into chunks of at most 1992 characters, line by line (see
    /// [`chunks_of`]), each put into a code block: three backquotes and a newline
    /// before it, a newline and three backquotes after it. Every chunk, with its
    /// fences, keeps to Discord's 2000 characters.
    pub fn to_discord_chunks(&self) -> (chunks: Vec<String>)
        ensures
            string_views(chunks@) == chunks_of(lines_of(self@), LOG_CHUNK_LIMIT as int).map_values(
                |c: Seq<char>| code_block(c),
            ),
            forall|k: int| 0 <= k < chunks@.len() ==> (#[trigger] chunks@[k]@).len() <= CONTENT_LIMIT,
    {
        let plain = to_chunks(&self.buf, LOG_CHUNK_LIMIT);
        let ghost pv = string_views(plain@);
        let mut chunks: Vec<String> = Vec::new();
        let mut i: usize = 0;
        while i < plain.len()
            invariant
                i <= plain@.len(),
                pv == string_views(plain@),
                string_views(chunks@) == pv.take(i as int).map_values(|c: Seq<char>| code_block(c)),
            decreases plain@.len() - i,
        {
            let ghost before = string_views(chunks@);
            let block = wrap_code_block(plain[i].as_str());
            chunks.push(block);
            assert(pv.take(i + 1) =~= pv.take(i as int).push(pv[i as int]));
            assert(string_views(chunks@) =~= before.push(code_block(pv[i as int])));
            i = i + 1;
        }
        assert(pv.take(plain@.len() as int) =~= pv);
        assert forall|k: int| 0 <= k < chunks@.len() implies (#[trigger] chunks@[k]@).len() <= CONTENT_LIMIT by {
            assert(string_views(chunks@)[k] == chunks@[k]@);
            assert(chunk_fits(plain@[k]@, LOG_CHUNK_LIMIT as int));
        }
        chunks
    }
}

impl View for Logger {
    type V = Seq<char>;

    open spec fn view(&self) -> Seq<char> {
        self.text_view()
    }
}

/// `c` inside a Markdown code block.
pub open spec fn code_block(c: Seq<char>) -> Seq<char> {
    seq!['`', '`', '`', '\n'] + c + seq!['\n', '`', '`', '`']
}

/// Puts `c` inside a Markdown code block.
pub fn wrap_code_block(c: &str) -> (s: String)
    ensures
        s@ == code_block(c@),
{
    let mut s = String::new();
    push_char(&mut s, '`');
    push_char(&mut s, '`');
    push_char(&mut s, '`');
    push_char(&mut s, '\n');
    s.append(c);
    push_char(&mut s, '\n');
    push_char(&mut s, '`');
    push_char(&mut s, '`');
    push_char(&mut s, '`');
    assert(s@ =~= code_block(c@));
    s
}

} // verus!
