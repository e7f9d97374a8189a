use vstd::prelude::*;

verus! {

broadcast use vstd::string::group_string_axioms;

/// The views of a sequence of strings.
pub open spec fn string_views(v: Seq<String>) -> Seq<Seq<char>> {
    v.map_values(|s: String| s@)
}

/// A line as it is written out: followed by a newline.
pub open spec fn terminated(line: Seq<char>) -> Seq<char> {
    line.push('\n')
}

/// The text of `lines`, each followed by a newline.
pub open spec fn joined(lines: Seq<Seq<char>>) -> Seq<char> {
    lines.map_values(|l: Seq<char>| terminated(l)).flatten()
}

/// No carriage return stands right before a newline.
pub open spec fn no_crlf(t: Seq<char>) -> bool {
    forall|i: int| 0 <= i < t.len() - 1 ==> !(t[i] == '\r' && #[trigger] t[i + 1] == '\n')
}

/// A line holds no newline and does not end with a carriage return.
pub open spec fn plain_line(l: Seq<char>) -> bool {
    &&& !l.contains('\n')
    &&& l.len() == 0 || l.last() != '\r'
}

/// Drops one trailing carriage return, as a `\r\n` line ending is cut.
pub open spec fn strip_cr(line: Seq<char>) -> Seq<char> {
    if line.len() > 0 && line.last() == '\r' {
        line.drop_last()
    } else {
        line
    }
}

/// Scans `s` from the left: the lines completed by a `\n` so far, and the
/// characters of the line that is still open.
pub open spec fn line_scan(s: Seq<char>) -> (Seq<Seq<char>>, Seq<char>)
    decreases s.len(),
{
    if s.len() == 0 {
        (seq![], seq![])
    } else {
        let (done, open) = line_scan(s.drop_last());
        if s.last() == '\n' {
            (done.push(strip_cr(open)), seq![])
        } else {
            (done, open.push(s.last()))
        }
    }
}

/// The lines of `s` in the sense of `str::lines`: split at each `\n`, a `\r`
/// right before that `\n` dropped, and no empty line after a final `\n`.
pub open spec fn lines_of(s: Seq<char>) -> Seq<Seq<char>> {
    let (done, open) = line_scan(s);
    if open.len() == 0 {
        done
    } else {
        done.push(open)
    }
}

/// Scanning goes on from where a finished prefix left it: after a prefix whose
/// last line is closed, the lines of the rest follow those of the prefix.
pub proof fn lemma_line_scan_concat(b: Seq<char>, y: Seq<char>)
    requires
        line_scan(b).1.len() == 0,
    ensures
        line_scan(b + y) == (line_scan(b).0 + line_scan(y).0, line_scan(y).1),
    decreases y.len(),
{
    if y.len() == 0 {
        assert(b + y =~= b);
        assert(line_scan(b).0 + line_scan(y).0 =~= line_scan(b).0);
    } else {
        lemma_line_scan_concat(b, y.drop_last());
        assert((b + y).drop_last() =~= b + y.drop_last());
        assert((b + y).last() == y.last());
        let (d, o) = line_scan(y.drop_last());
        if y.last() == '\n' {
            assert(line_scan(b).0 + d.push(strip_cr(o)) =~= (line_scan(b).0 + d).push(strip_cr(o)));
        }
    }
}

/// The open line after a scan that ends with a newline is empty.
pub proof fn lemma_line_scan_closed(s: Seq<char>)
    requires
        s.len() == 0 || s.last() == '\n',
    ensures
        line_scan(s).1.len() == 0,
{
}

/// A text without newlines is one open line.
pub proof fn lemma_line_scan_no_newline(m: Seq<char>)
    requires
        !m.contains('\n'),
    ensures
        line_scan(m) == (Seq::<Seq<char>>::empty(), m),
    decreases m.len(),
{
    if m.len() > 0 {
        assert(m.last() == m[m.len() - 1]);
        assert(!m.drop_last().contains('\n')) by {
            if m.drop_last().contains('\n') {
                let k = choose|k: int| 0 <= k < m.drop_last().len() && m.drop_last()[k] == '\n';
                assert(m[k] == '\n');
            }
        }
        lemma_line_scan_no_newline(m.drop_last());
        assert(m.drop_last().push(m.last()) =~= m);
    } else {
        assert(m =~= Seq::<char>::empty());
    }
}

proof fn lemma_scan_rebuilds(t: Seq<char>)
    requires
        no_crlf(t),
    ensures
        joined(line_scan(t).0) + line_scan(t).1 == t,
        line_scan(t).1.len() > 0 ==> line_scan(t).1.last() == t.last(),
    decreases t.len(),
{
    broadcast use vstd::seq_lib::group_seq_properties;
    if t.len() == 0 {
        assert(joined(Seq::<Seq<char>>::empty()) =~= Seq::<char>::empty());
        assert(t =~= Seq::<char>::empty());
    } else {
        let p = t.drop_last();
        let c = t.last();
        assert(no_crlf(p)) by {
            assert forall|i: int| 0 <= i < p.len() - 1 implies !(p[i] == '\r' && #[trigger] p[i + 1] == '\n') by {
                assert(p[i] == t[i] && p[i + 1] == t[i + 1]);
            }
        }
        lemma_scan_rebuilds(p);
        let (d, o) = line_scan(p);
        let f = |l: Seq<char>| terminated(l);
        if c == '\n' {
            assert(strip_cr(o) == o) by {
                if o.len() > 0 && o.last() == '\r' {
                    assert(p.last() == '\r');
                    let i = t.len() - 2;
                    assert(t[i] == p[p.len() - 1]);
                    assert(t[i + 1] == '\n');
                    assert(!(t[i] == '\r' && t[i + 1] == '\n'));
                }
            }
            assert(d.push(o).map_values(f) =~= d.map_values(f).push(terminated(o)));
            d.map_values(f).lemma_flatten_push(terminated(o));
            assert(t =~= p.push(c));
            assert(joined(d.push(o)) =~= joined(d) + o + seq!['\n']);
            assert(joined(d.push(o)) + Seq::<char>::empty() =~= t);
        } else {
            assert(t =~= p.push(c));
            assert(joined(d) + o.push(c) =~= (joined(d) + o).push(c));
            assert(joined(d) + o.push(c) =~= t);
        }
    }
}

proof fn lemma_scan_no_newline_inside(s: Seq<char>)
    ensures
        forall|k: int| 0 <= k < line_scan(s).0.len() ==> !(#[trigger] line_scan(s).0[k]).contains('\n'),
        !line_scan(s).1.contains('\n'),
    decreases s.len(),
{
    broadcast use vstd::seq_lib::group_seq_properties;
    if s.len() > 0 {
        lemma_scan_no_newline_inside(s.drop_last());
        let (d, o) = line_scan(s.drop_last());
        if s.last() == '\n' {
            assert(!strip_cr(o).contains('\n')) by {
                if o.len() > 0 && o.last() == '\r' {
                    if o.drop_last().contains('\n') {
                        let j = choose|j: int| 0 <= j < o.drop_last().len() && o.drop_last()[j] == '\n';
                        assert(o[j] == '\n');
                    }
                }
            }
            assert forall|k: int| 0 <= k < d.push(strip_cr(o)).len() implies !(#[trigger] d.push(strip_cr(o))[k]).contains('\n') by {
                if k < d.len() {
                    assert(d.push(strip_cr(o))[k] == d[k]);
                }
            }
        } else {
            assert(!o.push(s.last()).contains('\n')) by {
                if o.push(s.last()).contains('\n') {
                    let j = choose|j: int| 0 <= j < o.push(s.last()).len() && o.push(s.last())[j] == '\n';
                    if j < o.len() {
                        assert(o[j] == '\n');
                    }
                }
            }
        }
    }
}

/// No line holds a newline.
pub proof fn lemma_lines_have_no_newline(s: Seq<char>)
    ensures
        forall|k: int| 0 <= k < lines_of(s).len() ==> !(#[trigger] lines_of(s)[k]).contains('\n'),
{
    lemma_scan_no_newline_inside(s);
    let (d, o) = line_scan(s);
    if o.len() > 0 {
        assert forall|k: int| 0 <= k < lines_of(s).len() implies !(#[trigger] lines_of(s)[k]).contains('\n') by {
            if k < d.len() {
                assert(lines_of(s)[k] == d[k]);
            }
        }
    }
}

/// A text that ends its last line with a newline, and never puts a carriage
/// return right before a newline, is its lines written out again.
pub proof fn lemma_joined_lines_of(t: Seq<char>)
    requires
        t.len() == 0 || t.last() == '\n',
        no_crlf(t),
    ensures
        joined(lines_of(t)) == t,
{
    lemma_scan_rebuilds(t);
    lemma_line_scan_closed(t);
    assert(joined(line_scan(t).0) + line_scan(t).1 =~= joined(line_scan(t).0));
}

/// Lines without newlines come back when their text is split again, except
/// that a carriage return at the end of a line reads as part of its line ending.
pub proof fn lemma_lines_of_joined(ls: Seq<Seq<char>>)
    requires
        forall|k: int| 0 <= k < ls.len() ==> !(#[trigger] ls[k]).contains('\n'),
    ensures
        line_scan(joined(ls)) == (ls.map_values(|l: Seq<char>| strip_cr(l)), Seq::<char>::empty()),
        lines_of(joined(ls)) == ls.map_values(|l: Seq<char>| strip_cr(l)),
    decreases ls.len(),
{
    broadcast use vstd::seq_lib::group_seq_properties;
    let f = |l: Seq<char>| terminated(l);
    let g = |l: Seq<char>| strip_cr(l);
    if ls.len() == 0 {
        assert(joined(ls) =~= Seq::<char>::empty());
        assert(ls.map_values(g) =~= Seq::<Seq<char>>::empty());
    } else {
        let rest = ls.drop_last();
        let last = ls.last();
        assert(!last.contains('\n'));
        assert forall|k: int| 0 <= k < rest.len() implies !(#[trigger] rest[k]).contains('\n') by {
            assert(rest[k] == ls[k]);
        }
        lemma_lines_of_joined(rest);
        assert(ls.map_values(f) =~= rest.map_values(f).push(terminated(last)));
        rest.map_values(f).lemma_flatten_push(terminated(last));
        lemma_line_scan_concat(joined(rest), terminated(last));
        lemma_line_scan_no_newline(last);
        assert(terminated(last).drop_last() =~= last);
        assert(Seq::<Seq<char>>::empty().push(strip_cr(last)) =~= seq![strip_cr(last)]);
        assert(rest.map_values(g) + seq![strip_cr(last)] =~= ls.map_values(g));
    }
}

/// Lines without newlines and without a trailing carriage return come back
/// unchanged when their text is split again.
pub proof fn lemma_plain_lines_come_back(ls: Seq<Seq<char>>)
    requires
        forall|k: int| 0 <= k < ls.len() ==> plain_line(#[trigger] ls[k]),
    ensures
        lines_of(joined(ls)) == ls,
{
    assert forall|k: int| 0 <= k < ls.len() implies !(#[trigger] ls[k]).contains('\n') by {
        assert(plain_line(ls[k]));
    }
    lemma_lines_of_joined(ls);
    assert forall|k: int| 0 <= k < ls.len() implies strip_cr(#[trigger] ls[k]) == ls[k] by {
        assert(plain_line(ls[k]));
    }
    assert(ls.map_values(|l: Seq<char>| strip_cr(l)) =~= ls);
}

/// Appends one character to a `String` (`String::push`).
#[verifier::external_body]
pub fn push_char(s: &mut String, c: char)
    ensures
        final(s)@ == old(s)@.push(c),
{
    s.push(c);
}

/// Splits `s` into its lines.
pub fn split_lines(s: &str) -> (lines: Vec<String>)
    ensures
        string_views(lines@) == lines_of(s@),
{
    let mut done: Vec<String> = Vec::new();
    let mut open = String::new();
    // A `\r` that has been read but not yet placed: it is dropped if a `\n` follows.
    let mut pending_cr = false;
    for c in it: s.chars()
        invariant
            it.seq() == s@,
            line_scan(s@.take(it.index())) == (string_views(done@),
                if pending_cr { open@.push('\r') } else { open@ }),
            !pending_cr ==> open@.len() == 0 || open@.last() != '\r',
    {
        let ghost i = it.index();
        let ghost before = string_views(done@);
        let ghost prev = line_scan(s@.take(i));
        assert(s@.take(i + 1).drop_last() =~= s@.take(i));
        assert(line_scan(s@.take(i + 1)) == (if c == '\n' {
            (prev.0.push(strip_cr(prev.1)), Seq::<char>::empty())
        } else {
            (prev.0, prev.1.push(c))
        }));
        if c == '\n' {
            let ghost o = open@;
            assert(strip_cr(prev.1) == o) by {
                if pending_cr {
                    assert(prev.1.drop_last() =~= o);
                }
            }
            done.push(open);
            open = String::new();
            pending_cr = false;
            assert(string_views(done@) =~= before.push(o));
        } else {
            if pending_cr {
                push_char(&mut open, '\r');
            }
            if c == '\r' {
                pending_cr = true;
            } else {
                push_char(&mut open, c);
                pending_cr = false;
            }
        }
    }
    assert(s@.take(s@.len() as int) =~= s@);
    if pending_cr {
        push_char(&mut open, '\r');
    }
    if open.as_str().is_empty() {
        done
    } else {
        let ghost before = string_views(done@);
        let ghost o = open@;
        done.push(open);
        assert(string_views(done@) =~= before.push(o));
        done
    }
}

} // verus!
