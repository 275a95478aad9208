//! The structure of a markdown answer as the viewport shows it: blank lines
//! compacted, fenced code blocks told apart from prose, and inline code cut
//! out of each prose line. Colouring is left to the terminal side.
use vstd::prelude::*;

use crate::text::{
    append_str, chars_of, chars_start_with, copy_string, lines, lines_of, push_char, split_newlines,
    seq_join, split_nl, starts_with, string_from_chars, string_from_range, trim, trim_chars,
};

verus! {

// ---------------------------------------------------------------------------
// Compacting blank lines
// ---------------------------------------------------------------------------
/// One step of compacting: the text so far and whether a blank line is
/// pending, then the next line. A blank line is dropped; a pending blank is
/// kept (as one empty line) only before a heading or a rule that follows
/// some text.
pub open spec fn compact_step(st: (Seq<char>, bool), line: Seq<char>) -> (Seq<char>, bool) {
    let t = trim(line);
    if t.len() == 0 {
        (st.0, true)
    } else {
        let r1 = if st.1 && st.0.len() > 0 && (starts_with(t, seq!['#']) || starts_with(t, "---"@)) {
            st.0.push('\n')
        } else {
            st.0
        };
        let r2 = if r1.len() > 0 {
            r1.push('\n')
        } else {
            r1
        };
        (r2 + line, false)
    }
}

/// Compacting a sequence of lines, from the first to the last.
pub open spec fn compact_lines(ls: Seq<Seq<char>>) -> (Seq<char>, bool)
    decreases ls.len(),
{
    if ls.len() == 0 {
        (seq![], false)
    } else {
        compact_step(compact_lines(ls.drop_last()), ls.last())
    }
}

/// The text with runs of blank lines compacted.
pub open spec fn compacted(text: Seq<char>) -> Seq<char> {
    compact_lines(split_nl(text)).0
}

/// Removes blank lines, keeping one only where the next line is a heading
/// (`#`) or a rule (`---`) and some text comes before it.
pub fn compact_newlines(text: &str) -> (r: String)
    ensures
        r@ == compacted(text@),
{
    let segs = split_newlines(text);
    let ghost ls = segs.deep_view();
    let mut result = String::new();
    let mut prev_was_empty = false;
    let dashes = chars_of("---");
    for i in 0..segs.len()
        invariant
            ls == segs.deep_view(),
            ls == split_nl(text@),
            dashes@ == "---"@,
            (result@, prev_was_empty) == compact_lines(ls.take(i as int)),
    {
        assert(ls.take(i + 1).drop_last() == ls.take(i as int));
        let line = &segs[i];
        let cs = chars_of(line.as_str());
        let t = trim_chars(&cs);
        if t.len() == 0 {
            prev_was_empty = true;
        } else {
            if prev_was_empty {
                let hash = t[0] == '#';
                proof {
                    assert(t@.take(1) =~= seq![t@[0]]);
                    if hash {
                        assert(t@.take(1) =~= seq!['#']);
                    } else {
                        assert(t@.take(1)[0] != seq!['#'][0]);
                    }
                }
                if (hash || chars_start_with(&t, &dashes)) && !result.as_str().is_empty() {
                    push_char(&mut result, '\n');
                }
                prev_was_empty = false;
            }
            if !result.as_str().is_empty() {
                push_char(&mut result, '\n');
            }
            append_str(&mut result, line.as_str());
        }
    }
    assert(ls.take(ls.len() as int) == ls);
    result
}

/// Whether a text has no three line feeds in a row, that is, no run of
/// more than one blank line.
pub open spec fn no_blank_run(s: Seq<char>) -> bool {
    forall|i: int|
        0 <= i && i + 2 < s.len() ==> !(#[trigger] s[i] == '\n' && s[i + 1] == '\n' && s[i + 2]
            == '\n')
}

proof fn lemma_compact_lines_inv(ls: Seq<Seq<char>>)
    requires
        forall|j: int| 0 <= j < ls.len() ==> crate::text::no_newline(#[trigger] ls[j]),
    ensures
        no_blank_run(compact_lines(ls).0),
        compact_lines(ls).0.len() == 0 || compact_lines(ls).0.last() != '\n',
    decreases ls.len(),
{
    if ls.len() > 0 {
        let init = ls.drop_last();
        assert forall|j: int| 0 <= j < init.len() implies crate::text::no_newline(
            #[trigger] init[j],
        ) by {
            assert(init[j] == ls[j]);
        }
        lemma_compact_lines_inv(init);
        let r = compact_lines(init).0;
        let line = ls.last();
        assert(crate::text::no_newline(line)) by {
            assert(line == ls[ls.len() - 1]);
        }
        let t = trim(line);
        if t.len() > 0 {
            if line.len() == 0 {
                assert(crate::text::trim_start(line) == line);
                assert(crate::text::trim_end(line) == line);
            }
            let st = compact_lines(init);
            let r1 = if st.1 && st.0.len() > 0 && (starts_with(t, seq!['#']) || starts_with(t, "---"@)) {
                r.push('\n')
            } else {
                r
            };
            let r2 = if r1.len() > 0 {
                r1.push('\n')
            } else {
                r1
            };
            let out = r2 + line;
            assert(out == compact_lines(ls).0);
            assert(r2.len() <= r.len() + 2);
            assert forall|i: int| 0 <= i && i + 2 < out.len() implies !(#[trigger] out[i] == '\n'
                && out[i + 1] == '\n' && out[i + 2] == '\n') by {
                if i + 2 < r.len() {
                    assert(out[i] == r[i] && out[i + 1] == r[i + 1] && out[i + 2] == r[i + 2]);
                } else if i + 2 >= r2.len() {
                    assert(out[i + 2] == line[i + 2 - r2.len()]);
                } else {
                    // the triple ends inside the line feeds added after `r`
                    assert(r.len() > 0 ==> out[r.len() - 1] == r.last());
                    assert(i <= r.len() - 1);
                }
            }
            assert(out.last() == line.last());
        }
    }
}

/// Compacting leaves no run of more than one blank line.
pub proof fn law_compacted_has_no_blank_runs(text: Seq<char>)
    ensures
        no_blank_run(compacted(text)),
{
    crate::text::lemma_split_nl_no_newline(text);
    lemma_compact_lines_inv(split_nl(text));
}

/// The length of lines written one after the other, each with a line feed
/// after it.
pub open spec fn lines_total(ls: Seq<Seq<char>>) -> nat
    decreases ls.len(),
{
    if ls.len() == 0 {
        0
    } else {
        lines_total(ls.drop_last()) + ls.last().len() + 1
    }
}

proof fn lemma_lines_total_concat(a: Seq<Seq<char>>, b: Seq<Seq<char>>)
    ensures
        lines_total(a + b) == lines_total(a) + lines_total(b),
    decreases b.len(),
{
    if b.len() == 0 {
        assert(a + b == a);
    } else {
        assert((a + b).drop_last() == a + b.drop_last());
        assert((a + b).last() == b.last());
        lemma_lines_total_concat(a, b.drop_last());
    }
}

proof fn lemma_split_total(t: Seq<char>)
    ensures
        lines_total(split_nl(t)) == t.len() + 1,
    decreases t.len(),
{
    let k = crate::text::newline_pos(t);
    crate::text::lemma_newline_pos_bound(t);
    let x = seq![t.take(k as int)];
    assert(lines_total(x) == k + 1) by {
        assert(x.drop_last() == Seq::<Seq<char>>::empty());
        assert(lines_total(Seq::<Seq<char>>::empty()) == 0);
        assert(x.last() == t.take(k as int));
    }
    if k >= t.len() {
        assert(t.take(k as int) == t);
        assert(split_nl(t) == x);
    } else {
        lemma_split_total(t.skip(k + 1int));
        lemma_lines_total_concat(x, split_nl(t.skip(k + 1int)));
    }
}

proof fn lemma_compact_nonempty(ls: Seq<Seq<char>>)
    ensures
        compact_lines(ls).0.len() > 0 ==> ls.len() > 0,
{
}

proof fn lemma_compact_len(ls: Seq<Seq<char>>)
    ensures
        ({
            let c = compact_lines(ls);
            c.0.len() + (if c.1 && c.0.len() > 0 { 1int } else { 0 }) + (if ls.len() > 0 { 1int } else { 0 })
                <= lines_total(ls)
        }),
    decreases ls.len(),
{
    if ls.len() > 0 {
        let init = ls.drop_last();
        lemma_compact_len(init);
        lemma_compact_nonempty(init);
    }
}

/// Compacting never makes a text longer.
pub proof fn law_compacting_never_lengthens(text: Seq<char>)
    ensures
        compacted(text).len() <= text.len(),
{
    lemma_split_total(text);
    lemma_compact_len(split_nl(text));
}

/// The lines that compacting keeps, in order: every line that is not blank,
/// and one empty line before a heading or rule that follows a blank run and
/// some text.
pub open spec fn kept_lines(ls: Seq<Seq<char>>) -> Seq<Seq<char>>
    decreases ls.len(),
{
    if ls.len() == 0 {
        seq![]
    } else {
        let init = ls.drop_last();
        let prev = kept_lines(init);
        let st = compact_lines(init);
        let line = ls.last();
        let t = trim(line);
        if t.len() == 0 {
            prev
        } else if st.1 && st.0.len() > 0 && (starts_with(t, seq!['#']) || starts_with(t, "---"@)) {
            prev.push(seq![]).push(line)
        } else {
            prev.push(line)
        }
    }
}

/// The lines that are not blank, in order.
pub open spec fn nonblank_lines(ls: Seq<Seq<char>>) -> Seq<Seq<char>>
    decreases ls.len(),
{
    if ls.len() == 0 {
        seq![]
    } else {
        let prev = nonblank_lines(ls.drop_last());
        if trim(ls.last()).len() > 0 {
            prev.push(ls.last())
        } else {
            prev
        }
    }
}

proof fn lemma_trim_of_empty(line: Seq<char>)
    ensures
        line.len() == 0 ==> trim(line).len() == 0,
{
    if line.len() == 0 {
        assert(crate::text::trim_start(line) == line);
        assert(crate::text::trim_end(line) == line);
    }
}

proof fn lemma_kept_join(ls: Seq<Seq<char>>)
    ensures
        compact_lines(ls).0 == seq_join(kept_lines(ls), seq!['\n']),
        kept_lines(ls).len() > 0 <==> compact_lines(ls).0.len() > 0,
        nonblank_lines(kept_lines(ls)) == nonblank_lines(ls),
    decreases ls.len(),
{
    if ls.len() > 0 {
        let init = ls.drop_last();
        lemma_kept_join(init);
        let prev = kept_lines(init);
        let line = ls.last();
        lemma_trim_of_empty(line);
        lemma_trim_of_empty(seq![]);
        let t = trim(line);
        if t.len() > 0 {
            let st = compact_lines(init);
            if st.1 && st.0.len() > 0 && (starts_with(t, seq!['#']) || starts_with(t, "---"@)) {
                let p1 = prev.push(seq![]);
                let p2 = p1.push(line);
                assert(p1.drop_last() == prev);
                assert(p2.drop_last() == p1);
                assert(p1.last() == Seq::<char>::empty());
                assert(p2.last() == line);
                assert(seq_join(p1, seq!['\n']) == seq_join(prev, seq!['\n']) + seq!['\n'] + seq![]);
                assert(seq_join(p2, seq!['\n']) == seq_join(p1, seq!['\n']) + seq!['\n'] + line);
                assert(compact_lines(ls).0 =~= seq_join(p2, seq!['\n']));
                assert(nonblank_lines(p1) == nonblank_lines(prev));
            } else {
                let p = prev.push(line);
                assert(p.drop_last() == prev);
                assert(p.last() == line);
                if prev.len() == 0 {
                    assert(seq_join(p, seq!['\n']) == line);
                    assert(compact_lines(ls).0 =~= line);
                } else {
                    assert(seq_join(p, seq!['\n']) == seq_join(prev, seq!['\n']) + seq!['\n'] + line);
                    assert(compact_lines(ls).0 =~= seq_join(p, seq!['\n']));
                }
            }
        }
    }
}

proof fn lemma_compact_kept(ls: Seq<Seq<char>>)
    ensures
        compact_lines(kept_lines(ls)) == (compact_lines(ls).0, false),
    decreases ls.len(),
{
    if ls.len() > 0 {
        let init = ls.drop_last();
        lemma_compact_kept(init);
        let prev = kept_lines(init);
        let line = ls.last();
        lemma_trim_of_empty(line);
        lemma_trim_of_empty(seq![]);
        let t = trim(line);
        if t.len() > 0 {
            let st = compact_lines(init);
            if st.1 && st.0.len() > 0 && (starts_with(t, seq!['#']) || starts_with(t, "---"@)) {
                let p1 = prev.push(seq![]);
                let p2 = p1.push(line);
                assert(p1.drop_last() == prev);
                assert(p2.drop_last() == p1);
                assert(p1.last() == Seq::<char>::empty());
                assert(p2.last() == line);
                assert(compact_lines(p1) == (st.0, true));
            } else {
                let p = prev.push(line);
                assert(p.drop_last() == prev);
                assert(p.last() == line);
            }
        }
    }
}

proof fn lemma_kept_no_newline(ls: Seq<Seq<char>>)
    requires
        forall|j: int| 0 <= j < ls.len() ==> crate::text::no_newline(#[trigger] ls[j]),
    ensures
        forall|j: int|
            0 <= j < kept_lines(ls).len() ==> crate::text::no_newline(#[trigger] kept_lines(ls)[j]),
    decreases ls.len(),
{
    if ls.len() > 0 {
        let init = ls.drop_last();
        assert forall|j: int| 0 <= j < init.len() implies crate::text::no_newline(
            #[trigger] init[j],
        ) by {
            assert(init[j] == ls[j]);
        }
        lemma_kept_no_newline(init);
        let prev = kept_lines(init);
        let line = ls.last();
        assert(crate::text::no_newline(ls[ls.len() - 1]));
        assert(crate::text::no_newline(line));
        let e = Seq::<char>::empty();
        assert(crate::text::no_newline(e));
        let k = kept_lines(ls);
        assert(k == prev || k == prev.push(line) || k == prev.push(e).push(line));
        assert forall|j: int| 0 <= j < k.len() implies crate::text::no_newline(#[trigger] k[j]) by {
            if j < prev.len() {
                if k == prev.push(e).push(line) {
                    assert(k[j] == prev[j]);
                } else if k == prev.push(line) {
                    assert(k[j] == prev[j]);
                }
            } else if k == prev.push(e).push(line) && j == prev.len() {
                assert(k[j] == e);
            } else {
                assert(k[j] == line);
            }
        }
    }
}

/// Compacting a compacted text changes nothing; the lines of a compacted
/// text are the lines that compacting keeps, and its lines that are not blank
/// are those of the text, verbatim and in order.
pub proof fn law_compacting_is_idempotent(text: Seq<char>)
    ensures
        compacted(compacted(text)) == compacted(text),
        compacted(text).len() > 0 ==> split_nl(compacted(text)) == kept_lines(split_nl(text)),
        nonblank_lines(kept_lines(split_nl(text))) == nonblank_lines(split_nl(text)),
{
    let ls = split_nl(text);
    lemma_kept_join(ls);
    lemma_compact_kept(ls);
    crate::text::lemma_split_nl_no_newline(text);
    lemma_kept_no_newline(ls);
    let k = kept_lines(ls);
    if k.len() > 0 {
        crate::text::lemma_split_join(k);
    } else {
        let e = Seq::<char>::empty();
        assert(compacted(text) == e);
        assert(split_nl(e) == seq![e]);
        lemma_trim_of_empty(e);
        let one = seq![e];
        assert(one.drop_last() =~= Seq::<Seq<char>>::empty());
        assert(one.last() == e);
        assert(compact_lines(one.drop_last()) == (e, false));
        assert(compact_lines(one) == compact_step((e, false), e));
        assert(compact_lines(one) == (e, true));
    }
}

/// The number of line feeds in a text.
pub open spec fn line_feeds(s: Seq<char>) -> nat
    decreases s.len(),
{
    if s.len() == 0 {
        0
    } else {
        (if s[0] == '\n' { 1nat } else { 0nat }) + line_feeds(s.drop_first())
    }
}

proof fn lemma_line_feeds_concat(x: Seq<char>, y: Seq<char>)
    ensures
        line_feeds(x + y) == line_feeds(x) + line_feeds(y),
    decreases x.len(),
{
    if x.len() == 0 {
        assert(x + y =~= y);
    } else {
        assert((x + y)[0] == x[0]);
        assert((x + y).drop_first() =~= x.drop_first() + y);
        lemma_line_feeds_concat(x.drop_first(), y);
    }
}

proof fn lemma_line_feeds_none(x: Seq<char>)
    requires
        crate::text::no_newline(x),
    ensures
        line_feeds(x) == 0,
    decreases x.len(),
{
    if x.len() > 0 {
        assert(x[0] != '\n');
        assert forall|i: int| 0 <= i < x.drop_first().len() implies x.drop_first()[i] != '\n' by {
            assert(x.drop_first()[i] == x[i + 1]);
        }
        lemma_line_feeds_none(x.drop_first());
    }
}

proof fn lemma_line_feeds_split(s: Seq<char>)
    ensures
        line_feeds(s) + 1 == split_nl(s).len(),
    decreases s.len(),
{
    crate::text::lemma_newline_pos_bound(s);
    let k = crate::text::newline_pos(s);
    if k >= s.len() {
        lemma_line_feeds_none(s);
    } else {
        let head = s.take(k as int);
        let nl = seq!['\n'];
        let tail = s.skip(k + 1int);
        assert(s =~= head + (nl + tail));
        lemma_line_feeds_none(head);
        lemma_line_feeds_concat(head, nl + tail);
        lemma_line_feeds_concat(nl, tail);
        assert(nl.drop_first() =~= Seq::<char>::empty());
        assert(line_feeds(Seq::<char>::empty()) == 0);
        assert(nl[0] == '\n');
        assert(line_feeds(nl) == 1 + line_feeds(nl.drop_first()));
        lemma_line_feeds_split(tail);
    }
}

proof fn lemma_kept_count(ls: Seq<Seq<char>>)
    ensures
        kept_lines(ls).len() + (if compact_lines(ls).1 && compact_lines(ls).0.len() > 0 { 1int } else { 0 })
            <= ls.len(),
    decreases ls.len(),
{
    if ls.len() > 0 {
        lemma_kept_count(ls.drop_last());
        lemma_kept_join(ls.drop_last());
    }
}

/// Compacting never adds a line feed: the compacted text has at most as many
/// as the text.
pub proof fn law_compacting_adds_no_line_feeds(text: Seq<char>)
    ensures
        line_feeds(compacted(text)) <= line_feeds(text),
{
    let ls = split_nl(text);
    law_compacting_is_idempotent(text);
    lemma_line_feeds_split(text);
    lemma_line_feeds_split(compacted(text));
    lemma_kept_count(ls);
    lemma_kept_join(ls);
    if compacted(text).len() == 0 {
        assert(line_feeds(compacted(text)) == 0);
    }
}

// ---------------------------------------------------------------------------
// Inline code
// ---------------------------------------------------------------------------
/// The index of the first `c` in `s`, or `s.len()` when there is none.
pub open spec fn find_char(s: Seq<char>, c: char) -> nat
    decreases s.len(),
{
    if s.len() == 0 {
        0
    } else if s[0] == c {
        0
    } else {
        1 + find_char(s.drop_first(), c)
    }
}

proof fn lemma_find_char_at(s: Seq<char>, c: char, k: int)
    requires
        0 <= k <= s.len(),
        forall|j: int| 0 <= j < k ==> s[j] != c,
        k == s.len() || s[k] == c,
    ensures
        find_char(s, c) == k,
    decreases s.len(),
{
    if s.len() > 0 && s[0] != c {
        assert forall|j: int| 0 <= j < k - 1 implies s.drop_first()[j] != c by {
            assert(s.drop_first()[j] == s[j + 1]);
        }
        lemma_find_char_at(s.drop_first(), c, k - 1);
    }
}

/// Finds the first `c` at or after `from`.
fn find_from(cs: &Vec<char>, from: usize, c: char) -> (r: usize)
    requires
        from <= cs.len(),
    ensures
        r == from + find_char(cs@.skip(from as int), c),
        r <= cs.len(),
{
    let mut k = from;
    while k < cs.len() && cs[k] != c
        invariant
            from <= k <= cs.len(),
            forall|j: int| from <= j < k ==> cs@[j] != c,
        decreases cs.len() - k,
    {
        k += 1;
    }
    proof {
        let s = cs@.skip(from as int);
        assert forall|j: int| 0 <= j < k - from implies s[j] != c by {
            assert(s[j] == cs@[j + from]);
        }
        if k < cs.len() {
            assert(s[k - from] == cs@[k as int]);
        }
        lemma_find_char_at(s, c, k - from);
    }
    k
}

/// A piece of a prose line: plain text, or inline code shown without its
/// backticks.
pub struct Segment {
    pub text: String,
    pub code: bool,
}

/// The plain values of segments.
pub open spec fn segments_view(s: Seq<Segment>) -> Seq<(Seq<char>, bool)> {
    s.map_values(|g: Segment| (g.text@, g.code))
}

/// The segments of `rest`: text up to a backtick, then the code up to the
/// closing backtick; an unclosed backtick and what follows stay plain text.
pub open spec fn inline_segments(rest: Seq<char>) -> Seq<(Seq<char>, bool)>
    decreases rest.len(),
{
    let s = find_char(rest, '`');
    if s >= rest.len() {
        if rest.len() > 0 {
            seq![(rest, false)]
        } else {
            seq![]
        }
    } else {
        let pre: Seq<(Seq<char>, bool)> = if s > 0 {
            seq![(rest.take(s as int), false)]
        } else {
            seq![]
        };
        let after = rest.skip(s + 1int);
        let e = find_char(after, '`');
        if e < after.len() {
            pre + seq![(after.take(e as int), true)] + inline_segments(after.skip(e + 1int))
        } else {
            pre + seq![(rest.skip(s as int), false)]
        }
    }
}

/// The segments of one prose line; a line with none is one empty plain
/// segment.
pub open spec fn line_segments(text: Seq<char>) -> Seq<(Seq<char>, bool)> {
    let s = inline_segments(text);
    if s.len() == 0 {
        seq![(seq![], false)]
    } else {
        s
    }
}

proof fn lemma_find_char_bound(s: Seq<char>, c: char)
    ensures
        find_char(s, c) <= s.len(),
        find_char(s, c) < s.len() ==> s[find_char(s, c) as int] == c,
    decreases s.len(),
{
    if s.len() > 0 && s[0] != c {
        lemma_find_char_bound(s.drop_first(), c);
        if find_char(s, c) < s.len() {
            assert(s[find_char(s, c) as int] == s.drop_first()[find_char(s.drop_first(), c) as int]);
        }
    }
}

/// Cuts a prose line into plain text and inline code.
pub fn parse_inline_code(text: &str) -> (r: Vec<Segment>)
    ensures
        segments_view(r@) == line_segments(text@),
{
    let cs = chars_of(text);
    let mut out: Vec<Segment> = Vec::new();
    let mut i: usize = 0;
    assert(cs@.skip(0) == cs@);
    loop
        invariant_except_break
            i <= cs.len(),
            cs@ == text@,
            segments_view(out@) + inline_segments(cs@.skip(i as int)) == inline_segments(text@),
        ensures
            segments_view(out@) == inline_segments(text@),
        decreases cs.len() - i,
    {
        let ghost rest = cs@.skip(i as int);
        let start = find_from(&cs, i, '`');
        proof {
            lemma_find_char_bound(rest, '`');
        }
        if start == cs.len() {
            if i < cs.len() {
                let ghost before = segments_view(out@);
                assert(rest == cs@.subrange(i as int, cs.len() as int));
                out.push(Segment { text: string_from_range(&cs, i, cs.len()), code: false });
                assert(segments_view(out@) == before.push((rest, false)));
            }
            assert(segments_view(out@) == inline_segments(text@));
            break;
        }
        let ghost s = start - i;
        assert(rest[s] == '`');
        let ghost before = segments_view(out@);
        if start > i {
            assert(rest.take(s) == cs@.subrange(i as int, start as int));
            out.push(Segment { text: string_from_range(&cs, i, start), code: false });
            assert(segments_view(out@) == before.push((rest.take(s), false)));
        }
        let ghost mid = segments_view(out@);
        let ghost pre: Seq<(Seq<char>, bool)> = if s > 0 {
            seq![(rest.take(s), false)]
        } else {
            seq![]
        };
        assert(mid == before + pre);
        let ghost after = rest.skip(s + 1);
        assert(after == cs@.skip(start + 1));
        let end = find_from(&cs, start + 1, '`');
        proof {
            lemma_find_char_bound(after, '`');
        }
        if end < cs.len() {
            let ghost e = end - start - 1;
            assert(after.take(e) == cs@.subrange(start + 1, end as int));
            out.push(Segment { text: string_from_range(&cs, start + 1, end), code: true });
            assert(segments_view(out@) == mid.push((after.take(e), true)));
            assert(after.skip(e + 1) == cs@.skip(end + 1));
            assert(inline_segments(rest) == pre + seq![(after.take(e), true)] + inline_segments(
                after.skip(e + 1),
            ));
            assert(segments_view(out@) + inline_segments(cs@.skip(end + 1)) == before
                + inline_segments(rest));
            i = end + 1;
        } else {
            out.push(Segment { text: string_from_range(&cs, start, cs.len()), code: false });
            assert(rest.skip(s) == cs@.subrange(start as int, cs.len() as int));
            assert(segments_view(out@) == mid.push((rest.skip(s), false)));
            assert(inline_segments(rest) == pre + seq![(rest.skip(s), false)]);
            assert(segments_view(out@) == inline_segments(text@));
            break;
        }
    }
    if out.len() == 0 {
        out.push(Segment { text: String::new(), code: false });
        assert(segments_view(out@) =~= seq![(Seq::<char>::empty(), false)]);
    }
    out
}

// ---------------------------------------------------------------------------
// Lines of a markdown text
// ---------------------------------------------------------------------------
/// A displayed line of a markdown text.
pub enum MdLine {
    /// A prose line.
    Text(Vec<Segment>),
    /// A line inside a fenced code block, with the block's language (empty
    /// when the fence names none) and whether it opens the block.
    Code { lang: String, text: String, first: bool },
}

/// The plain value of an [`MdLine`].
pub enum MdLineView {
    Text(Seq<(Seq<char>, bool)>),
    Code(Seq<char>, Seq<char>, bool),
}

/// The plain value of an [`MdLine`].
pub open spec fn md_line_view(l: MdLine) -> MdLineView {
    match l {
        MdLine::Text(s) => MdLineView::Text(segments_view(s@)),
        MdLine::Code { lang, text, first } => MdLineView::Code(lang@, text@, first),
    }
}

/// The plain values of displayed lines.
pub open spec fn md_lines_view(s: Seq<MdLine>) -> Seq<MdLineView> {
    s.map_values(|l: MdLine| md_line_view(l))
}

/// `s` without its leading backticks.
pub open spec fn drop_backticks(s: Seq<char>) -> Seq<char>
    decreases s.len(),
{
    if s.len() > 0 && s[0] == '`' {
        drop_backticks(s.drop_first())
    } else {
        s
    }
}

/// The language that a fence line names.
pub open spec fn fence_lang(l: Seq<char>) -> Seq<char> {
    trim(drop_backticks(l))
}

/// Whether a line opens or closes a fenced block.
pub open spec fn is_fence(l: Seq<char>) -> bool {
    starts_with(l, "```"@)
}

/// The state between lines: outside a code block, or inside one with its
/// language and whether no line of it was shown yet.
pub open spec fn md_step(st: (Seq<MdLineView>, Option<(Seq<char>, bool)>), l: Seq<char>) -> (
    Seq<MdLineView>,
    Option<(Seq<char>, bool)>,
) {
    match st.1 {
        None => if is_fence(l) {
            (st.0, Some((fence_lang(l), true)))
        } else {
            (st.0.push(MdLineView::Text(line_segments(l))), None)
        },
        Some((lang, first)) => if is_fence(l) {
            (st.0, None)
        } else {
            (st.0.push(MdLineView::Code(lang, l, first)), Some((lang, false)))
        },
    }
}

/// The displayed lines of a sequence of text lines.
pub open spec fn md_fold(ls: Seq<Seq<char>>) -> (Seq<MdLineView>, Option<(Seq<char>, bool)>)
    decreases ls.len(),
{
    if ls.len() == 0 {
        (seq![], None)
    } else {
        md_step(md_fold(ls.drop_last()), ls.last())
    }
}

/// The displayed lines of a markdown text: its lines after compacting, a
/// fence line itself not shown, an unclosed block running to the end.
pub open spec fn markdown_view(text: Seq<char>) -> Seq<MdLineView> {
    md_fold(lines_of(compacted(text))).0
}

/// The language named by a fence line: the line without its leading
/// backticks, trimmed.
fn fence_language(cs: &Vec<char>) -> (r: String)
    ensures
        r@ == fence_lang(cs@),
{
    let mut a: usize = 0;
    assert(cs@.skip(0) == cs@);
    while a < cs.len() && cs[a] == '`'
        invariant
            a <= cs.len(),
            drop_backticks(cs@.skip(a as int)) == drop_backticks(cs@),
        decreases cs.len() - a,
    {
        assert(cs@.skip(a as int).drop_first() == cs@.skip(a + 1));
        a += 1;
    }
    let rest = if a < cs.len() {
        string_from_range(cs, a, cs.len())
    } else {
        String::new()
    };
    assert(rest@ == cs@.skip(a as int));
    let rc = chars_of(rest.as_str());
    let t = trim_chars(&rc);
    string_from_chars(&t)
}

/// The displayed lines of a markdown text: prose lines cut into plain text
/// and inline code, and the lines of fenced code blocks with their language.
pub fn markdown_lines(text: &str) -> (r: Vec<MdLine>)
    ensures
        md_lines_view(r@) == markdown_view(text@),
{
    let compact = compact_newlines(text);
    let ls = lines(compact.as_str());
    let ghost lv = ls.deep_view();
    let fence = chars_of("```");
    let mut out: Vec<MdLine> = Vec::new();
    let mut in_code = false;
    let mut lang = String::new();
    let mut first = false;
    for i in 0..ls.len()
        invariant
            lv == ls.deep_view(),
            lv == lines_of(compacted(text@)),
            fence@ == "```"@,
            md_fold(lv.take(i as int)) == (
                md_lines_view(out@),
                if in_code {
                    Some((lang@, first))
                } else {
                    None
                },
            ),
    {
        assert(lv.take(i + 1).drop_last() == lv.take(i as int));
        let cs = chars_of(ls[i].as_str());
        let fenced = chars_start_with(&cs, &fence);
        let ghost before = md_lines_view(out@);
        if !in_code {
            if fenced {
                lang = fence_language(&cs);
                in_code = true;
                first = true;
            } else {
                out.push(MdLine::Text(parse_inline_code(ls[i].as_str())));
                assert(md_lines_view(out@) == before.push(
                    MdLineView::Text(line_segments(lv[i as int])),
                ));
            }
        } else {
            if fenced {
                in_code = false;
            } else {
                out.push(MdLine::Code { lang: copy_string(&lang), text: copy_string(&ls[i]), first });
                assert(md_lines_view(out@) == before.push(MdLineView::Code(lang@, lv[i as int], first)));
                first = false;
            }
        }
    }
    assert(lv.take(lv.len() as int) == lv);
    out
}

} // verus!
