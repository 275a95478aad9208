//! Line diffs of proposed changes, their display, and the correction that a
//! human edit turns into for the model.
use vstd::prelude::*;
use vstd::string::*;

use crate::hitl::types::{DiffHunk, HumanCorrection};
use crate::text::{
    chars_of, copy_string, decimal, decimal_string, join, lines, lines_of, push_char, seq_join,
    split_nl, str_eq,
};

verus! {

#[derive(Debug)]
pub enum DiffReviewError {
    Io(std::io::Error),
    EditorFailed(i32),
}

/// The diff rows for line position `i`: a line that both texts have and
/// that is the same in both gives ` line`; otherwise the old text's line (if
/// it has one there) gives `-line` and the new text's line (if it has one)
/// gives `+line`, empty lines included.
pub open spec fn diff_entries(o: Seq<Seq<char>>, n: Seq<Seq<char>>, i: int) -> Seq<Seq<char>> {
    let in_o = 0 <= i < o.len();
    let in_n = 0 <= i < n.len();
    if in_o && in_n && o[i] == n[i] {
        seq![seq![' '] + o[i]]
    } else {
        (if in_o {
            seq![seq!['-'] + o[i]]
        } else {
            Seq::<Seq<char>>::empty()
        }) + (if in_n {
            seq![seq!['+'] + n[i]]
        } else {
            Seq::<Seq<char>>::empty()
        })
    }
}

/// The diff rows of the first `k` line positions.
pub open spec fn diff_rows(o: Seq<Seq<char>>, n: Seq<Seq<char>>, k: nat) -> Seq<Seq<char>>
    decreases k,
{
    if k == 0 {
        seq![]
    } else {
        diff_rows(o, n, (k - 1) as nat) + diff_entries(o, n, k - 1)
    }
}

/// The larger of two naturals.
pub open spec fn max_nat(a: nat, b: nat) -> nat {
    if a >= b {
        a
    } else {
        b
    }
}

/// The line-by-line diff of two texts, rows joined with line feeds.
pub open spec fn unified_diff_text(old: Seq<char>, new: Seq<char>) -> Seq<char> {
    let o = lines_of(old);
    let n = lines_of(new);
    seq_join(diff_rows(o, n, max_nat(o.len(), n.len())), seq!['\n'])
}

/// The display form of a diff: a two-line header naming the file, at most
/// `max_lines` diff lines, and a note of how many were left out.
pub open spec fn diff_display(file: Seq<char>, diff: Seq<char>, max_lines: nat) -> Seq<char> {
    let ls = lines_of(diff);
    let truncated = ls.len() > max_lines;
    let shown = if truncated {
        ls.take(max_lines as int)
    } else {
        ls
    };
    "--- "@ + file + "\n+++ "@ + file + " (proposed)\n"@ + seq_join(shown, seq!['\n']) + (
    if truncated {
        "\n... ("@ + decimal((ls.len() - max_lines) as nat) + " more lines, Ctrl+O to expand)"@
    } else {
        Seq::<char>::empty()
    })
}

/// The message given to the model after a human correction.
pub open spec fn correction_message(file: Seq<char>, diff: Seq<char>) -> Seq<char> {
    "User modified your proposed change to "@ + file + ":\n--- Your version\n+++ User's version\n"@
        + diff
}

/// `c` followed by `s`.
fn prefixed(c: char, s: &str) -> (r: String)
    ensures
        r@ == seq![c] + s@,
{
    let mut r = String::new();
    push_char(&mut r, c);
    r.append(s);
    r
}

/// Compute a unified diff between old and new content.
pub fn compute_diff(file: &str, old: &str, new: &str) -> (h: DiffHunk)
    ensures
        h.file@ == file@,
        h.old_content@ == old@,
        h.new_content@ == new@,
        h.unified_diff@ == unified_diff_text(old@, new@),
{
    let ol = lines(old);
    let nl = lines(new);
    let ghost o = lines_of(old@);
    let ghost n = lines_of(new@);
    let max = if ol.len() >= nl.len() {
        ol.len()
    } else {
        nl.len()
    };
    let mut rows: Vec<String> = Vec::new();
    for i in 0..max
        invariant
            ol.deep_view() == o,
            nl.deep_view() == n,
            max == max_nat(o.len(), n.len()),
            rows.deep_view() == diff_rows(o, n, i as nat),
    {
        let in_o = i < ol.len();
        let in_n = i < nl.len();
        let ghost before = rows.deep_view();
        if in_o {
            assert(o[i as int] == ol@[i as int].deep_view());
        }
        if in_n {
            assert(n[i as int] == nl@[i as int].deep_view());
        }
        if in_o && in_n && str_eq(ol[i].as_str(), nl[i].as_str()) {
            rows.push(prefixed(' ', ol[i].as_str()));
            assert(rows.deep_view() == before + diff_entries(o, n, i as int));
        } else {
            if in_o {
                rows.push(prefixed('-', ol[i].as_str()));
            }
            let ghost mid = rows.deep_view();
            if in_n {
                rows.push(prefixed('+', nl[i].as_str()));
            }
            assert(rows.deep_view() == before + diff_entries(o, n, i as int));
        }
    }
    let unified = join(&rows, "\n");
    proof {
        reveal_strlit("\n");
        assert("\n"@ =~= seq!['\n']);
    }
    DiffHunk {
        file: file.to_owned(),
        old_content: old.to_owned(),
        new_content: new.to_owned(),
        unified_diff: unified,
    }
}

/// Format a diff hunk for terminal display (truncated to max_lines).
pub fn format_diff(hunk: &DiffHunk, max_lines: usize) -> (r: String)
    ensures
        r@ == diff_display(hunk.file@, hunk.unified_diff@, max_lines as nat),
{
    let ls = lines(hunk.unified_diff.as_str());
    let total = ls.len();
    let truncated = total > max_lines;
    let shown_count = if truncated {
        max_lines
    } else {
        total
    };
    let mut shown: Vec<String> = Vec::new();
    for i in 0..shown_count
        invariant
            shown_count <= ls.len(),
            shown.deep_view() == ls.deep_view().take(i as int),
    {
        shown.push(copy_string(&ls[i]));
        assert(ls.deep_view().take(i + 1) == ls.deep_view().take(i as int).push(
            ls.deep_view()[i as int],
        ));
    }
    assert(shown_count == total ==> ls.deep_view().take(shown_count as int) == ls.deep_view());
    let mut out = String::new();
    out.append("--- ");
    out.append(hunk.file.as_str());
    out.append("\n+++ ");
    out.append(hunk.file.as_str());
    out.append(" (proposed)\n");
    let body = join(&shown, "\n");
    proof {
        reveal_strlit("\n");
        assert("\n"@ =~= seq!['\n']);
        assert(ls.deep_view() == lines_of(hunk.unified_diff@));
    }
    out.append(body.as_str());
    if truncated {
        let more = decimal_string((total - max_lines) as u64);
        out.append("\n... (");
        out.append(more.as_str());
        out.append(" more lines, Ctrl+O to expand)");
    } else {
        assert(out@ + Seq::<char>::empty() == out@);
    }
    out
}

/// After human edits, compute the correction and generate context injection message.
pub fn compute_correction(file: &str, llm_content: &str, human_content: &str) -> (r: Option<
    HumanCorrection,
>)
    ensures
        r is None <==> llm_content@ == human_content@,
        r matches Some(c) ==> {
            &&& c.file@ == file@
            &&& c.llm_version@ == llm_content@
            &&& c.human_version@ == human_content@
            &&& c.diff@ == unified_diff_text(llm_content@, human_content@)
        },
{
    if str_eq(llm_content, human_content) {
        return None;
    }
    let hunk = compute_diff(file, llm_content, human_content);
    Some(
        HumanCorrection {
            file: file.to_owned(),
            llm_version: llm_content.to_owned(),
            human_version: human_content.to_owned(),
            diff: hunk.unified_diff,
        },
    )
}

/// Generate the synthetic context message for the LLM after a human correction.
pub fn correction_to_context_message(correction: &HumanCorrection) -> (r: String)
    ensures
        r@ == correction_message(correction.file@, correction.diff@),
{
    let mut out = String::new();
    out.append("User modified your proposed change to ");
    out.append(correction.file.as_str());
    out.append(":\n--- Your version\n+++ User's version\n");
    out.append(correction.diff.as_str());
    out
}

/// Check if a diff is empty (no actual changes).
pub fn is_empty_diff(old: &str, new: &str) -> (r: bool)
    ensures
        r == (old@ == new@),
{
    str_eq(old, new)
}

proof fn lemma_self_rows(o: Seq<Seq<char>>, k: nat)
    requires
        k <= o.len(),
    ensures
        diff_rows(o, o, k) == o.take(k as int).map_values(|l: Seq<char>| seq![' '] + l),
    decreases k,
{
    if k > 0 {
        lemma_self_rows(o, (k - 1) as nat);
        assert(o.take(k as int).map_values(|l: Seq<char>| seq![' '] + l) == o.take(
            k - 1,
        ).map_values(|l: Seq<char>| seq![' '] + l).push(seq![' '] + o[k - 1]));
    } else {
        assert(o.take(0).map_values(|l: Seq<char>| seq![' '] + l) == Seq::<Seq<char>>::empty());
    }
}

/// A text diffed against itself yields only context lines: each of its lines
/// with a leading space, and nothing marked as added or removed.
pub proof fn law_self_diff_is_context(text: Seq<char>)
    ensures
        unified_diff_text(text, text) == seq_join(
            lines_of(text).map_values(|l: Seq<char>| seq![' '] + l),
            seq!['\n'],
        ),
{
    let o = lines_of(text);
    lemma_self_rows(o, o.len());
    assert(o.take(o.len() as int) == o);
}

/// The lines of one side that diff rows encode: the rows marked ` ` or
/// `mark`, without their mark.
pub open spec fn side_of(rows: Seq<Seq<char>>, mark: char) -> Seq<Seq<char>>
    decreases rows.len(),
{
    if rows.len() == 0 {
        seq![]
    } else {
        let r = rows.last();
        let prev = side_of(rows.drop_last(), mark);
        if r.len() > 0 && (r[0] == ' ' || r[0] == mark) {
            prev.push(r.drop_first())
        } else {
            prev
        }
    }
}

proof fn lemma_side_of_concat(a: Seq<Seq<char>>, b: Seq<Seq<char>>, mark: char)
    ensures
        side_of(a + b, mark) == side_of(a, mark) + side_of(b, mark),
    decreases b.len(),
{
    if b.len() == 0 {
        assert(a + b == a);
    } else {
        assert((a + b).drop_last() == a + b.drop_last());
        assert((a + b).last() == b.last());
        lemma_side_of_concat(a, b.drop_last(), mark);
    }
}

proof fn lemma_side_rows(o: Seq<Seq<char>>, n: Seq<Seq<char>>, k: nat)
    ensures
        side_of(diff_rows(o, n, k), '-') == o.take(if k < o.len() { k as int } else { o.len() as int }),
        side_of(diff_rows(o, n, k), '+') == n.take(if k < n.len() { k as int } else { n.len() as int }),
    decreases k,
{
    if k == 0 {
        assert(o.take(0) == Seq::<Seq<char>>::empty());
        assert(n.take(0) == Seq::<Seq<char>>::empty());
    } else {
        let i = k - 1;
        lemma_side_rows(o, n, i as nat);
        let e = diff_entries(o, n, i);
        lemma_side_of_concat(diff_rows(o, n, i as nat), e, '-');
        lemma_side_of_concat(diff_rows(o, n, i as nat), e, '+');
        let in_o = 0 <= i < o.len();
        let in_n = 0 <= i < n.len();
        if in_o && in_n && o[i] == n[i] {
            let r = seq![' '] + o[i];
            assert(r.drop_first() == o[i]);
            assert(e == seq![r]);
            assert(e.drop_last() == Seq::<Seq<char>>::empty());
            assert(e.last() == r);
            assert(r[0] == ' ');
            assert(side_of(e.drop_last(), '-') == Seq::<Seq<char>>::empty());
            assert(side_of(e.drop_last(), '+') == Seq::<Seq<char>>::empty());
            assert(Seq::<Seq<char>>::empty().push(r.drop_first()) =~= seq![o[i]]);
            assert(side_of(e, '-') == seq![o[i]]);
            assert(side_of(e, '+') == seq![n[i]]);
        } else {
            let m: Seq<Seq<char>> = if in_o { seq![seq!['-'] + o[i]] } else { Seq::<Seq<char>>::empty() };
            let p: Seq<Seq<char>> = if in_n { seq![seq!['+'] + n[i]] } else { Seq::<Seq<char>>::empty() };
            lemma_side_of_concat(m, p, '-');
            lemma_side_of_concat(m, p, '+');
            assert(e == m + p);
            assert(side_of(Seq::<Seq<char>>::empty(), '-') == Seq::<Seq<char>>::empty());
            assert(side_of(Seq::<Seq<char>>::empty(), '+') == Seq::<Seq<char>>::empty());
            if in_o {
                assert((seq!['-'] + o[i]).drop_first() == o[i]);
                assert(m.drop_last() == Seq::<Seq<char>>::empty());
                assert(m.last() == seq!['-'] + o[i]);
                assert(side_of(m.drop_last(), '-') == Seq::<Seq<char>>::empty());
                assert(side_of(m.drop_last(), '+') == Seq::<Seq<char>>::empty());
                assert(Seq::<Seq<char>>::empty().push(o[i]) =~= seq![o[i]]);
                assert(side_of(m, '-') == seq![o[i]]);
                assert(side_of(m, '+') == Seq::<Seq<char>>::empty());
            }
            if in_n {
                assert((seq!['+'] + n[i]).drop_first() == n[i]);
                assert(p.drop_last() == Seq::<Seq<char>>::empty());
                assert(p.last() == seq!['+'] + n[i]);
                assert(side_of(p.drop_last(), '-') == Seq::<Seq<char>>::empty());
                assert(side_of(p.drop_last(), '+') == Seq::<Seq<char>>::empty());
                assert(Seq::<Seq<char>>::empty().push(n[i]) =~= seq![n[i]]);
                assert(side_of(p, '+') == seq![n[i]]);
                assert(side_of(p, '-') == Seq::<Seq<char>>::empty());
            }
        }
        if in_o {
            assert(o.take(k as int) == o.take(i).push(o[i]));
        }
        if in_n {
            assert(n.take(k as int) == n.take(i).push(n[i]));
        }
    }
}

/// A diff encodes both texts: its context and removed rows, without their
/// mark, are the old text's lines, and its context and added rows are the
/// new text's lines.
pub proof fn law_diff_encodes_both_texts(old: Seq<char>, new: Seq<char>)
    ensures
        ({
            let o = lines_of(old);
            let n = lines_of(new);
            let rows = diff_rows(o, n, max_nat(o.len(), n.len()));
            &&& side_of(rows, '-') == o
            &&& side_of(rows, '+') == n
        }),
{
    let o = lines_of(old);
    let n = lines_of(new);
    lemma_side_rows(o, n, max_nat(o.len(), n.len()));
    assert(o.take(o.len() as int) == o);
    assert(n.take(n.len() as int) == n);
}

proof fn lemma_diff_lines_are_context(text: Seq<char>)
    ensures
        forall|j: int|
            0 <= j < lines_of(unified_diff_text(text, text)).len() ==> (#[trigger] lines_of(
                unified_diff_text(text, text),
            )[j]).len() > 0 && lines_of(unified_diff_text(text, text))[j][0] == ' ',
{
    law_self_diff_is_context(text);
    let o = lines_of(text);
    let rows = o.map_values(|l: Seq<char>| seq![' '] + l);
    let d = unified_diff_text(text, text);
    assert(d == seq_join(rows, seq!['\n']));
    if o.len() == 0 {
        assert(rows.len() == 0);
        assert(d.len() == 0);
        assert(lines_of(d).len() == 0);
    } else {
        crate::text::lemma_lines_no_newline(text);
        assert forall|i: int| 0 <= i < rows.len() implies crate::text::no_newline(#[trigger] rows[i]) by {
            assert(crate::text::no_newline(o[i]));
            assert(rows[i] == seq![' '] + o[i]);
            assert forall|c: int| 0 <= c < rows[i].len() implies rows[i][c] != '\n' by {
                if c > 0 {
                    assert(rows[i][c] == o[i][c - 1]);
                }
            }
        }
        crate::text::lemma_split_join(rows);
        assert(rows.last() == rows[rows.len() - 1]);
        crate::text::lemma_join_last(rows);
        assert(crate::text::no_newline(rows[rows.len() - 1]));
        assert(d.last() != '\n');
        crate::text::lemma_lines_are_pieces(d);
        assert forall|j: int| 0 <= j < lines_of(d).len() implies (#[trigger] lines_of(d)[j]).len() > 0
            && lines_of(d)[j][0] == ' ' by {
            let r = rows[j];
            assert(split_nl(d)[j] == r);
            assert(r == seq![' '] + o[j]);
            assert(r[0] == ' ');
            if r.len() == 1 {
                assert(r.last() == ' ');
            }
            if r.len() > 0 && r.last() == '\r' {
                assert(crate::text::strip_cr(r)[0] == r[0]);
            }
        }
    }
}

/// Texts that are equal (what `is_empty_diff` reports, and exactly when
/// `compute_correction` finds nothing) give a diff of context rows only:
/// every row begins with a space, so none is marked added or removed; and
/// read back as lines (`str::lines`), the diff text has no line that begins
/// with `+` or `-` either.
pub proof fn law_equal_texts_have_no_change(old: Seq<char>, new: Seq<char>)
    requires
        old == new,
    ensures
        unified_diff_text(old, new) == seq_join(
            lines_of(old).map_values(|l: Seq<char>| seq![' '] + l),
            seq!['\n'],
        ),
        forall|j: int| 0 <= j < diff_rows(lines_of(old), lines_of(new), lines_of(old).len()).len()
            ==> (#[trigger] diff_rows(lines_of(old), lines_of(new), lines_of(old).len())[j])[0] == ' ',
        forall|j: int|
            0 <= j < lines_of(unified_diff_text(old, new)).len() ==> (#[trigger] lines_of(
                unified_diff_text(old, new),
            )[j]).len() > 0 && lines_of(unified_diff_text(old, new))[j][0] == ' ',
{
    lemma_diff_lines_are_context(old);
    law_self_diff_is_context(old);
    let o = lines_of(old);
    lemma_self_rows(o, o.len());
    assert(o.take(o.len() as int) == o);
    assert forall|j: int| 0 <= j < diff_rows(o, o, o.len()).len() implies (#[trigger] diff_rows(
        o,
        o,
        o.len(),
    )[j])[0] == ' ' by {
        assert(diff_rows(o, o, o.len())[j] == seq![' '] + o[j]);
    }
}

} // verus!
