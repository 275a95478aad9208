//! The input composer: the text being typed, a cursor kept as a byte offset
//! into its UTF-8 encoding, and the history of sent messages.
use vstd::prelude::*;

use crate::text::{
    all_ws, chars_of, copy_string, is_blank, lines, lines_of, starts_with, str_eq, string_from_chars,
    string_from_range,
};

verus! {

// ---------------------------------------------------------------------------
// UTF-8 lengths
// ---------------------------------------------------------------------------
/// The number of bytes that UTF-8 takes for `c`.
pub open spec fn char_width(c: char) -> nat {
    let u = c as u32;
    if u < 0x80 {
        1
    } else if u < 0x800 {
        2
    } else if u < 0x10000 {
        3
    } else {
        4
    }
}

/// The number of bytes that UTF-8 takes for `s`.
pub open spec fn utf8_len(s: Seq<char>) -> nat
    decreases s.len(),
{
    if s.len() == 0 {
        0
    } else {
        utf8_len(s.drop_last()) + char_width(s.last())
    }
}

/// Whether `b` is a byte offset of `s` at which a character starts (or the
/// end of `s`).
pub open spec fn is_boundary(s: Seq<char>, b: int) -> bool {
    exists|k: int| 0 <= k <= s.len() && #[trigger] utf8_len(s.take(k)) == b
}

/// The number of characters before byte offset `b` of `s`.
pub open spec fn char_index(s: Seq<char>, b: int) -> int {
    choose|k: int| 0 <= k <= s.len() && #[trigger] utf8_len(s.take(k)) == b
}

/// The byte length of two texts one after the other is the sum of theirs.
pub proof fn lemma_utf8_len_concat(a: Seq<char>, b: Seq<char>)
    ensures
        utf8_len(a + b) == utf8_len(a) + utf8_len(b),
    decreases b.len(),
{
    if b.len() == 0 {
        assert(a + b == a);
    } else {
        assert((a + b).drop_last() == a + b.drop_last());
        assert((a + b).last() == b.last());
        lemma_utf8_len_concat(a, b.drop_last());
    }
}

/// A longer prefix takes more bytes.
pub proof fn lemma_utf8_len_prefix(s: Seq<char>, i: int, j: int)
    requires
        0 <= i <= j <= s.len(),
    ensures
        utf8_len(s.take(i)) + (j - i) <= utf8_len(s.take(j)),
        utf8_len(s.take(j)) <= utf8_len(s),
    decreases j - i,
{
    if i < j {
        lemma_utf8_len_prefix(s, i, j - 1);
        assert(s.take(j).drop_last() == s.take(j - 1));
    }
    lemma_utf8_len_concat(s.take(j), s.skip(j));
    assert(s.take(j) + s.skip(j) == s);
}

/// The prefix of one more character takes that character's bytes more.
pub proof fn lemma_utf8_len_step(s: Seq<char>, k: int)
    requires
        0 <= k < s.len(),
    ensures
        utf8_len(s.take(k + 1)) == utf8_len(s.take(k)) + char_width(s[k]),
{
    assert(s.take(k + 1).drop_last() == s.take(k));
}

/// A byte offset that is a boundary names one character index.
pub proof fn lemma_char_index(s: Seq<char>, b: int)
    requires
        is_boundary(s, b),
    ensures
        0 <= char_index(s, b) <= s.len(),
        utf8_len(s.take(char_index(s, b))) == b,
        forall|k: int| 0 <= k <= s.len() && utf8_len(s.take(k)) == b ==> k == char_index(s, b),
{
    let c = char_index(s, b);
    assert forall|k: int| 0 <= k <= s.len() && utf8_len(s.take(k)) == b implies k == c by {
        if k < c {
            lemma_utf8_len_prefix(s, k, c);
        } else if c < k {
            lemma_utf8_len_prefix(s, c, k);
        }
    }
}

/// The number of UTF-8 bytes of `c` (`char::len_utf8`).
pub fn char_len(c: char) -> (n: usize)
    ensures
        n == char_width(c),
{
    let u = c as u32;
    if u < 0x80 {
        1
    } else if u < 0x800 {
        2
    } else if u < 0x10000 {
        3
    } else {
        4
    }
}

/// The number of UTF-8 bytes of a text.
pub fn byte_len(cs: &Vec<char>) -> (n: usize)
    requires
        utf8_len(cs@) <= usize::MAX,
    ensures
        n == utf8_len(cs@),
{
    let mut n: usize = 0;
    for k in 0..cs.len()
        invariant
            n == utf8_len(cs@.take(k as int)),
            utf8_len(cs@) <= usize::MAX,
    {
        proof {
            lemma_utf8_len_step(cs@, k as int);
            lemma_utf8_len_prefix(cs@, k + 1, k + 1);
        }
        n = n + char_len(cs[k]);
    }
    assert(cs@.take(cs.len() as int) == cs@);
    n
}

/// The character index at byte offset `b`.
fn locate(cs: &Vec<char>, b: usize) -> (k: usize)
    requires
        is_boundary(cs@, b as int),
    ensures
        k == char_index(cs@, b as int),
        k <= cs.len(),
        utf8_len(cs@.take(k as int)) == b,
{
    proof {
        lemma_char_index(cs@, b as int);
    }
    let ghost target = char_index(cs@, b as int);
    let mut acc: usize = 0;
    let mut k: usize = 0;
    assert(cs@.take(0) == Seq::<char>::empty());
    while acc < b
        invariant
            0 <= target <= cs.len(),
            utf8_len(cs@.take(target)) == b,
            k <= target,
            acc == utf8_len(cs@.take(k as int)),
        decreases target - k,
    {
        proof {
            lemma_utf8_len_step(cs@, k as int);
            lemma_utf8_len_prefix(cs@, k + 1, target);
        }
        acc = acc + char_len(cs[k]);
        k = k + 1;
    }
    proof {
        if k < target {
            lemma_utf8_len_prefix(cs@, k as int, target);
        }
    }
    k
}

// ---------------------------------------------------------------------------
// The composer
// ---------------------------------------------------------------------------
/// The input composer at the bottom of the screen.
#[derive(Debug)]
pub struct Composer {
    /// The text being typed.
    pub input: String,
    /// The cursor, as a byte offset into the UTF-8 of `input`.
    pub cursor_pos: usize,
    /// The messages sent so far, recalled with the up key.
    pub history: Vec<String>,
    /// The entry of `history` last recalled, if any.
    pub history_index: Option<usize>,
    /// Whether the first-use hint is shown.
    pub show_hint: bool,
}

/// How the composer's text is shown.
#[derive(Debug, Clone, Copy, PartialEq, Eq, Structural)]
pub enum ContentTone {
    /// The first-use hint, dimmed.
    Hint,
    /// A slash command.
    Slash,
    /// An ordinary message.
    Normal,
}

/// What the composer shows: the prompt glyph, the text, how it is shown,
/// the hint after a short slash command, and the cursor's offset after the
/// prompt.
#[derive(Debug)]
pub struct ComposerLine {
    pub slash_mode: bool,
    pub prompt: String,
    pub content: String,
    pub tone: ContentTone,
    pub hint: Option<String>,
    pub cursor_offset: usize,
}

/// The first-use hint.
pub open spec fn first_use_hint() -> Seq<char> {
    "[type / for commands, or enter message]"@
}

/// The hint shown after a slash command of at most six bytes; empty when
/// none applies.
pub open spec fn slash_hint(s: Seq<char>) -> Seq<char> {
    if s == "/"@ {
        " quit · help · model · mode · clear · status"@
    } else if s == "/q"@ || s == "/qu"@ || s == "/qui"@ || s == "/quit"@ {
        " ← exit session"@
    } else if s == "/h"@ || s == "/he"@ || s == "/hel"@ || s == "/help"@ {
        " ← show commands"@
    } else if s == "/mo"@ || s == "/mod"@ || s == "/mode"@ {
        " ← switch mode"@
    } else if s == "/m"@ || s == "/model"@ {
        " ← change model"@
    } else if s == "/c"@ || s == "/cl"@ || s == "/cle"@ || s == "/clea"@ || s == "/clear"@ {
        " ← clear viewport"@
    } else if s == "/s"@ || s == "/st"@ || s == "/sta"@ || s == "/stat"@ || s == "/statu"@ || s
        == "/status"@ {
        " ← show status"@
    } else {
        seq![]
    }
}

/// Tests `slash_hint` on given text.
fn slash_hint_of(s: &str) -> (r: String)
    ensures
        r@ == slash_hint(s@),
{
    if str_eq(s, "/") {
        " quit · help · model · mode · clear · status".to_owned()
    } else if str_eq(s, "/q") || str_eq(s, "/qu") || str_eq(s, "/qui") || str_eq(s, "/quit") {
        " ← exit session".to_owned()
    } else if str_eq(s, "/h") || str_eq(s, "/he") || str_eq(s, "/hel") || str_eq(s, "/help") {
        " ← show commands".to_owned()
    } else if str_eq(s, "/mo") || str_eq(s, "/mod") || str_eq(s, "/mode") {
        " ← switch mode".to_owned()
    } else if str_eq(s, "/m") || str_eq(s, "/model") {
        " ← change model".to_owned()
    } else if str_eq(s, "/c") || str_eq(s, "/cl") || str_eq(s, "/cle") || str_eq(s, "/clea")
        || str_eq(s, "/clear") {
        " ← clear viewport".to_owned()
    } else if str_eq(s, "/s") || str_eq(s, "/st") || str_eq(s, "/sta") || str_eq(s, "/stat")
        || str_eq(s, "/statu") || str_eq(s, "/status") {
        " ← show status".to_owned()
    } else {
        String::new()
    }
}

impl Composer {
    /// The composer's invariant: the cursor stands at a character boundary,
    /// every text it holds fits a byte offset, and a recalled index names an
    /// entry of the history.
    pub open spec fn wf(&self) -> bool {
        &&& is_boundary(self.input@, self.cursor_pos as int)
        &&& utf8_len(self.input@) <= usize::MAX
        &&& forall|i: int| 0 <= i < self.history@.len() ==> utf8_len(#[trigger] self.history@[i]@) <= usize::MAX
        &&& (self.history_index matches Some(i) ==> i < self.history@.len())
    }

    /// The number of characters before the cursor.
    pub open spec fn cursor_char(&self) -> int {
        char_index(self.input@, self.cursor_pos as int)
    }

    /// An empty composer with no history that shows the first-use hint.
    pub fn new() -> (r: Self)
        ensures
            r.wf(),
            r.input@.len() == 0,
            r.cursor_pos == 0,
            r.history@.len() == 0,
            r.history_index is None,
            r.show_hint,
    {
        let r = Composer {
            input: String::new(),
            cursor_pos: 0,
            history: Vec::new(),
            history_index: None,
            show_hint: true,
        };
        assert(r.input@.take(0) == r.input@);
        assert(utf8_len(r.input@.take(0)) == 0);
        r
    }

    /// Inserts a character at the cursor and moves the cursor past it.
    pub fn insert_char(&mut self, c: char)
        requires
            old(self).wf(),
            utf8_len(old(self).input@) + char_width(c) <= usize::MAX,
        ensures
            final(self).wf(),
            inserted(*old(self), *final(self), c),
    {
        let cs = chars_of(self.input.as_str());
        let k = locate(&cs, self.cursor_pos);
        let mut v: Vec<char> = Vec::new();
        for j in 0..k
            invariant
                k <= cs.len(),
                v@ == cs@.take(j as int),
        {
            v.push(cs[j]);
            assert(cs@.take(j + 1) == cs@.take(j as int).push(cs@[j as int]));
        }
        v.push(c);
        let ghost head = v@;
        for j in k..cs.len()
            invariant
                k <= cs.len(),
                v@ == head + cs@.subrange(k as int, j as int),
        {
            v.push(cs[j]);
            assert(cs@.subrange(k as int, j + 1) == cs@.subrange(k as int, j as int).push(cs@[j as int]));
        }
        let ghost old_input = cs@;
        proof {
            assert(cs@.subrange(k as int, cs.len() as int) == cs@.skip(k as int));
            assert(head == cs@.take(k as int).push(c));
            lemma_utf8_len_step(v@, k as int);
            assert(v@.take(k as int) == cs@.take(k as int));
            assert(v@.take(k + 1) == head);
            lemma_utf8_len_concat(head, cs@.skip(k as int));
            lemma_utf8_len_concat(cs@.take(k as int), cs@.skip(k as int));
            assert(cs@.take(k as int) + cs@.skip(k as int) == cs@);
            assert(head.drop_last() == cs@.take(k as int));
            assert(utf8_len(v@.take(k + 1)) == self.cursor_pos + char_width(c));
        }
        self.input = string_from_chars(&v);
        self.cursor_pos = self.cursor_pos + char_len(c);
        self.show_hint = false;
        proof {
            lemma_char_index(self.input@, self.cursor_pos as int);
        }
    }

    /// Inserts a line feed at the cursor.
    pub fn insert_newline(&mut self)
        requires
            old(self).wf(),
            utf8_len(old(self).input@) + 1 <= usize::MAX,
        ensures
            final(self).wf(),
            final(self).input@ == old(self).input@.take(old(self).cursor_char()).push('\n') + old(self).input@.skip(old(self).cursor_char()),
            final(self).cursor_pos == old(self).cursor_pos + 1,
            !final(self).show_hint,
            final(self).history == old(self).history,
            final(self).history_index == old(self).history_index,
    {
        self.insert_char('\n');
    }

    /// Deletes the character before the cursor, if any.
    pub fn backspace(&mut self)
        requires
            old(self).wf(),
        ensures
            final(self).wf(),
            backspaced(*old(self), *final(self)),
    {
        let cs = chars_of(self.input.as_str());
        let k = locate(&cs, self.cursor_pos);
        if k == 0 {
            return;
        }
        let (v, b) = remove_at(&cs, k - 1);
        self.input = string_from_chars(&v);
        self.cursor_pos = b;
        proof {
            assert(utf8_len(self.input@.take(k - 1)) == b);
            lemma_char_index(self.input@, self.cursor_pos as int);
        }
    }

    /// Deletes the character at the cursor, if any.
    pub fn delete(&mut self)
        requires
            old(self).wf(),
        ensures
            final(self).wf(),
            ({
                let k = old(self).cursor_char();
                let s = old(self).input@;
                if k < s.len() {
                    final(self).input@ == s.take(k) + s.skip(k + 1)
                } else {
                    final(self).input == old(self).input
                }
            }),
            final(self).cursor_pos == old(self).cursor_pos,
            final(self).cursor_char() == old(self).cursor_char(),
            final(self).show_hint == old(self).show_hint,
            final(self).history == old(self).history,
            final(self).history_index == old(self).history_index,
    {
        let cs = chars_of(self.input.as_str());
        let k = locate(&cs, self.cursor_pos);
        if k < cs.len() {
            let (v, _b) = remove_at(&cs, k);
            self.input = string_from_chars(&v);
            proof {
                assert(utf8_len(self.input@.take(k as int)) == self.cursor_pos);
                lemma_char_index(self.input@, self.cursor_pos as int);
            }
        }
    }

    /// Moves the cursor one character left.
    pub fn move_left(&mut self)
        requires
            old(self).wf(),
        ensures
            final(self).wf(),
            final(self).input == old(self).input,
            final(self).cursor_char() == if old(self).cursor_char() > 0 {
                old(self).cursor_char() - 1
            } else {
                0
            },
            final(self).cursor_pos == utf8_len(final(self).input@.take(final(self).cursor_char())),
            final(self).show_hint == old(self).show_hint,
            final(self).history == old(self).history,
            final(self).history_index == old(self).history_index,
    {
        let cs = chars_of(self.input.as_str());
        let k = locate(&cs, self.cursor_pos);
        if k > 0 {
            proof {
                lemma_utf8_len_step(cs@, k - 1);
            }
            self.cursor_pos = self.cursor_pos - char_len(cs[k - 1]);
            proof {
                lemma_char_index(self.input@, self.cursor_pos as int);
            }
        }
    }

    /// Moves the cursor one character right.
    pub fn move_right(&mut self)
        requires
            old(self).wf(),
        ensures
            final(self).wf(),
            final(self).input == old(self).input,
            final(self).cursor_char() == if old(self).cursor_char() < old(self).input@.len() {
                old(self).cursor_char() + 1
            } else {
                old(self).cursor_char()
            },
            final(self).cursor_pos == utf8_len(final(self).input@.take(final(self).cursor_char())),
            final(self).show_hint == old(self).show_hint,
            final(self).history == old(self).history,
            final(self).history_index == old(self).history_index,
    {
        let cs = chars_of(self.input.as_str());
        let k = locate(&cs, self.cursor_pos);
        if k < cs.len() {
            proof {
                lemma_utf8_len_step(cs@, k as int);
                lemma_utf8_len_prefix(cs@, k + 1, k + 1);
            }
            self.cursor_pos = self.cursor_pos + char_len(cs[k]);
            proof {
                lemma_char_index(self.input@, self.cursor_pos as int);
            }
        }
    }

    /// Takes the input out of the composer; unless it is blank it is added
    /// to the history.
    pub fn take_input(&mut self) -> (r: String)
        requires
            old(self).wf(),
        ensures
            final(self).wf(),
            r@ == old(self).input@,
            final(self).input@.len() == 0,
            final(self).cursor_pos == 0,
            final(self).history_index is None,
            final(self).history.deep_view() == if all_ws(old(self).input@) {
                old(self).history.deep_view()
            } else {
                old(self).history.deep_view().push(r@)
            },
            final(self).show_hint == old(self).show_hint,
    {
        let input = copy_string(&self.input);
        self.input = String::new();
        self.cursor_pos = 0;
        self.history_index = None;
        if !is_blank(input.as_str()) {
            let ghost before = self.history@;
            self.history.push(copy_string(&input));
            assert(self.history.deep_view() =~= old(self).history.deep_view().push(input@));
            assert forall|i: int| 0 <= i < self.history@.len() implies utf8_len(
                #[trigger] self.history@[i]@,
            ) <= usize::MAX by {
                if i < before.len() {
                    assert(self.history@[i] == before[i]);
                }
            }
        }
        assert(self.input@.take(0) == self.input@);
        assert(utf8_len(self.input@.take(0)) == 0);
        input
    }

    /// Empties the input without adding it to the history.
    pub fn clear(&mut self)
        requires
            old(self).wf(),
        ensures
            final(self).wf(),
            final(self).input@.len() == 0,
            final(self).cursor_pos == 0,
            final(self).history_index is None,
            final(self).history == old(self).history,
            final(self).show_hint == old(self).show_hint,
    {
        self.input = String::new();
        self.cursor_pos = 0;
        self.history_index = None;
        assert(self.input@.take(0) == self.input@);
        assert(utf8_len(self.input@.take(0)) == 0);
    }

    /// Recalls the previous history entry into the input, the cursor at its
    /// end: the last entry first, then each earlier one, staying at the
    /// first.
    pub fn recall_previous(&mut self)
        requires
            old(self).wf(),
        ensures
            final(self).wf(),
            final(self).history == old(self).history,
            final(self).show_hint == old(self).show_hint,
            old(self).history@.len() == 0 ==> *final(self) == *old(self),
            old(self).history@.len() > 0 ==> {
                let idx: int = match old(self).history_index {
                    None => old(self).history@.len() - 1,
                    Some(i) => if i > 0 {
                        i - 1
                    } else {
                        0
                    },
                };
                &&& final(self).history_index == Some(idx as usize)
                &&& final(self).input@ == old(self).history@[idx]@
                &&& final(self).cursor_pos == utf8_len(final(self).input@)
            },
    {
        if self.history.len() == 0 {
            return;
        }
        let idx = match self.history_index {
            None => self.history.len() - 1,
            Some(i) => if i > 0 {
                i - 1
            } else {
                0
            },
        };
        self.history_index = Some(idx);
        self.input = copy_string(&self.history[idx]);
        assert(utf8_len(self.history@[idx as int]@) <= usize::MAX);
        let cs = chars_of(self.input.as_str());
        self.cursor_pos = byte_len(&cs);
        proof {
            assert(self.input@.take(self.input@.len() as int) == self.input@);
            assert(utf8_len(self.input@.take(self.input@.len() as int)) == self.cursor_pos);
        }
    }

    /// Whether the input is empty or only whitespace.
    pub fn is_empty(&self) -> (r: bool)
        ensures
            r == all_ws(self.input@),
    {
        is_blank(self.input.as_str())
    }

    /// The number of lines of the input, at least one.
    pub fn line_count(&self) -> (r: usize)
        ensures
            r == if lines_of(self.input@).len() > 1 {
                lines_of(self.input@).len()
            } else {
                1
            },
    {
        let ls = lines(self.input.as_str());
        proof {
            assert(ls.deep_view().len() == ls@.len());
        }
        if ls.len() > 1 {
            ls.len()
        } else {
            1
        }
    }

    /// The rows the composer takes: up to ten lines of input and two for its
    /// border.
    pub fn height(&self) -> (r: u16)
        ensures
            r == (if lines_of(self.input@).len() > 10 {
                10
            } else if lines_of(self.input@).len() > 1 {
                lines_of(self.input@).len()
            } else {
                1
            }) + 2,
    {
        let n = self.line_count();
        let m: u16 = if n > 10 {
            10
        } else {
            n as u16
        };
        m + 2
    }

    /// What the composer shows. In slash mode the leading `/` is not shown
    /// and the cursor stands one column further left.
    pub fn render_line(&self) -> (r: ComposerLine)
        requires
            self.wf(),
            starts_with(self.input@, "/"@) ==> self.cursor_pos > 0,
        ensures
            r.slash_mode == starts_with(self.input@, "/"@),
            r.prompt@ == if r.slash_mode {
                "/ "@
            } else {
                "❯ "@
            },
            r.content@ == if self.input@.len() == 0 && self.show_hint {
                first_use_hint()
            } else if r.slash_mode {
                self.input@.skip(1)
            } else {
                self.input@
            },
            r.tone == if self.input@.len() == 0 && self.show_hint {
                ContentTone::Hint
            } else if r.slash_mode {
                ContentTone::Slash
            } else {
                ContentTone::Normal
            },
            (r.hint is Some) == (r.slash_mode && utf8_len(self.input@) <= 6 && slash_hint(
                self.input@,
            ).len() > 0),
            r.hint matches Some(h) ==> h@ == slash_hint(self.input@),
            r.cursor_offset == if r.slash_mode {
                self.cursor_pos - 1
            } else {
                self.cursor_pos as int
            },
    {
        let slash = crate::text::str_starts_with(self.input.as_str(), "/");
        let empty = self.input.as_str().is_empty();
        let cs = chars_of(self.input.as_str());
        let prompt = if slash {
            "/ ".to_owned()
        } else {
            "❯ ".to_owned()
        };
        let content = if empty && self.show_hint {
            "[type / for commands, or enter message]".to_owned()
        } else if slash {
            proof {
                reveal_strlit("/");
            }
            string_from_range(&cs, 1, cs.len())
        } else {
            copy_string(&self.input)
        };
        let tone = if empty && self.show_hint {
            ContentTone::Hint
        } else if slash {
            ContentTone::Slash
        } else {
            ContentTone::Normal
        };
        let mut hint: Option<String> = None;
        if slash {
            let n = byte_len(&cs);
            if n <= 6 {
                let h = slash_hint_of(self.input.as_str());
                if !h.as_str().is_empty() {
                    hint = Some(h);
                }
            }
        }
        let cursor_offset = if slash {
            self.cursor_pos - 1
        } else {
            self.cursor_pos
        };
        ComposerLine { slash_mode: slash, prompt, content, tone, hint, cursor_offset }
    }
}

impl Default for Composer {
    fn default() -> (r: Self)
        ensures
            r.wf(),
            r.input@.len() == 0,
            r.cursor_pos == 0,
            r.history@.len() == 0,
            r.history_index is None,
            r.show_hint,
    {
        Composer::new()
    }
}

/// `cs` without its character at `k`, and the byte offset of `k`.
fn remove_at(cs: &Vec<char>, k: usize) -> (r: (Vec<char>, usize))
    requires
        k < cs.len(),
        utf8_len(cs@) <= usize::MAX,
    ensures
        r.0@ == cs@.take(k as int) + cs@.skip(k + 1),
        r.0@.take(k as int) == cs@.take(k as int),
        r.1 == utf8_len(cs@.take(k as int)),
        utf8_len(r.0@) <= utf8_len(cs@),
        is_boundary(r.0@, r.1 as int),
{
    let mut v: Vec<char> = Vec::new();
    let mut b: usize = 0;
    for j in 0..k
        invariant
            k < cs.len(),
            utf8_len(cs@) <= usize::MAX,
            v@ == cs@.take(j as int),
            b == utf8_len(cs@.take(j as int)),
    {
        proof {
            lemma_utf8_len_step(cs@, j as int);
            lemma_utf8_len_prefix(cs@, j + 1, j + 1);
        }
        v.push(cs[j]);
        b = b + char_len(cs[j]);
        assert(cs@.take(j + 1) == cs@.take(j as int).push(cs@[j as int]));
    }
    let ghost head = v@;
    for j in k + 1..cs.len()
        invariant
            k < cs.len(),
            v@ == head + cs@.subrange(k + 1, j as int),
    {
        v.push(cs[j]);
        assert(cs@.subrange(k + 1, j + 1) == cs@.subrange(k + 1, j as int).push(cs@[j as int]));
    }
    proof {
        assert(cs@.subrange(k + 1, cs.len() as int) == cs@.skip(k + 1));
        assert(v@.take(k as int) == head);
        lemma_utf8_len_concat(head, cs@.skip(k + 1));
        lemma_utf8_len_concat(cs@.take(k + 1), cs@.skip(k + 1));
        assert(cs@.take(k + 1) + cs@.skip(k + 1) == cs@);
        lemma_utf8_len_prefix(cs@, k as int, k + 1);
    }
    (v, b)
}

/// What `insert_char(c)` makes of composer `a`: `c` typed at the cursor,
/// the cursor after it, the hint hidden, the history kept.
pub open spec fn inserted(a: Composer, b: Composer, c: char) -> bool {
    &&& b.input@ == a.input@.take(a.cursor_char()).push(c) + a.input@.skip(a.cursor_char())
    &&& b.cursor_pos == a.cursor_pos + char_width(c)
    &&& b.cursor_char() == a.cursor_char() + 1
    &&& !b.show_hint
    &&& b.history == a.history
    &&& b.history_index == a.history_index
}

/// What `backspace` makes of composer `a`: the character before the cursor
/// removed and the cursor moved before it; nothing changes at the start.
pub open spec fn backspaced(a: Composer, b: Composer) -> bool {
    &&& ({
        let k = a.cursor_char();
        let s = a.input@;
        if k > 0 {
            &&& b.input@ == s.take(k - 1) + s.skip(k)
            &&& b.cursor_pos == utf8_len(s.take(k - 1))
            &&& b.cursor_char() == k - 1
        } else {
            &&& b.input == a.input
            &&& b.cursor_pos == a.cursor_pos
        }
    })
    &&& b.show_hint == a.show_hint
    &&& b.history == a.history
    &&& b.history_index == a.history_index
}

/// Typing `c` and then deleting the character before the cursor gives back
/// the text and the cursor as they were (and the history), for any
/// well-formed composer.
pub proof fn law_backspace_undoes_insert(a: Composer, b: Composer, d: Composer, c: char)
    requires
        a.wf(),
        inserted(a, b, c),
        backspaced(b, d),
    ensures
        d.input@ == a.input@,
        d.cursor_pos == a.cursor_pos,
        d.history == a.history,
        d.history_index == a.history_index,
{
    let s = a.input@;
    let k = a.cursor_char();
    lemma_char_index(s, a.cursor_pos as int);
    let t = s.take(k).push(c) + s.skip(k);
    assert(b.input@ == t);
    assert(b.cursor_char() == k + 1);
    assert(t.take(k) == s.take(k));
    assert(t.skip(k + 1) == s.skip(k));
    assert(s.take(k) + s.skip(k) == s);
    assert(t.take(k + 1 - 1) == t.take(k));
}

/// Moving the cursor left and then right brings it back to its byte
/// offset, unless it was at the start: after `move_left` the cursor stands
/// before character `k - 1`, and `move_right` puts it at the offset of `k`.
pub proof fn law_left_then_right_restores(c: Composer)
    requires
        c.wf(),
        c.cursor_char() > 0,
    ensures
        (c.cursor_char() - 1) < c.input@.len(),
        utf8_len(c.input@.take((c.cursor_char() - 1) + 1)) == c.cursor_pos,
{
    lemma_char_index(c.input@, c.cursor_pos as int);
}

} // verus!
