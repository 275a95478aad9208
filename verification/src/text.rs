//! Character-level text helpers shared by the whole library: line splitting,
//! joining, whitespace trimming, decimal rendering and path joining, each with
//! a specification over `Seq<char>`.
use vstd::prelude::*;
use vstd::string::*;

verus! {

/// Appends one character to a string (`String::push`).
#[verifier::external_body]
pub(crate) fn push_char(s: &mut String, c: char)
    ensures
        final(s)@ == old(s)@.push(c),
{
    s.push(c);
}

/// Copies the characters of a string slice into a vector.
pub fn chars_of(s: &str) -> (r: Vec<char>)
    ensures
        r@ == s@,
{
    let mut r: Vec<char> = Vec::new();
    for c in it: s.chars()
        invariant
            r@ == it.seq().take(it.index() as int),
            it.seq() == s@,
    {
        r.push(c);
    }
    r
}

/// Builds a string from the first `n` characters of `cs`.
pub fn string_from_prefix(cs: &Vec<char>, n: usize) -> (r: String)
    requires
        n <= cs.len(),
    ensures
        r@ == cs@.take(n as int),
{
    let mut r = String::new();
    let mut i: usize = 0;
    while i < n
        invariant
            i <= n <= cs.len(),
            r@ == cs@.take(i as int),
        decreases n - i,
    {
        push_char(&mut r, cs[i]);
        assert(cs@.take(i + 1) == cs@.take(i as int).push(cs@[i as int]));
        i += 1;
    }
    r
}

/// Builds a string from the characters `cs[from..to]`.
pub fn string_from_range(cs: &Vec<char>, from: usize, to: usize) -> (r: String)
    requires
        from <= to <= cs.len(),
    ensures
        r@ == cs@.subrange(from as int, to as int),
{
    let mut r = String::new();
    let mut i: usize = from;
    while i < to
        invariant
            from <= i <= to <= cs.len(),
            r@ == cs@.subrange(from as int, i as int),
        decreases to - i,
    {
        push_char(&mut r, cs[i]);
        assert(cs@.subrange(from as int, i + 1) == cs@.subrange(from as int, i as int).push(
            cs@[i as int],
        ));
        i += 1;
    }
    r
}

/// Builds a string from all characters of `cs`.
pub fn string_from_chars(cs: &Vec<char>) -> (r: String)
    ensures
        r@ == cs@,
{
    let r = string_from_prefix(cs, cs.len());
    assert(cs@.take(cs@.len() as int) == cs@);
    r
}

/// Concatenates two strings into a new one.
pub fn concat_str(a: &str, b: &str) -> (r: String)
    ensures
        r@ == a@ + b@,
{
    let mut r = a.to_owned();
    r.append(b);
    r
}

/// Appends a string slice to a string.
pub fn append_str(s: &mut String, t: &str)
    ensures
        final(s)@ == old(s)@ + t@,
{
    s.append(t);
}

/// Copies a string.
pub fn copy_string(s: &String) -> (r: String)
    ensures
        r@ == s@,
{
    s.clone()
}

/// Copies a vector of strings element by element.
pub fn copy_strings(v: &Vec<String>) -> (r: Vec<String>)
    ensures
        r.deep_view() == v.deep_view(),
        r@ == v@,
{
    let mut r: Vec<String> = Vec::new();
    for i in 0..v.len()
        invariant
            r@ == v@.take(i as int),
    {
        r.push(v[i].clone());
        assert(v@.take(i + 1) == v@.take(i as int).push(v@[i as int]));
    }
    assert(v@.take(v@.len() as int) == v@);
    assert(r.deep_view() =~= v.deep_view());
    r
}

/// Copies an optional string.
pub fn copy_opt_string(s: &Option<String>) -> (r: Option<String>)
    ensures
        r == *s,
{
    match s {
        Some(x) => Some(x.clone()),
        None => None,
    }
}

/// Whether two string slices hold the same characters.
pub fn str_eq(a: &str, b: &str) -> (r: bool)
    ensures
        r == (a@ == b@),
{
    let x = a.to_owned();
    let y = b.to_owned();
    x == y
}

/// Whether `v` holds a string equal to `s`.
pub fn contains_string(v: &Vec<String>, s: &str) -> (r: bool)
    ensures
        r == v.deep_view().contains(s@),
{
    let ghost dv = v.deep_view();
    for i in 0..v.len()
        invariant
            dv == v.deep_view(),
            forall|j: int| 0 <= j < i ==> dv[j] != s@,
    {
        if str_eq(v[i].as_str(), s) {
            assert(dv[i as int] == s@);
            return true;
        }
    }
    false
}

// ---------------------------------------------------------------------------
// Lines
// ---------------------------------------------------------------------------
/// Whether `s` holds no line feed.
pub open spec fn no_newline(s: Seq<char>) -> bool {
    forall|i: int| 0 <= i < s.len() ==> s[i] != '\n'
}

/// Index of the first line feed of `s`, or `s.len()` when there is none.
pub open spec fn newline_pos(s: Seq<char>) -> nat
    decreases s.len(),
{
    if s.len() == 0 {
        0
    } else if s[0] == '\n' {
        0
    } else {
        1 + newline_pos(s.drop_first())
    }
}

/// A line ended by a line feed loses one carriage return before it.
pub open spec fn strip_cr(l: Seq<char>) -> Seq<char> {
    if l.len() > 0 && l.last() == '\r' {
        l.drop_last()
    } else {
        l
    }
}

/// The lines of a text as `str::lines` yields them: split at `\n`, a `\r`
/// right before the `\n` dropped, and no empty last line after a final `\n`.
pub open spec fn lines_of(s: Seq<char>) -> Seq<Seq<char>>
    decreases s.len(),
{
    if s.len() == 0 {
        seq![]
    } else {
        let k = newline_pos(s);
        if k >= s.len() {
            seq![s]
        } else {
            seq![strip_cr(s.take(k as int))] + lines_of(s.skip(k + 1 as int))
        }
    }
}

pub proof fn lemma_newline_pos_bound(s: Seq<char>)
    ensures
        newline_pos(s) <= s.len(),
        newline_pos(s) < s.len() ==> s[newline_pos(s) as int] == '\n',
        forall|i: int| 0 <= i < newline_pos(s) ==> s[i] != '\n',
    decreases s.len(),
{
    if s.len() > 0 && s[0] != '\n' {
        lemma_newline_pos_bound(s.drop_first());
        assert forall|i: int| 0 <= i < newline_pos(s) implies s[i] != '\n' by {
            if i > 0 {
                assert(s[i] == s.drop_first()[i - 1]);
            }
        }
    }
}

proof fn lemma_newline_pos_prefix(cur: Seq<char>, t: Seq<char>)
    requires
        no_newline(cur),
    ensures
        newline_pos(cur + t) == cur.len() + newline_pos(t),
    decreases cur.len(),
{
    if cur.len() > 0 {
        assert((cur + t)[0] == cur[0]);
        assert((cur + t).drop_first() == cur.drop_first() + t);
        lemma_newline_pos_prefix(cur.drop_first(), t);
    } else {
        assert(cur + t == t);
    }
}

proof fn lemma_lines_step_newline(cur: Seq<char>, t: Seq<char>)
    requires
        no_newline(cur),
        t.len() > 0,
        t[0] == '\n',
    ensures
        lines_of(cur + t) == seq![strip_cr(cur)] + lines_of(t.skip(1)),
{
    lemma_newline_pos_prefix(cur, t);
    assert(newline_pos(t) == 0);
    let s = cur + t;
    assert(s.take(cur.len() as int) == cur);
    assert(s.skip(cur.len() + 1 as int) == t.skip(1));
}

proof fn lemma_lines_last(cur: Seq<char>)
    requires
        no_newline(cur),
    ensures
        lines_of(cur) == (if cur.len() == 0 {
            Seq::<Seq<char>>::empty()
        } else {
            seq![cur]
        }),
{
    if cur.len() > 0 {
        lemma_newline_pos_prefix(cur, Seq::<char>::empty());
        assert(cur + Seq::<char>::empty() == cur);
    }
}

/// Splits a text into its lines, as `str::lines` does.
pub fn lines(s: &str) -> (r: Vec<String>)
    ensures
        r.deep_view() == lines_of(s@),
{
    let cs = chars_of(s);
    let mut out: Vec<String> = Vec::new();
    let mut cur: Vec<char> = Vec::new();
    let mut i: usize = 0;
    assert(cs@.skip(0) == cs@);
    assert(cur@ + cs@.skip(0) == cs@);
    while i < cs.len()
        invariant
            i <= cs.len(),
            cs@ == s@,
            no_newline(cur@),
            lines_of(s@) == out.deep_view() + lines_of(cur@ + cs@.skip(i as int)),
        decreases cs.len() - i,
    {
        let c = cs[i];
        let ghost rest = cs@.skip(i as int);
        assert(rest[0] == c);
        assert(rest.skip(1) == cs@.skip(i + 1));
        if c == '\n' {
            proof {
                lemma_lines_step_newline(cur@, rest);
            }
            let n = cur.len();
            let keep = if n > 0 && cur[n - 1] == '\r' {
                n - 1
            } else {
                n
            };
            let line = string_from_prefix(&cur, keep);
            assert(line@ == strip_cr(cur@)) by {
                if n > 0 && cur@[n - 1] == '\r' {
                    assert(cur@.take(keep as int) == cur@.drop_last());
                } else {
                    assert(cur@.take(keep as int) == cur@);
                }
            }
            let ghost before = out.deep_view();
            out.push(line);
            assert(out.deep_view() == before.push(strip_cr(cur@)));
            cur = Vec::new();
            assert(cur@ + cs@.skip(i + 1) == cs@.skip(i + 1));
            assert(lines_of(s@) == out.deep_view() + lines_of(cur@ + cs@.skip(i + 1)));
        } else {
            let ghost old_cur = cur@;
            cur.push(c);
            assert(old_cur + rest == cur@ + cs@.skip(i + 1));
        }
        i += 1;
    }
    proof {
        assert(cs@.skip(cs.len() as int) == Seq::<char>::empty());
        assert(cur@ + Seq::<char>::empty() == cur@);
        lemma_lines_last(cur@);
    }
    if cur.len() > 0 {
        let line = string_from_chars(&cur);
        let ghost before = out.deep_view();
        out.push(line);
        assert(out.deep_view() == before.push(cur@));
    } else {
        assert(out.deep_view() + Seq::<Seq<char>>::empty() == out.deep_view());
    }
    out
}

/// The pieces of a text between its line feeds, as `str::split('\n')`
/// yields them: one more piece than there are line feeds, empty ones kept.
pub open spec fn split_nl(s: Seq<char>) -> Seq<Seq<char>>
    decreases s.len(),
{
    let k = newline_pos(s);
    if k >= s.len() {
        seq![s]
    } else {
        seq![s.take(k as int)] + split_nl(s.skip(k + 1 as int))
    }
}

proof fn lemma_split_step_newline(cur: Seq<char>, t: Seq<char>)
    requires
        no_newline(cur),
        t.len() > 0,
        t[0] == '\n',
    ensures
        split_nl(cur + t) == seq![cur] + split_nl(t.skip(1)),
{
    lemma_newline_pos_prefix(cur, t);
    assert(newline_pos(t) == 0);
    let s = cur + t;
    assert(s.take(cur.len() as int) == cur);
    assert(s.skip(cur.len() + 1 as int) == t.skip(1));
}

proof fn lemma_split_last(cur: Seq<char>)
    requires
        no_newline(cur),
    ensures
        split_nl(cur) == seq![cur],
{
    lemma_newline_pos_prefix(cur, Seq::<char>::empty());
    assert(cur + Seq::<char>::empty() == cur);
}

/// No piece of a split holds a line feed.
pub proof fn lemma_split_nl_no_newline(s: Seq<char>)
    ensures
        forall|j: int| 0 <= j < split_nl(s).len() ==> no_newline(#[trigger] split_nl(s)[j]),
    decreases s.len(),
{
    lemma_newline_pos_bound(s);
    let k = newline_pos(s);
    if k < s.len() {
        lemma_split_nl_no_newline(s.skip(k + 1 as int));
        let rest = split_nl(s.skip(k + 1 as int));
        assert forall|j: int| 0 <= j < split_nl(s).len() implies no_newline(
            #[trigger] split_nl(s)[j],
        ) by {
            if j > 0 {
                assert(split_nl(s)[j] == rest[j - 1]);
            }
        }
    }
}

/// Splitting a text around one of its line feeds splits each side apart.
pub proof fn lemma_split_around_newline(x: Seq<char>, y: Seq<char>)
    ensures
        split_nl(x + seq!['\n'] + y) == split_nl(x) + split_nl(y),
    decreases x.len(),
{
    lemma_newline_pos_bound(x);
    let k = newline_pos(x);
    let s = x + seq!['\n'] + y;
    if k >= x.len() {
        let t = seq!['\n'] + y;
        assert(s =~= x + t);
        lemma_split_step_newline(x, t);
        assert(t.skip(1) =~= y);
        lemma_split_last(x);
    } else {
        let cur = x.take(k as int);
        let rest = s.skip(k as int);
        assert(s =~= cur + rest);
        assert(rest[0] == '\n');
        lemma_split_step_newline(cur, rest);
        assert(rest.skip(1) =~= x.skip(k + 1int) + seq!['\n'] + y);
        lemma_split_around_newline(x.skip(k + 1int), y);
        assert(split_nl(x) == seq![cur] + split_nl(x.skip(k + 1int)));
        assert(split_nl(s) =~= split_nl(x) + split_nl(y));
    }
}

/// Splitting lines joined by line feeds gives the lines back, when none of
/// them holds a line feed.
pub proof fn lemma_split_join(ls: Seq<Seq<char>>)
    requires
        ls.len() > 0,
        forall|j: int| 0 <= j < ls.len() ==> no_newline(#[trigger] ls[j]),
    ensures
        split_nl(seq_join(ls, seq!['\n'])) == ls,
    decreases ls.len(),
{
    if ls.len() == 1 {
        lemma_split_last(ls[0]);
        assert(ls =~= seq![ls[0]]);
    } else {
        let init = ls.drop_last();
        assert forall|j: int| 0 <= j < init.len() implies no_newline(#[trigger] init[j]) by {
            assert(init[j] == ls[j]);
        }
        lemma_split_join(init);
        lemma_split_around_newline(seq_join(init, seq!['\n']), ls.last());
        assert(no_newline(ls[ls.len() - 1]));
        lemma_split_last(ls.last());
        assert(seq_join(ls, seq!['\n']) == seq_join(init, seq!['\n']) + seq!['\n'] + ls.last());
        assert(init + seq![ls.last()] =~= ls);
    }
}

/// No line of a text holds a line feed.
pub proof fn lemma_lines_no_newline(s: Seq<char>)
    ensures
        forall|j: int| 0 <= j < lines_of(s).len() ==> no_newline(#[trigger] lines_of(s)[j]),
    decreases s.len(),
{
    if s.len() > 0 {
        lemma_newline_pos_bound(s);
        let k = newline_pos(s);
        if k < s.len() {
            lemma_lines_no_newline(s.skip(k + 1int));
            let head = strip_cr(s.take(k as int));
            assert(no_newline(head)) by {
                assert forall|i: int| 0 <= i < head.len() implies head[i] != '\n' by {
                    assert(head[i] == s[i]);
                }
            }
            let rest = lines_of(s.skip(k + 1int));
            assert forall|j: int| 0 <= j < lines_of(s).len() implies no_newline(#[trigger] lines_of(s)[j]) by {
                if j > 0 {
                    assert(lines_of(s)[j] == rest[j - 1]);
                }
            }
        }
    }
}

/// The lines of a text that does not end with a line feed are its pieces
/// between line feeds, each as it is or without a final carriage return.
pub proof fn lemma_lines_are_pieces(s: Seq<char>)
    requires
        s.len() > 0,
        s.last() != '\n',
    ensures
        lines_of(s).len() == split_nl(s).len(),
        forall|j: int|
            0 <= j < lines_of(s).len() ==> #[trigger] lines_of(s)[j] == split_nl(s)[j] || lines_of(s)[j]
                == strip_cr(split_nl(s)[j]),
    decreases s.len(),
{
    lemma_newline_pos_bound(s);
    let k = newline_pos(s);
    if k < s.len() {
        let t = s.skip(k + 1int);
        assert(k < s.len() - 1);
        assert(t.last() == s.last());
        lemma_lines_are_pieces(t);
        assert forall|j: int|
            0 <= j < lines_of(s).len() implies #[trigger] lines_of(s)[j] == split_nl(s)[j] || lines_of(s)[j]
                == strip_cr(split_nl(s)[j]) by {
            if j > 0 {
                assert(lines_of(s)[j] == lines_of(t)[j - 1]);
                assert(split_nl(s)[j] == split_nl(t)[j - 1]);
            }
        }
    }
}

/// Lines joined by line feeds end as the last line does.
pub proof fn lemma_join_last(ls: Seq<Seq<char>>)
    requires
        ls.len() > 0,
        ls.last().len() > 0,
    ensures
        seq_join(ls, seq!['\n']).len() > 0,
        seq_join(ls, seq!['\n']).last() == ls.last().last(),
{
    if ls.len() > 1 {
        let a = seq_join(ls.drop_last(), seq!['\n']) + seq!['\n'];
        assert(seq_join(ls, seq!['\n']) == a + ls.last());
        assert((a + ls.last()).last() == ls.last().last());
    }
}

/// Splits a text at its line feeds (`str::split('\n')`).
pub fn split_newlines(s: &str) -> (r: Vec<String>)
    ensures
        r.deep_view() == split_nl(s@),
{
    let cs = chars_of(s);
    let mut out: Vec<String> = Vec::new();
    let mut cur: Vec<char> = Vec::new();
    let mut i: usize = 0;
    assert(cs@.skip(0) == cs@);
    assert(cur@ + cs@.skip(0) == cs@);
    while i < cs.len()
        invariant
            i <= cs.len(),
            cs@ == s@,
            no_newline(cur@),
            split_nl(s@) == out.deep_view() + split_nl(cur@ + cs@.skip(i as int)),
        decreases cs.len() - i,
    {
        let c = cs[i];
        let ghost rest = cs@.skip(i as int);
        assert(rest[0] == c);
        assert(rest.skip(1) == cs@.skip(i + 1));
        if c == '\n' {
            proof {
                lemma_split_step_newline(cur@, rest);
            }
            let piece = string_from_chars(&cur);
            let ghost before = out.deep_view();
            out.push(piece);
            assert(out.deep_view() == before.push(cur@));
            cur = Vec::new();
            assert(cur@ + cs@.skip(i + 1) == cs@.skip(i + 1));
        } else {
            let ghost old_cur = cur@;
            cur.push(c);
            assert(old_cur + rest == cur@ + cs@.skip(i + 1));
        }
        i += 1;
    }
    proof {
        assert(cs@.skip(cs.len() as int) == Seq::<char>::empty());
        assert(cur@ + Seq::<char>::empty() == cur@);
        lemma_split_last(cur@);
    }
    let piece = string_from_chars(&cur);
    let ghost before = out.deep_view();
    out.push(piece);
    assert(out.deep_view() == before.push(cur@));
    out
}

// ---------------------------------------------------------------------------
// Joining
// ---------------------------------------------------------------------------
/// The pieces of `list` with `sep` between each two of them.
pub open spec fn seq_join(list: Seq<Seq<char>>, sep: Seq<char>) -> Seq<char>
    decreases list.len(),
{
    if list.len() == 0 {
        seq![]
    } else if list.len() == 1 {
        list[0]
    } else {
        seq_join(list.drop_last(), sep) + sep + list.last()
    }
}

/// Joins strings with a separator (`[String]::join`).
pub fn join(list: &Vec<String>, sep: &str) -> (r: String)
    ensures
        r@ == seq_join(list.deep_view(), sep@),
{
    let mut r = String::new();
    let ghost dv = list.deep_view();
    for i in 0..list.len()
        invariant
            dv == list.deep_view(),
            dv.len() == list.len(),
            r@ == seq_join(dv.take(i as int), sep@),
    {
        assert(dv[i as int] == list@[i as int]@);
        assert(dv.take(i + 1).drop_last() == dv.take(i as int));
        if i != 0 {
            r.append(sep);
        } else {
            assert(r@ + list@[i as int]@ == list@[i as int]@);
        }
        r.append(list[i].as_str());
    }
    assert(dv.take(list.len() as int) == dv);
    r
}

// ---------------------------------------------------------------------------
// Decimal numbers
// ---------------------------------------------------------------------------
/// The character of a decimal digit.
pub open spec fn digit_char(d: nat) -> char {
    if d == 0 {
        '0'
    } else if d == 1 {
        '1'
    } else if d == 2 {
        '2'
    } else if d == 3 {
        '3'
    } else if d == 4 {
        '4'
    } else if d == 5 {
        '5'
    } else if d == 6 {
        '6'
    } else if d == 7 {
        '7'
    } else if d == 8 {
        '8'
    } else {
        '9'
    }
}

/// The decimal digits of `n`, without leading zeros.
pub open spec fn decimal(n: nat) -> Seq<char>
    decreases n,
{
    if n < 10 {
        seq![digit_char(n)]
    } else {
        decimal(n / 10).push(digit_char(n % 10))
    }
}

/// `s` padded on the left with zeros to at least `width` characters.
pub open spec fn zero_pad(s: Seq<char>, width: nat) -> Seq<char> {
    if s.len() < width {
        Seq::new((width - s.len()) as nat, |i: int| '0') + s
    } else {
        s
    }
}

fn digit(d: u64) -> (c: char)
    requires
        d < 10,
    ensures
        c == digit_char(d as nat),
{
    if d == 0 {
        '0'
    } else if d == 1 {
        '1'
    } else if d == 2 {
        '2'
    } else if d == 3 {
        '3'
    } else if d == 4 {
        '4'
    } else if d == 5 {
        '5'
    } else if d == 6 {
        '6'
    } else if d == 7 {
        '7'
    } else if d == 8 {
        '8'
    } else {
        '9'
    }
}

/// Renders `n` in decimal (`n.to_string()`).
pub fn decimal_string(n: u64) -> (r: String)
    ensures
        r@ == decimal(n as nat),
    decreases n,
{
    if n < 10 {
        let mut r = String::new();
        push_char(&mut r, digit(n));
        r
    } else {
        let mut r = decimal_string(n / 10);
        push_char(&mut r, digit(n % 10));
        r
    }
}

/// Renders `n` in decimal, padded with zeros to `width` characters.
pub fn zero_padded_decimal(n: u64, width: usize) -> (r: String)
    ensures
        r@ == zero_pad(decimal(n as nat), width as nat),
{
    let d = decimal_string(n);
    let len = d.as_str().unicode_len();
    if len < width {
        let mut r = String::new();
        let mut i: usize = 0;
        while i < width - len
            invariant
                len == d@.len(),
                len < width,
                i <= width - len,
                r@ == Seq::new(i as nat, |j: int| '0'),
            decreases width - len - i,
        {
            push_char(&mut r, '0');
            assert(r@ =~= Seq::new((i + 1) as nat, |j: int| '0'));
            i += 1;
        }
        r.append(d.as_str());
        r
    } else {
        d
    }
}

// ---------------------------------------------------------------------------
// Whitespace
// ---------------------------------------------------------------------------
/// Unicode `White_Space`, as `char::is_whitespace` tests it.
pub open spec fn is_ws(c: char) -> bool {
    let u = c as u32;
    ||| 0x09 <= u <= 0x0D
    ||| u == 0x20
    ||| u == 0x85
    ||| u == 0xA0
    ||| u == 0x1680
    ||| 0x2000 <= u <= 0x200A
    ||| u == 0x2028
    ||| u == 0x2029
    ||| u == 0x202F
    ||| u == 0x205F
    ||| u == 0x3000
}

/// Tests `is_ws`.
pub fn is_whitespace(c: char) -> (r: bool)
    ensures
        r == is_ws(c),
{
    let u = c as u32;
    (0x09 <= u && u <= 0x0D) || u == 0x20 || u == 0x85 || u == 0xA0 || u == 0x1680 || (0x2000
        <= u && u <= 0x200A) || u == 0x2028 || u == 0x2029 || u == 0x202F || u == 0x205F || u
        == 0x3000
}

/// Whether every character of `s` is whitespace.
pub open spec fn all_ws(s: Seq<char>) -> bool {
    forall|i: int| 0 <= i < s.len() ==> is_ws(s[i])
}

/// `s` without leading whitespace.
pub open spec fn trim_start(s: Seq<char>) -> Seq<char>
    decreases s.len(),
{
    if s.len() > 0 && is_ws(s[0]) {
        trim_start(s.drop_first())
    } else {
        s
    }
}

/// `s` without trailing whitespace.
pub open spec fn trim_end(s: Seq<char>) -> Seq<char>
    decreases s.len(),
{
    if s.len() > 0 && is_ws(s.last()) {
        trim_end(s.drop_last())
    } else {
        s
    }
}

/// `s` without leading and trailing whitespace (`str::trim`).
pub open spec fn trim(s: Seq<char>) -> Seq<char> {
    trim_end(trim_start(s))
}

proof fn lemma_trim_start_skip(s: Seq<char>, i: int)
    requires
        0 <= i <= s.len(),
        forall|j: int| 0 <= j < i ==> is_ws(s[j]),
    ensures
        trim_start(s) == trim_start(s.skip(i)),
    decreases i,
{
    if i > 0 {
        assert(s.skip(1) == s.drop_first());
        assert(s.drop_first().skip(i - 1) == s.skip(i));
        lemma_trim_start_skip(s.drop_first(), i - 1);
    } else {
        assert(s.skip(0) == s);
    }
}

proof fn lemma_trim_end_take(s: Seq<char>, k: int)
    requires
        0 <= k <= s.len(),
        forall|j: int| k <= j < s.len() ==> is_ws(s[j]),
    ensures
        trim_end(s) == trim_end(s.take(k)),
    decreases s.len() - k,
{
    if k < s.len() {
        assert(s.drop_last().take(k) == s.take(k));
        lemma_trim_end_take(s.drop_last(), k);
    } else {
        assert(s.take(k) == s);
    }
}

/// The whitespace-trimmed text is empty exactly when every character is whitespace.
pub proof fn lemma_trim_empty_iff_all_ws(s: Seq<char>)
    ensures
        (trim(s).len() == 0) == all_ws(s),
    decreases s.len(),
{
    if s.len() > 0 && is_ws(s[0]) {
        lemma_trim_empty_iff_all_ws(s.drop_first());
        if all_ws(s.drop_first()) {
            assert forall|i: int| 0 <= i < s.len() implies is_ws(s[i]) by {
                if i > 0 {
                    assert(s[i] == s.drop_first()[i - 1]);
                }
            }
        } else {
            let j = choose|j: int| 0 <= j < s.drop_first().len() && !is_ws(s.drop_first()[j]);
            assert(s[j + 1] == s.drop_first()[j]);
        }
        assert(trim(s) == trim(s.drop_first()));
    } else if s.len() > 0 {
        assert(!all_ws(s));
        lemma_trim_end_nonempty(s);
    }
}

proof fn lemma_trim_end_nonempty(s: Seq<char>)
    requires
        s.len() > 0,
        !is_ws(s[0]),
    ensures
        trim_end(s).len() > 0,
        trim_end(s)[0] == s[0],
    decreases s.len(),
{
    if is_ws(s.last()) {
        assert(s.len() > 1);
        assert(s.drop_last()[0] == s[0]);
        lemma_trim_end_nonempty(s.drop_last());
    }
}

/// Index of the first non-whitespace character of `cs`, or its length.
fn first_non_ws(cs: &Vec<char>) -> (a: usize)
    ensures
        a <= cs.len(),
        forall|j: int| 0 <= j < a ==> is_ws(cs@[j]),
        a < cs.len() ==> !is_ws(cs@[a as int]),
        trim_start(cs@) == cs@.skip(a as int),
{
    let mut a: usize = 0;
    while a < cs.len() && is_whitespace(cs[a])
        invariant
            a <= cs.len(),
            forall|j: int| 0 <= j < a ==> is_ws(cs@[j]),
        decreases cs.len() - a,
    {
        a += 1;
    }
    proof {
        lemma_trim_start_skip(cs@, a as int);
        let t = cs@.skip(a as int);
        if t.len() > 0 {
            assert(t[0] == cs@[a as int]);
        }
    }
    a
}

/// `str::trim`: the text without leading and trailing whitespace.
pub fn trim_chars(cs: &Vec<char>) -> (r: Vec<char>)
    ensures
        r@ == trim(cs@),
{
    let a = first_non_ws(cs);
    let mut b: usize = cs.len();
    while b > a && is_whitespace(cs[b - 1])
        invariant
            a <= b <= cs.len(),
            forall|j: int| b <= j < cs.len() ==> is_ws(cs@[j]),
        decreases b,
    {
        b -= 1;
    }
    let ghost t = cs@.skip(a as int);
    proof {
        assert forall|j: int| (b - a) <= j < t.len() implies is_ws(t[j]) by {
            assert(t[j] == cs@[j + a]);
        }
        lemma_trim_end_take(t, b - a);
        let u = t.take(b - a);
        if u.len() > 0 {
            assert(u.last() == cs@[b - 1]);
        }
        assert(u == cs@.subrange(a as int, b as int));
    }
    let mut r: Vec<char> = Vec::new();
    let mut i: usize = a;
    while i < b
        invariant
            a <= i <= b <= cs.len(),
            r@ == cs@.subrange(a as int, i as int),
        decreases b - i,
    {
        r.push(cs[i]);
        assert(cs@.subrange(a as int, i + 1) == cs@.subrange(a as int, i as int).push(
            cs@[i as int],
        ));
        i += 1;
    }
    r
}

/// Whether a text is empty or only whitespace (`s.trim().is_empty()`).
pub fn is_blank(s: &str) -> (r: bool)
    ensures
        r == (trim(s@).len() == 0),
        r == all_ws(s@),
{
    let cs = chars_of(s);
    proof {
        lemma_trim_empty_iff_all_ws(s@);
    }
    let mut i: usize = 0;
    while i < cs.len()
        invariant
            i <= cs.len(),
            cs@ == s@,
            (trim(s@).len() == 0) == all_ws(s@),
            forall|j: int| 0 <= j < i ==> is_ws(cs@[j]),
        decreases cs.len() - i,
    {
        if !is_whitespace(cs[i]) {
            return false;
        }
        i += 1;
    }
    true
}

// ---------------------------------------------------------------------------
// Prefixes and suffixes
// ---------------------------------------------------------------------------
/// Whether `s` begins with `p`.
pub open spec fn starts_with(s: Seq<char>, p: Seq<char>) -> bool {
    s.len() >= p.len() && s.take(p.len() as int) == p
}

/// Whether `s` ends with `p`.
pub open spec fn ends_with(s: Seq<char>, p: Seq<char>) -> bool {
    s.len() >= p.len() && s.skip(s.len() - p.len()) == p
}

/// Tests `starts_with` on character vectors.
pub fn chars_start_with(s: &Vec<char>, p: &Vec<char>) -> (r: bool)
    ensures
        r == starts_with(s@, p@),
{
    if s.len() < p.len() {
        return false;
    }
    let mut i: usize = 0;
    while i < p.len()
        invariant
            p.len() <= s.len(),
            i <= p.len(),
            forall|j: int| 0 <= j < i ==> s@[j] == p@[j],
        decreases p.len() - i,
    {
        if s[i] != p[i] {
            assert(s@.take(p.len() as int)[i as int] != p@[i as int]);
            return false;
        }
        i += 1;
    }
    assert(s@.take(p.len() as int) =~= p@);
    true
}

/// Tests `ends_with` on character vectors.
pub fn chars_end_with(s: &Vec<char>, p: &Vec<char>) -> (r: bool)
    ensures
        r == ends_with(s@, p@),
{
    if s.len() < p.len() {
        return false;
    }
    let off = s.len() - p.len();
    let mut i: usize = 0;
    while i < p.len()
        invariant
            p.len() <= s.len(),
            off == s.len() - p.len(),
            i <= p.len(),
            forall|j: int| 0 <= j < i ==> s@[off + j] == p@[j],
        decreases p.len() - i,
    {
        if s[off + i] != p[i] {
            assert(s@.skip(off as int)[i as int] != p@[i as int]);
            return false;
        }
        i += 1;
    }
    assert(s@.skip(off as int) =~= p@);
    true
}

/// `str::starts_with` with a string pattern.
pub fn str_starts_with(s: &str, p: &str) -> (r: bool)
    ensures
        r == starts_with(s@, p@),
{
    let a = chars_of(s);
    let b = chars_of(p);
    chars_start_with(&a, &b)
}

/// `str::ends_with` with a string pattern.
pub fn str_ends_with(s: &str, p: &str) -> (r: bool)
    ensures
        r == ends_with(s@, p@),
{
    let a = chars_of(s);
    let b = chars_of(p);
    chars_end_with(&a, &b)
}

// ---------------------------------------------------------------------------
// Paths
// ---------------------------------------------------------------------------
/// `Path::join` on Unix: an absolute `rel` replaces `base`; otherwise a `/`
/// is put between them unless `base` is empty or already ends with one.
pub open spec fn path_join(base: Seq<char>, rel: Seq<char>) -> Seq<char> {
    if rel.len() > 0 && rel[0] == '/' {
        rel
    } else if base.len() > 0 && base.last() != '/' {
        base + seq!['/'] + rel
    } else {
        base + rel
    }
}

/// Joins a path and a further component, as `Path::join` does on Unix.
pub fn join_path(base: &str, rel: &str) -> (r: String)
    ensures
        r@ == path_join(base@, rel@),
{
    let b = chars_of(base);
    let p = chars_of(rel);
    if p.len() > 0 && p[0] == '/' {
        return rel.to_owned();
    }
    let mut r = base.to_owned();
    if b.len() > 0 && b[b.len() - 1] != '/' {
        push_char(&mut r, '/');
    }
    r.append(rel);
    r
}

} // verus!
