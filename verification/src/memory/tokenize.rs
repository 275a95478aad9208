//! The embedder's minimal tokenizer: whitespace-separated words hashed to
//! pseudo token identifiers between the `[CLS]` and `[SEP]` markers.
use vstd::prelude::*;
use vstd::utf8::*;

use crate::text::{chars_of, is_whitespace, is_ws};

verus! {

/// Index of the first whitespace character of `s`, or `s.len()`.
pub open spec fn ws_pos(s: Seq<char>) -> nat
    decreases s.len(),
{
    if s.len() == 0 {
        0
    } else if is_ws(s[0]) {
        0
    } else {
        1 + ws_pos(s.drop_first())
    }
}

pub proof fn lemma_ws_pos_bound(s: Seq<char>)
    ensures
        ws_pos(s) <= s.len(),
        s.len() > 0 && !is_ws(s[0]) ==> ws_pos(s) >= 1,
    decreases s.len(),
{
    if s.len() > 0 && !is_ws(s[0]) {
        lemma_ws_pos_bound(s.drop_first());
    }
}

/// The whitespace-separated words of a text (`str::split_whitespace`).
pub open spec fn words_of(s: Seq<char>) -> Seq<Seq<char>>
    decreases s.len(),
{
    if s.len() == 0 {
        seq![]
    } else if is_ws(s[0]) {
        words_of(s.drop_first())
    } else {
        let k = ws_pos(s);
        proof {
            lemma_ws_pos_bound(s);
        }
        seq![s.take(k as int)] + words_of(s.skip(k as int))
    }
}

/// Whether `s` holds no whitespace.
pub open spec fn no_ws(s: Seq<char>) -> bool {
    forall|i: int| 0 <= i < s.len() ==> !is_ws(s[i])
}

proof fn lemma_ws_pos_prefix(cur: Seq<char>, t: Seq<char>)
    requires
        no_ws(cur),
    ensures
        ws_pos(cur + t) == cur.len() + ws_pos(t),
    decreases cur.len(),
{
    if cur.len() > 0 {
        assert((cur + t)[0] == cur[0]);
        assert((cur + t).drop_first() == cur.drop_first() + t);
        lemma_ws_pos_prefix(cur.drop_first(), t);
    } else {
        assert(cur + t == t);
    }
}

proof fn lemma_words_step_ws(cur: Seq<char>, t: Seq<char>)
    requires
        no_ws(cur),
        t.len() > 0,
        is_ws(t[0]),
    ensures
        words_of(cur + t) == (if cur.len() > 0 {
            seq![cur]
        } else {
            Seq::<Seq<char>>::empty()
        }) + words_of(t.skip(1)),
{
    assert(t.skip(1) == t.drop_first());
    if cur.len() > 0 {
        lemma_ws_pos_prefix(cur, t);
        assert(ws_pos(t) == 0);
        let s = cur + t;
        assert(s[0] == cur[0]);
        assert(!is_ws(s[0]));
        assert(ws_pos(s) == cur.len());
        assert(s.take(cur.len() as int) == cur);
        assert(s.skip(cur.len() as int) == t);
        assert(words_of(t) == words_of(t.drop_first()));
        assert(words_of(s) == seq![cur] + words_of(t));
    } else {
        assert(cur + t == t);
        assert(Seq::<Seq<char>>::empty() + words_of(t.skip(1)) == words_of(t.skip(1)));
    }
}

proof fn lemma_words_last(cur: Seq<char>)
    requires
        no_ws(cur),
    ensures
        words_of(cur) == (if cur.len() > 0 {
            seq![cur]
        } else {
            Seq::<Seq<char>>::empty()
        }),
{
    if cur.len() > 0 {
        lemma_ws_pos_prefix(cur, Seq::<char>::empty());
        assert(cur + Seq::<char>::empty() == cur);
        assert(!is_ws(cur[0]));
        assert(ws_pos(cur) == cur.len());
        assert(cur.take(cur.len() as int) == cur);
        assert(cur.skip(cur.len() as int) == Seq::<char>::empty());
        assert(words_of(Seq::<char>::empty()) == Seq::<Seq<char>>::empty());
        assert(seq![cur] + Seq::<Seq<char>>::empty() == seq![cur]);
    }
}

/// One step of the word hash: `acc * 31 + byte`, wrapping at 32 bits.
pub open spec fn hash_step(acc: u32, b: u8) -> u32 {
    ((acc * 31 + b) % 0x1_0000_0000) as u32
}

/// The word hash of `bytes`, continuing from `acc`.
pub open spec fn hash_from(acc: u32, bytes: Seq<u8>) -> u32
    decreases bytes.len(),
{
    if bytes.len() == 0 {
        acc
    } else {
        hash_step(hash_from(acc, bytes.drop_last()), bytes.last())
    }
}

/// The pseudo token identifier of a word: the hash of its UTF-8 bytes,
/// folded into `1000..31000`.
pub open spec fn word_token(w: Seq<char>) -> u32 {
    (hash_from(0, encode_utf8(w)) % 30000 + 1000) as u32
}

/// The tokens of a text: `[CLS]` (101), one token per word, `[SEP]` (102).
pub open spec fn tokens_of(text: Seq<char>) -> Seq<u32> {
    seq![101u32] + words_of(text).map_values(|w: Seq<char>| word_token(w)) + seq![102u32]
}

proof fn lemma_hash_append(acc: u32, a: Seq<u8>, b: Seq<u8>)
    ensures
        hash_from(acc, a + b) == hash_from(hash_from(acc, a), b),
    decreases b.len(),
{
    if b.len() > 0 {
        assert((a + b).drop_last() == a + b.drop_last());
        assert((a + b).last() == b.last());
        lemma_hash_append(acc, a, b.drop_last());
    } else {
        assert(a + b == a);
    }
}

proof fn lemma_encode_append(s: Seq<char>, c: char)
    ensures
        encode_utf8(s.push(c)) == encode_utf8(s) + encode_scalar(c as u32),
    decreases s.len(),
{
    if s.len() > 0 {
        assert(s.push(c).drop_first() == s.drop_first().push(c));
        lemma_encode_append(s.drop_first(), c);
        assert(s.push(c)[0] == s[0]);
    } else {
        assert(s.push(c).drop_first() =~= Seq::<char>::empty());
        assert(encode_utf8(Seq::<char>::empty()) =~= Seq::<u8>::empty());
        assert(encode_utf8(s) =~= Seq::<u8>::empty());
    }
}

/// The UTF-8 bytes of a character.
fn utf8_bytes(c: char) -> (r: Vec<u8>)
    ensures
        r@ == encode_scalar(c as u32),
{
    let u = c as u32;
    let mut r: Vec<u8> = Vec::new();
    if u <= 0x7F {
        r.push((u & 0x7F) as u8);
    } else if u <= 0x7FF {
        r.push(0xC0 | ((u >> 6) & 0x1F) as u8);
        r.push(0x80 | (u & 0x3F) as u8);
    } else if u <= 0xFFFF {
        proof {
            char_is_scalar(c);
        }
        r.push(0xE0 | ((u >> 12) & 0x0F) as u8);
        r.push(0x80 | ((u >> 6) & 0x3F) as u8);
        r.push(0x80 | (u & 0x3F) as u8);
    } else {
        proof {
            char_is_scalar(c);
        }
        r.push(0xF0 | ((u >> 18) & 0x7) as u8);
        r.push(0x80 | ((u >> 12) & 0x3F) as u8);
        r.push(0x80 | ((u >> 6) & 0x3F) as u8);
        r.push(0x80 | (u & 0x3F) as u8);
    }
    r
}

/// Continues a word hash over the bytes of one more character.
fn hash_char(acc: u32, c: char) -> (r: u32)
    ensures
        r == hash_from(acc, encode_scalar(c as u32)),
{
    let bytes = utf8_bytes(c);
    let mut h = acc;
    for i in 0..bytes.len()
        invariant
            h == hash_from(acc, bytes@.take(i as int)),
    {
        assert(bytes@.take(i + 1).drop_last() == bytes@.take(i as int));
        h = ((h as u64 * 31 + bytes[i] as u64) % 0x1_0000_0000u64) as u32;
    }
    assert(bytes@.take(bytes@.len() as int) == bytes@);
    h
}

/// Minimal whitespace tokenizer producing pseudo-token IDs.
pub fn tokenize(text: &str) -> (r: Vec<u32>)
    ensures
        r@ == tokens_of(text@),
{
    let cs = chars_of(text);
    let ghost s = text@;
    let ghost tok = |w: Seq<char>| word_token(w);
    let mut tokens: Vec<u32> = Vec::new();
    tokens.push(101);
    let mut h: u32 = 0;
    let mut in_word = false;
    let ghost mut done: Seq<Seq<char>> = seq![];
    let ghost mut cur: Seq<char> = seq![];
    let mut i: usize = 0;
    assert(cs@.skip(0) == cs@);
    assert(cur + cs@.skip(0) == cs@);
    assert(encode_utf8(Seq::<char>::empty()) =~= Seq::<u8>::empty());
    while i < cs.len()
        invariant
            i <= cs.len(),
            cs@ == s,
            tok == (|w: Seq<char>| word_token(w)),
            no_ws(cur),
            in_word == (cur.len() > 0),
            h == hash_from(0, encode_utf8(cur)),
            words_of(s) == done + words_of(cur + cs@.skip(i as int)),
            tokens@ == seq![101u32] + done.map_values(tok),
        decreases cs.len() - i,
    {
        let c = cs[i];
        let ghost rest = cs@.skip(i as int);
        assert(rest[0] == c);
        assert(rest.skip(1) == cs@.skip(i + 1));
        if is_whitespace(c) {
            proof {
                lemma_words_step_ws(cur, rest);
            }
            if in_word {
                tokens.push(h % 30000 + 1000);
                proof {
                    assert(done.push(cur).map_values(tok) == done.map_values(tok).push(tok(cur)));
                    assert(seq![101u32] + done.push(cur).map_values(tok) == (seq![101u32]
                        + done.map_values(tok)).push(tok(cur)));
                    assert(seq![cur] + words_of(cs@.skip(i + 1)) == seq![cur] + words_of(
                        rest.skip(1),
                    ));
                    assert(done + (seq![cur] + words_of(cs@.skip(i + 1))) == done.push(cur)
                        + words_of(cs@.skip(i + 1)));
                    done = done.push(cur);
                }
            } else {
                assert(Seq::<Seq<char>>::empty() + words_of(rest.skip(1)) == words_of(
                    cs@.skip(i + 1),
                ));
            }
            h = 0;
            in_word = false;
            proof {
                cur = seq![];
                assert(cur + cs@.skip(i + 1) == cs@.skip(i + 1));
            }
        } else {
            proof {
                lemma_encode_append(cur, c);
                lemma_hash_append(0, encode_utf8(cur), encode_scalar(c as u32));
                assert(cur + rest == cur.push(c) + cs@.skip(i + 1));
                cur = cur.push(c);
            }
            h = hash_char(h, c);
            in_word = true;
        }
        i += 1;
    }
    proof {
        assert(cs@.skip(cs.len() as int) == Seq::<char>::empty());
        assert(cur + Seq::<char>::empty() == cur);
        lemma_words_last(cur);
    }
    if in_word {
        tokens.push(h % 30000 + 1000);
        proof {
            assert(words_of(s) == done.push(cur));
            assert(done.push(cur).map_values(tok) == done.map_values(tok).push(tok(cur)));
            done = done.push(cur);
        }
    } else {
        assert(done + Seq::<Seq<char>>::empty() == done);
    }
    tokens.push(102);
    assert(words_of(s) == done);
    assert(tokens@ =~= tokens_of(s));
    tokens
}

} // verus!
