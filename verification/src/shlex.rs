//! Splitting a command line into words, keeping quotes and escapes inside the words.
use vstd::prelude::*;

use crate::text::{chars_of, is_white_space, is_whitespace, join, string_of};

verus! {

/// The state of the splitter after some characters: the finished words, the word being read,
/// the open quote character and whether the previous character was an unconsumed backslash.
pub type LexState = (Seq<Seq<char>>, Seq<char>, Option<char>, bool);

/// The state before any character.
pub open spec fn lex_start() -> LexState {
    (Seq::<Seq<char>>::empty(), Seq::<char>::empty(), None, false)
}

/// The state after reading `c` in state `st`.
///
/// A backslash escapes the next character; a quote opens a quoted part that runs to the same
/// quote; outside quotes and escapes white space ends the current word. Backslashes and quotes
/// stay in the word.
pub open spec fn lex_step(st: LexState, c: char) -> LexState {
    let (words, word, quote, escape) = st;
    if !escape && c == '\\' {
        (words, word.push(c), quote, true)
    } else if escape {
        (words, word.push(c), quote, false)
    } else if quote is None && (c == '"' || c == '\'') {
        (words, word.push(c), Some(c), false)
    } else if quote is Some {
        (words, word.push(c), if c == quote->0 { None } else { quote }, false)
    } else if is_white_space(c) {
        if word.len() > 0 {
            (words.push(word), Seq::<char>::empty(), None, false)
        } else {
            st
        }
    } else {
        (words, word.push(c), quote, false)
    }
}

/// The state after reading all of `s`.
pub open spec fn lex_run(s: Seq<char>) -> LexState
    decreases s.len(),
{
    if s.len() == 0 {
        lex_start()
    } else {
        lex_step(lex_run(s.drop_last()), s.last())
    }
}

/// The words of the command line `s`.
pub open spec fn shlex_words(s: Seq<char>) -> Seq<Seq<char>> {
    let st = lex_run(s);
    if st.1.len() > 0 {
        st.0.push(st.1)
    } else {
        st.0
    }
}

/// The character at `i` separates words: it is white space read outside quotes and escapes.
pub open spec fn is_separator(s: Seq<char>, i: int) -> bool {
    let st = lex_run(s.take(i));
    st.2 is None && !st.3 && is_white_space(s[i])
}

/// The characters of `s` that are not separators, in order.
pub open spec fn kept_chars(s: Seq<char>) -> Seq<char>
    decreases s.len(),
{
    if s.len() == 0 {
        s
    } else {
        kept_chars(s.drop_last()) + (if is_separator(s, s.len() - 1) {
            Seq::<char>::empty()
        } else {
            seq![s.last()]
        })
    }
}

/// The words written one after another.
pub open spec fn concat_words(words: Seq<Seq<char>>) -> Seq<char>
    decreases words.len(),
{
    if words.len() == 0 {
        Seq::<char>::empty()
    } else {
        concat_words(words.drop_last()) + words.last()
    }
}

/// What reading a prefix tells of its words: none is empty, and together with the current word
/// they hold the kept characters.
proof fn lemma_lex_run(s: Seq<char>)
    ensures
        forall|k: int| 0 <= k < lex_run(s).0.len() ==> #[trigger] lex_run(s).0[k].len() > 0,
        concat_words(lex_run(s).0) + lex_run(s).1 == kept_chars(s),
        lex_run(s).1.len() == 0 ==> lex_run(s).2 is None && !lex_run(s).3,
    decreases s.len(),
{
    if s.len() > 0 {
        let p = s.drop_last();
        lemma_lex_run(p);
        assert(s.take(s.len() - 1) =~= p);
        let st = lex_run(p);
        let c = s.last();
        let nt = lex_step(st, c);
        if !st.3 && c == '\\' {
            assert(concat_words(nt.0) + nt.1 =~= concat_words(st.0) + st.1 + seq![c]);
        } else if st.3 {
            assert(concat_words(nt.0) + nt.1 =~= concat_words(st.0) + st.1 + seq![c]);
        } else if st.2 is None && (c == '"' || c == '\'') {
            assert(concat_words(nt.0) + nt.1 =~= concat_words(st.0) + st.1 + seq![c]);
        } else if st.2 is Some {
            assert(concat_words(nt.0) + nt.1 =~= concat_words(st.0) + st.1 + seq![c]);
        } else if is_white_space(c) {
            if st.1.len() > 0 {
                assert(nt.0.drop_last() =~= st.0);
                assert(concat_words(nt.0) + nt.1 =~= concat_words(st.0) + st.1);
            }
            assert(kept_chars(s) =~= kept_chars(p));
        } else {
            assert(concat_words(nt.0) + nt.1 =~= concat_words(st.0) + st.1 + seq![c]);
        }
    }
}

/// No word of a command line is empty.
pub proof fn lemma_words_not_empty(s: Seq<char>)
    ensures
        forall|k: int| 0 <= k < shlex_words(s).len() ==> #[trigger] shlex_words(s)[k].len() > 0,
{
    lemma_lex_run(s);
}

/// The words hold exactly the characters of the command line that are not separators, in order:
/// splitting drops separating white space and nothing else.
pub proof fn lemma_words_keep_chars(s: Seq<char>)
    ensures
        concat_words(shlex_words(s)) == kept_chars(s),
{
    lemma_lex_run(s);
    let st = lex_run(s);
    if st.1.len() > 0 {
        assert(st.0.push(st.1).drop_last() =~= st.0);
    } else {
        assert(st.1 =~= Seq::<char>::empty());
        assert(concat_words(st.0) + st.1 =~= concat_words(st.0));
    }
}

/// The state after reading `s` from the state `st`.
pub open spec fn lex_from(st: LexState, s: Seq<char>) -> LexState
    decreases s.len(),
{
    if s.len() == 0 {
        st
    } else {
        lex_step(lex_from(st, s.drop_last()), s.last())
    }
}

/// Reading from the start state is `lex_run`.
proof fn lemma_lex_from_start(s: Seq<char>)
    ensures
        lex_from(lex_start(), s) == lex_run(s),
    decreases s.len(),
{
    if s.len() > 0 {
        lemma_lex_from_start(s.drop_last());
    }
}

/// Reading `a` and then `b` is reading `a + b`.
proof fn lemma_lex_from_add(st: LexState, a: Seq<char>, b: Seq<char>)
    ensures
        lex_from(st, a + b) == lex_from(lex_from(st, a), b),
    decreases b.len(),
{
    if b.len() == 0 {
        assert(a + b =~= a);
    } else {
        assert((a + b).drop_last() =~= a + b.drop_last());
        lemma_lex_from_add(st, a, b.drop_last());
    }
}

/// The finished words of the starting state are carried along untouched.
proof fn lemma_lex_from_words(words: Seq<Seq<char>>, word: Seq<char>, q: Option<char>, e: bool, s: Seq<char>)
    ensures
        ({
            let with = lex_from((words, word, q, e), s);
            let without = lex_from((Seq::<Seq<char>>::empty(), word, q, e), s);
            with == (words + without.0, without.1, without.2, without.3)
        }),
    decreases s.len(),
{
    if s.len() == 0 {
        assert(words + Seq::<Seq<char>>::empty() =~= words);
    } else {
        lemma_lex_from_words(words, word, q, e, s.drop_last());
        let without = lex_from((Seq::<Seq<char>>::empty(), word, q, e), s.drop_last());
        assert((words + without.0).push(without.1) =~= words + without.0.push(without.1));
    }
}

/// Read on its own, `w` stays one word and ends in the state `(q, e)`.
pub open spec fn reads_as_word(w: Seq<char>) -> bool {
    lex_run(w).0 == Seq::<Seq<char>>::empty() && lex_run(w).1 == w
}

/// Read on its own, `w` stays one word and ends outside quotes and escapes.
pub open spec fn closed_word(w: Seq<char>) -> bool {
    reads_as_word(w) && lex_run(w).2 is None && !lex_run(w).3
}

/// The words read so far are closed, and the current word read on its own gives the current
/// state.
proof fn lemma_lex_run_words(s: Seq<char>)
    ensures
        forall|k: int| 0 <= k < lex_run(s).0.len() ==> closed_word(#[trigger] lex_run(s).0[k]),
        lex_run(lex_run(s).1) == (Seq::<Seq<char>>::empty(), lex_run(s).1, lex_run(s).2, lex_run(s).3),
    decreases s.len(),
{
    lemma_lex_run(s);
    if s.len() > 0 {
        let p = s.drop_last();
        lemma_lex_run_words(p);
        lemma_lex_run(p);
        let st = lex_run(p);
        let c = s.last();
        let nt = lex_step(st, c);
        let separator = !st.3 && !(c == '\\') && !(st.2 is None && (c == '"' || c == '\''))
            && st.2 is None && is_white_space(c);
        if separator {
            if st.1.len() > 0 {
                assert forall|k: int| 0 <= k < nt.0.len() implies closed_word(#[trigger] nt.0[k]) by {
                    if k < st.0.len() {
                        assert(nt.0[k] == st.0[k]);
                    } else {
                        assert(nt.0[k] == st.1);
                    }
                }
            }
        } else {
            assert(st.1.push(c).drop_last() =~= st.1);
        }
    } else {
        assert(lex_run(Seq::<char>::empty()) == lex_start());
    }
}

/// Every word of a command line but the last is closed, and every word reads as one word.
proof fn lemma_words_closed(s: Seq<char>)
    ensures
        forall|k: int| 0 <= k < shlex_words(s).len() - 1 ==> closed_word(#[trigger] shlex_words(s)[k]),
        forall|k: int| 0 <= k < shlex_words(s).len() ==> reads_as_word(#[trigger] shlex_words(s)[k]),
{
    lemma_lex_run_words(s);
    lemma_lex_run(s);
    let st = lex_run(s);
    let w = shlex_words(s);
    assert forall|k: int| 0 <= k < w.len() implies reads_as_word(#[trigger] w[k]) by {
        if k < st.0.len() {
            assert(w[k] == st.0[k]);
        } else {
            assert(w[k] == st.1);
        }
    }
    assert forall|k: int| 0 <= k < w.len() - 1 implies closed_word(#[trigger] w[k]) by {
        assert(k < st.0.len());
        assert(w[k] == st.0[k]);
    }
}

/// Reading the joined first `k` words gives those words, with the last still open.
proof fn lemma_join_prefix(w: Seq<Seq<char>>, k: int)
    requires
        1 <= k <= w.len(),
        forall|i: int| 0 <= i < w.len() - 1 ==> closed_word(#[trigger] w[i]),
        forall|i: int| 0 <= i < w.len() ==> reads_as_word(#[trigger] w[i]),
        forall|i: int| 0 <= i < w.len() ==> #[trigger] w[i].len() > 0,
    ensures
        lex_run(join(w.take(k), " "@)) == (w.take(k - 1), w[k - 1], lex_run(w[k - 1]).2, lex_run(
            w[k - 1],
        ).3),
    decreases k,
{
    reveal_strlit(" ");
    if k == 1 {
        assert(w.take(1) =~= seq![w[0]]);
        assert(w.take(0) =~= Seq::<Seq<char>>::empty());
        assert(reads_as_word(w[0]));
    } else {
        lemma_join_prefix(w, k - 1);
        let a = join(w.take(k - 1), " "@);
        let b = w[k - 1];
        assert(w.take(k).drop_last() =~= w.take(k - 1));
        assert(join(w.take(k), " "@) == a + " "@ + b);
        lemma_lex_from_start(a + " "@ + b);
        lemma_lex_from_add(lex_start(), a + " "@, b);
        lemma_lex_from_add(lex_start(), a, " "@);
        lemma_lex_from_start(a);
        let prev = w[k - 2];
        assert(closed_word(prev));
        let after_a = lex_from(lex_start(), a);
        assert(after_a == (w.take(k - 2), prev, None::<char>, false));
        assert(" "@ =~= seq![' ']);
        assert(seq![' '].drop_last() =~= Seq::<char>::empty());
        assert(is_white_space(' '));
        let after_space = lex_from(after_a, " "@);
        assert(" "@.len() == 1);
        assert(" "@.last() == ' ');
        assert(" "@.drop_last() =~= Seq::<char>::empty());
        assert(lex_from(after_a, Seq::<char>::empty()) == after_a);
        assert(after_space == lex_step(after_a, ' '));
        assert(w.take(k - 2).push(prev) =~= w.take(k - 1));
        assert(after_space == (w.take(k - 1), Seq::<char>::empty(), None::<char>, false));
        lemma_lex_from_words(w.take(k - 1), Seq::<char>::empty(), None, false, b);
        lemma_lex_from_start(b);
        assert(reads_as_word(b));
        assert(w.take(k - 1) + Seq::<Seq<char>>::empty() =~= w.take(k - 1));
    }
}

/// Reading one more character is one more step of the splitter.
proof fn lemma_lex_run_push(s: Seq<char>, c: char)
    ensures
        lex_run(s.push(c)) == lex_step(lex_run(s), c),
{
    assert(s.push(c).drop_last() =~= s);
}

/// Inside a part opened by the quote `q`, any character but `q` and a backslash is kept in the
/// word and leaves the part open: another quote character, white space included.
pub proof fn lemma_quote_stays_open(st: LexState, q: char, c: char)
    requires
        st.2 == Some(q),
        !st.3,
        c != q,
        c != '\\',
    ensures
        lex_step(st, c) == (st.0, st.1.push(c), Some(q), false),
{
}

/// Reading the characters `m`, none of them `q` or a backslash, inside a part opened by `q`
/// adds them to the word and leaves the part open.
proof fn lemma_lex_run_quoted(p: Seq<char>, m: Seq<char>, q: char, k: int)
    requires
        lex_run(p).2 == Some(q),
        !lex_run(p).3,
        !m.contains(q),
        !m.contains('\\'),
        0 <= k <= m.len(),
    ensures
        lex_run(p + m.take(k)) == (lex_run(p).0, lex_run(p).1 + m.take(k), Some(q), false),
    decreases k,
{
    if k == 0 {
        assert(p + m.take(0) =~= p);
        assert(lex_run(p).1 + m.take(0) =~= lex_run(p).1);
    } else {
        lemma_lex_run_quoted(p, m, q, k - 1);
        assert(p + m.take(k) =~= (p + m.take(k - 1)).push(m[k - 1]));
        lemma_lex_run_push(p + m.take(k - 1), m[k - 1]);
        assert(m.contains(m[k - 1]));
        lemma_quote_stays_open(lex_run(p + m.take(k - 1)), q, m[k - 1]);
        assert(lex_run(p).1 + m.take(k) =~= (lex_run(p).1 + m.take(k - 1)).push(m[k - 1]));
    }
}

/// A quoted part is one word: after a command line `s` that ends outside quotes and escapes, a
/// space and a part quoted with `q` (holding no `q` and no backslash, but possibly white space and
/// the other quote character) add exactly one word, the part with its quotes.
pub proof fn lemma_quoted_part_is_one_word(s: Seq<char>, q: char, m: Seq<char>)
    requires
        q == '"' || q == '\'',
        !m.contains(q),
        !m.contains('\\'),
        lex_run(s).2 is None,
        !lex_run(s).3,
    ensures
        shlex_words(s + seq![' ', q] + m + seq![q]) == shlex_words(s).push(seq![q] + m + seq![q]),
{
    let w = shlex_words(s);
    let a = s.push(' ');
    lemma_lex_run_push(s, ' ');
    assert(is_white_space(' '));
    assert(lex_run(a) == (w, Seq::<char>::empty(), Option::<char>::None, false));
    let b = a.push(q);
    lemma_lex_run_push(a, q);
    assert(lex_run(b) == (w, seq![q], Some(q), false)) by {
        assert(Seq::<char>::empty().push(q) =~= seq![q]);
    }
    lemma_lex_run_quoted(b, m, q, m.len() as int);
    assert(m.take(m.len() as int) =~= m);
    lemma_lex_run_push(b + m, q);
    assert(s + seq![' ', q] + m + seq![q] =~= (b + m).push(q));
    assert((seq![q] + m).push(q) =~= seq![q] + m + seq![q]);
}

/// A backslash escapes the next character, whatever it is: both stay in the word, and the
/// escaped character neither ends the word nor opens or closes a quote.
pub proof fn lemma_escape_keeps_next(st: LexState, c: char)
    requires
        !st.3,
    ensures
        lex_step(lex_step(st, '\\'), c) == (st.0, st.1.push('\\').push(c), st.2, false),
{
}

/// Plain characters (no white space, quote or backslash) read outside quotes extend the word.
proof fn lemma_lex_run_plain(p: Seq<char>, w: Seq<char>, k: int)
    requires
        lex_run(p).2 is None,
        !lex_run(p).3,
        forall|j: int|
            0 <= j < w.len() ==> !is_white_space(#[trigger] w[j]) && w[j] != '"' && w[j] != '\'' && w[j]
                != '\\',
        0 <= k <= w.len(),
    ensures
        lex_run(p + w.take(k)) == (lex_run(p).0, lex_run(p).1 + w.take(k), Option::<char>::None, false),
    decreases k,
{
    if k == 0 {
        assert(p + w.take(0) =~= p);
        assert(lex_run(p).1 + w.take(0) =~= lex_run(p).1);
    } else {
        lemma_lex_run_plain(p, w, k - 1);
        assert(p + w.take(k) =~= (p + w.take(k - 1)).push(w[k - 1]));
        lemma_lex_run_push(p + w.take(k - 1), w[k - 1]);
        assert(lex_run(p).1 + w.take(k) =~= (lex_run(p).1 + w.take(k - 1)).push(w[k - 1]));
    }
}

/// White space outside quotes separates words: after a command line `s` that ends outside quotes
/// and escapes, a space and a plain word (no white space, quote or backslash) add exactly that
/// word.
pub proof fn lemma_space_separates_words(s: Seq<char>, w: Seq<char>)
    requires
        w.len() > 0,
        forall|j: int|
            0 <= j < w.len() ==> !is_white_space(#[trigger] w[j]) && w[j] != '"' && w[j] != '\'' && w[j]
                != '\\',
        lex_run(s).2 is None,
        !lex_run(s).3,
    ensures
        shlex_words(s + seq![' '] + w) == shlex_words(s).push(w),
{
    let a = s.push(' ');
    lemma_lex_run_push(s, ' ');
    assert(is_white_space(' '));
    assert(lex_run(a) == (shlex_words(s), Seq::<char>::empty(), Option::<char>::None, false));
    lemma_lex_run_plain(a, w, w.len() as int);
    assert(w.take(w.len() as int) =~= w);
    assert(s + seq![' '] + w =~= a + w);
    assert(Seq::<char>::empty() + w =~= w);
}

/// Splitting the words of a command line joined with single spaces gives the same words: the
/// words are a fixed point of joining and splitting.
pub proof fn lemma_split_join_split(s: Seq<char>)
    ensures
        shlex_words(join(shlex_words(s), " "@)) == shlex_words(s),
{
    let w = shlex_words(s);
    lemma_words_closed(s);
    lemma_words_not_empty(s);
    if w.len() == 0 {
        assert(join(w, " "@) == Seq::<char>::empty());
        assert(lex_run(Seq::<char>::empty()) == lex_start());
        assert(shlex_words(Seq::<char>::empty()) =~= w);
    } else {
        lemma_join_prefix(w, w.len() as int);
        assert(w.take(w.len() as int) =~= w);
        assert(w.take(w.len() - 1).push(w[w.len() - 1]) =~= w);
    }
}

/// Splits a command line into its words. Quotes (`"` and `'`) and backslash escapes protect
/// white space from splitting and stay in the words.
pub fn shlex(cmd: &str) -> (res: Vec<String>)
    ensures
        res.deep_view() == shlex_words(cmd@),
{
    let chars = chars_of(cmd);
    let mut res: Vec<String> = Vec::new();
    let mut word: Vec<char> = Vec::new();
    let mut quote: Option<char> = None;
    let mut escape = false;
    let mut i: usize = 0;
    assert(chars@.take(0) =~= Seq::<char>::empty());
    assert(res.deep_view() =~= Seq::<Seq<char>>::empty());
    while i < chars.len()
        invariant
            i <= chars.len(),
            chars@ == cmd@,
            lex_run(chars@.take(i as int)) == (res.deep_view(), word@, quote, escape),
        decreases chars.len() - i,
    {
        let c = chars[i];
        let ghost before = (res.deep_view(), word@, quote, escape);
        assert(chars@.take(i + 1).drop_last() =~= chars@.take(i as int));
        assert(chars@.take(i + 1).last() == c);
        if !escape && c == '\\' {
            escape = true;
            word.push(c);
        } else if escape {
            escape = false;
            word.push(c);
        } else if quote.is_none() && (c == '"' || c == '\'') {
            quote = Some(c);
            word.push(c);
        } else if let Some(q) = quote {
            if c == q {
                quote = None;
            }
            word.push(c);
        } else if is_whitespace(c) {
            if word.len() > 0 {
                let w = string_of(&word);
                let ghost old_res = res.deep_view();
                res.push(w);
                assert(res.deep_view() =~= old_res.push(word@));
                word = Vec::new();
            }
        } else {
            word.push(c);
        }
        assert(lex_step(before, c) == (res.deep_view(), word@, quote, escape));
        i = i + 1;
    }
    assert(chars@.take(chars.len() as int) =~= chars@);
    if word.len() > 0 {
        let w = string_of(&word);
        let ghost old_res = res.deep_view();
        res.push(w);
        assert(res.deep_view() =~= old_res.push(word@));
    }
    res
}

} // verus!
