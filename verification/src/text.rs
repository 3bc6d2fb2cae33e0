//! Character-level string utilities with their specifications.
//!
//! Every string is modelled by its view, the sequence of its `char`s.
use vstd::prelude::*;

verus! {

// ---------------------------------------------------------------------------
// Specifications
// ---------------------------------------------------------------------------

/// The index of the first occurrence of `t` in `s`, if any.
pub open spec fn first_index<A>(s: Seq<A>, t: A) -> Option<int>
    decreases s.len(),
{
    if s.len() == 0 {
        None
    } else {
        match first_index(s.drop_last(), t) {
            Some(i) => Some(i),
            None => if s.last() == t {
                Some(s.len() - 1)
            } else {
                None
            },
        }
    }
}

/// `p` occurs in `s` starting at position `i`.
pub open spec fn occurs_at(s: Seq<char>, p: Seq<char>, i: int) -> bool {
    &&& 0 <= i
    &&& i + p.len() <= s.len()
    &&& s.subrange(i, i + p.len()) == p
}

/// `p` is a substring of `s` (what `str::contains` answers for a string pattern).
pub open spec fn has_substring(s: Seq<char>, p: Seq<char>) -> bool {
    exists|i: int| occurs_at(s, p, i)
}

/// `s` ends with `p`.
pub open spec fn ends_with(s: Seq<char>, p: Seq<char>) -> bool {
    p.len() <= s.len() && s.subrange(s.len() - p.len(), s.len() as int) == p
}

/// `c` has the Unicode `White_Space` property (what `char::is_whitespace` answers).
pub open spec fn is_white_space(c: char) -> bool {
    let n = c as u32;
    ||| n == 0x20
    ||| 0x09 <= n <= 0x0d
    ||| n == 0x85
    ||| n == 0xa0
    ||| n == 0x1680
    ||| 0x2000 <= n <= 0x200a
    ||| n == 0x2028
    ||| n == 0x2029
    ||| n == 0x202f
    ||| n == 0x205f
    ||| n == 0x3000
}

/// `s` without its trailing white space.
pub open spec fn trim_end(s: Seq<char>) -> Seq<char>
    decreases s.len(),
{
    if s.len() > 0 && is_white_space(s.last()) {
        trim_end(s.drop_last())
    } else {
        s
    }
}

/// `s` without its leading white space.
pub open spec fn trim_start(s: Seq<char>) -> Seq<char>
    decreases s.len(),
{
    if s.len() > 0 && is_white_space(s[0]) {
        trim_start(s.drop_first())
    } else {
        s
    }
}

/// `s` without leading and trailing white space.
pub open spec fn trim(s: Seq<char>) -> Seq<char> {
    trim_start(trim_end(s))
}

/// The pieces of `s` between its `'\n'` characters: one more piece than there are newlines.
pub open spec fn newline_pieces(s: Seq<char>) -> Seq<Seq<char>>
    decreases s.len(),
{
    if s.len() == 0 {
        seq![Seq::<char>::empty()]
    } else {
        let p = newline_pieces(s.drop_last());
        if s.last() == '\n' {
            p.push(Seq::<char>::empty())
        } else {
            p.update(p.len() - 1, p.last().push(s.last()))
        }
    }
}

/// A line that ended in `'\n'` loses a `'\r'` right before that newline.
pub open spec fn strip_cr(line: Seq<char>) -> Seq<char> {
    if line.len() > 0 && line.last() == '\r' {
        line.drop_last()
    } else {
        line
    }
}

/// The lines of `s` as `str::lines` gives them: split at `"\n"` or `"\r\n"`, where the final line
/// ending is optional and an empty text has no lines.
pub open spec fn lines(s: Seq<char>) -> Seq<Seq<char>> {
    let p = newline_pieces(s);
    let ended = p.drop_last().map_values(|l: Seq<char>| strip_cr(l));
    if p.last().len() == 0 {
        ended
    } else {
        ended.push(p.last())
    }
}

/// The pieces joined with `sep` between each two of them.
pub open spec fn join(parts: Seq<Seq<char>>, sep: Seq<char>) -> Seq<char>
    decreases parts.len(),
{
    if parts.len() == 0 {
        Seq::<char>::empty()
    } else if parts.len() == 1 {
        parts[0]
    } else {
        join(parts.drop_last(), sep) + sep + parts.last()
    }
}

/// The decimal digit for `d < 10`.
pub open spec fn digit(d: nat) -> char {
    if d == 0 { '0' }
    else if d == 1 { '1' }
    else if d == 2 { '2' }
    else if d == 3 { '3' }
    else if d == 4 { '4' }
    else if d == 5 { '5' }
    else if d == 6 { '6' }
    else if d == 7 { '7' }
    else if d == 8 { '8' }
    else { '9' }
}

/// The decimal notation of `n`, without leading zeros.
pub open spec fn decimal(n: nat) -> Seq<char>
    decreases n,
{
    if n < 10 {
        seq![digit(n)]
    } else {
        decimal(n / 10).push(digit(n % 10))
    }
}

/// `s` with every occurrence of `from` replaced by `to`.
pub open spec fn replace_char(s: Seq<char>, from: char, to: Seq<char>) -> Seq<char>
    decreases s.len(),
{
    if s.len() == 0 {
        s
    } else {
        replace_char(s.drop_last(), from, to) + (if s.last() == from {
            to
        } else {
            seq![s.last()]
        })
    }
}

/// The position of the first occurrence of `p` in `s`, if any.
pub open spec fn first_occurrence(s: Seq<char>, p: Seq<char>) -> Option<int> {
    if has_substring(s, p) {
        Some(choose|i: int| occurs_at(s, p, i) && forall|j: int| 0 <= j < i ==> !occurs_at(s, p, j))
    } else {
        None
    }
}

/// `s` with its first occurrence of `p`, if any, replaced by `with`.
pub open spec fn replace_first(s: Seq<char>, p: Seq<char>, with: Seq<char>) -> Seq<char> {
    match first_occurrence(s, p) {
        Some(i) => s.take(i) + with + s.skip(i + p.len()),
        None => s,
    }
}

/// `a` comes before `b` in the lexicographic order of code points, which for UTF-8 text is the
/// byte order that `String`'s `Ord` uses.
pub open spec fn text_lt(a: Seq<char>, b: Seq<char>) -> bool
    decreases a.len(),
{
    if a.len() == 0 {
        b.len() > 0
    } else if b.len() == 0 {
        false
    } else if a[0] != b[0] {
        a[0] < b[0]
    } else {
        text_lt(a.drop_first(), b.drop_first())
    }
}

/// The Unicode lower-case mapping of a whole string, as `str::to_lowercase` computes it.
pub uninterp spec fn lowercase_of(s: Seq<char>) -> Seq<char>;

/// The Unicode upper-case mapping of a whole string, as `str::to_uppercase` computes it.
pub uninterp spec fn uppercase_of(s: Seq<char>) -> Seq<char>;

// ---------------------------------------------------------------------------
// Lemmas
// ---------------------------------------------------------------------------

/// `first_index` finds the least position holding `t`.
pub proof fn lemma_first_index<A>(s: Seq<A>, t: A)
    ensures
        match first_index(s, t) {
            Some(i) => 0 <= i < s.len() && s[i] == t && forall|j: int| 0 <= j < i ==> s[j] != t,
            None => forall|j: int| 0 <= j < s.len() ==> s[j] != t,
        },
        first_index(s, t) is Some <==> s.contains(t),
    decreases s.len(),
{
    if s.len() > 0 {
        lemma_first_index(s.drop_last(), t);
        assert forall|j: int| 0 <= j < s.len() - 1 implies s.drop_last()[j] == s[j] by {}
    }
}

/// Scanning one more element keeps `first_index` of a prefix.
pub proof fn lemma_first_index_take<A>(s: Seq<A>, t: A, i: int)
    requires
        0 <= i < s.len(),
    ensures
        first_index(s.take(i + 1), t) == (match first_index(s.take(i), t) {
            Some(k) => Some(k),
            None => if s[i] == t {
                Some(i)
            } else {
                None
            },
        }),
{
    assert(s.take(i + 1).drop_last() =~= s.take(i));
}

/// The trailing white space of a prefix ending in white space is the one of the shorter prefix.
proof fn lemma_trim_end_take(s: Seq<char>, k: int)
    requires
        0 < k <= s.len(),
        is_white_space(s[k - 1]),
    ensures
        trim_end(s.take(k)) == trim_end(s.take(k - 1)),
{
    assert(s.take(k).drop_last() =~= s.take(k - 1));
}

/// Trimming the end keeps a prefix of `s`: it ends with a character that is not white space (or is
/// empty), and only white space follows it in `s`.
pub proof fn lemma_trim_end_law(s: Seq<char>)
    ensures
        exists|k: int|
            0 <= k <= s.len() && trim_end(s) == s.take(k) && (k > 0 ==> !is_white_space(s[k - 1]))
                && forall|j: int| k <= j < s.len() ==> #[trigger] is_white_space(s[j]),
    decreases s.len(),
{
    if s.len() > 0 && is_white_space(s.last()) {
        let p = s.drop_last();
        lemma_trim_end_law(p);
        let k = choose|k: int|
            0 <= k <= p.len() && trim_end(p) == p.take(k) && (k > 0 ==> !is_white_space(p[k - 1]))
                && forall|j: int| k <= j < p.len() ==> #[trigger] is_white_space(p[j]);
        assert(p.take(k) =~= s.take(k));
        assert forall|j: int| k <= j < s.len() implies #[trigger] is_white_space(s[j]) by {
            if j < p.len() {
                assert(is_white_space(p[j]));
            }
        }
    } else {
        assert(s.take(s.len() as int) =~= s);
    }
}

/// Trimming the start keeps a suffix of `s`: it starts with a character that is not white space
/// (or is empty), and only white space precedes it in `s`.
pub proof fn lemma_trim_start_law(s: Seq<char>)
    ensures
        exists|k: int|
            0 <= k <= s.len() && trim_start(s) == s.skip(k) && (k < s.len() ==> !is_white_space(s[k]))
                && forall|j: int| 0 <= j < k ==> #[trigger] is_white_space(s[j]),
    decreases s.len(),
{
    if s.len() > 0 && is_white_space(s[0]) {
        let p = s.drop_first();
        lemma_trim_start_law(p);
        let k = choose|k: int|
            0 <= k <= p.len() && trim_start(p) == p.skip(k) && (k < p.len() ==> !is_white_space(p[k]))
                && forall|j: int| 0 <= j < k ==> #[trigger] is_white_space(p[j]);
        assert(p.skip(k) =~= s.skip(k + 1));
        assert forall|j: int| 0 <= j < k + 1 implies #[trigger] is_white_space(s[j]) by {
            if j > 0 {
                assert(is_white_space(p[j - 1]));
            }
        }
    } else {
        assert(s.skip(0) =~= s);
    }
}

/// Replacing a character works piece by piece: the text of two parts is replaced part by part,
/// and a single character is replaced by `to` exactly when it is `from`.
pub proof fn lemma_replace_char_law(a: Seq<char>, b: Seq<char>, from: char, to: Seq<char>, c: char)
    ensures
        replace_char(a + b, from, to) == replace_char(a, from, to) + replace_char(b, from, to),
        replace_char(seq![c], from, to) == if c == from {
            to
        } else {
            seq![c]
        },
    decreases b.len(),
{
    assert(seq![c].drop_last() =~= Seq::<char>::empty());
    assert(replace_char(seq![c], from, to) =~= replace_char(Seq::<char>::empty(), from, to) + (if c
        == from {
        to
    } else {
        seq![c]
    }));
    if b.len() == 0 {
        assert(a + b =~= a);
        assert(replace_char(a, from, to) + replace_char(b, from, to) =~= replace_char(a, from, to));
    } else {
        lemma_replace_char_law(a, b.drop_last(), from, to, c);
        assert((a + b).drop_last() =~= a + b.drop_last());
        assert((a + b).last() == b.last());
        assert(replace_char(a, from, to) + replace_char(b, from, to) =~= replace_char(a, from, to)
            + replace_char(b.drop_last(), from, to) + (if b.last() == from {
            to
        } else {
            seq![b.last()]
        }));
    }
}

/// The value of a text of decimal digits.
pub open spec fn digits_value(s: Seq<char>) -> int
    decreases s.len(),
{
    if s.len() == 0 {
        0
    } else {
        10 * digits_value(s.drop_last()) + (s.last() as int - '0' as int)
    }
}

/// A digit is the character of its value.
proof fn lemma_digit(d: nat)
    requires
        d < 10,
    ensures
        '0' <= digit(d) <= '9',
        digit(d) as int - '0' as int == d,
        d > 0 ==> digit(d) != '0',
{
}

/// The decimal notation of `n` is made of digits, has no leading zero, and reads back as `n`.
pub proof fn lemma_decimal_law(n: nat)
    ensures
        decimal(n).len() > 0,
        forall|i: int| 0 <= i < decimal(n).len() ==> '0' <= #[trigger] decimal(n)[i] <= '9',
        decimal(n).len() > 1 ==> decimal(n)[0] != '0',
        digits_value(decimal(n)) == n,
    decreases n,
{
    if n >= 10 {
        lemma_decimal_law(n / 10);
        lemma_digit(n % 10);
        let d = decimal(n / 10);
        assert(decimal(n).drop_last() =~= d);
        assert(n == 10 * (n / 10) + n % 10);
        assert(digits_value(decimal(n)) == 10 * (n / 10) + (n % 10) as int);
        assert(decimal(n)[0] == d[0]);
        if n / 10 >= 10 {
            lemma_decimal_law(n / 10 / 10);
        } else {
            lemma_digit(n / 10);
        }
    } else {
        lemma_digit(n);
        assert(decimal(n).drop_last() =~= Seq::<char>::empty());
        assert(digits_value(Seq::<char>::empty()) == 0);
    }
}

/// Without carriage returns, the lines of a non-empty text that does not end with a newline are
/// newline-free and, joined with newlines, give the text back.
pub proof fn lemma_lines_law(s: Seq<char>)
    requires
        s.len() > 0,
        s.last() != '\n',
        !s.contains('\r'),
    ensures
        forall|i: int| 0 <= i < lines(s).len() ==> !(#[trigger] lines(s)[i]).contains('\n'),
        join(lines(s), "\n"@) == s,
{
    lemma_newline_pieces(s);
    let p = newline_pieces(s);
    assert(p.last().len() > 0) by {
        lemma_newline_pieces_last(s);
    }
    assert forall|i: int| 0 <= i < p.len() - 1 implies strip_cr(#[trigger] p[i]) == p[i] by {
        if p[i].len() > 0 {
            assert(p[i].contains(p[i].last()));
        }
    }
    assert(lines(s) =~= p);
}

/// The pieces between newlines hold no newline and no character that `s` lacks, and joined with
/// newlines they give `s` back.
proof fn lemma_newline_pieces(s: Seq<char>)
    ensures
        newline_pieces(s).len() > 0,
        forall|i: int| 0 <= i < newline_pieces(s).len() ==> !(#[trigger] newline_pieces(s)[i]).contains('\n'),
        forall|i: int, c: char|
            0 <= i < newline_pieces(s).len() && #[trigger] newline_pieces(s)[i].contains(c) ==> s.contains(c),
        join(newline_pieces(s), "\n"@) == s,
    decreases s.len(),
{
    reveal_strlit("\n");
    if s.len() > 0 {
        let q = s.drop_last();
        lemma_newline_pieces(q);
        let p = newline_pieces(q);
        let c = s.last();
        assert(s =~= q.push(c));
        if c == '\n' {
            let np = p.push(Seq::<char>::empty());
            assert(np.drop_last() =~= p);
            assert(join(np, "\n"@) =~= q + "\n"@);
            assert forall|i: int, d: char| 0 <= i < np.len() && #[trigger] np[i].contains(d) implies s.contains(d) by {
                let k = choose|k: int| 0 <= k < np[i].len() && np[i][k] == d;
                assert(p[i].contains(d));
                let m = choose|m: int| 0 <= m < q.len() && q[m] == d;
                assert(s[m] == d);
            }
        } else {
            let np = p.update(p.len() - 1, p.last().push(c));
            assert forall|i: int| 0 <= i < np.len() implies !(#[trigger] np[i]).contains('\n') by {
                if i == p.len() - 1 {
                    if np[i].contains('\n') {
                        let k = choose|k: int| 0 <= k < np[i].len() && np[i][k] == '\n';
                        if k < p[i].len() {
                            assert(p[i][k] == '\n');
                            assert(p[i].contains('\n'));
                        }
                    }
                }
            }
            assert forall|i: int, d: char| 0 <= i < np.len() && #[trigger] np[i].contains(d) implies s.contains(d) by {
                let k = choose|k: int| 0 <= k < np[i].len() && np[i][k] == d;
                if i == p.len() - 1 && k == p[i].len() {
                    assert(s[s.len() - 1] == d);
                } else {
                    assert(p[i][k] == d);
                    assert(p[i].contains(d));
                    let m = choose|m: int| 0 <= m < q.len() && q[m] == d;
                    assert(s[m] == d);
                }
            }
            lemma_join_append_last(p, c);
        }
    }
}

/// Adding a character to the last piece adds it at the end of the joined text.
proof fn lemma_join_append_last(p: Seq<Seq<char>>, c: char)
    requires
        p.len() > 0,
    ensures
        join(p.update(p.len() - 1, p.last().push(c)), "\n"@) == join(p, "\n"@).push(c),
{
    let np = p.update(p.len() - 1, p.last().push(c));
    if p.len() == 1 {
    } else {
        assert(np.drop_last() =~= p.drop_last());
        assert(join(np, "\n"@) =~= join(p, "\n"@).push(c));
    }
}

/// The last piece is empty exactly where `s` is empty or ends with a newline.
proof fn lemma_newline_pieces_last(s: Seq<char>)
    ensures
        newline_pieces(s).len() > 0,
        newline_pieces(s).last().len() == 0 <==> (s.len() == 0 || s.last() == '\n'),
    decreases s.len(),
{
    if s.len() > 0 {
        lemma_newline_pieces_last(s.drop_last());
    }
}

/// The deep view of a character vector is its view.
pub proof fn lemma_chars_deep_view(v: Vec<char>)
    ensures
        v.deep_view() == v@,
{
    assert(v.deep_view() =~= v@);
}

/// The text order is irreflexive.
pub proof fn lemma_text_lt_irreflexive(a: Seq<char>)
    ensures
        !text_lt(a, a),
    decreases a.len(),
{
    if a.len() > 0 {
        lemma_text_lt_irreflexive(a.drop_first());
    }
}

/// The text order is transitive.
pub proof fn lemma_text_lt_transitive(a: Seq<char>, b: Seq<char>, c: Seq<char>)
    requires
        text_lt(a, b),
        text_lt(b, c),
    ensures
        text_lt(a, c),
    decreases a.len(),
{
    if a.len() > 0 && b.len() > 0 && c.len() > 0 {
        if a[0] == b[0] && b[0] == c[0] {
            lemma_text_lt_transitive(a.drop_first(), b.drop_first(), c.drop_first());
        }
    }
}

/// Two different texts are ordered one way or the other.
pub proof fn lemma_text_lt_total(a: Seq<char>, b: Seq<char>)
    requires
        a != b,
    ensures
        text_lt(a, b) || text_lt(b, a),
    decreases a.len(),
{
    if a.len() > 0 && b.len() > 0 {
        if a[0] == b[0] {
            if a.drop_first() == b.drop_first() {
                assert(a =~= seq![a[0]] + a.drop_first());
                assert(b =~= seq![b[0]] + b.drop_first());
            }
            lemma_text_lt_total(a.drop_first(), b.drop_first());
        }
    } else if a.len() == 0 && b.len() == 0 {
        assert(a =~= b);
    }
}

/// Comparing the rest of two texts after a shared character.
proof fn lemma_text_lt_skip(a: Seq<char>, b: Seq<char>, i: int)
    requires
        0 <= i < a.len(),
        i < b.len(),
        a[i] == b[i],
    ensures
        text_lt(a.skip(i), b.skip(i)) == text_lt(a.skip(i + 1), b.skip(i + 1)),
{
    assert(a.skip(i).drop_first() =~= a.skip(i + 1));
    assert(b.skip(i).drop_first() =~= b.skip(i + 1));
}

// ---------------------------------------------------------------------------
// Trusted items
// ---------------------------------------------------------------------------

/// Appends `c` to `s` with `String::push`, which, as its documentation says, adds the character
/// at the end.
#[verifier::external_body]
pub(crate) fn push_char(s: &mut String, c: char)
    ensures
        final(s)@ == old(s)@.push(c),
{
    s.push(c)
}

/// `str::to_lowercase`: the Unicode lower-case mapping of `s`, named `lowercase_of`. Nothing more
/// of that mapping is stated here.
#[verifier::external_body]
pub(crate) fn to_lowercase(s: &str) -> (res: String)
    ensures
        res@ == lowercase_of(s@),
{
    s.to_lowercase()
}

/// `str::to_uppercase`: the Unicode upper-case mapping of `s`, named `uppercase_of`. Nothing more
/// of that mapping is stated here.
#[verifier::external_body]
pub(crate) fn to_uppercase(s: &str) -> (res: String)
    ensures
        res@ == uppercase_of(s@),
{
    s.to_uppercase()
}

// ---------------------------------------------------------------------------
// Executable functions
// ---------------------------------------------------------------------------

/// The characters of `s`, in order.
pub fn chars_of(s: &str) -> (res: Vec<char>)
    ensures
        res@ == s@,
{
    let mut res: Vec<char> = Vec::new();
    for c in it: s.chars()
        invariant
            it.seq() == s@,
            res@ == it.seq().take(it.index() as int),
    {
        res.push(c);
    }
    res
}

/// The string made of the characters of `v`.
pub fn string_of(v: &Vec<char>) -> (res: String)
    ensures
        res@ == v@,
{
    let mut res = String::new();
    let mut i: usize = 0;
    while i < v.len()
        invariant
            i <= v.len(),
            res@ == v@.take(i as int),
        decreases v.len() - i,
    {
        push_char(&mut res, v[i]);
        assert(v@.take(i + 1) =~= v@.take(i as int).push(v@[i as int]));
        i = i + 1;
    }
    assert(v@.take(v.len() as int) =~= v@);
    res
}

/// The characters `v[lo..hi]`.
pub fn slice_chars(v: &Vec<char>, lo: usize, hi: usize) -> (res: Vec<char>)
    requires
        lo <= hi <= v.len(),
    ensures
        res@ == v@.subrange(lo as int, hi as int),
{
    let mut res: Vec<char> = Vec::new();
    let mut i: usize = lo;
    while i < hi
        invariant
            lo <= i <= hi <= v.len(),
            res@ == v@.subrange(lo as int, i as int),
        decreases hi - i,
    {
        res.push(v[i]);
        assert(v@.subrange(lo as int, i + 1) =~= v@.subrange(lo as int, i as int).push(v@[i as int]));
        i = i + 1;
    }
    res
}

/// `char::is_whitespace`, decided over the code points of the `White_Space` property.
pub fn is_whitespace(c: char) -> (res: bool)
    ensures
        res == is_white_space(c),
{
    let n = c as u32;
    n == 0x20 || (0x09 <= n && n <= 0x0d) || n == 0x85 || n == 0xa0 || n == 0x1680 || (0x2000 <= n
        && n <= 0x200a) || n == 0x2028 || n == 0x2029 || n == 0x202f || n == 0x205f || n == 0x3000
}

/// Whether `p` occurs in `s` at position `i`.
pub fn occurs_at_exec(s: &Vec<char>, p: &Vec<char>, i: usize) -> (res: bool)
    ensures
        res == occurs_at(s@, p@, i as int),
{
    if p.len() > s.len() || i > s.len() - p.len() {
        return false;
    }
    let mut k: usize = 0;
    while k < p.len()
        invariant
            k <= p.len(),
            i + p.len() <= s.len(),
            forall|t: int| 0 <= t < k ==> s@[i + t] == p@[t],
        decreases p.len() - k,
    {
        if s[i + k] != p[k] {
            assert(s@.subrange(i as int, i + p.len())[k as int] != p@[k as int]);
            return false;
        }
        k = k + 1;
    }
    assert(s@.subrange(i as int, i + p.len()) =~= p@);
    true
}

/// The first position at which `p` occurs in `s`, if any.
pub fn find_chars(s: &Vec<char>, p: &Vec<char>) -> (res: Option<usize>)
    ensures
        res matches Some(i) ==> occurs_at(s@, p@, i as int) && forall|j: int|
            0 <= j < i ==> !occurs_at(s@, p@, j),
        res is None ==> !has_substring(s@, p@),
{
    if p.len() > s.len() {
        return None;
    }
    let last = s.len() - p.len();
    let mut i: usize = 0;
    while i < last
        invariant
            last == s.len() - p.len(),
            p.len() <= s.len(),
            i <= last,
            forall|j: int| 0 <= j < i ==> !occurs_at(s@, p@, j),
        decreases last - i,
    {
        if occurs_at_exec(s, p, i) {
            return Some(i);
        }
        i = i + 1;
    }
    if occurs_at_exec(s, p, last) {
        return Some(last);
    }
    None
}

/// Whether `p` is a substring of `s` (`str::contains`).
pub fn contains_chars(s: &Vec<char>, p: &Vec<char>) -> (res: bool)
    ensures
        res == has_substring(s@, p@),
{
    find_chars(s, p).is_some()
}

/// Whether `p` is a substring of `s` (`str::contains`).
pub fn str_contains(s: &str, p: &str) -> (res: bool)
    ensures
        res == has_substring(s@, p@),
{
    let sv = chars_of(s);
    let pv = chars_of(p);
    contains_chars(&sv, &pv)
}

/// Whether `s` ends with `p` (`str::ends_with`).
pub fn ends_with_chars(s: &Vec<char>, p: &Vec<char>) -> (res: bool)
    ensures
        res == ends_with(s@, p@),
{
    if p.len() > s.len() {
        return false;
    }
    let r = occurs_at_exec(s, p, s.len() - p.len());
    r
}

/// `s` without its trailing white space (`str::trim_end`).
pub fn trim_end_chars(s: &Vec<char>) -> (res: Vec<char>)
    ensures
        res@ == trim_end(s@),
{
    let mut k: usize = s.len();
    assert(s@.take(k as int) =~= s@);
    while k > 0 && is_whitespace(s[k - 1])
        invariant
            k <= s.len(),
            trim_end(s@) == trim_end(s@.take(k as int)),
        decreases k,
    {
        proof {
            lemma_trim_end_take(s@, k as int);
        }
        k = k - 1;
    }
    let res = slice_chars(s, 0, k);
    assert(s@.subrange(0, k as int) =~= s@.take(k as int));
    proof {
        if k > 0 {
            assert(s@.take(k as int).last() == s@[k - 1]);
        }
    }
    res
}

/// `s` without leading and trailing white space (`str::trim`).
pub fn trim_chars(s: &Vec<char>) -> (res: Vec<char>)
    ensures
        res@ == trim(s@),
{
    let e = trim_end_chars(s);
    let mut i: usize = 0;
    assert(e@.skip(0) =~= e@);
    while i < e.len() && is_whitespace(e[i])
        invariant
            i <= e.len(),
            trim_start(e@) == trim_start(e@.skip(i as int)),
        decreases e.len() - i,
    {
        assert(e@.skip(i as int).drop_first() =~= e@.skip(i + 1));
        i = i + 1;
    }
    let res = slice_chars(&e, i, e.len());
    assert(e@.subrange(i as int, e.len() as int) =~= e@.skip(i as int));
    res
}

/// The pieces joined with `sep` (`[T]::join`).
pub fn join_chars(parts: &Vec<Vec<char>>, sep: &Vec<char>) -> (res: Vec<char>)
    ensures
        res@ == join(parts.deep_view(), sep@),
{
    let mut res: Vec<char> = Vec::new();
    let mut i: usize = 0;
    while i < parts.len()
        invariant
            i <= parts.len(),
            res@ == join(parts.deep_view().take(i as int), sep@),
        decreases parts.len() - i,
    {
        let ghost before = res@;
        if i > 0 {
            let mut k: usize = 0;
            while k < sep.len()
                invariant
                    k <= sep.len(),
                    res@ == before + sep@.take(k as int),
                decreases sep.len() - k,
            {
                res.push(sep[k]);
                assert(sep@.take(k + 1) =~= sep@.take(k as int).push(sep@[k as int]));
                k = k + 1;
            }
            assert(sep@.take(sep.len() as int) =~= sep@);
        }
        let ghost mid = res@;
        let part = &parts[i];
        let mut k: usize = 0;
        while k < part.len()
            invariant
                k <= part.len(),
                res@ == mid + part@.take(k as int),
            decreases part.len() - k,
        {
            res.push(part[k]);
            assert(part@.take(k + 1) =~= part@.take(k as int).push(part@[k as int]));
            k = k + 1;
        }
        assert(part@.take(part.len() as int) =~= part@);
        proof {
            let d = parts.deep_view();
            assert(d.take(i + 1).drop_last() =~= d.take(i as int));
            assert(d.take(i + 1).last() == part@);
            if i == 0 {
                assert(d.take(1) =~= seq![part@]);
                assert(res@ =~= part@);
            }
        }
        i = i + 1;
    }
    assert(parts.deep_view().take(parts.len() as int) =~= parts.deep_view());
    res
}

/// The pieces of `s` between its newlines.
pub fn newline_pieces_chars(s: &Vec<char>) -> (res: Vec<Vec<char>>)
    ensures
        res.deep_view() == newline_pieces(s@),
        res.len() >= 1,
{
    let mut res: Vec<Vec<char>> = Vec::new();
    let first: Vec<char> = Vec::new();
    proof {
        lemma_chars_deep_view(first);
    }
    res.push(first);
    let mut i: usize = 0;
    assert(s@.take(0) =~= Seq::<char>::empty());
    assert(res.deep_view() =~= seq![Seq::<char>::empty()]);
    while i < s.len()
        invariant
            i <= s.len(),
            res.len() >= 1,
            res.deep_view() == newline_pieces(s@.take(i as int)),
        decreases s.len() - i,
    {
        let c = s[i];
        let ghost before = res.deep_view();
        assert(s@.take(i + 1).drop_last() =~= s@.take(i as int));
        if c == '\n' {
            let piece: Vec<char> = Vec::new();
            proof {
                lemma_chars_deep_view(piece);
            }
            res.push(piece);
            assert(res.deep_view() =~= before.push(Seq::<char>::empty()));
        } else {
            let mut last = res.pop().unwrap();
            proof {
                lemma_chars_deep_view(last);
            }
            last.push(c);
            proof {
                lemma_chars_deep_view(last);
            }
            res.push(last);
            assert(res.deep_view() =~= before.update(before.len() - 1, before.last().push(c)));
        }
        i = i + 1;
    }
    assert(s@.take(s.len() as int) =~= s@);
    res
}

/// The line without a final carriage return.
pub fn strip_cr_chars(line: Vec<char>) -> (res: Vec<char>)
    ensures
        res@ == strip_cr(line@),
{
    let mut line = line;
    if line.len() > 0 && line[line.len() - 1] == '\r' {
        line.pop();
    }
    line
}

/// The lines of `s` (`str::lines`).
pub fn lines_chars(s: &Vec<char>) -> (res: Vec<Vec<char>>)
    ensures
        res.deep_view() == lines(s@),
{
    let pieces = newline_pieces_chars(s);
    let n = pieces.len() - 1;
    let ghost p = pieces.deep_view();
    let ghost ended = p.drop_last().map_values(|l: Seq<char>| strip_cr(l));
    let mut res: Vec<Vec<char>> = Vec::new();
    let mut k: usize = 0;
    while k < n
        invariant
            n == pieces.len() - 1,
            k <= n,
            p == pieces.deep_view(),
            ended == p.drop_last().map_values(|l: Seq<char>| strip_cr(l)),
            res.deep_view() == ended.take(k as int),
        decreases n - k,
    {
        let ghost before = res.deep_view();
        proof {
            lemma_chars_deep_view(pieces[k as int]);
        }
        let cl = pieces[k].clone();
        assert(cl@ =~= pieces[k as int]@);
        let piece = strip_cr_chars(cl);
        proof {
            lemma_chars_deep_view(piece);
        }
        res.push(piece);
        assert(res.deep_view() =~= before.push(piece@));
        assert(ended[k as int] == strip_cr(p[k as int]));
        assert(ended.take(k + 1) =~= ended.take(k as int).push(ended[k as int]));
        k = k + 1;
    }
    assert(ended.take(n as int) =~= ended);
    if pieces[n].len() > 0 {
        let last = pieces[n].clone();
        assert(last@ =~= pieces[n as int]@);
        proof {
            lemma_chars_deep_view(last);
            lemma_chars_deep_view(pieces[n as int]);
        }
        let ghost before = res.deep_view();
        res.push(last);
        assert(res.deep_view() =~= before.push(p.last()));
    }
    res
}

/// The decimal notation of `n` (`usize`'s `Display`).
pub fn decimal_string(n: usize) -> (res: String)
    ensures
        res@ == decimal(n as nat),
{
    let mut digits: Vec<char> = Vec::new();
    let mut q: usize = n;
    while q >= 10
        invariant
            decimal(n as nat) == decimal(q as nat) + digits@,
        decreases q,
    {
        let d = q % 10;
        let ch = digit_char(d);
        let ghost old_digits = digits@;
        digits.insert(0, ch);
        assert(decimal(q as nat) == decimal((q / 10) as nat).push(digit((q % 10) as nat)));
        assert(digits@ =~= seq![ch] + old_digits);
        assert(decimal((q / 10) as nat).push(ch) + old_digits =~= decimal((q / 10) as nat) + digits@);
        q = q / 10;
    }
    let ch = digit_char(q);
    let ghost old_digits = digits@;
    digits.insert(0, ch);
    assert(digits@ =~= seq![ch] + old_digits);
    assert(decimal(q as nat) =~= seq![ch]);
    string_of(&digits)
}

/// The decimal digit for `d < 10`.
fn digit_char(d: usize) -> (res: char)
    requires
        d < 10,
    ensures
        res == digit(d as nat),
{
    if d == 0 { '0' }
    else if d == 1 { '1' }
    else if d == 2 { '2' }
    else if d == 3 { '3' }
    else if d == 4 { '4' }
    else if d == 5 { '5' }
    else if d == 6 { '6' }
    else if d == 7 { '7' }
    else if d == 8 { '8' }
    else { '9' }
}

/// Whether `a` comes before `b` in the order of `text_lt`.
pub fn text_less(a: &Vec<char>, b: &Vec<char>) -> (res: bool)
    ensures
        res == text_lt(a@, b@),
{
    let mut i: usize = 0;
    assert(a@.skip(0) =~= a@);
    assert(b@.skip(0) =~= b@);
    while i < a.len() && i < b.len() && a[i] == b[i]
        invariant
            i <= a.len(),
            i <= b.len(),
            text_lt(a@, b@) == text_lt(a@.skip(i as int), b@.skip(i as int)),
        decreases a.len() - i,
    {
        proof {
            lemma_text_lt_skip(a@, b@, i as int);
        }
        i = i + 1;
    }
    if i == a.len() {
        i < b.len()
    } else if i == b.len() {
        false
    } else {
        assert(a@.skip(i as int)[0] == a@[i as int]);
        assert(b@.skip(i as int)[0] == b@[i as int]);
        a[i] < b[i]
    }
}

/// The strings joined with `sep` between each two of them (`[String]::join`).
pub fn join_strings(parts: &Vec<String>, sep: &str) -> (res: String)
    ensures
        res@ == join(parts.deep_view(), sep@),
{
    let mut pieces: Vec<Vec<char>> = Vec::new();
    let mut i: usize = 0;
    while i < parts.len()
        invariant
            i <= parts.len(),
            pieces.deep_view() == parts.deep_view().take(i as int),
        decreases parts.len() - i,
    {
        let piece = chars_of(parts[i].as_str());
        proof {
            lemma_chars_deep_view(piece);
        }
        let ghost before = pieces.deep_view();
        pieces.push(piece);
        assert(pieces.deep_view() =~= before.push(piece@));
        assert(parts.deep_view().take(i + 1) =~= parts.deep_view().take(i as int).push(parts[i as int]@));
        i = i + 1;
    }
    assert(parts.deep_view().take(parts.len() as int) =~= parts.deep_view());
    let sepv = chars_of(sep);
    let joined = join_chars(&pieces, &sepv);
    string_of(&joined)
}

/// Two first occurrences are the same position.
proof fn lemma_first_occurrence_unique(s: Seq<char>, p: Seq<char>, i: int, j: int)
    requires
        occurs_at(s, p, i) && forall|k: int| 0 <= k < i ==> !occurs_at(s, p, k),
        occurs_at(s, p, j) && forall|k: int| 0 <= k < j ==> !occurs_at(s, p, k),
    ensures
        i == j,
{
    if i < j {
        assert(!occurs_at(s, p, i));
    } else if j < i {
        assert(!occurs_at(s, p, j));
    }
}

/// Where `p` occurs at `i`, it has a first occurrence, at `i` or before.
proof fn lemma_least_occurrence(s: Seq<char>, p: Seq<char>, i: int)
    requires
        occurs_at(s, p, i),
    ensures
        exists|j: int| 0 <= j <= i && occurs_at(s, p, j) && forall|k: int| 0 <= k < j ==> !occurs_at(s, p, k),
    decreases i,
{
    if exists|k: int| 0 <= k < i && occurs_at(s, p, k) {
        let k = choose|k: int| 0 <= k < i && occurs_at(s, p, k);
        lemma_least_occurrence(s, p, k);
    } else {
        assert(occurs_at(s, p, i) && forall|k: int| 0 <= k < i ==> !occurs_at(s, p, k));
    }
}

/// Replacing the first occurrence: where `p` occurs, its first occurrence, and only that one, is
/// replaced by `with`, the rest of `s` kept around it; where it does not, `s` is unchanged.
pub proof fn lemma_replace_first_law(s: Seq<char>, p: Seq<char>, with: Seq<char>, i: int)
    ensures
        !has_substring(s, p) ==> replace_first(s, p, with) == s,
        occurs_at(s, p, i) && (forall|k: int| 0 <= k < i ==> !occurs_at(s, p, k)) ==> replace_first(
            s,
            p,
            with,
        ) == s.take(i) + with + s.skip(i + p.len()),
{
    if occurs_at(s, p, i) && (forall|k: int| 0 <= k < i ==> !occurs_at(s, p, k)) {
        lemma_least_occurrence(s, p, i);
        let j = choose|j: int| occurs_at(s, p, j) && forall|k: int| 0 <= k < j ==> !occurs_at(s, p, k);
        lemma_first_occurrence_unique(s, p, i, j);
    }
}

/// `s` with its first occurrence of `p`, if any, replaced by `with` (`str::replacen(p, with, 1)`).
pub fn replace_first_str(s: &str, p: &str, with: &str) -> (res: String)
    ensures
        res@ == replace_first(s@, p@, with@),
{
    let sv = chars_of(s);
    let pv = chars_of(p);
    match find_chars(&sv, &pv) {
        None => String::from_str(s),
        Some(i) => {
            proof {
                assert(occurs_at(s@, p@, i as int));
                let j = choose|j: int| occurs_at(s@, p@, j) && forall|k: int| 0 <= k < j ==> !occurs_at(s@, p@, k);
                lemma_first_occurrence_unique(s@, p@, i as int, j);
            }
            let head = slice_chars(&sv, 0, i);
            let tail = slice_chars(&sv, i + pv.len(), sv.len());
            let mut res = string_of(&head);
            res.append(with);
            res.append(string_of(&tail).as_str());
            assert(head@ =~= s@.take(i as int));
            assert(tail@ =~= s@.skip(i + p@.len()));
            res
        },
    }
}

/// `s` with every `from` replaced by `to` (`str::replace` with a character pattern).
pub fn replace_char_str(s: &str, from: char, to: &str) -> (res: String)
    ensures
        res@ == replace_char(s@, from, to@),
{
    let sv = chars_of(s);
    let mut res = String::new();
    let mut i: usize = 0;
    assert(sv@.take(0) =~= Seq::<char>::empty());
    while i < sv.len()
        invariant
            i <= sv.len(),
            sv@ == s@,
            res@ == replace_char(sv@.take(i as int), from, to@),
        decreases sv.len() - i,
    {
        let c = sv[i];
        assert(sv@.take(i + 1).drop_last() =~= sv@.take(i as int));
        if c == from {
            res.append(to);
        } else {
            push_char(&mut res, c);
            assert(res@ =~= replace_char(sv@.take(i as int), from, to@) + seq![c]);
        }
        i = i + 1;
    }
    assert(sv@.take(sv.len() as int) =~= sv@);
    res
}

} // verus!
