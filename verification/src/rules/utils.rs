//! Operations on tokenized commands shared by the rules.
use vstd::prelude::*;

use crate::matching::{regex_group, regex_group_of};
use crate::text::{first_index, lemma_first_index, lemma_first_index_take};

verus! {

/// A position as a mathematical integer.
pub open spec fn opt_int(o: Option<usize>) -> Option<int> {
    match o {
        Some(i) => Some(i as int),
        None => None,
    }
}

/// The position of the first token of `cmd` equal to `t`.
pub fn index_of_token(cmd: &Vec<String>, t: &str) -> (res: Option<usize>)
    ensures
        opt_int(res) == first_index(cmd.deep_view(), t@),
        res matches Some(i) ==> i < cmd.len(),
{
    let target = String::from_str(t);
    let mut i: usize = 0;
    assert(cmd.deep_view().take(0) =~= Seq::<Seq<char>>::empty());
    while i < cmd.len()
        invariant
            i <= cmd.len(),
            target@ == t@,
            first_index(cmd.deep_view().take(i as int), t@) is None,
        decreases cmd.len() - i,
    {
        proof {
            lemma_first_index_take(cmd.deep_view(), t@, i as int);
        }
        if cmd[i] == target {
            proof {
                lemma_first_index_prefix(cmd.deep_view(), t@, i as int + 1);
            }
            return Some(i);
        }
        i = i + 1;
    }
    assert(cmd.deep_view().take(cmd.len() as int) =~= cmd.deep_view());
    None
}

/// The position of the first token of `cmd` equal to `t`, where `t` is a `String`.
pub fn index_of_string(cmd: &Vec<String>, t: &String) -> (res: Option<usize>)
    ensures
        opt_int(res) == first_index(cmd.deep_view(), t@),
        res matches Some(i) ==> i < cmd.len(),
{
    index_of_token(cmd, t.as_str())
}

/// Whether some token of `cmd` equals `t`.
pub fn has_token(cmd: &Vec<String>, t: &str) -> (res: bool)
    ensures
        res == cmd.deep_view().contains(t@),
{
    let r = index_of_token(cmd, t);
    proof {
        lemma_first_index(cmd.deep_view(), t@);
    }
    r.is_some()
}

/// A first occurrence found in a prefix is the first occurrence in the whole sequence.
pub proof fn lemma_first_index_prefix<A>(s: Seq<A>, t: A, k: int)
    requires
        0 <= k <= s.len(),
        first_index(s.take(k), t) is Some,
    ensures
        first_index(s, t) == first_index(s.take(k), t),
    decreases s.len() - k,
{
    if k < s.len() {
        lemma_first_index_take(s, t, k);
        lemma_first_index_prefix(s, t, k + 1);
    } else {
        assert(s.take(k) =~= s);
    }
}

/// Replaces the token at `i` by `t`.
pub fn set_token(cmd: &mut Vec<String>, i: usize, t: String)
    requires
        i < old(cmd).len(),
    ensures
        final(cmd).deep_view() == old(cmd).deep_view().update(i as int, t@),
{
    let ghost before = cmd.deep_view();
    cmd.set(i, t);
    assert(cmd.deep_view() =~= before.update(i as int, t@));
}

/// Inserts the token `t` at `i`.
pub fn insert_token(cmd: &mut Vec<String>, i: usize, t: String)
    requires
        i <= old(cmd).len(),
    ensures
        final(cmd).deep_view() == old(cmd).deep_view().insert(i as int, t@),
        final(cmd).len() == old(cmd).len() + 1,
{
    let ghost before = cmd.deep_view();
    cmd.insert(i, t);
    assert(cmd.deep_view() =~= before.insert(i as int, t@));
}

/// Removes and returns the token at `i`.
pub fn remove_token(cmd: &mut Vec<String>, i: usize) -> (res: String)
    requires
        i < old(cmd).len(),
    ensures
        res@ == old(cmd).deep_view()[i as int],
        final(cmd).deep_view() == old(cmd).deep_view().remove(i as int),
{
    let ghost before = cmd.deep_view();
    let r = cmd.remove(i);
    assert(cmd.deep_view() =~= before.remove(i as int));
    r
}

/// Appends the token `t`.
pub fn push_token(cmd: &mut Vec<String>, t: String)
    ensures
        final(cmd).deep_view() == old(cmd).deep_view().push(t@),
{
    let ghost before = cmd.deep_view();
    cmd.push(t);
    assert(cmd.deep_view() =~= before.push(t@));
}

/// A copy of the tokens.
pub fn tokens_to_vec(cmd: &[String]) -> (res: Vec<String>)
    ensures
        res.deep_view() == cmd.deep_view(),
{
    let mut res: Vec<String> = Vec::new();
    let mut i: usize = 0;
    while i < cmd.len()
        invariant
            i <= cmd.len(),
            res.deep_view() == cmd.deep_view().take(i as int),
        decreases cmd.len() - i,
    {
        let ghost before = res.deep_view();
        res.push(cmd[i].clone());
        assert(res.deep_view() =~= before.push(cmd[i as int]@));
        assert(cmd.deep_view().take(i + 1) =~= cmd.deep_view().take(i as int).push(cmd[i as int]@));
        i = i + 1;
    }
    assert(cmd.deep_view().take(cmd.len() as int) =~= cmd.deep_view());
    res
}

/// The tokens of `prefix` followed by those of `cmd`.
pub fn prepend_tokens(prefix: Vec<String>, cmd: Vec<String>) -> (res: Vec<String>)
    ensures
        res.deep_view() == prefix.deep_view() + cmd.deep_view(),
{
    let mut res = prefix;
    let mut rest = cmd;
    let ghost p = res.deep_view();
    let ghost c = rest.deep_view();
    res.append(&mut rest);
    assert(res.deep_view() =~= p + c);
    res
}

/// The position in `cmd` of an argument named by a regular expression: `pattern`'s first capture
/// group in `error`, looked up among the tokens.
pub open spec fn incorrect_arg(pattern: Seq<char>, cmd: Seq<Seq<char>>, error: Seq<char>) -> Option<
    int,
> {
    match regex_group_of(pattern, error, 1) {
        Some(arg) => first_index(cmd, arg),
        None => None,
    }
}

/// The incorrect argument is found exactly where the pattern names one and it is a token of the
/// command; its position is that of the first such token.
pub proof fn lemma_incorrect_arg(pattern: Seq<char>, cmd: Seq<Seq<char>>, error: Seq<char>)
    ensures
        incorrect_arg(pattern, cmd, error) is Some <==> regex_group_of(pattern, error, 1) is Some
            && cmd.contains(regex_group_of(pattern, error, 1)->0),
        incorrect_arg(pattern, cmd, error) matches Some(i) ==> 0 <= i < cmd.len() && cmd[i]
            == regex_group_of(pattern, error, 1)->0 && forall|j: int|
            0 <= j < i ==> cmd[j] != regex_group_of(pattern, error, 1)->0,
{
    if let Some(a) = regex_group_of(pattern, error, 1) {
        lemma_first_index(cmd, a);
    }
}

/// Finds the name of the incorrect argument in the error message (the first capture group of
/// `re`), finds that argument in the command and returns its index. A pattern that does not
/// compile finds nothing.
pub fn find_incorrect_arg(re: &str, cmd: &Vec<String>, error: &str) -> (res: Option<usize>)
    ensures
        opt_int(res) == incorrect_arg(re@, cmd.deep_view(), error@),
        res matches Some(i) ==> i < cmd.len(),
{
    let arg = regex_group(re, error, 1);
    match arg {
        Some(a) => index_of_string(cmd, &a),
        None => None,
    }
}

/// The command with the first token equal to `old` replaced by `new`; nothing where either text
/// is missing or `old` is not a token.
pub open spec fn replace_named(cmd: Seq<Seq<char>>, old: Option<Seq<char>>, new: Option<Seq<char>>) -> Option<
    Seq<Seq<char>>,
> {
    match old {
        None => None,
        Some(o) => match first_index(cmd, o) {
            None => None,
            Some(i) => match new {
                None => None,
                Some(n) => Some(cmd.update(i, n)),
            },
        },
    }
}

/// A replacement is made exactly where both texts were found and `old` is a token; it is the
/// command with its first `old` token replaced by `new`, everything else unchanged.
pub proof fn lemma_replace_named(cmd: Seq<Seq<char>>, old: Option<Seq<char>>, new: Option<Seq<char>>)
    ensures
        replace_named(cmd, old, new) is Some <==> old is Some && new is Some && cmd.contains(old->0),
        replace_named(cmd, old, new) matches Some(r) ==> exists|i: int|
            0 <= i < cmd.len() && cmd[i] == old->0 && (forall|j: int| 0 <= j < i ==> cmd[j] != old->0)
                && r == cmd.take(i) + seq![new->0] + cmd.skip(i + 1),
{
    if let Some(o) = old {
        lemma_first_index(cmd, o);
        if let Some(r) = replace_named(cmd, old, new) {
            let i = first_index(cmd, o)->0;
            assert(r =~= cmd.take(i) + seq![new->0] + cmd.skip(i + 1));
        }
    }
}

/// Replaces the first token equal to `old` by `new`, where both were found in an error message.
pub fn replace_named_token(cmd: Vec<String>, old: Option<String>, new: Option<String>) -> (res:
    Option<Vec<String>>)
    ensures
        res.deep_view() == replace_named(cmd.deep_view(), old.deep_view(), new.deep_view()),
{
    let o = match old {
        Some(o) => o,
        None => return None,
    };
    let idx = match index_of_string(&cmd, &o) {
        Some(idx) => idx,
        None => return None,
    };
    match new {
        Some(n) => {
            let mut cmd = cmd;
            set_token(&mut cmd, idx, n);
            Some(cmd)
        },
        None => None,
    }
}

/// One command per name: `cmd` with its token at `i` replaced by that name.
pub open spec fn substitute_all(cmd: Seq<Seq<char>>, i: int, names: Seq<Seq<char>>) -> Seq<
    Seq<Seq<char>>,
> {
    names.map_values(|n: Seq<char>| cmd.update(i, n))
}

/// One copy of `cmd` per name, with its token at `idx` replaced by that name.
pub fn substitute_token_all(cmd: &Vec<String>, idx: usize, names: Vec<String>) -> (res: Vec<
    Vec<String>,
>)
    requires
        idx < cmd.len(),
    ensures
        res.deep_view() == substitute_all(cmd.deep_view(), idx as int, names.deep_view()),
{
    let ghost target = substitute_all(cmd.deep_view(), idx as int, names.deep_view());
    let mut res: Vec<Vec<String>> = Vec::new();
    let mut k: usize = 0;
    while k < names.len()
        invariant
            k <= names.len(),
            idx < cmd.len(),
            target == substitute_all(cmd.deep_view(), idx as int, names.deep_view()),
            res.deep_view() == target.take(k as int),
        decreases names.len() - k,
    {
        let mut c = cmd.clone();
        assert(c.deep_view() =~= cmd.deep_view()) by {
            assert forall|j: int| 0 <= j < c.len() implies c.deep_view()[j] == cmd.deep_view()[j] by {
                assert(c@[j] == cmd@[j]);
            }
        }
        set_token(&mut c, idx, names[k].clone());
        let ghost before = res.deep_view();
        res.push(c);
        assert(res.deep_view() =~= before.push(c.deep_view()));
        assert(target.take(k + 1) =~= target.take(k as int).push(target[k as int]));
        k = k + 1;
    }
    assert(target.take(names.len() as int) =~= target);
    res
}

} // verus!
