//! String helpers and splitting a token list at a delimiter.

use vstd::prelude::*;

use crate::parser::views;

verus! {

/// The characters of `s`, one per element.
pub fn chars_of(s: &str) -> (r: Vec<char>)
    ensures
        r@ == s@,
{
    let n = s.unicode_len();
    let mut r: Vec<char> = Vec::new();
    let mut i: usize = 0;
    while i < n
        invariant
            n == s@.len(),
            i <= n,
            r@ == s@.subrange(0, i as int),
        decreases n - i,
    {
        let c = s.get_char(i);
        r.push(c);
        i = i + 1;
    }
    r
}

/// Relies on `String::push`: the character is appended at the end.
#[verifier::external_body]
pub(crate) fn push_char(s: &mut String, c: char)
    ensures
        final(s)@ == old(s)@.push(c),
{
    s.push(c);
}

/// Whether two strings hold the same characters.
pub fn str_equals(a: &str, b: &str) -> (r: bool)
    ensures
        r == (a@ == b@),
{
    let n = a.unicode_len();
    if n != b.unicode_len() {
        return false;
    }
    let mut i: usize = 0;
    while i < n
        invariant
            n == a@.len(),
            n == b@.len(),
            i <= n,
            a@.subrange(0, i as int) == b@.subrange(0, i as int),
        decreases n - i,
    {
        if a.get_char(i) != b.get_char(i) {
            return false;
        }
        assert(a@.subrange(0, i + 1) =~= a@.subrange(0, i as int).push(a@[i as int]));
        assert(b@.subrange(0, i + 1) =~= b@.subrange(0, i as int).push(b@[i as int]));
        i = i + 1;
    }
    assert(a@ =~= a@.subrange(0, n as int));
    assert(b@ =~= b@.subrange(0, n as int));
    true
}

/// A copy of a vector of strings.
pub fn clone_strings(v: &Vec<String>) -> (r: Vec<String>)
    ensures
        views(r@) == views(v@),
{
    let mut r: Vec<String> = Vec::new();
    let mut i: usize = 0;
    while i < v.len()
        invariant
            i <= v@.len(),
            views(r@) == views(v@).subrange(0, i as int),
        decreases v@.len() - i,
    {
        let ghost before = views(r@);
        r.push(v[i].clone());
        assert(views(r@) =~= before.push(v@[i as int]@));
        assert(views(v@).subrange(0, i + 1) =~= views(v@).subrange(0, i as int).push(v@[i as int]@));
        i = i + 1;
    }
    assert(views(v@).subrange(0, v@.len() as int) =~= views(v@));
    r
}

/// The group under construction, closed: nothing when it is empty.
pub open spec fn close_group(cur: Seq<Seq<char>>) -> Seq<Seq<Seq<char>>> {
    if cur.len() > 0 {
        seq![cur]
    } else {
        Seq::empty()
    }
}

/// The groups that `ts` splits into from position `i` on, at each token
/// equal to `d`, with `cur` the group under construction; empty groups are
/// dropped.
pub open spec fn split_from(ts: Seq<Seq<char>>, d: Seq<char>, i: int, cur: Seq<Seq<char>>) -> Seq<Seq<Seq<char>>>
    decreases ts.len() - i,
{
    if i >= ts.len() || i < 0 {
        close_group(cur)
    } else if ts[i] == d {
        close_group(cur) + split_from(ts, d, i + 1, Seq::empty())
    } else {
        split_from(ts, d, i + 1, cur.push(ts[i]))
    }
}

/// The non-empty groups of `ts` between tokens equal to `d`.
pub open spec fn split_groups(ts: Seq<Seq<char>>, d: Seq<char>) -> Seq<Seq<Seq<char>>> {
    split_from(ts, d, 0, Seq::empty())
}

/// The character sequences held by a sequence of string vectors.
pub open spec fn group_views(g: Seq<Vec<String>>) -> Seq<Seq<Seq<char>>> {
    g.map_values(|v: Vec<String>| views(v@))
}

/// Splits `vector` at each element equal to `delimiter`, dropping the
/// delimiters and any empty group.
pub fn split_by_delimiter(vector: Vec<String>, delimiter: String) -> (result: Vec<Vec<String>>)
    ensures
        group_views(result@) == split_groups(views(vector@), delimiter@),
{
    let ghost ts = views(vector@);
    let mut result: Vec<Vec<String>> = Vec::new();
    let mut current: Vec<String> = Vec::new();
    let n = vector.len();
    let mut i: usize = 0;
    proof {
        assert(views(current@) =~= Seq::<Seq<char>>::empty());
        assert(group_views(result@) + split_groups(ts, delimiter@) =~= split_groups(ts, delimiter@));
    }
    while i < n
        invariant
            n == vector@.len(),
            i <= n,
            ts == views(vector@),
            group_views(result@) + split_from(ts, delimiter@, i as int, views(current@))
                == split_groups(ts, delimiter@),
        decreases n - i,
    {
        let item = &vector[i];
        let ghost before = group_views(result@);
        let ghost cur = views(current@);
        assert(ts[i as int] == item@);
        if *item == delimiter {
            if current.len() > 0 {
                let mut done: Vec<String> = Vec::new();
                std::mem::swap(&mut current, &mut done);
                result.push(done);
                assert(group_views(result@) =~= before + close_group(cur));
            } else {
                assert(close_group(cur) =~= Seq::<Seq<Seq<char>>>::empty());
                assert(before + close_group(cur) =~= before);
            }
            let ghost rest = split_from(ts, delimiter@, i + 1, Seq::empty());
            assert(views(current@) =~= Seq::<Seq<char>>::empty());
            assert(before + (close_group(cur) + rest) =~= (before + close_group(cur)) + rest);
        } else {
            current.push(item.clone());
            assert(views(current@) =~= cur.push(ts[i as int]));
        }
        i = i + 1;
    }
    let ghost before = group_views(result@);
    let ghost cur = views(current@);
    if current.len() > 0 {
        result.push(current);
        assert(group_views(result@) =~= before + close_group(cur));
    } else {
        assert(before + close_group(cur) =~= before);
    }
    result
}

} // verus!
