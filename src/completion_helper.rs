//! Completing the word under the cursor.

use vstd::prelude::*;

use crate::parser::views;
use crate::utils::push_char;

verus! {

/// Completes the word under the cursor with builtin names, or else with
/// the names of executables.
pub struct MyHelper {}

/// `p` begins `s`.
pub open spec fn is_prefix(p: Seq<char>, s: Seq<char>) -> bool {
    p.len() <= s.len() && s.subrange(0, p.len() as int) == p
}

/// `a` comes strictly before `b` in dictionary order of code points.
pub open spec fn seq_lt(a: Seq<char>, b: Seq<char>) -> bool
    decreases a.len(),
{
    if a.len() == 0 {
        b.len() > 0
    } else if b.len() == 0 {
        false
    } else if a[0] == b[0] {
        seq_lt(a.drop_first(), b.drop_first())
    } else {
        (a[0] as u32) < (b[0] as u32)
    }
}

/// Each element comes strictly before the ones after it.
pub open spec fn strictly_sorted(s: Seq<Seq<char>>) -> bool {
    forall|i: int, j: int| 0 <= i < j < s.len() ==> seq_lt(#[trigger] s[i], #[trigger] s[j])
}

/// The position where the word ending at the end of `p` starts: just after
/// its last space, or 0.
pub open spec fn word_start(p: Seq<char>) -> int
    decreases p.len(),
{
    if p.len() == 0 {
        0
    } else if p.last() == ' ' {
        p.len() as int
    } else {
        word_start(p.drop_last())
    }
}

/// The builtin names offered for completion.
pub open spec fn completion_builtins() -> Seq<Seq<char>> {
    seq!["cd"@, "echo"@, "exit"@, "pwd"@, "type"@]
}

/// The names of `names` that `word` begins.
pub open spec fn names_with_prefix(names: Seq<Seq<char>>, word: Seq<char>) -> Set<Seq<char>> {
    names.to_set().filter(|n: Seq<char>| is_prefix(word, n))
}

/// The candidates for `word`: builtin names it begins, or, when there is
/// none, executable names it begins.
pub open spec fn candidates(word: Seq<char>, executables: Seq<Seq<char>>) -> Set<Seq<char>> {
    if names_with_prefix(completion_builtins(), word) != Set::<Seq<char>>::empty() {
        names_with_prefix(completion_builtins(), word)
    } else {
        names_with_prefix(executables, word)
    }
}

proof fn lemma_lt_irreflexive(a: Seq<char>)
    ensures
        !seq_lt(a, a),
    decreases a.len(),
{
    if a.len() > 0 {
        lemma_lt_irreflexive(a.drop_first());
    }
}

proof fn lemma_lt_trichotomy(a: Seq<char>, b: Seq<char>)
    ensures
        a == b || seq_lt(a, b) || seq_lt(b, a),
    decreases a.len(),
{
    if a.len() > 0 && b.len() > 0 && a[0] == b[0] {
        lemma_lt_trichotomy(a.drop_first(), b.drop_first());
        if a.drop_first() == b.drop_first() {
            assert(a =~= seq![a[0]] + a.drop_first());
            assert(b =~= seq![b[0]] + b.drop_first());
            assert(a == b);
        }
    } else if a.len() == 0 && b.len() == 0 {
        assert(a =~= b);
    } else if a.len() > 0 && b.len() > 0 {
        vstd::utf8::char_u32_cast(a[0], a[0] as u32);
        vstd::utf8::char_u32_cast(b[0], b[0] as u32);
    }
}

/// Adding a name to a list adds it to the names a word begins, when the
/// word begins it.
proof fn lemma_prefix_names_push(s: Seq<Seq<char>>, x: Seq<char>, word: Seq<char>)
    ensures
        names_with_prefix(s.push(x), word) == (if is_prefix(word, x) {
            names_with_prefix(s, word).insert(x)
        } else {
            names_with_prefix(s, word)
        }),
{
    assert forall|e: Seq<char>| s.push(x).to_set().contains(e) <==> (s.to_set().contains(e) || e == x) by {
        if s.push(x).contains(e) {
            let k = choose|k: int| 0 <= k < s.push(x).len() && s.push(x)[k] == e;
            if k < s.len() {
                assert(s[k] == e);
            }
        }
        if s.contains(e) {
            let k = choose|k: int| 0 <= k < s.len() && s[k] == e;
            assert(s.push(x)[k] == e);
        }
        if e == x {
            assert(s.push(x)[s.len() as int] == x);
        }
    }
    let lhs = names_with_prefix(s.push(x), word);
    let rhs = if is_prefix(word, x) {
        names_with_prefix(s, word).insert(x)
    } else {
        names_with_prefix(s, word)
    };
    assert forall|e: Seq<char>| #[trigger] lhs.contains(e) == rhs.contains(e) by {
        assert(s.push(x).to_set().contains(e) <==> (s.to_set().contains(e) || e == x));
    }
    assert(lhs =~= rhs);
}

proof fn lemma_lt_transitive(a: Seq<char>, b: Seq<char>, c: Seq<char>)
    requires
        seq_lt(a, b),
        seq_lt(b, c),
    ensures
        seq_lt(a, c),
    decreases a.len(),
{
    if a.len() > 0 && b.len() > 0 && c.len() > 0 && a[0] == b[0] && b[0] == c[0] {
        lemma_lt_transitive(a.drop_first(), b.drop_first(), c.drop_first());
    }
}

/// Whether `a` comes strictly before `b`.
fn str_lt(a: &str, b: &str) -> (r: bool)
    ensures
        r == seq_lt(a@, b@),
{
    let na = a.unicode_len();
    let nb = b.unicode_len();
    let mut i: usize = 0;
    assert(a@.subrange(0, na as int) =~= a@);
    assert(b@.subrange(0, nb as int) =~= b@);
    while i < na && i < nb
        invariant
            na == a@.len(),
            nb == b@.len(),
            i <= na,
            i <= nb,
            seq_lt(a@, b@) == seq_lt(a@.subrange(i as int, na as int), b@.subrange(i as int, nb as int)),
        decreases na - i,
    {
        let ca = a.get_char(i);
        let cb = b.get_char(i);
        let ghost sa = a@.subrange(i as int, na as int);
        let ghost sb = b@.subrange(i as int, nb as int);
        assert(sa[0] == ca && sb[0] == cb);
        if ca != cb {
            return (ca as u32) < (cb as u32);
        }
        assert(sa.drop_first() =~= a@.subrange(i + 1, na as int));
        assert(sb.drop_first() =~= b@.subrange(i + 1, nb as int));
        i = i + 1;
    }
    i == na && i < nb
}

/// Whether `p` begins `s`.
fn starts_with(s: &str, p: &str) -> (r: bool)
    ensures
        r == is_prefix(p@, s@),
{
    let np = p.unicode_len();
    if np > s.unicode_len() {
        return false;
    }
    let mut i: usize = 0;
    while i < np
        invariant
            np == p@.len(),
            np <= s@.len(),
            i <= np,
            s@.subrange(0, i as int) == p@.subrange(0, i as int),
        decreases np - i,
    {
        if s.get_char(i) != p.get_char(i) {
            assert(s@.subrange(0, np as int)[i as int] != p@[i as int]);
            return false;
        }
        assert(s@.subrange(0, i + 1) =~= s@.subrange(0, i as int).push(s@[i as int]));
        assert(p@.subrange(0, i + 1) =~= p@.subrange(0, i as int).push(p@[i as int]));
        i = i + 1;
    }
    assert(p@.subrange(0, np as int) =~= p@);
    true
}

/// Inserts `x` into a strictly sorted vector unless it is there already.
fn insert_sorted(v: &mut Vec<String>, x: String)
    requires
        strictly_sorted(views(old(v)@)),
    ensures
        strictly_sorted(views(final(v)@)),
        views(final(v)@).to_set() == views(old(v)@).to_set().insert(x@),
{
    let ghost s = views(v@);
    let n = v.len();
    let mut p: usize = 0;
    while p < n && str_lt(v[p].as_str(), x.as_str())
        invariant
            n == v@.len(),
            s == views(v@),
            p <= n,
            forall|k: int| 0 <= k < p ==> seq_lt(#[trigger] s[k], x@),
        decreases n - p,
    {
        assert(s[p as int] == v@[p as int]@);
        p = p + 1;
    }
    if p < n {
        assert(s[p as int] == v@[p as int]@);
        if crate::utils::str_equals(v[p].as_str(), x.as_str()) {
            assert(s.to_set().insert(x@) =~= s.to_set()) by {
                assert(s.contains(x@));
            }
            return;
        }
    }
    proof {
        if p < n {
            lemma_lt_trichotomy(s[p as int], x@);
        }
        assert forall|k: int| p <= k < n implies seq_lt(x@, #[trigger] s[k]) by {
            if k > p {
                lemma_lt_transitive(x@, s[p as int], s[k]);
            }
        }
    }
    v.insert(p, x);
    proof {
        let t = views(v@);
        assert(t =~= s.insert(p as int, x@));
        assert forall|i: int, j: int| 0 <= i < j < t.len() implies seq_lt(#[trigger] t[i], #[trigger] t[j]) by {
            if j < p {
            } else if j == p {
            } else if i < p {
                assert(t[j] == s[j - 1]);
                lemma_lt_transitive(s[i], x@, s[j - 1]);
            } else if i == p {
                assert(t[j] == s[j - 1]);
            } else {
                assert(t[i] == s[i - 1] && t[j] == s[j - 1]);
            }
        }
        assert(t.to_set() =~= s.to_set().insert(x@)) by {
            assert forall|e: Seq<char>| #[trigger] t.to_set().contains(e) == s.to_set().insert(x@).contains(e) by {
                if t.contains(e) {
                    let k = choose|k: int| 0 <= k < t.len() && t[k] == e;
                    if k < p {
                        assert(s[k] == e);
                    } else if k > p {
                        assert(s[k - 1] == e);
                    }
                }
                if s.contains(e) {
                    let k = choose|k: int| 0 <= k < s.len() && s[k] == e;
                    if k < p {
                        assert(t[k] == e);
                    } else {
                        assert(t[k + 1] == e);
                    }
                }
                if e == x@ {
                    assert(t[p as int] == e);
                }
            }
        }
    }
}

impl MyHelper {
    pub fn new() -> Self {
        MyHelper {}
    }

    /// Completes the word that ends at character `pos` of `line`: it starts
    /// after the last space before `pos`. The candidates are the builtin
    /// names that the word begins or, when there is none, the names of
    /// `executables` that it begins; they come sorted, each once, and a
    /// lone candidate gets a trailing space. Returns where the word starts
    /// and the candidates.
    pub fn complete(&self, line: &str, pos: usize, executables: &Vec<String>) -> (r: (usize, Vec<String>))
        requires
            pos <= line@.len(),
        ensures
            r.0 == word_start(line@.subrange(0, pos as int)),
            ({
                let word = line@.subrange(r.0 as int, pos as int);
                let found = candidates(word, views(executables@));
                &&& r.1@.len() == 1 ==> found == set![views(r.1@)[0].drop_last()] && views(r.1@)[0].last() == ' '
                &&& r.1@.len() != 1 ==> strictly_sorted(views(r.1@)) && views(r.1@).to_set() == found
            }),
    {
        let mut start = pos;
        while start > 0 && line.get_char(start - 1) != ' '
            invariant
                start <= pos <= line@.len(),
                word_start(line@.subrange(0, pos as int)) == word_start(line@.subrange(0, start as int)),
            decreases start,
        {
            assert(line@.subrange(0, start as int).drop_last() =~= line@.subrange(0, start - 1));
            start = start - 1;
        }
        proof {
            if start > 0 {
                assert(line@.subrange(0, start as int).last() == ' ');
            }
        }
        let word = line.substring_char(start, pos);
        let mut found: Vec<String> = Vec::new();
        proof {
            reveal_strlit("cd");
            reveal_strlit("echo");
            reveal_strlit("exit");
            reveal_strlit("pwd");
            reveal_strlit("type");
        }
        let builtins = ["cd", "echo", "exit", "pwd", "type"];
        let mut i: usize = 0;
        let ghost bs = completion_builtins();
        while i < 5
            invariant
                i <= 5,
                bs == completion_builtins(),
                forall|k: int| 0 <= k < 5 ==> #[trigger] builtins@[k]@ == bs[k],
                strictly_sorted(views(found@)),
                views(found@).to_set() == names_with_prefix(bs.subrange(0, i as int), word@),
            decreases 5 - i,
        {
            let name = builtins[i];
            assert(bs.subrange(0, i + 1) =~= bs.subrange(0, i as int).push(bs[i as int]));
            proof {
                lemma_prefix_names_push(bs.subrange(0, i as int), bs[i as int], word@);
            }
            if starts_with(name, word) {
                insert_sorted(&mut found, String::from_str(name));
            }
            i = i + 1;
        }
        assert(bs.subrange(0, 5) =~= bs);
        if found.len() > 0 {
            assert(names_with_prefix(bs, word@).contains(views(found@)[0]));
        }
        if found.len() == 0 {
            let ghost es = views(executables@);
            let mut j: usize = 0;
            assert(views(found@) =~= Seq::<Seq<char>>::empty());
            assert(names_with_prefix(bs, word@) =~= Set::<Seq<char>>::empty());
            assert(names_with_prefix(es.subrange(0, 0), word@) =~= Set::<Seq<char>>::empty());
            while j < executables.len()
                invariant
                    j <= executables@.len(),
                    es == views(executables@),
                    strictly_sorted(views(found@)),
                    views(found@).to_set() == names_with_prefix(es.subrange(0, j as int), word@),
                decreases executables@.len() - j,
            {
                assert(es.subrange(0, j + 1) =~= es.subrange(0, j as int).push(es[j as int]));
                assert(es[j as int] == executables@[j as int]@);
                proof {
                    lemma_prefix_names_push(es.subrange(0, j as int), es[j as int], word@);
                }
                if starts_with(executables[j].as_str(), word) {
                    insert_sorted(&mut found, executables[j].clone());
                }
                j = j + 1;
            }
            assert(es.subrange(0, executables@.len() as int) =~= es);
        }
        if found.len() == 1 {
            let ghost fs = views(found@);
            let mut only = found.pop().unwrap();
            let ghost o = only@;
            push_char(&mut only, ' ');
            let mut single: Vec<String> = Vec::new();
            single.push(only);
            proof {
                assert(views(single@)[0] == o.push(' '));
                assert(o.push(' ').drop_last() =~= o);
                assert(fs =~= seq![o]);
                assert(fs.to_set() =~= set![o]) by {
                    assert(fs[0] == o);
                    assert(fs.to_set().contains(o));
                }
            }
            return (start, single);
        }
        (start, found)
    }
}

} // verus!
