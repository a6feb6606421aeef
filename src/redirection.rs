//! Extracting stdout and stderr redirections from a stage's tokens.

use vstd::prelude::*;

use crate::parser::views;

verus! {

/// Where one standard stream of a stage goes: a file, truncated first when
/// `overwrite` holds and appended to otherwise.
#[derive(Clone, Debug, PartialEq, Eq)]
pub struct Redirection {
    pub overwrite: bool,
    pub filename: String,
}

/// A redirection as plain values: (overwrite, file name).
pub type RedirectModel = (bool, Seq<char>);

impl View for Redirection {
    type V = RedirectModel;

    open spec fn view(&self) -> RedirectModel {
        (self.overwrite, self.filename@)
    }
}

/// The model of an optional redirection.
pub open spec fn opt_redirect_view(r: Option<Redirection>) -> Option<RedirectModel> {
    match r {
        Some(x) => Some(x@),
        None => None,
    }
}

/// What a redirection operator token means: `Some((to_stdout, overwrite))`
/// for `>`, `1>`, `>>`, `1>>`, `2>` and `2>>`, `None` for any other token.
pub open spec fn redirect_op(t: Seq<char>) -> Option<(bool, bool)> {
    if t.len() == 1 && t[0] == '>' {
        Some((true, true))
    } else if t.len() == 2 && t[0] == '1' && t[1] == '>' {
        Some((true, true))
    } else if t.len() == 2 && t[0] == '>' && t[1] == '>' {
        Some((true, false))
    } else if t.len() == 3 && t[0] == '1' && t[1] == '>' && t[2] == '>' {
        Some((true, false))
    } else if t.len() == 2 && t[0] == '2' && t[1] == '>' {
        Some((false, true))
    } else if t.len() == 3 && t[0] == '2' && t[1] == '>' && t[2] == '>' {
        Some((false, false))
    } else {
        None
    }
}

pub open spec fn is_redirect_op(t: Seq<char>) -> bool {
    redirect_op(t) is Some
}

/// `a` unless it is `None`, `b` then.
pub open spec fn or_else<A>(a: Option<A>, b: Option<A>) -> Option<A> {
    if a is Some {
        a
    } else {
        b
    }
}

/// The result of extracting redirections from a stage's tokens: the tokens
/// that remain, the stdout redirection and the stderr redirection. Each
/// operator takes the token after it as its file name; an operator with no
/// token after it is dropped and sets nothing; a later operator for a
/// stream overrides an earlier one.
pub open spec fn extract(ts: Seq<Seq<char>>) -> (Seq<Seq<char>>, Option<RedirectModel>, Option<RedirectModel>)
    decreases ts.len(),
{
    if ts.len() == 0 {
        (ts, None, None)
    } else if is_redirect_op(ts[0]) {
        if ts.len() == 1 {
            (Seq::empty(), None, None)
        } else {
            let rest = extract(ts.subrange(2, ts.len() as int));
            let op = redirect_op(ts[0]).unwrap();
            let here = Some((op.1, ts[1]));
            if op.0 {
                (rest.0, or_else(rest.1, here), rest.2)
            } else {
                (rest.0, rest.1, or_else(rest.2, here))
            }
        }
    } else {
        let rest = extract(ts.drop_first());
        (seq![ts[0]] + rest.0, rest.1, rest.2)
    }
}

/// No token of `ts` is a redirection operator.
pub open spec fn no_operator(ts: Seq<Seq<char>>) -> bool {
    forall|k: int| 0 <= k < ts.len() ==> !is_redirect_op(#[trigger] ts[k])
}

/// Tokens without an operator come out of extraction unchanged, with no
/// redirection.
pub proof fn lemma_extract_without_operator(ts: Seq<Seq<char>>)
    requires
        no_operator(ts),
    ensures
        extract(ts) == (ts, Option::<RedirectModel>::None, Option::<RedirectModel>::None),
    decreases ts.len(),
{
    if ts.len() > 0 {
        assert(!is_redirect_op(ts[0]));
        let tail = ts.drop_first();
        assert(no_operator(tail)) by {
            assert forall|k: int| 0 <= k < tail.len() implies !is_redirect_op(#[trigger] tail[k]) by {
                assert(tail[k] == ts[k + 1]);
            }
        }
        lemma_extract_without_operator(tail);
        assert(seq![ts[0]] + tail =~= ts);
    }
}

/// The tokens left by extraction hold no redirection operator.
pub proof fn lemma_extract_removes_operators(ts: Seq<Seq<char>>)
    ensures
        no_operator(extract(ts).0),
    decreases ts.len(),
{
    if ts.len() > 0 {
        if is_redirect_op(ts[0]) {
            if ts.len() > 1 {
                lemma_extract_removes_operators(ts.subrange(2, ts.len() as int));
            }
        } else {
            let rest = extract(ts.drop_first()).0;
            lemma_extract_removes_operators(ts.drop_first());
            let r = seq![ts[0]] + rest;
            assert forall|k: int| 0 <= k < r.len() implies !is_redirect_op(#[trigger] r[k]) by {
                if k > 0 {
                    assert(r[k] == rest[k - 1]);
                }
            }
        }
    }
}

/// Extraction is idempotent: scanning its result again finds no operator,
/// leaves the tokens unchanged and sets no redirection.
pub proof fn lemma_extract_idempotent(ts: Seq<Seq<char>>)
    ensures
        no_operator(extract(ts).0),
        extract(extract(ts).0) == (extract(ts).0, Option::<RedirectModel>::None, Option::<RedirectModel>::None),
{
    lemma_extract_removes_operators(ts);
    lemma_extract_without_operator(extract(ts).0);
}

/// Reads a token as a redirection operator.
fn classify_op(t: &str) -> (r: Option<(bool, bool)>)
    ensures
        r == redirect_op(t@),
{
    let n = t.unicode_len();
    if n == 0 || n > 3 {
        return None;
    }
    let c0 = t.get_char(0);
    if n == 1 {
        if c0 == '>' {
            return Some((true, true));
        }
        return None;
    }
    let c1 = t.get_char(1);
    if n == 2 {
        if c0 == '1' && c1 == '>' {
            return Some((true, true));
        }
        if c0 == '>' && c1 == '>' {
            return Some((true, false));
        }
        if c0 == '2' && c1 == '>' {
            return Some((false, true));
        }
        return None;
    }
    let c2 = t.get_char(2);
    if c0 == '1' && c1 == '>' && c2 == '>' {
        return Some((true, false));
    }
    if c0 == '2' && c1 == '>' && c2 == '>' {
        return Some((false, false));
    }
    None
}

impl Redirection {
    pub fn new(overwrite: bool, filename: String) -> (r: Redirection)
        ensures
            r@ == (overwrite, filename@),
    {
        Redirection { overwrite, filename }
    }

    /// Removes every redirection operator and the file name after it from
    /// `tokens`, and returns the stdout and stderr redirections they set.
    pub fn parse_redirections(tokens: &mut Vec<String>) -> (r: (Option<Redirection>, Option<Redirection>))
        ensures
            views(final(tokens)@) == extract(views(old(tokens)@)).0,
            opt_redirect_view(r.0) == extract(views(old(tokens)@)).1,
            opt_redirect_view(r.1) == extract(views(old(tokens)@)).2,
            no_operator(views(final(tokens)@)),
    {
        let ghost all = views(tokens@);
        let mut src: Vec<String> = Vec::new();
        std::mem::swap(tokens, &mut src);
        let mut out: Vec<String> = Vec::new();
        let mut std_out_file: Option<Redirection> = None;
        let mut std_err_file: Option<Redirection> = None;
        let n = src.len();
        let mut i: usize = 0;
        proof {
            assert(all.subrange(0, n as int) =~= all);
            assert(views(out@) + extract(all).0 =~= extract(all).0);
        }
        while i < n
            invariant
                n == src@.len(),
                i <= n,
                views(src@) == all,
                ({
                    let rest = extract(all.subrange(i as int, n as int));
                    &&& views(out@) + rest.0 == extract(all).0
                    &&& or_else(rest.1, opt_redirect_view(std_out_file)) == extract(all).1
                    &&& or_else(rest.2, opt_redirect_view(std_err_file)) == extract(all).2
                }),
            decreases n - i,
        {
            let ghost suffix = all.subrange(i as int, n as int);
            assert(suffix[0] == src@[i as int]@);
            match classify_op(src[i].as_str()) {
                Some((to_stdout, overwrite)) => {
                    if i + 1 < n {
                        let filename = src[i + 1].clone();
                        assert(suffix.subrange(2, suffix.len() as int) =~= all.subrange(i + 2, n as int));
                        assert(suffix[1] == src@[i + 1]@);
                        if to_stdout {
                            std_out_file = Some(Redirection::new(overwrite, filename));
                        } else {
                            std_err_file = Some(Redirection::new(overwrite, filename));
                        }
                        i = i + 2;
                    } else {
                        assert(all.subrange(n as int, n as int) =~= Seq::<Seq<char>>::empty());
                        i = i + 1;
                    }
                },
                None => {
                    let t = src[i].clone();
                    let ghost before = views(out@);
                    out.push(t);
                    assert(views(out@) =~= before.push(src@[i as int]@));
                    assert(suffix.drop_first() =~= all.subrange(i + 1, n as int));
                    let ghost rest = extract(all.subrange(i + 1, n as int)).0;
                    assert(before + (seq![suffix[0]] + rest) =~= views(out@) + rest);
                    i = i + 1;
                },
            }
        }
        proof {
            assert(all.subrange(n as int, n as int) =~= Seq::<Seq<char>>::empty());
            assert(views(out@) =~= extract(all).0);
            lemma_extract_removes_operators(all);
        }
        *tokens = out;
        (std_out_file, std_err_file)
    }
}

} // verus!
