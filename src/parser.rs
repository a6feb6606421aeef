//! The tokenizer and the pipeline builder.

use vstd::prelude::*;

use crate::command_input::{parse_commandtype_from_cmd, resolve, Cmd, CmdModel};
use crate::redirection::{extract, Redirection};
use crate::shell::Shell;
use crate::utils::{chars_of, clone_strings, group_views, push_char, split_groups};
pub use crate::utils::split_by_delimiter;

verus! {

/// Where the tokenizer stands with respect to quoting.
#[derive(PartialEq, Eq, Structural, Clone, Copy, Debug)]
pub enum QuoteMode {
    Plain,
    Single,
    Double,
}

/// Characters that separate tokens outside quotes.
pub open spec fn is_blank(c: char) -> bool {
    c == ' ' || c == '\t' || c == '\n' || c == '\r'
}

/// Characters that a backslash escapes inside double quotes.
pub open spec fn is_dq_escapable(c: char) -> bool {
    c == '"' || c == '\\' || c == '$' || c == '`' || c == '\n'
}

/// The token under construction after one more character.
pub open spec fn extend(cur: Option<Seq<char>>, c: char) -> Option<Seq<char>> {
    match cur {
        Some(t) => Some(t.push(c)),
        None => Some(seq![c]),
    }
}

/// The tokens emitted when the token under construction is closed.
pub open spec fn flush(cur: Option<Seq<char>>) -> Seq<Seq<char>> {
    match cur {
        Some(t) => seq![t],
        None => Seq::empty(),
    }
}

/// The tokens produced from position `i` of `s` on, in quoting mode `mode`,
/// with `cur` the token under construction.
pub open spec fn lex(s: Seq<char>, i: int, mode: QuoteMode, cur: Option<Seq<char>>) -> Seq<Seq<char>>
    decreases s.len() - i,
{
    if i >= s.len() || i < 0 {
        flush(cur)
    } else {
        let c = s[i];
        match mode {
            QuoteMode::Plain => {
                if c == '\\' {
                    if i + 1 < s.len() {
                        lex(s, i + 2, QuoteMode::Plain, extend(cur, s[i + 1]))
                    } else {
                        lex(s, i + 1, QuoteMode::Plain, cur)
                    }
                } else if c == '\'' {
                    lex(s, i + 1, QuoteMode::Single, cur)
                } else if c == '"' {
                    lex(s, i + 1, QuoteMode::Double, cur)
                } else if is_blank(c) {
                    flush(cur) + lex(s, i + 1, QuoteMode::Plain, None)
                } else {
                    lex(s, i + 1, QuoteMode::Plain, extend(cur, c))
                }
            },
            QuoteMode::Single => {
                if c == '\'' {
                    lex(s, i + 1, QuoteMode::Plain, cur)
                } else {
                    lex(s, i + 1, QuoteMode::Single, extend(cur, c))
                }
            },
            QuoteMode::Double => {
                if c == '"' {
                    lex(s, i + 1, QuoteMode::Plain, cur)
                } else if c == '\\' && i + 1 < s.len() && is_dq_escapable(s[i + 1]) {
                    lex(s, i + 2, QuoteMode::Double, extend(cur, s[i + 1]))
                } else if c == '\\' && i + 1 >= s.len() {
                    lex(s, i + 1, QuoteMode::Double, cur)
                } else {
                    lex(s, i + 1, QuoteMode::Double, extend(cur, c))
                }
            },
        }
    }
}

/// The tokens of a whole input line.
pub open spec fn tokenize(s: Seq<char>) -> Seq<Seq<char>> {
    lex(s, 0, QuoteMode::Plain, None)
}

/// Every token of `ts` holds at least one character.
pub open spec fn all_nonempty(ts: Seq<Seq<char>>) -> bool {
    forall|k: int| 0 <= k < ts.len() ==> (#[trigger] ts[k]).len() > 0
}

/// Tokens come only from characters taken into them: none is empty.
pub proof fn lemma_lex_nonempty(s: Seq<char>, i: int, mode: QuoteMode, cur: Option<Seq<char>>)
    requires
        cur matches Some(t) ==> t.len() > 0,
    ensures
        all_nonempty(lex(s, i, mode, cur)),
    decreases s.len() - i,
{
    if i < s.len() && i >= 0 {
        let c = s[i];
        match mode {
            QuoteMode::Plain => {
                if c == '\\' {
                    if i + 1 < s.len() {
                        lemma_lex_nonempty(s, i + 2, QuoteMode::Plain, extend(cur, s[i + 1]));
                    } else {
                        lemma_lex_nonempty(s, i + 1, QuoteMode::Plain, cur);
                    }
                } else if c == '\'' {
                    lemma_lex_nonempty(s, i + 1, QuoteMode::Single, cur);
                } else if c == '"' {
                    lemma_lex_nonempty(s, i + 1, QuoteMode::Double, cur);
                } else if is_blank(c) {
                    lemma_lex_nonempty(s, i + 1, QuoteMode::Plain, None);
                    let a = flush(cur);
                    let b = lex(s, i + 1, QuoteMode::Plain, None);
                    assert forall|k: int| 0 <= k < (a + b).len() implies (#[trigger] (a + b)[k]).len() > 0 by {
                        if k >= a.len() {
                            assert((a + b)[k] == b[k - a.len()]);
                        }
                    }
                } else {
                    lemma_lex_nonempty(s, i + 1, QuoteMode::Plain, extend(cur, c));
                }
            },
            QuoteMode::Single => {
                if c == '\'' {
                    lemma_lex_nonempty(s, i + 1, QuoteMode::Plain, cur);
                } else {
                    lemma_lex_nonempty(s, i + 1, QuoteMode::Single, extend(cur, c));
                }
            },
            QuoteMode::Double => {
                if c == '"' {
                    lemma_lex_nonempty(s, i + 1, QuoteMode::Plain, cur);
                } else if c == '\\' && i + 1 < s.len() && is_dq_escapable(s[i + 1]) {
                    lemma_lex_nonempty(s, i + 2, QuoteMode::Double, extend(cur, s[i + 1]));
                } else if c == '\\' && i + 1 >= s.len() {
                    lemma_lex_nonempty(s, i + 1, QuoteMode::Double, cur);
                } else {
                    lemma_lex_nonempty(s, i + 1, QuoteMode::Double, extend(cur, c));
                }
            },
        }
    }
}

/// The character sequences held by a sequence of strings.
pub open spec fn views(v: Seq<String>) -> Seq<Seq<char>> {
    v.map_values(|t: String| t@)
}

/// The character sequence held by an optional string.
pub open spec fn opt_view(o: Option<String>) -> Option<Seq<char>> {
    match o {
        Some(t) => Some(t@),
        None => None,
    }
}

/// Appends `value` to the token under construction, starting one if needed.
fn add_to_token(token: &mut Option<String>, value: char)
    ensures
        opt_view(*final(token)) == extend(opt_view(*old(token)), value),
{
    let mut t = match token.take() {
        Some(t) => t,
        None => String::new(),
    };
    push_char(&mut t, value);
    *token = Some(t);
}

/// Closes the token under construction, if any, and appends it to `tokens`.
fn push_token(token: &mut Option<String>, tokens: &mut Vec<String>)
    ensures
        *final(token) is None,
        views(final(tokens)@) == views(old(tokens)@) + flush(opt_view(*old(token))),
{
    if let Some(t) = token.take() {
        tokens.push(t);
        proof {
            assert(views(final(tokens)@) =~= views(old(tokens)@) + flush(opt_view(*old(token))));
        }
    } else {
        proof {
            assert(views(final(tokens)@) =~= views(old(tokens)@) + flush(opt_view(*old(token))));
        }
    }
}

/// Handles a backslash at position `pos` of `chars` inside double quotes:
/// an escapable character after it is taken literally, any other
/// character leaves the backslash in the token. Returns the position of
/// the next character to read.
fn parse_escape(chars: &Vec<char>, pos: usize, token: &mut Option<String>) -> (next: usize)
    requires
        pos < chars@.len(),
        chars@[pos as int] == '\\',
    ensures
        pos < next <= chars@.len(),
        lex(chars@, next as int, QuoteMode::Double, opt_view(*final(token)))
            == lex(chars@, pos as int, QuoteMode::Double, opt_view(*old(token))),
{
    if pos < chars.len() - 1 {
        let c = chars[pos + 1];
        if c == '"' || c == '\\' || c == '$' || c == '`' || c == '\n' {
            add_to_token(token, c);
            pos + 2
        } else {
            add_to_token(token, '\\');
            pos + 1
        }
    } else {
        pos + 1
    }
}

/// Reads a quoted span that opened just before position `pos`, up to and
/// including its closing `delimiter`, or to the end of the line when it is
/// never closed. Returns the position of the next character to read.
fn parse_delimiter(chars: &Vec<char>, pos: usize, token: &mut Option<String>, delimiter: char) -> (next: usize)
    requires
        pos <= chars@.len(),
        delimiter == '\'' || delimiter == '"',
    ensures
        pos <= next <= chars@.len(),
        lex(chars@, next as int, QuoteMode::Plain, opt_view(*final(token)))
            == lex(chars@, pos as int, if delimiter == '"' { QuoteMode::Double } else { QuoteMode::Single }, opt_view(*old(token))),
{
    let ghost mode = if delimiter == '"' { QuoteMode::Double } else { QuoteMode::Single };
    let ghost goal = lex(chars@, pos as int, mode, opt_view(*token));
    let is_double_quote = delimiter == '"';
    let mut i = pos;
    while i < chars.len()
        invariant
            pos <= i <= chars@.len(),
            delimiter == '\'' || delimiter == '"',
            is_double_quote == (delimiter == '"'),
            mode == (if delimiter == '"' { QuoteMode::Double } else { QuoteMode::Single }),
            lex(chars@, i as int, mode, opt_view(*token)) == goal,
            goal == lex(chars@, pos as int, mode, opt_view(*old(token))),
        decreases chars@.len() - i,
    {
        let c = chars[i];
        let ghost cur = opt_view(*token);
        if c == delimiter {
            assert(lex(chars@, i as int, mode, cur) == lex(chars@, i + 1, QuoteMode::Plain, cur));
            return i + 1;
        }
        if is_double_quote && c == '\\' {
            i = parse_escape(chars, i, token);
        } else {
            add_to_token(token, c);
            assert(lex(chars@, i as int, mode, cur) == lex(chars@, i + 1, mode, extend(cur, c)));
            i = i + 1;
        }
    }
    i
}

/// Splits an input line into tokens: whitespace separates tokens, a
/// backslash outside quotes takes the next character literally, single
/// quotes keep everything literally, double quotes honour backslash before
/// `"`, `\`, `$`, backquote and newline, and adjacent fragments join into
/// one token. An unterminated quote runs to the end of the line.
pub fn parse_input(input: &str) -> (tokens: Vec<String>)
    ensures
        views(tokens@) == tokenize(input@),
        all_nonempty(views(tokens@)),
{
    proof {
        lemma_lex_nonempty(input@, 0, QuoteMode::Plain, None);
    }
    let chars = chars_of(input);
    let mut tokens: Vec<String> = Vec::new();
    let mut token: Option<String> = None;
    let mut i: usize = 0;
    while i < chars.len()
        invariant
            chars@ == input@,
            i <= chars@.len(),
            views(tokens@) + lex(chars@, i as int, QuoteMode::Plain, opt_view(token)) == tokenize(input@),
        decreases chars@.len() - i,
    {
        let c = chars[i];
        if c == '\\' {
            if i + 1 < chars.len() {
                add_to_token(&mut token, chars[i + 1]);
                i = i + 2;
            } else {
                i = i + 1;
            }
        } else if c == '\'' || c == '"' {
            i = parse_delimiter(&chars, i + 1, &mut token, c);
        } else if c == ' ' || c == '\t' || c == '\n' || c == '\r' {
            let ghost before = views(tokens@);
            let ghost closed = flush(opt_view(token));
            let ghost rest = lex(chars@, i + 1, QuoteMode::Plain, None);
            push_token(&mut token, &mut tokens);
            proof {
                assert((before + closed) + rest =~= before + (closed + rest));
            }
            i = i + 1;
        } else {
            add_to_token(&mut token, c);
            i = i + 1;
        }
    }
    push_token(&mut token, &mut tokens);
    proof {
        assert(views(tokens@) == tokenize(input@));
    }
    tokens
}

/// Whether a stage's tokens keep a command name once redirections are
/// extracted.
pub open spec fn has_command(group: Seq<Seq<char>>) -> bool {
    extract(group).0.len() > 0
}

/// The groups that become stages, in order: those that keep a command name.
pub open spec fn stage_groups(groups: Seq<Seq<Seq<char>>>) -> Seq<Seq<Seq<char>>>
    decreases groups.len(),
{
    if groups.len() == 0 {
        Seq::empty()
    } else {
        let before = stage_groups(groups.drop_last());
        if has_command(groups.last()) {
            before.push(groups.last())
        } else {
            before
        }
    }
}

/// The stage built from a group of tokens, given whether its executable
/// file is `runnable`: redirections extracted, the first remaining token is
/// the command name and the rest are its arguments.
pub open spec fn stage_of(group: Seq<Seq<char>>, exes: Seq<(Seq<char>, Seq<char>)>, runnable: bool) -> CmdModel {
    let ex = extract(group);
    let name = ex.0[0];
    CmdModel {
        command_type: resolve(name, ex.0.drop_first(), exes, runnable),
        command_str: name,
        redirect_std_out: ex.1,
        redirect_std_error: ex.2,
    }
}

/// The stage `c` is built from `group` under one of the two answers on
/// whether its executable file is runnable.
pub open spec fn built_from(c: CmdModel, group: Seq<Seq<char>>, exes: Seq<(Seq<char>, Seq<char>)>) -> bool {
    c == stage_of(group, exes, true) || c == stage_of(group, exes, false)
}

/// The stage that one group of tokens becomes, if it names a command.
fn build_stage(group: &Vec<String>, shell: &Shell) -> (r: Option<Cmd>)
    ensures
        r is Some <==> has_command(views(group@)),
        r matches Some(c) ==> built_from(c@, views(group@), shell.exes()),
{
    let mut tokens = clone_strings(group);
    let (std_out_file, std_err_file) = Redirection::parse_redirections(&mut tokens);
    if tokens.len() == 0 {
        return None;
    }
    let command_str = tokens.remove(0);
    let ghost rest = views(tokens@);
    assert(rest =~= extract(views(group@)).0.drop_first());
    let command_type = parse_commandtype_from_cmd(command_str.as_str(), tokens, shell);
    Some(Cmd { command_type, command_str, redirect_std_out: std_out_file, redirect_std_error: std_err_file })
}

/// Builds the stages of a pipeline from its groups of tokens, in order.
/// Groups left without a command name once redirections are extracted are
/// dropped; with no stage left the result is `None`.
pub fn parse_commands(cmd_tokens: &Vec<Vec<String>>, shell: &Shell) -> (r: Option<Vec<Cmd>>)
    ensures
        r is None <==> stage_groups(group_views(cmd_tokens@)).len() == 0,
        r matches Some(stages) ==> {
            &&& stages@.len() == stage_groups(group_views(cmd_tokens@)).len()
            &&& forall|k: int| 0 <= k < stages@.len()
                ==> built_from(#[trigger] stages@[k]@, stage_groups(group_views(cmd_tokens@))[k], shell.exes())
        },
{
    let ghost gs = group_views(cmd_tokens@);
    let mut stages: Vec<Cmd> = Vec::new();
    let mut i: usize = 0;
    while i < cmd_tokens.len()
        invariant
            i <= cmd_tokens@.len(),
            gs == group_views(cmd_tokens@),
            stages@.len() == stage_groups(gs.subrange(0, i as int)).len(),
            forall|k: int| 0 <= k < stages@.len()
                ==> built_from(#[trigger] stages@[k]@, stage_groups(gs.subrange(0, i as int))[k], shell.exes()),
        decreases cmd_tokens@.len() - i,
    {
        assert(gs.subrange(0, i + 1).drop_last() =~= gs.subrange(0, i as int));
        assert(gs[i as int] == views(cmd_tokens@[i as int]@));
        if let Some(c) = build_stage(&cmd_tokens[i], shell) {
            stages.push(c);
        }
        i = i + 1;
    }
    assert(gs.subrange(0, cmd_tokens@.len() as int) =~= gs);
    if stages.len() == 0 {
        None
    } else {
        Some(stages)
    }
}

/// Splits a line into the stages of its pipeline: tokenized, split at `|`
/// tokens with empty groups dropped, and each group built into a stage.
pub fn parse_line(line: &str, shell: &Shell) -> (r: Option<Vec<Cmd>>)
    ensures
        ({
            let gs = stage_groups(split_groups(tokenize(line@), seq!['|']));
            &&& r is None <==> gs.len() == 0
            &&& r matches Some(stages) ==> {
                &&& stages@.len() == gs.len()
                &&& forall|k: int| 0 <= k < stages@.len() ==> built_from(#[trigger] stages@[k]@, gs[k], shell.exes())
            }
        }),
{
    let tokens = parse_input(line);
    let mut bar = String::new();
    push_char(&mut bar, '|');
    assert(bar@ =~= seq!['|']);
    let groups = split_by_delimiter(tokens, bar);
    parse_commands(&groups, shell)
}

} // verus!
