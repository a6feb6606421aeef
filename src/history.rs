//! The command history: arguments, listings and the history file format.

use vstd::prelude::*;

use crate::parser::views;
use crate::shell::Shell;
use crate::utils::{push_char, str_equals};

verus! {

/// What the `history` builtin was asked to do.
#[derive(Clone, Debug, PartialEq, Eq)]
pub enum HistoryRequest {
    /// Show the last `n` entries, or all of them when `n` is 0.
    List(usize),
    /// Load entries from a file.
    Read(String),
    /// Overwrite a file with the whole history.
    Write(String),
    /// Append to a file the entries added since the last append.
    Append(String),
    /// `-r`, `-w` or `-a` came without a file name.
    MissingOperand,
}

pub enum RequestModel {
    List(nat),
    Read(Seq<char>),
    Write(Seq<char>),
    Append(Seq<char>),
    MissingOperand,
}

impl View for HistoryRequest {
    type V = RequestModel;

    open spec fn view(&self) -> RequestModel {
        match self {
            HistoryRequest::List(n) => RequestModel::List(*n as nat),
            HistoryRequest::Read(p) => RequestModel::Read(p@),
            HistoryRequest::Write(p) => RequestModel::Write(p@),
            HistoryRequest::Append(p) => RequestModel::Append(p@),
            HistoryRequest::MissingOperand => RequestModel::MissingOperand,
        }
    }
}

pub open spec fn is_digit(c: char) -> bool {
    '0' <= c && c <= '9'
}

pub open spec fn digit_value(c: char) -> nat {
    (c as u32 - '0' as u32) as nat
}

pub open spec fn all_digits(s: Seq<char>) -> bool {
    forall|k: int| 0 <= k < s.len() ==> is_digit(#[trigger] s[k])
}

/// The number a string of decimal digits denotes.
pub open spec fn digits_value(s: Seq<char>) -> nat
    decreases s.len(),
{
    if s.len() == 0 {
        0
    } else {
        digits_value(s.drop_last()) * 10 + digit_value(s.last())
    }
}

/// The count an argument denotes, read as an unsigned machine integer is
/// read: an optional `+`, then at least one decimal digit, the value
/// fitting in `usize`.
pub open spec fn count_value(s: Seq<char>) -> Option<nat> {
    let d = if s.len() > 0 && s[0] == '+' {
        s.drop_first()
    } else {
        s
    };
    if d.len() > 0 && all_digits(d) && digits_value(d) <= usize::MAX {
        Some(digits_value(d))
    } else {
        None
    }
}

/// Reads a count argument.
pub fn parse_count(s: &str) -> (r: Option<usize>)
    ensures
        match r {
            Some(n) => count_value(s@) == Some(n as nat),
            None => count_value(s@) is None,
        },
{
    let len = s.unicode_len();
    let mut start: usize = 0;
    if len > 0 && s.get_char(0) == '+' {
        start = 1;
    }
    let ghost d = s@.subrange(start as int, len as int);
    assert(d =~= if s@.len() > 0 && s@[0] == '+' { s@.drop_first() } else { s@ });
    if start >= len {
        return None;
    }
    let mut value: usize = 0;
    let mut i: usize = start;
    while i < len
        invariant
            len == s@.len(),
            start <= i <= len,
            d == s@.subrange(start as int, len as int),
            d == (if s@.len() > 0 && s@[0] == '+' { s@.drop_first() } else { s@ }),
            all_digits(s@.subrange(start as int, i as int)),
            value as nat == digits_value(s@.subrange(start as int, i as int)),
        decreases len - i,
    {
        let c = s.get_char(i);
        let ghost prefix = s@.subrange(start as int, i + 1);
        assert(prefix.drop_last() =~= s@.subrange(start as int, i as int));
        assert(c == d[i - start]);
        if !('0' <= c && c <= '9') {
            assert(d[i - start] == c);
            assert(!is_digit(d[i - start]));
            return None;
        }
        let digit = (c as u32 - '0' as u32) as usize;
        match value.checked_mul(10) {
            Some(v) => match v.checked_add(digit) {
                Some(w) => {
                    value = w;
                },
                None => {
                    proof {
                        lemma_digits_value_prefix(d, i + 1 - start);
                        assert(d.subrange(0, i + 1 - start) =~= prefix);
                    }
                    return None;
                },
            },
            None => {
                proof {
                    lemma_digits_value_prefix(d, i + 1 - start);
                    assert(d.subrange(0, i + 1 - start) =~= prefix);
                }
                return None;
            },
        }
        i = i + 1;
    }
    assert(s@.subrange(start as int, i as int) =~= d);
    Some(value)
}

/// A string of digits is worth at least as much as any prefix of it.
pub proof fn lemma_digits_value_prefix(s: Seq<char>, k: int)
    requires
        0 <= k <= s.len(),
    ensures
        digits_value(s.subrange(0, k)) <= digits_value(s),
    decreases s.len() - k,
{
    if k < s.len() {
        lemma_digits_value_prefix(s, k + 1);
        assert(s.subrange(0, k + 1).drop_last() =~= s.subrange(0, k));
    } else {
        assert(s.subrange(0, k) =~= s);
    }
}

/// What `history` is asked to do by its arguments: `-r`, `-w` and `-a`
/// take a file name; anything else is a count, 0 when it is absent or not
/// a number.
pub open spec fn request_of(args: Seq<Seq<char>>) -> RequestModel {
    let first = if args.len() > 0 {
        args[0]
    } else {
        "0"@
    };
    let second = if args.len() > 1 {
        args[1]
    } else {
        Seq::<char>::empty()
    };
    if first == "-r"@ || first == "-w"@ || first == "-a"@ {
        if second.len() == 0 {
            RequestModel::MissingOperand
        } else if first == "-r"@ {
            RequestModel::Read(second)
        } else if first == "-w"@ {
            RequestModel::Write(second)
        } else {
            RequestModel::Append(second)
        }
    } else {
        match count_value(first) {
            Some(n) => RequestModel::List(n),
            None => RequestModel::List(0),
        }
    }
}

/// Reads the arguments of the `history` builtin.
pub fn history_request(args: &Vec<String>) -> (r: HistoryRequest)
    ensures
        r@ == request_of(views(args@)),
{
    let ghost ws = views(args@);
    if args.len() == 0 {
        proof {
            reveal_strlit("0");
            reveal_strlit("-r");
            reveal_strlit("-w");
            reveal_strlit("-a");
            assert("0"@.drop_last() =~= Seq::<char>::empty());
            assert(all_digits("0"@));
            assert("0"@.last() == '0');
            assert(digits_value("0"@.drop_last()) == 0);
            assert(digit_value('0') == 0);
            assert(digits_value("0"@) == 0);
            assert(count_value("0"@) == Some(0nat));
        }
        return HistoryRequest::List(0);
    }
    assert(ws[0] == args@[0]@);
    let first = args[0].as_str();
    let r = str_equals(first, "-r");
    let w = str_equals(first, "-w");
    let a = str_equals(first, "-a");
    if r || w || a {
        if args.len() < 2 || args[1].unicode_len() == 0 {
            return HistoryRequest::MissingOperand;
        }
        assert(ws[1] == args@[1]@);
        let path = args[1].clone();
        if r {
            HistoryRequest::Read(path)
        } else if w {
            HistoryRequest::Write(path)
        } else {
            HistoryRequest::Append(path)
        }
    } else {
        match parse_count(first) {
            Some(n) => HistoryRequest::List(n),
            None => HistoryRequest::List(0),
        }
    }
}

/// The decimal digit character for `d` below ten.
pub open spec fn digit_char(d: nat) -> char {
    if d == 0 {
        '0'
    } else if d == 1 {
        '1'
    } else if d == 2 {
        '2'
    } else if d == 3 {
        '3'
    } else if d == 4 {
        '4'
    } else if d == 5 {
        '5'
    } else if d == 6 {
        '6'
    } else if d == 7 {
        '7'
    } else if d == 8 {
        '8'
    } else {
        '9'
    }
}

/// The decimal writing of `n`.
pub open spec fn decimal(n: nat) -> Seq<char>
    decreases n,
{
    if n < 10 {
        seq![digit_char(n)]
    } else {
        decimal(n / 10).push(digit_char(n % 10))
    }
}

/// `s` right-aligned in a field of five characters.
pub open spec fn pad5(s: Seq<char>) -> Seq<char> {
    if s.len() < 5 {
        Seq::new((5 - s.len()) as nat, |_k: int| ' ') + s
    } else {
        s
    }
}

/// The listing line of the entry numbered `k`.
pub open spec fn listing_line(k: nat, entry: Seq<char>) -> Seq<char> {
    pad5(decimal(k)) + seq![' ', ' '] + entry + seq!['\n']
}

/// The listing of `entries` from index `i` on, numbered from one.
pub open spec fn listing_from(entries: Seq<Seq<char>>, i: int) -> Seq<char>
    decreases entries.len() - i,
{
    if i >= entries.len() || i < 0 {
        Seq::empty()
    } else {
        listing_line((i + 1) as nat, entries[i]) + listing_from(entries, i + 1)
    }
}

/// The index of the first entry that a listing of the last `n` shows: all
/// of them when `n` is 0 or at least their number.
pub open spec fn listing_start(len: nat, n: nat) -> nat {
    if n == 0 || n >= len {
        0
    } else {
        (len - n) as nat
    }
}

fn digit_to_char(d: usize) -> (c: char)
    requires
        d < 10,
    ensures
        c == digit_char(d as nat),
{
    if d == 0 {
        '0'
    } else if d == 1 {
        '1'
    } else if d == 2 {
        '2'
    } else if d == 3 {
        '3'
    } else if d == 4 {
        '4'
    } else if d == 5 {
        '5'
    } else if d == 6 {
        '6'
    } else if d == 7 {
        '7'
    } else if d == 8 {
        '8'
    } else {
        '9'
    }
}

/// Appends the decimal writing of `n` to `out`.
fn push_decimal(out: &mut String, n: usize)
    ensures
        final(out)@ == old(out)@ + decimal(n as nat),
    decreases n,
{
    if n < 10 {
        push_char(out, digit_to_char(n));
        assert(decimal(n as nat) =~= seq![digit_char(n as nat)]);
    } else {
        push_decimal(out, n / 10);
        push_char(out, digit_to_char(n % 10));
    }
}

/// The line that lists entry number `k`: the number right-aligned in five
/// columns, two spaces, the entry.
pub fn listing_entry(k: usize, entry: &str) -> (line: String)
    ensures
        line@ == listing_line(k as nat, entry@),
{
    let mut digits = String::new();
    push_decimal(&mut digits, k);
    assert(digits@ =~= decimal(k as nat));
    let mut line = String::new();
    let width = digits.unicode_len();
    let mut pad: usize = width;
    while pad < 5
        invariant
            width == digits@.len(),
            width <= pad <= 5 || (width > 5 && pad == width),
            line@ == Seq::new((pad - width) as nat, |_k: int| ' '),
        decreases 5 - pad,
    {
        push_char(&mut line, ' ');
        assert(line@ =~= Seq::new((pad + 1 - width) as nat, |_k: int| ' '));
        pad = pad + 1;
    }
    line.append(digits.as_str());
    assert(line@ =~= pad5(digits@)) by {
        if width >= 5 {
            assert(Seq::new((pad - width) as nat, |_k: int| ' ') =~= Seq::<char>::empty());
        }
    }
    push_char(&mut line, ' ');
    push_char(&mut line, ' ');
    line.append(entry);
    push_char(&mut line, '\n');
    assert(line@ =~= listing_line(k as nat, entry@));
    line
}

/// What `history n` writes: the last `n` entries (all of them for 0), each
/// numbered by its place in the whole history.
pub fn history_listing(entries: &Vec<String>, n: usize) -> (out: String)
    ensures
        out@ == listing_from(views(entries@), listing_start(entries@.len(), n as nat) as int),
{
    let ghost es = views(entries@);
    let len = entries.len();
    let start = if n == 0 || n >= len {
        0
    } else {
        len - n
    };
    let mut out = String::new();
    let mut i = start;
    while i < len
        invariant
            len == entries@.len(),
            es == views(entries@),
            start <= i <= len,
            out@ + listing_from(es, i as int) == listing_from(es, start as int),
        decreases len - i,
    {
        let line = listing_entry(i + 1, entries[i].as_str());
        assert(es[i as int] == entries@[i as int]@);
        let ghost before = out@;
        out.append(line.as_str());
        assert(before + (line@ + listing_from(es, i + 1)) =~= out@ + listing_from(es, i + 1));
        i = i + 1;
    }
    assert(out@ + listing_from(es, len as int) =~= out@);
    out
}

/// The text of a history file holding `entries`: each entry on a line of
/// its own.
pub open spec fn history_text(entries: Seq<Seq<char>>) -> Seq<char>
    decreases entries.len(),
{
    if entries.len() == 0 {
        Seq::empty()
    } else {
        entries[0] + seq!['\n'] + history_text(entries.drop_first())
    }
}

/// The entries read from `s`, with `cur` the line read so far: each line is
/// an entry, and a last line without a newline counts when it is not empty.
pub open spec fn lines_from(s: Seq<char>, cur: Seq<char>) -> Seq<Seq<char>>
    decreases s.len(),
{
    if s.len() == 0 {
        if cur.len() > 0 {
            seq![cur]
        } else {
            Seq::empty()
        }
    } else if s[0] == '\n' {
        seq![cur] + lines_from(s.drop_first(), Seq::empty())
    } else {
        lines_from(s.drop_first(), cur.push(s[0]))
    }
}

/// The entries of a history file's text.
pub open spec fn history_entries(s: Seq<char>) -> Seq<Seq<char>> {
    lines_from(s, Seq::empty())
}

/// No entry holds a newline.
pub open spec fn single_lines(entries: Seq<Seq<char>>) -> bool {
    forall|k: int, j: int| 0 <= k < entries.len() && 0 <= j < entries[k].len() ==> #[trigger] entries[k][j] != '\n'
}

proof fn lemma_text_push(entries: Seq<Seq<char>>, e: Seq<char>)
    ensures
        history_text(entries.push(e)) == history_text(entries) + (e + seq!['\n']),
    decreases entries.len(),
{
    if entries.len() == 0 {
        let one = entries.push(e);
        assert(one.drop_first() =~= Seq::<Seq<char>>::empty());
        assert(history_text(one.drop_first()) == Seq::<char>::empty());
        assert(one[0] == e);
        assert(history_text(one) =~= e + seq!['\n']);
        assert(history_text(entries) + (e + seq!['\n']) =~= e + seq!['\n']);
    } else {
        lemma_text_push(entries.drop_first(), e);
        assert(entries.push(e).drop_first() =~= entries.drop_first().push(e));
        assert(history_text(entries.push(e)) =~= history_text(entries) + (e + seq!['\n']));
    }
}

proof fn lemma_lines_one(e: Seq<char>, rest: Seq<char>, cur: Seq<char>)
    requires
        forall|j: int| 0 <= j < e.len() ==> e[j] != '\n',
    ensures
        lines_from(e + seq!['\n'] + rest, cur) == seq![cur + e] + lines_from(rest, Seq::empty()),
    decreases e.len(),
{
    if e.len() == 0 {
        assert((e + seq!['\n'] + rest).drop_first() =~= rest);
        assert(cur + e =~= cur);
    } else {
        let tail = e.drop_first();
        assert((e + seq!['\n'] + rest).drop_first() =~= tail + seq!['\n'] + rest);
        lemma_lines_one(tail, rest, cur.push(e[0]));
        assert(cur.push(e[0]) + tail =~= cur + e);
    }
}

/// Writing a history to a file and reading that file back gives the same
/// entries, in the same order, provided no entry holds a newline.
pub proof fn lemma_history_round_trip(entries: Seq<Seq<char>>)
    requires
        single_lines(entries),
    ensures
        history_entries(history_text(entries)) == entries,
    decreases entries.len(),
{
    if entries.len() > 0 {
        let tail = entries.drop_first();
        assert(single_lines(tail)) by {
            assert forall|k: int, j: int| 0 <= k < tail.len() && 0 <= j < tail[k].len() implies #[trigger] tail[k][j] != '\n' by {
                assert(tail[k] == entries[k + 1]);
                assert(entries[k + 1][j] != '\n');
            }
        }
        assert forall|j: int| 0 <= j < entries[0].len() implies entries[0][j] != '\n' by {
            assert(entries[0][j] != '\n');
        }
        lemma_history_round_trip(tail);
        lemma_lines_one(entries[0], history_text(tail), Seq::empty());
        assert(Seq::<char>::empty() + entries[0] =~= entries[0]);
        assert(seq![entries[0]] + tail =~= entries);
    } else {
        assert(history_text(entries) =~= Seq::<char>::empty());
    }
}

/// The text a history file gets for `entries`.
pub fn history_file_text(entries: &Vec<String>) -> (text: String)
    ensures
        text@ == history_text(views(entries@)),
{
    let ghost es = views(entries@);
    let mut text = String::new();
    let mut i: usize = 0;
    while i < entries.len()
        invariant
            i <= entries@.len(),
            es == views(entries@),
            text@ == history_text(es.subrange(0, i as int)),
        decreases entries@.len() - i,
    {
        proof {
            lemma_text_push(es.subrange(0, i as int), es[i as int]);
            assert(es.subrange(0, i as int).push(es[i as int]) =~= es.subrange(0, i + 1));
        }
        assert(es[i as int] == entries@[i as int]@);
        text.append(entries[i].as_str());
        push_char(&mut text, '\n');
        i = i + 1;
    }
    assert(es.subrange(0, entries@.len() as int) =~= es);
    text
}

/// The entries held by a history file's text.
pub fn parse_history_text(text: &str) -> (entries: Vec<String>)
    ensures
        views(entries@) == history_entries(text@),
{
    let n = text.unicode_len();
    let mut entries: Vec<String> = Vec::new();
    let mut cur = String::new();
    let mut i: usize = 0;
    assert(text@.subrange(0, n as int) =~= text@);
    assert(views(entries@) + history_entries(text@) =~= history_entries(text@));
    while i < n
        invariant
            n == text@.len(),
            i <= n,
            views(entries@) + lines_from(text@.subrange(i as int, n as int), cur@) == history_entries(text@),
        decreases n - i,
    {
        let c = text.get_char(i);
        let ghost rest = text@.subrange(i as int, n as int);
        assert(rest.drop_first() =~= text@.subrange(i + 1, n as int));
        if c == '\n' {
            let ghost before = views(entries@);
            let ghost line = cur@;
            entries.push(cur);
            cur = String::new();
            assert(views(entries@) =~= before.push(line));
            assert(before + (seq![line] + lines_from(rest.drop_first(), Seq::empty())) =~= views(entries@)
                + lines_from(rest.drop_first(), cur@));
        } else {
            push_char(&mut cur, c);
        }
        i = i + 1;
    }
    let ghost before = views(entries@);
    if cur.unicode_len() > 0 {
        let ghost line = cur@;
        entries.push(cur);
        assert(views(entries@) =~= before.push(line));
    }
    assert(text@.subrange(n as int, n as int) =~= Seq::<char>::empty());
    assert(views(entries@) =~= history_entries(text@));
    entries
}

impl Shell {
    /// Adds the entries held by a history file's text after the current
    /// ones.
    pub fn load_history(&mut self, text: &str)
        requires
            old(self).wf(),
        ensures
            final(self).wf(),
            views(final(self).history@) == views(old(self).history@) + history_entries(text@),
            final(self).last_written_index == old(self).last_written_index,
            final(self).executables@ == old(self).executables@,
            final(self).current_dir@ == old(self).current_dir@,
    {
        let loaded = parse_history_text(text);
        let mut i: usize = 0;
        while i < loaded.len()
            invariant
                self.wf(),
                i <= loaded@.len(),
                views(self.history@) == views(old(self).history@) + views(loaded@).subrange(0, i as int),
                self.last_written_index == old(self).last_written_index,
                self.executables@ == old(self).executables@,
                self.current_dir@ == old(self).current_dir@,
            decreases loaded@.len() - i,
        {
            let ghost before = views(self.history@);
            self.history.push(loaded[i].clone());
            assert(views(self.history@) =~= before.push(loaded@[i as int]@));
            assert(views(loaded@).subrange(0, i + 1) =~= views(loaded@).subrange(0, i as int).push(
                loaded@[i as int]@,
            ));
            i = i + 1;
        }
        assert(views(loaded@).subrange(0, loaded@.len() as int) =~= views(loaded@));
    }

    /// The text to append to a history file: the entries added since the
    /// last append.
    pub fn unwritten_history_text(&self) -> (text: String)
        requires
            self.wf(),
        ensures
            text@ == history_text(views(self.history@).subrange(self.last_written_index as int, self.history@.len() as int)),
    {
        let mut rest: Vec<String> = Vec::new();
        let mut i = self.last_written_index;
        while i < self.history.len()
            invariant
                self.last_written_index <= i <= self.history@.len(),
                views(rest@) == views(self.history@).subrange(self.last_written_index as int, i as int),
            decreases self.history@.len() - i,
        {
            let ghost before = views(rest@);
            rest.push(self.history[i].clone());
            assert(views(rest@) =~= before.push(self.history@[i as int]@));
            assert(views(self.history@).subrange(self.last_written_index as int, i + 1) =~= views(
                self.history@,
            ).subrange(self.last_written_index as int, i as int).push(self.history@[i as int]@));
            i = i + 1;
        }
        history_file_text(&rest)
    }

    /// Records that the first `count` entries are now in the append file.
    pub fn mark_history_written(&mut self, count: usize)
        requires
            old(self).wf(),
            count <= old(self).history@.len(),
        ensures
            final(self).wf(),
            final(self).last_written_index == count,
            final(self).history@ == old(self).history@,
            final(self).executables@ == old(self).executables@,
            final(self).current_dir@ == old(self).current_dir@,
    {
        self.last_written_index = count;
    }
}

} // verus!
