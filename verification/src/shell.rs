//! Shell text: quoting a value as one POSIX shell word, what such a word
//! stands for once the shell has read it, and what `sh` does with the few
//! simple commands this crate writes into scripts.
use crate::text::{first_index_of, first_pos, int_text, push_replaced, replace_char, split_once_spec, starts_with};
use vstd::prelude::*;

verus! {

/// Whether `seg` may stand inside double quotes and mean itself: it holds
/// none of `"`, `\`, `$` and `` ` ``.
pub open spec fn dq_literal(seg: Seq<char>) -> bool {
    forall|i: int|
        0 <= i < seg.len() ==> #[trigger] seg[i] != '"' && seg[i] != '\\' && seg[i] != '$' && seg[i]
            != '`'
}

/// Where the segment that begins after the opening quote `q` ends in `body`:
/// the position of the next `q`, or -1 when there is none.
pub open spec fn segment_end(body: Seq<char>, q: char) -> int {
    match first_index_of(body, q) {
        Some(k) => k,
        None => -1,
    }
}

/// The value that a POSIX shell gives to the word `w` when `w` is a run of
/// single-quoted segments and double-quoted segments without `"`, `\`, `$`
/// or `` ` `` inside: the segments' contents joined. `None` for any other
/// text.
#[verifier::opaque]
pub open spec fn sh_word_value(w: Seq<char>) -> Option<Seq<char>>
    decreases w.len(),
{
    if w.len() == 0 {
        Some(Seq::empty())
    } else if w[0] == '\'' || w[0] == '"' {
        let body = w.drop_first();
        let k = segment_end(body, w[0]);
        if 0 <= k < body.len() {
            let seg = body.take(k);
            if w[0] == '"' && !dq_literal(seg) {
                None
            } else {
                match sh_word_value(body.skip(k + 1)) {
                    Some(rest) => Some(seg + rest),
                    None => None,
                }
            }
        } else {
            None
        }
    } else {
        None
    }
}

/// What stands for a single quote inside a single-quoted word: close the
/// quote, a double-quoted `'`, open the quote again.
pub open spec fn quote_escape() -> Seq<char> {
    seq!['\'', '"', '\'', '"', '\'']
}

/// `value` as one single-quoted shell word, every `'` in it written as
/// `'"'"'`.
pub open spec fn shell_quote_spec(value: Seq<char>) -> Seq<char> {
    seq!['\''] + replace_char(value, '\'', quote_escape()) + seq!['\'']
}

/// `value` as one single-quoted shell word.
pub fn shell_quote(value: &str) -> (q: String)
    ensures
        q@ == shell_quote_spec(value@),
{
    let mut q = String::new();
    q.append("'");
    push_replaced(&mut q, value, '\'', "'\"'\"'");
    q.append("'");
    proof {
        reveal_strlit("'");
        reveal_strlit("'\"'\"'");
        assert("'\"'\"'"@ =~= quote_escape());
        assert(q@ =~= shell_quote_spec(value@));
    }
    q
}

proof fn lemma_replace_concat(x: Seq<char>, y: Seq<char>, c: char, r: Seq<char>)
    ensures
        replace_char(x + y, c, r) == replace_char(x, c, r) + replace_char(y, c, r),
    decreases y.len(),
{
    if y.len() == 0 {
        assert(x + y =~= x);
        assert(replace_char(x, c, r) + replace_char(y, c, r) =~= replace_char(x, c, r));
    } else {
        lemma_replace_concat(x, y.drop_last(), c, r);
        assert((x + y).drop_last() =~= x + y.drop_last());
        assert((x + y).last() == y.last());
        assert(replace_char(x + y, c, r) =~= replace_char(x, c, r) + replace_char(y, c, r));
    }
}

proof fn lemma_replace_absent(x: Seq<char>, c: char, r: Seq<char>)
    requires
        forall|i: int| 0 <= i < x.len() ==> x[i] != c,
    ensures
        replace_char(x, c, r) == x,
    decreases x.len(),
{
    if x.len() > 0 {
        lemma_replace_absent(x.drop_last(), c, r);
        assert(replace_char(x, c, r) =~= x);
    }
}

proof fn lemma_first_index(s: Seq<char>, c: char, k: int)
    requires
        0 <= k < s.len(),
        s[k] == c,
        forall|j: int| 0 <= j < k ==> s[j] != c,
    ensures
        segment_end(s, c) == k,
{
    assert(exists|i: int| 0 <= i < s.len() && s[i] == c);
    let w = choose|i: int| 0 <= i < s.len() && s[i] == c && forall|j: int| 0 <= j < i ==> s[j] != c;
    assert(0 <= k < s.len() && s[k] == c && forall|j: int| 0 <= j < k ==> s[j] != c);
    if w < k {
        assert(s[w] != c);
    } else if w > k {
        assert(s[k] != c);
    }
}

proof fn lemma_decode_single(a: Seq<char>, rest: Seq<char>)
    requires
        forall|i: int| 0 <= i < a.len() ==> a[i] != '\'',
    ensures
        sh_word_value(seq!['\''] + a + seq!['\''] + rest) == match sh_word_value(rest) {
            Some(r) => Some(a + r),
            None => None,
        },
{
    reveal(sh_word_value);
    let w = seq!['\''] + a + seq!['\''] + rest;
    let body = w.drop_first();
    assert(body =~= a + seq!['\''] + rest);
    assert forall|j: int| 0 <= j < a.len() implies body[j] != '\'' by {
        assert(body[j] == a[j]);
    }
    assert(body[a.len() as int] == '\'');
    lemma_first_index(body, '\'', a.len() as int);
    assert(body.take(a.len() as int) =~= a);
    assert(body.skip(a.len() as int + 1) =~= rest);
    assert(w[0] == '\'');
    assert(segment_end(body, w[0]) == a.len());
}

proof fn lemma_decode_empty()
    ensures
        sh_word_value(Seq::<char>::empty()) == Some(Seq::<char>::empty()),
{
    reveal(sh_word_value);
}

proof fn lemma_decode_quoted_quote(rest: Seq<char>)
    ensures
        sh_word_value(seq!['"', '\'', '"'] + rest) == match sh_word_value(rest) {
            Some(r) => Some(seq!['\''] + r),
            None => None,
        },
{
    reveal(sh_word_value);
    let w = seq!['"', '\'', '"'] + rest;
    let body = w.drop_first();
    assert(body =~= seq!['\'', '"'] + rest);
    assert(body[0] == '\'' && body[1] == '"');
    lemma_first_index(body, '"', 1);
    assert(body.take(1) =~= seq!['\'']);
    assert(dq_literal(body.take(1)));
    assert(body.skip(2) =~= rest);
    assert(w[0] == '"');
    assert(segment_end(body, w[0]) == 1);
}

/// Quoting is faithful: the shell reads back exactly the quoted value, for
/// every value, whatever quotes, spaces or shell syntax it holds.
pub proof fn lemma_shell_quote_round_trip(value: Seq<char>)
    ensures
        sh_word_value(shell_quote_spec(value)) == Some(value),
    decreases value.len(),
{
    let e = quote_escape();
    let q = shell_quote_spec(value);
    if exists|i: int| 0 <= i < value.len() && value[i] == '\'' {
        lemma_first_quote_exists(value);
        let k = choose|i: int|
            0 <= i < value.len() && value[i] == '\'' && forall|j: int|
                0 <= j < i ==> value[j] != '\'';
        let a = value.take(k);
        let b = value.skip(k + 1);
        assert(value =~= a + seq!['\''] + b);
        lemma_replace_concat(a + seq!['\''], b, '\'', e);
        lemma_replace_concat(a, seq!['\''], '\'', e);
        lemma_replace_absent(a, '\'', e);
        assert(replace_char(Seq::<char>::empty(), '\'', e) =~= Seq::<char>::empty());
        assert(seq!['\''].drop_last() =~= Seq::<char>::empty());
        assert(replace_char(seq!['\''], '\'', e) =~= e);
        let qb = shell_quote_spec(b);
        assert(q =~= seq!['\''] + a + seq!['\''] + (seq!['"', '\'', '"'] + qb));
        lemma_shell_quote_round_trip(b);
        lemma_decode_quoted_quote(qb);
        lemma_decode_single(a, seq!['"', '\'', '"'] + qb);
        assert(sh_word_value(seq!['"', '\'', '"'] + qb) == Some(seq!['\''] + b));
        assert(a + (seq!['\''] + b) =~= value);
    } else {
        lemma_replace_absent(value, '\'', e);
        assert(q =~= seq!['\''] + value + seq!['\''] + Seq::<char>::empty());
        lemma_decode_single(value, Seq::<char>::empty());
        lemma_decode_empty();
        assert(value + Seq::<char>::empty() =~= value);
    }
}

proof fn lemma_first_quote_exists(value: Seq<char>)
    requires
        exists|i: int| 0 <= i < value.len() && value[i] == '\'',
    ensures
        exists|i: int|
            0 <= i < value.len() && value[i] == '\'' && forall|j: int|
                0 <= j < i ==> value[j] != '\'',
    decreases value.len(),
{
    if value[0] == '\'' {
        assert(0 <= 0 < value.len() && value[0] == '\'' && forall|j: int|
            0 <= j < 0 ==> value[j] != '\'');
    } else {
        let t = value.drop_first();
        let i = choose|i: int| 0 <= i < value.len() && value[i] == '\'';
        assert(t[i - 1] == '\'');
        lemma_first_quote_exists(t);
        let k = choose|k: int|
            0 <= k < t.len() && t[k] == '\'' && forall|j: int| 0 <= j < k ==> t[j] != '\'';
        assert forall|j: int| 0 <= j < k + 1 implies value[j] != '\'' by {
            if j > 0 {
                assert(value[j] == t[j - 1]);
            }
        }
        assert(value[k + 1] == '\'');
    }
}


/// What a run of simple shell commands has done so far: the last command's
/// exit status (`$?`), the shell variables, the files written (by path, as
/// the script names them) and whether the script has exited.
pub struct ShellState {
    pub last: int,
    pub vars: Map<Seq<char>, Seq<char>>,
    pub files: Map<Seq<char>, Seq<char>>,
    pub exited: bool,
}

/// A word without its enclosing double quotes, if it has them.
pub open spec fn unquoted(w: Seq<char>) -> Seq<char> {
    if w.len() >= 2 && w[0] == '"' && w.last() == '"' {
        w.subrange(1, w.len() - 1)
    } else {
        w
    }
}

/// The value of a word that is `$?`, `$name` or plain text, possibly in
/// double quotes: the last exit status as a numeral, the variable's value
/// (empty when unset), or the text itself.
pub open spec fn word_expansion(w: Seq<char>, st: ShellState) -> Seq<char> {
    let v = unquoted(w);
    if v == seq!['$', '?'] {
        int_text(st.last)
    } else if v.len() > 0 && v[0] == '$' {
        if st.vars.contains_key(v.skip(1)) {
            st.vars[v.skip(1)]
        } else {
            Seq::empty()
        }
    } else {
        v
    }
}

/// What `sh` does with one simple command line:
/// - `printf '%s\n' WORD > FILE` writes WORD's value and a newline to FILE;
/// - `mv FROM TO` renames a file, failing when FROM does not exist;
/// - `exit ...` ends the script;
/// - `NAME=WORD` sets a variable, and like every assignment without a command
///   it leaves the exit status at 0;
/// - anything else is an unknown command (status 127).
/// Every successful command leaves the exit status at 0.
pub open spec fn run_command_line(line: Seq<char>, st: ShellState) -> ShellState {
    let printf = seq!['p', 'r', 'i', 'n', 't', 'f', ' ', '\'', '%', 's', '\\', 'n', '\'', ' '];
    if starts_with(line, printf) {
        match split_once_spec(line.skip(printf.len() as int), ' ') {
            Some((word, redirect)) => if starts_with(redirect, seq!['>', ' ']) {
                ShellState {
                    last: 0,
                    files: st.files.insert(unquoted(redirect.skip(2)), word_expansion(word, st) + seq!['\n']),
                    ..st
                }
            } else {
                ShellState { last: 0, ..st }
            },
            None => ShellState { last: 0, ..st },
        }
    } else if starts_with(line, seq!['m', 'v', ' ']) {
        match split_once_spec(line.skip(3), ' ') {
            Some((from, to)) => if st.files.contains_key(unquoted(from)) {
                ShellState {
                    last: 0,
                    files: st.files.remove(unquoted(from)).insert(unquoted(to), st.files[unquoted(from)]),
                    ..st
                }
            } else {
                ShellState { last: 1, ..st }
            },
            None => ShellState { last: 1, ..st },
        }
    } else if starts_with(line, seq!['e', 'x', 'i', 't', ' ']) {
        ShellState { exited: true, ..st }
    } else {
        match split_once_spec(line, '=') {
            Some((name, word)) => if name.len() > 0 {
                ShellState { last: 0, vars: st.vars.insert(name, word_expansion(word, st)), ..st }
            } else {
                ShellState { last: 127, ..st }
            },
            None => ShellState { last: 127, ..st },
        }
    }
}

/// What `sh` does with a script of such lines, one per line, until it exits.
pub open spec fn run_script(script: Seq<char>, st: ShellState) -> ShellState
    decreases script.len(),
{
    if st.exited || script.len() == 0 {
        st
    } else {
        let k = first_pos(script, '\n');
        if 0 <= k < script.len() {
            run_script(script.skip(k + 1), run_command_line(script.take(k), st))
        } else {
            run_command_line(script, st)
        }
    }
}

} // verus!
