//! Quoting of text for the command language of the POSIX shell.
//!
//! Paths that are handed to the privilege helper travel inside one command
//! string. Each one is put in single quotes, and a single quote inside it is
//! written as `'\''`, so that the shell reads back exactly the text that was
//! put in, whatever it holds.

use vstd::prelude::*;
use vstd::string::StringExecFns;

use crate::text::{chars_of, find_from, lemma_first_index};

verus! {

/// How one character is written inside single quotes.
pub open spec fn escaped_char(c: char) -> Seq<char> {
    if c == '\'' {
        seq!['\'', '\\', '\'', '\'']
    } else {
        seq![c]
    }
}

/// `s` with every single quote written as `'\''`.
pub open spec fn escaped(s: Seq<char>) -> Seq<char>
    decreases s.len(),
{
    if s.len() == 0 {
        Seq::empty()
    } else {
        escaped(s.drop_last()) + escaped_char(s.last())
    }
}

/// `s` as one word of a shell command: in single quotes, with every single
/// quote inside written as `'\''`.
pub open spec fn quoted(s: Seq<char>) -> Seq<char> {
    seq!['\''] + escaped(s) + seq!['\'']
}

/// What the shell makes of `w`, read from inside single quotes
/// (`in_quotes`) or from outside. Inside, every character up to the closing
/// quote stands for itself. Outside, only an opening quote and the pair `\'`
/// are allowed; on any other character, and where a quote is left open, the
/// result is `None`.
pub open spec fn shell_reads(w: Seq<char>, in_quotes: bool) -> Option<Seq<char>>
    decreases w.len(),
{
    if w.len() == 0 {
        if in_quotes {
            None
        } else {
            Some(Seq::empty())
        }
    } else if in_quotes {
        if w[0] == '\'' {
            shell_reads(w.drop_first(), false)
        } else {
            match shell_reads(w.drop_first(), true) {
                Some(rest) => Some(seq![w[0]] + rest),
                None => None,
            }
        }
    } else if w[0] == '\'' {
        shell_reads(w.drop_first(), true)
    } else if w[0] == '\\' && w.len() >= 2 && w[1] == '\'' {
        match shell_reads(w.subrange(2, w.len() as int), false) {
            Some(rest) => Some(seq!['\''] + rest),
            None => None,
        }
    } else {
        None
    }
}

/// Escaping goes through concatenation.
pub proof fn lemma_escaped_concat(a: Seq<char>, b: Seq<char>)
    ensures
        escaped(a + b) == escaped(a) + escaped(b),
    decreases b.len(),
{
    if b.len() == 0 {
        assert(a + b =~= a);
        assert(escaped(a) + escaped(b) =~= escaped(a));
    } else {
        lemma_escaped_concat(a, b.drop_last());
        assert((a + b).drop_last() =~= a + b.drop_last());
        assert((a + b).last() == b.last());
        assert(escaped(a + b) =~= escaped(a) + escaped(b));
    }
}

/// Text without a single quote is escaped as itself.
pub proof fn lemma_escaped_plain(s: Seq<char>)
    requires
        forall|i: int| 0 <= i < s.len() ==> s[i] != '\'',
    ensures
        escaped(s) == s,
    decreases s.len(),
{
    if s.len() > 0 {
        lemma_escaped_plain(s.drop_last());
        assert(escaped(s) =~= s);
    }
}

proof fn lemma_reads_escaped(s: Seq<char>, tail: Seq<char>)
    requires
        shell_reads(tail, true) is Some,
    ensures
        shell_reads(escaped(s) + tail, true) == Some(s + shell_reads(tail, true)->0),
    decreases s.len(),
{
    let end = shell_reads(tail, true)->0;
    if s.len() == 0 {
        assert(escaped(s) + tail =~= tail);
        assert(s + end =~= end);
    } else {
        let c = s[0];
        let t = s.drop_first();
        lemma_reads_escaped(t, tail);
        assert(seq![c] + t =~= s);
        lemma_escaped_concat(seq![c], t);
        assert(seq![c].drop_last() =~= Seq::<char>::empty());
        assert(seq![c].last() == c);
        assert(escaped(Seq::<char>::empty()) =~= Seq::<char>::empty());
        assert(escaped(seq![c]) =~= escaped_char(c));
        let w = escaped(s) + tail;
        let rest = escaped(t) + tail;
        assert(w =~= escaped_char(c) + rest);
        if c == '\'' {
            // The quote closes, `\'` stands for the quote, and a quote opens again.
            let w1 = w.drop_first();
            assert(w1 =~= seq!['\\', '\'', '\''] + rest);
            let w2 = w1.subrange(2, w1.len() as int);
            assert(w2 =~= seq!['\''] + rest);
            assert(w2.drop_first() =~= rest);
            assert(shell_reads(w2, false) == shell_reads(rest, true));
            assert(shell_reads(w1, false) == Some(seq!['\''] + (t + end)));
            assert(seq!['\''] + (t + end) =~= s + end);
        } else {
            assert(w.drop_first() =~= rest);
            assert(seq![c] + (t + end) =~= s + end);
        }
    }
}

/// The shell reads the quoted form of any text back as that text.
pub proof fn lemma_quoted_reads_back(s: Seq<char>)
    ensures
        shell_reads(quoted(s), false) == Some(s),
{
    let close = seq!['\''];
    assert(close.drop_first() =~= Seq::<char>::empty());
    assert(shell_reads(Seq::<char>::empty(), false) == Some(Seq::<char>::empty()));
    assert(shell_reads(close, true) == Some(Seq::<char>::empty()));
    lemma_reads_escaped(s, close);
    let w = quoted(s);
    assert(w.drop_first() =~= escaped(s) + close);
    assert(s + Seq::<char>::empty() =~= s);
}

/// `s` as one word of a shell command.
pub fn shell_quote(s: &str) -> (r: String)
    ensures
        r@ == quoted(s@),
{
    let text = chars_of(s);
    let n = text.len();
    let mut r = "'".to_owned();
    let mut pos: usize = 0;
    proof {
        reveal_strlit("'");
        reveal_strlit("'\\''");
        assert(r@ =~= seq!['\''] + escaped(text@.subrange(0, 0)));
    }
    while pos < n
        invariant
            n == text@.len(),
            text@ == s@,
            pos <= n,
            r@ == seq!['\''] + escaped(text@.subrange(0, pos as int)),
        decreases n - pos,
    {
        let quote = find_from(&text, pos, '\'');
        let ghost run = text@.subrange(pos as int, quote as int);
        proof {
            lemma_first_index(text@.subrange(pos as int, n as int), '\'');
            assert forall|i: int| 0 <= i < run.len() implies run[i] != '\'' by {
                assert(run[i] == text@.subrange(pos as int, n as int)[i]);
            }
            lemma_escaped_plain(run);
            lemma_escaped_concat(text@.subrange(0, pos as int), run);
            assert(text@.subrange(0, pos as int) + run =~= text@.subrange(0, quote as int));
        }
        r.append(s.substring_char(pos, quote));
        if quote < n {
            proof {
                reveal_strlit("'\\''");
                let upto = text@.subrange(0, quote + 1);
                assert(upto.drop_last() =~= text@.subrange(0, quote as int));
                assert(upto.last() == '\'');
                assert("'\\''"@ =~= escaped_char('\''));
            }
            r.append("'\\''");
            pos = quote + 1;
        } else {
            pos = quote;
        }
    }
    proof {
        reveal_strlit("'");
        assert(text@.subrange(0, pos as int) =~= text@);
    }
    r.append("'");
    r
}

} // verus!
