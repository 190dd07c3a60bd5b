//! Quoting of text for a POSIX shell, and how the shell reads it back.

use vstd::prelude::*;

verus! {

/// Whether `c` may stand in a shell word as it is: a letter or digit of
/// ASCII, or one of `-_=/,.+`.
pub open spec fn is_plain(c: char) -> bool {
    ||| ('a' <= c && c <= 'z')
    ||| ('A' <= c && c <= 'Z')
    ||| ('0' <= c && c <= '9')
    ||| c == '-'
    ||| c == '_'
    ||| c == '='
    ||| c == '/'
    ||| c == ','
    ||| c == '.'
    ||| c == '+'
}

/// Whether every character of `s` may stand in a shell word as it is.
pub open spec fn all_plain(s: Seq<char>) -> bool {
    forall|i: int| 0 <= i < s.len() ==> is_plain(#[trigger] s[i])
}

/// What stands for `c` between single quotes. A single quote or an
/// exclamation mark leaves the quotes, is written behind a backslash, and
/// enters them again; any other character stands for itself.
pub open spec fn quoted_char(c: char) -> Seq<char> {
    if c == '\'' || c == '!' {
        seq!['\'', '\\', c, '\'']
    } else {
        seq![c]
    }
}

/// What stands for the characters of `s` between single quotes.
pub open spec fn quoted_chars(s: Seq<char>) -> Seq<char>
    decreases s.len(),
{
    if s.len() == 0 {
        Seq::<char>::empty()
    } else {
        quoted_char(s.first()) + quoted_chars(s.drop_first())
    }
}

/// The shell word that stands for `s`: `s` itself where it is not empty and
/// all its characters are plain, else `s` between single quotes.
pub open spec fn shell_quoted(s: Seq<char>) -> Seq<char> {
    if s.len() > 0 && all_plain(s) {
        s
    } else {
        seq!['\''] + quoted_chars(s) + seq!['\'']
    }
}

/// `c` in front of what `rest` holds, if it holds anything.
pub open spec fn preceded(c: char, rest: Option<Seq<char>>) -> Option<Seq<char>> {
    match rest {
        Some(v) => Some(seq![c] + v),
        None => None,
    }
}

/// The text that a POSIX shell takes from the characters `w` of a word, read
/// from inside single quotes (`quoted`) or from outside them. Inside quotes
/// every character but the closing quote stands for itself. Outside them a
/// quote opens, a backslash lets the next character stand for itself, and a
/// plain character stands for itself. `None` where the quotes are left open,
/// or where a character outside quotes is one that this model does not read.
pub open spec fn word_text(w: Seq<char>, quoted: bool) -> Option<Seq<char>>
    decreases w.len(),
{
    if w.len() == 0 {
        if quoted {
            None
        } else {
            Some(Seq::<char>::empty())
        }
    } else if quoted {
        if w[0] == '\'' {
            word_text(w.skip(1), false)
        } else {
            preceded(w[0], word_text(w.skip(1), true))
        }
    } else if w[0] == '\'' {
        word_text(w.skip(1), true)
    } else if w[0] == '\\' {
        if w.len() >= 2 && w[1] != '\n' {
            preceded(w[1], word_text(w.skip(2), false))
        } else {
            None
        }
    } else if is_plain(w[0]) {
        preceded(w[0], word_text(w.skip(1), false))
    } else {
        None
    }
}

/// The text that a POSIX shell takes from the word `w`. No characters are no
/// word.
pub open spec fn shell_reads(w: Seq<char>) -> Option<Seq<char>> {
    if w.len() == 0 {
        None
    } else {
        word_text(w, false)
    }
}

/// A run of plain characters is read as itself.
proof fn lemma_plain_reads_as_itself(s: Seq<char>)
    requires
        all_plain(s),
    ensures
        word_text(s, false) == Some(s),
    decreases s.len(),
{
    if s.len() > 0 {
        lemma_plain_reads_as_itself(s.skip(1));
    }
}

/// From inside quotes, what stands for `s` and the closing quote are read as
/// `s`.
proof fn lemma_quoted_chars_read_back(s: Seq<char>)
    ensures
        word_text(quoted_chars(s) + seq!['\''], true) == Some(s),
    decreases s.len(),
{
    let close = seq!['\''];
    if s.len() == 0 {
        let w = quoted_chars(s) + close;
        assert(word_text(w.skip(1), false) == Some(Seq::<char>::empty()));
    } else {
        let c = s.first();
        let rest = s.drop_first();
        let tail = quoted_chars(rest) + close;
        lemma_quoted_chars_read_back(rest);
        let w = quoted_chars(s) + close;
        if c == '\'' || c == '!' {
            // `w` is a quote, a backslash, `c`, a quote, and `tail`.
            assert(w.skip(1).skip(2).skip(1) =~= tail);
            assert(word_text(w.skip(1).skip(2), false) == Some(rest));
            assert(word_text(w.skip(1), false) == Some(s));
        } else {
            assert(w.skip(1) =~= tail);
        }
    }
}

/// What quoting writes, the shell reads back: for every text `s`, the word
/// that stands for `s` is read as `s`, whatever quotes, backslashes, dollar
/// signs or other characters `s` holds.
pub proof fn lemma_quoting_round_trips(s: Seq<char>)
    ensures
        shell_reads(shell_quoted(s)) == Some(s),
{
    if s.len() > 0 && all_plain(s) {
        lemma_plain_reads_as_itself(s);
    } else {
        let w = shell_quoted(s);
        assert(w.skip(1) =~= quoted_chars(s) + seq!['\'']);
        lemma_quoted_chars_read_back(s);
    }
}

/// `shell_escape::unix::escape`: the shell word that stands for `s`. The
/// crate hands `s` back where it is not empty and holds plain characters
/// only. Otherwise it puts `s` between single quotes, with each single quote
/// and each exclamation mark of `s` written as a quote, a backslash, the
/// character, and a quote.
#[verifier::external_body]
pub(crate) fn shell_quote(s: &str) -> (r: String)
    ensures
        r@ == shell_quoted(s@),
{
    shell_escape::unix::escape(std::borrow::Cow::Borrowed(s)).into_owned()
}

} // verus!
