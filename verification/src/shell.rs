//! How a POSIX shell reads the words that the templater writes.
//!
//! The shell cuts a command into words at blanks. Between single quotes
//! every character stands for itself, and so does the character after a
//! backslash outside quotes. This module states those rules for the
//! characters that the templater writes, and shows that the shell reads the
//! escaped paths of a batch back as the paths themselves, one word each.

use crate::template::is_plain;
use crate::template::joined;
use crate::template::needs_quotes;
use crate::template::path_words;
use crate::template::quoted_char;
use crate::template::quoted_chars;
use crate::template::shell_escaped;
use vstd::prelude::*;

verus! {

/// Where the shell stands with respect to quotes.
pub enum Quoting {
    /// Outside quotes.
    Bare,
    /// Between single quotes.
    Single,
    /// Outside quotes, just after a backslash.
    Escape,
}

/// What the shell has read of a command so far.
#[verifier::ext_equal]
pub struct Reading {
    /// The words that have ended.
    pub words: Seq<Seq<char>>,
    /// The word that is being read, where one has begun.
    pub word: Option<Seq<char>>,
    /// Where the shell stands with respect to quotes.
    pub quoting: Quoting,
    /// Whether every character read so far is one whose reading is stated
    /// here. It is not once a character with a meaning of its own was met
    /// outside quotes, such as `$`, `*`, `;` or a double quote.
    pub literal: bool,
}

/// Whether `c` separates words.
pub open spec fn is_blank(c: char) -> bool {
    c == ' ' || c == '\t' || c == '\n'
}

/// The word being read, or the empty word where none has begun.
pub open spec fn begun(word: Option<Seq<char>>) -> Seq<char> {
    match word {
        Some(text) => text,
        None => Seq::empty(),
    }
}

/// The words that have ended, and the word being read where one has begun.
pub open spec fn ended(words: Seq<Seq<char>>, word: Option<Seq<char>>) -> Seq<Seq<char>> {
    match word {
        Some(text) => words.push(text),
        None => words,
    }
}

/// The shell before it has read anything.
pub open spec fn nothing_read() -> Reading {
    Reading { words: Seq::empty(), word: None, quoting: Quoting::Bare, literal: true }
}

/// The shell after it has read `c`.
pub open spec fn read_char(state: Reading, c: char) -> Reading {
    if !state.literal {
        state
    } else {
        match state.quoting {
            Quoting::Single => if c == '\'' {
                Reading { quoting: Quoting::Bare, ..state }
            } else {
                Reading { word: Some(begun(state.word).push(c)), ..state }
            },
            Quoting::Escape => if c == '\n' {
                Reading { quoting: Quoting::Bare, ..state }
            } else {
                Reading {
                    word: Some(begun(state.word).push(c)),
                    quoting: Quoting::Bare,
                    ..state
                }
            },
            Quoting::Bare => if c == '\'' {
                Reading { word: Some(begun(state.word)), quoting: Quoting::Single, ..state }
            } else if c == '\\' {
                Reading { quoting: Quoting::Escape, ..state }
            } else if is_blank(c) {
                Reading { words: ended(state.words, state.word), word: None, ..state }
            } else if is_plain(c) {
                Reading { word: Some(begun(state.word).push(c)), ..state }
            } else {
                Reading { literal: false, ..state }
            },
        }
    }
}

/// The shell after it has read `text`.
pub open spec fn read_text(state: Reading, text: Seq<char>) -> Reading
    decreases text.len(),
{
    if text.len() == 0 {
        state
    } else {
        read_char(read_text(state, text.drop_last()), text.last())
    }
}

/// The words of `text`, where every character of it is one whose reading is
/// stated here and its quotes are closed.
pub open spec fn words_of(text: Seq<char>) -> Option<Seq<Seq<char>>> {
    let state = read_text(nothing_read(), text);
    if state.literal && state.quoting is Bare {
        Some(ended(state.words, state.word))
    } else {
        None
    }
}

/// To read two texts one after the other is to read the two as one.
pub proof fn lemma_read_concat(state: Reading, first: Seq<char>, second: Seq<char>)
    ensures
        read_text(state, first + second) == read_text(read_text(state, first), second),
    decreases second.len(),
{
    if second.len() == 0 {
        assert(first + second == first);
    } else {
        assert((first + second).drop_last() == first + second.drop_last());
        assert((first + second).last() == second.last());
        lemma_read_concat(state, first, second.drop_last());
    }
}

proof fn lemma_read_one(state: Reading, c: char)
    ensures
        read_text(state, seq![c]) == read_char(state, c),
{
    reveal_with_fuel(read_text, 2);
    assert(seq![c].drop_last() == Seq::<char>::empty());
}

/// Between single quotes, what the templater writes for `c` is read as `c`.
proof fn lemma_read_quoted_char(state: Reading, c: char)
    requires
        state.literal,
        state.quoting is Single,
    ensures
        read_text(state, quoted_char(c)) == (Reading {
            word: Some(begun(state.word).push(c)),
            ..state
        }),
{
    if c == '\'' || c == '!' {
        let close = seq!['\''];
        let slash = seq!['\\'];
        let it = seq![c];
        assert(quoted_char(c) == close + slash + it + close);
        lemma_read_concat(state, close + slash + it, close);
        lemma_read_concat(state, close + slash, it);
        lemma_read_concat(state, close, slash);
        lemma_read_one(state, '\'');
        let outside = read_text(state, close);
        lemma_read_one(outside, '\\');
        let escaping = read_text(outside, slash);
        lemma_read_one(escaping, c);
        let back = read_text(escaping, it);
        lemma_read_one(back, '\'');
    } else {
        lemma_read_one(state, c);
    }
}

/// Between single quotes, what the templater writes for `text` is read as
/// `text`.
proof fn lemma_read_quoted_chars(state: Reading, text: Seq<char>)
    requires
        state.literal,
        state.quoting is Single,
        state.word is Some,
    ensures
        read_text(state, quoted_chars(text)) == (Reading {
            word: Some(begun(state.word) + text),
            ..state
        }),
    decreases text.len(),
{
    if text.len() == 0 {
        assert(begun(state.word) + text == begun(state.word));
    } else {
        let front = text.drop_last();
        lemma_read_quoted_chars(state, front);
        lemma_read_concat(state, quoted_chars(front), quoted_char(text.last()));
        let mid = read_text(state, quoted_chars(front));
        lemma_read_quoted_char(mid, text.last());
        assert((begun(state.word) + front).push(text.last()) == begun(state.word) + text);
    }
}

/// Outside quotes, plain characters are read as themselves.
proof fn lemma_read_plain(state: Reading, text: Seq<char>)
    requires
        state.literal,
        state.quoting is Bare,
        text.len() > 0,
        forall|i: int| 0 <= i < text.len() ==> is_plain(#[trigger] text[i]),
    ensures
        read_text(state, text) == (Reading { word: Some(begun(state.word) + text), ..state }),
    decreases text.len(),
{
    let front = text.drop_last();
    let c = text.last();
    assert(is_plain(text[text.len() - 1]));
    if front.len() == 0 {
        assert(read_text(state, front) == state);
        assert(begun(state.word).push(c) == begun(state.word) + text);
    } else {
        assert forall|i: int| 0 <= i < front.len() implies is_plain(#[trigger] front[i]) by {
            assert(front[i] == text[i]);
        }
        lemma_read_plain(state, front);
        assert((begun(state.word) + front).push(c) == begun(state.word) + text);
    }
}

/// Where no word has begun, an escaped text is read as one word: the text.
pub proof fn lemma_read_escaped(state: Reading, text: Seq<char>)
    requires
        state.literal,
        state.quoting is Bare,
        state.word is None,
    ensures
        read_text(state, shell_escaped(text)) == (Reading { word: Some(text), ..state }),
{
    if needs_quotes(text) {
        let quote = seq!['\''];
        let body = quoted_chars(text);
        lemma_read_concat(state, quote + body, quote);
        lemma_read_concat(state, quote, body);
        lemma_read_one(state, '\'');
        let opened = read_text(state, quote);
        lemma_read_quoted_chars(opened, text);
        let filled = read_text(opened, body);
        lemma_read_one(filled, '\'');
        assert(Seq::<char>::empty() + text == text);
    } else {
        assert forall|i: int| 0 <= i < text.len() implies is_plain(#[trigger] text[i]) by {}
        lemma_read_plain(state, text);
        assert(Seq::<char>::empty() + text == text);
    }
}

/// What the shell has read after the escaped paths of a batch: every path
/// but the last as a word that has ended, and the last as the word being
/// read.
proof fn lemma_read_path_words(paths: Seq<Seq<char>>)
    requires
        paths.len() > 0,
    ensures
        read_text(nothing_read(), path_words(paths)) == (Reading {
            words: paths.drop_last(),
            word: Some(paths.last()),
            quoting: Quoting::Bare,
            literal: true,
        }),
    decreases paths.len(),
{
    let escape = |path: Seq<char>| shell_escaped(path);
    let parts = paths.map_values(escape);
    let space = seq![' '];
    if paths.len() == 1 {
        assert(parts[0] == shell_escaped(paths[0]));
        lemma_read_escaped(nothing_read(), paths[0]);
        assert(paths.drop_last() == Seq::<Seq<char>>::empty());
    } else {
        let front = paths.drop_last();
        assert(parts.drop_last() == front.map_values(escape));
        assert(parts.last() == shell_escaped(paths.last()));
        lemma_read_path_words(front);
        let head = joined(parts.drop_last(), space);
        lemma_read_concat(nothing_read(), head + space, parts.last());
        lemma_read_concat(nothing_read(), head, space);
        let before = read_text(nothing_read(), head);
        lemma_read_one(before, ' ');
        let between = read_text(before, space);
        assert(front.drop_last().push(front.last()) == front);
        lemma_read_escaped(between, paths.last());
    }
}

/// The shell reads the escaped paths of a batch back as the paths
/// themselves: one word for each path, whatever characters the path holds.
pub proof fn lemma_shell_reads_paths_back(paths: Seq<Seq<char>>)
    ensures
        words_of(path_words(paths)) == Some(paths),
{
    if paths.len() == 0 {
        assert(path_words(paths) == Seq::<char>::empty());
    } else {
        lemma_read_path_words(paths);
        assert(paths.drop_last().push(paths.last()) == paths);
    }
}

} // verus!
