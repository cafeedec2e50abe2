//! The command templater: from a template, a replacement token and the paths
//! of a batch's files to the command that is handed to the shell.
//!
//! Every occurrence of the token in the template is replaced by the paths,
//! each escaped for the shell and separated from the next by one space.

use crate::text::chars_of;
use crate::text::push_char;
use vstd::prelude::*;
use vstd::string::*;

verus! {

/// Whether the shell reads `c` as itself wherever it stands in a word.
pub open spec fn is_plain(c: char) -> bool {
    ||| 'a' <= c <= 'z'
    ||| 'A' <= c <= 'Z'
    ||| '0' <= c <= '9'
    ||| c == '-'
    ||| c == '_'
    ||| c == '='
    ||| c == '/'
    ||| c == ','
    ||| c == '.'
    ||| c == '+'
}

/// Whether a text has to be put in quotes: it is empty, or some character of
/// it is not plain.
pub open spec fn needs_quotes(text: Seq<char>) -> bool {
    text.len() == 0 || exists|i: int| 0 <= i < text.len() && !is_plain(#[trigger] text[i])
}

/// What stands for `c` between single quotes. A single quote and an
/// exclamation mark close the quotes, stand behind a backslash, and open the
/// quotes again.
pub open spec fn quoted_char(c: char) -> Seq<char> {
    if c == '\'' || c == '!' {
        seq!['\'', '\\', c, '\'']
    } else {
        seq![c]
    }
}

/// What stands for `text` between single quotes.
pub open spec fn quoted_chars(text: Seq<char>) -> Seq<char>
    decreases text.len(),
{
    if text.len() == 0 {
        Seq::empty()
    } else {
        quoted_chars(text.drop_last()) + quoted_char(text.last())
    }
}

/// `text` as one word of a shell command: unchanged where every character is
/// plain, and between single quotes otherwise.
pub open spec fn shell_escaped(text: Seq<char>) -> Seq<char> {
    if needs_quotes(text) {
        seq!['\''] + quoted_chars(text) + seq!['\'']
    } else {
        text
    }
}

/// The parts in order, with `separator` between each two neighbours.
pub open spec fn joined(parts: Seq<Seq<char>>, separator: Seq<char>) -> Seq<char>
    decreases parts.len(),
{
    if parts.len() == 0 {
        Seq::empty()
    } else if parts.len() == 1 {
        parts[0]
    } else {
        joined(parts.drop_last(), separator) + separator + parts.last()
    }
}

/// The paths as words of a shell command: each escaped, one space between
/// each two.
pub open spec fn path_words(paths: Seq<Seq<char>>) -> Seq<char> {
    joined(paths.map_values(|path: Seq<char>| shell_escaped(path)), seq![' '])
}

/// `text` with every occurrence of `token` replaced by `with`. Occurrences
/// are found from left to right and do not overlap. The empty token occurs
/// before every character and at the end.
pub open spec fn replace_all(text: Seq<char>, token: Seq<char>, with: Seq<char>) -> Seq<char>
    decreases text.len(),
{
    if text.len() == 0 {
        if token.len() == 0 {
            with
        } else {
            text
        }
    } else if token.len() == 0 {
        with + seq![text[0]] + replace_all(text.drop_first(), token, with)
    } else if token.is_prefix_of(text) {
        with + replace_all(text.skip(token.len() as int), token, with)
    } else {
        seq![text[0]] + replace_all(text.drop_first(), token, with)
    }
}

/// The command for a batch whose files are at `paths`.
pub open spec fn rendered(template: Seq<char>, token: Seq<char>, paths: Seq<Seq<char>>) -> Seq<
    char,
> {
    replace_all(template, token, path_words(paths))
}

/// Whether `token` stands somewhere in `text`.
pub open spec fn occurs_in(token: Seq<char>, text: Seq<char>) -> bool {
    exists|at: int| 0 <= at <= text.len() && token.is_prefix_of(#[trigger] text.skip(at))
}

/// A template in which the token does not occur is left as it is.
pub proof fn lemma_template_without_token(text: Seq<char>, token: Seq<char>, with: Seq<char>)
    requires
        !occurs_in(token, text),
    ensures
        replace_all(text, token, with) == text,
    decreases text.len(),
{
    assert(text.skip(0) == text);
    assert(!token.is_prefix_of(text.skip(0)));
    if text.len() != 0 {
        let rest = text.drop_first();
        assert forall|at: int| 0 <= at <= rest.len() implies !token.is_prefix_of(
            #[trigger] rest.skip(at),
        ) by {
            assert(rest.skip(at) == text.skip(at + 1));
        }
        lemma_template_without_token(rest, token, with);
        assert(seq![text[0]] + rest == text);
    }
}

/// Up to the end of the first occurrence of the token, a template is left as
/// it is but for that occurrence, which is replaced. What follows it is
/// treated in the same way, so every occurrence is replaced alike.
pub proof fn lemma_first_occurrence_replaced(
    before: Seq<char>,
    token: Seq<char>,
    after: Seq<char>,
    with: Seq<char>,
)
    requires
        token.len() > 0,
        forall|at: int|
            0 <= at < before.len() ==> !token.is_prefix_of(
                #[trigger] (before + token + after).skip(at),
            ),
    ensures
        replace_all(before + token + after, token, with) == before + with + replace_all(
            after,
            token,
            with,
        ),
    decreases before.len(),
{
    let whole = before + token + after;
    if before.len() == 0 {
        assert(whole.subrange(0, token.len() as int) == token);
        assert(whole.skip(token.len() as int) == after);
        assert(before + with == with);
    } else {
        let shorter = before.drop_first();
        let rest = shorter + token + after;
        assert(whole.skip(0) == whole);
        assert(whole.drop_first() == rest);
        assert forall|at: int| 0 <= at < shorter.len() implies !token.is_prefix_of(
            #[trigger] rest.skip(at),
        ) by {
            assert(rest.skip(at) == whole.skip(at + 1));
        }
        lemma_first_occurrence_replaced(shorter, token, after, with);
        assert(seq![whole[0]] + (shorter + with + replace_all(after, token, with)) == before + with
            + replace_all(after, token, with));
    }
}

/// Escapes one path for a POSIX shell.
///
/// Calls `shell_escape::unix::escape`. That function hands back a text made
/// of the characters `a-z`, `A-Z`, `0-9` and `-_=/,.+` alone as it is, unless
/// the text is empty. Any other text it puts between single quotes; inside
/// them it writes a single quote as `'\''` and an exclamation mark as `'\!'`,
/// and every other character as it is.
#[verifier::external_body]
fn escape_path(path: &str) -> (escaped: String)
    ensures
        escaped@ == shell_escaped(path@),
{
    shell_escape::unix::escape(std::borrow::Cow::Borrowed(path)).into_owned()
}

/// The paths as words of a shell command: each escaped so that the shell
/// reads it as one word, with one space between each two.
pub fn escape_paths(paths: &Vec<String>) -> (words: String)
    ensures
        words@ == path_words(paths.deep_view()),
{
    let ghost escaped = paths.deep_view().map_values(|path: Seq<char>| shell_escaped(path));
    let mut words = String::new();
    let mut i: usize = 0;
    while i < paths.len()
        invariant
            i <= paths.len(),
            escaped == paths.deep_view().map_values(|path: Seq<char>| shell_escaped(path)),
            words@ == joined(escaped.take(i as int), seq![' ']),
        decreases paths.len() - i,
    {
        let word = escape_path(paths[i].as_str());
        proof {
            assert(escaped.take(i + 1).drop_last() == escaped.take(i as int));
            assert(escaped.take(i + 1).last() == word@);
            assert(words@ + Seq::<char>::empty() == words@);
        }
        if i > 0 {
            push_char(&mut words, ' ');
            assert(words@ == joined(escaped.take(i as int), seq![' ']) + seq![' ']);
        }
        words.append(word.as_str());
        i = i + 1;
    }
    assert(escaped.take(paths.len() as int) == escaped);
    words
}

/// Whether `token` stands in `text` at position `at`.
fn matches_at(text: &Vec<char>, at: usize, token: &Vec<char>) -> (found: bool)
    requires
        at <= text.len(),
    ensures
        found == token@.is_prefix_of(text@.skip(at as int)),
{
    if token.len() > text.len() - at {
        return false;
    }
    let mut k: usize = 0;
    while k < token.len()
        invariant
            k <= token.len(),
            at + token.len() <= text.len(),
            forall|j: int| 0 <= j < k ==> token@[j] == text@[at + j],
        decreases token.len() - k,
    {
        if token[k] != text[at + k] {
            assert(text@.skip(at as int).subrange(0, token@.len() as int)[k as int]
                != token@[k as int]);
            return false;
        }
        k = k + 1;
    }
    assert(token@ =~= text@.skip(at as int).subrange(0, token@.len() as int));
    true
}

/// `template` with every occurrence of `token` replaced by `with`.
///
/// Occurrences are found from left to right and do not overlap. A template
/// without the token comes back unchanged. The empty token occurs before
/// every character of the template and at its end.
pub fn replace_token(template: &str, token: &str, with: &str) -> (out: String)
    ensures
        out@ == replace_all(template@, token@, with@),
{
    let text = chars_of(template);
    let mark = chars_of(token);
    let mut out = String::new();
    let mut i: usize = 0;
    proof {
        let whole = replace_all(text@, mark@, with@);
        assert(text@.skip(0) == text@);
        assert(Seq::<char>::empty() + whole == whole);
    }
    while i < text.len()
        invariant
            i <= text.len(),
            text@ == template@,
            mark@ == token@,
            out@ + replace_all(text@.skip(i as int), mark@, with@) == replace_all(
                text@,
                mark@,
                with@,
            ),
        decreases text.len() - i,
    {
        let ghost rest = text@.skip(i as int);
        if mark.len() == 0 {
            out.append(with);
            push_char(&mut out, text[i]);
            proof {
                assert(rest.drop_first() == text@.skip(i + 1));
                assert(rest[0] == text@[i as int]);
            }
            i = i + 1;
        } else if matches_at(&text, i, &mark) {
            out.append(with);
            proof {
                assert(rest.skip(mark@.len() as int) == text@.skip(i + mark@.len()));
            }
            i = i + mark.len();
        } else {
            push_char(&mut out, text[i]);
            proof {
                assert(rest.drop_first() == text@.skip(i + 1));
                assert(rest[0] == text@[i as int]);
            }
            i = i + 1;
        }
    }
    assert(text@.skip(text@.len() as int) == Seq::<char>::empty());
    if mark.len() == 0 {
        out.append(with);
    }
    out
}

/// The command for a batch: `template` with every occurrence of `token`
/// replaced by the escaped paths.
pub fn render_command(template: &str, token: &str, paths: &Vec<String>) -> (command: String)
    ensures
        command@ == rendered(template@, token@, paths.deep_view()),
{
    let words = escape_paths(paths);
    replace_token(template, token, words.as_str())
}

} // verus!
