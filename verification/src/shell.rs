//! Words as a POSIX shell reads and writes them.

use vstd::prelude::*;

use crate::print::{harmless, law_sanitized_keeps_harmless, sanitized};
use crate::text::{
    alphanumeric, chars_of, concat3, is_alphanumeric, is_control, joined, lemma_joined_append,
    lemma_joined_first, push_text, replace, replaced, texts,
};

verus! {

/// The characters that a shell takes as they are.
pub open spec fn is_plain(c: char) -> bool {
    ||| is_alphanumeric(c)
    ||| c == '@' || c == '%' || c == '+' || c == '=' || c == ':'
    ||| c == ',' || c == '.' || c == '/' || c == '-' || c == '_'
}

/// A text of characters that a shell takes as they are.
pub open spec fn is_plain_text(s: Seq<char>) -> bool {
    forall|i: int| 0 <= i < s.len() ==> is_plain(#[trigger] s[i])
}

/// A word as it is written in a shell: as it is, or in single quotes, where a
/// single quote of the word stands outside of them.
pub open spec fn escaped(word: Seq<char>) -> Seq<char> {
    if word.len() > 0 && is_plain_text(word) {
        word
    } else {
        "'"@ + replaced(word, '\'', "'\\''"@) + "'"@
    }
}

fn plain(c: char) -> (r: bool)
    ensures
        r == is_plain(c),
{
    alphanumeric(c) || c == '@' || c == '%' || c == '+' || c == '=' || c == ':' || c == ',' || c
        == '.' || c == '/' || c == '-' || c == '_'
}

/// A word as it is written in a shell.
pub fn shell_escape(token: &str) -> (out: String)
    ensures
        out@ == escaped(token@),
{
    let a: Vec<char> = chars_of(token);
    let mut as_it_is: bool = a.len() > 0;
    for i in 0..a.len()
        invariant
            a@ == token@,
            as_it_is == (a@.len() > 0 && forall|j: int|
                0 <= j < i ==> is_plain(#[trigger] a@[j])),
    {
        if !plain(a[i]) {
            as_it_is = false;
        }
    }
    if as_it_is {
        token.to_string()
    } else {
        concat3("'", replace(token, '\'', "'\\''").as_str(), "'")
    }
}

/// The words that a shell reads in a text, after it has read the start of a word,
/// inside of single quotes or not. It knows spaces between words, single quotes,
/// backslashes and the characters that it takes as they are; `None` stands for
/// anything else, and for quotes that are not closed.
pub open spec fn read_on(s: Seq<char>, quoted: bool, start: Seq<char>) -> Option<Seq<Seq<char>>>
    decreases s.len(),
{
    if s.len() == 0 {
        if quoted {
            None
        } else {
            Some(seq![start])
        }
    } else if s[0] == '\'' {
        read_on(s.skip(1), !quoted, start)
    } else if quoted || is_plain(s[0]) {
        read_on(s.skip(1), quoted, start.push(s[0]))
    } else if s[0] == '\\' && s.len() > 1 && s[1] != '\n' {
        read_on(s.skip(2), false, start.push(s[1]))
    } else if s[0] == ' ' {
        match read_on(s.skip(1), false, Seq::empty()) {
            Some(rest) => Some(seq![start] + rest),
            None => None,
        }
    } else {
        None
    }
}

/// The words that a shell reads in a line.
pub open spec fn read_words(line: Seq<char>) -> Option<Seq<Seq<char>>> {
    read_on(line, false, Seq::empty())
}

/// How replacing goes from a text's first character on.
proof fn lemma_replaced_first(s: Seq<char>, from: char, to: Seq<char>)
    requires
        s.len() > 0,
    ensures
        replaced(s, from, to) == (if s[0] == from {
            to
        } else {
            seq![s[0]]
        }) + replaced(s.skip(1), from, to),
    decreases s.len(),
{
    let head = if s[0] == from {
        to
    } else {
        seq![s[0]]
    };
    reveal_with_fuel(replaced, 2);
    if s.len() == 1 {
        assert(s.drop_last() =~= Seq::empty());
        assert(s.skip(1) =~= Seq::empty());
        assert(replaced(s, from, to) =~= head + Seq::empty());
    } else {
        lemma_replaced_first(s.drop_last(), from, to);
        assert(s.drop_last().skip(1) =~= s.skip(1).drop_last());
        assert(s.skip(1).last() == s.last());
        let tail = if s.last() == from {
            to
        } else {
            seq![s.last()]
        };
        assert(replaced(s, from, to) =~= head + (replaced(s.skip(1).drop_last(), from, to)
            + tail));
    }
}

/// What stands in single quotes is read as what was put there.
proof fn lemma_quoted_reads_back(word: Seq<char>, rest: Seq<char>, start: Seq<char>)
    ensures
        read_on(replaced(word, '\'', "'\\''"@) + ("'"@ + rest), true, start) == read_on(
            rest,
            false,
            start + word,
        ),
    decreases word.len(),
{
    reveal_strlit("'");
    reveal_strlit("'\\''");
    let close = "'"@ + rest;
    let text = replaced(word, '\'', "'\\''"@) + close;
    if word.len() == 0 {
        assert(text =~= close);
        assert(text.skip(1) =~= rest);
        assert(start + word =~= start);
    } else {
        let tail = word.skip(1);
        let after = replaced(tail, '\'', "'\\''"@) + close;
        lemma_replaced_first(word, '\'', "'\\''"@);
        lemma_quoted_reads_back(tail, rest, start.push(word[0]));
        assert(start.push(word[0]) + tail =~= start + word);
        if word[0] == '\'' {
            assert(text =~= "'\\''"@ + after);
            let t1 = text.skip(1);
            let t3 = t1.skip(2);
            assert(text[0] == '\'');
            assert(t1[0] == '\\' && t1[1] == '\'');
            assert(t3[0] == '\'');
            assert(t3.skip(1) =~= after);
            assert(read_on(t3, false, start.push('\'')) == read_on(
                after,
                true,
                start.push('\''),
            ));
            assert(read_on(t1, false, start) == read_on(t3, false, start.push('\'')));
            assert(read_on(text, true, start) == read_on(t1, false, start));
        } else {
            assert(text =~= seq![word[0]] + after);
            assert(text.skip(1) =~= after);
        }
    }
}

/// Plain characters are read as they are.
proof fn lemma_plain_reads_back(word: Seq<char>, rest: Seq<char>, start: Seq<char>)
    requires
        is_plain_text(word),
    ensures
        read_on(word + rest, false, start) == read_on(rest, false, start + word),
    decreases word.len(),
{
    if word.len() == 0 {
        assert(word + rest =~= rest);
        assert(start + word =~= start);
    } else {
        let tail = word.skip(1);
        assert forall|i: int| 0 <= i < tail.len() implies is_plain(#[trigger] tail[i]) by {
            assert(word[i + 1] == tail[i]);
        }
        lemma_plain_reads_back(tail, rest, start.push(word[0]));
        assert(is_plain(word[0]));
        assert((word + rest).skip(1) =~= tail + rest);
        assert(start.push(word[0]) + tail =~= start + word);
    }
}

/// Sanitizing and quoting do not get in each other's way.
proof fn lemma_sanitized_replaced(word: Seq<char>)
    ensures
        sanitized(replaced(word, '\'', "'\\''"@)) == replaced(
            sanitized(word),
            '\'',
            "'\\''"@,
        ),
    decreases word.len(),
{
    let to = "'\\''"@;
    reveal(Seq::filter);
    if word.len() > 0 {
        let init = word.drop_last();
        let last = word.last();
        lemma_sanitized_replaced(init);
        let tail = if last == '\'' {
            to
        } else {
            seq![last]
        };
        Seq::filter_distributes_over_add(replaced(init, '\'', to), tail, harmless());
        reveal_strlit("'\\''");
        if last == '\'' {
            law_sanitized_keeps_harmless(to);
        } else if !is_control(last) {
            law_sanitized_keeps_harmless(seq![last]);
        } else {
            let one = seq![last];
            assert(one.drop_last() =~= Seq::empty());
            assert(sanitized(Seq::empty()) =~= Seq::empty());
            assert(!harmless()(one.last()));
            assert(sanitized(one) =~= Seq::empty());
            assert(sanitized(word) == sanitized(init));
        }
        if !is_control(last) {
            let kept = sanitized(init).push(last);
            assert(kept.drop_last() =~= sanitized(init));
            assert(sanitized(word) == kept);
        }
    }
}

/// An escaped word, sanitized, is read as the word without its control
/// characters.
proof fn lemma_escaped_reads_back(word: Seq<char>, rest: Seq<char>, start: Seq<char>)
    ensures
        read_on(escaped(word) + rest, false, start) == read_on(rest, false, start + word),
        read_on(sanitized(escaped(word)) + rest, false, start) == read_on(
            rest,
            false,
            start + sanitized(word),
        ),
{
    if word.len() > 0 && is_plain_text(word) {
        assert forall|i: int| 0 <= i < word.len() implies !is_control(#[trigger] word[i]) by {
            assert(is_plain(word[i]));
        }
        law_sanitized_keeps_harmless(word);
        lemma_plain_reads_back(word, rest, start);
    } else {
        reveal_strlit("'");
        let inner = replaced(word, '\'', "'\\''"@);
        law_sanitized_keeps_harmless("'"@);
        Seq::filter_distributes_over_add("'"@ + inner, "'"@, harmless());
        Seq::filter_distributes_over_add("'"@, inner, harmless());
        lemma_sanitized_replaced(word);
        lemma_quotes_read_back(word, rest, start);
        lemma_quotes_read_back(sanitized(word), rest, start);
    }
}

/// A word in single quotes is read as the word.
proof fn lemma_quotes_read_back(word: Seq<char>, rest: Seq<char>, start: Seq<char>)
    ensures
        read_on("'"@ + replaced(word, '\'', "'\\''"@) + "'"@ + rest, false, start) == read_on(
            rest,
            false,
            start + word,
        ),
{
    reveal_strlit("'");
    let inner = replaced(word, '\'', "'\\''"@);
    let text = "'"@ + inner + "'"@ + rest;
    assert(text[0] == '\'');
    assert(text.skip(1) =~= inner + ("'"@ + rest));
    lemma_quoted_reads_back(word, rest, start);
}

/// A shell reads an escaped word as the word itself.
pub proof fn law_escaped_reads_back(word: Seq<char>)
    ensures
        read_words(escaped(word)) == Some(seq![word]),
{
    lemma_escaped_reads_back(word, Seq::empty(), Seq::empty());
    assert(escaped(word) + Seq::<char>::empty() =~= escaped(word));
    assert(Seq::<char>::empty() + word =~= word);
}

/// A word is written as it is where it is not empty and holds nothing but plain
/// characters, and in quotes otherwise.
pub proof fn law_plain_words_are_written_as_they_are(word: Seq<char>)
    ensures
        escaped(word) == word <==> word.len() > 0 && is_plain_text(word),
{
    reveal_strlit("'");
    lemma_replaced_grows(word);
}

/// Quoting does not make a word shorter.
proof fn lemma_replaced_grows(word: Seq<char>)
    ensures
        replaced(word, '\'', "'\\''"@).len() >= word.len(),
    decreases word.len(),
{
    reveal_strlit("'\\''");
    if word.len() > 0 {
        lemma_replaced_grows(word.drop_last());
    }
}

/// The words of a command, each as it is written in a shell.
pub open spec fn escaped_all(words: Seq<Seq<char>>) -> Seq<Seq<char>> {
    words.map_values(|w: Seq<char>| escaped(w))
}

/// The words, each without its control characters.
pub open spec fn sanitized_all(words: Seq<Seq<char>>) -> Seq<Seq<char>> {
    words.map_values(|w: Seq<char>| sanitized(w))
}

/// The line that a user can paste into a shell to run a command. It is made
/// harmless to a terminal.
pub open spec fn shell_line(words: Seq<Seq<char>>) -> Seq<char> {
    sanitized(joined(escaped_all(words), " "@))
}

/// An escaped word before a line is read as one more word.
proof fn lemma_next_word_reads_back(word: Seq<char>, line: Seq<char>)
    ensures
        read_words(escaped(word) + " "@ + line) == match read_words(line) {
            Some(rest) => Some(seq![word] + rest),
            None => None,
        },
{
    reveal_strlit(" ");
    let after = " "@ + line;
    assert(escaped(word) + " "@ + line =~= escaped(word) + after);
    lemma_escaped_reads_back(word, after, Seq::empty());
    assert(Seq::<char>::empty() + word =~= word);
    assert(after[0] == ' ');
    assert(after.skip(1) =~= line);
}

/// A shell reads words that are escaped and joined by spaces as the words
/// themselves.
#[verifier::spinoff_prover]
pub proof fn law_escaped_words_read_back(words: Seq<Seq<char>>)
    requires
        words.len() > 0,
    ensures
        read_words(joined(escaped_all(words), " "@)) == Some(words),
    decreases words.len(),
{
    let first = words[0];
    assert(escaped_all(words)[0] == escaped(first));
    if words.len() == 1 {
        law_escaped_reads_back(first);
        assert(words =~= seq![first]);
    } else {
        let rest = words.skip(1);
        law_escaped_words_read_back(rest);
        lemma_joined_first(escaped_all(words), " "@);
        assert(escaped_all(words).skip(1) =~= escaped_all(rest));
        lemma_next_word_reads_back(first, joined(escaped_all(rest), " "@));
        assert(words =~= seq![first] + rest);
    }
}

/// How the line of a command goes on after its first word.
proof fn lemma_line_first(words: Seq<Seq<char>>)
    requires
        words.len() > 1,
    ensures
        shell_line(words) == sanitized(escaped(words[0])) + (" "@ + shell_line(words.skip(1))),
{
    let first = escaped(words[0]);
    let rest = words.skip(1);
    let tail = joined(escaped_all(rest), " "@);
    lemma_joined_first(escaped_all(words), " "@);
    assert(escaped_all(words).skip(1) =~= escaped_all(rest));
    reveal_strlit(" ");
    law_sanitized_keeps_harmless(" "@);
    Seq::filter_distributes_over_add(first + " "@, tail, harmless());
    Seq::filter_distributes_over_add(first, " "@, harmless());
    assert(sanitized(first) + " "@ + sanitized(tail) =~= sanitized(first) + (" "@ + sanitized(
        tail,
    )));
}

/// A word before a line is read as one more word.
proof fn lemma_first_word_reads_back(word: Seq<char>, line: Seq<char>)
    ensures
        read_words(sanitized(escaped(word)) + (" "@ + line)) == match read_words(line) {
            Some(rest) => Some(seq![sanitized(word)] + rest),
            None => None,
        },
{
    reveal_strlit(" ");
    let after = " "@ + line;
    lemma_escaped_reads_back(word, after, Seq::empty());
    assert(Seq::<char>::empty() + sanitized(word) =~= sanitized(word));
    assert(after[0] == ' ');
    assert(after.skip(1) =~= line);
}

/// A shell reads the line of a command as the words of the command, each
/// without its control characters.
pub proof fn law_line_reads_back(words: Seq<Seq<char>>)
    requires
        words.len() > 0,
    ensures
        read_words(shell_line(words)) == Some(sanitized_all(words)),
    decreases words.len(),
{
    let first = words[0];
    if words.len() == 1 {
        let none = Seq::<char>::empty();
        lemma_escaped_reads_back(first, none, none);
        assert(none + sanitized(first) =~= sanitized(first));
        assert(escaped_all(words)[0] == escaped(first));
        assert(shell_line(words) =~= sanitized(escaped(first)) + none);
        assert(sanitized_all(words) =~= seq![sanitized(first)]);
    } else {
        let rest = words.skip(1);
        law_line_reads_back(rest);
        lemma_line_first(words);
        lemma_first_word_reads_back(first, shell_line(rest));
        assert(sanitized_all(words) =~= seq![sanitized(first)] + sanitized_all(rest));
    }
}

/// The words of a command, each as it is written in a shell.
pub(crate) fn escape_all(list: &Vec<String>) -> (out: Vec<String>)
    ensures
        texts(out@) == escaped_all(texts(list@)),
{
    let ghost model = escaped_all(texts(list@));
    let mut out: Vec<String> = Vec::new();
    for i in 0..list.len()
        invariant
            model == escaped_all(texts(list@)),
            texts(out@) == model.take(i as int),
    {
        let word: String = shell_escape(list[i].as_str());
        push_text(&mut out, word.as_str());
        assert(model.take(i + 1) =~= model.take(i as int).push(word@));
    }
    assert(model.take(model.len() as int) =~= model);
    out
}

/// The words into which `shlex` splits a text; `None` where the text is not
/// valid in a shell.
pub uninterp spec fn shell_words(text: Seq<char>) -> Option<Seq<Seq<char>>>;

/// The contents of the words of a text.
pub open spec fn words(r: Option<Vec<String>>) -> Option<Seq<Seq<char>>> {
    match r {
        Some(list) => Some(texts(list@)),
        None => None,
    }
}

/// Trusted: `shlex::split` splits a text into words as a POSIX shell does, the
/// same for the same text. A text that starts with plain characters and goes on
/// with an escaped word is one word: the characters and the word. See `parse_word`
/// and `parse_single` of its iterator over bytes.
#[verifier::external_body]
fn split_words(text: &str) -> (r: Option<Vec<String>>)
    ensures
        words(r) == shell_words(text@),
        forall|start: Seq<char>, word: Seq<char>|
            is_plain_text(start) && text@ == #[trigger] (start + escaped(word)) ==> words(r)
                == Some(seq![start + word]),
{
    shlex::split(text)
}

/// The only word of a text, or the text itself where it is not one word.
pub open spec fn only_word(text: Seq<char>, list: Option<Seq<Seq<char>>>) -> Seq<char> {
    if list is Some && list->0.len() == 1 {
        list->0[0]
    } else {
        text
    }
}

/// The only word of a text that splits into these words, or the text itself.
pub fn only_word_of(text: &str, list: Option<Vec<String>>) -> (out: String)
    ensures
        out@ == only_word(text@, words(list)),
{
    match list {
        Some(list) => {
            if list.len() == 1 {
                assert(texts(list@)[0] == list@[0]@);
                list[0].clone()
            } else {
                text.to_string()
            }
        },
        None => text.to_string(),
    }
}

/// The word that a shell reads in a text, or the text itself where that is not
/// one word. An escaped word is one word, and it is the word that was escaped.
pub fn unescape(text: &str) -> (out: String)
    ensures
        out@ == only_word(text@, shell_words(text@)),
        forall|start: Seq<char>, word: Seq<char>|
            is_plain_text(start) && text@ == #[trigger] (start + escaped(word)) ==> out@ == start
                + word,
        forall|word: Seq<char>|
            text@ == #[trigger] escaped(word) ==> shell_words(text@) == Some(seq![word]) && out@
                == word,
{
    let list: Option<Vec<String>> = split_words(text);
    proof {
        let none = Seq::<char>::empty();
        assert forall|word: Seq<char>| text@ == #[trigger] escaped(word) implies shell_words(text@)
            == Some(seq![word]) by {
            assert(none + escaped(word) =~= escaped(word));
            assert(none + word =~= word);
        }
    }
    only_word_of(text, list)
}

/// The plain characters are the letters and digits of ASCII and ten more.
pub proof fn law_plain_characters(c: char)
    ensures
        is_plain(c) <==> {
            ||| 0x30 <= c as u32 <= 0x39
            ||| 0x41 <= c as u32 <= 0x5a
            ||| 0x61 <= c as u32 <= 0x7a
            ||| "@%+=:,./-_"@.contains(c)
        },
{
    reveal_strlit("@%+=:,./-_");
    let others = "@%+=:,./-_"@;
    assert(others.len() == 10);
    assert(others[0] == '@' && others[1] == '%' && others[2] == '+' && others[3] == '=');
    assert(others[4] == ':' && others[5] == ',' && others[6] == '.' && others[7] == '/');
    assert(others[8] == '-' && others[9] == '_');
}

/// A word that is empty or holds a character that is not plain is written in single
/// quotes, and every single quote of the word as `'\''`.
pub proof fn law_quoted_words(word: Seq<char>, i: int)
    requires
        word.len() == 0 || 0 <= i < word.len() && !is_plain(word[i]),
    ensures
        escaped(word) == "'"@ + replaced(word, '\'', "'\\''"@) + "'"@,
{
}

/// A line for a shell has each word as it is escaped, with a space between
/// neighbours, and then loses its control characters.
pub proof fn law_line_for_a_shell(a: Seq<Seq<char>>, b: Seq<Seq<char>>, word: Seq<char>)
    ensures
        shell_line(seq![word]) == sanitized(escaped(word)),
        a.len() > 0 && b.len() > 0 ==> shell_line(a + b) == shell_line(a) + " "@ + shell_line(b),
{
    assert(escaped_all(seq![word]) =~= seq![escaped(word)]);
    if a.len() > 0 && b.len() > 0 {
        let head = joined(escaped_all(a), " "@);
        let tail = joined(escaped_all(b), " "@);
        assert(escaped_all(a + b) =~= escaped_all(a) + escaped_all(b));
        lemma_joined_append(escaped_all(a), escaped_all(b), " "@);
        reveal_strlit(" ");
        law_sanitized_keeps_harmless(" "@);
        Seq::filter_distributes_over_add(head + " "@, tail, harmless());
        Seq::filter_distributes_over_add(head, " "@, harmless());
    }
}

/// A text that splits into one word stands for that word, and any other text for
/// itself.
pub proof fn law_only_word(text: Seq<char>, word: Seq<char>, list: Seq<Seq<char>>)
    ensures
        only_word(text, Some(seq![word])) == word,
        list.len() != 1 ==> only_word(text, Some(list)) == text,
        only_word(text, None) == text,
{
}

/// The contents of the words of a text are those of each word.
pub proof fn law_contents_of_words(list: Vec<String>)
    ensures
        words(Some(list)) == Some(texts(list@)),
        words(None) is None,
{
}

} // verus!
