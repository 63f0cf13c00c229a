//! The lines that report progress on standard error.
//!
//! A [`Print`] makes a line out of an icon and a message, or none where it is
//! quiet. What must be shown in any case (the verdict, a question to the user)
//! is made by a `Print` that is not quiet.

use vstd::prelude::*;

use crate::seqs::{lemma_filter_one, lemma_filter_step};
use crate::text::{chars_of, concat2, concat3, control, is_control, opt_text, texts};

verus! {

/// A maker of lines.
#[derive(Clone, Copy)]
pub struct Print {
    pub quiet: bool,
}

/// A line: an icon, a space and a message.
pub open spec fn line(icon: Seq<char>, message: Seq<char>) -> Seq<char> {
    icon + " "@ + message
}

/// The line, where the output is not quiet.
pub open spec fn shown(quiet: bool, text: Seq<char>) -> Option<Seq<char>> {
    if quiet {
        None
    } else {
        Some(text)
    }
}

/// A line that informs.
pub open spec fn info(message: Seq<char>) -> Seq<char> {
    line("ℹ️"@, message)
}

/// A line that reports a success.
pub open spec fn check(message: Seq<char>) -> Seq<char> {
    line("✅"@, message)
}

/// A line that warns.
pub open spec fn warn(message: Seq<char>) -> Seq<char> {
    line("⚠️"@, message)
}

/// A line that continues the one before.
pub open spec fn blank(message: Seq<char>) -> Seq<char> {
    line("  "@, message)
}

impl Print {
    /// A maker of lines, or of none where `quiet` holds.
    pub fn new(quiet: bool) -> (print: Print)
        ensures
            print.quiet == quiet,
    {
        Print { quiet }
    }

    fn emit(&self, icon: &str, message: &str) -> (r: Option<String>)
        ensures
            opt_text(r) == shown(self.quiet, line(icon@, message@)),
    {
        if self.quiet {
            None
        } else {
            Some(concat3(icon, " ", message))
        }
    }

    /// A line that informs.
    pub fn infoln(&self, message: &str) -> (r: Option<String>)
        ensures
            opt_text(r) == shown(self.quiet, info(message@)),
    {
        self.emit("ℹ️", message)
    }

    /// A line that reports a success.
    pub fn checkln(&self, message: &str) -> (r: Option<String>)
        ensures
            opt_text(r) == shown(self.quiet, check(message@)),
    {
        self.emit("✅", message)
    }

    /// A line that warns.
    pub fn warnln(&self, message: &str) -> (r: Option<String>)
        ensures
            opt_text(r) == shown(self.quiet, warn(message@)),
    {
        self.emit("⚠️", message)
    }

    /// A line that continues the one before, with no icon.
    pub fn blankln(&self, message: &str) -> (r: Option<String>)
        ensures
            opt_text(r) == shown(self.quiet, blank(message@)),
    {
        self.emit("  ", message)
    }

    /// A question, to be written without a line feed.
    pub fn question(&self, message: &str) -> (r: Option<String>)
        ensures
            opt_text(r) == shown(self.quiet, line("❓"@, message@)),
    {
        self.emit("❓", message)
    }
}

/// The lines after one more was made.
pub open spec fn said(lines: Seq<Seq<char>>, line: Option<Seq<char>>) -> Seq<Seq<char>> {
    match line {
        Some(line) => lines.push(line),
        None => lines,
    }
}

/// Appends a line to those that are to be written, where there is one.
pub(crate) fn say(lines: &mut Vec<String>, line: Option<String>)
    ensures
        texts(final(lines)@) == said(texts(old(lines)@), opt_text(line)),
{
    let ghost before = texts(lines@);
    if let Some(line) = line {
        lines.push(line);
        assert(texts(lines@) =~= before.push(line@));
    }
}

/// The test for characters that a terminal does not act on.
pub open spec fn harmless() -> spec_fn(char) -> bool {
    |c: char| !is_control(c)
}

/// The test for characters that a terminal does not act on, and line feeds.
pub open spec fn harmless_or_feed() -> spec_fn(char) -> bool {
    |c: char| c == '\n' || !is_control(c)
}

/// `s` without its control characters.
pub open spec fn sanitized(s: Seq<char>) -> Seq<char> {
    s.filter(harmless())
}

/// `s` without its control characters other than line feeds.
pub open spec fn sanitized_lines(s: Seq<char>) -> Seq<char> {
    s.filter(harmless_or_feed())
}

fn keep_harmless(s: &str, feeds: bool) -> (out: String)
    ensures
        out@ == s@.filter(
            if feeds {
                harmless_or_feed()
            } else {
                harmless()
            },
        ),
{
    let ghost p = if feeds {
        harmless_or_feed()
    } else {
        harmless()
    };
    let a: Vec<char> = chars_of(s);
    let mut out: String = String::new();
    assert(out@ =~= s@.take(0).filter(p)) by {
        reveal(Seq::filter);
    }
    for i in 0..a.len()
        invariant
            a@ == s@,
            p == if feeds {
                harmless_or_feed()
            } else {
                harmless()
            },
            out@ == s@.take(i as int).filter(p),
    {
        proof {
            lemma_filter_step(s@, i as int, p);
        }
        if !control(a[i]) || (feeds && a[i] == '\n') {
            out.push(a[i]);
        }
    }
    assert(s@.take(s@.len() as int) =~= s@);
    out
}

/// A text from an untrusted place, made safe to print on one line: its control
/// characters, with which terminal escapes start, are dropped.
pub fn sanitize(s: &str) -> (out: String)
    ensures
        out@ == sanitized(s@),
{
    keep_harmless(s, false)
}

/// A text of several lines from an untrusted place, made safe to print: its
/// lines stay apart, and their control characters are dropped.
pub fn sanitize_lines(s: &str) -> (out: String)
    ensures
        out@ == sanitized_lines(s@),
{
    keep_harmless(s, true)
}

/// The line that reports why a run failed.
pub open spec fn failure(message: Seq<char>) -> Seq<char> {
    line("❌"@, sanitized_lines(message))
}

/// The line that reports why a run failed.
pub fn failure_line(message: &str) -> (out: String)
    ensures
        out@ == "❌ "@ + sanitized_lines(message@),
        out@ == failure(message@),
{
    proof {
        law_failure(message@);
    }
    concat2("❌ ", sanitize_lines(message).as_str())
}

/// A text that holds nothing that makes a terminal act.
pub open spec fn is_harmless(s: Seq<char>) -> bool {
    forall|i: int| 0 <= i < s.len() ==> !is_control(#[trigger] s[i])
}

/// A sanitized text holds nothing that makes a terminal act.
pub proof fn law_sanitized_is_harmless(s: Seq<char>)
    ensures
        is_harmless(sanitized(s)),
{
    assert forall|i: int| 0 <= i < sanitized(s).len() implies !is_control(
        #[trigger] sanitized(s)[i],
    ) by {
        s.lemma_filter_pred(harmless(), i);
    }
}

/// A sanitized text of several lines holds nothing but line feeds that makes a
/// terminal act.
pub proof fn law_sanitized_lines_are_harmless(s: Seq<char>, i: int)
    requires
        0 <= i < sanitized_lines(s).len(),
    ensures
        sanitized_lines(s)[i] == '\n' || !is_control(sanitized_lines(s)[i]),
{
    s.lemma_filter_pred(harmless_or_feed(), i);
}

/// A text without control characters is printed as it is.
pub proof fn law_sanitized_keeps_harmless(s: Seq<char>)
    requires
        is_harmless(s),
    ensures
        sanitized(s) == s,
        sanitized_lines(s) == s,
    decreases s.len(),
{
    reveal(Seq::filter);
    if s.len() > 0 {
        assert forall|i: int| 0 <= i < s.drop_last().len() implies !is_control(
            #[trigger] s.drop_last()[i],
        ) by {
            assert(s[i] == s.drop_last()[i]);
        }
        law_sanitized_keeps_harmless(s.drop_last());
        assert(s.drop_last().push(s.last()) =~= s);
        assert(!is_control(s[s.len() - 1]));
    }
}

/// Sanitizing a text a second time changes nothing.
pub proof fn law_sanitize_twice(s: Seq<char>)
    ensures
        sanitized(sanitized(s)) == sanitized(s),
{
    law_sanitized_is_harmless(s);
    law_sanitized_keeps_harmless(sanitized(s));
}

/// A line starts with the icon of its kind and a space, and holds the message as
/// it is.
pub proof fn law_lines(message: Seq<char>)
    ensures
        info(message) == "ℹ️ "@ + message,
        check(message) == "✅ "@ + message,
        warn(message) == "⚠️ "@ + message,
        blank(message) == "   "@ + message,
        line("❓"@, message) == "❓ "@ + message,
{
    reveal_strlit("ℹ️");
    reveal_strlit("ℹ️ ");
    reveal_strlit("✅");
    reveal_strlit("✅ ");
    reveal_strlit("⚠️");
    reveal_strlit("⚠️ ");
    reveal_strlit("  ");
    reveal_strlit("   ");
    reveal_strlit("❓");
    reveal_strlit("❓ ");
    reveal_strlit(" ");
    assert(info(message) =~= "ℹ️ "@ + message);
    assert(check(message) =~= "✅ "@ + message);
    assert(warn(message) =~= "⚠️ "@ + message);
    assert(blank(message) =~= "   "@ + message);
    assert(line("❓"@, message) =~= "❓ "@ + message);
}

/// Quiet output has no line, and other output has every line as it is: one that is
/// said comes after those that were said before.
pub proof fn law_what_is_shown(lines: Seq<Seq<char>>, text: Seq<char>)
    ensures
        shown(true, text) is None,
        shown(false, text) == Some(text),
        said(lines, shown(false, text)) == lines + seq![text],
        said(lines, shown(true, text)) == lines,
{
    assert(lines.push(text) =~= lines + seq![text]);
}

/// Sanitizing goes by the character: a control character is dropped, any other is
/// kept, and the parts of a text are sanitized each for itself. A line feed is kept
/// where the text may have several lines.
pub proof fn law_sanitizing(a: Seq<char>, b: Seq<char>, c: char)
    ensures
        sanitized(a + b) == sanitized(a) + sanitized(b),
        sanitized_lines(a + b) == sanitized_lines(a) + sanitized_lines(b),
        (c as u32) < 0x20 || 0x7f <= c as u32 <= 0x9f ==> sanitized(seq![c])
            == Seq::<char>::empty(),
        !((c as u32) < 0x20 || 0x7f <= c as u32 <= 0x9f) ==> sanitized(seq![c]) == seq![c],
        c != '\n' ==> sanitized_lines(seq![c]) == sanitized(seq![c]),
        sanitized_lines(seq!['\n']) == seq!['\n'],
{
    Seq::filter_distributes_over_add(a, b, harmless());
    Seq::filter_distributes_over_add(a, b, harmless_or_feed());
    lemma_filter_one(c, harmless());
    lemma_filter_one(c, harmless_or_feed());
    lemma_filter_one('\n', harmless_or_feed());
}

/// The line that reports a failure starts with its icon and a space, and holds the
/// message with its lines apart and without its other control characters.
pub proof fn law_failure(message: Seq<char>)
    ensures
        failure(message) == "❌ "@ + sanitized_lines(message),
{
    reveal_strlit("❌");
    reveal_strlit("❌ ");
    reveal_strlit(" ");
    assert(failure(message) =~= "❌ "@ + sanitized_lines(message));
}

} // verus!
