//! Text as sequences of characters: the searches, comparisons and renderings
//! that the rest of the library is built from.

use vstd::prelude::*;
use vstd::string::StringExecFns;

verus! {

/// Trusted: `String::push` appends the given character.
pub assume_specification[ String::push ](s: &mut String, c: char)
    ensures
        final(s)@ == old(s)@.push(c),
;

/// The contents of a list of strings.
pub open spec fn texts(v: Seq<String>) -> Seq<Seq<char>> {
    v.map_values(|s: String| s@)
}

/// The contents of an optional string.
pub open spec fn opt_text(s: Option<String>) -> Option<Seq<char>> {
    match s {
        Some(s) => Some(s@),
        None => None,
    }
}

/// The characters with Unicode's `White_Space` property.
pub open spec fn is_space(c: char) -> bool {
    ||| '\u{9}' <= c <= '\u{d}'
    ||| c == ' '
    ||| c == '\u{85}'
    ||| c == '\u{a0}'
    ||| c == '\u{1680}'
    ||| '\u{2000}' <= c <= '\u{200a}'
    ||| '\u{2028}' <= c <= '\u{2029}'
    ||| c == '\u{202f}'
    ||| c == '\u{205f}'
    ||| c == '\u{3000}'
}

/// The control characters: Unicode's general category `Cc`.
pub open spec fn is_control(c: char) -> bool {
    c <= '\u{1f}' || '\u{7f}' <= c <= '\u{9f}'
}

/// A decimal digit or a lower-case letter from `a` to `f`.
pub open spec fn is_lower_hex(c: char) -> bool {
    '0' <= c <= '9' || 'a' <= c <= 'f'
}

/// An ASCII letter.
pub open spec fn is_alpha(c: char) -> bool {
    'a' <= c <= 'z' || 'A' <= c <= 'Z'
}

/// An ASCII letter or digit.
pub open spec fn is_alphanumeric(c: char) -> bool {
    is_alpha(c) || '0' <= c <= '9'
}

/// `c` with an ASCII capital replaced by its small letter.
pub open spec fn lower(c: char) -> char {
    if 'A' <= c <= 'Z' {
        (c as u32 + 32) as char
    } else {
        c
    }
}

/// `s` with ASCII capitals replaced by their small letters.
pub open spec fn lowercase(s: Seq<char>) -> Seq<char> {
    s.map_values(|c: char| lower(c))
}

/// `s` without the white space at its ends.
pub open spec fn trimmed(s: Seq<char>) -> Seq<char>
    decreases s.len(),
{
    if s.len() > 0 && is_space(s.first()) {
        trimmed(s.drop_first())
    } else if s.len() > 0 && is_space(s.last()) {
        trimmed(s.drop_last())
    } else {
        s
    }
}

/// The characters of `s` before the first white space.
pub open spec fn leading_word(s: Seq<char>) -> Seq<char>
    decreases s.len(),
{
    if s.len() == 0 || is_space(s.first()) {
        Seq::empty()
    } else {
        seq![s.first()] + leading_word(s.drop_first())
    }
}

/// The first of the words that white space separates in `s`.
pub open spec fn first_word(s: Seq<char>) -> Option<Seq<char>>
    decreases s.len(),
{
    if s.len() == 0 {
        None
    } else if is_space(s.first()) {
        first_word(s.drop_first())
    } else {
        Some(leading_word(s))
    }
}

/// Whether `part` stands somewhere in `s`.
pub open spec fn has_part(s: Seq<char>, part: Seq<char>) -> bool {
    exists|i: int|
        0 <= i <= s.len() - part.len() && #[trigger] s.subrange(i, i + part.len()) == part
}

/// The parts in order, with `sep` between neighbours.
pub open spec fn joined(parts: Seq<Seq<char>>, sep: Seq<char>) -> Seq<char>
    decreases parts.len(),
{
    if parts.len() == 0 {
        Seq::empty()
    } else if parts.len() == 1 {
        parts[0]
    } else {
        joined(parts.drop_last(), sep) + sep + parts.last()
    }
}

/// `s` with every `from` replaced by `to`.
pub open spec fn replaced(s: Seq<char>, from: char, to: Seq<char>) -> Seq<char>
    decreases s.len(),
{
    if s.len() == 0 {
        Seq::empty()
    } else {
        replaced(s.drop_last(), from, to) + if s.last() == from {
            to
        } else {
            seq![s.last()]
        }
    }
}

/// The decimal digit of a number below ten.
pub open spec fn digit(n: nat) -> char {
    (n + 48) as char
}

/// The decimal rendering of `n`.
pub open spec fn decimal(n: nat) -> Seq<char>
    decreases n,
{
    if n < 10 {
        seq![digit(n)]
    } else {
        decimal(n / 10).push(digit(n % 10))
    }
}

/// The lower-case hexadecimal digit of a number below sixteen.
pub open spec fn hex_digit(n: nat) -> char {
    if n < 10 {
        (n + 48) as char
    } else {
        (n + 87) as char
    }
}

/// Every byte as two lower-case hexadecimal digits.
pub open spec fn lower_hex(bytes: Seq<u8>) -> Seq<char>
    decreases bytes.len(),
{
    if bytes.len() == 0 {
        Seq::empty()
    } else {
        lower_hex(bytes.drop_last()).push(hex_digit(bytes.last() as nat / 16)).push(
            hex_digit(bytes.last() as nat % 16),
        )
    }
}

/// The pieces of `s` between the occurrences of `sep`.
pub open spec fn pieces(s: Seq<char>, sep: char) -> Seq<Seq<char>>
    decreases s.len(),
{
    if s.len() == 0 {
        seq![Seq::empty()]
    } else {
        let init = pieces(s.drop_last(), sep);
        if s.last() == sep {
            init.push(Seq::empty())
        } else {
            init.drop_last().push(init.last().push(s.last()))
        }
    }
}

/// The characters of `s`.
pub(crate) fn chars_of(s: &str) -> (out: Vec<char>)
    ensures
        out@ == s@,
{
    let mut out: Vec<char> = Vec::new();
    for c in it: s.chars()
        invariant
            it.seq() == s@,
            out@ == s@.take(it.index() as int),
    {
        out.push(c);
    }
    out
}

/// The string of the characters from `from` up to `to`.
pub(crate) fn string_of(chars: &Vec<char>, from: usize, to: usize) -> (out: String)
    requires
        from <= to <= chars@.len(),
    ensures
        out@ == chars@.subrange(from as int, to as int),
{
    let mut out: String = String::new();
    for i in from..to
        invariant
            from <= i <= to <= chars@.len(),
            out@ == chars@.subrange(from as int, i as int),
    {
        out.push(chars[i]);
    }
    out
}

/// Whether two texts are the same.
pub(crate) fn same(a: &str, b: &str) -> (r: bool)
    ensures
        r == (a@ == b@),
{
    a.to_owned() == b.to_owned()
}

/// The concatenation of two texts.
pub(crate) fn concat2(a: &str, b: &str) -> (out: String)
    ensures
        out@ == a@ + b@,
{
    let mut out: String = a.to_owned();
    out.append(b);
    out
}

/// The concatenation of three texts.
pub(crate) fn concat3(a: &str, b: &str, c: &str) -> (out: String)
    ensures
        out@ == a@ + b@ + c@,
{
    let mut out: String = a.to_owned();
    out.append(b);
    out.append(c);
    out
}

pub(crate) fn space(c: char) -> (r: bool)
    ensures
        r == is_space(c),
{
    ('\u{9}' <= c && c <= '\u{d}') || c == ' ' || c == '\u{85}' || c == '\u{a0}' || c == '\u{1680}'
        || ('\u{2000}' <= c && c <= '\u{200a}') || ('\u{2028}' <= c && c <= '\u{2029}') || c
        == '\u{202f}' || c == '\u{205f}' || c == '\u{3000}'
}

pub(crate) fn control(c: char) -> (r: bool)
    ensures
        r == is_control(c),
{
    c <= '\u{1f}' || ('\u{7f}' <= c && c <= '\u{9f}')
}

pub(crate) fn alphanumeric(c: char) -> (r: bool)
    ensures
        r == is_alphanumeric(c),
{
    ('a' <= c && c <= 'z') || ('A' <= c && c <= 'Z') || ('0' <= c && c <= '9')
}

pub(crate) fn to_lower(c: char) -> (r: char)
    ensures
        r == lower(c),
{
    if 'A' <= c && c <= 'Z' {
        ((c as u8) + 32) as char
    } else {
        c
    }
}

/// Whether `s` starts with `prefix`.
pub(crate) fn starts_with(s: &str, prefix: &str) -> (r: bool)
    ensures
        r == prefix@.is_prefix_of(s@),
{
    let a: Vec<char> = chars_of(s);
    let b: Vec<char> = chars_of(prefix);
    if b.len() > a.len() {
        return false;
    }
    for i in 0..b.len()
        invariant
            b@ == prefix@,
            a@ == s@,
            b@.len() <= a@.len(),
            forall|j: int| 0 <= j < i ==> a@[j] == b@[j],
    {
        if a[i] != b[i] {
            assert(prefix@.is_prefix_of(s@) ==> s@.subrange(0, b@.len() as int)[i as int]
                == prefix@[i as int]);
            return false;
        }
    }
    true
}

/// What follows `prefix` in `s`, where `s` starts with it.
pub(crate) fn strip_prefix(s: &str, prefix: &str) -> (r: Option<String>)
    ensures
        r is Some <==> prefix@.is_prefix_of(s@),
        r matches Some(rest) ==> rest@ == s@.skip(prefix@.len() as int),
{
    if starts_with(s, prefix) {
        let a: Vec<char> = chars_of(s);
        let n: usize = chars_of(prefix).len();
        let rest: String = string_of(&a, n, a.len());
        Some(rest)
    } else {
        None
    }
}

/// Whether the characters of `s` from `from` on start with `part`.
fn part_at(s: &Vec<char>, from: usize, part: &Vec<char>) -> (r: bool)
    requires
        from + part@.len() <= s@.len(),
    ensures
        r == (s@.subrange(from as int, from + part@.len()) == part@),
{
    for i in 0..part.len()
        invariant
            from + part@.len() <= s.len(),
            forall|j: int| 0 <= j < i ==> s@[from + j] == part@[j],
    {
        if s[from + i] != part[i] {
            assert(s@.subrange(from as int, from + part@.len())[i as int] != part@[i as int]);
            return false;
        }
    }
    assert(s@.subrange(from as int, from + part@.len()) =~= part@);
    true
}

/// Whether `s` ends with `suffix`.
pub(crate) fn ends_with(s: &Vec<char>, suffix: &str) -> (r: bool)
    ensures
        r == suffix@.is_suffix_of(s@),
{
    let b: Vec<char> = chars_of(suffix);
    b.len() <= s.len() && part_at(s, s.len() - b.len(), &b)
}

/// Whether `part` stands somewhere in `s`.
pub(crate) fn contains(s: &str, part: &str) -> (r: bool)
    ensures
        r == has_part(s@, part@),
{
    let a: Vec<char> = chars_of(s);
    let b: Vec<char> = chars_of(part);
    if b.len() > a.len() {
        return false;
    }
    for i in 0..(a.len() - b.len())
        invariant
            a@ == s@,
            b@ == part@,
            b@.len() <= a@.len(),
            forall|j: int| 0 <= j < i ==> #[trigger] a@.subrange(j, j + b@.len()) != b@,
    {
        if part_at(&a, i, &b) {
            assert(s@.subrange(i as int, i + part@.len()) == part@);
            return true;
        }
    }
    part_at(&a, a.len() - b.len(), &b)
}

/// `s` with ASCII capitals replaced by their small letters.
pub(crate) fn to_lowercase(s: &str) -> (out: Vec<char>)
    ensures
        out@ == lowercase(s@),
{
    let a: Vec<char> = chars_of(s);
    let mut out: Vec<char> = Vec::new();
    for i in 0..a.len()
        invariant
            a@ == s@,
            out@ == lowercase(s@.take(i as int)),
    {
        out.push(to_lower(a[i]));
        assert(lowercase(s@.take(i + 1)) =~= lowercase(s@.take(i as int)).push(lower(a@[i as int])));
    }
    assert(s@.take(s@.len() as int) =~= s@);
    out
}

/// Whether two texts differ at most in the case of ASCII letters.
pub(crate) fn same_ignoring_case(a: &str, b: &str) -> (r: bool)
    ensures
        r == (lowercase(a@) == lowercase(b@)),
{
    let x: Vec<char> = to_lowercase(a);
    let y: Vec<char> = to_lowercase(b);
    if x.len() != y.len() {
        return false;
    }
    assert(x@.subrange(0, y@.len() as int) =~= x@);
    part_at(&x, 0, &y)
}

/// White space at the start of a text does not count for its trimming.
proof fn lemma_trim_start(s: Seq<char>, n: int)
    requires
        0 <= n <= s.len(),
        forall|j: int| 0 <= j < n ==> is_space(#[trigger] s[j]),
    ensures
        trimmed(s) == trimmed(s.skip(n)),
    decreases n,
{
    if n == 0 {
        assert(s.skip(0) =~= s);
    } else {
        lemma_trim_start(s.drop_first(), n - 1);
        assert(s.drop_first().skip(n - 1) =~= s.skip(n));
    }
}

/// White space at the end of a text does not count for its trimming, where
/// the text does not start with white space.
proof fn lemma_trim_end(s: Seq<char>, n: int)
    requires
        0 < n <= s.len(),
        !is_space(s[0]),
        !is_space(s[n - 1]),
        forall|j: int| n <= j < s.len() ==> is_space(#[trigger] s[j]),
    ensures
        trimmed(s) == s.take(n),
    decreases s.len(),
{
    if n == s.len() {
        assert(s.take(n) =~= s);
    } else {
        lemma_trim_end(s.drop_last(), n);
        assert(s.drop_last().take(n) =~= s.take(n));
    }
}

/// `s` without the white space at its ends.
pub(crate) fn trim(s: &str) -> (out: String)
    ensures
        out@ == trimmed(s@),
{
    let a: Vec<char> = chars_of(s);
    let mut from: usize = 0;
    while from < a.len() && space(a[from])
        invariant
            from <= a@.len(),
            forall|j: int| 0 <= j < from ==> is_space(#[trigger] a@[j]),
        decreases a@.len() - from,
    {
        from = from + 1;
    }
    let ghost rest = a@.skip(from as int);
    proof {
        lemma_trim_start(a@, from as int);
    }
    let mut to: usize = a.len();
    while to > from && space(a[to - 1])
        invariant
            from <= to <= a@.len(),
            forall|j: int| to <= j < a@.len() ==> is_space(#[trigger] a@[j]),
        decreases to,
    {
        to = to - 1;
    }
    proof {
        if from < a@.len() {
            assert(rest[0] == a@[from as int]);
            lemma_trim_end(rest, to - from);
            assert(rest.take(to - from) =~= a@.subrange(from as int, to as int));
        } else {
            assert(rest =~= a@.subrange(from as int, to as int));
        }
    }
    string_of(&a, from, to)
}

/// White space at the start of a text does not count for its first word.
proof fn lemma_word_start(s: Seq<char>, n: int)
    requires
        0 <= n <= s.len(),
        forall|j: int| 0 <= j < n ==> is_space(#[trigger] s[j]),
    ensures
        first_word(s) == first_word(s.skip(n)),
    decreases n,
{
    if n == 0 {
        assert(s.skip(0) =~= s);
    } else {
        lemma_word_start(s.drop_first(), n - 1);
        assert(s.drop_first().skip(n - 1) =~= s.skip(n));
    }
}

/// A word ends where white space or the text's end follows.
proof fn lemma_word_end(s: Seq<char>, n: int)
    requires
        0 <= n <= s.len(),
        forall|j: int| 0 <= j < n ==> !is_space(#[trigger] s[j]),
        n < s.len() ==> is_space(s[n]),
    ensures
        leading_word(s) == s.take(n),
    decreases n,
{
    if n == 0 {
        assert(s.take(0) =~= Seq::empty());
    } else {
        lemma_word_end(s.drop_first(), n - 1);
        assert(seq![s.first()] + s.drop_first().take(n - 1) =~= s.take(n));
    }
}

/// The first of the words that white space separates in `s`.
pub(crate) fn find_first_word(s: &str) -> (out: Option<String>)
    ensures
        opt_text(out) == first_word(s@),
{
    let a: Vec<char> = chars_of(s);
    let mut from: usize = 0;
    while from < a.len() && space(a[from])
        invariant
            from <= a@.len(),
            forall|j: int| 0 <= j < from ==> is_space(#[trigger] a@[j]),
        decreases a@.len() - from,
    {
        from = from + 1;
    }
    proof {
        lemma_word_start(a@, from as int);
    }
    if from == a.len() {
        return None;
    }
    let mut to: usize = from;
    while to < a.len() && !space(a[to])
        invariant
            from <= to <= a@.len(),
            forall|j: int| from <= j < to ==> !is_space(#[trigger] a@[j]),
        decreases a@.len() - to,
    {
        to = to + 1;
    }
    proof {
        let rest = a@.skip(from as int);
        assert(rest[0] == a@[from as int]);
        lemma_word_end(rest, to - from);
        assert(rest.take(to - from) =~= a@.subrange(from as int, to as int));
    }
    Some(string_of(&a, from, to))
}

/// The parts in order, with `sep` between neighbours.
pub(crate) fn join(parts: &Vec<String>, sep: &str) -> (out: String)
    ensures
        out@ == joined(texts(parts@), sep@),
{
    let mut out: String = String::new();
    for i in 0..parts.len()
        invariant
            out@ == joined(texts(parts@).take(i as int), sep@),
    {
        if i > 0 {
            out.append(sep);
        }
        out.append(parts[i].as_str());
        assert(texts(parts@).take(i + 1).drop_last() =~= texts(parts@).take(i as int));
        assert(texts(parts@).take(i + 1).last() == parts@[i as int]@);
        assert(i == 0 ==> out@ =~= parts@[0]@);
    }
    assert(texts(parts@).take(parts@.len() as int) =~= texts(parts@));
    out
}

/// `s` with every `from` replaced by `to`.
pub(crate) fn replace(s: &str, from: char, to: &str) -> (out: String)
    ensures
        out@ == replaced(s@, from, to@),
{
    let a: Vec<char> = chars_of(s);
    let mut out: String = String::new();
    for i in 0..a.len()
        invariant
            a@ == s@,
            out@ == replaced(s@.take(i as int), from, to@),
    {
        let ghost before = out@;
        if a[i] == from {
            out.append(to);
        } else {
            out.push(a[i]);
            assert(out@ =~= before + seq![a@[i as int]]);
        }
        assert(s@.take(i + 1).drop_last() =~= s@.take(i as int));
    }
    assert(s@.take(s@.len() as int) =~= s@);
    out
}

/// The decimal rendering of `n`.
pub(crate) fn render_decimal(n: u64) -> (out: String)
    ensures
        out@ == decimal(n as nat),
    decreases n,
{
    if n < 10 {
        let mut out: String = String::new();
        out.push(((n as u8) + 48) as char);
        assert(out@ =~= decimal(n as nat));
        out
    } else {
        let mut out: String = render_decimal(n / 10);
        out.push(((n % 10) as u8 + 48) as char);
        out
    }
}

fn render_hex_digit(n: u8) -> (c: char)
    requires
        n < 16,
    ensures
        c == hex_digit(n as nat),
{
    if n < 10 {
        (n + 48) as char
    } else {
        (n + 87) as char
    }
}

/// Every byte as two lower-case hexadecimal digits.
pub(crate) fn render_lower_hex(bytes: &Vec<u8>) -> (out: String)
    ensures
        out@ == lower_hex(bytes@),
{
    let mut out: String = String::new();
    for i in 0..bytes.len()
        invariant
            out@ == lower_hex(bytes@.take(i as int)),
    {
        out.push(render_hex_digit(bytes[i] / 16));
        out.push(render_hex_digit(bytes[i] % 16));
        assert(bytes@.take(i + 1).drop_last() =~= bytes@.take(i as int));
    }
    assert(bytes@.take(bytes@.len() as int) =~= bytes@);
    out
}

/// Splitting yields at least one piece.
pub proof fn lemma_pieces_nonempty(s: Seq<char>, sep: char)
    ensures
        pieces(s, sep).len() > 0,
    decreases s.len(),
{
    if s.len() > 0 {
        lemma_pieces_nonempty(s.drop_last(), sep);
    }
}

/// The pieces of `s` between the occurrences of `sep`.
pub(crate) fn split(s: &str, sep: char) -> (out: Vec<String>)
    ensures
        texts(out@) == pieces(s@, sep),
{
    let a: Vec<char> = chars_of(s);
    let mut out: Vec<String> = Vec::new();
    let mut piece: String = String::new();
    assert(texts(out@).push(piece@) =~= pieces(s@.take(0), sep));
    for i in 0..a.len()
        invariant
            a@ == s@,
            texts(out@).push(piece@) == pieces(s@.take(i as int), sep),
    {
        let ghost before = texts(out@).push(piece@);
        assert(s@.take(i + 1).drop_last() =~= s@.take(i as int));
        if a[i] == sep {
            out.push(piece);
            piece = String::new();
            assert(texts(out@) =~= before);
        } else {
            assert(before.drop_last() =~= texts(out@));
            piece.push(a[i]);
        }
    }
    assert(s@.take(s@.len() as int) =~= s@);
    let ghost before = texts(out@).push(piece@);
    out.push(piece);
    assert(texts(out@) =~= before);
    out
}

/// Appends copies of the texts of a list.
pub(crate) fn push_all(list: &mut Vec<String>, more: &Vec<String>)
    ensures
        texts(final(list)@) == texts(old(list)@) + texts(more@),
{
    let ghost before = texts(list@);
    for i in 0..more.len()
        invariant
            texts(list@) == before + texts(more@).take(i as int),
    {
        let ghost so_far = texts(list@);
        list.push(more[i].clone());
        assert(texts(list@) =~= so_far.push(more@[i as int]@));
        assert(before + texts(more@).take(i + 1) =~= so_far.push(more@[i as int]@));
    }
    assert(texts(more@).take(more@.len() as int) =~= texts(more@));
}

/// Appends a copy of a text to a list.
pub(crate) fn push_text(list: &mut Vec<String>, s: &str)
    ensures
        texts(final(list)@) == texts(old(list)@).push(s@),
{
    let ghost before = texts(list@);
    list.push(s.to_string());
    assert(texts(list@) =~= before.push(s@));
}

/// Small letters stay as they are.
pub proof fn lemma_lowercase_twice(s: Seq<char>)
    ensures
        lowercase(lowercase(s)) == lowercase(s),
{
    assert(lowercase(lowercase(s)) =~= lowercase(s));
}

/// How joining goes from the first part on.
pub proof fn lemma_joined_first(parts: Seq<Seq<char>>, sep: Seq<char>)
    requires
        parts.len() > 1,
    ensures
        joined(parts, sep) == parts[0] + sep + joined(parts.skip(1), sep),
    decreases parts.len(),
{
    let init = parts.drop_last();
    let rest = parts.skip(1);
    assert(rest.drop_last() =~= init.skip(1));
    assert(rest.last() == parts.last());
    if parts.len() == 2 {
        assert(rest =~= seq![parts[1]]);
        reveal_with_fuel(joined, 2);
    } else {
        lemma_joined_first(init, sep);
        assert(joined(parts, sep) =~= parts[0] + sep + (joined(rest.drop_last(), sep) + sep
            + rest.last()));
    }
}

/// Joining two lists, one after the other.
pub proof fn lemma_joined_append(a: Seq<Seq<char>>, b: Seq<Seq<char>>, sep: Seq<char>)
    requires
        a.len() > 0,
        b.len() > 0,
    ensures
        joined(a + b, sep) == joined(a, sep) + sep + joined(b, sep),
    decreases b.len(),
{
    let init = b.drop_last();
    assert((a + b).drop_last() =~= a + init);
    assert((a + b).last() == b.last());
    if init.len() == 0 {
        assert(a + init =~= a);
        assert(joined(b, sep) == b.last());
    } else {
        lemma_joined_append(a, init, sep);
        assert(joined(a + b, sep) =~= joined(a, sep) + sep + (joined(init, sep) + sep
            + b.last()));
    }
}

/// The white space of ASCII is the space and the characters from tab to carriage
/// return. Of the others it is the next-line control, the spaces and separators
/// of Unicode, and nothing else.
pub proof fn law_white_space(c: char)
    ensures
        c as u32 <= 0x7f ==> (is_space(c) <==> c as u32 == 0x20 || 0x09 <= c as u32 <= 0x0d),
        c as u32 > 0x7f ==> (is_space(c) <==> c as u32 == 0x85 || c as u32 == 0xa0 || c as u32
            == 0x1680 || 0x2000 <= c as u32 <= 0x200a || c as u32 == 0x2028 || c as u32 == 0x2029
            || c as u32 == 0x202f || c as u32 == 0x205f || c as u32 == 0x3000),
{
}

/// The control characters are those below the space, the delete character and the
/// 32 characters after it.
pub proof fn law_control_characters(c: char)
    ensures
        is_control(c) <==> (c as u32) < 0x20 || 0x7f <= c as u32 <= 0x9f,
{
}

/// Lower case has as many characters as the text. An ASCII capital becomes the
/// letter 32 places on; any other character stays.
pub proof fn law_lower_case(s: Seq<char>, i: int)
    requires
        0 <= i < s.len(),
    ensures
        lowercase(s).len() == s.len(),
        0x41 <= s[i] as u32 <= 0x5a ==> lowercase(s)[i] as u32 == s[i] as u32 + 32,
        !(0x41 <= s[i] as u32 <= 0x5a) ==> lowercase(s)[i] == s[i],
{
}

/// Trimming takes away all white space before and after a text, and nothing of a
/// text that neither starts nor ends with it.
pub proof fn law_trimming(before: Seq<char>, s: Seq<char>, after: Seq<char>)
    requires
        forall|i: int| 0 <= i < before.len() ==> is_space(#[trigger] before[i]),
        forall|i: int| 0 <= i < after.len() ==> is_space(#[trigger] after[i]),
        s.len() > 0 ==> !is_space(s[0]) && !is_space(s[s.len() - 1]),
    ensures
        trimmed(before + s + after) == s,
{
    let all = before + s + after;
    let n = before.len() as int;
    assert forall|j: int| 0 <= j < n implies is_space(#[trigger] all[j]) by {
        assert(all[j] == before[j]);
    }
    lemma_trim_start(all, n);
    let rest = all.skip(n);
    assert(rest =~= s + after);
    if s.len() > 0 {
        assert forall|j: int| s.len() <= j < rest.len() implies is_space(#[trigger] rest[j]) by {
            assert(rest[j] == after[j - s.len()]);
        }
        lemma_trim_end(rest, s.len() as int);
        assert(rest.take(s.len() as int) =~= s);
    } else {
        assert(rest =~= after);
        lemma_trim_start(after, after.len() as int);
        assert(after.skip(after.len() as int) =~= s);
        assert(trimmed(s) == s);
    }
}

/// The first word stands after any white space and before the next white space or
/// the end. White space alone has no word.
pub proof fn law_first_word(before: Seq<char>, word: Seq<char>, after: Seq<char>)
    requires
        forall|i: int| 0 <= i < before.len() ==> is_space(#[trigger] before[i]),
        forall|i: int| 0 <= i < word.len() ==> !is_space(#[trigger] word[i]),
        after.len() > 0 ==> is_space(after[0]),
    ensures
        word.len() > 0 ==> first_word(before + word + after) == Some(word),
        first_word(before) is None,
{
    let all = before + word + after;
    let n = before.len() as int;
    assert forall|j: int| 0 <= j < n implies is_space(#[trigger] all[j]) by {
        assert(all[j] == before[j]);
    }
    lemma_word_start(all, n);
    lemma_word_start(before, n);
    assert(before.skip(n) =~= Seq::empty());
    let rest = all.skip(n);
    assert(rest =~= word + after);
    if word.len() > 0 {
        assert(!is_space(word[0]));
        assert forall|j: int| 0 <= j < word.len() implies !is_space(#[trigger] rest[j]) by {
            assert(rest[j] == word[j]);
        }
        lemma_word_end(rest, word.len() as int);
        assert(rest.take(word.len() as int) =~= word);
    }
}

/// A part stands in a text if and only if the text is something, the part and
/// something.
pub proof fn law_parts(s: Seq<char>, part: Seq<char>)
    ensures
        has_part(s, part) <==> exists|before: Seq<char>, after: Seq<char>|
            #[trigger] (before + part + after) == s,
{
    if has_part(s, part) {
        let i = choose|i: int|
            0 <= i <= s.len() - part.len() && #[trigger] s.subrange(i, i + part.len()) == part;
        assert(s.take(i) + part + s.skip(i + part.len()) =~= s);
    }
    if exists|before: Seq<char>, after: Seq<char>| #[trigger] (before + part + after) == s {
        let (before, after) = choose|before: Seq<char>, after: Seq<char>|
            #[trigger] (before + part + after) == s;
        let i = before.len() as int;
        assert(s.subrange(i, i + part.len()) =~= part);
    }
}

/// Joining no parts gives nothing, and joining one gives the part. The separator
/// stands between two lists of parts that are joined as one.
pub proof fn law_joining(a: Seq<Seq<char>>, b: Seq<Seq<char>>, part: Seq<char>, sep: Seq<char>)
    ensures
        joined(Seq::empty(), sep) == Seq::<char>::empty(),
        joined(seq![part], sep) == part,
        a.len() > 0 && b.len() > 0 ==> joined(a + b, sep) == joined(a, sep) + sep + joined(b, sep),
{
    if a.len() > 0 && b.len() > 0 {
        lemma_joined_append(a, b, sep);
    }
}

/// Replacing a character by another keeps the length: the other stands wherever
/// the character stood, and every other character stays in its place.
pub proof fn law_replacing(s: Seq<char>, from: char, to: char, i: int)
    requires
        0 <= i < s.len(),
    ensures
        replaced(s, from, seq![to]).len() == s.len(),
        s[i] == from ==> replaced(s, from, seq![to])[i] == to,
        s[i] != from ==> replaced(s, from, seq![to])[i] == s[i],
    decreases s.len(),
{
    let init = s.drop_last();
    if init.len() > 0 {
        law_replacing(init, from, to, if i < init.len() { i } else { 0 });
    }
    assert(replaced(init, from, seq![to]).len() == init.len());
    if i < init.len() {
        assert(init[i] == s[i]);
    }
}

/// What a text of decimal digits is worth.
pub open spec fn worth(digits: Seq<char>) -> int
    decreases digits.len(),
{
    if digits.len() == 0 {
        0
    } else {
        10 * worth(digits.drop_last()) + (digits.last() as u32 - 0x30)
    }
}

/// A number is rendered by decimal digits that are worth it, without a zero in
/// front unless it is zero.
pub proof fn law_decimal(n: nat)
    ensures
        decimal(n).len() > 0,
        worth(decimal(n)) == n,
        forall|i: int| 0 <= i < decimal(n).len() ==> 0x30 <= (#[trigger] decimal(n)[i]) as u32
            <= 0x39,
        decimal(n)[0] as u32 == 0x30 ==> n == 0 && decimal(n).len() == 1,
    decreases n,
{
    reveal_with_fuel(worth, 2);
    if n < 10 {
        assert(decimal(n).drop_last() =~= Seq::empty());
    } else {
        law_decimal(n / 10);
        let init = decimal(n / 10);
        assert(decimal(n).drop_last() =~= init);
        assert(decimal(n)[0] == init[0]);
        assert forall|i: int| 0 <= i < decimal(n).len() implies 0x30 <= (#[trigger] decimal(
            n,
        )[i]) as u32 <= 0x39 by {
            if i < init.len() {
                assert(decimal(n)[i] == init[i]);
            }
        }
    }
}

/// A byte is rendered by two hexadecimal digits, the higher first, and each byte
/// stands in its place.
pub proof fn law_lower_hex(bytes: Seq<u8>, i: int)
    requires
        0 <= i < bytes.len(),
    ensures
        lower_hex(bytes).len() == 2 * bytes.len(),
        lower_hex(bytes)[2 * i] == "0123456789abcdef"@[bytes[i] as int / 16],
        lower_hex(bytes)[2 * i + 1] == "0123456789abcdef"@[bytes[i] as int % 16],
    decreases bytes.len(),
{
    reveal_strlit("0123456789abcdef");
    let init = bytes.drop_last();
    let digits = lower_hex(init);
    if init.len() > 0 {
        law_lower_hex(init, if i < init.len() { i } else { 0 });
    }
    assert(digits.len() == 2 * init.len());
    if i < init.len() {
        assert(init[i] == bytes[i]);
        assert(lower_hex(bytes)[2 * i] == digits[2 * i]);
        assert(lower_hex(bytes)[2 * i + 1] == digits[2 * i + 1]);
    }
}

/// The pieces of a text are what stands between the separators: they make up the
/// text with a separator between neighbours, and none of them holds one.
pub proof fn law_pieces(s: Seq<char>, sep: char)
    ensures
        pieces(s, sep).len() > 0,
        joined(pieces(s, sep), seq![sep]) == s,
        forall|i: int|
            0 <= i < pieces(s, sep).len() ==> !(#[trigger] pieces(s, sep)[i]).contains(sep),
    decreases s.len(),
{
    let all = pieces(s, sep);
    if s.len() == 0 {
        assert(all =~= seq![Seq::<char>::empty()]);
        assert(joined(all, seq![sep]) =~= s);
    } else {
        let init = pieces(s.drop_last(), sep);
        law_pieces(s.drop_last(), sep);
        assert(s.drop_last().push(s.last()) =~= s);
        if s.last() == sep {
            assert(all.drop_last() =~= init);
            assert(joined(all, seq![sep]) =~= s);
        } else {
            let last = init.last().push(s.last());
            assert(all.drop_last() =~= init.drop_last());
            assert(joined(all, seq![sep]) =~= s) by {
                if init.len() > 1 {
                    assert(joined(init, seq![sep]) == joined(init.drop_last(), seq![sep]) + seq![
                        sep,
                    ] + init.last());
                }
            }
            assert(!last.contains(sep)) by {
                assert(!init[init.len() - 1].contains(sep));
                if last.contains(sep) {
                    let i = choose|i: int| 0 <= i < last.len() && last[i] == sep;
                    assert(init.last()[i] == sep);
                }
            }
        }
    }
}

/// Replacing goes by the character: what replaces it stands for every occurrence,
/// any other character stays, and the parts of a text are dealt with each for itself.
pub proof fn law_replacing_goes_by_the_character(
    a: Seq<char>,
    b: Seq<char>,
    c: char,
    from: char,
    to: Seq<char>,
)
    ensures
        replaced(a + b, from, to) == replaced(a, from, to) + replaced(b, from, to),
        replaced(seq![from], from, to) == to,
        c != from ==> replaced(seq![c], from, to) == seq![c],
    decreases b.len(),
{
    reveal_with_fuel(replaced, 2);
    assert(seq![from].drop_last() =~= Seq::empty());
    assert(seq![c].drop_last() =~= Seq::empty());
    assert(replaced(seq![from], from, to) =~= to);
    if c != from {
        assert(replaced(seq![c], from, to) =~= seq![c]);
    }
    if b.len() == 0 {
        assert(a + b =~= a);
        assert(replaced(a + b, from, to) =~= replaced(a, from, to) + replaced(b, from, to));
    } else {
        law_replacing_goes_by_the_character(a, b.drop_last(), c, from, to);
        assert((a + b).drop_last() =~= a + b.drop_last());
        assert((a + b).last() == b.last());
        assert(replaced(a + b, from, to) =~= replaced(a, from, to) + replaced(b, from, to));
    }
}

/// The contents of a list of strings are those of each string, in its place.
pub proof fn law_contents_of_a_list(v: Seq<String>, i: int, s: String)
    requires
        0 <= i < v.len(),
    ensures
        texts(v).len() == v.len(),
        texts(v)[i] == v[i]@,
        opt_text(Some(s)) == Some(s@),
        opt_text(None) is None,
{
}

} // verus!
