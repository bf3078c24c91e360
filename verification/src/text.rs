//! Strings as sequences of characters: the operations the rest of the library
//! needs, each with its result stated on the characters.

use crate::model::{lemma_views_take, opt, views};
use vstd::prelude::*;
use vstd::utf8::encode_utf8;

verus! {

/// `String::push`: appends one character at the end.
pub assume_specification[ String::push ](s: &mut String, c: char)
    ensures
        final(s)@ == old(s)@.push(c),
;

/// Whether a character has the Unicode property `White_Space`.
pub open spec fn char_is_whitespace(c: char) -> bool {
    ||| '\u{9}' <= c <= '\u{d}'
    ||| c == ' '
    ||| c == '\u{85}'
    ||| c == '\u{a0}'
    ||| c == '\u{1680}'
    ||| '\u{2000}' <= c <= '\u{200a}'
    ||| c == '\u{2028}'
    ||| c == '\u{2029}'
    ||| c == '\u{202f}'
    ||| c == '\u{205f}'
    ||| c == '\u{3000}'
}

/// `char::is_whitespace`: whether the character has the Unicode property
/// `White_Space`, whose twenty-five characters are listed.
pub assume_specification[ char::is_whitespace ](c: char) -> (r: bool)
    ensures
        r == char_is_whitespace(c),
;

/// The lower-case form of a text.
pub uninterp spec fn lowercase(s: Seq<char>) -> Seq<char>;

/// `str::to_lowercase`: the text by its Unicode lower-case mapping, a function
/// of the text alone.
#[verifier::external_body]
pub(crate) fn to_lowercase(s: &str) -> (r: String)
    ensures
        r@ == lowercase(s@),
{
    s.to_lowercase()
}

/// Whether two texts hold the same characters.
pub fn str_eq(a: &str, b: &str) -> (r: bool)
    ensures
        r == (a@ == b@),
{
    a.to_owned() == b.to_owned()
}

/// The characters of a text.
pub fn chars_of(s: &str) -> (r: Vec<char>)
    ensures
        r@ == s@,
{
    let mut out: Vec<char> = Vec::new();
    for c in it: s.chars()
        invariant
            it.seq() == s@,
            out@ == s@.take(it.index() as int),
    {
        out.push(c);
        assert(s@.take(it.index() as int).push(c) =~= s@.take(it.index() + 1));
    }
    assert(s@.take(s@.len() as int) =~= s@);
    out
}

/// The text made of the given characters.
pub fn string_of(chars: &[char]) -> (r: String)
    ensures
        r@ == chars@,
{
    let mut out = String::new();
    let mut i: usize = 0;
    while i < chars.len()
        invariant
            i <= chars.len(),
            out@ == chars@.take(i as int),
        decreases chars.len() - i,
    {
        out.push(chars[i]);
        assert(chars@.take(i as int).push(chars@[i as int]) =~= chars@.take(i + 1));
        i += 1;
    }
    assert(chars@.take(chars@.len() as int) =~= chars@);
    out
}

/// The decimal digit for a value below ten.
pub open spec fn digit(n: nat) -> char {
    ('0' as int + n) as char
}

/// The decimal text of a number.
pub open spec fn decimal(n: nat) -> Seq<char>
    decreases n,
{
    if n < 10 {
        seq![digit(n)]
    } else {
        decimal(n / 10).push(digit(n % 10))
    }
}

/// The decimal text of a number.
pub fn u64_text(n: u64) -> (r: String)
    ensures
        r@ == decimal(n as nat),
    decreases n,
{
    if n < 10 {
        let mut s = String::new();
        s.push((48u8 + n as u8) as char);
        assert(s@ =~= seq![digit(n as nat)]);
        s
    } else {
        let mut s = u64_text(n / 10);
        s.push((48u8 + (n % 10) as u8) as char);
        s
    }
}

/// The texts one after the other, with a separator between neighbours.
pub open spec fn join(parts: Seq<Seq<char>>, sep: Seq<char>) -> Seq<char>
    decreases parts.len(),
{
    if parts.len() == 0 {
        Seq::empty()
    } else if parts.len() == 1 {
        parts[0]
    } else {
        join(parts.drop_last(), sep) + sep + parts.last()
    }
}

/// Whether a part stands in a text at a place.
pub open spec fn stands_at(text: Seq<char>, part: Seq<char>, at: int) -> bool {
    &&& 0 <= at
    &&& at + part.len() <= text.len()
    &&& forall|k: int| 0 <= k < part.len() ==> #[trigger] text[at + k] == part[k]
}

/// Whether a text begins with another.
pub open spec fn begins_with(text: Seq<char>, lead: Seq<char>) -> bool {
    stands_at(text, lead, 0)
}

/// Whether a text is made of parts that stand at the given places: the first at
/// the start, each next one behind a separator, and the last at the end.
pub open spec fn laid_out_at(
    text: Seq<char>,
    parts: Seq<Seq<char>>,
    sep: Seq<char>,
    at: Seq<int>,
) -> bool {
    &&& at.len() == parts.len()
    &&& parts.len() == 0 ==> text.len() == 0
    &&& parts.len() > 0 ==> at[0] == 0 && at.last() + parts.last().len() == text.len()
    &&& forall|i: int| 0 <= i < parts.len() ==> stands_at(text, #[trigger] parts[i], at[i])
    &&& forall|i: int|
        0 <= i < parts.len() - 1 ==> at[i + 1] == #[trigger] at[i] + parts[i].len() + sep.len()
            && stands_at(text, sep, at[i] + parts[i].len())
}

/// Whether a text is made of all the given parts, in order, with a separator
/// between neighbours and nothing else.
pub open spec fn laid_out(text: Seq<char>, parts: Seq<Seq<char>>, sep: Seq<char>) -> bool {
    exists|at: Seq<int>| laid_out_at(text, parts, sep, at)
}

/// Joined texts hold every part, in order, with a separator between neighbours
/// and nothing else.
pub proof fn law_joined_texts_hold_every_part(parts: Seq<Seq<char>>, sep: Seq<char>)
    ensures
        laid_out(join(parts, sep), parts, sep),
    decreases parts.len(),
{
    let text = join(parts, sep);
    if parts.len() <= 1 {
        let at = Seq::new(parts.len(), |i: int| 0int);
        assert(laid_out_at(text, parts, sep, at));
    } else {
        let front = parts.drop_last();
        let before = join(front, sep);
        law_joined_texts_hold_every_part(front, sep);
        let places = choose|at: Seq<int>| laid_out_at(before, front, sep, at);
        let at = places.push((before.len() + sep.len()) as int);
        assert forall|i: int| 0 <= i < parts.len() implies stands_at(
            text,
            #[trigger] parts[i],
            at[i],
        ) by {
            if i < front.len() {
                assert(front[i] == parts[i]);
                assert(stands_at(before, front[i], places[i]));
            }
        }
        assert forall|i: int| 0 <= i < parts.len() - 1 implies at[i + 1] == #[trigger] at[i]
            + parts[i].len() + sep.len() && stands_at(text, sep, at[i] + parts[i].len()) by {
            assert(front[i] == parts[i]);
            assert(places[i] == at[i]);
            if i < front.len() - 1 {
                assert(stands_at(before, sep, places[i] + front[i].len()));
            } else {
                assert(front.last() == parts[i]);
            }
        }
        assert(laid_out_at(text, parts, sep, at));
    }
}

/// The texts one after the other, with a separator between neighbours.
pub fn join_strings(parts: &Vec<String>, sep: &str) -> (r: String)
    ensures
        r@ == join(views(parts@), sep@),
{
    let mut out = String::new();
    let mut i: usize = 0;
    while i < parts.len()
        invariant
            i <= parts.len(),
            out@ == join(views(parts@).take(i as int), sep@),
        decreases parts.len() - i,
    {
        proof {
            lemma_views_take(parts@, i as int);
        }
        if i > 0 {
            out.append(sep);
        }
        out.append(parts[i].as_str());
        assert(out@ =~= join(views(parts@).take(i + 1), sep@));
        i += 1;
    }
    assert(views(parts@).take(parts@.len() as int) =~= views(parts@));
    out
}

/// A text without its leading white space.
pub open spec fn trim_start(s: Seq<char>) -> Seq<char>
    decreases s.len(),
{
    if s.len() > 0 && char_is_whitespace(s[0]) {
        trim_start(s.skip(1))
    } else {
        s
    }
}

/// A text without its trailing white space.
pub open spec fn trim_end(s: Seq<char>) -> Seq<char>
    decreases s.len(),
{
    if s.len() > 0 && char_is_whitespace(s.last()) {
        trim_end(s.drop_last())
    } else {
        s
    }
}

/// A text without leading and trailing white space.
pub open spec fn trim(s: Seq<char>) -> Seq<char> {
    trim_end(trim_start(s))
}

/// The characters without leading and trailing white space.
pub fn trim_chars(chars: &[char]) -> (r: Vec<char>)
    ensures
        r@ == trim(chars@),
{
    let mut from: usize = 0;
    assert(chars@.skip(0) =~= chars@);
    while from < chars.len() && chars[from].is_whitespace()
        invariant
            from <= chars.len(),
            trim_start(chars@) == trim_start(chars@.skip(from as int)),
        decreases chars.len() - from,
    {
        assert(chars@.skip(from as int).skip(1) =~= chars@.skip(from + 1));
        from += 1;
    }
    assert(trim_start(chars@) == chars@.skip(from as int));
    let mut to: usize = chars.len();
    assert(chars@.subrange(from as int, to as int) =~= chars@.skip(from as int));
    while from < to && chars[to - 1].is_whitespace()
        invariant
            from <= to <= chars.len(),
            trim(chars@) == trim_end(chars@.subrange(from as int, to as int)),
        decreases to,
    {
        assert(chars@.subrange(from as int, to as int).drop_last() =~= chars@.subrange(
            from as int,
            to - 1,
        ));
        to -= 1;
    }
    assert(trim(chars@) == chars@.subrange(from as int, to as int));
    vstd::slice::slice_to_vec(vstd::slice::slice_subrange(chars, from, to))
}

/// A text without leading and trailing white space.
pub fn trim_text(s: &str) -> (r: String)
    ensures
        r@ == trim(s@),
{
    let chars = chars_of(s);
    string_of(trim_chars(chars.as_slice()).as_slice())
}

/// A character, or a space where it breaks the line.
pub open spec fn unbroken(c: char) -> char {
    if c == '\n' || c == '\r' {
        ' '
    } else {
        c
    }
}

/// A text with a space for each line break.
pub open spec fn on_one_line(s: Seq<char>) -> Seq<char> {
    s.map_values(|c: char| unbroken(c))
}

/// A text with a space for each line break.
pub fn unbreak(s: &str) -> (r: String)
    ensures
        r@ == on_one_line(s@),
{
    let chars = chars_of(s);
    let mut out = String::new();
    let mut i: usize = 0;
    while i < chars.len()
        invariant
            i <= chars.len(),
            chars@ == s@,
            out@ == on_one_line(s@.take(i as int)),
        decreases chars.len() - i,
    {
        let c: char = chars[i];
        out.push(
            if c == '\n' || c == '\r' {
                ' '
            } else {
                c
            },
        );
        i += 1;
        assert(out@ =~= on_one_line(s@.take(i as int)));
    }
    assert(s@.take(s@.len() as int) =~= s@);
    out
}

/// A text cut to at most `max` characters, with an ellipsis where it was cut.
pub open spec fn shortened(s: Seq<char>, max: nat) -> Seq<char> {
    if s.len() <= max {
        s
    } else {
        s.take(max as int).push('\u{2026}')
    }
}

/// A text cut to at most `max` characters, with an ellipsis where it was cut.
pub fn shorten(s: &str, max: usize) -> (r: String)
    ensures
        r@ == shortened(s@, max as nat),
{
    let chars = chars_of(s);
    if chars.len() <= max {
        s.to_owned()
    } else {
        let mut t = string_of(vstd::slice::slice_subrange(chars.as_slice(), 0, max));
        assert(t@ =~= s@.take(max as int));
        t.push('\u{2026}');
        t
    }
}

/// Where the first newline at or after `from` stands; the length where there is none.
pub open spec fn next_newline(s: Seq<char>, from: int) -> int
    decreases s.len() - from,
{
    if from >= s.len() {
        s.len() as int
    } else if s[from] == '\n' {
        from
    } else {
        next_newline(s, from + 1)
    }
}

/// The next newline lies at or after the start and within the text.
pub proof fn lemma_next_newline(s: Seq<char>, from: int)
    requires
        0 <= from <= s.len(),
    ensures
        from <= next_newline(s, from) <= s.len(),
        next_newline(s, from) < s.len() ==> s[next_newline(s, from)] == '\n',
        forall|i: int| from <= i < next_newline(s, from) ==> s[i] != '\n',
    decreases s.len() - from,
{
    if from < s.len() && s[from] != '\n' {
        lemma_next_newline(s, from + 1);
    }
}

/// The line that ends with the newline at `end`: a carriage return before the
/// newline belongs to the line ending.
pub open spec fn line_between(s: Seq<char>, from: int, end: int) -> Seq<char> {
    if end < s.len() && from < end && s[end - 1] == '\r' {
        s.subrange(from, end - 1)
    } else {
        s.subrange(from, end)
    }
}

/// The lines of a text from a position on.
pub open spec fn lines_from(s: Seq<char>, from: int) -> Seq<Seq<char>>
    decreases s.len() + 1 - from,
{
    if from < 0 || from >= s.len() {
        Seq::empty()
    } else {
        proof {
            lemma_next_newline(s, from);
        }
        let end = next_newline(s, from);
        seq![line_between(s, from, end)] + lines_from(s, end + 1)
    }
}

/// The lines of a text.
pub open spec fn lines(s: Seq<char>) -> Seq<Seq<char>> {
    lines_from(s, 0)
}

/// The first of a sequence of texts that is not blank, without the white space
/// around it.
pub open spec fn first_nonblank(parts: Seq<Seq<char>>) -> Option<Seq<char>>
    decreases parts.len(),
{
    if parts.len() == 0 {
        None
    } else if trim(parts[0]).len() > 0 {
        Some(trim(parts[0]))
    } else {
        first_nonblank(parts.skip(1))
    }
}

/// Whether a text neither begins nor ends with white space.
pub open spec fn is_trimmed(s: Seq<char>) -> bool {
    s.len() > 0 ==> !char_is_whitespace(s[0]) && !char_is_whitespace(s.last())
}

/// Whether a text is one line.
pub open spec fn is_one_line(s: Seq<char>) -> bool {
    forall|i: int| 0 <= i < s.len() ==> s[i] != '\n'
}

proof fn lemma_trim_start(s: Seq<char>)
    ensures
        trim_start(s).len() <= s.len(),
        trim_start(s) == s.skip(s.len() - trim_start(s).len()),
        trim_start(s).len() > 0 ==> !char_is_whitespace(trim_start(s)[0]),
    decreases s.len(),
{
    if s.len() > 0 && char_is_whitespace(s[0]) {
        lemma_trim_start(s.skip(1));
        let n = trim_start(s).len();
        assert(s.skip(1).skip(s.len() - 1 - n) =~= s.skip(s.len() - n));
    } else {
        assert(s.skip(0) =~= s);
    }
}

proof fn lemma_trim_end(s: Seq<char>)
    ensures
        trim_end(s).len() <= s.len(),
        trim_end(s) == s.take(trim_end(s).len() as int),
        trim_end(s).len() > 0 ==> !char_is_whitespace(trim_end(s).last()),
    decreases s.len(),
{
    if s.len() > 0 && char_is_whitespace(s.last()) {
        lemma_trim_end(s.drop_last());
        let n = trim_end(s).len() as int;
        assert(s.drop_last().take(n) =~= s.take(n));
    } else {
        assert(s.take(s.len() as int) =~= s);
    }
}

/// A text without the white space around it is trimmed, and stays one line where
/// it was one; a trimmed text is not changed.
pub proof fn lemma_trim(s: Seq<char>)
    ensures
        is_trimmed(trim(s)),
        is_one_line(s) ==> is_one_line(trim(s)),
        is_trimmed(s) ==> trim(s) == s,
{
    let t = trim_start(s);
    lemma_trim_start(s);
    lemma_trim_end(t);
    if trim(s).len() > 0 {
        assert(trim(s)[0] == t[0]);
    }
    assert forall|i: int| is_one_line(s) && 0 <= i < trim(s).len() implies trim(s)[i] != '\n' by {
        assert(trim(s)[i] == t[i]);
        assert(t[i] == s[s.len() - t.len() + i]);
    }
}

/// A text is blank just where all its characters are white space.
pub proof fn lemma_blank(s: Seq<char>)
    ensures
        trim(s).len() > 0 <==> exists|i: int| 0 <= i < s.len() && !char_is_whitespace(#[trigger] s[i]),
{
    let t = trim_start(s);
    lemma_trim_start(s);
    lemma_trim_end(t);
    if trim(s).len() > 0 {
        assert(t[0] == s[s.len() - t.len()]);
    }
    if exists|i: int| 0 <= i < s.len() && !char_is_whitespace(#[trigger] s[i]) {
        let i = choose|i: int| 0 <= i < s.len() && !char_is_whitespace(#[trigger] s[i]);
        lemma_trim_start_keeps(s, i);
        assert(t.len() > 0);
        lemma_trim_end_keeps(t);
    }
}

proof fn lemma_trim_start_keeps(s: Seq<char>, i: int)
    requires
        0 <= i < s.len(),
        !char_is_whitespace(s[i]),
    ensures
        trim_start(s).len() > 0,
    decreases s.len(),
{
    if char_is_whitespace(s[0]) {
        lemma_trim_start_keeps(s.skip(1), i - 1);
    }
}

proof fn lemma_trim_end_keeps(s: Seq<char>)
    requires
        s.len() > 0,
        !char_is_whitespace(s[0]),
    ensures
        trim_end(s).len() > 0,
    decreases s.len(),
{
    if char_is_whitespace(s.last()) {
        lemma_trim_end_keeps(s.drop_last());
    }
}

/// Each line of a text is one line.
proof fn lemma_lines_from(s: Seq<char>, from: int)
    requires
        0 <= from,
    ensures
        forall|i: int| 0 <= i < lines_from(s, from).len() ==> is_one_line(#[trigger] lines_from(s, from)[i]),
    decreases s.len() + 1 - from,
{
    if from < s.len() {
        lemma_next_newline(s, from);
        let end = next_newline(s, from);
        lemma_lines_from(s, end + 1);
        let rest = lines_from(s, end + 1);
        assert(is_one_line(line_between(s, from, end)));
        assert forall|i: int| 0 <= i < lines_from(s, from).len() implies is_one_line(
            #[trigger] lines_from(s, from)[i],
        ) by {
            if i > 0 {
                assert(lines_from(s, from)[i] == rest[i - 1]);
            }
        }
    }
}

/// The first of several lines that is not blank is trimmed, one line, and not empty.
proof fn lemma_first_nonblank(parts: Seq<Seq<char>>)
    requires
        forall|i: int| 0 <= i < parts.len() ==> is_one_line(#[trigger] parts[i]),
    ensures
        first_nonblank(parts) matches Some(t) ==> t.len() > 0 && is_trimmed(t) && is_one_line(t),
    decreases parts.len(),
{
    if parts.len() > 0 {
        lemma_trim(parts[0]);
        assert forall|i: int| 0 <= i < parts.skip(1).len() implies is_one_line(
            #[trigger] parts.skip(1)[i],
        ) by {
            assert(parts.skip(1)[i] == parts[i + 1]);
        }
        lemma_first_nonblank(parts.skip(1));
    }
}

/// The first line of a text that is not blank is trimmed, one line, and not
/// empty; a text that is so itself is its own first line.
pub proof fn lemma_first_line(s: Seq<char>)
    ensures
        first_nonblank(lines(s)) matches Some(t) ==> t.len() > 0 && is_trimmed(t) && is_one_line(t),
        s.len() > 0 && is_trimmed(s) && is_one_line(s) ==> first_nonblank(lines(s)) == Some(s),
{
    lemma_lines_from(s, 0);
    lemma_first_nonblank(lines(s));
    if s.len() > 0 && is_trimmed(s) && is_one_line(s) {
        lemma_next_newline(s, 0);
        assert(next_newline(s, 0) == s.len());
        assert(s.subrange(0, s.len() as int) =~= s);
        assert(lines_from(s, s.len() as int + 1) =~= Seq::empty());
        assert(lines(s)[0] == s);
        lemma_trim(s);
    }
}

/// The first line of a text that is not blank, without the white space around it.
pub fn first_nonblank_line(s: &str) -> (r: Option<String>)
    ensures
        opt(r) == first_nonblank(lines(s@)),
{
    let chars = chars_of(s);
    let mut from: usize = 0;
    while from < chars.len()
        invariant
            from <= chars.len(),
            chars@ == s@,
            first_nonblank(lines(s@)) == first_nonblank(lines_from(s@, from as int)),
        decreases chars.len() - from,
    {
        let mut end: usize = from;
        while end < chars.len() && chars[end] != '\n'
            invariant
                from <= end <= chars.len(),
                chars@ == s@,
                next_newline(s@, from as int) == next_newline(s@, end as int),
            decreases chars.len() - end,
        {
            end += 1;
        }
        assert(end == next_newline(s@, from as int));
        let stop: usize = if end < chars.len() && from < end && chars[end - 1] == '\r' {
            end - 1
        } else {
            end
        };
        let line = vstd::slice::slice_subrange(chars.as_slice(), from, stop);
        let trimmed = trim_chars(line);
        let ghost rest = lines_from(s@, end + 1);
        let ghost all = lines_from(s@, from as int);
        assert(all == seq![line_between(s@, from as int, end as int)] + rest);
        assert(all[0] == line@);
        assert(all.skip(1) =~= rest);
        if trimmed.len() > 0 {
            return Some(string_of(trimmed.as_slice()));
        }
        if end == chars.len() {
            assert(rest =~= Seq::empty());
            assert(first_nonblank(rest) is None);
            return None;
        }
        from = end + 1;
    }
    assert(lines_from(s@, from as int) =~= Seq::empty());
    None
}

/// The parts of a text between the places of a character.
pub open spec fn split_at(s: Seq<char>, sep: char) -> Seq<Seq<char>>
    decreases s.len(),
{
    if s.len() == 0 {
        seq![Seq::empty()]
    } else {
        let before = split_at(s.drop_last(), sep);
        if s.last() == sep {
            before.push(Seq::empty())
        } else {
            before.drop_last().push(before.last().push(s.last()))
        }
    }
}

/// There is always one part.
pub proof fn lemma_split_at(s: Seq<char>, sep: char)
    ensures
        split_at(s, sep).len() >= 1,
    decreases s.len(),
{
    if s.len() > 0 {
        lemma_split_at(s.drop_last(), sep);
    }
}

/// The parts of a text between the places of a character.
pub fn split_text(s: &str, sep: char) -> (r: Vec<String>)
    ensures
        views(r@) == split_at(s@, sep),
{
    let chars = chars_of(s);
    let mut out: Vec<String> = Vec::new();
    let mut part = String::new();
    let mut i: usize = 0;
    assert(s@.take(0) =~= Seq::empty());
    assert(views(out@).push(part@) =~= split_at(s@.take(0), sep));
    while i < chars.len()
        invariant
            i <= chars.len(),
            chars@ == s@,
            views(out@).push(part@) == split_at(s@.take(i as int), sep),
        decreases chars.len() - i,
    {
        let c: char = chars[i];
        let ghost before = views(out@);
        let ghost held = part@;
        proof {
            assert(s@.take(i + 1).drop_last() =~= s@.take(i as int));
            assert(before.push(held).drop_last() =~= before);
        }
        if c == sep {
            let mut next = String::new();
            core::mem::swap(&mut next, &mut part);
            assert(part@ =~= Seq::empty());
            proof {
                crate::model::lemma_views_push(out@, next);
            }
            out.push(next);
        } else {
            part.push(c);
        }
        i += 1;
    }
    assert(s@.take(s@.len() as int) =~= s@);
    proof {
        crate::model::lemma_views_push(out@, part);
    }
    out.push(part);
    out
}

/// A character with the ASCII capitals made small.
pub open spec fn ascii_small(c: char) -> char {
    if 'A' <= c <= 'Z' {
        ((c as u8) + 32) as u8 as char
    } else {
        c
    }
}

/// A text with the ASCII capitals made small.
pub open spec fn ascii_lowercase(s: Seq<char>) -> Seq<char> {
    s.map_values(|c: char| ascii_small(c))
}

/// A text with the ASCII capitals made small.
pub fn to_ascii_lowercase(s: &str) -> (r: String)
    ensures
        r@ == ascii_lowercase(s@),
{
    let chars = chars_of(s);
    let mut out = String::new();
    let mut i: usize = 0;
    while i < chars.len()
        invariant
            i <= chars.len(),
            chars@ == s@,
            out@ == ascii_lowercase(s@.take(i as int)),
        decreases chars.len() - i,
    {
        let c: char = chars[i];
        let small: char = if 'A' <= c && c <= 'Z' {
            ((c as u8) + 32) as char
        } else {
            c
        };
        out.push(small);
        i += 1;
        assert(out@ =~= ascii_lowercase(s@.take(i as int)));
    }
    assert(s@.take(s@.len() as int) =~= s@);
    out
}

/// A text filled up with spaces to a length.
pub open spec fn padded(s: Seq<char>, width: nat) -> Seq<char>
    decreases width - s.len(),
{
    if s.len() >= width {
        s
    } else {
        padded(s.push(' '), width)
    }
}

/// A text filled up with spaces to a length.
pub fn pad(s: &str, width: usize) -> (r: String)
    ensures
        r@ == padded(s@, width as nat),
{
    let mut out = s.to_owned();
    let mut n: usize = chars_of(s).len();
    while n < width
        invariant
            n == out@.len(),
            padded(s@, width as nat) == padded(out@, width as nat),
        decreases width - n,
    {
        out.push(' ');
        n += 1;
    }
    out
}

/// A text without a prefix, where it has it.
pub open spec fn after_prefix(s: Seq<char>, prefix: Seq<char>) -> Option<Seq<char>> {
    if s.len() >= prefix.len() && s.take(prefix.len() as int) == prefix {
        Some(s.skip(prefix.len() as int))
    } else {
        None
    }
}

/// A text without a prefix, where it has it.
pub fn strip_prefix(s: &str, prefix: &str) -> (r: Option<String>)
    ensures
        opt(r) == after_prefix(s@, prefix@),
{
    let chars = chars_of(s);
    let pre = chars_of(prefix);
    if chars.len() < pre.len() {
        return None;
    }
    let head = string_of(vstd::slice::slice_subrange(chars.as_slice(), 0, pre.len()));
    assert(head@ =~= s@.take(prefix@.len() as int));
    if str_eq(head.as_str(), prefix) {
        let rest = string_of(
            vstd::slice::slice_subrange(chars.as_slice(), pre.len(), chars.len()),
        );
        assert(rest@ =~= s@.skip(prefix@.len() as int));
        Some(rest)
    } else {
        None
    }
}

/// Whether a text holds another as a run of its characters.
pub open spec fn contains_text(s: Seq<char>, needle: Seq<char>) -> bool {
    exists|i: int|
        0 <= i <= s.len() - needle.len() && #[trigger] s.subrange(i, i + needle.len()) == needle
}

/// Whether a text holds another as a run of its characters.
pub fn text_contains(s: &str, needle: &str) -> (r: bool)
    ensures
        r == contains_text(s@, needle@),
{
    let hay = chars_of(s);
    let pin = chars_of(needle);
    if hay.len() < pin.len() {
        return false;
    }
    let mut i: usize = 0;
    while i <= hay.len() - pin.len()
        invariant
            hay@ == s@,
            pin@ == needle@,
            pin.len() <= hay.len(),
            i <= hay.len() - pin.len() + 1,
            forall|k: int|
                0 <= k < i ==> #[trigger] s@.subrange(k, k + needle@.len()) != needle@,
        decreases hay.len() - i,
    {
        let mut j: usize = 0;
        while j < pin.len() && hay[i + j] == pin[j]
            invariant
                hay@ == s@,
                pin@ == needle@,
                i + pin.len() <= hay.len(),
                j <= pin.len(),
                forall|k: int| 0 <= k < j ==> s@[i + k] == needle@[k],
            decreases pin.len() - j,
        {
            j += 1;
        }
        let ghost part = s@.subrange(i as int, i + needle@.len());
        if j == pin.len() {
            assert(part =~= needle@);
            return true;
        }
        assert(part[j as int] != needle@[j as int]);
        i += 1;
        if i > hay.len() - pin.len() {
            return false;
        }
    }
    false
}

/// The value of a hexadecimal digit of either case.
pub open spec fn hex_value(b: u8) -> Option<u8> {
    if '0' as u8 <= b <= '9' as u8 {
        Some((b - '0' as u8) as u8)
    } else if 'a' as u8 <= b <= 'f' as u8 {
        Some((b - 'a' as u8 + 10) as u8)
    } else if 'A' as u8 <= b <= 'F' as u8 {
        Some((b - 'A' as u8 + 10) as u8)
    } else {
        None
    }
}

/// The value of a hexadecimal digit of either case.
pub fn hex_digit_value(b: u8) -> (r: Option<u8>)
    ensures
        r == hex_value(b),
        r matches Some(v) ==> v < 16,
{
    if 48u8 <= b && b <= 57u8 {
        Some(b - 48u8)
    } else if 97u8 <= b && b <= 102u8 {
        Some(b - 97u8 + 10u8)
    } else if 65u8 <= b && b <= 70u8 {
        Some(b - 65u8 + 10u8)
    } else {
        None
    }
}

/// Whether a run of bytes spells whole bytes in hexadecimal digits.
pub open spec fn is_hex(s: Seq<u8>) -> bool {
    s.len() % 2 == 0 && forall|i: int| 0 <= i < s.len() ==> hex_value(#[trigger] s[i]) is Some
}

/// The bytes that a run of hexadecimal digits spells.
pub open spec fn hex_bytes(s: Seq<u8>) -> Seq<u8> {
    Seq::new(
        s.len() / 2,
        |i: int| (hex_value(s[2 * i])->0 * 16 + hex_value(s[2 * i + 1])->0) as u8,
    )
}

/// The bytes that a text of hexadecimal digits spells, if it is one.
pub fn decode_hex(s: &str) -> (r: Option<Vec<u8>>)
    ensures
        r is Some <==> is_hex(encode_utf8(s@)),
        r matches Some(v) ==> v@ == hex_bytes(encode_utf8(s@)),
        encode_utf8(s@).len() <= usize::MAX,
{
    let bytes = s.as_bytes();
    if bytes.len() % 2 != 0 {
        return None;
    }
    let mut out: Vec<u8> = Vec::new();
    let mut i: usize = 0;
    while i < bytes.len()
        invariant
            i <= bytes.len(),
            i % 2 == 0,
            bytes.len() % 2 == 0,
            bytes@ == encode_utf8(s@),
            out.len() == i / 2,
            forall|j: int| 0 <= j < i ==> hex_value(#[trigger] bytes@[j]) is Some,
            forall|j: int| 0 <= j < i / 2 ==> out@[j] == hex_bytes(bytes@)[j],
        decreases bytes.len() - i,
    {
        let hi: u8 = match hex_digit_value(bytes[i]) {
            Some(v) => v,
            None => {
                return None;
            },
        };
        let lo: u8 = match hex_digit_value(bytes[i + 1]) {
            Some(v) => v,
            None => {
                return None;
            },
        };
        out.push(hi * 16 + lo);
        i += 2;
    }
    assert(out@ =~= hex_bytes(bytes@));
    Some(out)
}

/// Whether a text comes no later than another in the order of their characters.
pub open spec fn text_le(a: Seq<char>, b: Seq<char>) -> bool
    decreases a.len(),
{
    if a.len() == 0 {
        true
    } else if b.len() == 0 {
        false
    } else if a[0] == b[0] {
        text_le(a.skip(1), b.skip(1))
    } else {
        a[0] < b[0]
    }
}

/// Whether a text comes no later than another in the order of their characters.
pub fn text_at_most(a: &str, b: &str) -> (r: bool)
    ensures
        r == text_le(a@, b@),
{
    let x = chars_of(a);
    let y = chars_of(b);
    let mut i: usize = 0;
    assert(x@.skip(0) =~= x@);
    assert(y@.skip(0) =~= y@);
    while i < x.len() && i < y.len()
        invariant
            i <= x.len(),
            i <= y.len(),
            x@ == a@,
            y@ == b@,
            text_le(a@, b@) == text_le(x@.skip(i as int), y@.skip(i as int)),
        decreases x.len() - i,
    {
        if x[i] != y[i] {
            return x[i] < y[i];
        }
        assert(x@.skip(i as int).skip(1) =~= x@.skip(i + 1));
        assert(y@.skip(i as int).skip(1) =~= y@.skip(i + 1));
        i += 1;
    }
    i == x.len()
}

/// The order of texts relates every two of them.
pub proof fn lemma_text_le_total(a: Seq<char>, b: Seq<char>)
    ensures
        text_le(a, b) || text_le(b, a),
    decreases a.len(),
{
    if a.len() > 0 && b.len() > 0 && a[0] == b[0] {
        lemma_text_le_total(a.skip(1), b.skip(1));
    }
}

/// The order of texts chains.
pub proof fn lemma_text_le_chains(a: Seq<char>, b: Seq<char>, c: Seq<char>)
    requires
        text_le(a, b),
        text_le(b, c),
    ensures
        text_le(a, c),
    decreases a.len(),
{
    if a.len() > 0 && b.len() > 0 && c.len() > 0 && a[0] == b[0] && b[0] == c[0] {
        lemma_text_le_chains(a.skip(1), b.skip(1), c.skip(1));
    }
}

/// Two texts of which neither comes later are the same.
pub proof fn lemma_text_le_antisymmetric(a: Seq<char>, b: Seq<char>)
    requires
        text_le(a, b),
        text_le(b, a),
    ensures
        a == b,
    decreases a.len(),
{
    if a.len() > 0 && b.len() > 0 {
        lemma_text_le_antisymmetric(a.skip(1), b.skip(1));
        assert(a =~= seq![a[0]] + a.skip(1));
        assert(b =~= seq![b[0]] + b.skip(1));
    } else {
        assert(a =~= b);
    }
}

/// Whether a character is a decimal digit.
pub open spec fn is_digit(c: char) -> bool {
    '0' <= c && c <= '9'
}

/// The number that decimal digits spell.
pub open spec fn digits_value(s: Seq<char>) -> int
    decreases s.len(),
{
    if s.len() == 0 {
        0
    } else {
        digits_value(s.drop_last()) * 10 + (s.last() as int - '0' as int)
    }
}

/// The text behind an optional plus sign.
pub open spec fn unsigned_part(s: Seq<char>) -> Seq<char> {
    if s.len() > 0 && s[0] == '+' {
        s.skip(1)
    } else {
        s
    }
}

/// The number that a text spells: decimal digits behind an optional plus sign,
/// in the range of `u64`.
pub open spec fn parsed_u64(s: Seq<char>) -> Option<u64> {
    let d = unsigned_part(s);
    if d.len() > 0 && (forall|i: int| 0 <= i < d.len() ==> is_digit(#[trigger] d[i]))
        && digits_value(d) <= u64::MAX {
        Some(digits_value(d) as u64)
    } else {
        None
    }
}

/// More digits spell no smaller number.
proof fn lemma_digits_grow(s: Seq<char>, k: int)
    requires
        0 <= k <= s.len(),
        forall|i: int| 0 <= i < s.len() ==> is_digit(#[trigger] s[i]),
    ensures
        0 <= digits_value(s.take(k)) <= digits_value(s),
    decreases s.len() - k, s.len(),
{
    if k == s.len() {
        assert(s.take(k) =~= s);
        if s.len() > 0 {
            let d = s.drop_last();
            assert forall|i: int| 0 <= i < d.len() implies is_digit(#[trigger] d[i]) by {
                assert(d[i] == s[i]);
            }
            lemma_digits_grow(d, d.len() as int);
            assert(d.take(d.len() as int) =~= d);
            assert(is_digit(s[s.len() - 1]));
        }
    } else {
        let d = s.drop_last();
        assert forall|i: int| 0 <= i < d.len() implies is_digit(#[trigger] d[i]) by {
            assert(d[i] == s[i]);
        }
        lemma_digits_grow(d, k);
        assert(d.take(k) =~= s.take(k));
        assert(is_digit(s[s.len() - 1]));
        lemma_digits_grow(d, d.len() as int);
        assert(d.take(d.len() as int) =~= d);
    }
}

/// The number that a text spells.
pub fn parse_u64(s: &str) -> (r: Option<u64>)
    ensures
        r == parsed_u64(s@),
{
    let chars = chars_of(s);
    let from: usize = if chars.len() > 0 && chars[0] == '+' {
        1
    } else {
        0
    };
    let ghost d = unsigned_part(s@);
    assert(d =~= chars@.skip(from as int));
    if from == chars.len() {
        return None;
    }
    let mut k: usize = from;
    while k < chars.len()
        invariant
            from <= k <= chars.len(),
            d == chars@.skip(from as int),
            d == unsigned_part(s@),
            forall|i: int| 0 <= i < k - from ==> is_digit(#[trigger] d[i]),
        decreases chars.len() - k,
    {
        if !('0' <= chars[k] && chars[k] <= '9') {
            assert(!is_digit(d[k - from]));
            return None;
        }
        assert(d[k - from] == chars@[k as int]);
        k += 1;
    }
    let mut value: u64 = 0;
    let mut i: usize = from;
    assert(d.take(0) =~= Seq::empty());
    while i < chars.len()
        invariant
            from <= i <= chars.len(),
            d == chars@.skip(from as int),
            d == unsigned_part(s@),
            d.len() == chars.len() - from,
            forall|j: int| 0 <= j < d.len() ==> is_digit(#[trigger] d[j]),
            value == digits_value(d.take(i - from)),
        decreases chars.len() - i,
    {
        let c = chars[i];
        assert(c == d[i - from]);
        assert(is_digit(d[i - from]));
        let digit: u64 = (c as u32 - '0' as u32) as u64;
        proof {
            assert(d.take(i - from + 1).drop_last() =~= d.take(i - from));
            lemma_digits_grow(d, i - from + 1);
        }
        if value > (u64::MAX - digit) / 10 {
            assert(value * 10 + digit > u64::MAX);
            return None;
        }
        value = value * 10 + digit;
        i += 1;
    }
    assert(d.take(d.len() as int) =~= d);
    Some(value)
}

/// What is cut off in front is white space.
proof fn lemma_trim_start_cuts(s: Seq<char>)
    ensures
        forall|i: int|
            0 <= i < s.len() - trim_start(s).len() ==> char_is_whitespace(#[trigger] s[i]),
    decreases s.len(),
{
    if s.len() > 0 && char_is_whitespace(s[0]) {
        lemma_trim_start(s.skip(1));
        lemma_trim_start_cuts(s.skip(1));
        assert forall|i: int| 0 <= i < s.len() - trim_start(s).len() implies char_is_whitespace(
            #[trigger] s[i],
        ) by {
            if i > 0 {
                assert(s.skip(1)[i - 1] == s[i]);
            }
        }
    }
}

/// Whether a part stands at a place of a text, with nothing but white space before it from
/// a position on.
pub open spec fn opens_at(s: Seq<char>, t: Seq<char>, from: int, f: int) -> bool {
    from <= f && stands_at(s, t, f) && forall|i: int|
        from <= i < f ==> char_is_whitespace(#[trigger] s[i])
}

/// The first line that is not blank stands where the text first has something other
/// than white space.
proof fn lemma_first_words(s: Seq<char>, from: int)
    requires
        0 <= from <= s.len(),
    ensures
        first_nonblank(lines_from(s, from)) is Some ==> exists|f: int| #[trigger]
            opens_at(s, first_nonblank(lines_from(s, from))->0, from, f),
        first_nonblank(lines_from(s, from)) is None ==> forall|i: int|
            from <= i < s.len() ==> char_is_whitespace(#[trigger] s[i]),
    decreases s.len() - from,
{
    if from < s.len() {
        lemma_next_newline(s, from);
        let end = next_newline(s, from);
        let line = line_between(s, from, end);
        let rest = lines_from(s, end + 1);
        let all = lines_from(s, from);
        assert(all =~= seq![line] + rest);
        assert(all.skip(1) =~= rest);
        let t = trim(line);
        let a = trim_start(line);
        lemma_trim_start(line);
        lemma_trim_start_cuts(line);
        lemma_trim_end(a);
        assert(forall|i: int| 0 <= i < line.len() ==> #[trigger] line[i] == s[from + i]);
        if t.len() > 0 {
            assert(first_nonblank(all) == Some(t));
            let f: int = from + line.len() - a.len();
            assert forall|k: int| 0 <= k < t.len() implies #[trigger] s[f + k] == t[k] by {
                assert(t[k] == a[k]);
                assert(a[k] == line[line.len() - a.len() + k]);
            }
            assert(stands_at(s, t, f));
            assert forall|i: int| from <= i < f implies char_is_whitespace(#[trigger] s[i]) by {
                assert(line[i - from] == s[i]);
            }
            assert(opens_at(s, t, from, f));
            assert(first_nonblank(lines_from(s, from)) == Some(t));
            assert(opens_at(s, first_nonblank(lines_from(s, from))->0, from, f));
        } else {
            lemma_blank(line);
            assert forall|i: int| from <= i < end + 1 && i < s.len() implies char_is_whitespace(
                #[trigger] s[i],
            ) by {
                if i < from + line.len() {
                    assert(line[i - from] == s[i]);
                }
            }
            if end < s.len() {
                lemma_first_words(s, end + 1);
                if let Some(w) = first_nonblank(rest) {
                    let f = choose|f: int| #[trigger] opens_at(s, w, end + 1, f);
                    assert forall|i: int| from <= i < f implies char_is_whitespace(
                        #[trigger] s[i],
                    ) by {
                        if i >= end + 1 {
                            assert(opens_at(s, w, end + 1, f));
                        }
                    }
                    assert(first_nonblank(all) == Some(w));
                    assert(opens_at(s, w, from, f));
                } else {
                    assert(first_nonblank(all) is None);
                    assert forall|i: int| from <= i < s.len() implies char_is_whitespace(
                        #[trigger] s[i],
                    ) by {
                        if i >= end + 1 {
                            assert(first_nonblank(lines_from(s, end + 1)) is None);
                        }
                    }
                }
            } else {
                assert(rest =~= Seq::empty());
                assert(first_nonblank(rest) is None);
                assert(first_nonblank(all) == first_nonblank(rest));
                assert(forall|i: int| from <= i < s.len() ==> char_is_whitespace(#[trigger] s[i]));
            }
        }
    } else {
        assert(lines_from(s, from) =~= Seq::empty());
        assert(first_nonblank(lines_from(s, from)) is None);
    }
}

/// The first line of a text that is not blank is the part of the text that begins with
/// its first character other than white space; there is none where all is white space.
pub proof fn law_first_line_begins_the_text(s: Seq<char>)
    ensures
        first_nonblank(lines(s)) is Some ==> exists|f: int| #[trigger]
            opens_at(s, first_nonblank(lines(s))->0, 0, f),
        first_nonblank(lines(s)) is None ==> forall|i: int|
            0 <= i < s.len() ==> char_is_whitespace(#[trigger] s[i]),
{
    lemma_first_words(s, 0);
}

/// The decimal text of a number is made of digits, and spells the number.
pub proof fn lemma_decimal_spells(n: nat)
    ensures
        decimal(n).len() > 0,
        forall|i: int| 0 <= i < decimal(n).len() ==> is_digit(#[trigger] decimal(n)[i]),
        digits_value(decimal(n)) == n,
    decreases n,
{
    reveal_with_fuel(digits_value, 2);
    if n >= 10 {
        lemma_decimal_spells(n / 10);
        let front = decimal(n / 10);
        assert(decimal(n).drop_last() =~= front);
        assert forall|i: int| 0 <= i < decimal(n).len() implies is_digit(
            #[trigger] decimal(n)[i],
        ) by {
            if i < front.len() {
                assert(is_digit(front[i]));
            }
        }
    } else {
        assert(decimal(n).drop_last() =~= Seq::empty());
    }
}

/// The decimal text of a number is read back as the number.
pub proof fn law_number_is_read_back(n: u64)
    ensures
        parsed_u64(decimal(n as nat)) == Some(n),
{
    lemma_decimal_spells(n as nat);
    assert(is_digit(decimal(n as nat)[0]));
}

/// The parts of a text, joined by the separator, are the text, and no part holds the
/// separator.
pub proof fn law_parts_of_a_text_add_up(s: Seq<char>, sep: char)
    ensures
        join(split_at(s, sep), seq![sep]) == s,
        forall|i: int, k: int|
            0 <= i < split_at(s, sep).len() && 0 <= k < split_at(s, sep)[i].len()
                ==> #[trigger] split_at(s, sep)[i][k] != sep,
    decreases s.len(),
{
    let parts = split_at(s, sep);
    if s.len() == 0 {
        assert(join(parts, seq![sep]) =~= s);
    } else {
        let d = s.drop_last();
        let before = split_at(d, sep);
        law_parts_of_a_text_add_up(d, sep);
        lemma_split_at(d, sep);
        if s.last() == sep {
            assert(parts.drop_last() =~= before);
            assert(join(parts, seq![sep]) =~= d + seq![sep] + Seq::<char>::empty());
            assert(join(parts, seq![sep]) =~= s);
        } else {
            assert(parts.drop_last() =~= before.drop_last());
            if before.len() == 1 {
                assert(join(before, seq![sep]) == before[0]);
                assert(parts.len() == 1 && parts[0] == d.push(s.last()));
                assert(join(parts, seq![sep]) =~= s);
            } else {
                let head = join(before.drop_last(), seq![sep]) + seq![sep];
                assert(join(parts, seq![sep]) == head + before.last().push(s.last()));
                assert(d == head + before.last());
                assert(s =~= d.push(s.last()));
                assert((head + before.last()).push(s.last()) =~= head + before.last().push(s.last()));
                assert(join(parts, seq![sep]) =~= s);
            }
        }
    }
}

/// A text that is filled up keeps what it has, and gets spaces up to the width.
pub proof fn law_padding_adds_only_spaces(s: Seq<char>, width: nat)
    ensures
        padded(s, width).len() == (if s.len() >= width {
            s.len()
        } else {
            width
        }),
        stands_at(padded(s, width), s, 0),
        forall|i: int| s.len() <= i < padded(s, width).len() ==> #[trigger] padded(s, width)[i] == ' ',
    decreases width - s.len(),
{
    if s.len() < width {
        law_padding_adds_only_spaces(s.push(' '), width);
        let p = padded(s, width);
        assert(p[s.len() as int] == ' ') by {
            assert(p[0 + s.len() as int] == s.push(' ')[s.len() as int]);
        }
        assert forall|k: int| 0 <= k < s.len() implies #[trigger] p[0 + k] == s[k] by {
            assert(p[0 + k] == s.push(' ')[k]);
        }
    }
}

/// A text is cut only where it is longer than allowed, and then behind the allowed number
/// of characters.
pub proof fn law_shortening_keeps_the_start(s: Seq<char>, max: nat)
    ensures
        s.len() <= max ==> shortened(s, max) == s,
        s.len() > max ==> shortened(s, max).len() == max + 1 && stands_at(
            shortened(s, max),
            s.take(max as int),
            0,
        ) && shortened(s, max).last() == '\u{2026}',
{
}

/// Different numbers have different decimal texts.
pub proof fn law_decimal_texts_are_told_apart(m: nat, n: nat)
    requires
        decimal(m) == decimal(n),
    ensures
        m == n,
{
    lemma_decimal_spells(m);
    lemma_decimal_spells(n);
}

/// What is cut off at the end is white space.
proof fn lemma_trim_end_cuts(s: Seq<char>)
    ensures
        forall|i: int| trim_end(s).len() <= i < s.len() ==> char_is_whitespace(#[trigger] s[i]),
    decreases s.len(),
{
    if s.len() > 0 && char_is_whitespace(s.last()) {
        let d = s.drop_last();
        lemma_trim_end_cuts(d);
        assert forall|i: int| trim_end(s).len() <= i < s.len() implies char_is_whitespace(
            #[trigger] s[i],
        ) by {
            if i < d.len() {
                assert(d[i] == s[i]);
            }
        }
    }
}

/// Trimming cuts off nothing but white space, on both sides, and leaves none there.
pub proof fn law_trimming_cuts_only_white_space(s: Seq<char>)
    ensures
        is_trimmed(trim(s)),
        exists|f: int| #[trigger]
            opens_at(s, trim(s), 0, f) && (forall|i: int|
                f + trim(s).len() <= i < s.len() ==> char_is_whitespace(#[trigger] s[i])),
{
    let a = trim_start(s);
    let t = trim(s);
    lemma_trim(s);
    lemma_trim_start(s);
    lemma_trim_start_cuts(s);
    lemma_trim_end(a);
    lemma_trim_end_cuts(a);
    let f: int = s.len() - a.len();
    assert forall|k: int| 0 <= k < t.len() implies #[trigger] s[f + k] == t[k] by {
        assert(t[k] == a[k]);
        assert(a[k] == s[f + k]);
    }
    assert(opens_at(s, t, 0, f));
    assert forall|i: int| f + t.len() <= i < s.len() implies char_is_whitespace(
        #[trigger] s[i],
    ) by {
        assert(a[i - f] == s[i]);
    }
}

/// Making capitals small changes the capital letters of ASCII and nothing else.
pub proof fn law_only_capitals_are_made_small(s: Seq<char>)
    ensures
        ascii_lowercase(s).len() == s.len(),
        forall|i: int|
            0 <= i < s.len() ==> (if 'A' <= s[i] <= 'Z' {
                (#[trigger] ascii_lowercase(s)[i]) as int == s[i] as int + 32
            } else {
                ascii_lowercase(s)[i] == s[i]
            }),
{
}

} // verus!
