//! Text as sequences of characters: taking a string apart into characters,
//! putting characters together into a string, and cutting a text into lines.

use vstd::prelude::*;

verus! {

/// `String::push` of the standard library appends one character to the end
/// of the string and leaves what was there untouched.
pub assume_specification[ String::push ](s: &mut String, ch: char)
    ensures
        final(s)@ == old(s)@.push(ch),
;

/// Whether `needle` stands in `hay` at index `at`.
pub open spec fn occurs_at(needle: Seq<char>, hay: Seq<char>, at: int) -> bool {
    0 <= at && at + needle.len() <= hay.len() && hay.subrange(at, at + needle.len()) == needle
}

/// Whether `needle` occurs somewhere in `hay` as a run of adjacent
/// characters. The empty sequence occurs in every sequence.
pub open spec fn is_substring(needle: Seq<char>, hay: Seq<char>) -> bool {
    exists|at: int| occurs_at(needle, hay, at)
}

/// `str::contains` of the standard library, called with a string as the
/// pattern, tells whether the pattern occurs in the string as a substring.
/// Both are UTF-8, so an occurrence of the one's bytes in the other's is an
/// occurrence of its characters.
#[verifier::external_body]
pub(crate) fn contains(hay: &str, needle: &str) -> (found: bool)
    ensures
        found == is_substring(needle@, hay@),
{
    hay.contains(needle)
}

/// The index of the first line break at or after `from`, or the length of
/// `text` where none follows.
pub open spec fn line_end(text: Seq<char>, from: int) -> int
    decreases text.len() - from,
{
    if 0 <= from < text.len() && text[from] != '\n' {
        line_end(text, from + 1)
    } else {
        from
    }
}

/// The lines of `text` from index `from` on, without their line breaks, up
/// to the first empty line or the end of the text. What follows an empty line
/// is not looked at.
pub open spec fn lines_from(text: Seq<char>, from: int) -> Seq<Seq<char>>
    decreases text.len() - from,
{
    let end = line_end(text, from);
    if 0 <= from < end < text.len() {
        seq![text.subrange(from, end)] + lines_from(text, end + 1)
    } else if 0 <= from < end {
        seq![text.subrange(from, end)]
    } else {
        Seq::empty()
    }
}

/// The lines of `text` up to its first empty line.
pub open spec fn leading_lines(text: Seq<char>) -> Seq<Seq<char>> {
    lines_from(text, 0)
}

/// The views of a sequence of lines.
pub open spec fn line_views(lines: Seq<Vec<char>>) -> Seq<Seq<char>> {
    lines.map_values(|line: Vec<char>| line@)
}

/// The characters of `s`, in order.
pub fn to_chars(s: &str) -> (v: Vec<char>)
    ensures
        v@ == s@,
{
    let mut v: Vec<char> = Vec::new();
    for c in it: s.chars()
        invariant
            v@ == it.seq().take(it.index()),
            it.seq() == s@,
    {
        v.push(c);
    }
    v
}

/// The characters `chars[from..to]` as a string.
pub fn string_of(chars: &Vec<char>, from: usize, to: usize) -> (s: String)
    requires
        from <= to <= chars.len(),
    ensures
        s@ == chars@.subrange(from as int, to as int),
{
    let mut s = String::new();
    let mut i: usize = from;
    while i < to
        invariant
            from <= i <= to <= chars.len(),
            s@ == chars@.subrange(from as int, i as int),
        decreases to - i,
    {
        s.push(chars[i]);
        i = i + 1;
    }
    s
}

/// A copy of the characters `chars[from..to]`.
pub fn chars_of(chars: &Vec<char>, from: usize, to: usize) -> (part: Vec<char>)
    requires
        from <= to <= chars.len(),
    ensures
        part@ == chars@.subrange(from as int, to as int),
{
    let mut part: Vec<char> = Vec::new();
    let mut i: usize = from;
    while i < to
        invariant
            from <= i <= to <= chars.len(),
            part@ == chars@.subrange(from as int, i as int),
        decreases to - i,
    {
        part.push(chars[i]);
        i = i + 1;
    }
    part
}

/// Executable form of [`line_end`].
pub fn find_line_end(text: &Vec<char>, from: usize) -> (end: usize)
    requires
        from <= text.len(),
    ensures
        end == line_end(text@, from as int),
        from <= end <= text.len(),
{
    let mut i: usize = from;
    while i < text.len() && text[i] != '\n'
        invariant
            from <= i <= text.len(),
            line_end(text@, from as int) == line_end(text@, i as int),
        decreases text.len() - i,
    {
        i = i + 1;
    }
    i
}

/// The lines of `text` up to its first empty line, each as its characters.
pub fn split_lines(text: &str) -> (lines: Vec<Vec<char>>)
    ensures
        line_views(lines@) == leading_lines(text@),
{
    let chars = to_chars(text);
    let mut lines: Vec<Vec<char>> = Vec::new();
    let mut from: usize = 0;
    loop
        invariant_except_break
            from <= chars.len(),
            chars@ == text@,
            leading_lines(text@) == line_views(lines@) + lines_from(text@, from as int),
        ensures
            line_views(lines@) == leading_lines(text@),
        decreases chars.len() - from,
    {
        let end = find_line_end(&chars, from);
        if end == from {
            assert(lines_from(text@, from as int) =~= Seq::empty());
            assert(line_views(lines@) + Seq::<Seq<char>>::empty() =~= line_views(lines@));
            break;
        }
        let line = chars_of(&chars, from, end);
        proof {
            assert(line_views(lines@.push(line)) =~= line_views(lines@).push(line@));
            assert(line_views(lines@).push(line@) =~= line_views(lines@) + seq![line@]);
            if end < chars.len() {
                assert(line_views(lines@).push(line@) + lines_from(text@, end + 1)
                    =~= line_views(lines@) + (seq![line@] + lines_from(text@, end + 1)));
            }
        }
        lines.push(line);
        if end == chars.len() {
            break;
        }
        from = end + 1;
    }
    lines
}

/// Appends the characters of `chars` to `out`.
pub fn push_chars(out: &mut String, chars: &Vec<char>)
    ensures
        final(out)@ == old(out)@ + chars@,
{
    let mut i: usize = 0;
    while i < chars.len()
        invariant
            i <= chars.len(),
            out@ == old(out)@ + chars@.take(i as int),
        decreases chars.len() - i,
    {
        out.push(chars[i]);
        assert(chars@.take(i + 1) =~= chars@.take(i as int).push(chars@[i as int]));
        i = i + 1;
    }
    assert(chars@.take(chars.len() as int) =~= chars@);
}

} // verus!
