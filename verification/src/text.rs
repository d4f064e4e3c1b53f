//! Character-level helpers shared by the codec and the path rules.
//!
//! Strings are viewed as `Seq<char>`; every function here states its result
//! over that view.

use vstd::prelude::*;

verus! {

/// `needle` occurs in `hay` starting at position `at`.
pub open spec fn occurs_at(hay: Seq<char>, needle: Seq<char>, at: int) -> bool {
    &&& 0 <= at
    &&& at + needle.len() <= hay.len()
    &&& hay.subrange(at, at + needle.len()) == needle
}

/// `needle` occurs somewhere in `hay`.
pub open spec fn occurs_in(hay: Seq<char>, needle: Seq<char>) -> bool {
    exists|at: int| occurs_at(hay, needle, at)
}

/// `hay` begins with `needle`.
pub open spec fn begins_with(hay: Seq<char>, needle: Seq<char>) -> bool {
    occurs_at(hay, needle, 0)
}

/// `hay` ends with `needle`.
pub open spec fn finishes_with(hay: Seq<char>, needle: Seq<char>) -> bool {
    occurs_at(hay, needle, hay.len() - needle.len())
}

/// The views of the strings in `texts`.
pub open spec fn text_views(texts: Seq<String>) -> Seq<Seq<char>> {
    texts.map_values(|t: String| t@)
}

/// The characters of `s`, in order.
pub fn chars_of(s: &str) -> (out: Vec<char>)
    ensures
        out@ == s@,
{
    let mut out: Vec<char> = Vec::new();
    for c in it: s.chars()
        invariant
            out@ == it.seq().take(it.index() as int),
            it.seq() == s@,
    {
        out.push(c);
    }
    out
}

/// Appends one character to a string.
///
/// Trusted: this is `String::push`, which the standard library documents as
/// appending the given character to the end of the string.
#[verifier::external_body]
pub(crate) fn push_char(s: &mut String, c: char)
    ensures
        final(s)@ == old(s)@.push(c),
{
    s.push(c);
}

/// Whether two string slices hold the same characters.
///
/// Trusted: this is `==` on `str`, which the standard library documents as
/// comparing the two slices' contents.
#[verifier::external_body]
pub(crate) fn same_text(a: &str, b: &str) -> (same: bool)
    ensures
        same == (a@ == b@),
{
    a == b
}

/// The string made of the characters `chars[from..to]`.
pub fn string_of(chars: &Vec<char>, from: usize, to: usize) -> (out: String)
    requires
        from <= to <= chars.len(),
    ensures
        out@ == chars@.subrange(from as int, to as int),
{
    let mut out = String::new();
    let mut i: usize = from;
    while i < to
        invariant
            from <= i <= to <= chars.len(),
            out@ == chars@.subrange(from as int, i as int),
        decreases to - i,
    {
        push_char(&mut out, chars[i]);
        i += 1;
        assert(chars@.subrange(from as int, i as int) == chars@.subrange(
            from as int,
            i as int - 1,
        ).push(chars@[i as int - 1]));
    }
    out
}

/// Whether `needle` occurs in `hay` at position `at`.
pub fn matches_at(hay: &Vec<char>, needle: &Vec<char>, at: usize) -> (found: bool)
    ensures
        found == occurs_at(hay@, needle@, at as int),
{
    if needle.len() > hay.len() || at > hay.len() - needle.len() {
        return false;
    }
    let mut k: usize = 0;
    while k < needle.len()
        invariant
            k <= needle.len(),
            at + needle.len() <= hay.len(),
            forall|j: int| 0 <= j < k ==> hay@[at + j] == needle@[j],
        decreases needle.len() - k,
    {
        if hay[at + k] != needle[k] {
            proof {
                let window = hay@.subrange(at as int, at + needle.len());
                assert(window[k as int] != needle@[k as int]);
            }
            return false;
        }
        k += 1;
    }
    assert(hay@.subrange(at as int, at + needle.len()) =~= needle@);
    true
}

/// Whether `hay` begins with `needle`.
pub fn starts_with(hay: &Vec<char>, needle: &Vec<char>) -> (found: bool)
    ensures
        found == begins_with(hay@, needle@),
{
    matches_at(hay, needle, 0)
}

/// Whether `hay` ends with `needle`.
pub fn ends_with(hay: &Vec<char>, needle: &Vec<char>) -> (found: bool)
    ensures
        found == finishes_with(hay@, needle@),
{
    if needle.len() > hay.len() {
        return false;
    }
    matches_at(hay, needle, hay.len() - needle.len())
}

/// Whether `needle` occurs anywhere in `hay`.
pub fn contains(hay: &Vec<char>, needle: &Vec<char>) -> (found: bool)
    ensures
        found == occurs_in(hay@, needle@),
{
    if needle.len() > hay.len() {
        return false;
    }
    let last: usize = hay.len() - needle.len();
    let mut at: usize = 0;
    loop
        invariant
            last == hay.len() - needle.len(),
            at <= last,
            forall|j: int| 0 <= j < at ==> !occurs_at(hay@, needle@, j),
        decreases last - at,
    {
        if matches_at(hay, needle, at) {
            return true;
        }
        if at == last {
            return false;
        }
        at += 1;
    }
}

/// Whether the character `c` occurs in `hay`.
pub fn contains_char(hay: &Vec<char>, c: char) -> (found: bool)
    ensures
        found == hay@.contains(c),
{
    let mut i: usize = 0;
    while i < hay.len()
        invariant
            i <= hay.len(),
            forall|j: int| 0 <= j < i ==> hay@[j] != c,
        decreases hay.len() - i,
    {
        if hay[i] == c {
            return true;
        }
        i += 1;
    }
    false
}

/// Whether two character sequences are the same.
pub fn same_chars(a: &Vec<char>, b: &Vec<char>) -> (same: bool)
    ensures
        same == (a@ == b@),
{
    if a.len() != b.len() {
        return false;
    }
    let found = matches_at(a, b, 0);
    proof {
        assert(a@.subrange(0, a@.len() as int) =~= a@);
    }
    found
}

/// Where the first piece of `text` ends: at the first `sep`, or at the end
/// of the text.
pub open spec fn piece_end(text: Seq<char>, sep: char) -> int
    decreases text.len(),
{
    if text.len() == 0 || text[0] == sep {
        0
    } else {
        1 + piece_end(text.skip(1), sep)
    }
}

/// The first piece ends inside the text, and holds no separator.
pub proof fn piece_end_bounds(text: Seq<char>, sep: char)
    ensures
        0 <= piece_end(text, sep) <= text.len(),
        piece_end(text, sep) < text.len() ==> text[piece_end(text, sep)] == sep,
        forall|i: int| 0 <= i < piece_end(text, sep) ==> text[i] != sep,
    decreases text.len(),
{
    if text.len() != 0 && text[0] != sep {
        piece_end_bounds(text.skip(1), sep);
        assert forall|i: int| 0 <= i < piece_end(text, sep) implies text[i] != sep by {
            if i > 0 {
                assert(text.skip(1)[i - 1] == text[i]);
            }
        }
    }
}

/// The pieces into which the separator `sep` cuts `text`, in order. A text
/// without a separator is one piece; a separator at the end leaves an empty
/// last piece.
pub open spec fn pieces(text: Seq<char>, sep: char) -> Seq<Seq<char>>
    decreases text.len(),
    via pieces_decreases
{
    let end = piece_end(text, sep);
    if end >= text.len() {
        seq![text]
    } else {
        seq![text.take(end)] + pieces(text.skip(end + 1), sep)
    }
}

#[via_fn]
proof fn pieces_decreases(text: Seq<char>, sep: char) {
    piece_end_bounds(text, sep);
}

/// The spans `spans` are those of the pieces of `text`: each gives where a
/// piece starts and where it ends.
pub open spec fn spans_of(spans: Seq<(usize, usize)>, text: Seq<char>, sep: char) -> bool {
    &&& spans.len() == pieces(text, sep).len()
    &&& forall|k: int|
        #![trigger spans[k]]
        0 <= k < spans.len() ==> {
            &&& spans[k].0 <= spans[k].1
            &&& spans[k].1 <= text.len()
            &&& pieces(text, sep)[k] == text.subrange(spans[k].0 as int, spans[k].1 as int)
        }
}

/// Finds where the pieces of `text` start and end.
pub fn split_spans(text: &Vec<char>, sep: char) -> (spans: Vec<(usize, usize)>)
    ensures
        spans_of(spans@, text@, sep),
        spans.len() > 0,
{
    let mut spans: Vec<(usize, usize)> = Vec::new();
    let mut start: usize = 0;
    let mut i: usize = 0;
    let ghost mut done: Seq<Seq<char>> = Seq::empty();
    assert(text@.skip(0) =~= text@);
    assert(done + pieces(text@.skip(0), sep) =~= pieces(text@, sep));
    loop
        invariant
            start <= i <= text.len(),
            spans.len() == done.len(),
            pieces(text@, sep) == done + pieces(text@.skip(start as int), sep),
            forall|k: int|
                #![trigger spans[k]]
                0 <= k < spans.len() ==> {
                    &&& spans[k].0 <= spans[k].1
                    &&& spans[k].1 <= text.len()
                    &&& done[k] == text@.subrange(spans[k].0 as int, spans[k].1 as int)
                },
            piece_end(text@.skip(start as int), sep) == (i - start) + piece_end(
                text@.skip(i as int),
                sep,
            ),
        decreases text.len() - i,
    {
        let ghost tail = text@.skip(start as int);
        proof {
            piece_end_bounds(tail, sep);
            piece_end_bounds(text@.skip(i as int), sep);
        }
        if i == text.len() {
            spans.push((start, i));
            proof {
                assert(piece_end(text@.skip(i as int), sep) == 0);
                assert(pieces(tail, sep) == seq![tail]);
                assert(tail =~= text@.subrange(start as int, i as int));
                done = done.push(tail);
                assert(pieces(text@, sep) =~= done);
            }
            return spans;
        }
        if text[i] == sep {
            spans.push((start, i));
            proof {
                assert(text@.skip(i as int)[0] == text@[i as int]);
                assert(piece_end(text@.skip(i as int), sep) == 0);
                assert(piece_end(tail, sep) == i - start);
                assert(tail.take(i - start) =~= text@.subrange(start as int, i as int));
                assert(tail.skip(i - start + 1) =~= text@.skip(i as int + 1));
                let before = done;
                done = done.push(tail.take(i - start));
                assert(before + (seq![tail.take(i - start)] + pieces(
                    text@.skip(i as int + 1),
                    sep,
                )) =~= done + pieces(text@.skip(i as int + 1), sep));
            }
            i += 1;
            start = i;
            assert(text@.skip(start as int) == text@.skip(i as int));
        } else {
            proof {
                assert(text@.skip(i as int)[0] == text@[i as int]);
                assert(text@.skip(i as int).skip(1) =~= text@.skip(i as int + 1));
            }
            i += 1;
        }
    }
}

} // verus!
