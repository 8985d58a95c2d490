//! Cutting text into lines, words and fields, as the listings of the catalog
//! need it.

use vstd::prelude::*;
use crate::std_text::is_space;
use crate::text::{matches_at, occurs_at};

verus! {

/// The text without the white space at its beginning.
pub open spec fn trim_start(text: Seq<char>) -> Seq<char>
    decreases text.len(),
{
    if text.len() > 0 && is_space(text[0]) {
        trim_start(text.drop_first())
    } else {
        text
    }
}

/// The text without the white space at its end.
pub open spec fn trim_end(text: Seq<char>) -> Seq<char>
    decreases text.len(),
{
    if text.len() > 0 && is_space(text.last()) {
        trim_end(text.drop_last())
    } else {
        text
    }
}

/// The text without the white space at its beginning and at its end.
pub open spec fn trimmed(text: Seq<char>) -> Seq<char> {
    trim_end(trim_start(text))
}

/// The last place at or before `upto` where `pattern` stands in `text`.
pub open spec fn rfind_from(text: Seq<char>, pattern: Seq<char>, upto: int) -> Option<int>
    decreases upto + 1,
{
    if upto < 0 {
        None
    } else if occurs_at(text, pattern, upto) {
        Some(upto)
    } else {
        rfind_from(text, pattern, upto - 1)
    }
}

/// The last place where `pattern` stands in `text`.
pub open spec fn rfind_text(text: Seq<char>, pattern: Seq<char>) -> Option<int> {
    rfind_from(text, pattern, text.len() - pattern.len())
}

/// The text with a blank in place of every line feed.
pub open spec fn unfolded(text: Seq<char>) -> Seq<char> {
    text.map_values(
        |c: char|
            if c == '\n' {
                ' '
            } else {
                c
            },
    )
}

/// The pieces of a text between the characters `mark`, empty ones included.
/// There is always at least one.
pub open spec fn pieces(text: Seq<char>, mark: char) -> Seq<Seq<char>>
    decreases text.len(),
{
    if text.len() == 0 {
        seq![Seq::empty()]
    } else if text.last() == mark {
        pieces(text.drop_last(), mark).push(Seq::empty())
    } else {
        let before = pieces(text.drop_last(), mark);
        before.drop_last().push(before.last().push(text.last()))
    }
}

/// The piece without the carriage return at its end, if it has one.
pub open spec fn without_return(piece: Seq<char>) -> Seq<char> {
    if piece.len() > 0 && piece.last() == '\r' {
        piece.drop_last()
    } else {
        piece
    }
}

/// The lines of a text. A line ends with a line feed, which may follow a
/// carriage return; neither belongs to the line. What follows the last line
/// feed is a line too, as it stands, unless it is empty.
pub open spec fn lines_of(text: Seq<char>) -> Seq<Seq<char>> {
    let all = pieces(text, '\n');
    let ended = all.drop_last().map_values(|piece: Seq<char>| without_return(piece));
    if all.last().len() == 0 {
        ended
    } else {
        ended.push(all.last())
    }
}

/// The pieces of a text between its white space characters, empty ones
/// included.
pub open spec fn space_pieces(text: Seq<char>) -> Seq<Seq<char>>
    decreases text.len(),
{
    if text.len() == 0 {
        seq![Seq::empty()]
    } else if is_space(text.last()) {
        space_pieces(text.drop_last()).push(Seq::empty())
    } else {
        let before = space_pieces(text.drop_last());
        before.drop_last().push(before.last().push(text.last()))
    }
}

/// The pieces that hold something, in order.
pub open spec fn filled(all: Seq<Seq<char>>) -> Seq<Seq<char>>
    decreases all.len(),
{
    if all.len() == 0 {
        Seq::empty()
    } else if all.last().len() > 0 {
        filled(all.drop_last()).push(all.last())
    } else {
        filled(all.drop_last())
    }
}

/// The words of a text: what stands between white space.
pub open spec fn words_of(text: Seq<char>) -> Seq<Seq<char>> {
    filled(space_pieces(text))
}

/// The number of bytes that a character takes in UTF-8.
pub open spec fn utf8_width(c: char) -> nat {
    if (c as u32) < 0x80 {
        1
    } else if (c as u32) < 0x800 {
        2
    } else if (c as u32) < 0x10000 {
        3
    } else {
        4
    }
}

/// What is left when the beginning is trimmed does not begin with white
/// space.
pub proof fn lemma_trim_start_begins(text: Seq<char>)
    ensures
        trim_start(text).len() > 0 ==> !is_space(trim_start(text)[0]),
    decreases text.len(),
{
    if text.len() > 0 && is_space(text[0]) {
        lemma_trim_start_begins(text.drop_first());
    }
}

/// What is left when the end is trimmed is the beginning of the text, and
/// does not end with white space.
pub proof fn lemma_trim_end_ends(text: Seq<char>)
    ensures
        trim_end(text).len() <= text.len(),
        trim_end(text) == text.take(trim_end(text).len() as int),
        trim_end(text).len() > 0 ==> !is_space(trim_end(text).last()),
    decreases text.len(),
{
    if text.len() > 0 && is_space(text.last()) {
        lemma_trim_end_ends(text.drop_last());
        let kept = trim_end(text.drop_last());
        assert(text.drop_last().take(kept.len() as int) =~= text.take(kept.len() as int));
    } else {
        assert(text.take(text.len() as int) =~= text);
    }
}

/// A trimmed text neither begins nor ends with white space.
pub proof fn lemma_trimmed_is_bare(text: Seq<char>)
    ensures
        trimmed(text).len() > 0 ==> !is_space(trimmed(text)[0]) && !is_space(trimmed(text).last()),
{
    lemma_trim_start_begins(text);
    lemma_trim_end_ends(trim_start(text));
}

/// Every text has a piece.
pub proof fn lemma_pieces_nonempty(text: Seq<char>, mark: char)
    ensures
        pieces(text, mark).len() >= 1,
    decreases text.len(),
{
    if text.len() > 0 {
        lemma_pieces_nonempty(text.drop_last(), mark);
    }
}

/// The characters `from..to` of `chars`.
pub fn slice(chars: &Vec<char>, from: usize, to: usize) -> (part: Vec<char>)
    requires
        from <= to <= chars.len(),
    ensures
        part@ == chars@.subrange(from as int, to as int),
{
    let mut part: Vec<char> = Vec::new();
    let mut i: usize = from;
    while i < to
        invariant
            from <= i <= to,
            to <= chars.len(),
            part@ == chars@.subrange(from as int, i as int),
        decreases to - i,
    {
        part.push(chars[i]);
        assert(chars@.subrange(from as int, i + 1) =~= chars@.subrange(from as int, i as int).push(
            chars@[i as int],
        ));
        i += 1;
    }
    part
}

/// The text without the white space at its beginning and at its end.
pub fn trim(chars: &Vec<char>) -> (part: Vec<char>)
    ensures
        part@ == trimmed(chars@),
{
    let mut from: usize = 0;
    assert(chars@.subrange(0, chars@.len() as int) =~= chars@);
    while from < chars.len() && chars[from].is_whitespace()
        invariant
            from <= chars.len(),
            trim_start(chars@) == trim_start(chars@.subrange(from as int, chars@.len() as int)),
        decreases chars.len() - from,
    {
        assert(chars@.subrange(from as int, chars@.len() as int).drop_first() =~= chars@.subrange(
            from + 1,
            chars@.len() as int,
        ));
        from += 1;
    }
    let mut to: usize = chars.len();
    let ghost left = chars@.subrange(from as int, chars@.len() as int);
    assert(trim_start(chars@) == left);
    while to > from && chars[to - 1].is_whitespace()
        invariant
            from <= to <= chars.len(),
            left == chars@.subrange(from as int, chars@.len() as int),
            trim_end(left) == trim_end(chars@.subrange(from as int, to as int)),
        decreases to,
    {
        assert(chars@.subrange(from as int, to as int).drop_last() =~= chars@.subrange(
            from as int,
            to - 1,
        ));
        to -= 1;
    }
    slice(chars, from, to)
}

/// The last place where `pattern` stands in `text`.
pub fn rfind(text: &Vec<char>, pattern: &Vec<char>) -> (at: Option<usize>)
    ensures
        match at {
            Some(i) => rfind_text(text@, pattern@) == Some(i as int) && occurs_at(
                text@,
                pattern@,
                i as int,
            ),
            None => rfind_text(text@, pattern@) is None,
        },
{
    if pattern.len() > text.len() {
        assert(rfind_from(text@, pattern@, text@.len() - pattern@.len()) is None);
        return None;
    }
    let mut at: usize = text.len() - pattern.len();
    loop
        invariant
            at <= text.len() - pattern.len(),
            rfind_text(text@, pattern@) == rfind_from(text@, pattern@, at as int),
        decreases at,
    {
        if matches_at(text, pattern, at) {
            return Some(at);
        }
        if at == 0 {
            assert(rfind_from(text@, pattern@, -1) is None);
            return None;
        }
        at -= 1;
    }
}

/// The text with a blank in place of every line feed.
pub fn unfold(chars: &Vec<char>) -> (flat: Vec<char>)
    ensures
        flat@ == unfolded(chars@),
{
    let mut flat: Vec<char> = Vec::new();
    let mut i: usize = 0;
    while i < chars.len()
        invariant
            i <= chars.len(),
            flat@.len() == i,
            forall|j: int| 0 <= j < i ==> flat@[j] == unfolded(chars@)[j],
        decreases chars.len() - i,
    {
        let c = chars[i];
        flat.push(
            if c == '\n' {
                ' '
            } else {
                c
            },
        );
        i += 1;
    }
    assert(flat@ =~= unfolded(chars@));
    flat
}

/// The pieces of a text between the characters `mark`.
pub fn split(chars: &Vec<char>, mark: char) -> (parts: Vec<Vec<char>>)
    ensures
        parts@.len() == pieces(chars@, mark).len(),
        forall|k: int| 0 <= k < parts@.len() ==> (#[trigger] parts@[k])@ == pieces(chars@, mark)[k],
{
    let mut parts: Vec<Vec<char>> = Vec::new();
    let mut start: usize = 0;
    let mut i: usize = 0;
    proof {
        assert(chars@.take(0) =~= Seq::empty());
        assert(chars@.subrange(0, 0) =~= Seq::empty());
    }
    while i < chars.len()
        invariant
            start <= i <= chars.len(),
            pieces(chars@.take(i as int), mark).len() == parts@.len() + 1,
            pieces(chars@.take(i as int), mark).last() == chars@.subrange(start as int, i as int),
            forall|k: int|
                0 <= k < parts@.len() ==> (#[trigger] parts@[k])@ == pieces(
                    chars@.take(i as int),
                    mark,
                )[k],
        decreases chars.len() - i,
    {
        let ghost before = pieces(chars@.take(i as int), mark);
        proof {
            assert(chars@.take(i + 1).drop_last() =~= chars@.take(i as int));
            assert(chars@.take(i + 1).last() == chars@[i as int]);
        }
        if chars[i] == mark {
            parts.push(slice(chars, start, i));
            proof {
                assert(chars@.subrange(i + 1, i + 1) =~= Seq::empty());
            }
            start = i + 1;
        } else {
            proof {
                assert(chars@.subrange(start as int, i + 1) =~= chars@.subrange(
                    start as int,
                    i as int,
                ).push(chars@[i as int]));
            }
        }
        i += 1;
    }
    assert(chars@.take(chars@.len() as int) =~= chars@);
    parts.push(slice(chars, start, i));
    parts
}

/// The lines of a text.
pub fn lines(chars: &Vec<char>) -> (rows: Vec<Vec<char>>)
    ensures
        rows@.len() == lines_of(chars@).len(),
        forall|k: int| 0 <= k < rows@.len() ==> (#[trigger] rows@[k])@ == lines_of(chars@)[k],
{
    let mut parts = split(chars, '\n');
    proof {
        lemma_pieces_nonempty(chars@, '\n');
    }
    let ghost all = pieces(chars@, '\n');
    let last = parts.pop().unwrap();
    let mut rows: Vec<Vec<char>> = Vec::new();
    let mut i: usize = 0;
    while i < parts.len()
        invariant
            i <= parts.len(),
            parts@.len() + 1 == all.len(),
            forall|k: int| 0 <= k < parts@.len() ==> (#[trigger] parts@[k])@ == all[k],
            rows@.len() == i,
            forall|k: int| 0 <= k < i ==> (#[trigger] rows@[k])@ == without_return(all[k]),
        decreases parts.len() - i,
    {
        let piece = &parts[i];
        let n = piece.len();
        if n > 0 && piece[n - 1] == '\r' {
            rows.push(slice(piece, 0, n - 1));
            assert(piece@.subrange(0, n - 1) =~= piece@.drop_last());
        } else {
            rows.push(slice(piece, 0, n));
            assert(piece@.subrange(0, n as int) =~= piece@);
        }
        i += 1;
    }
    if last.len() > 0 {
        rows.push(last);
    }
    rows
}

/// The words of a text.
pub fn words(chars: &Vec<char>) -> (parts: Vec<Vec<char>>)
    ensures
        parts@.len() == words_of(chars@).len(),
        forall|k: int| 0 <= k < parts@.len() ==> (#[trigger] parts@[k])@ == words_of(chars@)[k],
{
    let mut parts: Vec<Vec<char>> = Vec::new();
    let mut start: usize = 0;
    let mut i: usize = 0;
    proof {
        assert(chars@.take(0) =~= Seq::empty());
        assert(chars@.subrange(0, 0) =~= Seq::empty());
        assert(seq![Seq::<char>::empty()].drop_last() =~= Seq::<Seq<char>>::empty());
        assert(filled(Seq::<Seq<char>>::empty()).len() == 0);
    }
    while i < chars.len()
        invariant
            start <= i <= chars.len(),
            space_pieces(chars@.take(i as int)).len() >= 1,
            space_pieces(chars@.take(i as int)).last() == chars@.subrange(start as int, i as int),
            filled(space_pieces(chars@.take(i as int)).drop_last()).len() == parts@.len(),
            forall|k: int|
                0 <= k < parts@.len() ==> (#[trigger] parts@[k])@ == filled(
                    space_pieces(chars@.take(i as int)).drop_last(),
                )[k],
        decreases chars.len() - i,
    {
        let ghost before = space_pieces(chars@.take(i as int));
        proof {
            assert(chars@.take(i + 1).drop_last() =~= chars@.take(i as int));
            assert(chars@.take(i + 1).last() == chars@[i as int]);
        }
        if chars[i].is_whitespace() {
            proof {
                let after = space_pieces(chars@.take(i + 1));
                assert(after == before.push(Seq::empty()));
                assert(after.drop_last() =~= before);
                assert(chars@.subrange(i + 1, i + 1) =~= Seq::empty());
            }
            if i > start {
                parts.push(slice(chars, start, i));
            }
            start = i + 1;
        } else {
            proof {
                let after = space_pieces(chars@.take(i + 1));
                assert(after.drop_last() =~= before.drop_last());
                assert(chars@.subrange(start as int, i + 1) =~= chars@.subrange(
                    start as int,
                    i as int,
                ).push(chars@[i as int]));
            }
        }
        i += 1;
    }
    assert(chars@.take(chars@.len() as int) =~= chars@);
    if i > start {
        parts.push(slice(chars, start, i));
    }
    parts
}

/// The number of bytes that a character takes in UTF-8.
pub fn width(c: char) -> (bytes: usize)
    ensures
        bytes == utf8_width(c),
{
    let code: u32 = c as u32;
    if code < 0x80 {
        1
    } else if code < 0x800 {
        2
    } else if code < 0x10000 {
        3
    } else {
        4
    }
}

} // verus!
