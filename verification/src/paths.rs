//! Paths as archives and links write them: names separated by `/`.
//!
//! A path is read as Rust's `Path::components` reads one: repeated separators
//! and a separator at the end count for nothing, and a `.` counts only at the
//! very beginning.

use vstd::prelude::*;
use crate::text::{chars_of, string_of, views_of};

verus! {

/// The pieces between the separators, empty ones included. There is always at
/// least one.
pub open spec fn segments(path: Seq<char>) -> Seq<Seq<char>>
    decreases path.len(),
{
    if path.len() == 0 {
        seq![Seq::empty()]
    } else if path.last() == '/' {
        segments(path.drop_last()).push(Seq::empty())
    } else {
        let before = segments(path.drop_last());
        before.drop_last().push(before.last().push(path.last()))
    }
}

/// A piece that counts as a component: it is neither empty nor `.`.
pub open spec fn is_name(segment: Seq<char>) -> bool {
    segment.len() > 0 && !(segment.len() == 1 && segment[0] == '.')
}

/// The pieces that count, in order.
pub open spec fn named(pieces: Seq<Seq<char>>) -> Seq<Seq<char>>
    decreases pieces.len(),
{
    if pieces.len() == 0 {
        Seq::empty()
    } else if is_name(pieces.last()) {
        named(pieces.drop_last()).push(pieces.last())
    } else {
        named(pieces.drop_last())
    }
}

/// The path is `.` or begins with `./`.
pub open spec fn leading_dot(path: Seq<char>) -> bool {
    path.len() >= 1 && path[0] == '.' && (path.len() == 1 || path[1] == '/')
}

/// The components of a path. A path that begins with `/` has the root `/` as
/// its first component, one that begins with `./` has `.`; the names follow.
pub open spec fn components(path: Seq<char>) -> Seq<Seq<char>> {
    let names = named(segments(path));
    if path.len() > 0 && path[0] == '/' {
        seq![seq!['/']] + names
    } else if leading_dot(path) {
        seq![seq!['.']] + names
    } else {
        names
    }
}

/// The parts with a `/` between each two.
pub open spec fn joined(parts: Seq<Seq<char>>) -> Seq<char>
    decreases parts.len(),
{
    if parts.len() == 0 {
        Seq::empty()
    } else if parts.len() == 1 {
        parts[0]
    } else {
        joined(parts.drop_last()) + seq!['/'] + parts.last()
    }
}

/// One of the parts is `..`.
pub open spec fn climbs(parts: Seq<Seq<char>>) -> bool {
    exists|i: int| 0 <= i < parts.len() && #[trigger] parts[i] == seq!['.', '.']
}

/// Where an archive's entry goes, below the directory of the version: its
/// path without the first component. An entry of one component, which is the
/// directory that wraps the archive's content, goes nowhere; and neither
/// does an entry whose path climbs with a `..` behind its first component,
/// which could lead out of the directory.
pub open spec fn relocated(path: Seq<char>) -> Option<Seq<char>> {
    let parts = components(path);
    if parts.len() <= 1 || climbs(parts.skip(1)) {
        None
    } else {
        Some(joined(parts.skip(1)))
    }
}

/// The path leads to a place below the directory that it is joined to: it
/// names something, does not begin at the root, and never climbs.
pub open spec fn stays_below(path: Seq<char>) -> bool {
    &&& components(path).len() >= 1
    &&& path.len() > 0 && path[0] != '/'
    &&& !climbs(components(path))
}

/// The last component, where it is a name: not the root, not `.`, not `..`.
pub open spec fn file_name(path: Seq<char>) -> Option<Seq<char>> {
    let parts = components(path);
    if parts.len() == 0 {
        None
    } else {
        let last = parts.last();
        if last == seq!['/'] || last == seq!['.'] || last == seq!['.', '.'] {
            None
        } else {
            Some(last)
        }
    }
}

/// The path has no separator in it.
pub open spec fn is_plain(name: Seq<char>) -> bool {
    forall|i: int| 0 <= i < name.len() ==> name[i] != '/'
}

/// A path without a separator is one piece.
pub proof fn lemma_segments_of_plain(name: Seq<char>)
    requires
        is_plain(name),
    ensures
        segments(name) == seq![name],
    decreases name.len(),
{
    if name.len() == 0 {
        assert(name =~= Seq::empty());
    } else {
        lemma_segments_of_plain(name.drop_last());
        assert(name.drop_last().push(name.last()) =~= name);
        assert(seq![name.drop_last()].last() == name.drop_last());
        assert(seq![name.drop_last()].drop_last().push(name.drop_last().push(name.last()))
            =~= seq![name]);
    }
}

/// The pieces of two paths with a separator between them are the pieces of
/// the first, then those of the second.
pub proof fn lemma_segments_concat(first: Seq<char>, second: Seq<char>)
    ensures
        segments(first + seq!['/'] + second) == segments(first) + segments(second),
    decreases second.len(),
{
    let whole = first + seq!['/'] + second;
    lemma_segments_nonempty(second);
    if second.len() == 0 {
        assert(whole.drop_last() =~= first);
        assert(segments(first).push(Seq::empty()) =~= segments(first) + segments(second));
    } else {
        let shorter = second.drop_last();
        assert(whole.drop_last() =~= first + seq!['/'] + shorter);
        assert(whole.last() == second.last());
        lemma_segments_concat(first, shorter);
        lemma_segments_nonempty(shorter);
        let before = segments(first) + segments(shorter);
        if second.last() == '/' {
            assert(before.push(Seq::empty()) =~= segments(first) + segments(shorter).push(
                Seq::empty(),
            ));
        } else {
            assert(before.last() == segments(shorter).last());
            assert(before.drop_last() =~= segments(first) + segments(shorter).drop_last());
            assert(before.drop_last().push(before.last().push(second.last())) =~= segments(first)
                + segments(shorter).drop_last().push(segments(shorter).last().push(
                second.last(),
            )));
        }
    }
}

/// Every path has a piece.
pub proof fn lemma_segments_nonempty(path: Seq<char>)
    ensures
        segments(path).len() >= 1,
    decreases path.len(),
{
    if path.len() > 0 {
        lemma_segments_nonempty(path.drop_last());
    }
}

/// The pieces that count of two runs of pieces are those of the first, then
/// those of the second.
pub proof fn lemma_named_concat(first: Seq<Seq<char>>, second: Seq<Seq<char>>)
    ensures
        named(first + second) == named(first) + named(second),
    decreases second.len(),
{
    if second.len() == 0 {
        assert(first + second =~= first);
        assert(named(first) + named(second) =~= named(first));
    } else {
        let whole = first + second;
        assert(whole.drop_last() =~= first + second.drop_last());
        assert(whole.last() == second.last());
        lemma_named_concat(first, second.drop_last());
        if is_name(second.last()) {
            assert((named(first) + named(second.drop_last())).push(second.last()) =~= named(
                first,
            ) + named(second.drop_last()).push(second.last()));
        }
    }
}

/// Extraction strips exactly one leading component: the content of a wrapping
/// directory `wrapper` lands where the rest of its path says, and what is left
/// of a path that names nothing below the wrapper is dropped.
pub proof fn lemma_strips_wrapper(wrapper: Seq<char>, rest: Seq<char>)
    requires
        is_plain(wrapper),
        is_name(wrapper),
    ensures
        components(wrapper + seq!['/'] + rest) == seq![wrapper] + named(segments(rest)),
        relocated(wrapper + seq!['/'] + rest) == if named(segments(rest)).len() == 0 || climbs(
            named(segments(rest)),
        ) {
            None
        } else {
            Some(joined(named(segments(rest))))
        },
{
    let path = wrapper + seq!['/'] + rest;
    lemma_segments_concat(wrapper, rest);
    lemma_segments_of_plain(wrapper);
    lemma_named_concat(seq![wrapper], segments(rest));
    assert(seq![wrapper].drop_last() =~= Seq::<Seq<char>>::empty());
    assert(named(Seq::<Seq<char>>::empty()) =~= Seq::<Seq<char>>::empty());
    assert(seq![wrapper].last() == wrapper);
    assert(named(seq![wrapper]) =~= seq![wrapper]);
    assert(path[0] == wrapper[0]);
    if wrapper.len() >= 2 {
        assert(path[1] == wrapper[1]);
    }
    assert(!leading_dot(path));
    assert(components(path) == seq![wrapper] + named(segments(rest)));
    assert((seq![wrapper] + named(segments(rest))).skip(1) =~= named(segments(rest)));
}

/// Every part is a name without a separator.
pub open spec fn all_names(parts: Seq<Seq<char>>) -> bool {
    forall|i: int| 0 <= i < parts.len() ==> is_plain(#[trigger] parts[i]) && is_name(parts[i])
}

/// A path made of names reads as those names.
pub proof fn lemma_joined_names(parts: Seq<Seq<char>>)
    requires
        all_names(parts),
        parts.len() >= 1,
    ensures
        named(segments(joined(parts))) == parts,
    decreases parts.len(),
{
    let last = parts.last();
    lemma_segments_of_plain(last);
    assert(seq![last].drop_last() =~= Seq::<Seq<char>>::empty());
    assert(named(Seq::<Seq<char>>::empty()) =~= Seq::<Seq<char>>::empty());
    assert(seq![last].last() == last);
    assert(named(seq![last]) =~= seq![last]);
    if parts.len() == 1 {
        assert(parts =~= seq![last]);
    } else {
        let before = parts.drop_last();
        assert(all_names(before)) by {
            assert forall|i: int| 0 <= i < before.len() implies is_plain(#[trigger] before[i])
                && is_name(before[i]) by {
                assert(before[i] == parts[i]);
            }
        }
        lemma_joined_names(before);
        lemma_segments_concat(joined(before), last);
        lemma_named_concat(segments(joined(before)), seq![last]);
        assert(before + seq![last] =~= parts);
    }
}

/// An entry below a wrapping directory lands exactly where the rest of its
/// path says, unless that climbs: `wrapper/bin/tool` goes to `bin/tool`.
pub proof fn lemma_lands_at_rest(wrapper: Seq<char>, parts: Seq<Seq<char>>)
    requires
        is_plain(wrapper),
        is_name(wrapper),
        all_names(parts),
        parts.len() >= 1,
        !climbs(parts),
    ensures
        relocated(wrapper + seq!['/'] + joined(parts)) == Some(joined(parts)),
{
    lemma_joined_names(parts);
    lemma_strips_wrapper(wrapper, joined(parts));
}

/// No piece of a path holds a separator.
pub proof fn lemma_segments_plain(path: Seq<char>)
    ensures
        forall|i: int| 0 <= i < segments(path).len() ==> is_plain(#[trigger] segments(path)[i]),
    decreases path.len(),
{
    if path.len() > 0 {
        lemma_segments_plain(path.drop_last());
        lemma_segments_nonempty(path.drop_last());
        let before = segments(path.drop_last());
        assert forall|i: int| 0 <= i < segments(path).len() implies is_plain(
            #[trigger] segments(path)[i],
        ) by {
            if i < before.len() - 1 {
                assert(segments(path)[i] == before[i]);
            } else if path.last() != '/' && i == before.len() - 1 {
                assert(is_plain(before[i]));
            }
        }
    }
}

/// The pieces that count are names, and hold no separator where no piece
/// does.
pub proof fn lemma_named_are_names(pieces: Seq<Seq<char>>)
    requires
        forall|i: int| 0 <= i < pieces.len() ==> is_plain(#[trigger] pieces[i]),
    ensures
        all_names(named(pieces)),
    decreases pieces.len(),
{
    if pieces.len() > 0 {
        let before = pieces.drop_last();
        assert forall|i: int| 0 <= i < before.len() implies is_plain(#[trigger] before[i]) by {
            assert(before[i] == pieces[i]);
        }
        lemma_named_are_names(before);
        assert(is_plain(pieces[pieces.len() - 1]));
    }
}

/// A path made of names begins with the first of them, and goes on with a
/// separator where there are more.
proof fn lemma_joined_begins(parts: Seq<Seq<char>>)
    requires
        parts.len() >= 1,
    ensures
        joined(parts).len() >= parts[0].len(),
        joined(parts).take(parts[0].len() as int) == parts[0],
        parts.len() == 1 ==> joined(parts) == parts[0],
        parts.len() > 1 ==> joined(parts).len() > parts[0].len() && joined(parts)[parts[0].len() as int]
            == '/',
    decreases parts.len(),
{
    if parts.len() == 1 {
        assert(joined(parts).take(parts[0].len() as int) =~= parts[0]);
    } else {
        let before = parts.drop_last();
        lemma_joined_begins(before);
        assert(before[0] == parts[0]);
        let whole = joined(before) + seq!['/'] + parts.last();
        assert(whole.take(parts[0].len() as int) =~= joined(before).take(parts[0].len() as int));
        if before.len() == 1 {
            assert(whole[parts[0].len() as int] == '/');
        } else {
            assert(whole[parts[0].len() as int] == joined(before)[parts[0].len() as int]);
        }
    }
}

/// A path made of names has those names as its components.
pub proof fn lemma_components_of_joined(parts: Seq<Seq<char>>)
    requires
        all_names(parts),
        parts.len() >= 1,
    ensures
        components(joined(parts)) == parts,
        joined(parts).len() > 0,
        joined(parts)[0] != '/',
{
    lemma_joined_names(parts);
    lemma_joined_begins(parts);
    let path = joined(parts);
    let first = parts[0];
    assert(is_plain(first) && is_name(first));
    assert(path.take(first.len() as int)[0] == path[0]);
    assert(path[0] == first[0]);
    if first.len() >= 2 {
        assert(path.take(first.len() as int)[1] == path[1]);
        assert(path[1] == first[1]);
    }
    assert(!leading_dot(path));
}

/// What an entry of an archive is moved to lies below the directory of the
/// version: its components are those of the entry's path behind the first,
/// none of them is `..`, and it does not begin at the root.
pub proof fn lemma_relocated_stays_below(path: Seq<char>)
    ensures
        relocated(path) matches Some(target) ==> stays_below(target) && components(target)
            == components(path).skip(1),
{
    if relocated(path) is Some {
        let names = named(segments(path));
        lemma_segments_plain(path);
        lemma_named_are_names(segments(path));
        let parts = components(path);
        let rest = parts.skip(1);
        assert(all_names(rest)) by {
            assert forall|i: int| 0 <= i < rest.len() implies is_plain(#[trigger] rest[i])
                && is_name(rest[i]) by {
                if parts.len() == names.len() {
                    assert(rest[i] == names[i + 1]);
                } else {
                    assert(rest[i] == names[i]);
                }
            }
        }
        lemma_components_of_joined(rest);
    }
}

/// The wrapping directory itself, with or without a separator behind its
/// name, is one component, and goes nowhere.
pub proof fn lemma_wrapper_is_skipped(wrapper: Seq<char>)
    requires
        is_plain(wrapper),
    ensures
        relocated(wrapper) is None,
        relocated(wrapper + seq!['/']) is None,
{
    lemma_segments_of_plain(wrapper);
    assert(seq![wrapper].drop_last() =~= Seq::<Seq<char>>::empty());
    assert(named(Seq::<Seq<char>>::empty()).len() == 0);
    assert(named(seq![wrapper]).len() <= 1);
    if wrapper.len() > 0 {
        assert(wrapper[0] != '/');
    }
    if leading_dot(wrapper) {
        assert(wrapper.len() == 1);
        assert(!is_name(wrapper));
    }
    let dir = wrapper + seq!['/'];
    assert(dir.drop_last() =~= wrapper);
    assert(dir.last() == '/');
    assert(segments(dir) == seq![wrapper].push(Seq::empty()));
    assert(seq![wrapper].push(Seq::<char>::empty()).drop_last() =~= seq![wrapper]);
    assert(named(segments(dir)) == named(seq![wrapper]));
    if wrapper.len() == 0 {
        assert(dir[0] == '/');
        assert(named(seq![wrapper]).len() == 0);
    } else {
        assert(dir[0] == wrapper[0]);
        if leading_dot(dir) {
            if wrapper.len() >= 2 {
                assert(dir[1] == wrapper[1]);
            }
            assert(wrapper.len() == 1);
            assert(!is_name(wrapper));
        }
    }
}

/// The components of a path.
pub fn components_of(path: &str) -> (parts: Vec<String>)
    ensures
        views_of(parts@) == components(path@),
{
    let chars = chars_of(path);
    let mut parts: Vec<String> = Vec::new();
    if chars.len() > 0 && chars[0] == '/' {
        parts.push(string_of(&chars, 0, 1));
        assert(chars@.subrange(0, 1) =~= seq!['/']);
    } else if chars.len() >= 1 && chars[0] == '.' && (chars.len() == 1 || chars[1] == '/') {
        parts.push(string_of(&chars, 0, 1));
        assert(chars@.subrange(0, 1) =~= seq!['.']);
    }
    let ghost head = views_of(parts@);
    assert(head.len() == parts@.len());
    assert(head =~= if chars@.len() > 0 && chars@[0] == '/' {
        seq![seq!['/']]
    } else if leading_dot(chars@) {
        seq![seq!['.']]
    } else {
        Seq::empty()
    });
    let mut start: usize = 0;
    let mut i: usize = 0;
    assert(chars@.take(0) =~= Seq::empty());
    assert(chars@.subrange(0, 0) =~= Seq::empty());
    assert(seq![Seq::<char>::empty()].drop_last() =~= Seq::<Seq<char>>::empty());
    assert(views_of(parts@) =~= head + named(Seq::empty()));
    while i < chars.len()
        invariant
            start <= i <= chars.len(),
            segments(chars@.take(i as int)).len() >= 1,
            segments(chars@.take(i as int)).last() == chars@.subrange(start as int, i as int),
            views_of(parts@) == head + named(segments(chars@.take(i as int)).drop_last()),
        decreases chars.len() - i,
    {
        let ghost before = segments(chars@.take(i as int));
        let ghost names = views_of(parts@);
        proof {
            assert(chars@.take(i + 1).drop_last() =~= chars@.take(i as int));
            assert(chars@.take(i + 1).last() == chars@[i as int]);
        }
        if chars[i] == '/' {
            if i > start && !(i - start == 1 && chars[start] == '.') {
                parts.push(string_of(&chars, start, i));
                assert(views_of(parts@) =~= names.push(before.last()));
            }
            proof {
                let after = segments(chars@.take(i + 1));
                assert(after == before.push(Seq::empty()));
                assert(after.drop_last() =~= before);
                assert(is_name(before.last()) == (i > start && !(i - start == 1 && chars@[start as int] == '.')));
                assert(chars@.subrange(i + 1, i + 1) =~= Seq::empty());
                assert(views_of(parts@) =~= head + named(after.drop_last()));
            }
            start = i + 1;
        } else {
            proof {
                let after = segments(chars@.take(i + 1));
                assert(after == before.drop_last().push(before.last().push(chars@[i as int])));
                assert(after.drop_last() =~= before.drop_last());
                assert(chars@.subrange(start as int, i + 1) =~= chars@.subrange(
                    start as int,
                    i as int,
                ).push(chars@[i as int]));
            }
        }
        i += 1;
    }
    let ghost names = views_of(parts@);
    assert(chars@.take(chars@.len() as int) =~= chars@);
    if i > start && !(i - start == 1 && chars[start] == '.') {
        parts.push(string_of(&chars, start, i));
        assert(views_of(parts@) =~= names.push(segments(chars@).last()));
    }
    proof {
        let all = segments(chars@);
        assert(is_name(all.last()) == (i > start && !(i - start == 1 && chars@[start as int] == '.')));
        assert(views_of(parts@) =~= head + named(all));
    }
    parts
}

/// The parts with a `/` between each two.
pub fn join(parts: &Vec<String>, from: usize) -> (path: String)
    requires
        from <= parts.len(),
    ensures
        path@ == joined(views_of(parts@).skip(from as int)),
{
    let mut path = String::new();
    let mut i: usize = from;
    let ghost all = views_of(parts@);
    assert(all.skip(from as int).take(0) =~= Seq::<Seq<char>>::empty());
    while i < parts.len()
        invariant
            from <= i <= parts.len(),
            all == views_of(parts@),
            path@ == joined(all.skip(from as int).take(i - from)),
        decreases parts.len() - i,
    {
        let ghost done = all.skip(from as int).take(i - from);
        let ghost next = all.skip(from as int).take(i + 1 - from);
        proof {
            assert(next.drop_last() =~= done);
            assert(next.last() == parts@[i as int]@);
        }
        if i > from {
            path.append("/");
            proof {
                reveal_strlit("/");
                assert("/"@ =~= seq!['/']);
            }
        }
        path.append(parts[i].as_str());
        proof {
            if i == from {
                assert(done.len() == 0);
                assert(next.len() == 1);
                assert(path@ =~= next[0]);
            }
        }
        i += 1;
    }
    assert(all.skip(from as int).take(parts@.len() - from) =~= all.skip(from as int));
    path
}

/// Where an archive's entry goes, below the directory of the version: its
/// path without the first component, or nowhere where it has no more than
/// one or climbs behind it.
pub fn relocate(path: &str) -> (target: Option<String>)
    ensures
        crate::config::option_view(target) == relocated(path@),
{
    let parts = components_of(path);
    if parts.len() <= 1 {
        return None;
    }
    let ghost rest = views_of(parts@).skip(1);
    let mut i: usize = 1;
    while i < parts.len()
        invariant
            1 <= i <= parts.len(),
            views_of(parts@) == components(path@),
            rest == views_of(parts@).skip(1),
            forall|j: int| 0 <= j < i - 1 ==> #[trigger] rest[j] != seq!['.', '.'],
        decreases parts.len() - i,
    {
        let part = chars_of(parts[i].as_str());
        assert(rest[i - 1] == parts@[i as int]@);
        if part.len() == 2 && part[0] == '.' && part[1] == '.' {
            assert(part@ =~= seq!['.', '.']);
            assert(rest[i - 1] == seq!['.', '.']);
            assert(climbs(rest));
            return None;
        }
        i += 1;
    }
    Some(join(&parts, 1))
}

/// The last component of a path, where it is a name.
pub fn file_name_of(path: &str) -> (name: Option<String>)
    ensures
        crate::config::option_view(name) == file_name(path@),
{
    let mut parts = components_of(path);
    let ghost all = views_of(parts@);
    match parts.pop() {
        None => None,
        Some(last) => {
            assert(last@ == all.last());
            let chars = chars_of(last.as_str());
            let special = (chars.len() == 1 && (chars[0] == '/' || chars[0] == '.')) || (chars.len()
                == 2 && chars[0] == '.' && chars[1] == '.');
            proof {
                if chars@.len() == 1 {
                    assert((chars@ =~= seq!['/']) == (chars@[0] == '/'));
                    assert((chars@ =~= seq!['.']) == (chars@[0] == '.'));
                }
                if chars@.len() == 2 {
                    assert((chars@ =~= seq!['.', '.']) == (chars@[0] == '.' && chars@[1] == '.'));
                }
            }
            if special {
                None
            } else {
                Some(last)
            }
        },
    }
}

} // verus!
