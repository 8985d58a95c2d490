//! Character sequences: searching, comparing and ordering the names, headers
//! and paths that the rest of the library reads.

use vstd::prelude::*;

verus! {

/// `pattern` stands in `text` at offset `at`.
pub open spec fn occurs_at(text: Seq<char>, pattern: Seq<char>, at: int) -> bool {
    &&& 0 <= at
    &&& at + pattern.len() <= text.len()
    &&& text.subrange(at, at + pattern.len()) == pattern
}

/// `pattern` stands somewhere in `text`.
pub open spec fn contains_text(text: Seq<char>, pattern: Seq<char>) -> bool {
    exists|at: int| occurs_at(text, pattern, at)
}

/// `text` begins with `pattern`.
pub open spec fn starts_with_text(text: Seq<char>, pattern: Seq<char>) -> bool {
    occurs_at(text, pattern, 0)
}

/// `text` ends with `pattern`.
pub open spec fn ends_with_text(text: Seq<char>, pattern: Seq<char>) -> bool {
    occurs_at(text, pattern, text.len() - pattern.len())
}

/// Strict lexicographic order by code point: the order in which Rust compares
/// strings.
pub open spec fn lex_less(a: Seq<char>, b: Seq<char>) -> bool
    decreases a.len(),
{
    if b.len() == 0 {
        false
    } else if a.len() == 0 {
        true
    } else if a[0] != b[0] {
        (a[0] as u32) < (b[0] as u32)
    } else {
        lex_less(a.drop_first(), b.drop_first())
    }
}

/// Every element comes strictly before the ones after it.
pub open spec fn strictly_sorted(names: Seq<Seq<char>>) -> bool {
    forall|i: int, j: int| 0 <= i < j < names.len() ==> lex_less(names[i], names[j])
}

/// The views of a vector of strings.
pub open spec fn views_of(names: Seq<String>) -> Seq<Seq<char>> {
    names.map_values(|s: String| s@)
}

/// Non-strict order: nothing comes before an element that stands before it.
pub open spec fn sorted(names: Seq<Seq<char>>) -> bool {
    forall|i: int, j: int| 0 <= i < j < names.len() ==> !lex_less(names[j], names[i])
}

/// `name` is one of `words`.
pub open spec fn names_any(name: Seq<char>, words: Seq<&'static str>) -> bool {
    exists|i: int| 0 <= i < words.len() && name == (#[trigger] words[i])@
}

/// `text` holds one of `words`.
pub open spec fn holds_any(text: Seq<char>, words: Seq<&'static str>) -> bool {
    exists|i: int| 0 <= i < words.len() && contains_text(text, (#[trigger] words[i])@)
}

/// Distinct characters have distinct code points.
pub proof fn lemma_code_point_injective(c: char, d: char)
    requires
        c as u32 == d as u32,
    ensures
        c == d,
{
    vstd::utf8::char_u32_cast(c, c as u32);
    vstd::utf8::char_u32_cast(d, d as u32);
}

/// Nothing comes before itself.
pub proof fn lemma_lex_irreflexive(a: Seq<char>)
    ensures
        !lex_less(a, a),
    decreases a.len(),
{
    if a.len() > 0 {
        lemma_lex_irreflexive(a.drop_first());
    }
}

/// What comes before something comes before all that follows it.
pub proof fn lemma_lex_transitive(a: Seq<char>, b: Seq<char>, c: Seq<char>)
    requires
        lex_less(a, b),
        lex_less(b, c),
    ensures
        lex_less(a, c),
    decreases a.len(),
{
    if a.len() > 0 && a[0] == b[0] && b[0] == c[0] {
        lemma_lex_transitive(a.drop_first(), b.drop_first(), c.drop_first());
    }
}

/// Of two different sequences one comes before the other.
pub proof fn lemma_lex_total(a: Seq<char>, b: Seq<char>)
    ensures
        lex_less(a, b) || lex_less(b, a) || a == b,
    decreases a.len(),
{
    if a.len() > 0 && b.len() > 0 {
        if a[0] == b[0] {
            lemma_lex_total(a.drop_first(), b.drop_first());
            if a.drop_first() == b.drop_first() {
                assert(a =~= seq![a[0]] + a.drop_first());
                assert(b =~= seq![b[0]] + b.drop_first());
            }
        } else if a[0] as u32 == b[0] as u32 {
            lemma_code_point_injective(a[0], b[0]);
        }
    } else if a.len() == 0 && b.len() == 0 {
        assert(a =~= b);
    }
}

/// Two sequences that agree on their first `k` characters compare as their
/// remainders do.
proof fn lemma_lex_skip(a: Seq<char>, b: Seq<char>, k: int)
    requires
        0 <= k <= a.len(),
        k <= b.len(),
        a.take(k) == b.take(k),
    ensures
        lex_less(a, b) == lex_less(a.skip(k), b.skip(k)),
    decreases k,
{
    if k == 0 {
        assert(a.skip(0) =~= a);
        assert(b.skip(0) =~= b);
    } else {
        assert(a.take(k)[0] == a[0]);
        assert(b.take(k)[0] == b[0]);
        assert(a[0] == b[0]);
        assert(a.drop_first().take(k - 1) =~= a.take(k).drop_first());
        assert(b.drop_first().take(k - 1) =~= b.take(k).drop_first());
        lemma_lex_skip(a.drop_first(), b.drop_first(), k - 1);
        assert(a.drop_first().skip(k - 1) =~= a.skip(k));
        assert(b.drop_first().skip(k - 1) =~= b.skip(k));
    }
}

/// Sorted names of which none stands twice are strictly sorted.
pub proof fn lemma_sorted_distinct_is_strict(names: Seq<Seq<char>>)
    requires
        sorted(names),
        names.no_duplicates(),
    ensures
        strictly_sorted(names),
{
    assert forall|i: int, j: int| 0 <= i < j < names.len() implies lex_less(
        names[i],
        names[j],
    ) by {
        lemma_lex_total(names[i], names[j]);
    }
}

/// The characters of a string, in order.
pub fn chars_of(s: &str) -> (chars: Vec<char>)
    ensures
        chars@ == s@,
{
    let mut chars: Vec<char> = Vec::new();
    for c in it: s.chars()
        invariant
            chars@ == it.seq().take(it.index()),
            it.seq() == s@,
    {
        chars.push(c);
    }
    chars
}

/// Whether `pattern` stands in `text` at offset `at`.
pub fn matches_at(text: &Vec<char>, pattern: &Vec<char>, at: usize) -> (found: bool)
    ensures
        found == occurs_at(text@, pattern@, at as int),
{
    if at > text.len() || pattern.len() > text.len() - at {
        return false;
    }
    let mut k: usize = 0;
    while k < pattern.len()
        invariant
            k <= pattern.len(),
            at + pattern.len() <= text.len(),
            forall|j: int| 0 <= j < k ==> text@[at + j] == pattern@[j],
        decreases pattern.len() - k,
    {
        if text[at + k] != pattern[k] {
            assert(text@.subrange(at as int, at + pattern.len())[k as int] == text@[at + k]);
            return false;
        }
        k += 1;
    }
    assert(text@.subrange(at as int, at + pattern.len()) =~= pattern@);
    true
}

/// Whether `pattern` stands somewhere in `text`.
pub fn contains(text: &Vec<char>, pattern: &Vec<char>) -> (found: bool)
    ensures
        found == contains_text(text@, pattern@),
{
    if pattern.len() > text.len() {
        return false;
    }
    let last: usize = text.len() - pattern.len();
    let mut at: usize = 0;
    loop
        invariant
            last == text.len() - pattern.len(),
            at <= last,
            forall|j: int| 0 <= j < at ==> !occurs_at(text@, pattern@, j),
        decreases last - at,
    {
        if matches_at(text, pattern, at) {
            return true;
        }
        if at == last {
            return false;
        }
        at += 1;
    }
}

/// Whether `text` begins with `pattern`.
pub fn starts_with(text: &Vec<char>, pattern: &Vec<char>) -> (found: bool)
    ensures
        found == starts_with_text(text@, pattern@),
{
    matches_at(text, pattern, 0)
}

/// Whether `text` ends with `pattern`.
pub fn ends_with(text: &Vec<char>, pattern: &Vec<char>) -> (found: bool)
    ensures
        found == ends_with_text(text@, pattern@),
{
    if pattern.len() > text.len() {
        return false;
    }
    matches_at(text, pattern, text.len() - pattern.len())
}

/// Whether two strings hold the same characters.
pub fn same_text(a: &str, b: &str) -> (same: bool)
    ensures
        same == (a@ == b@),
{
    let left = chars_of(a);
    let right = chars_of(b);
    assert(left@.subrange(0, left@.len() as int) =~= left@);
    left.len() == right.len() && matches_at(&left, &right, 0)
}

/// Whether `a` comes strictly before `b` in lexicographic order.
pub fn less(a: &str, b: &str) -> (before: bool)
    ensures
        before == lex_less(a@, b@),
{
    let left = chars_of(a);
    let right = chars_of(b);
    let mut k: usize = 0;
    while k < left.len() && k < right.len()
        invariant
            k <= left.len(),
            k <= right.len(),
            left@ == a@,
            right@ == b@,
            left@.take(k as int) == right@.take(k as int),
        decreases left.len() - k,
    {
        if left[k] != right[k] {
            proof {
                lemma_lex_skip(left@, right@, k as int);
                assert(left@.skip(k as int)[0] == left@[k as int]);
                assert(right@.skip(k as int)[0] == right@[k as int]);
            }
            let x: u32 = left[k] as u32;
            let y: u32 = right[k] as u32;
            return x < y;
        }
        proof {
            assert(left@.take(k + 1) =~= left@.take(k as int).push(left@[k as int]));
            assert(right@.take(k + 1) =~= right@.take(k as int).push(right@[k as int]));
        }
        k += 1;
    }
    proof {
        lemma_lex_skip(left@, right@, k as int);
    }
    k < right.len()
}

/// Whether `name` is one of `words`.
pub fn is_any_of(name: &Vec<char>, words: &Vec<&'static str>) -> (found: bool)
    ensures
        found == names_any(name@, words@),
{
    let mut i: usize = 0;
    while i < words.len()
        invariant
            i <= words.len(),
            forall|j: int| 0 <= j < i ==> name@ != (#[trigger] words@[j])@,
        decreases words.len() - i,
    {
        let word = chars_of(words[i]);
        assert(name@.subrange(0, name@.len() as int) =~= name@);
        if word.len() == name.len() && matches_at(name, &word, 0) {
            return true;
        }
        i += 1;
    }
    false
}

/// Whether `text` holds one of `words`.
pub fn holds_any_of(text: &Vec<char>, words: &Vec<&'static str>) -> (found: bool)
    ensures
        found == holds_any(text@, words@),
{
    let mut i: usize = 0;
    while i < words.len()
        invariant
            i <= words.len(),
            forall|j: int| 0 <= j < i ==> !contains_text(text@, (#[trigger] words@[j])@),
        decreases words.len() - i,
    {
        let word = chars_of(words[i]);
        if contains(text, &word) {
            return true;
        }
        i += 1;
    }
    false
}

/// The string that holds the characters `from..to` of `chars`.
pub fn string_of(chars: &Vec<char>, from: usize, to: usize) -> (text: String)
    requires
        from <= to <= chars.len(),
    ensures
        text@ == chars@.subrange(from as int, to as int),
{
    let mut text = String::new();
    let mut i: usize = from;
    while i < to
        invariant
            from <= i <= to,
            to <= chars.len(),
            text@ == chars@.subrange(from as int, i as int),
        decreases to - i,
    {
        text.push(chars[i]);
        assert(chars@.subrange(from as int, i + 1) =~= chars@.subrange(from as int, i as int).push(
            chars@[i as int],
        ));
        i += 1;
    }
    text
}

/// Puts `name` into a sorted vector, behind the names that are not greater.
pub fn insert_sorted(names: &mut Vec<String>, name: String)
    requires
        sorted(views_of(old(names)@)),
    ensures
        sorted(views_of(final(names)@)),
        views_of(final(names)@).to_multiset() == views_of(old(names)@).to_multiset().insert(name@),
{
    let mut at: usize = 0;
    while at < names.len() && !less(name.as_str(), names[at].as_str())
        invariant
            at <= names.len(),
            *names == *old(names),
            forall|k: int| 0 <= k < at ==> !lex_less(name@, #[trigger] views_of(names@)[k]),
        decreases names.len() - at,
    {
        at += 1;
    }
    let ghost before = views_of(names@);
    proof {
        assert(sorted(before));
        assert(forall|k: int| 0 <= k < at ==> !lex_less(name@, #[trigger] before[k]));
        if at < names.len() {
            assert(before[at as int] == names@[at as int]@);
            assert(lex_less(name@, before[at as int]));
        }
    }
    names.insert(at, name);
    proof {
        let after = views_of(names@);
        assert(after =~= before.insert(at as int, name@));
        vstd::seq_lib::to_multiset_insert(before, at as int, name@);
        assert forall|i: int, j: int| 0 <= i < j < after.len() implies !lex_less(
            after[j],
            after[i],
        ) by {
            if j == at {
                assert(after[i] == before[i]);
                assert(after[j] == name@);
                assert(!lex_less(name@, before[i]));
            } else if i == at {
                assert(after[i] == name@);
                assert(after[j] == before[j - 1]);
                assert(lex_less(name@, before[at as int]));
                if j - 1 > at {
                    assert(!lex_less(before[j - 1], before[at as int]));
                }
                if lex_less(after[j], name@) {
                    lemma_lex_transitive(after[j], name@, before[at as int]);
                    lemma_lex_irreflexive(before[at as int]);
                }
            } else {
                let ii = if i < at { i } else { i - 1 };
                let jj = if j < at { j } else { j - 1 };
                assert(after[i] == before[ii]);
                assert(after[j] == before[jj]);
            }
        }
    }
}

/// The names in lexicographic order.
pub fn sort_names(names: &Vec<String>) -> (ordered: Vec<String>)
    ensures
        sorted(views_of(ordered@)),
        views_of(ordered@).to_multiset() == views_of(names@).to_multiset(),
{
    let mut ordered: Vec<String> = Vec::new();
    let mut i: usize = 0;
    proof {
        assert(views_of(names@.take(0)) =~= Seq::<Seq<char>>::empty());
        assert(views_of(ordered@) =~= Seq::<Seq<char>>::empty());
    }
    while i < names.len()
        invariant
            i <= names.len(),
            sorted(views_of(ordered@)),
            views_of(ordered@).to_multiset() == views_of(names@.take(i as int)).to_multiset(),
        decreases names.len() - i,
    {
        proof {
            assert(views_of(names@.take(i + 1)) =~= views_of(names@.take(i as int)).push(
                names@[i as int]@,
            ));
            vstd::seq_lib::to_multiset_build(views_of(names@.take(i as int)), names@[i as int]@);
        }
        insert_sorted(&mut ordered, names[i].clone());
        i += 1;
    }
    assert(names@.take(names@.len() as int) =~= names@);
    ordered
}

} // verus!
