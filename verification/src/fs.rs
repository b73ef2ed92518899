//! The exclusion filter: which paths a traversal leaves out.
//!
//! A pattern is matched against the text of a path, character by character
//! and with regard to case. A pattern with exactly one `*` stands for a
//! beginning and an end. A pattern without `*` is looked for anywhere in the
//! path, and one with several `*` has to equal the path: no other wildcard
//! is known.

use crate::text::chars_of;
use vstd::prelude::*;

verus! {

/// How many `*` a pattern holds.
pub open spec fn star_count(pattern: Seq<char>) -> nat
    decreases pattern.len(),
{
    if pattern.len() == 0 {
        0
    } else {
        star_count(pattern.drop_last()) + if pattern.last() == '*' {
            1nat
        } else {
            0nat
        }
    }
}

/// Where the first `*` of a pattern stands; the pattern's length if it has none.
pub open spec fn first_star(pattern: Seq<char>) -> int
    decreases pattern.len(),
{
    if pattern.len() == 0 || pattern.first() == '*' {
        0
    } else {
        1 + first_star(pattern.drop_first())
    }
}

/// `needle` stands in `text` at position `at`.
pub open spec fn occurs_at(needle: Seq<char>, text: Seq<char>, at: int) -> bool {
    &&& 0 <= at
    &&& at + needle.len() <= text.len()
    &&& text.subrange(at, at + needle.len()) == needle
}

/// `needle` stands somewhere in `text`.
pub open spec fn occurs_in(needle: Seq<char>, text: Seq<char>) -> bool {
    exists|at: int| occurs_at(needle, text, at)
}

/// Whether `path` matches `pattern`.
///
/// - The empty pattern matches nothing.
/// - A pattern with exactly one `*` matches a path that begins with what
///   stands before the `*` and ends with what stands behind it. The two are
///   tested independently, so they may overlap in the path.
/// - A pattern without `*` matches a path that it occurs in.
/// - A pattern with several `*` matches only the path that equals it.
pub open spec fn pattern_matches(path: Seq<char>, pattern: Seq<char>) -> bool {
    if pattern.len() == 0 {
        false
    } else if star_count(pattern) == 1 {
        let star = first_star(pattern);
        pattern.take(star).is_prefix_of(path) && pattern.skip(star + 1).is_suffix_of(path)
    } else if star_count(pattern) == 0 {
        path == pattern || occurs_in(pattern, path)
    } else {
        path == pattern
    }
}

/// Whether `path` matches one of `patterns`.
pub open spec fn excluded_by(path: Seq<char>, patterns: Seq<String>) -> bool {
    exists|i: int| 0 <= i < patterns.len() && pattern_matches(path, #[trigger] patterns[i]@)
}

/// Without patterns no path is excluded.
pub proof fn lemma_no_patterns_exclude_nothing(path: Seq<char>)
    ensures
        !excluded_by(path, Seq::<String>::empty()),
{
}

/// The empty pattern matches no path.
pub proof fn lemma_empty_pattern_matches_nothing(path: Seq<char>)
    ensures
        !pattern_matches(path, Seq::<char>::empty()),
{
}

/// A path that matches one pattern of a list is excluded by the list.
pub proof fn lemma_one_match_excludes(path: Seq<char>, patterns: Seq<String>, i: int)
    requires
        0 <= i < patterns.len(),
        pattern_matches(path, patterns[i]@),
    ensures
        excluded_by(path, patterns),
{
}

/// The `*` of two texts put together are those of the one and of the other.
proof fn lemma_star_count_of_concatenation(a: Seq<char>, b: Seq<char>)
    ensures
        star_count(a + b) == star_count(a) + star_count(b),
    decreases b.len(),
{
    if b.len() > 0 {
        assert((a + b).drop_last() =~= a + b.drop_last());
        lemma_star_count_of_concatenation(a, b.drop_last());
    }
}

/// A text that counts no `*` holds none.
proof fn lemma_no_star_counted_is_no_star(text: Seq<char>)
    requires
        star_count(text) == 0,
    ensures
        forall|i: int| 0 <= i < text.len() ==> text[i] != '*',
    decreases text.len(),
{
    if text.len() > 0 {
        lemma_no_star_counted_is_no_star(text.drop_last());
        assert forall|i: int| 0 <= i < text.len() implies text[i] != '*' by {
            if i < text.len() - 1 {
                assert(text[i] == text.drop_last()[i]);
            }
        }
    }
}

/// A pattern with one `*` is a beginning and an end: `prefix*suffix` matches
/// exactly the paths that begin with `prefix` and end with `suffix`. With an
/// empty `prefix` these are the paths that end with `suffix`, with an empty
/// `suffix` those that begin with `prefix`, and `*` alone matches every path.
pub proof fn lemma_single_star_splits(path: Seq<char>, prefix: Seq<char>, suffix: Seq<char>)
    requires
        star_count(prefix) == 0,
        star_count(suffix) == 0,
    ensures
        pattern_matches(path, prefix + seq!['*'] + suffix) == (prefix.is_prefix_of(path)
            && suffix.is_suffix_of(path)),
        prefix.len() == 0 ==> pattern_matches(path, prefix + seq!['*'] + suffix)
            == suffix.is_suffix_of(path),
        suffix.len() == 0 ==> pattern_matches(path, prefix + seq!['*'] + suffix)
            == prefix.is_prefix_of(path),
{
    let pattern = prefix + seq!['*'] + suffix;
    let star = prefix.len() as int;
    assert(star_count(seq!['*']) == 1) by {
        reveal_with_fuel(star_count, 2);
    }
    lemma_star_count_of_concatenation(prefix, seq!['*']);
    lemma_star_count_of_concatenation(prefix + seq!['*'], suffix);
    lemma_no_star_counted_is_no_star(prefix);
    assert forall|j: int| 0 <= j < star implies pattern[j] != '*' by {
        assert(pattern[j] == prefix[j]);
    }
    lemma_first_star_at(pattern, star);
}

/// A pattern without `*` that is not empty matches exactly the paths that
/// it occurs in; the path that equals it is one of them.
pub proof fn lemma_plain_pattern_matches_where_it_occurs(path: Seq<char>, pattern: Seq<char>)
    requires
        pattern.len() > 0,
        star_count(pattern) == 0,
    ensures
        pattern_matches(path, pattern) == occurs_in(pattern, path),
        path == pattern ==> pattern_matches(path, pattern),
{
    if path == pattern {
        assert(path.subrange(0, pattern.len() as int) =~= pattern);
        assert(occurs_at(pattern, path, 0));
    }
}

/// A pattern with several `*` matches exactly the path that equals it.
pub proof fn lemma_several_stars_are_literal(path: Seq<char>, pattern: Seq<char>)
    requires
        star_count(pattern) >= 2,
    ensures
        pattern_matches(path, pattern) == (path == pattern),
{
}

/// The first `*` stands at `at` if there is one at `at` and none before it.
proof fn lemma_first_star_at(pattern: Seq<char>, at: int)
    requires
        0 <= at <= pattern.len(),
        forall|j: int| 0 <= j < at ==> pattern[j] != '*',
        at < pattern.len() ==> pattern[at] == '*',
    ensures
        first_star(pattern) == at,
    decreases at,
{
    if at > 0 {
        let rest = pattern.drop_first();
        assert forall|j: int| 0 <= j < at - 1 implies rest[j] != '*' by {
            assert(rest[j] == pattern[j + 1]);
        }
        lemma_first_star_at(rest, at - 1);
    }
}

/// Counts the `*` of `pattern` and finds the first.
fn scan_stars(pattern: &Vec<char>) -> (found: (usize, usize))
    ensures
        found.0 == star_count(pattern@),
        found.1 == first_star(pattern@),
        found.0 > 0 ==> found.1 < pattern@.len(),
{
    let mut count: usize = 0;
    let mut first: usize = pattern.len();
    let mut i: usize = 0;
    while i < pattern.len()
        invariant
            i <= pattern@.len(),
            count == star_count(pattern@.take(i as int)),
            count <= i,
            count == 0 ==> first == pattern@.len(),
            count > 0 ==> first < i && pattern@[first as int] == '*',
            forall|j: int| 0 <= j < i && j < first ==> pattern@[j] != '*',
        decreases pattern@.len() - i,
    {
        proof {
            assert(pattern@.take(i + 1).drop_last() =~= pattern@.take(i as int));
        }
        if pattern[i] == '*' {
            if count == 0 {
                first = i;
            }
            count += 1;
        }
        i += 1;
    }
    proof {
        assert(pattern@.take(i as int) =~= pattern@);
        lemma_first_star_at(pattern@, first as int);
    }
    (count, first)
}

/// Whether the part of `pattern` from `from` up to `to` stands in `text` at `at`.
fn equal_at(text: &Vec<char>, at: usize, pattern: &Vec<char>, from: usize, to: usize) -> (equal:
    bool)
    requires
        from <= to <= pattern.len(),
        at + (to - from) <= text.len(),
    ensures
        equal == (text@.subrange(at as int, at + (to - from)) == pattern@.subrange(
            from as int,
            to as int,
        )),
{
    let len = to - from;
    let mut k: usize = 0;
    while k < len
        invariant
            len == to - from,
            from <= to <= pattern@.len(),
            at + len <= text.len(),
            k <= len,
            text@.subrange(at as int, at + k) == pattern@.subrange(from as int, from + k),
        decreases len - k,
    {
        if text[at + k] != pattern[from + k] {
            proof {
                let a = text@.subrange(at as int, at + len);
                let b = pattern@.subrange(from as int, to as int);
                assert(a[k as int] != b[k as int]);
            }
            return false;
        }
        proof {
            let a = text@.subrange(at as int, at + k);
            let b = pattern@.subrange(from as int, from + k);
            let a1 = text@.subrange(at as int, at + k + 1);
            let b1 = pattern@.subrange(from as int, from + k + 1);
            assert forall|j: int| 0 <= j < k + 1 implies a1[j] == b1[j] by {
                if j < k {
                    assert(a1[j] == a[j] && b1[j] == b[j]);
                }
            }
        }
        k += 1;
    }
    true
}

/// Whether `pattern` occurs in `text`.
fn occurs(text: &Vec<char>, pattern: &Vec<char>) -> (found: bool)
    requires
        pattern@.len() > 0,
    ensures
        found == occurs_in(pattern@, text@),
{
    if pattern.len() > text.len() {
        return false;
    }
    let last = text.len() - pattern.len();
    let mut at: usize = 0;
    while at <= last
        invariant
            last == text@.len() - pattern@.len(),
            last < usize::MAX,
            at <= last + 1,
            forall|j: int| 0 <= j < at ==> !occurs_at(pattern@, text@, j),
        decreases last + 1 - at,
    {
        if equal_at(text, at, pattern, 0, pattern.len()) {
            proof {
                assert(occurs_at(pattern@, text@, at as int));
            }
            return true;
        }
        proof {
            assert(pattern@.subrange(0, pattern@.len() as int) =~= pattern@);
        }
        at += 1;
    }
    proof {
        assert forall|j: int| !occurs_at(pattern@, text@, j) by {
            if 0 <= j && j + pattern@.len() <= text@.len() {
                assert(j < at);
            }
        }
    }
    false
}

/// Whether the characters `path` match the characters `pattern`.
fn matches_chars(path: &Vec<char>, pattern: &Vec<char>) -> (matched: bool)
    ensures
        matched == pattern_matches(path@, pattern@),
{
    if pattern.len() == 0 {
        return false;
    }
    let (count, star) = scan_stars(pattern);
    if count == 1 {
        let suffix_len = pattern.len() - star - 1;
        let starts = star <= path.len() && equal_at(path, 0, pattern, 0, star);
        let ends = suffix_len <= path.len() && equal_at(
            path,
            path.len() - suffix_len,
            pattern,
            star + 1,
            pattern.len(),
        );
        proof {
            assert(pattern@.skip(star + 1) =~= pattern@.subrange(
                star + 1,
                pattern@.len() as int,
            ));
        }
        starts && ends
    } else if count == 0 {
        let found = occurs(path, pattern);
        proof {
            if path@ == pattern@ {
                assert(path@.subrange(0, pattern@.len() as int) =~= pattern@);
                assert(occurs_at(pattern@, path@, 0));
            }
        }
        found
    } else {
        let equal = path.len() == pattern.len() && equal_at(path, 0, pattern, 0, pattern.len());
        proof {
            assert(pattern@.subrange(0, pattern@.len() as int) =~= pattern@);
            if path@.len() == pattern@.len() {
                assert(path@.subrange(0, pattern@.len() as int) =~= path@);
            }
        }
        equal
    }
}

/// Whether `path` matches `pattern`.
pub fn matches_pattern(path: &str, pattern: &str) -> (matched: bool)
    ensures
        matched == pattern_matches(path@, pattern@),
{
    let path_chars = chars_of(path);
    let pattern_chars = chars_of(pattern);
    matches_chars(&path_chars, &pattern_chars)
}

/// Whether `path` is excluded: whether it matches one of `patterns`.
///
/// `path` is the text of the path. Without patterns nothing is excluded.
pub fn should_exclude(path: &str, patterns: &[String]) -> (excluded: bool)
    ensures
        excluded == excluded_by(path@, patterns@),
{
    if patterns.len() == 0 {
        return false;
    }
    let path_chars = chars_of(path);
    let mut i: usize = 0;
    while i < patterns.len()
        invariant
            i <= patterns@.len(),
            path_chars@ == path@,
            forall|j: int| 0 <= j < i ==> !pattern_matches(path@, #[trigger] patterns@[j]@),
        decreases patterns@.len() - i,
    {
        let pattern_chars = chars_of(patterns[i].as_str());
        if matches_chars(&path_chars, &pattern_chars) {
            return true;
        }
        i += 1;
    }
    false
}

} // verus!
