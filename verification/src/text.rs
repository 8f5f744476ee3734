//! Substitution in text: every occurrence of a pattern gives way to a
//! replacement, read from the left.

use vstd::prelude::*;

verus! {

/// `text` with `separator` before each of its characters and behind the last
/// one.
pub open spec fn interleaved(text: Seq<char>, separator: Seq<char>) -> Seq<char>
    decreases text.len(),
{
    if text.len() == 0 {
        separator
    } else {
        separator + seq![text[0]] + interleaved(text.skip(1), separator)
    }
}

/// `text` with every occurrence of the non-empty `pattern` replaced by
/// `replacement`. Occurrences are found from the left and do not overlap:
/// behind a replaced occurrence the search goes on with what follows it.
pub open spec fn replace_occurrences(
    text: Seq<char>,
    pattern: Seq<char>,
    replacement: Seq<char>,
) -> Seq<char>
    decreases text.len(),
{
    if text.len() == 0 || pattern.len() == 0 {
        text
    } else if pattern.is_prefix_of(text) {
        replacement + replace_occurrences(text.skip(pattern.len() as int), pattern, replacement)
    } else {
        seq![text[0]] + replace_occurrences(text.skip(1), pattern, replacement)
    }
}

/// `text` with every occurrence of `pattern` replaced by `replacement`. The
/// empty pattern occurs before every character and at the end.
pub open spec fn replace_all(text: Seq<char>, pattern: Seq<char>, replacement: Seq<char>) -> Seq<
    char,
> {
    if pattern.len() == 0 {
        interleaved(text, replacement)
    } else {
        replace_occurrences(text, pattern, replacement)
    }
}

/// Whether two texts are the same.
pub fn same_text(left: &str, right: &str) -> (same: bool)
    ensures
        same == (left@ == right@),
{
    left.to_owned() == right.to_owned()
}

/// `text` with `separator` before each of its characters and behind the last
/// one.
fn interleave(text: &str, separator: &str) -> (out: String)
    ensures
        out@ == interleaved(text@, separator@),
{
    let n = text.unicode_len();
    let mut out = String::new();
    let mut i: usize = 0;
    assert(text@.skip(0) =~= text@);
    assert(out@ + interleaved(text@, separator@) =~= interleaved(text@, separator@));
    while i < n
        invariant
            i <= n,
            n == text@.len(),
            out@ + interleaved(text@.skip(i as int), separator@) == interleaved(
                text@,
                separator@,
            ),
        decreases n - i,
    {
        let ghost rest = text@.skip(i as int);
        let ghost done = out@;
        assert(rest.skip(1) =~= text@.skip(i + 1));
        assert(text@.subrange(i as int, i + 1) =~= seq![rest[0]]);
        out.append(separator);
        out.append(text.substring_char(i, i + 1));
        assert(out@ + interleaved(text@.skip(i + 1), separator@) =~= done + (separator@
            + seq![rest[0]] + interleaved(rest.skip(1), separator@)));
        i = i + 1;
    }
    assert(text@.skip(i as int).len() == 0);
    out.append(separator);
    out
}

/// `text` with every occurrence of `pattern` replaced by `replacement`.
pub fn replace_in(text: &str, pattern: &str, replacement: &str) -> (out: String)
    ensures
        out@ == replace_all(text@, pattern@, replacement@),
{
    let n = text.unicode_len();
    let m = pattern.unicode_len();
    if m == 0 {
        return interleave(text, replacement);
    }
    let mut out = String::new();
    let mut i: usize = 0;
    assert(text@.skip(0) =~= text@);
    assert(out@ + replace_occurrences(text@, pattern@, replacement@) =~= replace_occurrences(
        text@,
        pattern@,
        replacement@,
    ));
    while i < n
        invariant
            i <= n,
            n == text@.len(),
            m == pattern@.len(),
            m > 0,
            out@ + replace_occurrences(text@.skip(i as int), pattern@, replacement@)
                == replace_occurrences(text@, pattern@, replacement@),
        decreases n - i,
    {
        let ghost rest = text@.skip(i as int);
        let ghost done = out@;
        if m <= n - i && same_text(text.substring_char(i, i + m), pattern) {
            assert(rest.subrange(0, m as int) =~= text@.subrange(i as int, i + m));
            assert(pattern@.is_prefix_of(rest));
            assert(rest.skip(m as int) =~= text@.skip(i + m));
            out.append(replacement);
            assert(out@ + replace_occurrences(text@.skip(i + m), pattern@, replacement@) =~= done
                + (replacement@ + replace_occurrences(
                rest.skip(m as int),
                pattern@,
                replacement@,
            )));
            i = i + m;
        } else {
            assert(!pattern@.is_prefix_of(rest)) by {
                if pattern@.is_prefix_of(rest) {
                    assert(rest.subrange(0, m as int) =~= text@.subrange(i as int, i + m));
                }
            }
            assert(rest.skip(1) =~= text@.skip(i + 1));
            assert(text@.subrange(i as int, i + 1) =~= seq![rest[0]]);
            out.append(text.substring_char(i, i + 1));
            assert(out@ + replace_occurrences(text@.skip(i + 1), pattern@, replacement@) =~= done
                + (seq![rest[0]] + replace_occurrences(rest.skip(1), pattern@, replacement@)));
            i = i + 1;
        }
    }
    assert(text@.skip(i as int).len() == 0);
    assert(out@ + text@.skip(i as int) =~= out@);
    out
}

} // verus!
