//! Character-level helpers on strings: literal replacement, trimming and
//! the other small text operations that catalog and synthesis need.

use vstd::prelude::*;

verus! {

/// `String::push` appends one character to the end of the string.
pub assume_specification[ String::push ](s: &mut String, c: char)
    ensures
        final(s)@ == old(s)@.push(c),
;

/// Equality of string slices compares their characters.
pub assume_specification[ <str as PartialEq>::eq ](a: &str, b: &str) -> (r: bool)
    ensures
        r == (a@ == b@),
;

/// `c`, in lower case where it is an ASCII capital letter.
pub open spec fn ascii_lower(c: char) -> char {
    if 'A' <= c <= 'Z' {
        ((c as u8) + 32) as char
    } else {
        c
    }
}

/// `text` with its ASCII capital letters in lower case.
pub open spec fn ascii_lowercase(text: Seq<char>) -> Seq<char> {
    text.map_values(|c: char| ascii_lower(c))
}

/// Whether `pattern` stands in `text` at position `at`.
pub open spec fn matches_at(text: Seq<char>, at: int, pattern: Seq<char>) -> bool {
    &&& 0 <= at
    &&& at + pattern.len() <= text.len()
    &&& text.subrange(at, at + pattern.len()) == pattern
}

/// `text` from position `from` on, with every occurrence of `pattern`
/// replaced by `with`. Occurrences are found from left to right and do not
/// overlap; what was put in is not searched again. An empty pattern occurs
/// nowhere.
pub open spec fn replace_from(text: Seq<char>, from: int, pattern: Seq<char>, with: Seq<char>) -> Seq<
    char,
>
    decreases text.len() - from,
{
    if from < 0 || from >= text.len() {
        Seq::empty()
    } else if pattern.len() > 0 && matches_at(text, from, pattern) {
        with + replace_from(text, from + pattern.len(), pattern, with)
    } else {
        seq![text[from]] + replace_from(text, from + 1, pattern, with)
    }
}

/// `text` with every occurrence of `pattern` replaced by `with`.
pub open spec fn replace_all(text: Seq<char>, pattern: Seq<char>, with: Seq<char>) -> Seq<char> {
    replace_from(text, 0, pattern, with)
}

/// `text` without the slashes at its end.
pub open spec fn without_trailing_slashes(text: Seq<char>) -> Seq<char>
    decreases text.len(),
{
    if text.len() > 0 && text.last() == '/' {
        without_trailing_slashes(text.drop_last())
    } else {
        text
    }
}

/// `text` with an underscore in place of each slash.
pub open spec fn slashes_to_underscores(text: Seq<char>) -> Seq<char> {
    text.map_values(
        |c: char|
            if c == '/' {
                '_'
            } else {
                c
            },
    )
}

/// Whether `text` begins with a slash.
pub open spec fn begins_with_slash(text: Seq<char>) -> bool {
    text.len() > 0 && text[0] == '/'
}

/// The characters of `s`, in order.
pub fn chars_of(s: &str) -> (out: Vec<char>)
    ensures
        out@ == s@,
{
    let mut out: Vec<char> = Vec::new();
    for c in it: s.chars()
        invariant
            it.seq() == s@,
            out@ == it.seq().take(it.index()),
    {
        out.push(c);
    }
    out
}

/// The string made of the characters of `v`, in order.
pub fn string_of(v: &Vec<char>) -> (out: String)
    ensures
        out@ == v@,
{
    let mut out = String::new();
    let mut i: usize = 0;
    while i < v.len()
        invariant
            i <= v.len(),
            out@ == v@.take(i as int),
        decreases v.len() - i,
    {
        out.push(v[i]);
        i += 1;
    }
    out
}

/// Whether `pattern` stands in `text` at position `at`.
fn occurs_at(text: &Vec<char>, at: usize, pattern: &Vec<char>) -> (found: bool)
    requires
        at <= text.len(),
    ensures
        found == matches_at(text@, at as int, pattern@),
{
    if pattern.len() > text.len() - at {
        return false;
    }
    let mut k: usize = 0;
    while k < pattern.len()
        invariant
            at + pattern.len() <= text.len(),
            k <= pattern.len(),
            forall|j: int| 0 <= j < k ==> text@[at + j] == pattern@[j],
        decreases pattern.len() - k,
    {
        if text[at + k] != pattern[k] {
            return false;
        }
        k += 1;
    }
    assert(text@.subrange(at as int, at + pattern.len()) =~= pattern@);
    true
}

/// Replaces every occurrence of `pattern` in `text` by `with`, from left to
/// right.
pub fn replace(text: &str, pattern: &str, with: &str) -> (out: String)
    ensures
        out@ == replace_all(text@, pattern@, with@),
{
    let text = chars_of(text);
    let pattern = chars_of(pattern);
    let with = chars_of(with);
    let mut out: Vec<char> = Vec::new();
    let mut i: usize = 0;
    while i < text.len()
        invariant
            i <= text.len(),
            out@ + replace_from(text@, i as int, pattern@, with@) == replace_all(
                text@,
                pattern@,
                with@,
            ),
        decreases text.len() - i,
    {
        let ghost before = out@;
        if pattern.len() > 0 && occurs_at(&text, i, &pattern) {
            let mut k: usize = 0;
            while k < with.len()
                invariant
                    k <= with.len(),
                    out@ == before + with@.take(k as int),
                decreases with.len() - k,
            {
                out.push(with[k]);
                k += 1;
            }
            i += pattern.len();
        } else {
            out.push(text[i]);
            i += 1;
        }
    }
    string_of(&out)
}

/// Removes the slashes at the end of `text`.
pub fn trim_trailing_slashes(text: &str) -> (out: String)
    ensures
        out@ == without_trailing_slashes(text@),
{
    let chars = chars_of(text);
    let mut end: usize = chars.len();
    assert(chars@.take(end as int) == chars@);
    while end > 0 && chars[end - 1] == '/'
        invariant
            end <= chars.len(),
            without_trailing_slashes(chars@.take(end as int)) == without_trailing_slashes(chars@),
        decreases end,
    {
        assert(chars@.take(end as int).drop_last() == chars@.take(end - 1));
        end -= 1;
    }
    let mut out = String::new();
    let mut i: usize = 0;
    while i < end
        invariant
            i <= end <= chars.len(),
            out@ == chars@.take(i as int),
        decreases end - i,
    {
        out.push(chars[i]);
        i += 1;
    }
    out
}

/// Puts an underscore in place of each slash of `text`.
pub fn underscore_slashes(text: &str) -> (out: String)
    ensures
        out@ == slashes_to_underscores(text@),
{
    let mut out = String::new();
    for c in it: text.chars()
        invariant
            it.seq() == text@,
            out@ == slashes_to_underscores(it.seq().take(it.index())),
    {
        if c == '/' {
            out.push('_');
        } else {
            out.push(c);
        }
    }
    out
}

/// Puts the ASCII capital letters of `text` in lower case.
pub fn to_ascii_lowercase(text: &str) -> (out: String)
    ensures
        out@ == ascii_lowercase(text@),
{
    let mut out = String::new();
    for c in it: text.chars()
        invariant
            it.seq() == text@,
            out@ == ascii_lowercase(it.seq().take(it.index())),
    {
        let lower = if 'A' <= c && c <= 'Z' {
            ((c as u8) + 32) as char
        } else {
            c
        };
        out.push(lower);
    }
    out
}

/// Whether `a` and `b` hold the same characters.
pub fn same_text(a: &str, b: &str) -> (same: bool)
    ensures
        same == (a@ == b@),
{
    a.eq(b)
}

/// Whether `text` begins with a slash.
pub fn starts_with_slash(text: &str) -> (found: bool)
    ensures
        found == begins_with_slash(text@),
{
    let mut it = text.chars();
    match it.next() {
        Some(c) => c == '/',
        None => false,
    }
}

/// Replacement brings in no character that stands neither in the text nor
/// in what is put in.
pub proof fn lemma_replace_brings_nothing_in(
    text: Seq<char>,
    from: int,
    pattern: Seq<char>,
    with: Seq<char>,
    c: char,
)
    requires
        !text.contains(c),
        !with.contains(c),
    ensures
        !replace_from(text, from, pattern, with).contains(c),
    decreases text.len() - from,
{
    if 0 <= from < text.len() {
        let out = replace_from(text, from, pattern, with);
        if pattern.len() > 0 && matches_at(text, from, pattern) {
            let rest = replace_from(text, from + pattern.len(), pattern, with);
            lemma_replace_brings_nothing_in(text, from + pattern.len(), pattern, with, c);
            assert forall|i: int| 0 <= i < out.len() implies out[i] != c by {
                if i >= with.len() {
                    assert(rest.contains(out[i]));
                }
            }
        } else {
            let rest = replace_from(text, from + 1, pattern, with);
            lemma_replace_brings_nothing_in(text, from + 1, pattern, with, c);
            assert forall|i: int| 0 <= i < out.len() implies out[i] != c by {
                if i > 0 {
                    assert(rest.contains(out[i]));
                }
            }
        }
    }
}

} // verus!
