//! Which logical references, source names and environment-variable names are accepted.

use crate::text::chars_of;
use vstd::prelude::*;
use vstd::string::*;
use vstd::utf8::*;

verus! {

/// Maximum supported logical secret-reference length, in bytes.
pub const MAX_REFERENCE_LENGTH: usize = 256;

/// The characters from `i` up to `j` are one segment of the path `path`: they lie between two
/// slashes, or between a slash and an end of the path, and hold no slash.
pub open spec fn is_segment(path: Seq<char>, i: int, j: int) -> bool {
    &&& 0 <= i <= j <= path.len()
    &&& i == 0 || path[i - 1] == '/'
    &&& j == path.len() || path[j] == '/'
    &&& forall|k: int| i <= k < j ==> path[k] != '/'
}

/// A segment that names something: it is not empty, and neither `.` nor `..`.
pub open spec fn is_proper_segment(segment: Seq<char>) -> bool {
    &&& segment.len() > 0
    &&& segment != seq!['.']
    &&& segment != seq!['.', '.']
}

/// A canonical path: each of its segments names something.
pub open spec fn is_canonical_path(path: Seq<char>) -> bool {
    forall|i: int, j: int| #[trigger]
        is_segment(path, i, j) ==> is_proper_segment(path.subrange(i, j))
}

/// A logical reference: a canonical path of at most `MAX_REFERENCE_LENGTH` bytes without NUL.
pub open spec fn is_valid_reference(reference: Seq<char>) -> bool {
    &&& is_canonical_path(reference)
    &&& encode_utf8(reference).len() <= MAX_REFERENCE_LENGTH
    &&& !reference.contains('\0')
}

/// A canonical path is not empty, has no slash at either end and no two slashes in a row, and
/// each path of that shape without a `.` or `..` segment is canonical.
pub proof fn canonical_path_shape(path: Seq<char>)
    ensures
        is_canonical_path(path) <==> {
            &&& path.len() > 0
            &&& path[0] != '/'
            &&& path.last() != '/'
            &&& forall|k: int| 0 < k < path.len() ==> !(path[k - 1] == '/' && #[trigger] path[k] == '/')
            &&& forall|i: int, j: int| #[trigger]
                is_segment(path, i, j) ==> path.subrange(i, j) != seq!['.'] && path.subrange(i, j)
                    != seq!['.', '.']
        },
{
    if is_canonical_path(path) {
        if path.len() == 0 || path[0] == '/' {
            assert(is_segment(path, 0, 0));
        } else if path.last() == '/' {
            assert(is_segment(path, path.len() as int, path.len() as int));
        }
        assert forall|k: int| 0 < k < path.len() implies !(path[k - 1] == '/' && #[trigger] path[k]
            == '/') by {
            if path[k - 1] == '/' && path[k] == '/' {
                assert(is_segment(path, k, k));
            }
        }
    }
}

/// Whether the characters from `start` up to `end` name something.
fn proper_segment(path: &Vec<char>, start: usize, end: usize) -> (proper: bool)
    requires
        start <= end <= path.len(),
    ensures
        proper == is_proper_segment(path@.subrange(start as int, end as int)),
{
    let ghost segment = path@.subrange(start as int, end as int);
    if end - start == 0 {
        false
    } else if end - start == 1 {
        proof {
            if path@[start as int] == '.' {
                assert(segment =~= seq!['.']);
            }
            assert(segment[0] == path@[start as int]);
        }
        path[start] != '.'
    } else if end - start == 2 {
        proof {
            if path@[start as int] == '.' && path@[start + 1] == '.' {
                assert(segment =~= seq!['.', '.']);
            }
            assert(segment[0] == path@[start as int] && segment[1] == path@[start + 1]);
        }
        path[start] != '.' || path[start + 1] != '.'
    } else {
        true
    }
}

/// Whether `path` is canonical.
pub(crate) fn canonical_path(path: &Vec<char>) -> (canonical: bool)
    ensures
        canonical == is_canonical_path(path@),
{
    let mut start: usize = 0;
    let mut i: usize = 0;
    while i < path.len()
        invariant
            start <= i <= path.len(),
            start == 0 || path@[start - 1] == '/',
            forall|k: int| start <= k < i ==> path@[k] != '/',
            forall|a: int, b: int| #[trigger]
                is_segment(path@, a, b) && b < start ==> is_proper_segment(path@.subrange(a, b)),
        decreases path.len() - i,
    {
        if path[i] == '/' {
            assert(is_segment(path@, start as int, i as int));
            if !proper_segment(path, start, i) {
                return false;
            }
            assert forall|a: int, b: int| #[trigger]
                is_segment(path@, a, b) && b < i + 1 implies is_proper_segment(
                path@.subrange(a, b),
            ) by {
                if b >= start {
                    assert(b == i);
                    if a < start {
                        assert(path@[start - 1] == '/');
                    }
                    assert(a == start);
                }
            }
            start = i + 1;
        }
        i += 1;
    }
    assert(is_segment(path@, start as int, i as int));
    if !proper_segment(path, start, i) {
        return false;
    }
    assert forall|a: int, b: int| #[trigger] is_segment(path@, a, b) implies is_proper_segment(
        path@.subrange(a, b),
    ) by {
        if b >= start {
            assert(b == i);
            if a < start {
                assert(path@[start - 1] == '/');
            }
            assert(a == start);
        }
    }
    true
}

/// Whether `c` is among `chars`.
pub(crate) fn contains_char(chars: &Vec<char>, c: char) -> (found: bool)
    ensures
        found == chars@.contains(c),
{
    let mut i: usize = 0;
    while i < chars.len()
        invariant
            i <= chars.len(),
            forall|k: int| 0 <= k < i ==> chars@[k] != c,
        decreases chars.len() - i,
    {
        if chars[i] == c {
            return true;
        }
        i += 1;
    }
    false
}

/// Whether `reference` is a logical reference.
pub fn valid_reference(reference: &str) -> (valid: bool)
    ensures
        valid == is_valid_reference(reference@),
{
    let chars = chars_of(reference);
    reference.as_bytes().len() <= MAX_REFERENCE_LENGTH && !contains_char(&chars, '\0')
        && canonical_path(&chars)
}

/// A white-space character: one with the Unicode property `White_Space`.
pub open spec fn is_white_space(c: char) -> bool {
    ||| '\u{9}' <= c <= '\u{d}'
    ||| c == ' '
    ||| c == '\u{85}'
    ||| c == '\u{a0}'
    ||| c == '\u{1680}'
    ||| '\u{2000}' <= c <= '\u{200a}'
    ||| c == '\u{2028}'
    ||| c == '\u{2029}'
    ||| c == '\u{202f}'
    ||| c == '\u{205f}'
    ||| c == '\u{3000}'
}

/// Whether `c` is a white-space character.
pub fn white_space(c: char) -> (white: bool)
    ensures
        white == is_white_space(c),
{
    ('\u{9}' <= c && c <= '\u{d}') || c == ' ' || c == '\u{85}' || c == '\u{a0}' || c == '\u{1680}'
        || ('\u{2000}' <= c && c <= '\u{200a}') || c == '\u{2028}' || c == '\u{2029}' || c
        == '\u{202f}' || c == '\u{205f}' || c == '\u{3000}'
}

/// A text that trims to nothing.
pub open spec fn is_blank(text: Seq<char>) -> bool {
    forall|k: int| 0 <= k < text.len() ==> is_white_space(#[trigger] text[k])
}

/// The name of a source: not blank, at most `limit` bytes, without NUL.
pub open spec fn is_valid_source_name(name: Seq<char>, limit: nat) -> bool {
    &&& !is_blank(name)
    &&& encode_utf8(name).len() <= limit
    &&& !name.contains('\0')
}

/// Whether `chars` trims to nothing.
fn blank(chars: &Vec<char>) -> (blank: bool)
    ensures
        blank == is_blank(chars@),
{
    let mut i: usize = 0;
    while i < chars.len()
        invariant
            i <= chars.len(),
            forall|k: int| 0 <= k < i ==> is_white_space(#[trigger] chars@[k]),
        decreases chars.len() - i,
    {
        if !white_space(chars[i]) {
            return false;
        }
        i += 1;
    }
    true
}

/// Whether `name` names a source in at most `limit` bytes.
pub fn valid_source_name(name: &str, limit: usize) -> (valid: bool)
    ensures
        valid == is_valid_source_name(name@, limit as nat),
{
    let chars = chars_of(name);
    !blank(&chars) && name.as_bytes().len() <= limit && !contains_char(&chars, '\0')
}

/// An upper-case ASCII letter.
pub open spec fn is_upper(c: char) -> bool {
    'A' <= c <= 'Z'
}

/// A lower-case ASCII letter.
pub open spec fn is_lower(c: char) -> bool {
    'a' <= c <= 'z'
}

/// An ASCII digit.
pub open spec fn is_digit(c: char) -> bool {
    '0' <= c <= '9'
}

/// An environment-variable name in upper case: letters, digits and underscores, at least one of
/// them, and no digit in front.
pub open spec fn is_environment_variable(name: Seq<char>) -> bool {
    &&& name.len() > 0
    &&& !is_digit(name[0])
    &&& forall|k: int|
        0 <= k < name.len() ==> is_upper(#[trigger] name[k]) || is_digit(name[k]) || name[k] == '_'
}

/// Whether `name` is an environment-variable name in upper case.
pub fn valid_environment_variable(name: &str) -> (valid: bool)
    ensures
        valid == is_environment_variable(name@),
{
    let chars = chars_of(name);
    if chars.len() == 0 || ('0' <= chars[0] && chars[0] <= '9') {
        return false;
    }
    let mut i: usize = 0;
    while i < chars.len()
        invariant
            i <= chars.len(),
            chars@ == name@,
            forall|k: int|
                0 <= k < i ==> is_upper(#[trigger] chars@[k]) || is_digit(chars@[k]) || chars@[k]
                    == '_',
        decreases chars.len() - i,
    {
        let c = chars[i];
        if !(('A' <= c && c <= 'Z') || ('0' <= c && c <= '9') || c == '_') {
            return false;
        }
        i += 1;
    }
    true
}

} // verus!
