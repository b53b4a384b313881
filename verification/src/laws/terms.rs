//! The words that the laws share: texts, bytes and rows, and nothing else.

use crate::capability::RuntimeFailure;
use crate::table;
use vstd::prelude::*;
use vstd::utf8::*;

verus! {

/// A row of a table.
pub type Row = (Seq<char>, Seq<char>);

/// A path that is written plainly: not empty, no slash at either end, no two slashes in a row, and
/// no part between slashes that is a dot or two dots.
pub open spec fn plain_path(path: Seq<char>) -> bool {
    &&& path.len() > 0
    &&& path.first() != '/'
    &&& path.last() != '/'
    &&& forall|k: int| 0 <= k < path.len() - 1 && #[trigger] path[k] == '/' ==> path[k + 1] != '/'
    &&& forall|i: int, j: int|
        0 <= i <= j <= path.len() && (i == 0 || path[i - 1] == '/') && (j == path.len() || path[j]
            == '/') ==> #[trigger] path.subrange(i, j) != seq!['.'] && path.subrange(i, j) != seq![
            '.',
            '.',
        ]
}

/// A reference that is accepted: a plain path of at most 256 bytes without NUL.
pub open spec fn good_reference(reference: Seq<char>) -> bool {
    &&& plain_path(reference)
    &&& encode_utf8(reference).len() <= 256
    &&& !reference.contains('\0')
}

/// A reference that the environment provider accepts: a plain path of at most 256 bytes, all of
/// them letters, digits or one of `.`, `_`, `-` and `/`.
pub open spec fn good_env_reference(reference: Seq<char>) -> bool {
    &&& plain_path(reference)
    &&& reference.len() <= 256
    &&& forall|k: int|
        #![trigger reference[k]]
        0 <= k < reference.len() ==> {
            let c = reference[k] as int;
            65 <= c <= 90 || 97 <= c <= 122 || 45 <= c <= 57 || c == 95
        }
}

/// A code point that counts as white space.
pub open spec fn white(c: int) -> bool {
    ||| 9 <= c <= 13
    ||| c == 32
    ||| c == 133
    ||| c == 160
    ||| c == 5760
    ||| 8192 <= c <= 8202
    ||| c == 8232
    ||| c == 8233
    ||| c == 8239
    ||| c == 8287
    ||| c == 12288
}

/// The name of a source that is accepted: something besides white space, at most `limit` bytes, and
/// no NUL.
pub open spec fn good_source(name: Seq<char>, limit: int) -> bool {
    &&& exists|k: int| 0 <= k < name.len() && !white(#[trigger] name[k] as int)
    &&& encode_utf8(name).len() <= limit
    &&& !name.contains('\0')
}

/// The name of an environment variable in upper case.
pub open spec fn good_upper_variable(name: Seq<char>) -> bool {
    &&& name.len() > 0
    &&& !(48 <= name[0] as int <= 57)
    &&& forall|k: int|
        #![trigger name[k]]
        0 <= k < name.len() ==> {
            let c = name[k] as int;
            65 <= c <= 90 || 48 <= c <= 57 || c == 95
        }
}

/// The name of an environment variable in either case.
pub open spec fn good_variable(name: Seq<char>) -> bool {
    &&& name.len() > 0
    &&& !(48 <= name[0] as int <= 57)
    &&& forall|k: int|
        #![trigger name[k]]
        0 <= k < name.len() ==> {
            let c = name[k] as int;
            65 <= c <= 90 || 97 <= c <= 122 || 48 <= c <= 57 || c == 95
        }
}

/// These bytes are the encoding of no text.
pub open spec fn no_text(bytes: Seq<u8>) -> bool {
    forall|t: Seq<char>| bytes != #[trigger] encode_utf8(t)
}

/// A binding that is accepted: from an accepted reference to an accepted source.
pub open spec fn good_binding(row: Row, limit: int) -> bool {
    good_reference(row.0) && good_source(row.1, limit)
}

/// A configuration is refused with these words.
pub open spec fn refused(outcome: Result<(), RuntimeFailure>, words: Seq<char>) -> bool {
    outcome matches Err(RuntimeFailure::InvalidResolvedPlan { detail }) && detail@ == words
}

/// A provider reports a failure in these words.
pub open spec fn reported(failure: RuntimeFailure, words: Seq<char>) -> bool {
    failure matches RuntimeFailure::PluginFailure { detail } && detail@ == words
}

/// No row has this name.
pub open spec fn unnamed(rows: table::Rows, name: Seq<char>) -> bool {
    forall|i: int| 0 <= i < rows.len() ==> (#[trigger] rows[i]).0 != name
}

/// No name stands in two rows.
pub open spec fn unique(rows: table::Rows) -> bool {
    forall|i: int, j: int|
        0 <= i < j < rows.len() ==> (#[trigger] rows[i]).0 != (#[trigger] rows[j]).0
}

} // verus!
