//! Which names are accepted.

use crate::env;
use crate::laws::terms;
use crate::naming;
use vstd::prelude::*;
use vstd::utf8::*;

verus! {

/// The paths that are canonical are those that are written plainly.
pub proof fn canonical_paths_are_plain(path: Seq<char>)
    ensures
        naming::is_canonical_path(path) == terms::plain_path(path),
{
    if naming::is_canonical_path(path) {
        naming::canonical_path_shape(path);
        assert forall|k: int| 0 <= k < path.len() - 1 && #[trigger] path[k] == '/' implies path[k
            + 1] != '/' by {
            let next = k + 1;
            assert(path[next - 1] == '/');
        }
        assert forall|i: int, j: int|
            0 <= i <= j <= path.len() && (i == 0 || path[i - 1] == '/') && (j == path.len()
                || path[j] == '/') implies #[trigger] path.subrange(i, j) != seq!['.']
            && path.subrange(i, j) != seq!['.', '.'] by {
            let part = path.subrange(i, j);
            if part == seq!['.'] || part == seq!['.', '.'] {
                assert(part.len() == j - i);
                assert forall|k: int| 0 <= k < part.len() implies #[trigger] part[k] == '.' by {
                    if part.len() == 1 {
                        assert(part[k] == seq!['.'][k]);
                    } else {
                        assert(part[k] == seq!['.', '.'][k]);
                    }
                }
                assert forall|k: int| i <= k < j implies path[k] != '/' by {
                    assert(part[k - i] == path[k]);
                }
                assert(naming::is_segment(path, i, j));
            }
        }
    }
    if terms::plain_path(path) {
        assert forall|i: int, j: int| #[trigger]
            naming::is_segment(path, i, j) implies naming::is_proper_segment(
            path.subrange(i, j),
        ) by {
            assert(path.subrange(i, j) != seq!['.']);
            if i == j {
                if i == 0 {
                    assert(path.first() == '/');
                } else if j == path.len() {
                    assert(path.last() == '/');
                } else {
                    assert(path[i - 1] == '/');
                    assert(path[(i - 1) + 1] == '/');
                }
            }
        }
    }
}

/// A reference is accepted exactly if it is a plain path of at most 256 bytes without NUL.
pub proof fn references_are_plain_paths(reference: &str, valid: bool)
    requires
        call_ensures(naming::valid_reference, (reference,), valid),
    ensures
        valid == terms::good_reference(reference@),
{
    canonical_paths_are_plain(reference@);
}

/// White space is what Unicode calls so.
pub proof fn white_space_is_unicode_white_space(c: char, white: bool)
    requires
        call_ensures(naming::white_space, (c,), white),
    ensures
        white == terms::white(c as int),
{
}

/// The names of sources are those that are accepted in at most `limit` bytes.
pub proof fn good_sources(name: Seq<char>, limit: nat)
    ensures
        naming::is_valid_source_name(name, limit) == terms::good_source(name, limit as int),
{
    if naming::is_valid_source_name(name, limit) {
        let k = choose|k: int| 0 <= k < name.len() && !naming::is_white_space(#[trigger] name[k]);
        assert(!terms::white(name[k] as int));
    }
}

/// A source name is accepted exactly if something in it is no white space, it takes at most `limit`
/// bytes, and it holds no NUL.
pub proof fn source_names_are_visible_and_bounded(name: &str, limit: usize, valid: bool)
    requires
        call_ensures(naming::valid_source_name, (name, limit), valid),
    ensures
        valid == terms::good_source(name@, limit as int),
{
    good_sources(name@, limit as nat);
}

/// The names of environment variables in upper case are those that are accepted.
pub proof fn good_upper_variables(name: Seq<char>)
    ensures
        naming::is_environment_variable(name) == terms::good_upper_variable(name),
{
}

/// An environment variable is accepted exactly if its name is made of upper-case ASCII letters,
/// digits and underscores, with no digit in front.
pub proof fn variables_are_in_upper_case(name: &str, valid: bool)
    requires
        call_ensures(naming::valid_environment_variable, (name,), valid),
    ensures
        valid == terms::good_upper_variable(name@),
{
    good_upper_variables(name@);
}

/// The references of the environment provider are those that are accepted.
pub proof fn good_env_references(reference: Seq<char>)
    ensures
        env::is_valid_reference(reference) == terms::good_env_reference(reference),
{
    canonical_paths_are_plain(reference);
    if env::is_valid_reference(reference) {
        env::references_are_portable(reference);
        assert forall|k: int| #![trigger reference[k]] 0 <= k < reference.len() implies {
            let c = reference[k] as int;
            65 <= c <= 90 || 97 <= c <= 122 || 45 <= c <= 57 || c == 95
        } by {
            assert(env::is_reference_char(reference[k]));
        }
    }
    if terms::good_env_reference(reference) {
        assert forall|k: int| 0 <= k < reference.len() implies env::is_reference_char(
            #[trigger] reference[k],
        ) by {
            let c = reference[k] as int;
            assert(65 <= c <= 90 || 97 <= c <= 122 || 45 <= c <= 57 || c == 95);
        }
        assert(is_ascii_chars(reference)) by {
            assert forall|i: int| 0 <= i < reference.len() implies 0 <= #[trigger] reference[i]
                < 128 by {
                assert(env::is_reference_char(reference[i]));
            }
        }
        is_ascii_chars_encode_utf8(reference);
    }
}

/// The environment provider accepts a reference exactly if it is a plain path of at most 256
/// characters, all of them ASCII letters, digits, dots, underscores, hyphens and slashes.
pub proof fn env_references_are_plain_ascii_paths(reference: &str, valid: bool)
    requires
        call_ensures(env::valid_reference, (reference,), valid),
    ensures
        valid == terms::good_env_reference(reference@),
{
    good_env_references(reference@);
}

/// The names of environment variables in either case are those that are accepted.
pub proof fn good_variables(name: Seq<char>)
    ensures
        env::is_environment_variable(name) == terms::good_variable(name),
{
}

/// The environment provider accepts a variable exactly if its name is made of ASCII letters, digits
/// and underscores, with no digit in front.
pub proof fn env_variables_are_in_either_case(name: &str, valid: bool)
    requires
        call_ensures(env::valid_environment_variable, (name,), valid),
    ensures
        valid == terms::good_variable(name@),
{
    good_variables(name@);
}

} // verus!
