//! The keychain provider.

use crate::capability;
use crate::capability::{PluginError, ResolveError, ResolveResponse, RuntimeFailure};
use crate::keychain;
use crate::keychain::{Keychain, KeychainConfig, PasswordStore, SystemKeychain};
use crate::laws;
use crate::laws::terms;
use crate::table;
use crate::text;
use vstd::prelude::*;
use vstd::utf8::*;

verus! {

/// What is said of a reference whose password is not there.
pub open spec fn missing(reference: Seq<char>) -> Seq<char> {
    "configured Keychain secret reference `"@ + reference + "` is unavailable"@
}

/// A configuration is accepted exactly if its service is an accepted name of at most 512 bytes, and
/// it has bindings, each from an accepted reference to an accepted account of at most 512 bytes. It
/// is refused over the service, else over the lack of bindings, else over the first bad binding.
pub proof fn configurations_are_checked_in_order(
    config: &KeychainConfig,
    outcome: Result<(), RuntimeFailure>,
)
    requires
        call_ensures(keychain::validate_config, (config,), outcome),
    ensures
        if !terms::good_source(config.service@, 512) {
            terms::refused(outcome, "Keychain service is invalid"@)
        } else if config.references@.len() == 0 {
            terms::refused(outcome, "Keychain references must contain at least one mapping"@)
        } else if forall|i: int|
            0 <= i < config.references@.len() ==> terms::good_binding(
                #[trigger] config.references@[i],
                512,
            ) {
            outcome is Ok
        } else {
            exists|i: int|
                0 <= i < config.references@.len() && !terms::good_binding(
                    #[trigger] config.references@[i],
                    512,
                ) && (forall|j: int|
                    0 <= j < i ==> terms::good_binding(#[trigger] config.references@[j], 512))
                    && terms::refused(
                    outcome,
                    if terms::good_reference(config.references@[i].0) {
                        "Keychain account is invalid"@
                    } else {
                        "Keychain logical reference is invalid"@
                    },
                )
        },
{
    let rows = config.references@;
    let problem = |row: (Seq<char>, Seq<char>)| keychain::binding_problem(row);
    laws::naming::good_sources(config.service@, 512);
    table::first_problem_is_first(rows, problem);
    assert forall|i: int| 0 <= i < rows.len() implies (problem(#[trigger] rows[i]) is None)
        == terms::good_binding(rows[i], 512) && (problem(rows[i]) == Some(
        "Keychain logical reference is invalid"@,
    ) || terms::good_reference(rows[i].0)) by {
        laws::naming::canonical_paths_are_plain(rows[i].0);
        laws::naming::good_sources(rows[i].1, 512);
    }
    if rows.len() > 0 && terms::good_source(config.service@, 512) {
        if let Some(found) = table::first_problem(rows, problem) {
            let i = choose|i: int|
                0 <= i < rows.len() && #[trigger] problem(rows[i]) == Some(found) && forall|j: int|
                    0 <= j < i ==> problem(#[trigger] rows[j]) is None;
            laws::naming::canonical_paths_are_plain(rows[i].0);
            assert(!terms::good_binding(rows[i], 512));
            assert forall|j: int| 0 <= j < i implies terms::good_binding(
                #[trigger] rows[j],
                512,
            ) by {
                assert(problem(rows[j]) is None);
            }
        } else {
            assert forall|i: int| 0 <= i < rows.len() implies terms::good_binding(
                #[trigger] rows[i],
                512,
            ) by {
                assert(problem(rows[i]) is None);
            }
        }
    }
}

/// A password is answered whole. Where there is none, the answer names the reference.
pub proof fn answers_are_the_password(
    reference: &str,
    password: Result<String, ()>,
    answered: Result<ResolveResponse, PluginError>,
)
    requires
        call_ensures(keychain::answer_with, (reference, password), answered),
    ensures
        answers_with(answered, reference@, password),
{
}

/// The answer is the whole password that was given, or names the reference where none was.
pub open spec fn answers_with(
    answered: Result<ResolveResponse, PluginError>,
    reference: Seq<char>,
    password: Result<String, ()>,
) -> bool {
    match password {
        Ok(value) => answered is Ok && answered->Ok_0.value@ == value@,
        Err(()) => answered matches Err(PluginError::Runtime(failure)) && terms::reported(
            failure,
            missing(reference),
        ),
    }
}

/// The keychain may answer this when it is asked for an account of a service.
pub open spec fn may_read<K: Keychain>(
    keychain: &K,
    service: Seq<char>,
    account: Seq<char>,
    got: Result<String, ()>,
) -> bool {
    exists|s: &str, a: &str|
        s@ == service && a@ == account && #[trigger] call_ensures(K::read, (keychain, s, a), got)
}

/// A reference that is not accepted or stands in no row is refused. For any other the keychain is
/// asked for the service of the configuration and the account in its row, and what it gives is the
/// answer, whole.
pub proof fn requests_read_the_bound_account<K: Keychain>(
    config: &KeychainConfig,
    keychain: &K,
    reference: &str,
    answered: Result<ResolveResponse, PluginError>,
)
    requires
        call_ensures(keychain::resolve::<K>, (config, keychain, reference), answered),
    ensures
        if !terms::good_reference(reference@) {
            answered matches Err(PluginError::Domain(ResolveError::InvalidReference))
        } else if terms::unnamed(config.references@, reference@) {
            answered matches Err(PluginError::Domain(ResolveError::UnknownReference))
        } else {
            exists|account: Seq<char>, got: Result<String, ()>|
                config.references@.contains((reference@, account)) && #[trigger] may_read(
                    keychain,
                    config.service@,
                    account,
                    got,
                ) && answers_with(answered, reference@, got)
        },
{
    let rows = config.references@;
    laws::capability::bindings_are_rows(rows, reference@);
    if let Ok(account) = capability::bound_source(rows, reference@) {
        let i = rows.index_of((reference@, account));
        assert(rows[i].0 == reference@);
        let password = choose|password: Option<Seq<char>>| #[trigger]
            keychain::gives(*keychain, config.service@, account, password)
                && capability::answered(answered) == keychain::answer(reference@, password);
        let (s, a, got) = choose|s: &str, a: &str, got: Result<String, ()>|
            s@ == config.service@ && a@ == account && #[trigger] call_ensures(
                K::read,
                (keychain, s, a),
                got,
            ) && password == capability::text_of(got);
        assert(may_read(keychain, config.service@, account, got));
        assert(answers_with(answered, reference@, got));
    }
}

/// The keychain may give a password, or none, for the account in row `i`.
pub open spec fn may_give<K: Keychain>(
    config: KeychainConfig,
    keychain: &K,
    i: int,
    given: bool,
) -> bool {
    exists|got: Result<String, ()>| #[trigger]
        may_read(keychain, config.service@, config.references@[i].1, got) && (got is Ok) == given
}

/// What verifying row `i` may mean: a reference that is not accepted is an internal failure, and for
/// another the keychain is asked.
pub open spec fn row_means<K: Keychain>(
    config: KeychainConfig,
    keychain: &K,
    i: int,
    failure: Option<RuntimeFailure>,
) -> bool {
    if !terms::good_reference(config.references@[i].0) {
        failure matches Some(RuntimeFailure::Internal { detail }) && detail@
            == "validated Keychain reference became invalid"@
    } else {
        match failure {
            None => may_give(config, keychain, i, true),
            Some(found) => may_give(config, keychain, i, false) && terms::reported(
                found,
                missing(config.references@[i].0),
            ),
        }
    }
}

proof fn verified_rows<K: Keychain>(
    config: KeychainConfig,
    keychain: &K,
    i: int,
    failure: Option<RuntimeFailure>,
)
    requires
        table::is_ordered(config.references@),
        0 <= i < config.references@.len(),
        keychain::verifies(
            config,
            *keychain,
            i,
            match failure {
                Some(found) => Some(found@),
                None => None,
            },
        ),
    ensures
        row_means(config, keychain, i, failure),
{
    let rows = config.references@;
    let reference = rows[i].0;
    let view = match failure {
        Some(found) => Some(found@),
        None => None,
    };
    laws::naming::canonical_paths_are_plain(reference);
    table::lookup_of_row(rows, i);
    let outcome = choose|outcome: Result<Seq<char>, capability::ErrorView>| #[trigger]
        keychain::resolves(config, *keychain, reference, outcome) && view
            == keychain::preparation_failure(outcome);
    if terms::good_reference(reference) {
        let password = choose|password: Option<Seq<char>>| #[trigger]
            keychain::gives(*keychain, config.service@, rows[i].1, password) && outcome
                == keychain::answer(reference, password);
        let (s, a, got) = choose|s: &str, a: &str, got: Result<String, ()>|
            s@ == config.service@ && a@ == rows[i].1 && #[trigger] call_ensures(
                K::read,
                (keychain, s, a),
                got,
            ) && password == capability::text_of(got);
        assert(may_read(keychain, config.service@, rows[i].1, got));
    }
}

/// Preparation goes through the rows in order. It succeeds only if every reference is accepted and
/// the keychain gave a password for every account, and fails over the first row of which this is not
/// so, as that row means. Where every reference is accepted and the keychain gives every account a
/// password, it succeeds.
pub proof fn preparation_reads_every_account<K: Keychain>(
    config: &KeychainConfig,
    keychain: &K,
    outcome: Result<(), RuntimeFailure>,
)
    requires
        call_ensures(keychain::verify_sources::<K>, (config, keychain), outcome),
    ensures
        outcome is Ok ==> forall|i: int|
            0 <= i < config.references@.len() ==> #[trigger] row_means(*config, keychain, i, None),
        outcome is Err ==> exists|k: int|
            0 <= k < config.references@.len() && #[trigger] row_means(
                *config,
                keychain,
                k,
                Some(outcome->Err_0),
            ) && (forall|i: int|
                0 <= i < k ==> #[trigger] row_means(*config, keychain, i, None)),
        (forall|i: int|
            0 <= i < config.references@.len() ==> terms::good_reference(
                (#[trigger] config.references@[i]).0,
            ) && !may_give(*config, keychain, i, false)) ==> outcome is Ok,
{
    let rows = config.references@;
    match outcome {
        Ok(()) => {
            assert forall|i: int| 0 <= i < rows.len() implies #[trigger] row_means(
                *config,
                keychain,
                i,
                None,
            ) by {
                assert(keychain::verifies(*config, *keychain, i, None));
                verified_rows(*config, keychain, i, None);
            }
        },
        Err(failure) => {
            let k = choose|k: int|
                0 <= k < rows.len() && #[trigger] keychain::verifies(
                    *config,
                    *keychain,
                    k,
                    Some(failure@),
                ) && forall|i: int|
                    0 <= i < k ==> #[trigger] keychain::verifies(*config, *keychain, i, None);
            verified_rows(*config, keychain, k, Some(failure));
            assert forall|i: int| 0 <= i < k implies #[trigger] row_means(
                *config,
                keychain,
                i,
                None,
            ) by {
                assert(keychain::verifies(*config, *keychain, i, None));
                verified_rows(*config, keychain, i, None);
            }
        },
    }
}

/// A stored password that is the encoding of a text is read as that text, all of it. One that is
/// not, or none, is not read.
pub proof fn stored_passwords_are_read_whole<P: PasswordStore>(
    keychain: &SystemKeychain<P>,
    service: &str,
    account: &str,
    password: Result<String, ()>,
)
    requires
        call_ensures(SystemKeychain::<P>::read, (keychain, service, account), password),
    ensures
        exists|s: &str, a: &str, got: Option<Vec<u8>>|
            s@ == service@ && a@ == account@ && #[trigger] call_ensures(
                P::password,
                (&keychain.store, s, a),
                got,
            ) && match password {
                Ok(text) => got is Some && got->0@ == encode_utf8(text@),
                Err(()) => got is None || terms::no_text(got->0@),
            },
{
    let value = choose|value: Option<Seq<u8>>| #[trigger]
        keychain::stores(keychain.store, service@, account@, value) && capability::text_of(password)
            == text::text_in(value);
    let (s, a, got) = choose|s: &str, a: &str, got: Option<Vec<u8>>|
        s@ == service@ && a@ == account@ && #[trigger] call_ensures(
            P::password,
            (&keychain.store, s, a),
            got,
        ) && value == text::stored(got);
    laws::text::stored_values_are_kept(got);
    match password {
        Ok(text) => {
            laws::text::texts_read_are_encoded(value, text@);
        },
        Err(()) => {
            if got is Some {
                assert forall|t: Seq<char>| got->0@ != #[trigger] encode_utf8(t) by {
                    laws::text::encoded_texts_are_read_whole(t);
                }
            }
        },
    }
}

/// Where the password of the account bound to a reference is stored as the encoding of a text, that
/// text is the answer, for every text; where something else or nothing is stored, the answer names
/// the reference.
pub proof fn stored_answers_are_whole<P: PasswordStore>(
    config: &KeychainConfig,
    keychain: &SystemKeychain<P>,
    reference: &str,
    account: Seq<char>,
    value: Option<Seq<u8>>,
    answered: Result<ResolveResponse, PluginError>,
)
    requires
        call_ensures(
            keychain::resolve::<SystemKeychain<P>>,
            (config, keychain, reference),
            answered,
        ),
        terms::good_reference(reference@),
        terms::unique(config.references@),
        config.references@.contains((reference@, account)),
        forall|s: &str, a: &str, got: Option<Vec<u8>>|
            s@ == config.service@ && a@ == account && #[trigger] call_ensures(
                P::password,
                (&keychain.store, s, a),
                got,
            ) ==> if value is Some {
                got is Some && got->0@ == value->0
            } else {
                got is None
            },
    ensures
        forall|t: Seq<char>|
            value == Some(#[trigger] encode_utf8(t)) ==> answered is Ok && answered->Ok_0.value@
                == t,
        (value is None || terms::no_text(value->0)) ==> (answered matches Err(
            PluginError::Runtime(failure),
        ) && terms::reported(failure, missing(reference@))),
{
    let rows = config.references@;
    let i = rows.index_of((reference@, account));
    assert(rows[i] == (reference@, account));
    assert(!terms::unnamed(rows, reference@));
    requests_read_the_bound_account(config, keychain, reference, answered);
    let (bound, got) = choose|bound: Seq<char>, got: Result<String, ()>|
        rows.contains((reference@, bound)) && #[trigger] may_read(
            keychain,
            config.service@,
            bound,
            got,
        ) && answers_with(answered, reference@, got);
    let j = rows.index_of((reference@, bound));
    assert(rows[j] == (reference@, bound));
    if i < j {
        assert(rows[i].0 != rows[j].0);
    } else if j < i {
        assert(rows[j].0 != rows[i].0);
    }
    let (s, a) = choose|s: &str, a: &str|
        s@ == config.service@ && a@ == bound && #[trigger] call_ensures(
            SystemKeychain::<P>::read,
            (keychain, s, a),
            got,
        );
    stored_passwords_are_read_whole(keychain, s, a, got);
    if let Ok(read) = got {
        assert forall|t: Seq<char>| value == Some(#[trigger] encode_utf8(t)) implies answered is Ok
            && answered->Ok_0.value@ == t by {
            text::encoding_is_injective(read@, t);
        }
        assert(value == Some(encode_utf8(read@)));
    }
}

} // verus!
