//! A provider that reads the keychain of the operating system.

use crate::capability;
use crate::capability::{find_source, invalid_plan, PluginError, ResolveResponse, RuntimeFailure};
use crate::naming;
use crate::naming::{valid_reference, valid_source_name};
use crate::table;
use crate::table::TextTable;
use crate::text;
use crate::text::{surround, text_from_utf8};
use vstd::prelude::*;
use vstd::string::*;

verus! {

/// Maximum length of a service or an account, in bytes.
pub const MAX_SOURCE_LENGTH: usize = 512;

/// Which service to ask, and for which references.
#[derive(Debug)]
pub struct KeychainConfig {
    /// The service that every account belongs to.
    pub service: String,
    /// Accounts by logical reference.
    pub references: TextTable,
}

/// What is wrong with one binding.
pub open spec fn binding_problem(row: (Seq<char>, Seq<char>)) -> Option<Seq<char>> {
    if !naming::is_valid_reference(row.0) {
        Some("Keychain logical reference is invalid"@)
    } else if !naming::is_valid_source_name(row.1, MAX_SOURCE_LENGTH as nat) {
        Some("Keychain account is invalid"@)
    } else {
        None
    }
}

/// What is wrong with a configuration.
pub open spec fn config_problem(config: KeychainConfig) -> Option<Seq<char>> {
    if !naming::is_valid_source_name(config.service@, MAX_SOURCE_LENGTH as nat) {
        Some("Keychain service is invalid"@)
    } else if config.references@.len() == 0 {
        Some("Keychain references must contain at least one mapping"@)
    } else {
        table::first_problem(
            config.references@,
            |row: (Seq<char>, Seq<char>)| binding_problem(row),
        )
    }
}

/// Checks a configuration.
pub fn validate_config(config: &KeychainConfig) -> (outcome: Result<(), RuntimeFailure>)
    ensures
        table::is_ordered(config.references@),
        capability::checked(outcome) == capability::refusal(config_problem(*config)),
{
    proof {
        use_type_invariant(&config.references);
    }
    if !valid_source_name(config.service.as_str(), MAX_SOURCE_LENGTH) {
        return Err(invalid_plan("Keychain service is invalid"));
    }
    if config.references.is_empty() {
        return Err(invalid_plan("Keychain references must contain at least one mapping"));
    }
    let ghost problem = |row: (Seq<char>, Seq<char>)| binding_problem(row);
    let ghost rows = config.references@;
    let ghost expected = config_problem(*config);
    let mut i: usize = 0;
    assert(rows.take(0) =~= table::Rows::empty());
    while i < config.references.len()
        invariant
            table::is_ordered(rows),
            rows == config.references@,
            problem == (|row: (Seq<char>, Seq<char>)| binding_problem(row)),
            expected == table::first_problem(rows, problem),
            expected == config_problem(*config),
            i <= rows.len(),
            table::first_problem(rows.take(i as int), problem) is None,
        decreases rows.len() - i,
    {
        proof {
            table::first_problem_step(rows, i as int, problem);
        }
        if !valid_reference(config.references.name_at(i).as_str()) {
            return Err(invalid_plan("Keychain logical reference is invalid"));
        }
        if !valid_source_name(config.references.value_at(i).as_str(), MAX_SOURCE_LENGTH) {
            return Err(invalid_plan("Keychain account is invalid"));
        }
        i += 1;
    }
    assert(rows.take(i as int) =~= rows);
    Ok(())
}

/// A store of passwords by service and account.
pub trait Keychain {
    /// The password of this account of this service, if there is one.
    fn read(&self, service: &str, account: &str) -> Result<String, ()>;
}

/// The keychain may give this password for an account of a service, or none.
pub open spec fn gives<K: Keychain>(
    keychain: K,
    service: Seq<char>,
    account: Seq<char>,
    password: Option<Seq<char>>,
) -> bool {
    exists|a: &str, b: &str, got: Result<String, ()>|
        a@ == service && b@ == account && #[trigger] call_ensures(K::read, (&keychain, a, b), got)
            && password == capability::text_of(got)
}

/// The passwords that the operating system stores, as bytes.
pub trait PasswordStore {
    /// The password that is stored now for this account of this service, if there is one.
    fn password(&self, service: &str, account: &str) -> Option<Vec<u8>>;
}

/// The store may hold these bytes for an account of a service, or none.
pub open spec fn stores<P: PasswordStore>(
    store: P,
    service: Seq<char>,
    account: Seq<char>,
    value: Option<Seq<u8>>,
) -> bool {
    exists|a: &str, b: &str, got: Option<Vec<u8>>|
        a@ == service && b@ == account && #[trigger] call_ensures(P::password, (&store, a, b), got)
            && value == text::stored(got)
}

/// What reading a store may give: the text that is stored for an account of a service.
pub open spec fn reads_password<P: PasswordStore>(
    store: P,
    service: Seq<char>,
    account: Seq<char>,
    password: Option<Seq<char>>,
) -> bool {
    exists|value: Option<Seq<u8>>| #[trigger]
        stores(store, service, account, value) && password == text::text_in(value)
}

/// The keychain over the passwords that the operating system stores.
#[derive(Debug)]
pub struct SystemKeychain<P> {
    /// The stored passwords.
    pub store: P,
}

impl<P: PasswordStore> Keychain for SystemKeychain<P> {
    /// The text that is stored for this account of this service.
    fn read(&self, service: &str, account: &str) -> (password: Result<String, ()>)
        ensures
            reads_password(self.store, service@, account@, capability::text_of(password)),
    {
        let got = self.store.password(service, account);
        assert(stores(self.store, service@, account@, text::stored(got)));
        match got {
            Some(bytes) => text_from_utf8(bytes),
            None => Err(()),
        }
    }
}

/// The text for a reference whose secret the keychain does not give.
pub open spec fn unavailable_text(reference: Seq<char>) -> Seq<char> {
    "configured Keychain secret reference `"@ + reference + "` is unavailable"@
}

/// What a keychain that gave `password` or nothing answers for `reference`.
pub open spec fn answer(reference: Seq<char>, password: Option<Seq<char>>) -> Result<
    Seq<char>,
    capability::ErrorView,
> {
    match password {
        Some(value) => Ok(value),
        None => Err(
            capability::ErrorView::Runtime(
                capability::FailureView::PluginFailure(unavailable_text(reference)),
            ),
        ),
    }
}

/// Answers a request for `reference` with what the keychain gave.
pub fn answer_with(reference: &str, password: Result<String, ()>) -> (answered: Result<
    ResolveResponse,
    PluginError,
>)
    ensures
        capability::answered(answered) == answer(reference@, capability::text_of(password)),
{
    match password {
        Ok(value) => Ok(ResolveResponse { value }),
        Err(()) => Err(
            PluginError::Runtime(
                RuntimeFailure::PluginFailure {
                    detail: surround(
                        "configured Keychain secret reference `",
                        reference,
                        "` is unavailable",
                    ),
                },
            ),
        ),
    }
}

/// Asking the keychain for the account bound to `reference` may have this outcome.
pub open spec fn asks<K: Keychain>(
    config: KeychainConfig,
    keychain: K,
    reference: Seq<char>,
    account: Seq<char>,
    outcome: Result<Seq<char>, capability::ErrorView>,
) -> bool {
    exists|password: Option<Seq<char>>| #[trigger]
        gives(keychain, config.service@, account, password) && outcome == answer(
            reference,
            password,
        )
}

/// Resolving `reference` may have this outcome: a reference that is malformed or unbound is
/// refused, and for another the keychain is asked for the account bound to it.
pub open spec fn resolves<K: Keychain>(
    config: KeychainConfig,
    keychain: K,
    reference: Seq<char>,
    outcome: Result<Seq<char>, capability::ErrorView>,
) -> bool {
    match capability::bound_source(config.references@, reference) {
        Ok(account) => asks(config, keychain, reference, account, outcome),
        Err(error) => outcome == Err::<Seq<char>, capability::ErrorView>(
            capability::ErrorView::Domain(error),
        ),
    }
}

/// Resolves `reference` from the keychain.
pub fn resolve<K: Keychain>(config: &KeychainConfig, keychain: &K, reference: &str) -> (answered:
    Result<ResolveResponse, PluginError>)
    ensures
        table::is_ordered(config.references@),
        resolves(*config, *keychain, reference@, capability::answered(answered)),
{
    let account = match find_source(&config.references, reference) {
        Ok(account) => account,
        Err(error) => {
            return Err(PluginError::Domain(error));
        },
    };
    let password = keychain.read(config.service.as_str(), account.as_str());
    assert(gives(*keychain, config.service@, account@, capability::text_of(password)));
    let answered = answer_with(reference, password);
    assert(asks(*config, *keychain, reference@, account@, capability::answered(answered)));
    answered
}

/// The failure that an outcome of resolving a configured reference means for preparation.
pub open spec fn preparation_failure(
    outcome: Result<Seq<char>, capability::ErrorView>,
) -> Option<capability::FailureView> {
    match outcome {
        Ok(_) => None,
        Err(capability::ErrorView::Runtime(failure)) => Some(failure),
        Err(capability::ErrorView::Domain(_)) => Some(
            capability::FailureView::Internal("validated Keychain reference became invalid"@),
        ),
    }
}

/// Resolving the reference in row `i` may mean this for preparation.
pub open spec fn verifies<K: Keychain>(
    config: KeychainConfig,
    keychain: K,
    i: int,
    failure: Option<capability::FailureView>,
) -> bool {
    exists|outcome: Result<Seq<char>, capability::ErrorView>| #[trigger]
        resolves(config, keychain, config.references@[i].0, outcome) && failure
            == preparation_failure(outcome)
}

/// Preparation may have this outcome: every row verifies, or the failure is that of the first row
/// that does not.
pub open spec fn prepares<K: Keychain>(
    config: KeychainConfig,
    keychain: K,
    outcome: Result<(), capability::FailureView>,
) -> bool {
    match outcome {
        Ok(_) => forall|i: int|
            0 <= i < config.references@.len() ==> #[trigger] verifies(config, keychain, i, None),
        Err(failure) => exists|k: int|
            0 <= k < config.references@.len() && #[trigger] verifies(
                config,
                keychain,
                k,
                Some(failure),
            ) && forall|i: int| 0 <= i < k ==> #[trigger] verifies(config, keychain, i, None),
    }
}

/// Checks that every configured reference resolves, in order, and fails with the first that does
/// not.
pub fn verify_sources<K: Keychain>(config: &KeychainConfig, keychain: &K) -> (outcome: Result<
    (),
    RuntimeFailure,
>)
    ensures
        table::is_ordered(config.references@),
        prepares(*config, *keychain, capability::checked(outcome)),
{
    proof {
        use_type_invariant(&config.references);
    }
    let mut i: usize = 0;
    while i < config.references.len()
        invariant
            table::is_ordered(config.references@),
            i <= config.references@.len(),
            forall|j: int| 0 <= j < i ==> #[trigger] verifies(*config, *keychain, j, None),
        decreases config.references@.len() - i,
    {
        let resolved = resolve(config, keychain, config.references.name_at(i).as_str());
        let ghost failure = preparation_failure(capability::answered(resolved));
        assert(verifies(*config, *keychain, i as int, failure));
        match resolved {
            Ok(_) => {},
            Err(PluginError::Runtime(failure)) => {
                return Err(failure);
            },
            Err(PluginError::Domain(_)) => {
                let internal = RuntimeFailure::Internal {
                    detail: "validated Keychain reference became invalid".to_owned(),
                };
                assert(failure == Some(internal@));
                return Err(internal);
            },
        }
        i += 1;
    }
    Ok(())
}

/// Under an accepted configuration preparation never fails over a reference that is malformed or
/// unbound: where it fails, the keychain gave nothing for a configured account, and the failure
/// names the reference bound to it.
pub proof fn preparation_fails_over_missing_accounts<K: Keychain>(
    config: KeychainConfig,
    keychain: K,
    i: int,
    failure: capability::FailureView,
)
    requires
        config_problem(config) is None,
        table::is_ordered(config.references@),
        0 <= i < config.references@.len(),
        verifies(config, keychain, i, Some(failure)),
    ensures
        gives(keychain, config.service@, config.references@[i].1, None),
        failure == capability::FailureView::PluginFailure(
            unavailable_text(config.references@[i].0),
        ),
{
    let rows = config.references@;
    let problem = |row: (Seq<char>, Seq<char>)| binding_problem(row);
    table::first_problem_is_first(rows, problem);
    assert(problem(rows[i]) is None);
    table::lookup_of_row(rows, i);
}

/// Where preparation accepts a configured reference, the keychain gave a password for the account
/// bound to it.
pub proof fn preparation_reads_every_account<K: Keychain>(
    config: KeychainConfig,
    keychain: K,
    i: int,
)
    requires
        table::is_ordered(config.references@),
        0 <= i < config.references@.len(),
        verifies(config, keychain, i, None),
    ensures
        exists|password: Seq<char>|
            gives(keychain, config.service@, config.references@[i].1, Some(password)),
{
    let rows = config.references@;
    table::lookup_of_row(rows, i);
    let outcome = choose|outcome: Result<Seq<char>, capability::ErrorView>| #[trigger]
        resolves(config, keychain, rows[i].0, outcome) && outcome is Ok;
    assert(gives(keychain, config.service@, rows[i].1, Some(outcome->Ok_0)));
}

/// A bound and well-formed reference is never refused and never answered from elsewhere: its secret
/// is what the keychain gave for the account bound to it, and where the keychain gave nothing, the
/// answer is a failure whose text depends on the reference alone.
pub proof fn answers_come_from_the_bound_account<K: Keychain>(
    config: KeychainConfig,
    keychain: K,
    reference: Seq<char>,
    outcome: Result<Seq<char>, capability::ErrorView>,
)
    requires
        capability::bound_source(config.references@, reference) is Ok,
        resolves(config, keychain, reference, outcome),
    ensures
        outcome is Ok ==> gives(
            keychain,
            config.service@,
            capability::bound_source(config.references@, reference)->Ok_0,
            Some(outcome->Ok_0),
        ),
        outcome is Err ==> outcome->Err_0 == capability::ErrorView::Runtime(
            capability::FailureView::PluginFailure(unavailable_text(reference)),
        ) && gives(
            keychain,
            config.service@,
            capability::bound_source(config.references@, reference)->Ok_0,
            None,
        ),
{
}

/// Over the passwords that the operating system stores, a bound and well-formed reference is
/// answered with the text that is stored for the account bound to it, if it is text, and else with
/// a failure that names the reference.
pub proof fn system_answers_are_the_stored_text<P: PasswordStore>(
    config: KeychainConfig,
    keychain: SystemKeychain<P>,
    reference: Seq<char>,
    outcome: Result<Seq<char>, capability::ErrorView>,
)
    requires
        capability::bound_source(config.references@, reference) is Ok,
        resolves(config, keychain, reference, outcome),
    ensures
        exists|value: Option<Seq<u8>>| #[trigger]
            stores(
                keychain.store,
                config.service@,
                capability::bound_source(config.references@, reference)->Ok_0,
                value,
            ) && outcome == answer(reference, text::text_in(value)),
{
    let account = capability::bound_source(config.references@, reference)->Ok_0;
    let password = choose|password: Option<Seq<char>>| #[trigger]
        gives(keychain, config.service@, account, password) && outcome == answer(
            reference,
            password,
        );
    assert(reads_password(keychain.store, config.service@, account, password));
}

} // verus!
