//! The environment provider.

use crate::capability;
use crate::capability::{ResolveError, ResolveRequest, ResolveResponse, RuntimeFailure};
use crate::env;
use crate::env::{
    EnvSecretsConfig, EnvSecretsConfigError, EnvSecretsFactory, EnvSecretsProvider,
    ProcessEnvironment, ProcessVariables, SecretSource, SourceUnavailable,
};
use crate::laws;
use crate::laws::terms;
use crate::table;
use crate::table::TextTable;
use crate::text;
use vstd::prelude::*;
use vstd::utf8::*;

verus! {

/// What is said of a reference whose variable is not there.
pub open spec fn missing(reference: Seq<char>) -> Seq<char> {
    "configured secret reference `"@ + reference + "` is unavailable"@
}

/// The words for each error.
pub open spec fn words(error: EnvSecretsConfigError) -> Seq<char> {
    match error {
        EnvSecretsConfigError::Empty => "at least one secret reference is required"@,
        EnvSecretsConfigError::InvalidReference => "invalid logical secret reference"@,
        EnvSecretsConfigError::InvalidEnvironmentVariable => "invalid environment-variable name"@,
        EnvSecretsConfigError::DuplicateReference => {
            "logical secret reference is already configured"@
        },
    }
}

/// Each error is put in its words.
pub proof fn errors_say_what_is_wrong(error: &EnvSecretsConfigError, message: String)
    requires
        call_ensures(EnvSecretsConfigError::message, (error,), message),
    ensures
        message@ == words(*error),
{
}

/// A binding that is accepted.
pub open spec fn good_binding(row: terms::Row) -> bool {
    terms::good_env_reference(row.0) && terms::good_variable(row.1)
}

proof fn bindings_agree(row: terms::Row)
    ensures
        env::binding_error(row) == if !terms::good_env_reference(row.0) {
            Some(EnvSecretsConfigError::InvalidReference)
        } else if !terms::good_variable(row.1) {
            Some(EnvSecretsConfigError::InvalidEnvironmentVariable)
        } else {
            None
        },
{
    laws::naming::good_env_references(row.0);
    laws::naming::good_variables(row.1);
}

/// A binding is added exactly if its reference and its variable are accepted and the reference
/// stands in no row yet; else nothing changes, and the error is that of the reference, of the
/// variable, or of the second binding, in this order.
pub proof fn inserting_adds_one_binding(
    config: &mut EnvSecretsConfig,
    reference: &str,
    variable: &str,
    outcome: Result<(), EnvSecretsConfigError>,
)
    requires
        call_ensures(EnvSecretsConfig::insert, (config, reference, variable), outcome),
    ensures
        outcome is Err ==> final(config)@ == old(config)@,
        outcome is Ok ==> laws::table::gains(
            old(config)@,
            final(config)@,
            (reference@, variable@),
        ),
        if !terms::good_env_reference(reference@) {
            outcome == Err::<(), EnvSecretsConfigError>(EnvSecretsConfigError::InvalidReference)
        } else if !terms::good_variable(variable@) {
            outcome == Err::<(), EnvSecretsConfigError>(
                EnvSecretsConfigError::InvalidEnvironmentVariable,
            )
        } else if !terms::unnamed(old(config)@, reference@) {
            outcome == Err::<(), EnvSecretsConfigError>(EnvSecretsConfigError::DuplicateReference)
        } else {
            outcome is Ok
        },
{
    bindings_agree((reference@, variable@));
    laws::table::lookups_read_rows(old(config)@, reference@, variable@);
    if outcome is Ok {
        laws::table::lookups_show_a_gain(old(config)@, final(config)@, (reference@, variable@));
    }
}

/// The same through the consuming builder.
pub proof fn building_adds_one_binding(
    config: EnvSecretsConfig,
    reference: &str,
    variable: &str,
    outcome: Result<EnvSecretsConfig, EnvSecretsConfigError>,
)
    requires
        call_ensures(EnvSecretsConfig::with_reference, (config, reference, variable), outcome),
    ensures
        if !terms::good_env_reference(reference@) {
            outcome == Err::<EnvSecretsConfig, EnvSecretsConfigError>(
                EnvSecretsConfigError::InvalidReference,
            )
        } else if !terms::good_variable(variable@) {
            outcome == Err::<EnvSecretsConfig, EnvSecretsConfigError>(
                EnvSecretsConfigError::InvalidEnvironmentVariable,
            )
        } else if !terms::unnamed(config@, reference@) {
            outcome == Err::<EnvSecretsConfig, EnvSecretsConfigError>(
                EnvSecretsConfigError::DuplicateReference,
            )
        } else {
            outcome is Ok && laws::table::gains(
                config@,
                outcome->Ok_0@,
                (reference@, variable@),
            )
        },
{
    bindings_agree((reference@, variable@));
    laws::table::lookups_read_rows(config@, reference@, variable@);
    if outcome is Ok {
        laws::table::lookups_show_a_gain(config@, outcome->Ok_0@, (reference@, variable@));
    }
}

/// A configuration shows all its bindings: what it was made of, and how many there are.
pub proof fn configurations_show_their_bindings(
    config: &EnvSecretsConfig,
    references: &TextTable,
    len: usize,
    empty: bool,
    copy: EnvSecretsConfig,
    sources: TextTable,
    made: EnvSecretsConfig,
)
    requires
        call_ensures(EnvSecretsConfig::references, (config,), references),
        call_ensures(EnvSecretsConfig::len, (config,), len),
        call_ensures(EnvSecretsConfig::is_empty, (config,), empty),
        call_ensures(EnvSecretsConfig::clone, (config,), copy),
        call_ensures(EnvSecretsConfig::from_references, (sources,), made),
    ensures
        references@ == config@,
        len == config@.len(),
        empty <==> config@.len() == 0,
        copy@ == config@,
        made@ == sources@,
{
}

/// A new configuration has no bindings.
pub proof fn configurations_begin_empty(new: EnvSecretsConfig, default: EnvSecretsConfig)
    requires
        call_ensures(EnvSecretsConfig::new, (), new),
        call_ensures(EnvSecretsConfig::default, (), default),
    ensures
        new@.len() == 0,
        default@.len() == 0,
{
}

/// The variable of a reference is the value in its row.
pub proof fn variables_stand_in_rows(
    config: &EnvSecretsConfig,
    reference: &str,
    source: Option<&str>,
)
    requires
        call_ensures(EnvSecretsConfig::source_for, (config, reference), source),
    ensures
        source is Some ==> config@.contains((reference@, source->0@)),
        source is None ==> terms::unnamed(config@, reference@),
        terms::unique(config@),
{
    laws::table::lookups_read_rows(
        config@,
        reference@,
        if source is Some { source->0@ } else { Seq::empty() },
    );
}

/// `error` is that of the first bad binding of these rows, or that there is none at all.
pub open spec fn is_first_error(rows: table::Rows, error: EnvSecretsConfigError) -> bool {
    if rows.len() == 0 {
        error is Empty
    } else {
        exists|i: int|
            0 <= i < rows.len() && !good_binding(#[trigger] rows[i]) && (forall|j: int|
                0 <= j < i ==> good_binding(#[trigger] rows[j])) && error
                == if terms::good_env_reference(rows[i].0) {
                EnvSecretsConfigError::InvalidEnvironmentVariable
            } else {
                EnvSecretsConfigError::InvalidReference
            }
    }
}

/// There are rows, and each is an accepted binding.
pub open spec fn good_rows(rows: table::Rows) -> bool {
    rows.len() > 0 && forall|i: int| 0 <= i < rows.len() ==> good_binding(#[trigger] rows[i])
}

proof fn config_errors_agree(rows: table::Rows)
    ensures
        match env::config_error(rows) {
            Some(error) => is_first_error(rows, error) && !good_rows(rows),
            None => good_rows(rows),
        },
{
    let problem = |row: (Seq<char>, Seq<char>)| env::binding_error(row);
    table::first_problem_is_first(rows, problem);
    assert forall|i: int| 0 <= i < rows.len() implies (problem(#[trigger] rows[i]) is None)
        == good_binding(rows[i]) by {
        bindings_agree(rows[i]);
    }
    if rows.len() > 0 {
        if let Some(error) = table::first_problem(rows, problem) {
            let i = choose|i: int|
                0 <= i < rows.len() && #[trigger] problem(rows[i]) == Some(error) && forall|j: int|
                    0 <= j < i ==> problem(#[trigger] rows[j]) is None;
            bindings_agree(rows[i]);
            assert(!good_binding(rows[i]));
            assert forall|j: int| 0 <= j < i implies good_binding(#[trigger] rows[j]) by {
                assert(problem(rows[j]) is None);
            }
        } else {
            assert forall|i: int| 0 <= i < rows.len() implies good_binding(#[trigger] rows[i]) by {
                assert(problem(rows[i]) is None);
            }
        }
    }
}

/// A configuration passes its check exactly if it has bindings and each is accepted; else the error
/// is that of the first bad one, or that there is none.
pub proof fn configurations_are_checked_in_order(
    config: &EnvSecretsConfig,
    outcome: Result<(), EnvSecretsConfigError>,
)
    requires
        call_ensures(EnvSecretsConfig::validate, (config,), outcome),
    ensures
        outcome is Ok <==> good_rows(config@),
        outcome is Err ==> is_first_error(config@, outcome->Err_0),
{
    config_errors_agree(config@);
}

/// The quoted names of these rows, each but the first behind a comma and a space.
pub open spec fn listed(rows: table::Rows) -> Seq<char> {
    rows.map(
        |i: int, row: terms::Row|
            if i == 0 {
                env::debug_quoted(row.0)
            } else {
                ", "@ + env::debug_quoted(row.0)
            },
    ).flatten()
}

proof fn quoted_names_are_listed(rows: table::Rows)
    ensures
        env::quoted_names(rows) == listed(rows),
    decreases rows.len(),
{
    let parts = rows.map(
        |i: int, row: terms::Row|
            if i == 0 {
                env::debug_quoted(row.0)
            } else {
                ", "@ + env::debug_quoted(row.0)
            },
    );
    parts.lemma_flatten_and_flatten_alt_are_equivalent();
    if rows.len() > 0 {
        let fewer = rows.drop_last();
        let fewer_parts = fewer.map(
            |i: int, row: terms::Row|
                if i == 0 {
                    env::debug_quoted(row.0)
                } else {
                    ", "@ + env::debug_quoted(row.0)
                },
        );
        quoted_names_are_listed(fewer);
        fewer_parts.lemma_flatten_and_flatten_alt_are_equivalent();
        assert(parts.drop_last() =~= fewer_parts);
        if rows.len() == 1 {
            assert(fewer_parts.flatten_alt() =~= Seq::<char>::empty());
            assert(parts.flatten_alt() =~= env::debug_quoted(rows[0].0));
        } else {
            assert(parts.last() == ", "@ + env::debug_quoted(rows.last().0));
            assert(env::quoted_names(rows) =~= parts.flatten_alt());
        }
    }
}

/// A diagnostic of a configuration lists every reference, in order, and nothing else.
pub proof fn diagnostics_list_the_references(config: &EnvSecretsConfig, shown: String)
    requires
        call_ensures(EnvSecretsConfig::debug_text, (config,), shown),
    ensures
        shown@ == "EnvSecretsConfig { references: ["@ + listed(config@) + "] }"@,
{
    quoted_names_are_listed(config@);
}

/// A diagnostic of a provider shows its configuration, and nothing else.
pub proof fn provider_diagnostics_list_the_references<S: SecretSource>(
    provider: &EnvSecretsProvider<S>,
    shown: String,
)
    requires
        call_ensures(EnvSecretsProvider::<S>::debug_text, (provider,), shown),
    ensures
        shown@ == "EnvSecretsProvider { config: "@ + ("EnvSecretsConfig { references: ["@ + listed(
            provider.config@,
        ) + "] }"@) + ", .. }"@,
{
    quoted_names_are_listed(provider.config@);
}

/// What was read is the whole value that the source gave, or names the reference where it gave none.
pub open spec fn reads_out(
    outcome: Result<String, RuntimeFailure>,
    reference: Seq<char>,
    got: Result<String, SourceUnavailable>,
) -> bool {
    match got {
        Ok(value) => outcome is Ok && outcome->Ok_0@ == value@,
        Err(_) => outcome matches Err(RuntimeFailure::ModuleFailure { detail }) && detail@
            == missing(reference),
    }
}

/// What a source gave is handed on whole, and where it gave nothing, the failure names the
/// reference.
pub proof fn readings_are_handed_on(
    reference: &str,
    value: Result<String, SourceUnavailable>,
    outcome: Result<String, RuntimeFailure>,
)
    requires
        call_ensures(env::conclude_read, (reference, value), outcome),
    ensures
        reads_out(outcome, reference@, value),
{
}

/// The source may answer this when it is asked for a variable.
pub open spec fn may_read<S: SecretSource>(
    source: &S,
    variable: Seq<char>,
    got: Result<String, SourceUnavailable>,
) -> bool {
    exists|name: &str|
        name@ == variable && #[trigger] call_ensures(S::read, (source, name), got)
}

proof fn readings_come_from_rows<S: SecretSource>(
    rows: table::Rows,
    source: &S,
    reference: Seq<char>,
    variable: Seq<char>,
    outcome: Result<Seq<char>, capability::FailureView>,
) -> (got: Result<String, SourceUnavailable>)
    requires
        table::is_ordered(rows),
        rows.contains((reference, variable)),
        env::reads(rows, *source, reference, outcome),
    ensures
        may_read(source, variable, got),
        got is Ok ==> outcome == Ok::<Seq<char>, capability::FailureView>(got->Ok_0@),
        got is Err ==> outcome == Err::<Seq<char>, capability::FailureView>(
            capability::FailureView::ModuleFailure(missing(reference)),
        ),
{
    laws::table::lookups_read_rows(rows, reference, variable);
    let value = choose|value: Option<Seq<char>>| #[trigger]
        env::gives(*source, variable, value) && outcome == env::reading(reference, value);
    let (name, got) = choose|name: &str, got: Result<String, SourceUnavailable>|
        name@ == variable && #[trigger] call_ensures(S::read, (source, name), got) && value
            == capability::text_of(got);
    assert(may_read(source, variable, got));
    got
}

/// Reading a reference asks the source for the variable in its row, and hands on what it gives,
/// whole. A reference that stands in no row is not read.
pub proof fn references_read_their_variable<S: SecretSource>(
    provider: &EnvSecretsProvider<S>,
    reference: &str,
    outcome: Result<String, RuntimeFailure>,
)
    requires
        call_ensures(EnvSecretsProvider::<S>::read, (provider, reference), outcome),
    ensures
        if terms::unnamed(provider.config@, reference@) {
            outcome matches Err(RuntimeFailure::Internal { detail }) && detail@
                == "Env Secrets attempted to read an unbound reference"@
        } else {
            exists|variable: Seq<char>, got: Result<String, SourceUnavailable>|
                provider.config@.contains((reference@, variable)) && #[trigger] may_read(
                    &provider.source,
                    variable,
                    got,
                ) && reads_out(outcome, reference@, got)
        },
{
    let rows = provider.config@;
    laws::table::lookups_read_rows(rows, reference@, reference@);
    if !terms::unnamed(rows, reference@) {
        let variable = table::lookup(rows, reference@)->0;
        laws::table::lookups_read_rows(rows, reference@, variable);
        let got = readings_come_from_rows(
            rows,
            &provider.source,
            reference@,
            variable,
            env::read_outcome(outcome),
        );
        assert(reads_out(outcome, reference@, got));
    }
}

/// The answer is the whole value that the source gave, or names the reference where it gave none.
pub open spec fn answers_with(
    outcome: Result<Result<ResolveResponse, ResolveError>, RuntimeFailure>,
    reference: Seq<char>,
    got: Result<String, SourceUnavailable>,
) -> bool {
    match got {
        Ok(value) => outcome matches Ok(Ok(response)) && response.value@ == value@,
        Err(_) => outcome matches Err(RuntimeFailure::ModuleFailure { detail }) && detail@
            == missing(reference),
    }
}

/// A reference that is not accepted or stands in no row is refused. For any other the source is
/// asked for the variable in its row, and what it gives is the answer, whole.
pub proof fn requests_read_the_bound_variable<S: SecretSource>(
    provider: &EnvSecretsProvider<S>,
    request: &ResolveRequest,
    outcome: Result<Result<ResolveResponse, ResolveError>, RuntimeFailure>,
)
    requires
        call_ensures(EnvSecretsProvider::<S>::resolve, (provider, request), outcome),
    ensures
        if !terms::good_env_reference(request.reference@) {
            outcome matches Ok(Err(ResolveError::InvalidReference))
        } else if terms::unnamed(provider.config@, request.reference@) {
            outcome matches Ok(Err(ResolveError::UnknownReference))
        } else {
            exists|variable: Seq<char>, got: Result<String, SourceUnavailable>|
                provider.config@.contains((request.reference@, variable)) && #[trigger] may_read(
                    &provider.source,
                    variable,
                    got,
                ) && answers_with(outcome, request.reference@, got)
        },
{
    let rows = provider.config@;
    let reference = request.reference@;
    laws::naming::good_env_references(reference);
    laws::table::lookups_read_rows(rows, reference, reference);
    if terms::good_env_reference(reference) && !terms::unnamed(rows, reference) {
        let variable = table::lookup(rows, reference)->0;
        laws::table::lookups_read_rows(rows, reference, variable);
        let read = choose|read: Result<Seq<char>, capability::FailureView>| #[trigger]
            env::reads(rows, provider.source, reference, read) && env::answered(outcome)
                == env::answer(read);
        let got = readings_come_from_rows(rows, &provider.source, reference, variable, read);
        assert(answers_with(outcome, reference, got));
    }
}

/// The source may give a value, or none, for the variable in row `i`.
pub open spec fn may_give<S: SecretSource>(
    rows: table::Rows,
    source: &S,
    i: int,
    given: bool,
) -> bool {
    exists|got: Result<String, SourceUnavailable>| #[trigger]
        may_read(source, rows[i].1, got) && (got is Ok) == given
}

proof fn verified_rows<S: SecretSource>(
    rows: table::Rows,
    source: &S,
    i: int,
    failure: Option<capability::FailureView>,
)
    requires
        table::is_ordered(rows),
        0 <= i < rows.len(),
        env::verifies(rows, *source, i, failure),
    ensures
        failure is None ==> may_give(rows, source, i, true),
        failure is Some ==> may_give(rows, source, i, false) && failure == Some(
            capability::FailureView::ModuleFailure(missing(rows[i].0)),
        ),
{
    let outcome = choose|outcome: Result<Seq<char>, capability::FailureView>| #[trigger]
        env::reads(rows, *source, rows[i].0, outcome) && failure == match outcome {
            Ok(_) => None,
            Err(found) => Some(found),
        };
    assert(rows.contains((rows[i].0, rows[i].1)));
    let got = readings_come_from_rows(rows, source, rows[i].0, rows[i].1, outcome);
    assert(may_read(source, rows[i].1, got));
}

/// Preparation succeeds only if the source gave a value for every variable, and fails only if it
/// gave none for some variable: it then names the reference of the first such variable. Where the
/// source gives every variable a value, it succeeds.
pub proof fn preparation_reads_every_variable<S: SecretSource>(
    provider: &EnvSecretsProvider<S>,
    outcome: Result<(), RuntimeFailure>,
)
    requires
        call_ensures(EnvSecretsProvider::<S>::verify_sources, (provider,), outcome),
    ensures
        outcome is Ok ==> forall|i: int|
            0 <= i < provider.config@.len() ==> #[trigger] may_give(
                provider.config@,
                &provider.source,
                i,
                true,
            ),
        outcome is Err ==> exists|k: int|
            0 <= k < provider.config@.len() && #[trigger] may_give(
                provider.config@,
                &provider.source,
                k,
                false,
            ) && (forall|i: int|
                0 <= i < k ==> #[trigger] may_give(provider.config@, &provider.source, i, true))
                && (outcome->Err_0 matches RuntimeFailure::ModuleFailure { detail } && detail@
                == missing(provider.config@[k].0)),
        (forall|i: int|
            0 <= i < provider.config@.len() ==> !#[trigger] may_give(
                provider.config@,
                &provider.source,
                i,
                false,
            )) ==> outcome is Ok,
{
    let rows = provider.config@;
    let source = &provider.source;
    match outcome {
        Ok(()) => {
            assert forall|i: int| 0 <= i < rows.len() implies #[trigger] may_give(
                rows,
                source,
                i,
                true,
            ) by {
                assert(env::verifies(rows, *source, i, None));
                verified_rows(rows, source, i, None);
            }
        },
        Err(failure) => {
            let k = choose|k: int|
                0 <= k < rows.len() && #[trigger] env::verifies(rows, *source, k, Some(failure@))
                    && forall|i: int|
                    0 <= i < k ==> #[trigger] env::verifies(rows, *source, i, None);
            verified_rows(rows, source, k, Some(failure@));
            assert forall|i: int| 0 <= i < k implies #[trigger] may_give(
                rows,
                source,
                i,
                true,
            ) by {
                assert(env::verifies(rows, *source, i, None));
                verified_rows(rows, source, i, None);
            }
        },
    }
}

/// A variable that is set to the encoding of a text is read as that text, all of it. One that is set
/// to something else, or not set, is not read.
pub proof fn variables_are_read_whole<V: ProcessVariables>(
    source: &ProcessEnvironment<V>,
    variable: &str,
    value: Result<String, SourceUnavailable>,
)
    requires
        call_ensures(ProcessEnvironment::<V>::read, (source, variable), value),
    ensures
        exists|name: &str, got: Option<Vec<u8>>|
            name@ == variable@ && #[trigger] call_ensures(
                V::variable,
                (&source.variables, name),
                got,
            ) && match value {
                Ok(text) => got is Some && got->0@ == encode_utf8(text@),
                Err(_) => got is None || terms::no_text(got->0@),
            },
{
    let raw = choose|raw: Option<Seq<u8>>| #[trigger]
        env::sets(source.variables, variable@, raw) && capability::text_of(value) == text::text_in(
            raw,
        );
    let (name, got) = choose|name: &str, got: Option<Vec<u8>>|
        name@ == variable@ && #[trigger] call_ensures(V::variable, (&source.variables, name), got)
            && raw == text::stored(got);
    laws::text::stored_values_are_kept(got);
    match value {
        Ok(text) => {
            laws::text::texts_read_are_encoded(raw, text@);
        },
        Err(_) => {
            if got is Some {
                assert forall|t: Seq<char>| got->0@ != #[trigger] encode_utf8(t) by {
                    laws::text::encoded_texts_are_read_whole(t);
                }
            }
        },
    }
}

/// Where the process has the variable bound to a reference set to the encoding of a text, that text
/// is the answer, for every text; where it is set to something else or not set, the answer names the
/// reference.
pub proof fn process_answers_are_whole<V: ProcessVariables>(
    provider: &EnvSecretsProvider<ProcessEnvironment<V>>,
    request: &ResolveRequest,
    variable: Seq<char>,
    value: Option<Seq<u8>>,
    outcome: Result<Result<ResolveResponse, ResolveError>, RuntimeFailure>,
)
    requires
        call_ensures(
            EnvSecretsProvider::<ProcessEnvironment<V>>::resolve,
            (provider, request),
            outcome,
        ),
        terms::good_env_reference(request.reference@),
        provider.config@.contains((request.reference@, variable)),
        forall|name: &str, got: Option<Vec<u8>>|
            name@ == variable && #[trigger] call_ensures(
                V::variable,
                (&provider.source.variables, name),
                got,
            ) ==> if value is Some {
                got is Some && got->0@ == value->0
            } else {
                got is None
            },
    ensures
        forall|text: Seq<char>|
            value == Some(#[trigger] encode_utf8(text)) ==> (outcome matches Ok(Ok(response))
                && response.value@ == text),
        (value is None || terms::no_text(value->0)) ==> (outcome matches Err(RuntimeFailure::ModuleFailure { detail }) && detail@ == missing(
            request.reference@,
        )),
{
    let rows = provider.config@;
    let reference = request.reference@;
    let i = rows.index_of((reference, variable));
    assert(rows[i] == (reference, variable));
    assert(!terms::unnamed(rows, reference));
    requests_read_the_bound_variable(provider, request, outcome);
    laws::table::lookups_read_rows(rows, reference, variable);
    let (bound, got) = choose|bound: Seq<char>, got: Result<String, SourceUnavailable>|
        rows.contains((reference, bound)) && #[trigger] may_read(&provider.source, bound, got)
            && answers_with(outcome, reference, got);
    let j = rows.index_of((reference, bound));
    assert(rows[j] == (reference, bound));
    assert(i == j);
    let name = choose|name: &str|
        name@ == bound && #[trigger] call_ensures(
            ProcessEnvironment::<V>::read,
            (&provider.source, name),
            got,
        );
    variables_are_read_whole(&provider.source, name, got);
    if let Ok(read) = got {
        assert forall|text: Seq<char>| value == Some(#[trigger] encode_utf8(text)) implies (outcome
            matches Ok(Ok(response)) && response.value@ == text) by {
            text::encoding_is_injective(read@, text);
        }
        assert(value == Some(encode_utf8(read@)));
    }
}

/// A provider is made for the entrypoint `default` from a document that could be read and whose
/// configuration passes its check, with that configuration and that source. Else the failure says
/// which of these is wrong.
pub proof fn providers_are_made_of_good_plans<S: SecretSource>(
    entrypoint: &str,
    parsed: Result<EnvSecretsConfig, String>,
    source: S,
    provider: Result<EnvSecretsProvider<S>, RuntimeFailure>,
)
    requires
        call_ensures(env::instantiate_with_source::<S>, (entrypoint, parsed, source), provider),
    ensures
        provider is Ok <==> good_plan(entrypoint@, parsed),
        provider is Ok ==> provider->Ok_0.config == parsed->Ok_0 && provider->Ok_0.source == source,
        provider is Err ==> plan_is_refused(entrypoint@, parsed, provider->Err_0),
{
    if parsed is Ok {
        config_errors_agree(parsed->Ok_0@);
    }
}

/// The same for a factory, over a clone of its source.
pub proof fn factories_make_providers_of_good_plans<S: SecretSource + Clone>(
    factory: &EnvSecretsFactory<S>,
    entrypoint: &str,
    parsed: Result<EnvSecretsConfig, String>,
    provider: Result<EnvSecretsProvider<S>, RuntimeFailure>,
)
    requires
        call_ensures(EnvSecretsFactory::<S>::instantiate, (factory, entrypoint, parsed), provider),
    ensures
        provider is Ok <==> good_plan(entrypoint@, parsed),
        provider is Ok ==> provider->Ok_0.config == parsed->Ok_0 && cloned(
            factory.source,
            provider->Ok_0.source,
        ),
        provider is Err ==> plan_is_refused(entrypoint@, parsed, provider->Err_0),
{
    if parsed is Ok {
        config_errors_agree(parsed->Ok_0@);
    }
}

/// A plan of which a provider is made.
pub open spec fn good_plan(entrypoint: Seq<char>, parsed: Result<EnvSecretsConfig, String>) -> bool {
    entrypoint == "default"@ && parsed is Ok && good_rows(parsed->Ok_0@)
}

/// The failure over a plan of which no provider is made.
pub open spec fn plan_is_refused(
    entrypoint: Seq<char>,
    parsed: Result<EnvSecretsConfig, String>,
    failure: RuntimeFailure,
) -> bool {
    failure matches RuntimeFailure::InvalidResolvedPlan { detail } && if entrypoint != "default"@ {
        detail@ == "unsupported Env Secrets Module entrypoint"@
    } else if parsed is Err {
        detail@ == "Env Secrets Module configuration is invalid: "@ + parsed->Err_0@
    } else {
        exists|error: EnvSecretsConfigError| #[trigger]
            is_first_error(parsed->Ok_0@, error) && detail@
                == "Env Secrets Module configuration is invalid: "@ + words(error)
    }
}

/// A provider and a factory hold what they were given.
pub proof fn providers_hold_what_they_were_given<S: SecretSource>(
    config: EnvSecretsConfig,
    source: S,
    provider: EnvSecretsProvider<S>,
    factory: EnvSecretsFactory<S>,
)
    requires
        call_ensures(EnvSecretsProvider::<S>::new, (config, source), provider),
        call_ensures(EnvSecretsFactory::<S>::with_source, (source,), factory),
    ensures
        provider.config == config,
        provider.source == source,
        factory.source == source,
{
}

/// A new factory holds a default source.
pub proof fn new_factories_hold_a_default_source<S: SecretSource + Default>(
    factory: EnvSecretsFactory<S>,
)
    requires
        call_ensures(EnvSecretsFactory::<S>::new, (), factory),
    ensures
        call_ensures(S::default, (), factory.source),
{
}

} // verus!
