//! Commands: what is accepted, what is run, and what is answered.

use crate::capability;
use crate::capability::{PluginError, ResolveError, ResolveResponse, RuntimeFailure};
use crate::command;
use crate::command::{
    CommandConfig, CommandRequest, CommandSecretsPlugin, LocatedProgram, PrepareStep,
    PreparedProgram,
};
use crate::laws;
use crate::laws::terms;
use crate::table;
use vstd::prelude::*;
use vstd::utf8::*;

verus! {

/// Argument `i` is `{source}`, and no other argument holds `{source}` anywhere.
pub open spec fn lone_placeholder(arguments: Seq<String>, i: int) -> bool {
    &&& 0 <= i < arguments.len()
    &&& arguments[i]@ == "{source}"@
    &&& forall|j: int, k: int|
        #![trigger arguments[j]@.subrange(k, k + "{source}"@.len())]
        0 <= j < arguments.len() && j != i && 0 <= k && k + "{source}"@.len()
            <= arguments[j]@.len() ==> arguments[j]@.subrange(k, k + "{source}"@.len())
            != "{source}"@
}

/// How many bytes the arguments take, one after the other.
pub open spec fn argument_bytes(arguments: Seq<String>) -> nat {
    arguments.map_values(|argument: String| encode_utf8(argument@)).flatten().len()
}

/// What is accepted of a configuration besides its program.
pub open spec fn good_arguments(config: CommandConfig) -> bool {
    &&& 1 <= config.arguments@.len() <= 64
    &&& forall|i: int|
        0 <= i < config.arguments@.len() ==> !(#[trigger] config.arguments@[i])@.contains('\0')
    &&& argument_bytes(config.arguments@) <= 65536
    &&& exists|i: int| #[trigger] lone_placeholder(config.arguments@, i)
}

/// The environment variables that are accepted.
pub open spec fn good_allowlist(names: Seq<String>) -> bool {
    &&& forall|i: int|
        0 <= i < names.len() ==> terms::good_upper_variable((#[trigger] names[i])@)
    &&& forall|i: int, j: int|
        0 <= i < j < names.len() ==> (#[trigger] names[i])@ != (#[trigger] names[j])@
}

/// The bindings that are accepted.
pub open spec fn good_references(rows: table::Rows) -> bool {
    &&& rows.len() > 0
    &&& forall|i: int| 0 <= i < rows.len() ==> terms::good_binding(#[trigger] rows[i], 4096)
}

proof fn total_is_flat_length(texts: Seq<Seq<char>>)
    ensures
        command::total_bytes(texts) == texts.map_values(
            |text: Seq<char>| encode_utf8(text),
        ).flatten().len(),
    decreases texts.len(),
{
    let encoded = texts.map_values(|text: Seq<char>| encode_utf8(text));
    encoded.lemma_flatten_and_flatten_alt_are_equivalent();
    if texts.len() > 0 {
        let fewer = texts.drop_last();
        let encoded_fewer = fewer.map_values(|text: Seq<char>| encode_utf8(text));
        total_is_flat_length(fewer);
        encoded_fewer.lemma_flatten_and_flatten_alt_are_equivalent();
        assert(encoded.drop_last() =~= encoded_fewer);
        assert(encoded.last() == encode_utf8(texts.last()));
    }
}

proof fn total_is_argument_bytes(arguments: Seq<String>)
    ensures
        command::total_bytes(command::texts(arguments)) == argument_bytes(arguments),
{
    let texts = command::texts(arguments);
    total_is_flat_length(texts);
    assert(texts.map_values(|text: Seq<char>| encode_utf8(text)) =~= arguments.map_values(
        |argument: String| encode_utf8(argument@),
    ));
}

proof fn placeholders_agree(arguments: Seq<String>, i: int)
    ensures
        command::is_standalone_placeholder(command::texts(arguments), i) == lone_placeholder(
            arguments,
            i,
        ),
{
    let texts = command::texts(arguments);
    if lone_placeholder(arguments, i) {
        assert forall|j: int| 0 <= j < texts.len() && j != i implies !command::occurs_in(
            #[trigger] texts[j],
            "{source}"@,
        ) by {
            assert forall|k: int| !command::occurs_at(texts[j], "{source}"@, k) by {
                if command::occurs_at(texts[j], "{source}"@, k) {
                    assert(arguments[j]@.subrange(k, k + "{source}"@.len()) == "{source}"@);
                }
            }
        }
    }
    if command::is_standalone_placeholder(texts, i) {
        assert forall|j: int, k: int|
            #![trigger arguments[j]@.subrange(k, k + "{source}"@.len())]
            0 <= j < arguments.len() && j != i && 0 <= k && k + "{source}"@.len()
                <= arguments[j]@.len() implies arguments[j]@.subrange(k, k + "{source}"@.len())
            != "{source}"@ by {
            assert(!command::occurs_in(texts[j], "{source}"@));
            assert(!command::occurs_at(texts[j], "{source}"@, k));
        }
    }
}

proof fn allowlists_agree(names: Seq<String>)
    ensures
        command::is_valid_allowlist(command::texts(names)) == good_allowlist(names),
{
    let texts = command::texts(names);
    assert forall|i: int| 0 <= i < names.len() implies crate::naming::is_environment_variable(
        #[trigger] texts[i],
    ) == terms::good_upper_variable(names[i]@) by {
        laws::naming::good_upper_variables(names[i]@);
    }
    if command::is_valid_allowlist(texts) {
        assert forall|i: int| 0 <= i < names.len() implies terms::good_upper_variable(
            (#[trigger] names[i])@,
        ) by {
            assert(crate::naming::is_environment_variable(texts[i]));
        }
        assert forall|i: int, j: int| 0 <= i < j < names.len() implies (#[trigger] names[i])@ != (
        #[trigger] names[j])@ by {
            assert(texts[i] != texts[j]);
        }
    }
    if good_allowlist(names) {
        assert forall|i: int| 0 <= i < texts.len() implies crate::naming::is_environment_variable(
            #[trigger] texts[i],
        ) by {
            assert(terms::good_upper_variable(names[i]@));
        }
        assert forall|i: int, j: int|
            0 <= i < texts.len() && 0 <= j < texts.len() && i != j implies texts[i] != texts[j] by {
            assert(texts[i] == names[i]@ && texts[j] == names[j]@);
            if i < j {
                assert(names[i]@ != names[j]@);
            } else {
                assert(names[j]@ != names[i]@);
            }
        }
    }
}

proof fn references_agree(rows: table::Rows)
    ensures
        command::are_valid_references(rows) == good_references(rows),
{
    assert forall|i: int| 0 <= i < rows.len() implies command::is_valid_binding(
        #[trigger] rows[i],
    ) == terms::good_binding(rows[i], 4096) by {
        laws::naming::canonical_paths_are_plain(rows[i].0);
        laws::naming::good_sources(rows[i].1, 4096);
    }
}

/// A configuration is accepted exactly if its program is absolute, it has between 1 and 64
/// arguments of at most 65536 bytes together, without NUL and with `{source}` as exactly one whole
/// argument and nowhere else, at most 64 different environment variables, at least one binding and
/// each from an accepted reference to an accepted source, a time between 1 and 300000 milliseconds
/// and an output between 1 and 1048576 bytes. It is refused over the first of these that fails.
pub proof fn configurations_are_checked_in_order(
    config: &CommandConfig,
    absolute: bool,
    outcome: Result<(), RuntimeFailure>,
)
    requires
        call_ensures(command::check_config, (config, absolute), outcome),
    ensures
        if !absolute || config.program@.len() == 0 {
            terms::refused(outcome, "Secrets command program must be absolute"@)
        } else if !(1 <= config.arguments@.len() <= 64) {
            terms::refused(
                outcome,
                "Secrets command arguments must contain between 1 and 64 entries"@,
            )
        } else if (exists|i: int|
            0 <= i < config.arguments@.len() && (#[trigger] config.arguments@[i])@.contains('\0'))
            || argument_bytes(config.arguments@) > usize::MAX {
            terms::refused(outcome, "Secrets command arguments are invalid"@)
        } else if !good_arguments(*config) {
            terms::refused(
                outcome,
                "Secrets command arguments require exactly one standalone `{source}` placeholder"@,
            )
        } else if config.environment_allowlist@.len() > 64 {
            terms::refused(
                outcome,
                "Secrets command environment allowlist cannot exceed 64 names"@,
            )
        } else if !good_allowlist(config.environment_allowlist@) {
            terms::refused(
                outcome,
                "Secrets command environment allowlist contains invalid or duplicate names"@,
            )
        } else if !good_references(config.references@) {
            terms::refused(outcome, "Secrets command references are invalid"@)
        } else if !(1 <= config.timeout_ms <= 300000) {
            terms::refused(outcome, "timeout_ms must be between 1 and 300000"@)
        } else if !(1 <= config.max_output_bytes <= 1048576) {
            terms::refused(outcome, "max_output_bytes must be between 1 and 1048576"@)
        } else {
            outcome is Ok
        },
{
    problems_agree(*config, absolute);
}

/// The parts of a configuration that are checked agree with what is accepted.
proof fn problems_agree(config: CommandConfig, absolute: bool)
    ensures
        command::total_bytes(command::texts(config.arguments@)) == argument_bytes(
            config.arguments@,
        ),
        command::are_countable(command::texts(config.arguments@)) <==> !((exists|i: int|
            0 <= i < config.arguments@.len() && (#[trigger] config.arguments@[i])@.contains('\0'))
            || argument_bytes(config.arguments@) > usize::MAX),
        command::has_one_standalone_placeholder(command::texts(config.arguments@)) <==> exists|i:
            int| #[trigger] lone_placeholder(config.arguments@, i),
        command::is_valid_allowlist(command::texts(config.environment_allowlist@))
            == good_allowlist(config.environment_allowlist@),
        command::are_valid_references(config.references@) == good_references(config.references@),
{
    let texts = command::texts(config.arguments@);
    total_is_argument_bytes(config.arguments@);
    allowlists_agree(config.environment_allowlist@);
    references_agree(config.references@);
    assert forall|i: int| #[trigger]
        command::is_standalone_placeholder(texts, i) == lone_placeholder(
            config.arguments@,
            i,
        ) by {
        placeholders_agree(config.arguments@, i);
    }
    if exists|i: int| #[trigger] lone_placeholder(config.arguments@, i) {
        let i = choose|i: int| #[trigger] lone_placeholder(config.arguments@, i);
        assert(command::is_standalone_placeholder(texts, i));
    }
    assert forall|i: int| 0 <= i < texts.len() implies #[trigger] texts[i]
        == config.arguments@[i]@ by {}
    if command::are_countable(texts) {
        assert forall|i: int| 0 <= i < config.arguments@.len() implies !(
        #[trigger] config.arguments@[i])@.contains('\0') by {
            assert(!texts[i].contains('\0'));
        }
    }
}

/// A configuration that is accepted has a program with a separator in its path and is accepted in
/// every other part. One that is accepted in every part but refused has a program that the operating
/// system does not call absolute. One whose program it always calls absolute is judged by the rest.
pub proof fn the_system_judges_the_program(
    config: &CommandConfig,
    outcome: Result<(), RuntimeFailure>,
)
    requires
        call_ensures(command::validate_config, (config,), outcome),
    ensures
        outcome is Ok ==> config.program@.contains('/') || config.program@.contains('\\'),
        outcome is Ok ==> good_configuration(*config) && command::may_be_absolute(
            config.program@,
            true,
        ),
        outcome is Err && good_configuration(*config) ==> command::may_be_absolute(
            config.program@,
            false,
        ) && terms::refused(outcome, "Secrets command program must be absolute"@),
        command::always_absolute(config.program@) ==> (outcome is Ok <==> good_configuration(
            *config,
        )),
{
    problems_agree(*config, true);
    let absolute = choose|absolute: bool| #[trigger]
        command::may_be_absolute(config.program@, absolute) && capability::checked(outcome)
            == capability::refusal(command::config_problem(*config, absolute));
    command::absolute_paths_hold_separators(config.program@, absolute);
    command::always_is_always(config.program@, absolute);
}

/// Everything that is accepted of a configuration, but that its program is absolute.
pub open spec fn good_configuration(config: CommandConfig) -> bool {
    &&& config.program@.len() > 0
    &&& good_arguments(config)
    &&& config.environment_allowlist@.len() <= 64
    &&& good_allowlist(config.environment_allowlist@)
    &&& good_references(config.references@)
    &&& 1 <= config.timeout_ms <= 300000
    &&& 1 <= config.max_output_bytes <= 1048576
}

/// The run for a source: the configured program as it was found, each argument of the configuration
/// with the source in the place of `{source}`, each allowlisted environment variable and no other,
/// and the time and the output that the configuration allows.
pub open spec fn is_run_for(
    request: CommandRequest,
    config: CommandConfig,
    executable: Seq<u8>,
    source: Seq<char>,
) -> bool {
    &&& request.configured_program@ == config.program@
    &&& request.executable@ == executable
    &&& request.arguments@.len() == config.arguments@.len()
    &&& forall|i: int|
        0 <= i < config.arguments@.len() ==> (#[trigger] request.arguments@[i])@
            == if config.arguments@[i]@ == "{source}"@ {
            source
        } else {
            config.arguments@[i]@
        }
    &&& request.environment_allowlist@.len() == config.environment_allowlist@.len()
    &&& forall|i: int|
        0 <= i < config.environment_allowlist@.len() ==> (
        #[trigger] request.environment_allowlist@[i])@ == config.environment_allowlist@[i]@
    &&& request.timeout_ms == config.timeout_ms
    &&& request.max_output_bytes == config.max_output_bytes
}

proof fn requests_are_runs(
    request: CommandRequest,
    config: CommandConfig,
    executable: Seq<u8>,
    source: Seq<char>,
)
    requires
        command::requests(request, config, executable, source),
    ensures
        is_run_for(request, config, executable, source),
{
    let given = command::texts(request.arguments@);
    let expected = command::substituted(command::texts(config.arguments@), source);
    assert(given.len() == expected.len());
    assert forall|i: int| 0 <= i < config.arguments@.len() implies (
    #[trigger] request.arguments@[i])@ == if config.arguments@[i]@ == "{source}"@ {
        source
    } else {
        config.arguments@[i]@
    } by {
        assert(given[i] == expected[i]);
    }
    let names = command::texts(request.environment_allowlist@);
    let allowed = command::texts(config.environment_allowlist@);
    assert(names.len() == allowed.len());
    assert forall|i: int| 0 <= i < config.environment_allowlist@.len() implies (
    #[trigger] request.environment_allowlist@[i])@ == config.environment_allowlist@[i]@ by {
        assert(names[i] == allowed[i]);
    }
}

/// The run that is made for a source hands on all that the configuration says, and nothing else.
pub proof fn runs_follow_the_configuration(
    config: &CommandConfig,
    prepared: &PreparedProgram,
    source: &str,
    request: CommandRequest,
)
    requires
        call_ensures(command::command_request, (config, prepared, source), request),
    ensures
        is_run_for(request, *config, prepared.executable@, source@),
{
    requests_are_runs(request, *config, prepared.executable@, source@);
}

/// A prepared program is taken for unchanged exactly if the path leads to the same place.
pub proof fn programs_are_compared_whole(
    request: &CommandRequest,
    located: &[u8],
    unchanged: bool,
)
    requires
        call_ensures(command::program_unchanged, (request, located), unchanged),
    ensures
        unchanged <==> located@ == request.executable@,
{
}

/// The step at a position runs the command for the source in that row, and past the last row
/// preparation is done.
pub proof fn steps_follow_the_rows(
    config: &CommandConfig,
    prepared: &PreparedProgram,
    position: usize,
    step: PrepareStep,
)
    requires
        call_ensures(command::verification_step, (config, prepared, position), step),
    ensures
        if position < config.references@.len() {
            step matches PrepareStep::Run { position: at, request } && at == position && is_run_for(
                request,
                *config,
                prepared.executable@,
                config.references@[position as int].1,
            )
        } else {
            step is Ready
        },
{
    if let PrepareStep::Run { request, .. } = step {
        requests_are_runs(
            request,
            *config,
            prepared.executable@,
            config.references@[position as int].1,
        );
    }
}

/// After a run that gave a secret preparation goes on with the next row, or is done after the last.
/// After one that gave none it fails, and names the reference in that row.
pub proof fn preparation_goes_row_by_row(
    config: &CommandConfig,
    prepared: &PreparedProgram,
    position: usize,
    resolved: bool,
    next: Result<PrepareStep, RuntimeFailure>,
)
    requires
        position < config.references@.len(),
        call_ensures(
            command::continue_preparation,
            (config, prepared, position, resolved),
            next,
        ),
    ensures
        if !resolved {
            next is Err && terms::reported(
                next->Err_0,
                "configured command secret reference `"@ + config.references@[position as int].0
                    + "` is unavailable"@,
            )
        } else if position + 1 < config.references@.len() {
            next matches Ok(PrepareStep::Run { position: at, request }) && at == position + 1
                && is_run_for(
                request,
                *config,
                prepared.executable@,
                config.references@[position + 1].1,
            )
        } else {
            next matches Ok(PrepareStep::Ready)
        },
{
    if let Ok(PrepareStep::Run { request, .. }) = next {
        requests_are_runs(
            request,
            *config,
            prepared.executable@,
            config.references@[position + 1].1,
        );
    }
}

/// Preparation begins with a regular file that was found, and remembers where; with nothing, or with
/// something else, it fails and remembers nothing new.
pub proof fn preparation_begins_with_a_file(
    plugin: &mut CommandSecretsPlugin,
    located: Option<LocatedProgram>,
    outcome: Result<(), RuntimeFailure>,
)
    requires
        call_ensures(CommandSecretsPlugin::begin_preparation, (plugin, located), outcome),
    ensures
        final(plugin).config == old(plugin).config,
        located is None ==> terms::refused(outcome, "Secrets command program is unavailable"@),
        located is Some && !located->0.is_file ==> terms::refused(
            outcome,
            "Secrets command program is not a regular file"@,
        ),
        located is Some && located->0.is_file ==> outcome is Ok && final(plugin).prepared is Some
            && final(plugin).prepared->0.executable@ == located->0.path@,
        outcome is Err ==> final(plugin).prepared == old(plugin).prepared,
{
}

/// A new provider holds its configuration and no program.
pub proof fn providers_begin_unprepared(config: CommandConfig, plugin: CommandSecretsPlugin)
    requires
        call_ensures(CommandSecretsPlugin::new, (config,), plugin),
    ensures
        plugin.config == config,
        plugin.prepared is None,
{
}

/// A copy of a prepared program is the same program.
pub proof fn programs_are_copied_whole(program: &PreparedProgram, copy: PreparedProgram)
    requires
        call_ensures(PreparedProgram::clone, (program,), copy),
    ensures
        copy.executable@ == program.executable@,
{
}

/// A provider that is deactivated forgets its program and keeps its configuration.
pub proof fn deactivated_providers_forget(plugin: &mut CommandSecretsPlugin)
    requires
        call_ensures(CommandSecretsPlugin::deactivate, (plugin,), ()),
    ensures
        final(plugin).config == old(plugin).config,
        final(plugin).prepared is None,
{
}

/// A request is refused over a reference that is not accepted or stands in no row. Otherwise a
/// provider that is not prepared says that the capability is unavailable, and a prepared one runs
/// its program for the source in the row of the reference.
pub proof fn requests_run_the_bound_source(
    plugin: &CommandSecretsPlugin,
    reference: &str,
    request: Result<CommandRequest, PluginError>,
)
    requires
        call_ensures(CommandSecretsPlugin::begin_resolution, (plugin, reference), request),
    ensures
        if !terms::good_reference(reference@) {
            request matches Err(PluginError::Domain(ResolveError::InvalidReference))
        } else if terms::unnamed(plugin.config.references@, reference@) {
            request matches Err(PluginError::Domain(ResolveError::UnknownReference))
        } else if plugin.prepared is None {
            request matches Err(PluginError::Runtime(RuntimeFailure::Unavailable { capability }))
                && capability@ == "lenso.secrets@1"@
        } else {
            request is Ok && exists|source: Seq<char>|
                plugin.config.references@.contains((reference@, source)) && #[trigger] is_run_for(
                    request->Ok_0,
                    plugin.config,
                    plugin.prepared->0.executable@,
                    source,
                )
        },
{
    laws::capability::bindings_are_rows(plugin.config.references@, reference@);
    if request is Ok {
        requests_are_runs(
            request->Ok_0,
            plugin.config,
            plugin.prepared->0.executable@,
            command::begins(*plugin, reference@)->Ok_0,
        );
    }
    if let Ok(source) = capability::bound_source(plugin.config.references@, reference@) {
        let rows = plugin.config.references@;
        let i = rows.index_of((reference@, source));
        assert(rows[i].0 == reference@);
    }
}

/// A run that gave a secret is answered with it, all of it. One that gave none is answered with a
/// failure that names the reference.
pub proof fn answers_are_the_secret(
    reference: &str,
    secret: Result<String, ()>,
    answered: Result<ResolveResponse, PluginError>,
)
    requires
        call_ensures(command::finish_resolution, (reference, secret), answered),
    ensures
        match secret {
            Ok(value) => answered is Ok && answered->Ok_0.value@ == value@,
            Err(()) => answered matches Err(PluginError::Runtime(failure)) && terms::reported(
                failure,
                "configured command secret reference `"@ + reference@ + "` is unavailable"@,
            ),
        },
{
}

} // verus!
