//! A provider that asks a bounded external command.

use crate::capability;
use crate::capability::{find_source, invalid_plan, PluginError, ResolveResponse, RuntimeFailure};
use crate::naming;
use crate::naming::{contains_char, valid_environment_variable, valid_reference, valid_source_name};
use crate::process;
use crate::table;
use crate::table::TextTable;
use crate::text::{chars_of, copy_bytes, same_text, surround};
use vstd::prelude::*;
use vstd::string::*;
use vstd::utf8::*;

verus! {

/// The argument that stands for the source of a secret.
pub const SOURCE_PLACEHOLDER: &'static str = "{source}";

/// Maximum length of a source, in bytes.
pub const MAX_SOURCE_LENGTH: usize = 4096;

/// Maximum number of arguments.
pub const MAX_ARGUMENTS: usize = 64;

/// Maximum length of all arguments together, in bytes.
pub const MAX_ARGUMENT_BYTES: usize = 65_536;

/// Maximum number of environment variables that are handed on.
pub const MAX_ENVIRONMENT_NAMES: usize = 64;

/// Longest time that a command may take, in milliseconds.
pub const MAX_TIMEOUT_MS: u64 = 300_000;

/// Largest output that a configuration may allow, in bytes.
pub const MAX_OUTPUT_BYTES: usize = 1_048_576;

/// What to run, and for which references.
#[derive(Debug)]
pub struct CommandConfig {
    /// Path of the program.
    pub program: String,
    /// Arguments of the program, one of them the placeholder.
    pub arguments: Vec<String>,
    /// Environment variables that the program sees.
    pub environment_allowlist: Vec<String>,
    /// Sources by logical reference.
    pub references: TextTable,
    /// Longest time that the program may take, in milliseconds.
    pub timeout_ms: u64,
    /// Largest output that is accepted, in bytes.
    pub max_output_bytes: usize,
}

/// Texts as mathematical values.
pub open spec fn texts(strings: Seq<String>) -> Seq<Seq<char>> {
    strings.map_values(|text: String| text@)
}

/// `part` occurs in `whole`, at `k`.
pub open spec fn occurs_at(whole: Seq<char>, part: Seq<char>, k: int) -> bool {
    &&& 0 <= k
    &&& k + part.len() <= whole.len()
    &&& whole.subrange(k, k + part.len()) == part
}

/// `part` occurs in `whole`.
pub open spec fn occurs_in(whole: Seq<char>, part: Seq<char>) -> bool {
    exists|k: int| occurs_at(whole, part, k)
}

/// The length of all texts together, in bytes.
pub open spec fn total_bytes(texts: Seq<Seq<char>>) -> nat
    decreases texts.len(),
{
    if texts.len() == 0 {
        0
    } else {
        total_bytes(texts.drop_last()) + encode_utf8(texts.last()).len()
    }
}

/// The placeholder is argument `i`, and occurs in no other argument.
pub open spec fn is_standalone_placeholder(arguments: Seq<Seq<char>>, i: int) -> bool {
    &&& 0 <= i < arguments.len()
    &&& arguments[i] == SOURCE_PLACEHOLDER@
    &&& forall|j: int|
        0 <= j < arguments.len() && j != i ==> !occurs_in(
            #[trigger] arguments[j],
            SOURCE_PLACEHOLDER@,
        )
}

/// Exactly one argument holds the placeholder, and it holds nothing else.
pub open spec fn has_one_standalone_placeholder(arguments: Seq<Seq<char>>) -> bool {
    exists|i: int| is_standalone_placeholder(arguments, i)
}

/// The arguments hold no NUL, and their length can be counted.
pub open spec fn are_countable(arguments: Seq<Seq<char>>) -> bool {
    &&& forall|i: int| 0 <= i < arguments.len() ==> !(#[trigger] arguments[i]).contains('\0')
    &&& total_bytes(arguments) <= usize::MAX
}

/// The names are environment-variable names, and none occurs twice.
pub open spec fn is_valid_allowlist(names: Seq<Seq<char>>) -> bool {
    &&& forall|i: int| 0 <= i < names.len() ==> naming::is_environment_variable(#[trigger] names[i])
    &&& names.no_duplicates()
}

/// A binding from a valid reference to a valid source.
pub open spec fn is_valid_binding(row: (Seq<char>, Seq<char>)) -> bool {
    &&& naming::is_valid_reference(row.0)
    &&& naming::is_valid_source_name(row.1, MAX_SOURCE_LENGTH as nat)
}

/// There is a binding, and every binding is from a valid reference to a valid source.
pub open spec fn are_valid_references(rows: table::Rows) -> bool {
    &&& rows.len() > 0
    &&& forall|i: int| 0 <= i < rows.len() ==> is_valid_binding(#[trigger] rows[i])
}

/// What is wrong with a configuration whose program path is absolute or not.
pub open spec fn config_problem(config: CommandConfig, absolute: bool) -> Option<Seq<char>> {
    let arguments = texts(config.arguments@);
    let allowlist = texts(config.environment_allowlist@);
    if !absolute || config.program@.len() == 0 {
        Some("Secrets command program must be absolute"@)
    } else if !(1 <= arguments.len() <= MAX_ARGUMENTS) {
        Some("Secrets command arguments must contain between 1 and 64 entries"@)
    } else if !are_countable(arguments) {
        Some("Secrets command arguments are invalid"@)
    } else if total_bytes(arguments) > MAX_ARGUMENT_BYTES || !has_one_standalone_placeholder(
        arguments,
    ) {
        Some("Secrets command arguments require exactly one standalone `{source}` placeholder"@)
    } else if allowlist.len() > MAX_ENVIRONMENT_NAMES {
        Some("Secrets command environment allowlist cannot exceed 64 names"@)
    } else if !is_valid_allowlist(allowlist) {
        Some("Secrets command environment allowlist contains invalid or duplicate names"@)
    } else if !are_valid_references(config.references@) {
        Some("Secrets command references are invalid"@)
    } else if !(1 <= config.timeout_ms <= MAX_TIMEOUT_MS) {
        Some("timeout_ms must be between 1 and 300000"@)
    } else if !(1 <= config.max_output_bytes <= MAX_OUTPUT_BYTES) {
        Some("max_output_bytes must be between 1 and 1048576"@)
    } else {
        None
    }
}

/// Whether `part` occurs in `whole`.
fn contains_text(whole: &Vec<char>, part: &Vec<char>) -> (found: bool)
    ensures
        found == occurs_in(whole@, part@),
{
    if part.len() > whole.len() {
        return false;
    }
    let mut k: usize = 0;
    while k <= whole.len() - part.len()
        invariant
            part.len() <= whole.len(),
            k <= whole.len() - part.len() + 1,
            forall|l: int| 0 <= l < k ==> !occurs_at(whole@, part@, l),
        decreases whole.len() - part.len() + 1 - k,
    {
        let mut i: usize = 0;
        while i < part.len() && whole[k + i] == part[i]
            invariant
                k + part.len() <= whole.len(),
                i <= part.len(),
                forall|j: int| 0 <= j < i ==> whole@[k + j] == part@[j],
            decreases part.len() - i,
        {
            i += 1;
        }
        if i == part.len() {
            assert(whole@.subrange(k as int, k + part@.len()) =~= part@);
            assert(occurs_at(whole@, part@, k as int));
            return true;
        }
        assert(whole@.subrange(k as int, k + part@.len())[i as int] == whole@[k + i]);
        k += 1;
    }
    false
}

/// The length of the arguments in bytes, unless one of them holds NUL or the sum overflows.
fn count_bytes(arguments: &Vec<String>) -> (total: Option<usize>)
    ensures
        total is Some <==> are_countable(texts(arguments@)),
        total is Some ==> total->0 == total_bytes(texts(arguments@)),
{
    let ghost all = texts(arguments@);
    let mut total: usize = 0;
    let mut i: usize = 0;
    assert(all.take(0) =~= Seq::empty());
    while i < arguments.len()
        invariant
            all == texts(arguments@),
            i <= arguments.len(),
            forall|j: int| 0 <= j < i ==> !(#[trigger] all[j]).contains('\0'),
            total == total_bytes(all.take(i as int)),
        decreases arguments.len() - i,
    {
        assert(all[i as int] == arguments@[i as int]@);
        let chars = chars_of(arguments[i].as_str());
        if contains_char(&chars, '\0') {
            return None;
        }
        proof {
            assert(all.take(i + 1).drop_last() =~= all.take(i as int));
            total_bytes_grow(all, i + 1);
        }
        match total.checked_add(arguments[i].as_str().as_bytes().len()) {
            Some(sum) => {
                total = sum;
            },
            None => {
                return None;
            },
        }
        i += 1;
    }
    assert(all.take(i as int) =~= all);
    Some(total)
}

/// The first texts are together no longer than all of them.
proof fn total_bytes_grow(all: Seq<Seq<char>>, n: int)
    requires
        0 <= n <= all.len(),
    ensures
        total_bytes(all.take(n)) <= total_bytes(all),
    decreases all.len() - n,
{
    if n < all.len() {
        total_bytes_grow(all, n + 1);
        assert(all.take(n + 1).drop_last() =~= all.take(n));
    } else {
        assert(all.take(n) =~= all);
    }
}

/// Whether exactly one argument holds the placeholder, and holds nothing else.
fn one_standalone_placeholder(arguments: &Vec<String>) -> (standalone: bool)
    ensures
        standalone == has_one_standalone_placeholder(texts(arguments@)),
{
    let ghost all = texts(arguments@);
    let placeholder = chars_of(SOURCE_PLACEHOLDER);
    let mut found: Option<usize> = None;
    let mut i: usize = 0;
    while i < arguments.len()
        invariant
            all == texts(arguments@),
            placeholder@ == SOURCE_PLACEHOLDER@,
            i <= arguments.len(),
            match found {
                Some(at) => at < i && all[at as int] == placeholder@,
                None => true,
            },
            forall|j: int|
                0 <= j < i && found != Some(j as usize) ==> !occurs_in(
                    #[trigger] all[j],
                    placeholder@,
                ),
        decreases arguments.len() - i,
    {
        assert(all[i as int] == arguments@[i as int]@);
        let chars = chars_of(arguments[i].as_str());
        if contains_text(&chars, &placeholder) {
            proof {
                occurs_in_itself(placeholder@);
                // The placeholder would have to be this argument, and the one found before.
                assert(forall|p: int|
                    is_standalone_placeholder(all, p) ==> p == i && all[p] == placeholder@);
                if found is Some {
                    let at = found->0 as int;
                    assert(forall|p: int| is_standalone_placeholder(all, p) ==> p == at);
                }
            }
            if found.is_some() || !same_text(arguments[i].as_str(), SOURCE_PLACEHOLDER) {
                return false;
            }
            found = Some(i);
        }
        i += 1;
    }
    proof {
        occurs_in_itself(placeholder@);
        if found is Some {
            assert(is_standalone_placeholder(all, found->0 as int));
        }
    }
    found.is_some()
}

/// A text occurs in itself.
proof fn occurs_in_itself(text: Seq<char>)
    ensures
        occurs_in(text, text),
{
    assert(text.subrange(0, text.len() as int) =~= text);
    assert(occurs_at(text, text, 0));
}

/// Whether the names are environment-variable names and none occurs twice.
fn valid_allowlist(names: &Vec<String>) -> (valid: bool)
    ensures
        valid == is_valid_allowlist(texts(names@)),
{
    let ghost all = texts(names@);
    let mut i: usize = 0;
    while i < names.len()
        invariant
            all == texts(names@),
            i <= names.len(),
            forall|j: int| 0 <= j < i ==> naming::is_environment_variable(#[trigger] all[j]),
            forall|j: int, k: int| 0 <= j < k < i ==> #[trigger] all[j] != #[trigger] all[k],
        decreases names.len() - i,
    {
        assert(all[i as int] == names@[i as int]@);
        if !valid_environment_variable(names[i].as_str()) {
            return false;
        }
        let mut j: usize = 0;
        while j < i
            invariant
                all == texts(names@),
                j <= i < names.len(),
                forall|k: int| 0 <= k < j ==> #[trigger] all[k] != all[i as int],
            decreases i - j,
        {
            assert(all[i as int] == names@[i as int]@ && all[j as int] == names@[j as int]@);
            if same_text(names[j].as_str(), names[i].as_str()) {
                return false;
            }
            j += 1;
        }
        i += 1;
    }
    true
}

/// Whether there is a binding and every binding is from a valid reference to a valid source.
fn valid_references(references: &TextTable) -> (valid: bool)
    ensures
        valid == are_valid_references(references@),
{
    let mut i: usize = 0;
    while i < references.len()
        invariant
            i <= references@.len(),
            forall|j: int| 0 <= j < i ==> is_valid_binding(#[trigger] references@[j]),
        decreases references@.len() - i,
    {
        if !valid_reference(references.name_at(i).as_str()) || !valid_source_name(
            references.value_at(i).as_str(),
            MAX_SOURCE_LENGTH,
        ) {
            return false;
        }
        i += 1;
    }
    !references.is_empty()
}

/// Checks a configuration, given whether the path of its program is absolute.
pub fn check_config(config: &CommandConfig, absolute: bool) -> (outcome: Result<
    (),
    RuntimeFailure,
>)
    ensures
        capability::checked(outcome) == capability::refusal(config_problem(*config, absolute)),
{
    if !absolute || config.program.as_str().is_empty() {
        return Err(invalid_plan("Secrets command program must be absolute"));
    }
    if config.arguments.len() == 0 || config.arguments.len() > MAX_ARGUMENTS {
        return Err(
            invalid_plan("Secrets command arguments must contain between 1 and 64 entries"),
        );
    }
    let argument_bytes = match count_bytes(&config.arguments) {
        Some(total) => total,
        None => {
            return Err(invalid_plan("Secrets command arguments are invalid"));
        },
    };
    if argument_bytes > MAX_ARGUMENT_BYTES || !one_standalone_placeholder(&config.arguments) {
        return Err(
            invalid_plan(
                "Secrets command arguments require exactly one standalone `{source}` placeholder",
            ),
        );
    }
    if config.environment_allowlist.len() > MAX_ENVIRONMENT_NAMES {
        return Err(invalid_plan("Secrets command environment allowlist cannot exceed 64 names"));
    }
    if !valid_allowlist(&config.environment_allowlist) {
        return Err(
            invalid_plan(
                "Secrets command environment allowlist contains invalid or duplicate names",
            ),
        );
    }
    if !valid_references(&config.references) {
        return Err(invalid_plan("Secrets command references are invalid"));
    }
    if config.timeout_ms < 1 || config.timeout_ms > MAX_TIMEOUT_MS {
        return Err(invalid_plan("timeout_ms must be between 1 and 300000"));
    }
    if config.max_output_bytes < 1 || config.max_output_bytes > MAX_OUTPUT_BYTES {
        return Err(invalid_plan("max_output_bytes must be between 1 and 1048576"));
    }
    Ok(())
}

/// The path holds a slash or a backslash.
pub open spec fn holds_separator(path: Seq<char>) -> bool {
    path.contains('/') || path.contains('\\')
}

/// Whether a path does not depend on the current directory.
///
/// Calls `std::path::Path::is_absolute`. What makes a path absolute differs between operating
/// systems: on Unix that it starts with the root, on Windows that it has a prefix and starts with
/// the root. The contract claims only what holds on both, that an absolute path holds a separator.
#[verifier::external_body]
fn is_absolute_path(path: &str) -> (absolute: bool)
    ensures
        absolute ==> holds_separator(path@),
{
    std::path::Path::new(path).is_absolute()
}

/// The operating system, asked of this very path, may say that it is absolute or that it is not.
pub closed spec fn may_be_absolute(path: Seq<char>, absolute: bool) -> bool {
    exists|name: &str|
        name@ == path && #[trigger] call_ensures(is_absolute_path, (name,), absolute)
}

/// The operating system, asked of this very path, always says that it is absolute.
pub closed spec fn always_absolute(path: Seq<char>) -> bool {
    forall|name: &str, absolute: bool|
        name@ == path && #[trigger] call_ensures(is_absolute_path, (name,), absolute) ==> absolute
}

/// Where the operating system always says that a path is absolute, it does not say that it is not.
pub proof fn always_is_always(path: Seq<char>, absolute: bool)
    requires
        may_be_absolute(path, absolute),
    ensures
        always_absolute(path) ==> absolute,
{
}

/// The operating system says of no path without a separator that it is absolute.
pub proof fn absolute_paths_hold_separators(path: Seq<char>, absolute: bool)
    requires
        may_be_absolute(path, absolute),
    ensures
        absolute ==> path.contains('/') || path.contains('\\'),
{
}

/// The operating system never says of a bare name, or of the empty path, that it is absolute.
pub proof fn bare_names_are_not_absolute(path: Seq<char>, absolute: bool)
    requires
        !holds_separator(path),
        may_be_absolute(path, absolute),
    ensures
        !absolute,
{
}

/// Checks a configuration. The operating system decides whether the path of the program is
/// absolute; the rest is `check_config`.
pub fn validate_config(config: &CommandConfig) -> (outcome: Result<(), RuntimeFailure>)
    ensures
        exists|absolute: bool| #[trigger]
            may_be_absolute(config.program@, absolute) && capability::checked(outcome)
                == capability::refusal(config_problem(*config, absolute)),
        !holds_separator(config.program@) ==> capability::checked(outcome) == capability::refusal(
            config_problem(*config, false),
        ),
{
    let absolute = is_absolute_path(config.program.as_str());
    assert(may_be_absolute(config.program@, absolute));
    check_config(config, absolute)
}

/// The program that preparation found.
#[derive(Debug, PartialEq, Eq)]
pub struct PreparedProgram {
    /// Its canonical path, as the bytes of the operating system.
    pub executable: Vec<u8>,
}

impl Clone for PreparedProgram {
    /// The same program.
    fn clone(&self) -> (program: Self)
        ensures
            program.executable@ == self.executable@,
    {
        PreparedProgram { executable: copy_bytes(&self.executable) }
    }
}

/// What preparation found at the path of the program.
pub struct LocatedProgram {
    /// The canonical path, as the bytes of the operating system.
    pub path: Vec<u8>,
    /// Whether a regular file stands there.
    pub is_file: bool,
}

/// One run of the program.
#[derive(Debug)]
pub struct CommandRequest {
    /// The path in the configuration.
    pub configured_program: String,
    /// The program that preparation found.
    pub executable: Vec<u8>,
    /// Arguments, with the source in the place of the placeholder.
    pub arguments: Vec<String>,
    /// Environment variables that the program sees.
    pub environment_allowlist: Vec<String>,
    /// Longest time that the program may take, in milliseconds.
    pub timeout_ms: u64,
    /// Largest output that is accepted, in bytes.
    pub max_output_bytes: usize,
}

/// The arguments with `source` in the place of the placeholder.
pub open spec fn substituted(arguments: Seq<Seq<char>>, source: Seq<char>) -> Seq<Seq<char>> {
    arguments.map_values(
        |argument: Seq<char>|
            if argument == SOURCE_PLACEHOLDER@ {
                source
            } else {
                argument
            },
    )
}

/// `request` runs `executable` for `source` as the configuration says.
pub open spec fn requests(
    request: CommandRequest,
    config: CommandConfig,
    executable: Seq<u8>,
    source: Seq<char>,
) -> bool {
    &&& request.configured_program@ == config.program@
    &&& request.executable@ == executable
    &&& texts(request.arguments@) == substituted(texts(config.arguments@), source)
    &&& texts(request.environment_allowlist@) == texts(config.environment_allowlist@)
    &&& request.timeout_ms == config.timeout_ms
    &&& request.max_output_bytes == config.max_output_bytes
}

/// Under an accepted configuration exactly one argument changes: the placeholder becomes the
/// source, as a whole argument, and the others are those of the configuration.
pub proof fn source_is_one_argument(config: CommandConfig, absolute: bool, source: Seq<char>)
    requires
        config_problem(config, absolute) is None,
    ensures
        exists|i: int| #[trigger]
            is_standalone_placeholder(texts(config.arguments@), i) && substituted(
                texts(config.arguments@),
                source,
            ) == texts(config.arguments@).update(i, source),
{
    let arguments = texts(config.arguments@);
    let i = choose|i: int| is_standalone_placeholder(arguments, i);
    occurs_in_itself(SOURCE_PLACEHOLDER@);
    assert(substituted(arguments, source) =~= arguments.update(i, source));
}

/// Under an accepted configuration no argument of a run for a configured source holds NUL, which no
/// program can be given.
pub proof fn arguments_hold_no_nul(config: CommandConfig, absolute: bool, row: int, i: int)
    requires
        config_problem(config, absolute) is None,
        0 <= row < config.references@.len(),
        0 <= i < config.arguments@.len(),
    ensures
        !substituted(texts(config.arguments@), config.references@[row].1)[i].contains('\0'),
{
    let arguments = texts(config.arguments@);
    assert(!arguments[i].contains('\0'));
    assert(is_valid_binding(config.references@[row]));
}

/// The same texts.
fn copy_texts(strings: &Vec<String>) -> (copy: Vec<String>)
    ensures
        texts(copy@) == texts(strings@),
{
    let mut copy: Vec<String> = Vec::new();
    let mut i: usize = 0;
    while i < strings.len()
        invariant
            i <= strings.len(),
            copy@.len() == i,
            forall|j: int| 0 <= j < i ==> (#[trigger] copy@[j])@ == strings@[j]@,
        decreases strings.len() - i,
    {
        copy.push(strings[i].clone());
        i += 1;
    }
    assert(texts(copy@) =~= texts(strings@));
    copy
}

/// The arguments with `source` in the place of the placeholder.
fn substitute(arguments: &Vec<String>, source: &str) -> (substitutes: Vec<String>)
    ensures
        texts(substitutes@) == substituted(texts(arguments@), source@),
{
    let mut substitutes: Vec<String> = Vec::new();
    let mut i: usize = 0;
    while i < arguments.len()
        invariant
            i <= arguments.len(),
            substitutes@.len() == i,
            forall|j: int|
                0 <= j < i ==> (#[trigger] substitutes@[j])@ == if arguments@[j]@
                    == SOURCE_PLACEHOLDER@ {
                    source@
                } else {
                    arguments@[j]@
                },
        decreases arguments.len() - i,
    {
        if same_text(arguments[i].as_str(), SOURCE_PLACEHOLDER) {
            substitutes.push(source.to_owned());
        } else {
            substitutes.push(arguments[i].clone());
        }
        i += 1;
    }
    assert(texts(substitutes@) =~= substituted(texts(arguments@), source@));
    substitutes
}

/// The run that asks `prepared` for `source`.
pub fn command_request(config: &CommandConfig, prepared: &PreparedProgram, source: &str) -> (request:
    CommandRequest)
    ensures
        requests(request, *config, prepared.executable@, source@),
{
    CommandRequest {
        configured_program: config.program.clone(),
        executable: copy_bytes(&prepared.executable),
        arguments: substitute(&config.arguments, source),
        environment_allowlist: copy_texts(&config.environment_allowlist),
        timeout_ms: config.timeout_ms,
        max_output_bytes: config.max_output_bytes,
    }
}

/// Whether the path of the program, which may have been replaced since preparation, still leads
/// to the program that preparation found.
pub fn program_unchanged(request: &CommandRequest, located: &[u8]) -> (unchanged: bool)
    ensures
        unchanged == (located@ == request.executable@),
{
    if located.len() != request.executable.len() {
        return false;
    }
    let mut i: usize = 0;
    while i < located.len()
        invariant
            located@.len() == request.executable@.len(),
            i <= located@.len(),
            forall|j: int| 0 <= j < i ==> located@[j] == request.executable@[j],
        decreases located.len() - i,
    {
        if located[i] != request.executable[i] {
            return false;
        }
        i += 1;
    }
    assert(located@ =~= request.executable@);
    true
}

/// The text for a reference whose secret the command does not give.
pub open spec fn unavailable_text(reference: Seq<char>) -> Seq<char> {
    "configured command secret reference `"@ + reference + "` is unavailable"@
}

/// The failure for a reference whose secret the command does not give.
fn unavailable(reference: &str) -> (failure: RuntimeFailure)
    ensures
        failure@ == capability::FailureView::PluginFailure(unavailable_text(reference@)),
{
    RuntimeFailure::PluginFailure {
        detail: surround("configured command secret reference `", reference, "` is unavailable"),
    }
}

/// The next step of preparation, once the program was found.
pub enum PrepareStep {
    /// Run this request, for the reference at this position.
    Run {
        /// Position of the reference.
        position: usize,
        /// The run that asks for its secret.
        request: CommandRequest,
    },
    /// Every reference has a secret.
    Ready,
}

/// How far preparation is: at which reference, or at the end.
pub enum Progress {
    /// The secret of the reference at this position is asked for.
    Verifying(nat),
    /// Every reference has a secret.
    Ready,
}

/// How far preparation is at this step.
pub open spec fn progress_of(step: PrepareStep) -> Progress {
    match step {
        PrepareStep::Run { position, .. } => Progress::Verifying(position as nat),
        PrepareStep::Ready => Progress::Ready,
    }
}

/// How far preparation is once the references below `position` have a secret.
pub open spec fn progress_at(rows: table::Rows, position: nat) -> Progress {
    if position < rows.len() {
        Progress::Verifying(position)
    } else {
        Progress::Ready
    }
}

/// How far preparation is after the run for the reference at `position`.
pub open spec fn advanced(rows: table::Rows, position: nat, resolved: bool) -> Result<
    Progress,
    capability::FailureView,
> {
    if resolved {
        Ok(progress_at(rows, position + 1))
    } else {
        Err(capability::FailureView::PluginFailure(unavailable_text(rows[position as int].0)))
    }
}

/// How far preparation is after runs with these outcomes, from the reference at `position` on.
pub open spec fn preparation(rows: table::Rows, position: nat, outcomes: Seq<bool>) -> Result<
    Progress,
    capability::FailureView,
>
    decreases outcomes.len(),
{
    if position >= rows.len() || outcomes.len() == 0 {
        Ok(progress_at(rows, position))
    } else {
        match advanced(rows, position, outcomes[0]) {
            Ok(_) => preparation(rows, position + 1, outcomes.drop_first()),
            Err(failure) => Err(failure),
        }
    }
}

/// Preparation succeeds if every configured reference has a secret. If one has none, preparation
/// fails, and names the first such reference.
pub proof fn preparation_needs_every_secret(
    rows: table::Rows,
    position: nat,
    outcomes: Seq<bool>,
    k: int,
)
    requires
        0 <= k <= outcomes.len(),
        k <= rows.len() - position,
        forall|i: int| 0 <= i < k ==> outcomes[i],
    ensures
        k == rows.len() - position ==> preparation(rows, position, outcomes) == Ok::<
            Progress,
            capability::FailureView,
        >(Progress::Ready),
        k < rows.len() - position && k < outcomes.len() && !outcomes[k] ==> preparation(
            rows,
            position,
            outcomes,
        ) == Err::<Progress, capability::FailureView>(
            capability::FailureView::PluginFailure(unavailable_text(rows[position + k].0)),
        ),
    decreases k,
{
    if k > 0 {
        let rest = outcomes.drop_first();
        assert forall|i: int| 0 <= i < k - 1 implies rest[i] by {
            assert(rest[i] == outcomes[i + 1]);
        }
        if k < outcomes.len() {
            assert(rest[k - 1] == outcomes[k]);
        }
        preparation_needs_every_secret(rows, position + 1, rest, k - 1);
    }
}

/// The step that verifies the references from `position` on.
pub fn verification_step(
    config: &CommandConfig,
    prepared: &PreparedProgram,
    position: usize,
) -> (step: PrepareStep)
    ensures
        table::is_ordered(config.references@),
        progress_of(step) == progress_at(config.references@, position as nat),
        step matches PrepareStep::Run { request, .. } ==> requests(
            request,
            *config,
            prepared.executable@,
            config.references@[position as int].1,
        ),
{
    if position < config.references.len() {
        let request = command_request(
            config,
            prepared,
            config.references.value_at(position).as_str(),
        );
        PrepareStep::Run { position, request }
    } else {
        PrepareStep::Ready
    }
}

/// The step after the run for the reference at `position`: the next reference if the run gave a
/// secret, else a failure that names the reference.
pub fn continue_preparation(
    config: &CommandConfig,
    prepared: &PreparedProgram,
    position: usize,
    resolved: bool,
) -> (next: Result<PrepareStep, RuntimeFailure>)
    requires
        position < config.references@.len(),
    ensures
        table::is_ordered(config.references@),
        match next {
            Ok(step) => advanced(config.references@, position as nat, resolved) == Ok::<
                Progress,
                capability::FailureView,
            >(progress_of(step)),
            Err(failure) => advanced(config.references@, position as nat, resolved) == Err::<
                Progress,
                capability::FailureView,
            >(failure@),
        },
        next matches Ok(PrepareStep::Run { request, .. }) ==> requests(
            request,
            *config,
            prepared.executable@,
            config.references@[position + 1].1,
        ),
{
    let count: usize = config.references.len();
    if resolved {
        assert(position < count);
        Ok(verification_step(config, prepared, position + 1))
    } else {
        Err(unavailable(config.references.name_at(position).as_str()))
    }
}

/// The provider: its configuration, and the program while it is prepared.
#[derive(Debug)]
pub struct CommandSecretsPlugin {
    /// The configuration.
    pub config: CommandConfig,
    /// The program, from preparation to deactivation.
    pub prepared: Option<PreparedProgram>,
}

/// The program of a provider as a mathematical value.
pub open spec fn program_of(prepared: Option<PreparedProgram>) -> Option<Seq<u8>> {
    match prepared {
        Some(program) => Some(program.executable@),
        None => None,
    }
}

impl CommandSecretsPlugin {
    /// A provider that is not prepared.
    pub fn new(config: CommandConfig) -> (plugin: Self)
        ensures
            plugin.config == config,
            plugin.prepared is None,
    {
        CommandSecretsPlugin { config, prepared: None }
    }

    /// Begins preparation with what was found at the path of the program.
    pub fn begin_preparation(&mut self, located: Option<LocatedProgram>) -> (outcome: Result<
        (),
        RuntimeFailure,
    >)
        ensures
            final(self).config == old(self).config,
            capability::checked(outcome) == capability::refusal(
                match located {
                    None => Some("Secrets command program is unavailable"@),
                    Some(program) => if program.is_file {
                        None
                    } else {
                        Some("Secrets command program is not a regular file"@)
                    },
                },
            ),
            outcome is Ok ==> program_of(final(self).prepared) == Some(located->0.path@),
            outcome is Err ==> final(self).prepared == old(self).prepared,
    {
        match located {
            None => Err(invalid_plan("Secrets command program is unavailable")),
            Some(program) => {
                if !program.is_file {
                    return Err(invalid_plan("Secrets command program is not a regular file"));
                }
                self.prepared = Some(PreparedProgram { executable: program.path });
                Ok(())
            },
        }
    }

    /// Forgets the program.
    pub fn deactivate(&mut self)
        ensures
            final(self).config == old(self).config,
            final(self).prepared is None,
    {
        self.prepared = None;
    }

    /// The run that asks for the secret behind `reference`.
    pub fn begin_resolution(&self, reference: &str) -> (request: Result<CommandRequest, PluginError>)
        ensures
            table::is_ordered(self.config.references@),
            match request {
                Ok(run) => begins(*self, reference@) is Ok && requests(
                    run,
                    self.config,
                    self.prepared->0.executable@,
                    begins(*self, reference@)->Ok_0,
                ),
                Err(error) => begins(*self, reference@) == Err::<
                    Seq<char>,
                    capability::ErrorView,
                >(error@),
            },
    {
        let source = match find_source(&self.config.references, reference) {
            Ok(source) => source,
            Err(error) => {
                return Err(PluginError::Domain(error));
            },
        };
        match &self.prepared {
            Some(prepared) => Ok(command_request(&self.config, prepared, source.as_str())),
            None => Err(
                PluginError::Runtime(
                    RuntimeFailure::Unavailable { capability: capability::CAPABILITY_ID },
                ),
            ),
        }
    }
}

/// What a provider asks its program for to resolve `reference`: the source bound to it, or why it
/// asks nothing.
pub open spec fn begins(plugin: CommandSecretsPlugin, reference: Seq<char>) -> Result<
    Seq<char>,
    capability::ErrorView,
> {
    match capability::bound_source(plugin.config.references@, reference) {
        Err(error) => Err(capability::ErrorView::Domain(error)),
        Ok(source) => if plugin.prepared is None {
            Err(
                capability::ErrorView::Runtime(
                    capability::FailureView::Unavailable(capability::CAPABILITY_ID@),
                ),
            )
        } else {
            Ok(source)
        },
    }
}

/// From preparation to deactivation a provider asks its program for the source bound to a reference.
/// Before and after, it asks nothing, and says that the capability is not available; references that
/// are malformed or unbound are refused at all times.
pub proof fn only_prepared_providers_ask(plugin: CommandSecretsPlugin, reference: Seq<char>)
    ensures
        match capability::bound_source(plugin.config.references@, reference) {
            Err(error) => begins(plugin, reference) == Err::<Seq<char>, capability::ErrorView>(
                capability::ErrorView::Domain(error),
            ),
            Ok(source) => if program_of(plugin.prepared) is Some {
                begins(plugin, reference) == Ok::<Seq<char>, capability::ErrorView>(source)
            } else {
                begins(plugin, reference) == Err::<Seq<char>, capability::ErrorView>(
                    capability::ErrorView::Runtime(
                        capability::FailureView::Unavailable(capability::CAPABILITY_ID@),
                    ),
                )
            },
        },
{
}

/// What a run that gave `secret` or nothing answers for `reference`.
pub open spec fn answer(reference: Seq<char>, secret: Option<Seq<char>>) -> Result<
    Seq<char>,
    capability::ErrorView,
> {
    match secret {
        Some(value) => Ok(value),
        None => Err(
            capability::ErrorView::Runtime(
                capability::FailureView::PluginFailure(unavailable_text(reference)),
            ),
        ),
    }
}

/// Answers a request for `reference` with what the run gave.
pub fn finish_resolution(reference: &str, secret: Result<String, ()>) -> (answered: Result<
    ResolveResponse,
    PluginError,
>)
    ensures
        capability::answered(answered) == answer(reference@, capability::text_of(secret)),
{
    match secret {
        Ok(value) => Ok(ResolveResponse { value }),
        Err(()) => Err(PluginError::Runtime(unavailable(reference))),
    }
}

/// A request is answered with the secret in the whole output of a run that ended well, and with
/// nothing else; any other answer is a failure whose text depends on the reference alone.
pub proof fn answers_come_from_whole_outputs(
    reference: Seq<char>,
    success: bool,
    chunks: Seq<Seq<u8>>,
    limit: nat,
)
    ensures
        match answer(reference, process::secret_in(success, process::absorbed_all(chunks, limit))) {
            Ok(value) => success && process::joined(chunks).len() <= limit && process::secret_in(
                true,
                (process::joined(chunks), false),
            ) == Some(value) && value.len() > 0,
            Err(error) => error == capability::ErrorView::Runtime(
                capability::FailureView::PluginFailure(unavailable_text(reference)),
            ),
        },
{
    process::output_is_bounded(chunks, limit);
}

} // verus!
