//! A provider that reads allowlisted environment variables.

use crate::capability;
use crate::capability::{ResolveError, ResolveRequest, ResolveResponse, RuntimeFailure};
use crate::naming;
use crate::naming::canonical_path;
pub use crate::naming::MAX_REFERENCE_LENGTH;
use crate::table;
use crate::table::TextTable;
use crate::text;
use crate::text::{chars_of, same_text, surround, text_from_utf8};
use vstd::prelude::*;
use vstd::string::*;
use vstd::utf8::*;

verus! {

/// A configuration that cannot be used.
#[derive(Clone, Copy, Debug, PartialEq, Eq, Structural)]
pub enum EnvSecretsConfigError {
    /// At least one required reference must be declared.
    Empty,
    /// A logical reference is not a canonical non-empty path.
    InvalidReference,
    /// An environment-variable name is not a portable process identifier.
    InvalidEnvironmentVariable,
    /// The same logical reference was configured more than once.
    DuplicateReference,
}

/// What an error says.
pub open spec fn error_text(error: EnvSecretsConfigError) -> Seq<char> {
    match error {
        EnvSecretsConfigError::Empty => "at least one secret reference is required"@,
        EnvSecretsConfigError::InvalidReference => "invalid logical secret reference"@,
        EnvSecretsConfigError::InvalidEnvironmentVariable => "invalid environment-variable name"@,
        EnvSecretsConfigError::DuplicateReference => {
            "logical secret reference is already configured"@
        },
    }
}

impl EnvSecretsConfigError {
    /// What the error says.
    pub fn message(&self) -> (text: String)
        ensures
            text@ == error_text(*self),
    {
        match self {
            EnvSecretsConfigError::Empty => "at least one secret reference is required".to_owned(),
            EnvSecretsConfigError::InvalidReference => {
                "invalid logical secret reference".to_owned()
            },
            EnvSecretsConfigError::InvalidEnvironmentVariable => {
                "invalid environment-variable name".to_owned()
            },
            EnvSecretsConfigError::DuplicateReference => {
                "logical secret reference is already configured".to_owned()
            },
        }
    }
}

/// A character that a logical reference may hold.
pub open spec fn is_reference_char(c: char) -> bool {
    ||| naming::is_upper(c)
    ||| naming::is_lower(c)
    ||| naming::is_digit(c)
    ||| c == '.'
    ||| c == '_'
    ||| c == '-'
    ||| c == '/'
}

/// A logical reference: a canonical path of at most `MAX_REFERENCE_LENGTH` bytes, all of them
/// ASCII letters, digits, dots, underscores, hyphens and slashes.
pub open spec fn is_valid_reference(reference: Seq<char>) -> bool {
    &&& naming::is_canonical_path(reference)
    &&& encode_utf8(reference).len() <= MAX_REFERENCE_LENGTH
    &&& forall|k: int| 0 <= k < reference.len() ==> is_reference_char(#[trigger] reference[k])
}

/// Every logical reference of this provider is one for the other providers too.
pub proof fn references_are_portable(reference: Seq<char>)
    requires
        is_valid_reference(reference),
    ensures
        naming::is_valid_reference(reference),
        encode_utf8(reference).len() == reference.len(),
{
    if reference.contains('\0') {
        let k = reference.index_of('\0');
        assert(is_reference_char(reference[k]));
    }
    assert(is_ascii_chars(reference)) by {
        assert forall|i: int| 0 <= i < reference.len() implies 0 <= #[trigger] reference[i] < 128 by {
            assert(is_reference_char(reference[i]));
        }
    }
    is_ascii_chars_encode_utf8(reference);
}

/// Whether `reference` is a logical reference.
pub fn valid_reference(reference: &str) -> (valid: bool)
    ensures
        valid == is_valid_reference(reference@),
{
    let chars = chars_of(reference);
    if reference.as_bytes().len() > MAX_REFERENCE_LENGTH || !canonical_path(&chars) {
        return false;
    }
    let mut i: usize = 0;
    while i < chars.len()
        invariant
            chars@ == reference@,
            i <= chars.len(),
            forall|k: int| 0 <= k < i ==> is_reference_char(#[trigger] chars@[k]),
        decreases chars.len() - i,
    {
        let c = chars[i];
        if !(('A' <= c && c <= 'Z') || ('a' <= c && c <= 'z') || ('0' <= c && c <= '9') || c == '.'
            || c == '_' || c == '-' || c == '/') {
            return false;
        }
        i += 1;
    }
    true
}

/// A portable environment-variable name: ASCII letters, digits and underscores, at least one of
/// them, and no digit in front.
pub open spec fn is_environment_variable(name: Seq<char>) -> bool {
    &&& name.len() > 0
    &&& !naming::is_digit(name[0])
    &&& forall|k: int|
        0 <= k < name.len() ==> naming::is_upper(#[trigger] name[k]) || naming::is_lower(name[k])
            || naming::is_digit(name[k]) || name[k] == '_'
}

/// Whether `name` is a portable environment-variable name.
pub fn valid_environment_variable(name: &str) -> (valid: bool)
    ensures
        valid == is_environment_variable(name@),
{
    let chars = chars_of(name);
    if chars.len() == 0 || ('0' <= chars[0] && chars[0] <= '9') {
        return false;
    }
    let mut i: usize = 0;
    while i < chars.len()
        invariant
            chars@ == name@,
            i <= chars.len(),
            forall|k: int|
                0 <= k < i ==> naming::is_upper(#[trigger] chars@[k]) || naming::is_lower(chars@[k])
                    || naming::is_digit(chars@[k]) || chars@[k] == '_',
        decreases chars.len() - i,
    {
        let c = chars[i];
        if !(('A' <= c && c <= 'Z') || ('a' <= c && c <= 'z') || ('0' <= c && c <= '9') || c == '_') {
            return false;
        }
        i += 1;
    }
    true
}

/// What is wrong with a binding.
pub open spec fn binding_error(row: (Seq<char>, Seq<char>)) -> Option<EnvSecretsConfigError> {
    if !is_valid_reference(row.0) {
        Some(EnvSecretsConfigError::InvalidReference)
    } else if !is_environment_variable(row.1) {
        Some(EnvSecretsConfigError::InvalidEnvironmentVariable)
    } else {
        None
    }
}

/// What is wrong with a configuration: that it is empty, or the first binding that is wrong.
pub open spec fn config_error(rows: table::Rows) -> Option<EnvSecretsConfigError> {
    if rows.len() == 0 {
        Some(EnvSecretsConfigError::Empty)
    } else {
        table::first_problem(rows, |row: (Seq<char>, Seq<char>)| binding_error(row))
    }
}

/// What is wrong with one more binding of a configuration.
pub open spec fn insertion_error(
    rows: table::Rows,
    reference: Seq<char>,
    environment_variable: Seq<char>,
) -> Option<EnvSecretsConfigError> {
    if binding_error((reference, environment_variable)) is Some {
        binding_error((reference, environment_variable))
    } else if table::is_bound(rows, reference) {
        Some(EnvSecretsConfigError::DuplicateReference)
    } else {
        None
    }
}

/// `after` is `before` with `reference` bound to `source`, and nothing else changed.
pub open spec fn binds(
    before: table::Rows,
    after: table::Rows,
    reference: Seq<char>,
    source: Seq<char>,
) -> bool {
    &&& table::is_ordered(after)
    &&& after.len() == before.len() + 1
    &&& table::lookup(after, reference) == Some(source)
    &&& forall|other: Seq<char>|
        other != reference ==> #[trigger] table::lookup(after, other) == table::lookup(
            before,
            other,
        )
}

/// The allowlist of one provider: environment variables by logical reference.
#[derive(PartialEq, Eq)]
pub struct EnvSecretsConfig {
    sources: TextTable,
}

impl View for EnvSecretsConfig {
    type V = table::Rows;

    closed spec fn view(&self) -> table::Rows {
        self.sources@
    }
}

impl Clone for EnvSecretsConfig {
    /// A configuration with the same bindings.
    fn clone(&self) -> (config: Self)
        ensures
            config@ == self@,
    {
        EnvSecretsConfig { sources: self.sources.clone() }
    }
}

impl Default for EnvSecretsConfig {
    /// An empty allowlist.
    fn default() -> (config: Self)
        ensures
            config@ == table::Rows::empty(),
    {
        EnvSecretsConfig::new()
    }
}

impl EnvSecretsConfig {
    /// Creates an empty allowlist.
    pub fn new() -> (config: Self)
        ensures
            config@ == table::Rows::empty(),
    {
        EnvSecretsConfig { sources: TextTable::new() }
    }

    /// The allowlist of a configuration document, which nobody has checked yet.
    pub fn from_references(sources: TextTable) -> (config: Self)
        ensures
            config@ == sources@,
    {
        EnvSecretsConfig { sources }
    }

    /// Adds one required logical reference and its environment source.
    pub fn insert(&mut self, reference: &str, environment_variable: &str) -> (outcome: Result<
        (),
        EnvSecretsConfigError,
    >)
        ensures
            table::is_ordered(old(self)@),
            match insertion_error(old(self)@, reference@, environment_variable@) {
                Some(error) => outcome == Err::<(), EnvSecretsConfigError>(error) && final(self)@
                    == old(self)@,
                None => outcome is Ok && binds(
                    old(self)@,
                    final(self)@,
                    reference@,
                    environment_variable@,
                ),
            },
    {
        proof {
            use_type_invariant(&self.sources);
        }
        if !valid_reference(reference) {
            return Err(EnvSecretsConfigError::InvalidReference);
        }
        if !valid_environment_variable(environment_variable) {
            return Err(EnvSecretsConfigError::InvalidEnvironmentVariable);
        }
        if self.sources.insert(reference.to_owned(), environment_variable.to_owned()) {
            Ok(())
        } else {
            Err(EnvSecretsConfigError::DuplicateReference)
        }
    }

    /// Adds one required mapping through a consuming builder style.
    pub fn with_reference(self, reference: &str, environment_variable: &str) -> (outcome: Result<
        Self,
        EnvSecretsConfigError,
    >)
        ensures
            table::is_ordered(self@),
            match insertion_error(self@, reference@, environment_variable@) {
                Some(error) => outcome == Err::<Self, EnvSecretsConfigError>(error),
                None => outcome is Ok && binds(
                    self@,
                    outcome->Ok_0@,
                    reference@,
                    environment_variable@,
                ),
            },
    {
        let mut config = self;
        match config.insert(reference, environment_variable) {
            Ok(()) => Ok(config),
            Err(error) => Err(error),
        }
    }

    /// Returns whether no references are configured.
    pub fn is_empty(&self) -> (empty: bool)
        ensures
            empty == (self@.len() == 0),
    {
        self.sources.is_empty()
    }

    /// Returns the number of explicitly configured references.
    pub fn len(&self) -> (len: usize)
        ensures
            len == self@.len(),
    {
        self.sources.len()
    }

    /// The bindings, in the order of their references.
    pub fn references(&self) -> (references: &TextTable)
        ensures
            references@ == self@,
    {
        &self.sources
    }

    /// The environment variable bound to `reference`.
    pub fn source_for(&self, reference: &str) -> (source: Option<&str>)
        ensures
            table::is_ordered(self@),
            source is Some <==> table::lookup(self@, reference@) is Some,
            source is Some ==> Some(source->0@) == table::lookup(self@, reference@),
    {
        match self.sources.get(reference) {
            Some(source) => Some(source.as_str()),
            None => None,
        }
    }

    /// Checks the configuration.
    pub fn validate(&self) -> (outcome: Result<(), EnvSecretsConfigError>)
        ensures
            table::is_ordered(self@),
            outcome == match config_error(self@) {
                Some(error) => Err::<(), EnvSecretsConfigError>(error),
                None => Ok(()),
            },
    {
        proof {
            use_type_invariant(&self.sources);
        }
        if self.sources.is_empty() {
            return Err(EnvSecretsConfigError::Empty);
        }
        let ghost problem = |row: (Seq<char>, Seq<char>)| binding_error(row);
        let ghost rows = self@;
        let ghost expected = config_error(self@);
        let mut i: usize = 0;
        assert(rows.take(0) =~= table::Rows::empty());
        while i < self.sources.len()
            invariant
                table::is_ordered(rows),
                rows == self.sources@,
                rows == self@,
                problem == (|row: (Seq<char>, Seq<char>)| binding_error(row)),
                expected == table::first_problem(rows, problem),
                expected == config_error(self@),
                i <= rows.len(),
                table::first_problem(rows.take(i as int), problem) is None,
            decreases rows.len() - i,
        {
            proof {
                table::first_problem_step(rows, i as int, problem);
            }
            if !valid_reference(self.sources.name_at(i).as_str()) {
                return Err(EnvSecretsConfigError::InvalidReference);
            }
            if !valid_environment_variable(self.sources.value_at(i).as_str()) {
                return Err(EnvSecretsConfigError::InvalidEnvironmentVariable);
            }
            i += 1;
        }
        assert(rows.take(i as int) =~= rows);
        Ok(())
    }
}

/// A configuration to which valid bindings are added one by one passes its check: adding a binding
/// to a configuration that is empty or passes gives one that passes.
pub proof fn inserted_bindings_validate(
    before: table::Rows,
    after: table::Rows,
    reference: Seq<char>,
    environment_variable: Seq<char>,
)
    requires
        before.len() == 0 || config_error(before) is None,
        insertion_error(before, reference, environment_variable) is None,
        binds(before, after, reference, environment_variable),
    ensures
        config_error(after) is None,
{
    let problem = |row: (Seq<char>, Seq<char>)| binding_error(row);
    table::first_problem_is_first(before, problem);
    table::first_problem_is_first(after, problem);
    assert forall|i: int| 0 <= i < after.len() implies problem(#[trigger] after[i]) is None by {
        table::lookup_of_row(after, i);
        if after[i].0 != reference {
            assert(table::lookup(after, after[i].0) == table::lookup(before, after[i].0));
            let j = table::row_of(before, after[i].0);
            assert(problem(before[j]) is None);
            assert(before[j] == after[i]);
        }
    }
}

/// How `{:?}` writes a text: between quotation marks, with escapes.
pub uninterp spec fn debug_quoted(text: Seq<char>) -> Seq<char>;

/// Quotes a text for a diagnostic.
///
/// Calls the `Debug` formatting of `str` through `format!`. The contract names the result, which
/// depends on the text alone.
#[verifier::external_body]
fn quote(text: &str) -> (quoted: String)
    ensures
        quoted@ == debug_quoted(text@),
{
    format!("{:?}", text)
}

/// The quoted names of these rows, with a comma and a space between them.
pub open spec fn quoted_names(rows: table::Rows) -> Seq<char>
    decreases rows.len(),
{
    if rows.len() == 0 {
        Seq::empty()
    } else if rows.len() == 1 {
        debug_quoted(rows[0].0)
    } else {
        quoted_names(rows.drop_last()) + ", "@ + debug_quoted(rows.last().0)
    }
}

/// What stands in a diagnostic for a configuration: its logical references.
pub open spec fn config_debug_text(rows: table::Rows) -> Seq<char> {
    "EnvSecretsConfig { references: ["@ + quoted_names(rows) + "] }"@
}

/// A diagnostic of a configuration does not show which environment variables it reads.
pub proof fn diagnostics_hide_sources(a: table::Rows, b: table::Rows)
    requires
        a.len() == b.len(),
        forall|i: int| 0 <= i < a.len() ==> (#[trigger] a[i]).0 == b[i].0,
    ensures
        config_debug_text(a) == config_debug_text(b),
{
    quoted_names_ignore_sources(a, b);
}

proof fn quoted_names_ignore_sources(a: table::Rows, b: table::Rows)
    requires
        a.len() == b.len(),
        forall|i: int| 0 <= i < a.len() ==> (#[trigger] a[i]).0 == b[i].0,
    ensures
        quoted_names(a) == quoted_names(b),
    decreases a.len(),
{
    if a.len() > 0 {
        assert(a[a.len() - 1].0 == b[a.len() - 1].0);
        assert(a[0].0 == b[0].0);
        assert forall|i: int| 0 <= i < a.drop_last().len() implies (#[trigger] a.drop_last()[i]).0
            == b.drop_last()[i].0 by {
            assert(a[i].0 == b[i].0);
        }
        quoted_names_ignore_sources(a.drop_last(), b.drop_last());
    }
}

impl EnvSecretsConfig {
    /// The diagnostic text of the configuration: its logical references, without their sources.
    pub fn debug_text(&self) -> (text: String)
        ensures
            text@ == config_debug_text(self@),
    {
        let ghost rows = self@;
        let mut names = String::new();
        let mut i: usize = 0;
        assert(rows.take(0) =~= table::Rows::empty());
        while i < self.sources.len()
            invariant
                rows == self.sources@,
                i <= rows.len(),
                names@ == quoted_names(rows.take(i as int)),
            decreases rows.len() - i,
        {
            proof {
                assert(rows.take(i + 1).drop_last() =~= rows.take(i as int));
                assert(rows.take(i + 1).last() == rows[i as int]);
            }
            if i > 0 {
                names.append(", ");
            }
            names.append(quote(self.sources.name_at(i).as_str()).as_str());
            i += 1;
            assert(names@ =~= quoted_names(rows.take(i as int)));
        }
        assert(rows.take(i as int) =~= rows);
        surround("EnvSecretsConfig { references: [", names.as_str(), "] }")
    }
}

/// An environment variable that cannot be read.
#[derive(Clone, Copy, Debug, PartialEq, Eq, Structural)]
pub struct SourceUnavailable;

/// Where environment variables are read from.
pub trait SecretSource {
    /// The value of this environment variable.
    fn read(&self, environment_variable: &str) -> Result<String, SourceUnavailable>;
}

/// The source may give this value for an environment variable, or none.
pub open spec fn gives<S: SecretSource>(
    source: S,
    environment_variable: Seq<char>,
    value: Option<Seq<char>>,
) -> bool {
    exists|name: &str, got: Result<String, SourceUnavailable>|
        name@ == environment_variable && #[trigger] call_ensures(S::read, (&source, name), got)
            && value == capability::text_of(got)
}

/// The environment variables of a process, as the bytes of the operating system.
pub trait ProcessVariables {
    /// The value of this environment variable now, if it is set.
    fn variable(&self, name: &str) -> Option<Vec<u8>>;
}

/// The process may have this environment variable set to these bytes, or not set.
pub open spec fn sets<V: ProcessVariables>(
    variables: V,
    name: Seq<char>,
    value: Option<Seq<u8>>,
) -> bool {
    exists|asked: &str, got: Option<Vec<u8>>|
        asked@ == name && #[trigger] call_ensures(V::variable, (&variables, asked), got) && value
            == text::stored(got)
}

/// What reading an environment variable may give: the text that the process has it set to.
pub open spec fn reads_variable<V: ProcessVariables>(
    variables: V,
    name: Seq<char>,
    text: Option<Seq<char>>,
) -> bool {
    exists|value: Option<Seq<u8>>| #[trigger] sets(variables, name, value) && text == text::text_in(value)
}

/// The source that reads the environment of a process.
#[derive(Debug)]
pub struct ProcessEnvironment<V> {
    /// The environment variables of the process.
    pub variables: V,
}

impl<V: ProcessVariables> SecretSource for ProcessEnvironment<V> {
    /// The text that the process has this environment variable set to.
    fn read(&self, environment_variable: &str) -> (value: Result<String, SourceUnavailable>)
        ensures
            reads_variable(self.variables, environment_variable@, capability::text_of(value)),
    {
        let got = self.variables.variable(environment_variable);
        assert(sets(self.variables, environment_variable@, text::stored(got)));
        match got {
            Some(bytes) => match text_from_utf8(bytes) {
                Ok(text) => Ok(text),
                Err(()) => Err(SourceUnavailable),
            },
            None => Err(SourceUnavailable),
        }
    }
}

impl<V: Default> Default for ProcessEnvironment<V> {
    /// The source over the variables that are the default of their kind.
    fn default() -> (source: Self)
        ensures
            call_ensures(V::default, (), source.variables),
    {
        ProcessEnvironment { variables: V::default() }
    }
}

impl<V: Clone> Clone for ProcessEnvironment<V> {
    /// The source over the same variables.
    fn clone(&self) -> (source: Self)
        ensures
            cloned(self.variables, source.variables),
    {
        ProcessEnvironment { variables: self.variables.clone() }
    }
}

/// The text for a reference whose source is lost.
pub open spec fn unavailable_text(reference: Seq<char>) -> Seq<char> {
    "configured secret reference `"@ + reference + "` is unavailable"@
}

/// What reading a source, which gave `value` or nothing, means for `reference`.
pub open spec fn reading(reference: Seq<char>, value: Option<Seq<char>>) -> Result<
    Seq<char>,
    capability::FailureView,
> {
    match value {
        Some(found) => Ok(found),
        None => Err(capability::FailureView::ModuleFailure(unavailable_text(reference))),
    }
}

/// The outcome of reading a reference as a mathematical value.
pub open spec fn read_outcome(outcome: Result<String, RuntimeFailure>) -> Result<
    Seq<char>,
    capability::FailureView,
> {
    match outcome {
        Ok(value) => Ok(value@),
        Err(failure) => Err(failure@),
    }
}

/// Hands on what the source gave for `reference`, or fails with the name of the reference.
pub fn conclude_read(reference: &str, value: Result<String, SourceUnavailable>) -> (outcome: Result<
    String,
    RuntimeFailure,
>)
    ensures
        read_outcome(outcome) == reading(reference@, capability::text_of(value)),
{
    match value {
        Ok(found) => Ok(found),
        Err(SourceUnavailable) => Err(
            RuntimeFailure::ModuleFailure {
                detail: surround("configured secret reference `", reference, "` is unavailable"),
            },
        ),
    }
}

/// Reading the environment variable bound to `reference` may have this outcome.
pub open spec fn asks<S: SecretSource>(
    source: S,
    reference: Seq<char>,
    environment_variable: Seq<char>,
    outcome: Result<Seq<char>, capability::FailureView>,
) -> bool {
    exists|value: Option<Seq<char>>| #[trigger]
        gives(source, environment_variable, value) && outcome == reading(reference, value)
}

/// Reading `reference` may have this outcome: the environment variable bound to it is read, and
/// where none is bound, nothing is.
pub open spec fn reads<S: SecretSource>(
    rows: table::Rows,
    source: S,
    reference: Seq<char>,
    outcome: Result<Seq<char>, capability::FailureView>,
) -> bool {
    match table::lookup(rows, reference) {
        Some(environment_variable) => asks(source, reference, environment_variable, outcome),
        None => outcome == Err::<Seq<char>, capability::FailureView>(
            capability::FailureView::Internal(
                "Env Secrets attempted to read an unbound reference"@,
            ),
        ),
    }
}

/// The answer to a request as a mathematical value: the secret, a refusal, or a failure.
pub open spec fn answered(
    outcome: Result<Result<ResolveResponse, ResolveError>, RuntimeFailure>,
) -> Result<Result<Seq<char>, ResolveError>, capability::FailureView> {
    match outcome {
        Ok(Ok(response)) => Ok(Ok(response.value@)),
        Ok(Err(error)) => Ok(Err(error)),
        Err(failure) => Err(failure@),
    }
}

/// The answer that reading a bound reference with this outcome gives.
pub open spec fn answer(outcome: Result<Seq<char>, capability::FailureView>) -> Result<
    Result<Seq<char>, ResolveError>,
    capability::FailureView,
> {
    match outcome {
        Ok(value) => Ok(Ok(value)),
        Err(failure) => Err(failure),
    }
}

/// A bound and well-formed reference may be answered in this way.
pub open spec fn answers<S: SecretSource>(
    rows: table::Rows,
    source: S,
    reference: Seq<char>,
    answered: Result<Result<Seq<char>, ResolveError>, capability::FailureView>,
) -> bool {
    exists|outcome: Result<Seq<char>, capability::FailureView>| #[trigger]
        reads(rows, source, reference, outcome) && answered == answer(outcome)
}

/// Resolving `reference` may be answered in this way: a reference that is malformed or unbound is
/// refused, and for another the environment variable bound to it is read.
pub open spec fn resolves<S: SecretSource>(
    rows: table::Rows,
    source: S,
    reference: Seq<char>,
    answered: Result<Result<Seq<char>, ResolveError>, capability::FailureView>,
) -> bool {
    if !is_valid_reference(reference) {
        answered == Ok::<Result<Seq<char>, ResolveError>, capability::FailureView>(
            Err(ResolveError::InvalidReference),
        )
    } else if !table::is_bound(rows, reference) {
        answered == Ok::<Result<Seq<char>, ResolveError>, capability::FailureView>(
            Err(ResolveError::UnknownReference),
        )
    } else {
        answers(rows, source, reference, answered)
    }
}

/// The provider: its allowlist, and the source that it reads.
pub struct EnvSecretsProvider<S> {
    /// The allowlist.
    pub config: EnvSecretsConfig,
    /// The source.
    pub source: S,
}

impl<S: SecretSource> EnvSecretsProvider<S> {
    /// A provider over this allowlist and this source.
    pub fn new(config: EnvSecretsConfig, source: S) -> (provider: Self)
        ensures
            provider.config == config,
            provider.source == source,
    {
        EnvSecretsProvider { config, source }
    }

    /// The diagnostic text of the provider: its logical references.
    pub fn debug_text(&self) -> (text: String)
        ensures
            text@ == "EnvSecretsProvider { config: "@ + config_debug_text(self.config@)
                + ", .. }"@,
    {
        surround("EnvSecretsProvider { config: ", self.config.debug_text().as_str(), ", .. }")
    }

    /// Reads the environment variable bound to `reference`.
    pub fn read(&self, reference: &str) -> (outcome: Result<String, RuntimeFailure>)
        ensures
            table::is_ordered(self.config@),
            reads(self.config@, self.source, reference@, read_outcome(outcome)),
    {
        match self.config.source_for(reference) {
            Some(environment_variable) => {
                let value = self.source.read(environment_variable);
                assert(gives(self.source, environment_variable@, capability::text_of(value)));
                let outcome = conclude_read(reference, value);
                assert(asks(
                    self.source,
                    reference@,
                    environment_variable@,
                    read_outcome(outcome),
                ));
                outcome
            },
            None => Err(
                RuntimeFailure::Internal {
                    detail: "Env Secrets attempted to read an unbound reference".to_owned(),
                },
            ),
        }
    }

    /// Reads every configured reference once, in order, and fails with the first that cannot be
    /// read.
    pub fn verify_sources(&self) -> (outcome: Result<(), RuntimeFailure>)
        ensures
            table::is_ordered(self.config@),
            prepares(self.config@, self.source, capability::checked(outcome)),
    {
        proof {
            use_type_invariant(&self.config.sources);
        }
        let mut i: usize = 0;
        while i < self.config.sources.len()
            invariant
                table::is_ordered(self.config@),
                i <= self.config@.len(),
                self.config@ == self.config.sources@,
                forall|j: int|
                    0 <= j < i ==> #[trigger] verifies(self.config@, self.source, j, None),
            decreases self.config@.len() - i,
        {
            let read = self.read(self.config.sources.name_at(i).as_str());
            let ghost failure = match read_outcome(read) {
                Ok(_) => None,
                Err(failure) => Some(failure),
            };
            assert(verifies(self.config@, self.source, i as int, failure));
            match read {
                Ok(_) => {},
                Err(failure) => {
                    return Err(failure);
                },
            }
            i += 1;
        }
        Ok(())
    }

    /// Answers a request: a reference that is malformed or unbound is refused, and for another
    /// the environment variable bound to it is read afresh.
    pub fn resolve(&self, request: &ResolveRequest) -> (outcome: Result<
        Result<ResolveResponse, ResolveError>,
        RuntimeFailure,
    >)
        ensures
            table::is_ordered(self.config@),
            resolves(self.config@, self.source, request.reference@, answered(outcome)),
    {
        proof {
            use_type_invariant(&self.config.sources);
        }
        let reference = request.reference.as_str();
        if !valid_reference(reference) {
            return Ok(Err(ResolveError::InvalidReference));
        }
        if self.config.source_for(reference).is_none() {
            return Ok(Err(ResolveError::UnknownReference));
        }
        match self.read(reference) {
            Ok(value) => {
                assert(reads(self.config@, self.source, reference@, Ok(value@)));
                Ok(Ok(ResolveResponse { value }))
            },
            Err(failure) => {
                assert(reads(self.config@, self.source, reference@, Err(failure@)));
                Err(failure)
            },
        }
    }
}

/// Reading the reference in row `i` may mean this for preparation.
pub open spec fn verifies<S: SecretSource>(
    rows: table::Rows,
    source: S,
    i: int,
    failure: Option<capability::FailureView>,
) -> bool {
    exists|outcome: Result<Seq<char>, capability::FailureView>| #[trigger]
        reads(rows, source, rows[i].0, outcome) && failure == match outcome {
            Ok(_) => None,
            Err(found) => Some(found),
        }
}

/// Preparation may have this outcome: every row verifies, or the failure is that of the first row
/// that does not.
pub open spec fn prepares<S: SecretSource>(
    rows: table::Rows,
    source: S,
    outcome: Result<(), capability::FailureView>,
) -> bool {
    match outcome {
        Ok(_) => forall|i: int|
            0 <= i < rows.len() ==> #[trigger] verifies(rows, source, i, None),
        Err(failure) => exists|k: int|
            0 <= k < rows.len() && #[trigger] verifies(rows, source, k, Some(failure)) && forall|
                i: int,
            |
                0 <= i < k ==> #[trigger] verifies(rows, source, i, None),
    }
}

/// Where preparation fails, the source gave nothing for a configured environment variable, and
/// the failure names the reference bound to it.
pub proof fn preparation_fails_over_missing_variables<S: SecretSource>(
    rows: table::Rows,
    source: S,
    i: int,
    failure: capability::FailureView,
)
    requires
        table::is_ordered(rows),
        0 <= i < rows.len(),
        verifies(rows, source, i, Some(failure)),
    ensures
        gives(source, rows[i].1, None),
        failure == capability::FailureView::ModuleFailure(unavailable_text(rows[i].0)),
{
    table::lookup_of_row(rows, i);
}

/// Where preparation accepts a configured reference, the source gave a value for the environment
/// variable bound to it.
pub proof fn preparation_reads_every_variable<S: SecretSource>(
    rows: table::Rows,
    source: S,
    i: int,
)
    requires
        table::is_ordered(rows),
        0 <= i < rows.len(),
        verifies(rows, source, i, None),
    ensures
        exists|value: Seq<char>| gives(source, rows[i].1, Some(value)),
{
    table::lookup_of_row(rows, i);
    let outcome = choose|outcome: Result<Seq<char>, capability::FailureView>| #[trigger]
        reads(rows, source, rows[i].0, outcome) && outcome is Ok;
    assert(gives(source, rows[i].1, Some(outcome->Ok_0)));
}

/// The failure text over a reference depends on the reference alone: whatever is bound to it, and
/// whatever the source holds, it says the same.
pub proof fn failure_text_hides_sources<S: SecretSource, T: SecretSource>(
    reference: Seq<char>,
    rows: table::Rows,
    source: S,
    failure: capability::FailureView,
    other_rows: table::Rows,
    other_source: T,
    other_failure: capability::FailureView,
)
    requires
        table::is_bound(rows, reference),
        table::is_bound(other_rows, reference),
        reads(rows, source, reference, Err(failure)),
        reads(other_rows, other_source, reference, Err(other_failure)),
    ensures
        failure == other_failure,
{
}

/// Makes providers over one source.
#[derive(Debug)]
pub struct EnvSecretsFactory<S> {
    /// The source that every provider reads.
    pub source: S,
}

/// What is wrong with a plan that selects this provider: its entrypoint, its document, or the
/// configuration in the document.
pub open spec fn plan_problem(
    entrypoint: Seq<char>,
    parsed: Result<EnvSecretsConfig, String>,
) -> Option<Seq<char>> {
    if entrypoint != "default"@ {
        Some("unsupported Env Secrets Module entrypoint"@)
    } else {
        match parsed {
            Err(error) => Some("Env Secrets Module configuration is invalid: "@ + error@),
            Ok(config) => match config_error(config@) {
                Some(error) => Some(
                    "Env Secrets Module configuration is invalid: "@ + error_text(error),
                ),
                None => None,
            },
        }
    }
}

/// Makes a provider for this entrypoint from the configuration document, if it could be parsed.
pub fn instantiate_with_source<S: SecretSource>(
    entrypoint: &str,
    parsed: Result<EnvSecretsConfig, String>,
    source: S,
) -> (provider: Result<EnvSecretsProvider<S>, RuntimeFailure>)
    ensures
        match provider {
            Ok(made) => plan_problem(entrypoint@, parsed) is None && made.config == parsed->Ok_0
                && made.source == source,
            Err(failure) => plan_problem(entrypoint@, parsed) is Some && failure@
                == capability::FailureView::InvalidResolvedPlan(
                plan_problem(entrypoint@, parsed)->0,
            ),
        },
{
    if !same_text(entrypoint, "default") {
        return Err(
            RuntimeFailure::InvalidResolvedPlan {
                detail: "unsupported Env Secrets Module entrypoint".to_owned(),
            },
        );
    }
    let config = match parsed {
        Ok(config) => config,
        Err(error) => {
            return Err(invalid_configuration(error.as_str()));
        },
    };
    match config.validate() {
        Ok(()) => Ok(EnvSecretsProvider::new(config, source)),
        Err(error) => Err(invalid_configuration(error.message().as_str())),
    }
}

/// The failure over a configuration with this error.
fn invalid_configuration(error: &str) -> (failure: RuntimeFailure)
    ensures
        failure@ == capability::FailureView::InvalidResolvedPlan(
            "Env Secrets Module configuration is invalid: "@ + error@,
        ),
{
    let mut detail: String = "Env Secrets Module configuration is invalid: ".to_owned();
    detail.append(error);
    RuntimeFailure::InvalidResolvedPlan { detail }
}

/// A factory may make this of an entrypoint and a configuration document: a provider over the
/// configuration and a clone of the source of the factory, or a failure that says what is wrong with
/// the plan.
pub open spec fn instantiates<S: Clone>(
    factory: EnvSecretsFactory<S>,
    entrypoint: Seq<char>,
    parsed: Result<EnvSecretsConfig, String>,
    provider: Result<EnvSecretsProvider<S>, RuntimeFailure>,
) -> bool {
    match provider {
        Ok(made) => plan_problem(entrypoint, parsed) is None && made.config == parsed->Ok_0
            && cloned(factory.source, made.source),
        Err(failure) => plan_problem(entrypoint, parsed) is Some && failure@
            == capability::FailureView::InvalidResolvedPlan(plan_problem(entrypoint, parsed)->0),
    }
}

/// `factory` may be what `EnvSecretsFactory::new` makes.
pub open spec fn is_default_factory<S: Default>(factory: EnvSecretsFactory<S>) -> bool {
    call_ensures(S::default, (), factory.source)
}

/// `source` may be a clone of the source that is the default of its kind.
pub open spec fn is_default_source<S: Default + Clone>(source: S) -> bool {
    exists|original: S| #[trigger] call_ensures(S::default, (), original) && cloned(original, source)
}

impl<S: SecretSource> EnvSecretsFactory<S> {
    /// Makes providers over the source that is the default of its kind.
    pub fn new() -> (factory: Self) where S: Default
        ensures
            is_default_factory(factory),
    {
        EnvSecretsFactory { source: S::default() }
    }

    /// Makes providers over this source.
    pub fn with_source(source: S) -> (factory: Self)
        ensures
            factory.source == source,
    {
        EnvSecretsFactory { source }
    }

    /// Makes a provider for this entrypoint from the configuration document, if it could be
    /// parsed.
    pub fn instantiate(&self, entrypoint: &str, parsed: Result<EnvSecretsConfig, String>) -> (provider:
        Result<EnvSecretsProvider<S>, RuntimeFailure>) where S: Clone
        ensures
            instantiates(*self, entrypoint@, parsed, provider),
    {
        instantiate_with_source(entrypoint, parsed, self.source.clone())
    }
}

impl<S: Clone> Clone for EnvSecretsFactory<S> {
    /// Makes providers over a clone of the source.
    fn clone(&self) -> (factory: Self)
        ensures
            cloned(self.source, factory.source),
    {
        EnvSecretsFactory { source: self.source.clone() }
    }
}

impl<S: SecretSource + Default> Default for EnvSecretsFactory<S> {
    /// Makes providers over the source that is the default of its kind.
    fn default() -> (factory: Self)
        ensures
            is_default_factory(factory),
    {
        EnvSecretsFactory::new()
    }
}

/// A bound and well-formed reference is never refused and never answered from elsewhere: its secret
/// is what the source gave for the environment variable bound to it, and where the source gave
/// nothing, the answer is a failure that names the reference.
pub proof fn answers_come_from_the_bound_variable<S: SecretSource>(
    rows: table::Rows,
    source: S,
    reference: Seq<char>,
    answered: Result<Result<Seq<char>, ResolveError>, capability::FailureView>,
)
    requires
        table::is_bound(rows, reference),
        answers(rows, source, reference, answered),
    ensures
        answered is Ok ==> answered->Ok_0 is Ok && gives(
            source,
            table::lookup(rows, reference)->0,
            Some(answered->Ok_0->Ok_0),
        ),
        answered is Err ==> answered->Err_0 == capability::FailureView::ModuleFailure(
            unavailable_text(reference),
        ) && gives(source, table::lookup(rows, reference)->0, None),
{
}

/// In a configuration that passes its check every bound reference is well formed.
pub proof fn configured_references_are_valid(rows: table::Rows, reference: Seq<char>)
    requires
        config_error(rows) is None,
        table::is_bound(rows, reference),
    ensures
        is_valid_reference(reference),
{
    let problem = |row: (Seq<char>, Seq<char>)| binding_error(row);
    table::first_problem_is_first(rows, problem);
    assert(problem(rows[table::row_of(rows, reference)]) is None);
}

/// A provider that a factory made by `new` instantiates answers every bound reference with what a
/// clone of the default source gives for the environment variable bound to it, and with a module
/// failure where that gives nothing.
pub proof fn default_providers_answer_from_the_default_source<
    S: SecretSource + Default + Clone,
>(
    factory: EnvSecretsFactory<S>,
    entrypoint: Seq<char>,
    parsed: Result<EnvSecretsConfig, String>,
    provider: EnvSecretsProvider<S>,
    reference: Seq<char>,
    answered: Result<Result<Seq<char>, ResolveError>, capability::FailureView>,
)
    requires
        is_default_factory(factory),
        instantiates(factory, entrypoint, parsed, Ok(provider)),
        table::is_bound(provider.config@, reference),
        resolves(provider.config@, provider.source, reference, answered),
    ensures
        is_default_source(provider.source),
        exists|value: Option<Seq<char>>| #[trigger]
            gives(provider.source, table::lookup(provider.config@, reference)->0, value)
                && answered == answer(reading(reference, value)),
{
    configured_references_are_valid(provider.config@, reference);
    let outcome = choose|outcome: Result<Seq<char>, capability::FailureView>| #[trigger]
        reads(provider.config@, provider.source, reference, outcome) && answered == answer(outcome);
    let variable = table::lookup(provider.config@, reference)->0;
    let value = choose|value: Option<Seq<char>>| #[trigger]
        gives(provider.source, variable, value) && outcome == reading(reference, value);
    assert(gives(provider.source, variable, value));
}

/// Over the environment of a process, a provider that a factory made by `new` instantiates answers
/// every bound reference from the environment variable bound to it, as the process has it set at
/// that time: with its text if it is set to text, the empty text included, and else with a module
/// failure that names the reference.
pub proof fn default_providers_answer_from_the_process_environment<
    V: ProcessVariables + Default + Clone,
>(
    factory: EnvSecretsFactory<ProcessEnvironment<V>>,
    entrypoint: Seq<char>,
    parsed: Result<EnvSecretsConfig, String>,
    provider: EnvSecretsProvider<ProcessEnvironment<V>>,
    reference: Seq<char>,
    answered: Result<Result<Seq<char>, ResolveError>, capability::FailureView>,
)
    requires
        is_default_factory(factory),
        instantiates(factory, entrypoint, parsed, Ok(provider)),
        table::is_bound(provider.config@, reference),
        resolves(provider.config@, provider.source, reference, answered),
    ensures
        is_default_source(provider.source.variables),
        exists|value: Option<Seq<u8>>| #[trigger]
            sets(
                provider.source.variables,
                table::lookup(provider.config@, reference)->0,
                value,
            ) && answered == match text::text_in(value) {
                Some(text) => Ok::<Result<Seq<char>, ResolveError>, capability::FailureView>(
                    Ok(text),
                ),
                None => Err(capability::FailureView::ModuleFailure(unavailable_text(reference))),
            },
{
    default_providers_answer_from_the_default_source(
        factory,
        entrypoint,
        parsed,
        provider,
        reference,
        answered,
    );
    assert(call_ensures(V::default, (), factory.source.variables));
    let variable = table::lookup(provider.config@, reference)->0;
    let text = choose|text: Option<Seq<char>>| #[trigger]
        gives(provider.source, variable, text) && answered == answer(reading(reference, text));
    assert(reads_variable(provider.source.variables, variable, text));
}

} // verus!
