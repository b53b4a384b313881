//! The `lenso.secrets@1` capability: what is asked, what is answered, and how a request fails.

use crate::naming;
use crate::naming::valid_reference;
use crate::table;
use crate::table::TextTable;
use crate::text::surround;
use vstd::prelude::*;
use vstd::string::*;

verus! {

/// Identity of the capability that every provider offers.
pub const CAPABILITY_ID: &'static str = "lenso.secrets@1";

/// Asks for the secret behind one logical reference.
#[derive(Debug, PartialEq, Eq)]
pub struct ResolveRequest {
    /// The logical reference.
    pub reference: String,
}

/// Carries one resolved secret.
///
/// It has no `Debug` text of its own: `debug_text` stands in, and does not show the value.
#[derive(PartialEq, Eq)]
pub struct ResolveResponse {
    /// The secret.
    pub value: String,
}

/// What stands in a diagnostic for a response.
pub open spec fn redacted_response() -> Seq<char> {
    "ResolveResponse { value: [REDACTED] }"@
}

impl ResolveResponse {
    /// The diagnostic text of the response: the same for every secret.
    pub fn debug_text(&self) -> (text: String)
        ensures
            text@ == redacted_response(),
    {
        "ResolveResponse { value: [REDACTED] }".to_owned()
    }
}

/// A refusal that the caller of the capability sees as part of its answer.
#[derive(Clone, Copy, Debug, PartialEq, Eq, Structural)]
pub enum ResolveError {
    /// The reference is malformed.
    InvalidReference,
    /// The reference is well formed, but nothing is bound to it.
    UnknownReference,
}

/// A failure of the runtime, kept apart from the refusals of the capability.
#[derive(Debug, PartialEq, Eq)]
pub enum RuntimeFailure {
    /// The resolved plan holds a configuration that cannot be used.
    InvalidResolvedPlan {
        /// What is wrong with it.
        detail: String,
    },
    /// The provider is not prepared.
    Unavailable {
        /// The capability that is not offered now.
        capability: &'static str,
    },
    /// A module reported a failure.
    ModuleFailure {
        /// What failed.
        detail: String,
    },
    /// A plugin reported a failure.
    PluginFailure {
        /// What failed.
        detail: String,
    },
    /// Something that a check made before should have ruled out.
    Internal {
        /// What happened.
        detail: String,
    },
}

/// A runtime failure as a mathematical value.
pub enum FailureView {
    /// See `RuntimeFailure::InvalidResolvedPlan`.
    InvalidResolvedPlan(Seq<char>),
    /// See `RuntimeFailure::Unavailable`.
    Unavailable(Seq<char>),
    /// See `RuntimeFailure::ModuleFailure`.
    ModuleFailure(Seq<char>),
    /// See `RuntimeFailure::PluginFailure`.
    PluginFailure(Seq<char>),
    /// See `RuntimeFailure::Internal`.
    Internal(Seq<char>),
}

impl View for RuntimeFailure {
    type V = FailureView;

    open spec fn view(&self) -> FailureView {
        match self {
            RuntimeFailure::InvalidResolvedPlan { detail } => FailureView::InvalidResolvedPlan(
                detail@,
            ),
            RuntimeFailure::Unavailable { capability } => FailureView::Unavailable(capability@),
            RuntimeFailure::ModuleFailure { detail } => FailureView::ModuleFailure(detail@),
            RuntimeFailure::PluginFailure { detail } => FailureView::PluginFailure(detail@),
            RuntimeFailure::Internal { detail } => FailureView::Internal(detail@),
        }
    }
}

/// Why a request was not answered with a secret.
#[derive(Debug, PartialEq, Eq)]
pub enum PluginError {
    /// The capability refuses the request.
    Domain(ResolveError),
    /// The runtime failed.
    Runtime(RuntimeFailure),
}

/// A plugin error as a mathematical value.
pub enum ErrorView {
    /// See `PluginError::Domain`.
    Domain(ResolveError),
    /// See `PluginError::Runtime`.
    Runtime(FailureView),
}

impl View for PluginError {
    type V = ErrorView;

    open spec fn view(&self) -> ErrorView {
        match self {
            PluginError::Domain(error) => ErrorView::Domain(*error),
            PluginError::Runtime(failure) => ErrorView::Runtime(failure@),
        }
    }
}

/// The outcome of a check as a mathematical value.
pub open spec fn checked(outcome: Result<(), RuntimeFailure>) -> Result<(), FailureView> {
    match outcome {
        Ok(()) => Ok(()),
        Err(failure) => Err(failure@),
    }
}

/// The outcome of a request as a mathematical value: the secret, or why there is none.
pub open spec fn answered(outcome: Result<ResolveResponse, PluginError>) -> Result<
    Seq<char>,
    ErrorView,
> {
    match outcome {
        Ok(response) => Ok(response.value@),
        Err(error) => Err(error@),
    }
}

/// The outcome of reading a source as a mathematical value: the text, or that there is none.
pub open spec fn text_of<E>(outcome: Result<String, E>) -> Option<Seq<char>> {
    match outcome {
        Ok(text) => Some(text@),
        Err(_) => None,
    }
}

/// The outcome of a check that finds `problem` in a configuration.
pub open spec fn refusal(problem: Option<Seq<char>>) -> Result<(), FailureView> {
    match problem {
        Some(detail) => Err(FailureView::InvalidResolvedPlan(detail)),
        None => Ok(()),
    }
}

/// A failure over a configuration.
pub fn invalid_plan(detail: &str) -> (failure: RuntimeFailure)
    ensures
        failure@ == FailureView::InvalidResolvedPlan(detail@),
{
    RuntimeFailure::InvalidResolvedPlan { detail: detail.to_owned() }
}

/// The text that refuses a second binding of `reference`.
pub open spec fn duplicate_text(reference: Seq<char>) -> Seq<char> {
    "duplicate logical secret reference `"@ + reference + "`"@
}

/// Binds one more logical reference of a configuration document. A reference that is bound
/// already is refused, and keeps its source.
pub fn bind_reference(references: &mut TextTable, reference: String, source: String) -> (outcome:
    Result<(), String>)
    ensures
        outcome is Ok <==> !table::is_bound(old(references)@, reference@),
        outcome is Err ==> outcome->Err_0@ == duplicate_text(reference@),
        outcome is Err ==> final(references)@ == old(references)@,
        outcome is Ok ==> final(references)@.len() == old(references)@.len() + 1,
        outcome is Ok ==> table::lookup(final(references)@, reference@) == Some(source@),
        forall|other: Seq<char>|
            other != reference@ ==> #[trigger] table::lookup(final(references)@, other)
                == table::lookup(old(references)@, other),
        table::is_ordered(old(references)@),
        table::is_ordered(final(references)@),
{
    let refusal = surround("duplicate logical secret reference `", reference.as_str(), "`");
    if references.insert(reference, source) {
        Ok(())
    } else {
        Err(refusal)
    }
}

/// The source bound to `reference`, or the refusal of a reference that is malformed or unbound.
pub open spec fn bound_source(rows: table::Rows, reference: Seq<char>) -> Result<
    Seq<char>,
    ResolveError,
> {
    if !naming::is_valid_reference(reference) {
        Err(ResolveError::InvalidReference)
    } else {
        match table::lookup(rows, reference) {
            Some(source) => Ok(source),
            None => Err(ResolveError::UnknownReference),
        }
    }
}

/// A malformed reference and a well-formed one that is not bound are refused in different ways, and
/// no other reference is refused.
pub proof fn refusals_are_distinct(rows: table::Rows, reference: Seq<char>)
    ensures
        bound_source(rows, reference) == Err::<Seq<char>, ResolveError>(
            ResolveError::InvalidReference,
        ) <==> !naming::is_valid_reference(reference),
        bound_source(rows, reference) == Err::<Seq<char>, ResolveError>(
            ResolveError::UnknownReference,
        ) <==> naming::is_valid_reference(reference) && !table::is_bound(rows, reference),
        bound_source(rows, reference) is Ok <==> naming::is_valid_reference(reference)
            && table::is_bound(rows, reference),
{
}

/// Finds the source bound to `reference`.
pub fn find_source<'a>(references: &'a TextTable, reference: &str) -> (source: Result<
    &'a String,
    ResolveError,
>)
    ensures
        table::is_ordered(references@),
        match source {
            Ok(found) => bound_source(references@, reference@) == Ok::<Seq<char>, ResolveError>(
                found@,
            ),
            Err(error) => bound_source(references@, reference@) == Err::<Seq<char>, ResolveError>(
                error,
            ),
        },
{
    proof {
        use_type_invariant(references);
    }
    if !valid_reference(reference) {
        return Err(ResolveError::InvalidReference);
    }
    match references.get(reference) {
        Some(source) => Ok(source),
        None => Err(ResolveError::UnknownReference),
    }
}

} // verus!
