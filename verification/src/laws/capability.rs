//! Requests, refusals and bindings.

use crate::capability;
use crate::capability::{ResolveError, ResolveResponse, RuntimeFailure};
use crate::laws;
use crate::laws::terms;
use crate::table;
use crate::table::TextTable;
use vstd::prelude::*;

verus! {

/// What is bound to a reference: the value beside it, for a reference that is accepted.
pub proof fn bindings_are_rows(rows: table::Rows, reference: Seq<char>)
    requires
        table::is_ordered(rows),
    ensures
        match capability::bound_source(rows, reference) {
            Ok(source) => terms::good_reference(reference) && rows.contains((reference, source)),
            Err(ResolveError::InvalidReference) => !terms::good_reference(reference),
            Err(ResolveError::UnknownReference) => terms::good_reference(reference)
                && terms::unnamed(rows, reference),
        },
{
    laws::naming::canonical_paths_are_plain(reference);
    let found = table::lookup(rows, reference);
    laws::table::lookups_read_rows(rows, reference, if found is Some { found->0 } else { reference });
}

/// The source of a reference is the value in the row of the reference. A reference that is not
/// accepted is refused as invalid, and one that stands in no row as unknown.
pub proof fn sources_stand_in_rows(
    references: &TextTable,
    reference: &str,
    source: Result<&String, ResolveError>,
)
    requires
        call_ensures(capability::find_source, (references, reference), source),
    ensures
        match source {
            Ok(found) => terms::good_reference(reference@) && references@.contains(
                (reference@, found@),
            ),
            Err(ResolveError::InvalidReference) => !terms::good_reference(reference@),
            Err(ResolveError::UnknownReference) => terms::good_reference(reference@)
                && terms::unnamed(references@, reference@),
        },
        terms::unique(references@),
{
    bindings_are_rows(references@, reference@);
    laws::table::lookups_read_rows(references@, reference@, reference@);
}

/// Binding a reference that stands in no row adds its row. A second binding is refused with a text
/// that names the reference, and changes nothing.
pub proof fn references_are_bound_once(
    references: &mut TextTable,
    reference: String,
    source: String,
    outcome: Result<(), String>,
)
    requires
        call_ensures(capability::bind_reference, (references, reference, source), outcome),
    ensures
        outcome is Ok <==> terms::unnamed(old(references)@, reference@),
        outcome is Ok ==> laws::table::gains(
            old(references)@,
            final(references)@,
            (reference@, source@),
        ),
        outcome is Err ==> final(references)@ == old(references)@ && outcome->Err_0@
            == "duplicate logical secret reference `"@ + reference@ + "`"@,
{
    laws::table::lookups_read_rows(old(references)@, reference@, source@);
    if outcome is Ok {
        laws::table::lookups_show_a_gain(
            old(references)@,
            final(references)@,
            (reference@, source@),
        );
    }
}

/// A failure over a configuration says what it was given to say.
pub proof fn plan_failures_say_their_detail(detail: &str, failure: RuntimeFailure)
    requires
        call_ensures(capability::invalid_plan, (detail,), failure),
    ensures
        failure matches RuntimeFailure::InvalidResolvedPlan { detail: said } && said@ == detail@,
{
}

/// Two responses look the same in a diagnostic, whatever they carry.
pub proof fn responses_look_alike(
    a: &ResolveResponse,
    b: &ResolveResponse,
    text_a: String,
    text_b: String,
)
    requires
        call_ensures(ResolveResponse::debug_text, (a,), text_a),
        call_ensures(ResolveResponse::debug_text, (b,), text_b),
    ensures
        text_a@ == text_b@,
        text_a@ == "ResolveResponse { value: [REDACTED] }"@,
{
}

} // verus!
