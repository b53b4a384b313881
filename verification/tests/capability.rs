use lenso_secrets::capability::{
    bind_reference, find_source, invalid_plan, ResolveError, ResolveResponse, RuntimeFailure,
    CAPABILITY_ID,
};
use lenso_secrets::table::TextTable;

#[test]
fn secret_values_are_redacted_from_debug_output() {
    let response = ResolveResponse {
        value: "do-not-print".to_owned(),
    };

    assert!(!response.debug_text().contains("do-not-print"));
}

#[test]
fn every_response_has_the_same_debug_text() {
    let first = ResolveResponse {
        value: "one".to_owned(),
    };
    let second = ResolveResponse {
        value: "another".to_owned(),
    };
    assert_eq!(first.debug_text(), second.debug_text());
    assert_eq!(
        first.debug_text(),
        "ResolveResponse { value: [REDACTED] }"
    );
}

#[test]
fn capability_identity_is_versioned() {
    assert_eq!(CAPABILITY_ID, "lenso.secrets@1");
}

#[test]
fn invalid_plan_carries_its_detail() {
    assert_eq!(
        invalid_plan("broken"),
        RuntimeFailure::InvalidResolvedPlan {
            detail: "broken".to_owned()
        }
    );
}

#[test]
fn a_reference_is_bound_once_and_keeps_its_source() {
    let mut references = TextTable::new();
    assert_eq!(
        bind_reference(&mut references, "a".to_owned(), "one".to_owned()),
        Ok(())
    );
    assert_eq!(
        bind_reference(&mut references, "a".to_owned(), "two".to_owned()),
        Err("duplicate logical secret reference `a`".to_owned())
    );
    assert_eq!(references.len(), 1);
    assert_eq!(references.get("a").map(String::as_str), Some("one"));
}

#[test]
fn malformed_and_unbound_references_are_told_apart() {
    let mut references = TextTable::new();
    assert!(references.insert("model/key".to_owned(), "source".to_owned()));
    assert_eq!(
        find_source(&references, "/model/key"),
        Err(ResolveError::InvalidReference)
    );
    assert_eq!(
        find_source(&references, "model/other"),
        Err(ResolveError::UnknownReference)
    );
    assert_eq!(
        find_source(&references, "model/key"),
        Ok(&"source".to_owned())
    );
}
