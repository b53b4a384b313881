use lenso_secrets::naming::{
    valid_environment_variable, valid_reference, valid_source_name, white_space,
    MAX_REFERENCE_LENGTH,
};

#[test]
fn canonical_paths_are_references() {
    for reference in [
        "a",
        "model/openai-api-key",
        "a/b/c",
        "...",
        ".hidden/..x",
        "schl\u{fc}ssel/\u{1f511}",
        "with space",
    ] {
        assert!(valid_reference(reference), "{reference}");
    }
}

#[test]
fn other_paths_are_not_references() {
    for reference in [
        "", "/", "/a", "a/", "a//b", ".", "..", "./a", "a/.", "../a", "a/..", "a/../b", "a/./b",
        "a\0b",
    ] {
        assert!(!valid_reference(reference), "{reference:?}");
    }
}

#[test]
fn references_are_measured_in_bytes() {
    assert!(valid_reference(&"a".repeat(MAX_REFERENCE_LENGTH)));
    assert!(!valid_reference(&"a".repeat(MAX_REFERENCE_LENGTH + 1)));
    assert!(valid_reference(&"\u{e9}".repeat(128)));
    assert!(!valid_reference(&"\u{e9}".repeat(129)));
}

#[test]
fn source_names_are_not_blank_and_bounded() {
    assert!(valid_source_name("openai", 6));
    assert!(!valid_source_name("openai", 5));
    assert!(valid_source_name(" x ", 512));
    for name in ["", " ", "\t\n", "\u{2003}\u{a0}", "a\0"] {
        assert!(!valid_source_name(name, 512), "{name:?}");
    }
}

#[test]
fn white_space_is_that_of_unicode() {
    for c in '\0'..=char::MAX {
        assert_eq!(white_space(c), c.is_whitespace(), "{c:?}");
    }
}

#[test]
fn environment_variables_are_in_upper_case() {
    for name in ["A", "_", "OP_SERVICE_ACCOUNT_TOKEN", "A1", "_9"] {
        assert!(valid_environment_variable(name), "{name}");
    }
    for name in ["", "1A", "a", "Path", "A-B", "A B", "\u{c4}"] {
        assert!(!valid_environment_variable(name), "{name}");
    }
}
