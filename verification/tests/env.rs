use std::cell::RefCell;
use std::collections::BTreeMap;
use std::fmt;
use std::rc::Rc;

use lenso_secrets::capability::{bind_reference, ResolveError, ResolveRequest, RuntimeFailure};
use lenso_secrets::env::{
    conclude_read, instantiate_with_source, valid_environment_variable, valid_reference,
    EnvSecretsConfig, EnvSecretsConfigError, EnvSecretsFactory, EnvSecretsProvider,
    ProcessEnvironment, ProcessVariables, SecretSource, SourceUnavailable,
};
use lenso_secrets::table::TextTable;

#[derive(Clone, Default)]
struct MutableSource {
    values: Rc<RefCell<BTreeMap<String, String>>>,
}

impl MutableSource {
    fn insert(&self, name: &str, value: &str) {
        self.values
            .borrow_mut()
            .insert(name.to_owned(), value.to_owned());
    }

    fn remove(&self, name: &str) {
        self.values.borrow_mut().remove(name);
    }
}

impl SecretSource for MutableSource {
    fn read(&self, environment_variable: &str) -> Result<String, SourceUnavailable> {
        self.values
            .borrow()
            .get(environment_variable)
            .cloned()
            .ok_or(SourceUnavailable)
    }
}

fn config() -> EnvSecretsConfig {
    EnvSecretsConfig::new()
        .with_reference("database/url", "APP_DATABASE_URL")
        .ok()
        .expect("test mapping should be valid")
}

fn request(reference: &str) -> ResolveRequest {
    ResolveRequest {
        reference: reference.to_owned(),
    }
}

/// The references of a configuration document, bound one by one.
struct References(TextTable);

struct ReferencesVisitor;

impl<'de> serde::de::Visitor<'de> for ReferencesVisitor {
    type Value = References;

    fn expecting(&self, formatter: &mut fmt::Formatter<'_>) -> fmt::Result {
        formatter.write_str("a logical-reference to environment-variable map")
    }

    fn visit_map<A>(self, mut access: A) -> Result<References, A::Error>
    where
        A: serde::de::MapAccess<'de>,
    {
        let mut references = TextTable::new();
        while let Some((reference, source)) = access.next_entry::<String, String>()? {
            bind_reference(&mut references, reference, source).map_err(serde::de::Error::custom)?;
        }
        Ok(References(references))
    }
}

impl<'de> serde::Deserialize<'de> for References {
    fn deserialize<D>(deserializer: D) -> Result<Self, D::Error>
    where
        D: serde::Deserializer<'de>,
    {
        deserializer.deserialize_map(ReferencesVisitor)
    }
}

/// A configuration document: one field, `references`.
struct Document(TextTable);

struct DocumentVisitor;

impl<'de> serde::de::Visitor<'de> for DocumentVisitor {
    type Value = Document;

    fn expecting(&self, formatter: &mut fmt::Formatter<'_>) -> fmt::Result {
        formatter.write_str("a document")
    }

    fn visit_map<A>(self, mut access: A) -> Result<Document, A::Error>
    where
        A: serde::de::MapAccess<'de>,
    {
        let mut references = TextTable::new();
        while let Some(name) = access.next_key::<String>()? {
            if name != "references" {
                return Err(serde::de::Error::custom("unknown field"));
            }
            references = access.next_value::<References>()?.0;
        }
        Ok(Document(references))
    }
}

impl<'de> serde::Deserialize<'de> for Document {
    fn deserialize<D>(deserializer: D) -> Result<Self, D::Error>
    where
        D: serde::Deserializer<'de>,
    {
        deserializer.deserialize_map(DocumentVisitor)
    }
}

fn parse(configuration: &str) -> Result<EnvSecretsConfig, String> {
    serde_json::from_str::<Document>(configuration)
        .map(|document| EnvSecretsConfig::from_references(document.0))
        .map_err(|error| error.to_string())
}

fn start(
    parsed: Result<EnvSecretsConfig, String>,
    source: MutableSource,
) -> Result<EnvSecretsProvider<MutableSource>, RuntimeFailure> {
    let provider = EnvSecretsFactory::with_source(source).instantiate("default", parsed)?;
    provider.verify_sources()?;
    Ok(provider)
}

#[test]
fn invalid_plan_configuration_fails_before_preparation() {
    let result = start(
        parse(r#"{"references": {"../database": "APP_DATABASE_URL"}}"#),
        MutableSource::default(),
    );

    assert!(matches!(
        result.err(),
        Some(RuntimeFailure::InvalidResolvedPlan { detail })
            if detail.contains("invalid logical secret reference")
    ));
}

#[test]
fn duplicate_plan_references_are_rejected_instead_of_overwritten() {
    let result = start(
        parse(r#"{"references":{"database/url":"FIRST_URL","database/url":"SECOND_URL"}}"#),
        MutableSource::default(),
    );

    assert!(matches!(
        result.err(),
        Some(RuntimeFailure::InvalidResolvedPlan { detail })
            if detail.contains("duplicate logical secret reference")
    ));
}

#[test]
fn configured_secret_resolves_and_source_rotation_is_observed() {
    let source = MutableSource::default();
    source.insert("APP_DATABASE_URL", "postgres://first");
    let app = start(Ok(config()), source.clone())
        .ok()
        .expect("configured source should prepare the App");

    let first = app
        .resolve(&request("database/url"))
        .ok()
        .expect("resolved binding should be available")
        .ok()
        .expect("configured reference should resolve");
    assert_eq!(first.value, "postgres://first");
    assert!(!first.debug_text().contains("postgres://first"));

    source.insert("APP_DATABASE_URL", "postgres://rotated");
    let rotated = app
        .resolve(&request("database/url"))
        .ok()
        .expect("resolved binding should stay available")
        .ok()
        .expect("configured reference should resolve after rotation");
    assert_eq!(rotated.value, "postgres://rotated");
}

#[test]
fn invalid_and_unknown_references_are_distinct_domain_errors() {
    let source = MutableSource::default();
    source.insert("APP_DATABASE_URL", "secret-value");
    let app = start(Ok(config()), source).ok().unwrap();

    let invalid = app
        .resolve(&request("../database"))
        .ok()
        .unwrap()
        .err()
        .unwrap();
    assert_eq!(invalid, ResolveError::InvalidReference);
    let unknown = app
        .resolve(&request("payments/key"))
        .ok()
        .unwrap()
        .err()
        .unwrap();
    assert_eq!(unknown, ResolveError::UnknownReference);
}

#[test]
fn missing_required_source_fails_preparation_without_leaking_source_details() {
    let result = start(Ok(config()), MutableSource::default());

    assert!(matches!(
        result.err(),
        Some(RuntimeFailure::ModuleFailure { detail })
            if detail.contains("database/url")
                && !detail.contains("APP_DATABASE_URL")
                && !detail.contains("secret-value")
    ));
}

#[test]
fn runtime_source_loss_is_truthful_and_does_not_fallback() {
    let source = MutableSource::default();
    source.insert("APP_DATABASE_URL", "secret-value");
    let app = start(Ok(config()), source.clone()).ok().unwrap();
    source.remove("APP_DATABASE_URL");

    let error = app
        .resolve(&request("database/url"))
        .err()
        .expect("lost source must be a Runtime Failure");
    assert!(matches!(
        error,
        RuntimeFailure::ModuleFailure { detail }
            if detail.contains("database/url") && !detail.contains("secret-value")
    ));
}

#[test]
fn configuration_rejects_invalid_or_duplicate_mappings() {
    let mut config = EnvSecretsConfig::new();
    assert_eq!(config.validate(), Err(EnvSecretsConfigError::Empty));
    assert_eq!(
        config.insert("../database", "APP_DATABASE_URL"),
        Err(EnvSecretsConfigError::InvalidReference)
    );
    assert_eq!(
        config.insert("database/url", "not-portable-name"),
        Err(EnvSecretsConfigError::InvalidEnvironmentVariable)
    );
    config.insert("database/url", "APP_DATABASE_URL").unwrap();
    assert_eq!(
        config.insert("database/url", "OTHER_DATABASE_URL"),
        Err(EnvSecretsConfigError::DuplicateReference)
    );
    assert_eq!(config.len(), 1);
    assert!(!config.is_empty());
}

#[test]
fn inserted_mappings_validate_and_are_found() {
    let config = config()
        .with_reference("a/key", "_lower_Case9")
        .ok()
        .unwrap();
    assert_eq!(config.validate(), Ok(()));
    assert_eq!(config.source_for("a/key"), Some("_lower_Case9"));
    assert_eq!(config.source_for("database/url"), Some("APP_DATABASE_URL"));
    assert_eq!(config.source_for("other"), None);
    assert!(EnvSecretsConfig::default().is_empty());
    assert_eq!(config.clone().len(), 2);
}

#[test]
fn unchecked_documents_report_the_first_bad_mapping() {
    let config = parse(r#"{"references":{"b":"B","a":"1A","..":"C"}}"#).ok().unwrap();
    assert_eq!(
        config.validate(),
        Err(EnvSecretsConfigError::InvalidReference)
    );
    let config = parse(r#"{"references":{"b//":"B","a":"1A"}}"#).ok().unwrap();
    assert_eq!(
        config.validate(),
        Err(EnvSecretsConfigError::InvalidEnvironmentVariable)
    );
}

#[test]
fn env_references_hold_portable_characters_only() {
    for reference in ["database/url", "A.b_c-d/9", "..."] {
        assert!(valid_reference(reference), "{reference}");
    }
    for reference in ["", "a b", "\u{e9}", "a:b", "a\0", "a//b", "./a"] {
        assert!(!valid_reference(reference), "{reference:?}");
    }
    assert!(valid_reference(&"a".repeat(256)));
    assert!(!valid_reference(&"a".repeat(257)));
}

#[test]
fn env_variables_may_be_in_lower_case() {
    for name in ["a", "_", "Path9"] {
        assert!(valid_environment_variable(name), "{name}");
    }
    for name in ["", "9a", "a-b", "\u{e4}"] {
        assert!(!valid_environment_variable(name), "{name}");
    }
}

#[test]
fn configuration_errors_have_texts() {
    assert_eq!(
        EnvSecretsConfigError::Empty.message(),
        "at least one secret reference is required"
    );
    assert_eq!(
        EnvSecretsConfigError::InvalidReference.message(),
        "invalid logical secret reference"
    );
    assert_eq!(
        EnvSecretsConfigError::InvalidEnvironmentVariable.message(),
        "invalid environment-variable name"
    );
    assert_eq!(
        EnvSecretsConfigError::DuplicateReference.message(),
        "logical secret reference is already configured"
    );
}

#[test]
fn diagnostics_show_references_and_no_sources() {
    let config = config().with_reference("a", "FIRST").ok().unwrap();
    assert_eq!(
        config.debug_text(),
        r#"EnvSecretsConfig { references: ["a", "database/url"] }"#
    );
    assert_eq!(
        EnvSecretsConfig::new().debug_text(),
        "EnvSecretsConfig { references: [] }"
    );
    let unchecked = parse(r#"{"references":{"\"\n":"X"}}"#).ok().unwrap();
    assert_eq!(
        unchecked.debug_text(),
        r#"EnvSecretsConfig { references: ["\"\n"] }"#
    );
    let provider = EnvSecretsProvider::new(config, MutableSource::default());
    assert_eq!(
        provider.debug_text(),
        r#"EnvSecretsProvider { config: EnvSecretsConfig { references: ["a", "database/url"] }, .. }"#
    );
}

#[test]
fn only_the_default_entrypoint_is_supported() {
    let failure = instantiate_with_source("other", Ok(config()), MutableSource::default())
        .err()
        .unwrap();
    assert_eq!(
        failure,
        RuntimeFailure::InvalidResolvedPlan {
            detail: "unsupported Env Secrets Module entrypoint".to_owned()
        }
    );
    let failure =
        instantiate_with_source("default", Err("bad".to_owned()), MutableSource::default())
            .err()
            .unwrap();
    assert_eq!(
        failure,
        RuntimeFailure::InvalidResolvedPlan {
            detail: "Env Secrets Module configuration is invalid: bad".to_owned()
        }
    );
    let failure = EnvSecretsFactory::<MutableSource>::new()
        .instantiate("default", Ok(EnvSecretsConfig::new()))
        .err()
        .unwrap();
    assert_eq!(
        failure,
        RuntimeFailure::InvalidResolvedPlan {
            detail: "Env Secrets Module configuration is invalid: at least one secret reference is required"
                .to_owned()
        }
    );
}

#[test]
fn unbound_references_are_not_read() {
    let provider = EnvSecretsProvider::new(config(), MutableSource::default());
    assert_eq!(
        provider.read("other"),
        Err(RuntimeFailure::Internal {
            detail: "Env Secrets attempted to read an unbound reference".to_owned()
        })
    );
    assert_eq!(
        conclude_read("a", Err(SourceUnavailable)),
        Err(RuntimeFailure::ModuleFailure {
            detail: "configured secret reference `a` is unavailable".to_owned()
        })
    );
    assert_eq!(conclude_read("a", Ok("v".to_owned())), Ok("v".to_owned()));
}

#[test]
fn env_preparation_names_the_first_missing_variable() {
    let source = MutableSource::default();
    source.insert("FIRST", "1");
    let config = EnvSecretsConfig::new()
        .with_reference("c", "THIRD")
        .ok()
        .unwrap()
        .with_reference("b", "SECOND")
        .ok()
        .unwrap()
        .with_reference("a", "FIRST")
        .ok()
        .unwrap();
    let provider = EnvSecretsProvider::new(config, source);
    assert_eq!(
        provider.verify_sources(),
        Err(RuntimeFailure::ModuleFailure {
            detail: "configured secret reference `b` is unavailable".to_owned()
        })
    );
}

#[test]
fn factories_have_a_default_source() {
    let factory = EnvSecretsFactory::<MutableSource>::default();
    factory.source.insert("APP_DATABASE_URL", "x");
    let provider = factory.instantiate("default", Ok(config())).ok().unwrap();
    assert_eq!(provider.read("database/url"), Ok("x".to_owned()));
}

#[test]
fn env_references_are_references_everywhere() {
    for reference in ["database/url", "A.b_c-d/9", "..."] {
        assert!(valid_reference(reference));
        assert!(lenso_secrets::naming::valid_reference(reference));
    }
    assert!(lenso_secrets::naming::valid_reference("with space"));
    assert!(!valid_reference("with space"));
}

#[test]
fn diagnostics_do_not_depend_on_sources() {
    let one = EnvSecretsConfig::new().with_reference("a", "ONE").ok().unwrap();
    let two = EnvSecretsConfig::new().with_reference("a", "TWO").ok().unwrap();
    assert_eq!(one.debug_text(), two.debug_text());
    let failure = |config: EnvSecretsConfig| {
        EnvSecretsProvider::new(config, MutableSource::default())
            .read("a")
            .err()
    };
    assert_eq!(failure(one), failure(two));
}

#[test]
fn references_show_the_bindings() {
    let config = config();
    assert_eq!(config.references().len(), 1);
    assert_eq!(config.references().name_at(0), "database/url");
    assert_eq!(config.references().value_at(0), "APP_DATABASE_URL");
}

#[test]
fn env_preparation_accepts_when_every_variable_is_there() {
    let source = MutableSource::default();
    source.insert("APP_DATABASE_URL", "");
    let provider = EnvSecretsProvider::new(config(), source);
    assert_eq!(provider.verify_sources(), Ok(()));
    assert_eq!(provider.read("database/url"), Ok(String::new()));
}

#[derive(Clone, Debug, Default)]
struct FixedVariables;

impl ProcessVariables for FixedVariables {
    fn variable(&self, name: &str) -> Option<Vec<u8>> {
        match name {
            "TEXT" => Some("g\u{fc}ltig".as_bytes().to_vec()),
            "EMPTY" => Some(Vec::new()),
            "BYTES" => Some(vec![b'a', 0xff]),
            _ => None,
        }
    }
}

#[test]
fn default_factories_answer_from_the_process_environment() {
    let mut config = EnvSecretsConfig::new();
    for (reference, variable) in [("t", "TEXT"), ("e", "EMPTY"), ("b", "BYTES"), ("n", "NONE")] {
        config.insert(reference, variable).unwrap();
    }
    let provider = EnvSecretsFactory::<ProcessEnvironment<FixedVariables>>::new()
        .instantiate("default", Ok(config))
        .ok()
        .unwrap();
    let value = |reference: &str| provider.resolve(&request(reference)).map(|answer| answer.ok().unwrap().value);
    assert_eq!(value("t"), Ok("g\u{fc}ltig".to_owned()));
    assert_eq!(value("e"), Ok(String::new()));
    for reference in ["b", "n"] {
        assert_eq!(
            value(reference),
            Err(RuntimeFailure::ModuleFailure {
                detail: format!("configured secret reference `{reference}` is unavailable")
            })
        );
    }
}

#[test]
fn factories_can_be_copied_and_shown() {
    let factory = EnvSecretsFactory::<ProcessEnvironment<FixedVariables>>::new();
    let copy = factory.clone();
    let config = EnvSecretsConfig::new().with_reference("t", "TEXT").ok().unwrap();
    let provider = copy.instantiate("default", Ok(config)).ok().unwrap();
    assert_eq!(provider.read("t"), Ok("g\u{fc}ltig".to_owned()));
    assert_eq!(
        format!("{factory:?}"),
        "EnvSecretsFactory { source: ProcessEnvironment { variables: FixedVariables } }"
    );
}
