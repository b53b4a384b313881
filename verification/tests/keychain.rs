use std::cell::RefCell;
use std::collections::BTreeMap;
use std::fmt;
use std::rc::Rc;

use lenso_secrets::capability::{bind_reference, PluginError, ResolveError, RuntimeFailure};
use lenso_secrets::keychain::{
    answer_with, resolve, validate_config, verify_sources, Keychain, KeychainConfig, PasswordStore,
    SystemKeychain,
};
use lenso_secrets::table::TextTable;

#[derive(Clone, Default)]
struct FakeKeychain {
    values: Rc<RefCell<BTreeMap<(String, String), String>>>,
}

impl FakeKeychain {
    fn insert(&self, service: &str, account: &str, value: &str) {
        self.values.borrow_mut().insert(
            (service.to_owned(), account.to_owned()),
            value.to_owned(),
        );
    }
}

impl Keychain for FakeKeychain {
    fn read(&self, service: &str, account: &str) -> Result<String, ()> {
        self.values
            .borrow()
            .get(&(service.to_owned(), account.to_owned()))
            .cloned()
            .ok_or(())
    }
}

fn references(rows: &[(&str, &str)]) -> TextTable {
    let mut table = TextTable::new();
    for (reference, source) in rows {
        assert!(table.insert((*reference).to_owned(), (*source).to_owned()));
    }
    table
}

fn config() -> KeychainConfig {
    KeychainConfig {
        service: "com.lenso.agent".to_owned(),
        references: references(&[("model/openai-api-key", "default")]),
    }
}

#[test]
fn resolves_rotation_without_retaining_or_debugging_the_secret() {
    let keychain = FakeKeychain::default();
    keychain.insert("com.lenso.agent", "default", "first-secret");
    let first = resolve(&config(), &keychain, "model/openai-api-key")
        .ok()
        .unwrap();
    assert_eq!(first.value, "first-secret");
    assert!(!first.debug_text().contains("first-secret"));

    keychain.insert("com.lenso.agent", "default", "rotated-secret");
    let rotated = resolve(&config(), &keychain, "model/openai-api-key")
        .ok()
        .unwrap();
    assert_eq!(rotated.value, "rotated-secret");
}

#[test]
fn invalid_unknown_and_missing_sources_have_distinct_safe_failures() {
    let keychain = FakeKeychain::default();
    assert!(matches!(
        resolve(&config(), &keychain, "../invalid"),
        Err(PluginError::Domain(ResolveError::InvalidReference))
    ));
    assert!(matches!(
        resolve(&config(), &keychain, "unknown/reference"),
        Err(PluginError::Domain(ResolveError::UnknownReference))
    ));
    let error = verify_sources(&config(), &keychain).unwrap_err();
    let diagnostic = format!("{error:?}");
    assert!(diagnostic.contains("model/openai-api-key"));
    assert!(!diagnostic.contains("default"));
}

/// Collects the entries of a JSON object, with repeated names.
struct Entries(Vec<(String, serde_json::Value)>);

struct EntriesVisitor;

impl<'de> serde::de::Visitor<'de> for EntriesVisitor {
    type Value = Entries;

    fn expecting(&self, formatter: &mut fmt::Formatter<'_>) -> fmt::Result {
        formatter.write_str("a map")
    }

    fn visit_map<A>(self, mut access: A) -> Result<Entries, A::Error>
    where
        A: serde::de::MapAccess<'de>,
    {
        let mut references = TextTable::new();
        let mut entries = Vec::new();
        while let Some((name, value)) = access.next_entry::<String, serde_json::Value>()? {
            bind_reference(&mut references, name.clone(), String::new())
                .map_err(serde::de::Error::custom)?;
            entries.push((name, value));
        }
        Ok(Entries(entries))
    }
}

impl<'de> serde::Deserialize<'de> for Entries {
    fn deserialize<D>(deserializer: D) -> Result<Self, D::Error>
    where
        D: serde::Deserializer<'de>,
    {
        deserializer.deserialize_map(EntriesVisitor)
    }
}

/// A configuration document whose `references` may name a reference twice.
struct Document(Vec<Entries>);

struct DocumentVisitor;

impl<'de> serde::de::Visitor<'de> for DocumentVisitor {
    type Value = Document;

    fn expecting(&self, formatter: &mut fmt::Formatter<'_>) -> fmt::Result {
        formatter.write_str("a document")
    }

    fn visit_map<A>(self, mut access: A) -> Result<Document, A::Error>
    where
        A: serde::de::MapAccess<'de>,
    {
        let mut found = Vec::new();
        while let Some(name) = access.next_key::<String>()? {
            if name == "references" {
                found.push(access.next_value::<Entries>()?);
            } else {
                access.next_value::<serde_json::Value>()?;
            }
        }
        Ok(Document(found))
    }
}

impl<'de> serde::Deserialize<'de> for Document {
    fn deserialize<D>(deserializer: D) -> Result<Self, D::Error>
    where
        D: serde::Deserializer<'de>,
    {
        deserializer.deserialize_map(DocumentVisitor)
    }
}

#[test]
fn rejects_duplicate_and_malformed_configuration() {
    let duplicate = serde_json::from_str::<Document>(
        r#"{"service":"com.lenso.agent","references":{"a":"one","a":"two"}}"#,
    )
    .err()
    .unwrap();
    assert!(duplicate
        .to_string()
        .contains("duplicate logical secret reference"));
    let single = serde_json::from_str::<Document>(
        r#"{"service":"com.lenso.agent","references":{"a":"one","b":"two"}}"#,
    )
    .ok()
    .unwrap();
    assert_eq!(single.0[0].0.len(), 2);

    let mut invalid = config();
    invalid.service = "\0".to_owned();
    assert!(validate_config(&invalid).is_err());
}

fn refused(detail: &str) -> Result<(), RuntimeFailure> {
    Err(RuntimeFailure::InvalidResolvedPlan {
        detail: detail.to_owned(),
    })
}

#[test]
fn keychain_configuration_errors_come_in_order() {
    let mut keychain_config = config();
    assert_eq!(validate_config(&keychain_config), Ok(()));
    keychain_config.references = references(&[("a", " "), ("b", "x"), ("..", "y")]);
    assert_eq!(
        validate_config(&keychain_config),
        refused("Keychain logical reference is invalid")
    );
    keychain_config.references = references(&[("a", " "), ("b/", "x")]);
    assert_eq!(
        validate_config(&keychain_config),
        refused("Keychain account is invalid")
    );
    keychain_config.references = TextTable::new();
    assert_eq!(
        validate_config(&keychain_config),
        refused("Keychain references must contain at least one mapping")
    );
    keychain_config.service = String::new();
    assert_eq!(
        validate_config(&keychain_config),
        refused("Keychain service is invalid")
    );
}

#[test]
fn keychain_preparation_names_the_first_missing_account() {
    let keychain = FakeKeychain::default();
    let mut keychain_config = config();
    keychain_config.references = references(&[("c", "three"), ("a", "one"), ("b", "two")]);
    keychain.insert("com.lenso.agent", "one", "1");
    assert_eq!(
        verify_sources(&keychain_config, &keychain),
        Err(RuntimeFailure::PluginFailure {
            detail: "configured Keychain secret reference `b` is unavailable".to_owned()
        })
    );
    keychain.insert("com.lenso.agent", "two", "2");
    keychain.insert("com.lenso.agent", "three", "3");
    assert_eq!(verify_sources(&keychain_config, &keychain), Ok(()));
}

#[test]
fn keychain_preparation_does_not_trust_unchecked_references() {
    let keychain = FakeKeychain::default();
    let mut keychain_config = config();
    keychain_config.references = references(&[("..", "one")]);
    assert_eq!(
        verify_sources(&keychain_config, &keychain),
        Err(RuntimeFailure::Internal {
            detail: "validated Keychain reference became invalid".to_owned()
        })
    );
}

#[test]
fn keychain_answers_carry_the_password() {
    assert_eq!(
        answer_with("a", Ok("secret".to_owned())).ok().unwrap().value,
        "secret"
    );
    assert_eq!(
        answer_with("a", Err(())).err().unwrap(),
        PluginError::Runtime(RuntimeFailure::PluginFailure {
            detail: "configured Keychain secret reference `a` is unavailable".to_owned()
        })
    );
}

struct FixedPasswords;

impl PasswordStore for FixedPasswords {
    fn password(&self, service: &str, account: &str) -> Option<Vec<u8>> {
        match (service, account) {
            ("com.lenso.agent", "text") => Some("schl\u{fc}ssel".as_bytes().to_vec()),
            ("com.lenso.agent", "empty") => Some(Vec::new()),
            ("com.lenso.agent", "bytes") => Some(vec![b'a', 0xff]),
            _ => None,
        }
    }
}

#[test]
fn stored_passwords_are_answered_as_text() {
    let keychain = SystemKeychain {
        store: FixedPasswords,
    };
    let mut keychain_config = config();
    keychain_config.references =
        references(&[("t", "text"), ("e", "empty"), ("b", "bytes"), ("n", "none")]);
    let value = |reference: &str| {
        resolve(&keychain_config, &keychain, reference).map(|response| response.value)
    };
    assert_eq!(value("t"), Ok("schl\u{fc}ssel".to_owned()));
    assert_eq!(value("e"), Ok(String::new()));
    for reference in ["b", "n"] {
        assert_eq!(
            value(reference),
            Err(PluginError::Runtime(RuntimeFailure::PluginFailure {
                detail: format!(
                    "configured Keychain secret reference `{reference}` is unavailable"
                )
            }))
        );
    }
}
