use std::cell::RefCell;
use std::collections::BTreeMap;
use std::io::Write;
use std::iter;
use std::rc::Rc;

use age::secrecy::SecretString;
use lenso_secrets::capability::{PluginError, ResolveError, RuntimeFailure};
use lenso_secrets::encrypted_file::{
    accept_document, answer_from, document_accepted, file_admitted, load_document, load_opened,
    load_plaintext, resolve, validate_config, verify_document, verify_sources, EncryptedFileConfig, FileDocument,
    FileMetadata, KeySource, OpenedFile, SecretFiles,
};
use lenso_secrets::table::TextTable;

struct FixedKeySource(&'static str);

impl KeySource for FixedKeySource {
    fn read(&self, _name: &str) -> Result<String, ()> {
        Ok(self.0.to_owned())
    }
}

struct NoKeySource;

impl KeySource for NoKeySource {
    fn read(&self, _name: &str) -> Result<String, ()> {
        Err(())
    }
}

#[derive(Clone)]
enum Entry {
    File(Vec<u8>),
    Link,
}

#[derive(Clone, Default)]
struct MemoryFiles {
    entries: Rc<RefCell<BTreeMap<String, Entry>>>,
}

impl MemoryFiles {
    fn write(&self, path: &str, bytes: Vec<u8>) {
        self.entries
            .borrow_mut()
            .insert(path.to_owned(), Entry::File(bytes));
    }

    fn link(&self, path: &str) {
        self.entries
            .borrow_mut()
            .insert(path.to_owned(), Entry::Link);
    }
}

impl SecretFiles for MemoryFiles {
    fn open(&self, path: &str, limit: u64) -> Result<OpenedFile, ()> {
        match self.entries.borrow().get(path) {
            Some(Entry::File(bytes)) => Ok(OpenedFile {
                metadata: FileMetadata {
                    is_file: true,
                    is_symlink: false,
                    len: bytes.len() as u64,
                },
                content: bytes.iter().copied().take(limit as usize).collect(),
            }),
            Some(Entry::Link) => Ok(OpenedFile {
                metadata: FileMetadata {
                    is_file: false,
                    is_symlink: true,
                    len: 10,
                },
                content: Vec::new(),
            }),
            None => Err(()),
        }
    }

    fn parse(&self, plaintext: &[u8]) -> Result<FileDocument, ()> {
        let value: serde_json::Value = serde_json::from_slice(plaintext).map_err(|_| ())?;
        let mut secrets = TextTable::new();
        for (name, secret) in value["secrets"].as_object().ok_or(())? {
            secrets.insert(name.clone(), secret.as_str().ok_or(())?.to_owned());
        }
        Ok(FileDocument {
            version: value["version"].as_u64().ok_or(())? as u32,
            secrets,
        })
    }
}

fn plaintext(value: &str) -> Vec<u8> {
    let mut secrets = serde_json::Map::new();
    secrets.insert("openai".to_owned(), serde_json::Value::from(value));
    let mut document = serde_json::Map::new();
    document.insert("version".to_owned(), serde_json::Value::from(1));
    document.insert("secrets".to_owned(), serde_json::Value::from(secrets));
    serde_json::Value::from(document).to_string().into_bytes()
}

fn write_document(files: &MemoryFiles, path: &str, passphrase: &str, value: &str) {
    let encryptor = age::Encryptor::with_user_passphrase(SecretString::from(passphrase.to_owned()));
    let mut ciphertext = Vec::new();
    let mut writer = encryptor.wrap_output(&mut ciphertext).unwrap();
    writer.write_all(&plaintext(value)).unwrap();
    writer.finish().unwrap();
    files.write(path, ciphertext);
}

/// A container that takes little work to open.
fn quick_container(passphrase: &str, plaintext: &[u8]) -> Vec<u8> {
    let mut recipient = age::scrypt::Recipient::new(SecretString::from(passphrase.to_owned()));
    recipient.set_work_factor(2);
    let encryptor =
        age::Encryptor::with_recipients(iter::once(&recipient as &dyn age::Recipient)).unwrap();
    let mut ciphertext = Vec::new();
    let mut writer = encryptor.wrap_output(&mut ciphertext).unwrap();
    writer.write_all(plaintext).unwrap();
    writer.finish().unwrap();
    ciphertext
}

fn table(rows: &[(&str, &str)]) -> TextTable {
    let mut table = TextTable::new();
    for (name, value) in rows {
        assert!(table.insert((*name).to_owned(), (*value).to_owned()));
    }
    table
}

fn config(path: &str) -> EncryptedFileConfig {
    EncryptedFileConfig {
        path: path.to_owned(),
        key_environment_variable: "LENSO_SECRETS_FILE_PASSPHRASE".to_owned(),
        references: table(&[("model/openai-api-key", "openai")]),
        max_file_bytes: 1024 * 1024,
        max_plaintext_bytes: 1024 * 1024,
        max_records: 100,
    }
}

#[test]
fn resolves_rotation_from_a_standard_age_container_without_debug_leakage() {
    let files = MemoryFiles::default();
    let path = "secrets.age";
    write_document(&files, path, "correct horse battery staple", "first-secret");
    let config = config(path);
    let source = FixedKeySource("correct horse battery staple");
    verify_sources(&config, &files, &source).unwrap();
    let first = resolve(&config, &files, &source, "model/openai-api-key")
        .ok()
        .unwrap();
    assert_eq!(first.value, "first-secret");
    assert!(!first.debug_text().contains("first-secret"));

    write_document(&files, path, "correct horse battery staple", "rotated-secret");
    let rotated = resolve(&config, &files, &source, "model/openai-api-key")
        .ok()
        .unwrap();
    assert_eq!(rotated.value, "rotated-secret");
}

#[test]
fn wrong_key_tampering_and_missing_record_fail_without_secret_details() {
    let files = MemoryFiles::default();
    let path = "secrets.age";
    write_document(&files, path, "correct passphrase", "never-log-this");
    let config = config(path);
    let wrong = verify_sources(&config, &files, &FixedKeySource("wrong passphrase")).unwrap_err();
    assert!(!format!("{wrong:?}").contains("never-log-this"));

    files.write(path, b"tampered".to_vec());
    let tampered =
        verify_sources(&config, &files, &FixedKeySource("correct passphrase")).unwrap_err();
    assert!(!format!("{tampered:?}").contains("correct passphrase"));
}

#[test]
fn rejects_symlinks_unknown_references_and_invalid_limits() {
    let files = MemoryFiles::default();
    files.write("target.age", quick_container("passphrase", &plaintext("secret")));
    let mut config = config("target.age");
    assert!(matches!(
        resolve(
            &config,
            &files,
            &FixedKeySource("passphrase"),
            "unknown/reference"
        ),
        Err(PluginError::Domain(ResolveError::UnknownReference))
    ));
    config.max_records = 0;
    assert!(validate_config(&config).is_err());

    files.link("link.age");
    config.max_records = 100;
    assert!(verify_sources(&config, &files, &FixedKeySource("passphrase")).is_ok());
    config.path = "link.age".to_owned();
    assert!(verify_sources(&config, &files, &FixedKeySource("passphrase")).is_err());
}

fn refused(detail: &str) -> Result<(), RuntimeFailure> {
    Err(RuntimeFailure::InvalidResolvedPlan {
        detail: detail.to_owned(),
    })
}

fn unavailable(detail: &str) -> Result<(), RuntimeFailure> {
    Err(RuntimeFailure::PluginFailure {
        detail: detail.to_owned(),
    })
}

#[test]
fn encrypted_file_configuration_errors_come_in_order() {
    let mut bad = config("secrets.age");
    assert_eq!(validate_config(&bad), Ok(()));
    bad.max_records = 100_001;
    assert_eq!(
        validate_config(&bad),
        refused("max_records must be between 1 and 100000")
    );
    bad.max_plaintext_bytes = 16 * 1024 * 1024 + 1;
    assert_eq!(
        validate_config(&bad),
        refused("max_plaintext_bytes must be between 1 and 16777216")
    );
    bad.max_file_bytes = 64 * 1024 * 1024 + 1;
    assert_eq!(
        validate_config(&bad),
        refused("max_file_bytes must be between 1 and 67108864")
    );
    bad.references = table(&[("a", "")]);
    assert_eq!(
        validate_config(&bad),
        refused("encrypted secret file source name is invalid")
    );
    bad.references = table(&[("a/", "x")]);
    assert_eq!(
        validate_config(&bad),
        refused("encrypted secret file logical reference is invalid")
    );
    bad.references = TextTable::new();
    assert_eq!(
        validate_config(&bad),
        refused("encrypted secret file references must contain at least one mapping")
    );
    bad.key_environment_variable = "lower".to_owned();
    assert_eq!(
        validate_config(&bad),
        refused("encrypted secret file key environment variable is invalid")
    );
    bad.path = String::new();
    assert_eq!(
        validate_config(&bad),
        refused("encrypted secret file path is empty")
    );
}

#[test]
fn limits_of_a_configuration_are_within_reach() {
    let mut largest = config("secrets.age");
    largest.max_file_bytes = 64 * 1024 * 1024;
    largest.max_plaintext_bytes = 16 * 1024 * 1024;
    largest.max_records = 100_000;
    assert_eq!(validate_config(&largest), Ok(()));
    largest.max_file_bytes = 0;
    assert!(validate_config(&largest).is_err());
}

#[test]
fn only_regular_files_within_the_limit_are_read() {
    let mut config = config("secrets.age");
    config.max_file_bytes = 10;
    let file = FileMetadata {
        is_file: true,
        is_symlink: false,
        len: 10,
    };
    assert!(file_admitted(&config, &file));
    assert!(!file_admitted(&config, &FileMetadata { len: 0, ..file }));
    assert!(!file_admitted(&config, &FileMetadata { len: 11, ..file }));
    assert!(!file_admitted(&config, &FileMetadata { is_file: false, ..file }));
    assert!(!file_admitted(&config, &FileMetadata { is_symlink: true, ..file }));
}

#[test]
fn plaintext_is_accepted_up_to_its_limit() {
    let files = MemoryFiles::default();
    let text = plaintext("secret");
    files.write("secrets.age", quick_container("passphrase", &text));
    let mut config = config("secrets.age");
    config.max_plaintext_bytes = text.len();
    let loaded = load_document(&config, &files, &FixedKeySource("passphrase"))
        .ok()
        .unwrap();
    assert_eq!(loaded.secrets.get("openai").map(String::as_str), Some("secret"));
    config.max_plaintext_bytes = text.len() - 1;
    assert!(load_document(&config, &files, &FixedKeySource("passphrase")).is_err());
    assert!(load_document(&config, &files, &NoKeySource).is_err());
}

#[test]
fn a_wrong_passphrase_opens_nothing() {
    let files = MemoryFiles::default();
    files.write("secrets.age", quick_container("passphrase", &plaintext("secret")));
    let config = config("secrets.age");
    assert!(load_document(&config, &files, &FixedKeySource("other")).is_err());
    assert_eq!(
        verify_sources(&config, &files, &FixedKeySource("other")),
        unavailable("configured encrypted secret file is unavailable")
    );
    assert_eq!(
        resolve(&config, &files, &FixedKeySource("other"), "model/openai-api-key")
            .err()
            .unwrap(),
        PluginError::Runtime(RuntimeFailure::PluginFailure {
            detail:
                "configured encrypted-file secret reference `model/openai-api-key` is unavailable"
                    .to_owned()
        })
    );
    assert!(matches!(
        resolve(&config, &files, &FixedKeySource("passphrase"), "../x"),
        Err(PluginError::Domain(ResolveError::InvalidReference))
    ));
}

#[test]
fn plaintext_that_is_no_document_is_refused() {
    let files = MemoryFiles::default();
    let config = config("secrets.age");
    assert!(load_plaintext(&config, &files, plaintext("x")).is_ok());
    assert!(load_plaintext(&config, &files, b"{}".to_vec()).is_err());
    assert!(load_plaintext(&config, &files, plaintext("")).is_err());
}

fn document(version: u32, rows: &[(&str, &str)]) -> FileDocument {
    FileDocument {
        version,
        secrets: table(rows),
    }
}

#[test]
fn documents_are_of_the_known_version_and_complete() {
    let mut config = config("secrets.age");
    config.max_records = 2;
    assert!(document_accepted(&config, &document(1, &[("a", "1"), ("b", "2")])));
    assert!(!document_accepted(&config, &document(2, &[("a", "1")])));
    assert!(!document_accepted(&config, &document(1, &[])));
    assert!(!document_accepted(
        &config,
        &document(1, &[("a", "1"), ("b", "2"), ("c", "3")])
    ));
    assert!(!document_accepted(&config, &document(1, &[("a", "")])));
    assert!(!document_accepted(&config, &document(1, &[(" ", "1")])));
    assert!(accept_document(&config, Ok(document(0, &[("a", "1")]))).is_err());
    assert!(accept_document(&config, Ok(document(1, &[("a", "1")]))).is_ok());
    assert!(accept_document(&config, Err(())).is_err());
}

#[test]
fn verification_names_the_first_reference_without_a_record() {
    let references = table(&[("c", "three"), ("a", "one"), ("b", "two")]);
    assert_eq!(
        verify_document(&references, &document(1, &[("one", "1"), ("three", "3")])),
        unavailable("configured encrypted-file secret reference `b` is unavailable")
    );
    assert_eq!(
        verify_document(
            &references,
            &document(1, &[("one", "1"), ("two", "2"), ("three", "3")])
        ),
        Ok(())
    );
}

#[test]
fn records_answer_requests() {
    assert_eq!(
        answer_from("a", "one", Ok(document(1, &[("one", "1"), ("two", "2")])))
            .ok()
            .unwrap()
            .value,
        "1"
    );
    assert!(answer_from("a", "three", Ok(document(1, &[("one", "1")]))).is_err());
    assert!(answer_from("a", "one", Err(())).is_err());
}

#[test]
fn wiped_documents_hold_no_secrets() {
    let mut wiped = document(1, &[("one", "1"), ("two", "2")]);
    wiped.wipe();
    assert_eq!(wiped.secrets.get("one").map(String::as_str), Some(""));
    assert_eq!(wiped.secrets.get("two").map(String::as_str), Some(""));
    assert_eq!(wiped.version, 1);
}

#[test]
fn a_file_is_admitted_by_its_own_metadata() {
    let files = MemoryFiles::default();
    let config = config("secrets.age");
    let key = FixedKeySource("passphrase");
    let content = quick_container("passphrase", &plaintext("secret"));
    let file = FileMetadata {
        is_file: true,
        is_symlink: false,
        len: content.len() as u64,
    };
    let load = |metadata: FileMetadata| {
        let opened = OpenedFile {
            metadata,
            content: content.clone(),
        };
        load_opened(&config, &files, &key, opened)
    };
    let loaded = load(file).ok().unwrap();
    assert_eq!(loaded.secrets.get("openai").map(String::as_str), Some("secret"));
    assert!(load(FileMetadata { is_symlink: true, ..file }).is_err());
    assert!(load(FileMetadata { is_file: false, ..file }).is_err());
    assert!(load(FileMetadata { len: 0, ..file }).is_err());
}

/// Files that swap the path for a link as soon as it was opened once.
struct SwappingFiles {
    inner: MemoryFiles,
}

impl SecretFiles for SwappingFiles {
    fn open(&self, path: &str, limit: u64) -> Result<OpenedFile, ()> {
        let opened = self.inner.open(path, limit);
        self.inner.link(path);
        opened
    }

    fn parse(&self, plaintext: &[u8]) -> Result<FileDocument, ()> {
        self.inner.parse(plaintext)
    }
}

#[test]
fn a_link_put_in_place_later_is_not_followed() {
    let inner = MemoryFiles::default();
    inner.write("secrets.age", quick_container("passphrase", &plaintext("checked")));
    let files = SwappingFiles { inner };
    let config = config("secrets.age");
    let key = FixedKeySource("passphrase");
    let loaded = load_document(&config, &files, &key).ok().unwrap();
    assert_eq!(loaded.secrets.get("openai").map(String::as_str), Some("checked"));
    assert!(load_document(&config, &files, &key).is_err());
}

#[test]
fn files_are_read_one_byte_past_their_limit() {
    let files = MemoryFiles::default();
    let container = quick_container("passphrase", &plaintext("secret"));
    files.write("secrets.age", container.clone());
    let key = FixedKeySource("passphrase");
    let mut config = config("secrets.age");
    config.max_file_bytes = container.len() as u64;
    assert!(load_document(&config, &files, &key).is_ok());
    config.max_file_bytes = container.len() as u64 - 1;
    assert!(load_document(&config, &files, &key).is_err());
    config.max_file_bytes = u64::MAX;
    assert!(load_document(&config, &files, &key).is_ok());

    config.max_file_bytes = container.len() as u64 - 1;
    let grown = OpenedFile {
        metadata: FileMetadata {
            is_file: true,
            is_symlink: false,
            len: 1,
        },
        content: container,
    };
    assert!(load_opened(&config, &files, &key, grown).is_err());
}
