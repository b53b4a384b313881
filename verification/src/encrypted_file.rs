//! A provider that decrypts a local file under a passphrase.

use crate::capability;
use crate::capability::{find_source, invalid_plan, PluginError, ResolveResponse, RuntimeFailure};
use crate::hygiene::{wipe_bytes, wipe_text};
use crate::naming;
use crate::naming::{valid_environment_variable, valid_reference, valid_source_name};
use crate::table;
use crate::table::TextTable;
use crate::text::surround;
use age::secrecy::SecretString;
use std::io::Read;
use vstd::prelude::*;
use vstd::string::*;
use zeroize::Zeroizing;

verus! {

/// Maximum length of a source name, in bytes.
pub const MAX_SOURCE_LENGTH: usize = 512;

/// Largest file that a configuration may allow, in bytes.
pub const MAX_FILE_BYTES: u64 = 67_108_864;

/// Largest plaintext that a configuration may allow, in bytes.
pub const MAX_PLAINTEXT_BYTES: usize = 16_777_216;

/// Most records that a configuration may allow.
pub const MAX_RECORDS: usize = 100_000;

/// Which file to decrypt, and for which references.
#[derive(Debug)]
pub struct EncryptedFileConfig {
    /// Path of the file.
    pub path: String,
    /// Environment variable that holds the passphrase.
    pub key_environment_variable: String,
    /// Names of records by logical reference.
    pub references: TextTable,
    /// Largest file that is read, in bytes.
    pub max_file_bytes: u64,
    /// Largest plaintext that is accepted, in bytes.
    pub max_plaintext_bytes: usize,
    /// Most records that are accepted.
    pub max_records: usize,
}

/// What is wrong with one binding.
pub open spec fn binding_problem(row: (Seq<char>, Seq<char>)) -> Option<Seq<char>> {
    if !naming::is_valid_reference(row.0) {
        Some("encrypted secret file logical reference is invalid"@)
    } else if !naming::is_valid_source_name(row.1, MAX_SOURCE_LENGTH as nat) {
        Some("encrypted secret file source name is invalid"@)
    } else {
        None
    }
}

/// The first binding that is wrong, and what is wrong with it.
pub open spec fn bindings_problem(rows: table::Rows) -> Option<Seq<char>> {
    table::first_problem(rows, |row: (Seq<char>, Seq<char>)| binding_problem(row))
}

/// What is wrong with a configuration.
pub open spec fn config_problem(config: EncryptedFileConfig) -> Option<Seq<char>> {
    if config.path@.len() == 0 {
        Some("encrypted secret file path is empty"@)
    } else if !naming::is_environment_variable(config.key_environment_variable@) {
        Some("encrypted secret file key environment variable is invalid"@)
    } else if config.references@.len() == 0 {
        Some("encrypted secret file references must contain at least one mapping"@)
    } else if bindings_problem(config.references@) is Some {
        bindings_problem(config.references@)
    } else if !(1 <= config.max_file_bytes <= MAX_FILE_BYTES) {
        Some("max_file_bytes must be between 1 and 67108864"@)
    } else if !(1 <= config.max_plaintext_bytes <= MAX_PLAINTEXT_BYTES) {
        Some("max_plaintext_bytes must be between 1 and 16777216"@)
    } else if !(1 <= config.max_records <= MAX_RECORDS) {
        Some("max_records must be between 1 and 100000"@)
    } else {
        None
    }
}

/// Checks the bindings, in order.
fn check_bindings(references: &TextTable) -> (outcome: Result<(), RuntimeFailure>)
    ensures
        capability::checked(outcome) == capability::refusal(bindings_problem(references@)),
{
    let ghost problem = |row: (Seq<char>, Seq<char>)| binding_problem(row);
    let ghost rows = references@;
    let mut i: usize = 0;
    assert(rows.take(0) =~= table::Rows::empty());
    while i < references.len()
        invariant
            rows == references@,
            problem == (|row: (Seq<char>, Seq<char>)| binding_problem(row)),
            i <= rows.len(),
            table::first_problem(rows.take(i as int), problem) is None,
        decreases rows.len() - i,
    {
        proof {
            table::first_problem_step(rows, i as int, problem);
        }
        if !valid_reference(references.name_at(i).as_str()) {
            return Err(invalid_plan("encrypted secret file logical reference is invalid"));
        }
        if !valid_source_name(references.value_at(i).as_str(), MAX_SOURCE_LENGTH) {
            return Err(invalid_plan("encrypted secret file source name is invalid"));
        }
        i += 1;
    }
    assert(rows.take(i as int) =~= rows);
    Ok(())
}

/// Checks a configuration.
pub fn validate_config(config: &EncryptedFileConfig) -> (outcome: Result<(), RuntimeFailure>)
    ensures
        table::is_ordered(config.references@),
        capability::checked(outcome) == capability::refusal(config_problem(*config)),
{
    proof {
        use_type_invariant(&config.references);
    }
    if config.path.as_str().is_empty() {
        return Err(invalid_plan("encrypted secret file path is empty"));
    }
    if !valid_environment_variable(config.key_environment_variable.as_str()) {
        return Err(invalid_plan("encrypted secret file key environment variable is invalid"));
    }
    if config.references.is_empty() {
        return Err(
            invalid_plan("encrypted secret file references must contain at least one mapping"),
        );
    }
    match check_bindings(&config.references) {
        Ok(()) => {},
        Err(failure) => {
            return Err(failure);
        },
    }
    if config.max_file_bytes < 1 || config.max_file_bytes > MAX_FILE_BYTES {
        return Err(invalid_plan("max_file_bytes must be between 1 and 67108864"));
    }
    if config.max_plaintext_bytes < 1 || config.max_plaintext_bytes > MAX_PLAINTEXT_BYTES {
        return Err(invalid_plan("max_plaintext_bytes must be between 1 and 16777216"));
    }
    if config.max_records < 1 || config.max_records > MAX_RECORDS {
        return Err(invalid_plan("max_records must be between 1 and 100000"));
    }
    Ok(())
}

/// What the file system says of an open file.
#[derive(Clone, Copy, Debug, PartialEq, Eq, Structural)]
pub struct FileMetadata {
    /// Whether it is a regular file.
    pub is_file: bool,
    /// Whether it is a symbolic link.
    pub is_symlink: bool,
    /// Its length, in bytes.
    pub len: u64,
}

/// One file that was opened: its metadata and its first bytes, both of the same file.
pub struct OpenedFile {
    /// What the file system says of the file.
    pub metadata: FileMetadata,
    /// The first bytes of the file. Of what is no regular file there need be none.
    pub content: Vec<u8>,
}

/// An opened file as a mathematical value.
pub struct OpenedView {
    /// What the file system says of the file.
    pub metadata: FileMetadata,
    /// The first bytes of the file.
    pub content: Seq<u8>,
}

impl View for OpenedFile {
    type V = OpenedView;

    open spec fn view(&self) -> OpenedView {
        OpenedView { metadata: self.metadata, content: self.content@ }
    }
}

/// The decrypted document: secrets by record name.
///
/// It has no `Debug` text, which would show the secrets.
pub struct FileDocument {
    /// Version of the document format.
    pub version: u32,
    /// Secrets by record name.
    pub secrets: TextTable,
}

/// A document as a mathematical value.
pub struct DocumentView {
    /// Version of the document format.
    pub version: u32,
    /// Secrets by record name.
    pub secrets: table::Rows,
}

impl View for FileDocument {
    type V = DocumentView;

    open spec fn view(&self) -> DocumentView {
        DocumentView { version: self.version, secrets: self.secrets@ }
    }
}

impl FileDocument {
    /// Overwrites every secret. The record names stay, each beside an empty secret.
    pub fn wipe(&mut self)
        ensures
            final(self)@.version == old(self)@.version,
            final(self)@.secrets == old(self)@.secrets.map_values(
                |row: (Seq<char>, Seq<char>)| (row.0, Seq::<char>::empty()),
            ),
    {
        self.secrets.wipe_values();
    }
}

/// Where passphrases come from.
pub trait KeySource {
    /// The passphrase under this name, if there is one.
    fn read(&self, name: &str) -> Result<String, ()>;
}

/// The files of the host and the format of their plaintext.
pub trait SecretFiles {
    /// Opens what stands at this path once, without following a link at its end, and hands over
    /// its metadata and at most `limit` of its first bytes.
    fn open(&self, path: &str, limit: u64) -> Result<OpenedFile, ()>;

    /// The document that this plaintext holds.
    fn parse(&self, plaintext: &[u8]) -> Result<FileDocument, ()>;
}

/// A file that was opened as a mathematical value.
pub open spec fn opened_of(outcome: Result<OpenedFile, ()>) -> Option<OpenedView> {
    match outcome {
        Ok(file) => Some(file@),
        Err(()) => None,
    }
}

/// Opening `path` for at most `limit` bytes may give this file, or none.
pub open spec fn opens<F: SecretFiles>(
    files: F,
    path: Seq<char>,
    limit: u64,
    opened: Option<OpenedView>,
) -> bool {
    exists|name: &str, got: Result<OpenedFile, ()>|
        name@ == path && #[trigger] call_ensures(F::open, (&files, name, limit), got) && opened
            == opened_of(got)
}

/// Bytes that were decrypted as a mathematical value.
pub open spec fn bytes_of(outcome: Result<Vec<u8>, ()>) -> Option<Seq<u8>> {
    match outcome {
        Ok(bytes) => Some(bytes@),
        Err(()) => None,
    }
}

/// The keys may give this passphrase under `name`, or none.
pub open spec fn gives<K: KeySource>(
    keys: K,
    name: Seq<char>,
    passphrase: Option<Seq<char>>,
) -> bool {
    exists|asked: &str, got: Result<String, ()>|
        asked@ == name && #[trigger] call_ensures(K::read, (&keys, asked), got) && passphrase
            == capability::text_of(got)
}

/// A document that was parsed as a mathematical value.
pub open spec fn document_of(outcome: Result<FileDocument, ()>) -> Option<DocumentView> {
    match outcome {
        Ok(document) => Some(document@),
        Err(()) => None,
    }
}

/// The files may find this document in `plaintext`, or none.
pub open spec fn parses<F: SecretFiles>(
    files: F,
    plaintext: Seq<u8>,
    document: Option<DocumentView>,
) -> bool {
    exists|bytes: &[u8], got: Result<FileDocument, ()>|
        bytes@ == plaintext && #[trigger] call_ensures(F::parse, (&files, bytes), got) && document
            == document_of(got)
}

/// The plaintext that an age container yields under a passphrase.
pub uninterp spec fn age_plaintext(ciphertext: Seq<u8>, passphrase: Seq<char>) -> Seq<u8>;

/// The first `limit` bytes, or all if there are no more.
pub open spec fn at_most(bytes: Seq<u8>, limit: nat) -> Seq<u8> {
    if bytes.len() > limit {
        bytes.take(limit as int)
    } else {
        bytes
    }
}

/// Decrypts an age container and reads at most `limit` bytes of its plaintext.
///
/// Calls `age::Decryptor::new`, `age::Decryptor::decrypt` with an `age::scrypt::Identity`, and
/// reads from the stream that it hands back. The contract claims that what was read is the
/// beginning of a plaintext that the container and the passphrase determine. It claims nothing of
/// when decryption succeeds: age also refuses a container whose work factor is too high for the
/// speed that it measures on the machine.
#[verifier::external_body]
fn decrypt_container(ciphertext: &[u8], passphrase: &str, limit: u64) -> (plaintext: Result<
    Vec<u8>,
    (),
>)
    ensures
        plaintext is Ok ==> plaintext->Ok_0@ == at_most(
            age_plaintext(ciphertext@, passphrase@),
            limit as nat,
        ),
{
    let decryptor = age::Decryptor::new(ciphertext).map_err(|_| ())?;
    let identity = age::scrypt::Identity::new(SecretString::from(passphrase.to_owned()));
    let identities = std::iter::once(&identity as &dyn age::Identity);
    let reader = decryptor.decrypt(identities).map_err(|_| ())?;
    let mut plaintext = Zeroizing::new(Vec::new());
    reader.take(limit).read_to_end(&mut plaintext).map_err(|_| ())?;
    Ok(std::mem::take(&mut *plaintext))
}

/// A file that is read: a regular one and no link, not empty and not too long.
pub open spec fn admits_file(config: EncryptedFileConfig, metadata: FileMetadata) -> bool {
    &&& metadata.is_file
    &&& !metadata.is_symlink
    &&& 1 <= metadata.len <= config.max_file_bytes
}

/// Whether a file is read.
pub fn file_admitted(config: &EncryptedFileConfig, metadata: &FileMetadata) -> (admitted: bool)
    ensures
        admitted == admits_file(*config, *metadata),
{
    metadata.is_file && !metadata.is_symlink && metadata.len != 0 && metadata.len
        <= config.max_file_bytes
}

/// A record that is accepted: a valid name and a secret that is not empty.
pub open spec fn is_acceptable_record(row: (Seq<char>, Seq<char>)) -> bool {
    &&& naming::is_valid_source_name(row.0, MAX_SOURCE_LENGTH as nat)
    &&& row.1.len() > 0
}

/// A document that is accepted: of version 1, with at least one record, not too many, and each
/// acceptable.
pub open spec fn is_acceptable(config: EncryptedFileConfig, document: DocumentView) -> bool {
    &&& document.version == 1
    &&& 1 <= document.secrets.len() <= config.max_records
    &&& forall|i: int|
        0 <= i < document.secrets.len() ==> is_acceptable_record(#[trigger] document.secrets[i])
}

/// Whether a document is accepted.
pub fn document_accepted(config: &EncryptedFileConfig, document: &FileDocument) -> (accepted: bool)
    ensures
        accepted == is_acceptable(*config, document@),
{
    if document.version != 1 || document.secrets.is_empty() || document.secrets.len()
        > config.max_records {
        return false;
    }
    let mut i: usize = 0;
    while i < document.secrets.len()
        invariant
            i <= document@.secrets.len(),
            document@.secrets == document.secrets@,
            forall|j: int| 0 <= j < i ==> is_acceptable_record(#[trigger] document@.secrets[j]),
        decreases document@.secrets.len() - i,
    {
        if !valid_source_name(document.secrets.name_at(i).as_str(), MAX_SOURCE_LENGTH)
            || document.secrets.value_at(i).as_str().is_empty() {
            return false;
        }
        i += 1;
    }
    true
}

/// What loading gives once the plaintext was parsed: the document, if it is acceptable.
pub open spec fn accepted(
    config: EncryptedFileConfig,
    document: Option<DocumentView>,
) -> Option<DocumentView> {
    match document {
        Some(found) => if is_acceptable(config, found) {
            Some(found)
        } else {
            None
        },
        None => None,
    }
}

/// Loading may give `loaded` once this much plaintext was read, or none.
pub open spec fn loads_plaintext<F: SecretFiles>(
    config: EncryptedFileConfig,
    files: F,
    plaintext: Option<Seq<u8>>,
    loaded: Option<DocumentView>,
) -> bool {
    match plaintext {
        Some(bytes) => if bytes.len() > config.max_plaintext_bytes {
            loaded is None
        } else {
            exists|document: Option<DocumentView>| #[trigger]
                parses(files, bytes, document) && loaded == accepted(config, document)
        },
        None => loaded is None,
    }
}

/// Decrypting this very container under this very passphrase, up to `limit` bytes, may yield this
/// much plaintext, or none.
pub closed spec fn decrypts(
    ciphertext: Seq<u8>,
    passphrase: Seq<char>,
    limit: nat,
    plaintext: Option<Seq<u8>>,
) -> bool {
    exists|bytes: &[u8], key: &str, most: u64, got: Result<Vec<u8>, ()>|
        bytes@ == ciphertext && key@ == passphrase && most == limit && #[trigger] call_ensures(
            decrypt_container,
            (bytes, key, most),
            got,
        ) && plaintext == bytes_of(got)
}

/// Decrypting this very container under this very passphrase, up to `limit` bytes, always succeeds.
pub closed spec fn always_decrypts(
    ciphertext: Seq<u8>,
    passphrase: Seq<char>,
    limit: nat,
) -> bool {
    forall|bytes: &[u8], key: &str, most: u64, got: Result<Vec<u8>, ()>|
        bytes@ == ciphertext && key@ == passphrase && most == limit && #[trigger] call_ensures(
            decrypt_container,
            (bytes, key, most),
            got,
        ) ==> got is Ok
}

/// Where decrypting always succeeds, it yields a plaintext.
pub proof fn decryption_that_succeeds_yields(
    ciphertext: Seq<u8>,
    passphrase: Seq<char>,
    limit: nat,
    plaintext: Option<Seq<u8>>,
)
    requires
        always_decrypts(ciphertext, passphrase, limit),
        decrypts(ciphertext, passphrase, limit, plaintext),
    ensures
        plaintext is Some,
{
}

/// What decrypting yields is the beginning of the plaintext of the container, and all of it where
/// it is not longer than `limit`.
pub proof fn decryption_yields_the_plaintext(
    ciphertext: Seq<u8>,
    passphrase: Seq<char>,
    limit: nat,
    plaintext: Seq<u8>,
)
    requires
        decrypts(ciphertext, passphrase, limit, Some(plaintext)),
    ensures
        plaintext == at_most(age_plaintext(ciphertext, passphrase), limit),
{
}

/// How much plaintext is read: one byte more than is accepted, so that an excess shows.
pub open spec fn plaintext_limit(config: EncryptedFileConfig) -> nat {
    config.max_plaintext_bytes as nat + 1
}

/// Loading may give `loaded` once the ciphertext and the passphrase are there.
pub open spec fn loads_under_key<F: SecretFiles>(
    config: EncryptedFileConfig,
    files: F,
    ciphertext: Seq<u8>,
    passphrase: Seq<char>,
    loaded: Option<DocumentView>,
) -> bool {
    exists|plaintext: Option<Seq<u8>>| #[trigger]
        decrypts(ciphertext, passphrase, plaintext_limit(config), plaintext) && loads_plaintext(
            config,
            files,
            plaintext,
            loaded,
        )
}

/// How much of a file is read: one byte more than is accepted, so that an excess shows.
pub open spec fn file_limit(config: EncryptedFileConfig) -> u64 {
    if config.max_file_bytes < u64::MAX {
        (config.max_file_bytes + 1) as u64
    } else {
        u64::MAX
    }
}

/// Loading may give `loaded` once this file was opened, or none: the file is admitted by its own
/// metadata, the key is asked for, and what the file held is decrypted.
pub open spec fn loads_opened<F: SecretFiles, K: KeySource>(
    config: EncryptedFileConfig,
    files: F,
    keys: K,
    opened: Option<OpenedView>,
    loaded: Option<DocumentView>,
) -> bool {
    match opened {
        Some(file) => if !admits_file(config, file.metadata) || file.content.len()
            > config.max_file_bytes {
            loaded is None
        } else {
            exists|passphrase: Option<Seq<char>>| #[trigger]
                gives(keys, config.key_environment_variable@, passphrase) && match passphrase {
                    Some(key) => loads_under_key(config, files, file.content, key, loaded),
                    None => loaded is None,
                }
        },
        None => loaded is None,
    }
}

/// Loading may give `loaded`: the file is opened once and admitted, the key is asked for, the file
/// is decrypted and parsed, in this order, and the first step that fails ends it.
pub open spec fn loads<F: SecretFiles, K: KeySource>(
    config: EncryptedFileConfig,
    files: F,
    keys: K,
    loaded: Option<DocumentView>,
) -> bool {
    exists|opened: Option<OpenedView>| #[trigger]
        opens(files, config.path@, file_limit(config), opened) && loads_opened(
            config,
            files,
            keys,
            opened,
            loaded,
        )
}

/// Accepts the document that was parsed, or refuses it and overwrites its secrets.
pub fn accept_document(config: &EncryptedFileConfig, parsed: Result<FileDocument, ()>) -> (loaded:
    Result<FileDocument, ()>)
    ensures
        document_of(loaded) == accepted(*config, document_of(parsed)),
{
    match parsed {
        Ok(document) => {
            let mut document = document;
            if document_accepted(config, &document) {
                Ok(document)
            } else {
                document.wipe();
                Err(())
            }
        },
        Err(()) => Err(()),
    }
}

/// Parses a plaintext, which is overwritten, and accepts the document or refuses it.
pub fn load_plaintext<F: SecretFiles>(
    config: &EncryptedFileConfig,
    files: &F,
    plaintext: Vec<u8>,
) -> (loaded: Result<FileDocument, ()>)
    ensures
        loads_plaintext(*config, *files, Some(plaintext@), document_of(loaded)),
{
    let mut plaintext = plaintext;
    let ghost bytes = plaintext@;
    if plaintext.len() > config.max_plaintext_bytes {
        wipe_bytes(&mut plaintext);
        return Err(());
    }
    let parsed = files.parse(plaintext.as_slice());
    assert(parses(*files, bytes, document_of(parsed)));
    wipe_bytes(&mut plaintext);
    accept_document(config, parsed)
}

/// Admits the file that was opened, decrypts what it held, and loads the document in it. No other
/// file is read.
pub fn load_opened<F: SecretFiles, K: KeySource>(
    config: &EncryptedFileConfig,
    files: &F,
    keys: &K,
    file: OpenedFile,
) -> (loaded: Result<FileDocument, ()>)
    requires
        config.max_plaintext_bytes < u64::MAX,
    ensures
        loads_opened(*config, *files, *keys, Some(file@), document_of(loaded)),
{
    if !file_admitted(config, &file.metadata) || file.content.len() as u64 > config.max_file_bytes {
        return Err(());
    }
    let given = keys.read(config.key_environment_variable.as_str());
    assert(gives(*keys, config.key_environment_variable@, capability::text_of(given)));
    let mut passphrase = match given {
        Ok(passphrase) => passphrase,
        Err(()) => {
            return Err(());
        },
    };
    let ghost key = passphrase@;
    let decrypted = decrypt_container(
        file.content.as_slice(),
        passphrase.as_str(),
        config.max_plaintext_bytes as u64 + 1,
    );
    assert(decrypts(file.content@, key, plaintext_limit(*config), bytes_of(decrypted)));
    wipe_text(&mut passphrase);
    match decrypted {
        Ok(plaintext) => load_plaintext(config, files, plaintext),
        Err(()) => Err(()),
    }
}

/// Loads the document in the configured file, which is opened once.
pub fn load_document<F: SecretFiles, K: KeySource>(
    config: &EncryptedFileConfig,
    files: &F,
    keys: &K,
) -> (loaded: Result<FileDocument, ()>)
    requires
        config.max_plaintext_bytes < u64::MAX,
    ensures
        loads(*config, *files, *keys, document_of(loaded)),
{
    let limit: u64 = if config.max_file_bytes < u64::MAX {
        config.max_file_bytes + 1
    } else {
        u64::MAX
    };
    let opened = files.open(config.path.as_str(), limit);
    assert(opens(*files, config.path@, file_limit(*config), opened_of(opened)));
    match opened {
        Ok(file) => load_opened(config, files, keys, file),
        Err(()) => Err(()),
    }
}

/// The text for a reference whose secret the file does not give.
pub open spec fn unavailable_text(reference: Seq<char>) -> Seq<char> {
    "configured encrypted-file secret reference `"@ + reference + "` is unavailable"@
}

/// The failure for a reference whose secret the file does not give.
fn unavailable(reference: &str) -> (failure: RuntimeFailure)
    ensures
        failure@ == capability::FailureView::PluginFailure(unavailable_text(reference@)),
{
    RuntimeFailure::PluginFailure {
        detail: surround(
            "configured encrypted-file secret reference `",
            reference,
            "` is unavailable",
        ),
    }
}

/// What a document that was loaded, or none, answers for `reference`, which is bound to the record
/// `source`.
pub open spec fn answer(
    reference: Seq<char>,
    source: Seq<char>,
    loaded: Option<DocumentView>,
) -> Result<Seq<char>, capability::ErrorView> {
    let secret = match loaded {
        Some(document) => table::lookup(document.secrets, source),
        None => None,
    };
    match secret {
        Some(value) => Ok(value),
        None => Err(
            capability::ErrorView::Runtime(
                capability::FailureView::PluginFailure(unavailable_text(reference)),
            ),
        ),
    }
}

/// Answers a request for `reference`, which is bound to the record `source`, from a document. The
/// other secrets of the document are overwritten.
pub fn answer_from(reference: &str, source: &str, loaded: Result<FileDocument, ()>) -> (answered:
    Result<ResolveResponse, PluginError>)
    ensures
        loaded is Ok ==> table::is_ordered(loaded->Ok_0.secrets@),
        capability::answered(answered) == answer(reference@, source@, document_of(loaded)),
{
    match loaded {
        Ok(document) => {
            let mut document = document;
            let value = document.secrets.remove(source);
            document.wipe();
            match value {
                Some(value) => Ok(ResolveResponse { value }),
                None => Err(PluginError::Runtime(unavailable(reference))),
            }
        },
        Err(()) => Err(PluginError::Runtime(unavailable(reference))),
    }
}

/// Resolves `reference` from the configured file, which is loaded afresh. Nothing is loaded for a
/// reference that is malformed or unbound.
pub fn resolve<F: SecretFiles, K: KeySource>(
    config: &EncryptedFileConfig,
    files: &F,
    keys: &K,
    reference: &str,
) -> (answered: Result<ResolveResponse, PluginError>)
    requires
        config.max_plaintext_bytes < u64::MAX,
    ensures
        table::is_ordered(config.references@),
        match capability::bound_source(config.references@, reference@) {
            Ok(source) => exists|loaded: Option<DocumentView>| #[trigger]
                loads(*config, *files, *keys, loaded) && capability::answered(answered) == answer(
                    reference@,
                    source,
                    loaded,
                ),
            Err(error) => capability::answered(answered) == Err::<
                Seq<char>,
                capability::ErrorView,
            >(capability::ErrorView::Domain(error)),
        },
{
    let source = match find_source(&config.references, reference) {
        Ok(source) => source,
        Err(error) => {
            return Err(PluginError::Domain(error));
        },
    };
    let loaded = load_document(config, files, keys);
    answer_from(reference, source.as_str(), loaded)
}

/// The failure for a binding to a record that the document lacks.
pub open spec fn missing_record(document: DocumentView, row: (Seq<char>, Seq<char>)) -> Option<
    capability::FailureView,
> {
    if table::is_bound(document.secrets, row.1) {
        None
    } else {
        Some(capability::FailureView::PluginFailure(unavailable_text(row.0)))
    }
}

/// Whether a document that was loaded, or none, has a record for every binding: if not, the
/// failure names the first reference that has none.
pub open spec fn verification(rows: table::Rows, loaded: Option<DocumentView>) -> Result<
    (),
    capability::FailureView,
> {
    match loaded {
        Some(document) => match table::first_problem(
            rows,
            |row: (Seq<char>, Seq<char>)| missing_record(document, row),
        ) {
            Some(failure) => Err(failure),
            None => Ok(()),
        },
        None => Err(
            capability::FailureView::PluginFailure(
                "configured encrypted secret file is unavailable"@,
            ),
        ),
    }
}

/// Checks that a document has a record for every binding.
pub fn verify_document(references: &TextTable, document: &FileDocument) -> (outcome: Result<
    (),
    RuntimeFailure,
>)
    ensures
        table::is_ordered(references@),
        capability::checked(outcome) == verification(references@, Some(document@)),
{
    proof {
        use_type_invariant(references);
    }
    let ghost found = document@;
    let ghost problem = |row: (Seq<char>, Seq<char>)| missing_record(found, row);
    let ghost rows = references@;
    let mut i: usize = 0;
    assert(rows.take(0) =~= table::Rows::empty());
    while i < references.len()
        invariant
            table::is_ordered(rows),
            rows == references@,
            found == document@,
            problem == (|row: (Seq<char>, Seq<char>)| missing_record(found, row)),
            i <= rows.len(),
            table::first_problem(rows.take(i as int), problem) is None,
        decreases rows.len() - i,
    {
        proof {
            table::first_problem_step(rows, i as int, problem);
        }
        if !document.secrets.contains(references.value_at(i).as_str()) {
            return Err(unavailable(references.name_at(i).as_str()));
        }
        i += 1;
    }
    assert(rows.take(i as int) =~= rows);
    Ok(())
}

/// Checks that the configured file has a record for every binding. The document is not kept: its
/// secrets are overwritten.
pub fn verify_sources<F: SecretFiles, K: KeySource>(
    config: &EncryptedFileConfig,
    files: &F,
    keys: &K,
) -> (outcome: Result<(), RuntimeFailure>)
    requires
        config.max_plaintext_bytes < u64::MAX,
    ensures
        table::is_ordered(config.references@),
        exists|loaded: Option<DocumentView>| #[trigger]
            loads(*config, *files, *keys, loaded) && capability::checked(outcome) == verification(
                config.references@,
                loaded,
            ),
{
    proof {
        use_type_invariant(&config.references);
    }
    match load_document(config, files, keys) {
        Ok(document) => {
            let mut document = document;
            let outcome = verify_document(&config.references, &document);
            document.wipe();
            outcome
        },
        Err(()) => Err(
            RuntimeFailure::PluginFailure {
                detail: "configured encrypted secret file is unavailable".to_owned(),
            },
        ),
    }
}

/// A document is loaded only if it is acceptable: a document of another version, without records,
/// with too many, or with a bad name or an empty secret never is.
pub proof fn loaded_documents_are_acceptable<F: SecretFiles, K: KeySource>(
    config: EncryptedFileConfig,
    files: F,
    keys: K,
    loaded: Option<DocumentView>,
)
    requires
        loads(config, files, keys, loaded),
    ensures
        loaded is Some ==> is_acceptable(config, loaded->0),
{
}

/// A path at which nothing opens but a symbolic link, something else that is no regular file, an
/// empty file or one that is too long is not loaded.
pub proof fn unsuitable_files_are_not_loaded<F: SecretFiles, K: KeySource>(
    config: EncryptedFileConfig,
    files: F,
    keys: K,
    loaded: Option<DocumentView>,
)
    requires
        loads(config, files, keys, loaded),
        forall|file: OpenedView| #[trigger]
            opens(files, config.path@, file_limit(config), Some(file)) ==> file.metadata.is_symlink
                || !file.metadata.is_file || file.metadata.len == 0 || file.metadata.len
                > config.max_file_bytes || file.content.len() > config.max_file_bytes,
    ensures
        loaded is None,
{
}

/// Once a document passed verification, each well-formed reference that is bound resolves from
/// it, to a secret that is not empty.
pub proof fn verified_documents_resolve(
    config: EncryptedFileConfig,
    document: DocumentView,
    reference: Seq<char>,
)
    requires
        is_acceptable(config, document),
        verification(config.references@, Some(document)) is Ok,
        capability::bound_source(config.references@, reference) is Ok,
    ensures
        answer(
            reference,
            capability::bound_source(config.references@, reference)->Ok_0,
            Some(document),
        ) matches Ok(value) && value.len() > 0,
{
    let rows = config.references@;
    let problem = |row: (Seq<char>, Seq<char>)| missing_record(document, row);
    table::first_problem_is_first(rows, problem);
    let i = table::row_of(rows, reference);
    assert(problem(rows[i]) is None);
    let k = table::row_of(document.secrets, rows[i].1);
    assert(is_acceptable_record(document.secrets[k]));
}

/// A document that is loaded comes from one file, opened once: a regular file and no link by its own
/// metadata, whose content is decrypted, and from the whole plaintext of it. Neither the file nor
/// the plaintext is longer than the configuration allows. What stands at the path before or after
/// the file was opened does not matter.
pub proof fn documents_come_from_the_checked_file<F: SecretFiles, K: KeySource>(
    config: EncryptedFileConfig,
    files: F,
    keys: K,
    loaded: Option<DocumentView>,
)
    requires
        loads(config, files, keys, loaded),
        loaded is Some,
    ensures
        exists|file: OpenedView, key: Seq<char>| #[trigger]
            is_origin(config, files, keys, loaded, file, key),
{
    let opened = choose|opened: Option<OpenedView>| #[trigger]
        opens(files, config.path@, file_limit(config), opened) && loads_opened(
            config,
            files,
            keys,
            opened,
            loaded,
        );
    let file = opened->0;
    let passphrase = choose|passphrase: Option<Seq<char>>| #[trigger]
        gives(keys, config.key_environment_variable@, passphrase) && match passphrase {
            Some(key) => loads_under_key(config, files, file.content, key, loaded),
            None => loaded is None,
        };
    let key = passphrase->0;
    let plaintext = choose|plaintext: Option<Seq<u8>>| #[trigger]
        decrypts(file.content, key, plaintext_limit(config), plaintext) && loads_plaintext(
            config,
            files,
            plaintext,
            loaded,
        );
    decryption_yields_the_plaintext(file.content, key, plaintext_limit(config), plaintext->0);
    assert(is_origin(config, files, keys, loaded, file, key));
}

/// `loaded` was parsed from the plaintext of `file` under `key`, which the files and the keys gave,
/// and the file is admitted, within the limits of the configuration.
pub open spec fn is_origin<F: SecretFiles, K: KeySource>(
    config: EncryptedFileConfig,
    files: F,
    keys: K,
    loaded: Option<DocumentView>,
    file: OpenedView,
    key: Seq<char>,
) -> bool {
    &&& opens(files, config.path@, file_limit(config), Some(file))
    &&& admits_file(config, file.metadata)
    &&& file.content.len() <= config.max_file_bytes
    &&& gives(keys, config.key_environment_variable@, Some(key))
    &&& age_plaintext(file.content, key).len() <= config.max_plaintext_bytes
    &&& parses(files, age_plaintext(file.content, key), loaded)
}

/// A bound reference is answered with a secret only if an acceptable document was loaded and holds
/// it under the bound name; any other answer is a failure whose text depends on the reference
/// alone.
pub proof fn answers_come_from_the_bound_record<F: SecretFiles, K: KeySource>(
    config: EncryptedFileConfig,
    files: F,
    keys: K,
    loaded: Option<DocumentView>,
    reference: Seq<char>,
    source: Seq<char>,
)
    requires
        loads(config, files, keys, loaded),
    ensures
        match answer(reference, source, loaded) {
            Ok(value) => loaded is Some && is_acceptable(config, loaded->0) && table::lookup(
                loaded->0.secrets,
                source,
            ) == Some(value) && value.len() > 0,
            Err(error) => error == capability::ErrorView::Runtime(
                capability::FailureView::PluginFailure(unavailable_text(reference)),
            ),
        },
{
    if let Ok(_) = answer(reference, source, loaded) {
        let secrets = loaded->0.secrets;
        assert(is_acceptable_record(secrets[table::row_of(secrets, source)]));
    }
}

} // verus!
