//! The encrypted-file provider.

use crate::capability;
use crate::capability::{PluginError, ResolveError, ResolveResponse, RuntimeFailure};
use crate::encrypted_file;
use crate::encrypted_file::{
    EncryptedFileConfig, FileDocument, FileMetadata, KeySource, OpenedFile, SecretFiles,
};
use crate::laws;
use crate::laws::terms;
use crate::table;
use crate::table::TextTable;
use vstd::prelude::*;

verus! {

/// What is said of a reference whose record is not there.
pub open spec fn missing(reference: Seq<char>) -> Seq<char> {
    "configured encrypted-file secret reference `"@ + reference + "` is unavailable"@
}

/// A configuration is accepted exactly if its path is not empty, its key is the name of a variable in
/// upper case, it has bindings, each from an accepted reference to an accepted record name of at most
/// 512 bytes, and its file, plaintext and records are between 1 and 67108864 bytes, 16777216 bytes
/// and 100000. It is refused over the first of these that fails.
pub proof fn configurations_are_checked_in_order(
    config: &EncryptedFileConfig,
    outcome: Result<(), RuntimeFailure>,
)
    requires
        call_ensures(encrypted_file::validate_config, (config,), outcome),
    ensures
        if config.path@.len() == 0 {
            terms::refused(outcome, "encrypted secret file path is empty"@)
        } else if !terms::good_upper_variable(config.key_environment_variable@) {
            terms::refused(outcome, "encrypted secret file key environment variable is invalid"@)
        } else if config.references@.len() == 0 {
            terms::refused(
                outcome,
                "encrypted secret file references must contain at least one mapping"@,
            )
        } else if !(forall|i: int|
            0 <= i < config.references@.len() ==> terms::good_binding(
                #[trigger] config.references@[i],
                512,
            )) {
            exists|i: int|
                0 <= i < config.references@.len() && !terms::good_binding(
                    #[trigger] config.references@[i],
                    512,
                ) && (forall|j: int|
                    0 <= j < i ==> terms::good_binding(#[trigger] config.references@[j], 512))
                    && terms::refused(
                    outcome,
                    if terms::good_reference(config.references@[i].0) {
                        "encrypted secret file source name is invalid"@
                    } else {
                        "encrypted secret file logical reference is invalid"@
                    },
                )
        } else if !(1 <= config.max_file_bytes <= 67108864) {
            terms::refused(outcome, "max_file_bytes must be between 1 and 67108864"@)
        } else if !(1 <= config.max_plaintext_bytes <= 16777216) {
            terms::refused(outcome, "max_plaintext_bytes must be between 1 and 16777216"@)
        } else if !(1 <= config.max_records <= 100000) {
            terms::refused(outcome, "max_records must be between 1 and 100000"@)
        } else {
            outcome is Ok
        },
{
    let rows = config.references@;
    let problem = |row: (Seq<char>, Seq<char>)| encrypted_file::binding_problem(row);
    laws::naming::good_upper_variables(config.key_environment_variable@);
    table::first_problem_is_first(rows, problem);
    assert forall|i: int| 0 <= i < rows.len() implies (problem(#[trigger] rows[i]) is None)
        == terms::good_binding(rows[i], 512) by {
        laws::naming::canonical_paths_are_plain(rows[i].0);
        laws::naming::good_sources(rows[i].1, 512);
    }
    if let Some(found) = table::first_problem(rows, problem) {
        let i = choose|i: int|
            0 <= i < rows.len() && #[trigger] problem(rows[i]) == Some(found) && forall|j: int|
                0 <= j < i ==> problem(#[trigger] rows[j]) is None;
        laws::naming::canonical_paths_are_plain(rows[i].0);
        assert(!terms::good_binding(rows[i], 512));
        assert forall|j: int| 0 <= j < i implies terms::good_binding(#[trigger] rows[j], 512) by {
            assert(problem(rows[j]) is None);
        }
    } else {
        assert forall|i: int| 0 <= i < rows.len() implies terms::good_binding(
            #[trigger] rows[i],
            512,
        ) by {
            assert(problem(rows[i]) is None);
        }
    }
}

/// A file that may be read: a regular one and no link, of between 1 byte and the bytes allowed.
pub open spec fn good_file(config: EncryptedFileConfig, metadata: FileMetadata) -> bool {
    metadata.is_file && !metadata.is_symlink && 1 <= metadata.len <= config.max_file_bytes
}

/// A file is admitted exactly if it is regular, no link, not empty and not longer than allowed.
pub proof fn regular_files_are_admitted(
    config: &EncryptedFileConfig,
    metadata: &FileMetadata,
    admitted: bool,
)
    requires
        call_ensures(encrypted_file::file_admitted, (config, metadata), admitted),
    ensures
        admitted == good_file(*config, *metadata),
{
}

/// A document that may be used: of version 1, with between 1 record and the records allowed, each
/// with an accepted name of at most 512 bytes and a secret that is not empty.
pub open spec fn good_document(
    config: EncryptedFileConfig,
    version: u32,
    secrets: table::Rows,
) -> bool {
    &&& version == 1
    &&& 1 <= secrets.len() <= config.max_records
    &&& forall|i: int|
        0 <= i < secrets.len() ==> terms::good_source((#[trigger] secrets[i]).0, 512)
            && secrets[i].1.len() > 0
}

proof fn documents_agree(
    config: EncryptedFileConfig,
    document: encrypted_file::DocumentView,
)
    ensures
        encrypted_file::is_acceptable(config, document) == good_document(
            config,
            document.version,
            document.secrets,
        ),
{
    let secrets = document.secrets;
    assert forall|i: int| 0 <= i < secrets.len() implies encrypted_file::is_acceptable_record(
        #[trigger] secrets[i],
    ) == (terms::good_source(secrets[i].0, 512) && secrets[i].1.len() > 0) by {
        laws::naming::good_sources(secrets[i].0, 512);
    }
    if encrypted_file::is_acceptable(config, document) {
        assert forall|i: int| 0 <= i < secrets.len() implies terms::good_source(
            (#[trigger] secrets[i]).0,
            512,
        ) && secrets[i].1.len() > 0 by {
            assert(encrypted_file::is_acceptable_record(secrets[i]));
        }
    }
}

/// A document is accepted exactly if it is of version 1, has at least one record and no more than
/// allowed, and each record has an accepted name and a secret.
pub proof fn good_documents_are_accepted(
    config: &EncryptedFileConfig,
    document: &FileDocument,
    accepted: bool,
)
    requires
        call_ensures(encrypted_file::document_accepted, (config, document), accepted),
    ensures
        accepted == good_document(*config, document.version, document.secrets@),
{
    documents_agree(*config, document@);
}

/// What was parsed and may be used is handed on unchanged; anything else is refused.
pub open spec fn hands_on(
    config: EncryptedFileConfig,
    parsed: Result<FileDocument, ()>,
    loaded: Result<FileDocument, ()>,
) -> bool {
    match parsed {
        Ok(document) => if good_document(config, document.version, document.secrets@) {
            loaded is Ok && loaded->Ok_0.version == document.version && loaded->Ok_0.secrets@
                == document.secrets@
        } else {
            loaded is Err
        },
        Err(()) => loaded is Err,
    }
}

/// A document that may be used is handed on unchanged, and any other is refused.
pub proof fn good_documents_are_handed_on(
    config: &EncryptedFileConfig,
    parsed: Result<FileDocument, ()>,
    loaded: Result<FileDocument, ()>,
)
    requires
        call_ensures(encrypted_file::accept_document, (config, parsed), loaded),
    ensures
        hands_on(*config, parsed, loaded),
{
    if parsed is Ok {
        documents_agree(*config, parsed->Ok_0@);
    }
}

/// The files may find this in a plaintext.
pub open spec fn may_parse<F: SecretFiles>(
    files: &F,
    plaintext: Seq<u8>,
    got: Result<FileDocument, ()>,
) -> bool {
    exists|bytes: &[u8]|
        bytes@ == plaintext && #[trigger] call_ensures(F::parse, (files, bytes), got)
}

/// The files may hand this over for a path, up to a limit.
pub open spec fn may_open<F: SecretFiles>(
    files: &F,
    path: Seq<char>,
    limit: u64,
    got: Result<OpenedFile, ()>,
) -> bool {
    exists|name: &str|
        name@ == path && #[trigger] call_ensures(F::open, (files, name, limit), got)
}

/// The keys may give this under a name.
pub open spec fn may_key<K: KeySource>(
    keys: &K,
    name: Seq<char>,
    got: Result<String, ()>,
) -> bool {
    exists|asked: &str| asked@ == name && #[trigger] call_ensures(K::read, (keys, asked), got)
}

/// A plaintext longer than allowed is refused. Any other is parsed, and the document in it is handed
/// on if it may be used.
pub proof fn plaintexts_are_parsed_whole<F: SecretFiles>(
    config: &EncryptedFileConfig,
    files: &F,
    plaintext: Vec<u8>,
    loaded: Result<FileDocument, ()>,
)
    requires
        call_ensures(encrypted_file::load_plaintext::<F>, (config, files, plaintext), loaded),
    ensures
        if plaintext@.len() > config.max_plaintext_bytes {
            loaded is Err
        } else {
            exists|got: Result<FileDocument, ()>| #[trigger]
                may_parse(files, plaintext@, got) && hands_on(*config, got, loaded)
        },
{
    if plaintext@.len() <= config.max_plaintext_bytes {
        let document = choose|document: Option<encrypted_file::DocumentView>| #[trigger]
            encrypted_file::parses(*files, plaintext@, document) && encrypted_file::document_of(
                loaded,
            ) == encrypted_file::accepted(*config, document);
        let (bytes, got) = choose|bytes: &[u8], got: Result<FileDocument, ()>|
            bytes@ == plaintext@ && #[trigger] call_ensures(F::parse, (files, bytes), got)
                && document == encrypted_file::document_of(got);
        assert(may_parse(files, plaintext@, got));
        if got is Ok {
            documents_agree(*config, got->Ok_0@);
        }
        assert(hands_on(*config, got, loaded));
    }
}

/// How much of a file is asked for: one byte more than is allowed.
pub open spec fn asked_bytes(config: EncryptedFileConfig) -> u64 {
    if config.max_file_bytes == u64::MAX {
        u64::MAX
    } else {
        (config.max_file_bytes + 1) as u64
    }
}

/// The host offers a document: of a file that may be read the keys give the passphrase, the container
/// always decrypts, and the whole plaintext, no longer than allowed, holds a document that may be
/// used.
pub open spec fn offers_in<F: SecretFiles, K: KeySource>(
    config: EncryptedFileConfig,
    files: &F,
    keys: &K,
    metadata: FileMetadata,
    content: Seq<u8>,
    key: Seq<char>,
    version: u32,
    secrets: table::Rows,
) -> bool {
    &&& good_file(config, metadata)
    &&& content.len() <= config.max_file_bytes
    &&& forall|got: Result<String, ()>| #[trigger]
        may_key(keys, config.key_environment_variable@, got) ==> got is Ok && got->Ok_0@ == key
    &&& encrypted_file::always_decrypts(content, key, config.max_plaintext_bytes as nat + 1)
    &&& encrypted_file::age_plaintext(content, key).len() <= config.max_plaintext_bytes
    &&& forall|got: Result<FileDocument, ()>| #[trigger]
        may_parse(files, encrypted_file::age_plaintext(content, key), got) ==> got is Ok
            && got->Ok_0.version == version && got->Ok_0.secrets@ == secrets
    &&& good_document(config, version, secrets)
}

/// The same, where opening the path always hands this file over.
pub open spec fn offers<F: SecretFiles, K: KeySource>(
    config: EncryptedFileConfig,
    files: &F,
    keys: &K,
    metadata: FileMetadata,
    content: Seq<u8>,
    key: Seq<char>,
    version: u32,
    secrets: table::Rows,
) -> bool {
    &&& forall|got: Result<OpenedFile, ()>| #[trigger]
        may_open(files, config.path@, asked_bytes(config), got) ==> got is Ok
            && got->Ok_0.metadata == metadata && got->Ok_0.content@ == content
    &&& offers_in(config, files, keys, metadata, content, key, version, secrets)
}

proof fn offered_documents_load_from_the_file<F: SecretFiles, K: KeySource>(
    config: EncryptedFileConfig,
    files: &F,
    keys: &K,
    file: encrypted_file::OpenedView,
    key: Seq<char>,
    version: u32,
    secrets: table::Rows,
    loaded: Option<encrypted_file::DocumentView>,
)
    requires
        offers_in(config, files, keys, file.metadata, file.content, key, version, secrets),
        encrypted_file::loads_opened(config, *files, *keys, Some(file), loaded),
    ensures
        loaded is Some,
        loaded->0.version == version,
        loaded->0.secrets == secrets,
{
    let content = file.content;
    let passphrase = choose|passphrase: Option<Seq<char>>| #[trigger]
        encrypted_file::gives(*keys, config.key_environment_variable@, passphrase)
            && match passphrase {
            Some(found) => encrypted_file::loads_under_key(config, *files, content, found, loaded),
            None => loaded is None,
        };
    let (asked, got_key) = choose|asked: &str, got: Result<String, ()>|
        asked@ == config.key_environment_variable@ && #[trigger] call_ensures(
            K::read,
            (keys, asked),
            got,
        ) && passphrase == capability::text_of(got);
    assert(may_key(keys, config.key_environment_variable@, got_key));
    let limit = encrypted_file::plaintext_limit(config);
    let plaintext = choose|plaintext: Option<Seq<u8>>| #[trigger]
        encrypted_file::decrypts(content, key, limit, plaintext) && encrypted_file::loads_plaintext(
            config,
            *files,
            plaintext,
            loaded,
        );
    encrypted_file::decryption_that_succeeds_yields(content, key, limit, plaintext);
    encrypted_file::decryption_yields_the_plaintext(content, key, limit, plaintext->0);
    let whole = encrypted_file::age_plaintext(content, key);
    assert(plaintext->0 == whole);
    let document = choose|document: Option<encrypted_file::DocumentView>| #[trigger]
        encrypted_file::parses(*files, whole, document) && loaded == encrypted_file::accepted(
            config,
            document,
        );
    let (bytes, got) = choose|bytes: &[u8], got: Result<FileDocument, ()>|
        bytes@ == whole && #[trigger] call_ensures(F::parse, (files, bytes), got) && document
            == encrypted_file::document_of(got);
    assert(may_parse(files, whole, got));
    documents_agree(config, got->Ok_0@);
}

proof fn offered_documents_load<F: SecretFiles, K: KeySource>(
    config: EncryptedFileConfig,
    files: &F,
    keys: &K,
    metadata: FileMetadata,
    content: Seq<u8>,
    key: Seq<char>,
    version: u32,
    secrets: table::Rows,
    loaded: Option<encrypted_file::DocumentView>,
)
    requires
        offers(config, files, keys, metadata, content, key, version, secrets),
        encrypted_file::loads(config, *files, *keys, loaded),
    ensures
        loaded is Some,
        loaded->0.version == version,
        loaded->0.secrets == secrets,
{
    let opened = choose|opened: Option<encrypted_file::OpenedView>| #[trigger]
        encrypted_file::opens(*files, config.path@, encrypted_file::file_limit(config), opened)
            && encrypted_file::loads_opened(config, *files, *keys, opened, loaded);
    let (name, got) = choose|name: &str, got: Result<OpenedFile, ()>|
        name@ == config.path@ && #[trigger] call_ensures(
            F::open,
            (files, name, encrypted_file::file_limit(config)),
            got,
        ) && opened == encrypted_file::opened_of(got);
    assert(encrypted_file::file_limit(config) == asked_bytes(config));
    assert(may_open(files, config.path@, asked_bytes(config), got));
    offered_documents_load_from_the_file(
        config,
        files,
        keys,
        opened->0,
        key,
        version,
        secrets,
        loaded,
    );
}

/// A document with this version and these secrets was parsed from the whole plaintext of a file that
/// may be read, under a passphrase that the keys gave, and may be used.
pub open spec fn came_from<F: SecretFiles, K: KeySource>(
    config: EncryptedFileConfig,
    files: &F,
    keys: &K,
    file: OpenedFile,
    key: String,
    parsed: FileDocument,
) -> bool {
    let plaintext = encrypted_file::age_plaintext(file.content@, key@);
    &&& good_file(config, file.metadata)
    &&& file.content@.len() <= config.max_file_bytes
    &&& may_key(keys, config.key_environment_variable@, Ok(key))
    &&& plaintext.len() <= config.max_plaintext_bytes
    &&& may_parse(files, plaintext, Ok(parsed))
    &&& good_document(config, parsed.version, parsed.secrets@)
}

proof fn file_of_a_loaded_document<F: SecretFiles, K: KeySource>(
    config: EncryptedFileConfig,
    files: &F,
    keys: &K,
    file: OpenedFile,
    loaded: encrypted_file::DocumentView,
) -> (origin: (String, FileDocument))
    requires
        encrypted_file::loads_opened(config, *files, *keys, Some(file@), Some(loaded)),
    ensures
        came_from(config, files, keys, file, origin.0, origin.1),
        origin.1.version == loaded.version,
        origin.1.secrets@ == loaded.secrets,
{
    let content = file.content@;
    let passphrase = choose|passphrase: Option<Seq<char>>| #[trigger]
        encrypted_file::gives(*keys, config.key_environment_variable@, passphrase)
            && match passphrase {
            Some(found) => encrypted_file::loads_under_key(
                config,
                *files,
                content,
                found,
                Some(loaded),
            ),
            None => false,
        };
    let (asked, got_key) = choose|asked: &str, got: Result<String, ()>|
        asked@ == config.key_environment_variable@ && #[trigger] call_ensures(
            K::read,
            (keys, asked),
            got,
        ) && passphrase == capability::text_of(got);
    assert(may_key(keys, config.key_environment_variable@, got_key));
    let key = got_key->Ok_0;
    let limit = encrypted_file::plaintext_limit(config);
    let plaintext = choose|plaintext: Option<Seq<u8>>| #[trigger]
        encrypted_file::decrypts(content, key@, limit, plaintext)
            && encrypted_file::loads_plaintext(config, *files, plaintext, Some(loaded));
    encrypted_file::decryption_yields_the_plaintext(content, key@, limit, plaintext->0);
    let whole = encrypted_file::age_plaintext(content, key@);
    assert(plaintext->0 == whole);
    let document = choose|document: Option<encrypted_file::DocumentView>| #[trigger]
        encrypted_file::parses(*files, whole, document) && Some(loaded)
            == encrypted_file::accepted(config, document);
    let (bytes, got) = choose|bytes: &[u8], got: Result<FileDocument, ()>|
        bytes@ == whole && #[trigger] call_ensures(F::parse, (files, bytes), got) && document
            == encrypted_file::document_of(got);
    assert(may_parse(files, whole, got));
    documents_agree(config, got->Ok_0@);
    (key, got->Ok_0)
}

proof fn origin_of_a_loaded_document<F: SecretFiles, K: KeySource>(
    config: EncryptedFileConfig,
    files: &F,
    keys: &K,
    loaded: encrypted_file::DocumentView,
) -> (origin: (OpenedFile, String, FileDocument))
    requires
        encrypted_file::loads(config, *files, *keys, Some(loaded)),
    ensures
        may_open(files, config.path@, asked_bytes(config), Ok(origin.0)),
        came_from(config, files, keys, origin.0, origin.1, origin.2),
        origin.2.version == loaded.version,
        origin.2.secrets@ == loaded.secrets,
{
    let opened = choose|opened: Option<encrypted_file::OpenedView>| #[trigger]
        encrypted_file::opens(*files, config.path@, encrypted_file::file_limit(config), opened)
            && encrypted_file::loads_opened(config, *files, *keys, opened, Some(loaded));
    let (name, got) = choose|name: &str, got: Result<OpenedFile, ()>|
        name@ == config.path@ && #[trigger] call_ensures(
            F::open,
            (files, name, encrypted_file::file_limit(config)),
            got,
        ) && opened == encrypted_file::opened_of(got);
    assert(encrypted_file::file_limit(config) == asked_bytes(config));
    assert(may_open(files, config.path@, asked_bytes(config), got));
    let (key, parsed) = file_of_a_loaded_document(config, files, keys, got->Ok_0, loaded);
    (got->Ok_0, key, parsed)
}

/// What is loaded of an opened file is the document that the host offers in it; and a document is
/// loaded only if it came from that file.
pub proof fn opened_files_give_their_document<F: SecretFiles, K: KeySource>(
    config: &EncryptedFileConfig,
    files: &F,
    keys: &K,
    file: OpenedFile,
    loaded: Result<FileDocument, ()>,
)
    requires
        call_ensures(encrypted_file::load_opened::<F, K>, (config, files, keys, file), loaded),
    ensures
        forall|key: Seq<char>, version: u32, secrets: table::Rows| #[trigger]
            offers_in(*config, files, keys, file.metadata, file.content@, key, version, secrets)
                ==> loaded is Ok && loaded->Ok_0.version == version && loaded->Ok_0.secrets@
                == secrets,
        loaded is Ok ==> exists|key: String, parsed: FileDocument| #[trigger]
            came_from(*config, files, keys, file, key, parsed) && loaded->Ok_0.version
                == parsed.version && loaded->Ok_0.secrets@ == parsed.secrets@,
{
    let view = encrypted_file::document_of(loaded);
    assert forall|key: Seq<char>, version: u32, secrets: table::Rows| #[trigger]
        offers_in(
            *config,
            files,
            keys,
            file.metadata,
            file.content@,
            key,
            version,
            secrets,
        ) implies loaded is Ok && loaded->Ok_0.version == version && loaded->Ok_0.secrets@
        == secrets by {
        offered_documents_load_from_the_file(
            *config,
            files,
            keys,
            file@,
            key,
            version,
            secrets,
            view,
        );
    }
    if loaded is Ok {
        let (key, parsed) = file_of_a_loaded_document(*config, files, keys, file, loaded->Ok_0@);
        assert(came_from(*config, files, keys, file, key, parsed));
    }
}

/// What is loaded is the document that the host offers at the configured path; and a document is
/// loaded only if it came from a file that was opened there.
pub proof fn paths_give_their_document<F: SecretFiles, K: KeySource>(
    config: &EncryptedFileConfig,
    files: &F,
    keys: &K,
    loaded: Result<FileDocument, ()>,
)
    requires
        call_ensures(encrypted_file::load_document::<F, K>, (config, files, keys), loaded),
    ensures
        forall|
            metadata: FileMetadata,
            content: Seq<u8>,
            key: Seq<char>,
            version: u32,
            secrets: table::Rows,
        | #[trigger]
            offers(*config, files, keys, metadata, content, key, version, secrets) ==> loaded is Ok
                && loaded->Ok_0.version == version && loaded->Ok_0.secrets@ == secrets,
        loaded is Ok ==> exists|file: OpenedFile, key: String, parsed: FileDocument|
            may_open(files, config.path@, asked_bytes(*config), Ok(file)) && #[trigger] came_from(
                *config,
                files,
                keys,
                file,
                key,
                parsed,
            ) && loaded->Ok_0.version == parsed.version && loaded->Ok_0.secrets@
                == parsed.secrets@,
{
    let view = encrypted_file::document_of(loaded);
    assert forall|
        metadata: FileMetadata,
        content: Seq<u8>,
        key: Seq<char>,
        version: u32,
        secrets: table::Rows,
    | #[trigger]
        offers(
            *config,
            files,
            keys,
            metadata,
            content,
            key,
            version,
            secrets,
        ) implies loaded is Ok && loaded->Ok_0.version == version && loaded->Ok_0.secrets@
        == secrets by {
        offered_documents_load(
            *config,
            files,
            keys,
            metadata,
            content,
            key,
            version,
            secrets,
            view,
        );
    }
    if loaded is Ok {
        let (file, key, parsed) = origin_of_a_loaded_document(
            *config,
            files,
            keys,
            loaded->Ok_0@,
        );
        assert(came_from(*config, files, keys, file, key, parsed));
    }
}

/// A document answers with the whole secret of the record, and where it has no such record, or there
/// is no document, the answer names the reference.
pub proof fn answers_are_the_record(
    reference: &str,
    source: &str,
    loaded: Result<FileDocument, ()>,
    answered: Result<ResolveResponse, PluginError>,
)
    requires
        call_ensures(encrypted_file::answer_from, (reference, source, loaded), answered),
    ensures
        if loaded is Err || terms::unnamed(loaded->Ok_0.secrets@, source@) {
            answered matches Err(PluginError::Runtime(failure)) && terms::reported(
                failure,
                missing(reference@),
            )
        } else {
            answered is Ok && loaded->Ok_0.secrets@.contains((source@, answered->Ok_0.value@))
                && terms::unique(loaded->Ok_0.secrets@)
        },
{
    if loaded is Ok {
        let rows = loaded->Ok_0.secrets@;
        laws::table::lookups_read_rows(rows, source@, source@);
        if let Some(value) = table::lookup(rows, source@) {
            laws::table::lookups_read_rows(rows, source@, value);
        }
    }
}

/// A reference that is not accepted or stands in no row is refused. For any other the document that
/// the host offers answers with the whole secret of the record in the row of the reference; a secret
/// comes only from such a record; and any other answer names the reference.
pub proof fn requests_read_the_bound_record<F: SecretFiles, K: KeySource>(
    config: &EncryptedFileConfig,
    files: &F,
    keys: &K,
    reference: &str,
    answered: Result<ResolveResponse, PluginError>,
)
    requires
        call_ensures(encrypted_file::resolve::<F, K>, (config, files, keys, reference), answered),
    ensures
        if !terms::good_reference(reference@) {
            answered matches Err(PluginError::Domain(ResolveError::InvalidReference))
        } else if terms::unnamed(config.references@, reference@) {
            answered matches Err(PluginError::Domain(ResolveError::UnknownReference))
        } else {
            exists|source: Seq<char>|
                config.references@.contains((reference@, source)) && #[trigger] answers_from_record(
                    *config,
                    files,
                    keys,
                    reference@,
                    source,
                    answered,
                )
        },
{
    let rows = config.references@;
    laws::capability::bindings_are_rows(rows, reference@);
    if let Ok(source) = capability::bound_source(rows, reference@) {
        let i = rows.index_of((reference@, source));
        assert(rows[i].0 == reference@);
        let loaded = choose|loaded: Option<encrypted_file::DocumentView>| #[trigger]
            encrypted_file::loads(*config, *files, *keys, loaded) && capability::answered(answered)
                == encrypted_file::answer(reference@, source, loaded);
        assert forall|
            metadata: FileMetadata,
            content: Seq<u8>,
            key: Seq<char>,
            version: u32,
            secrets: table::Rows,
            value: Seq<char>,
        |
            #![trigger offers(
                *config,
                files,
                keys,
                metadata,
                content,
                key,
                version,
                secrets,
            ), secrets.contains((source, value))]
            offers(*config, files, keys, metadata, content, key, version, secrets)
                && terms::unique(secrets) && secrets.contains((source, value)) implies answered
            is Ok && answered->Ok_0.value@ == value by {
            offered_documents_load(
                *config,
                files,
                keys,
                metadata,
                content,
                key,
                version,
                secrets,
                loaded,
            );
            laws::table::lookups_find_unique_rows(secrets, source, value);
        }
        if answered is Ok {
            let (file, key, parsed) = origin_of_a_loaded_document(
                *config,
                files,
                keys,
                loaded->0,
            );
            assert(came_from(*config, files, keys, file, key, parsed));
            let secrets = parsed.secrets@;
            let k = table::row_of(secrets, source);
            assert(secrets[k] == (source, answered->Ok_0.value@));
        }
        assert(answers_from_record(*config, files, keys, reference@, source, answered));
    }
}

/// The document that the host offers answers with the secret of the record `source`; a secret comes
/// only from such a record of a document that came from the configured file; and any other answer
/// names the reference.
pub open spec fn answers_from_record<F: SecretFiles, K: KeySource>(
    config: EncryptedFileConfig,
    files: &F,
    keys: &K,
    reference: Seq<char>,
    source: Seq<char>,
    answered: Result<ResolveResponse, PluginError>,
) -> bool {
    &&& forall|
        metadata: FileMetadata,
        content: Seq<u8>,
        key: Seq<char>,
        version: u32,
        secrets: table::Rows,
        value: Seq<char>,
    |
        #![trigger offers(
            config,
            files,
            keys,
            metadata,
            content,
            key,
            version,
            secrets,
        ), secrets.contains((source, value))]
        offers(config, files, keys, metadata, content, key, version, secrets) && terms::unique(
            secrets,
        ) && secrets.contains((source, value)) ==> answered is Ok && answered->Ok_0.value@ == value
    &&& answered is Ok ==> exists|file: OpenedFile, key: String, parsed: FileDocument|
        may_open(files, config.path@, asked_bytes(config), Ok(file)) && #[trigger] came_from(
            config,
            files,
            keys,
            file,
            key,
            parsed,
        ) && parsed.secrets@.contains((source, answered->Ok_0.value@))
    &&& answered is Err ==> (answered matches Err(PluginError::Runtime(failure))
        && terms::reported(failure, missing(reference)))
}

/// Every binding has its record.
pub open spec fn complete(rows: table::Rows, secrets: table::Rows) -> bool {
    forall|i: int| 0 <= i < rows.len() ==> !terms::unnamed(secrets, (#[trigger] rows[i]).1)
}

/// The failure names the reference of the first binding that has no record.
pub open spec fn names_first_missing(
    rows: table::Rows,
    secrets: table::Rows,
    outcome: Result<(), RuntimeFailure>,
) -> bool {
    exists|i: int|
        0 <= i < rows.len() && terms::unnamed(secrets, (#[trigger] rows[i]).1) && (forall|j: int|
            0 <= j < i ==> !terms::unnamed(secrets, (#[trigger] rows[j]).1)) && outcome is Err
            && terms::reported(outcome->Err_0, missing(rows[i].0))
}

proof fn verifications_agree(
    rows: table::Rows,
    document: encrypted_file::DocumentView,
    outcome: Result<(), RuntimeFailure>,
)
    requires
        capability::checked(outcome) == encrypted_file::verification(rows, Some(document)),
    ensures
        outcome is Ok <==> complete(rows, document.secrets),
        outcome is Err ==> names_first_missing(rows, document.secrets, outcome),
{
    let secrets = document.secrets;
    let problem = |row: (Seq<char>, Seq<char>)| encrypted_file::missing_record(document, row);
    table::first_problem_is_first(rows, problem);
    assert forall|i: int| 0 <= i < rows.len() implies (problem(#[trigger] rows[i]) is None)
        == !terms::unnamed(secrets, rows[i].1) by {
        let name = rows[i].1;
        if table::is_bound(secrets, name) {
            let k = table::row_of(secrets, name);
            assert(secrets[k].0 == name);
        }
    }
    match table::first_problem(rows, problem) {
        Some(found) => {
            let i = choose|i: int|
                0 <= i < rows.len() && #[trigger] problem(rows[i]) == Some(found) && forall|j: int|
                    0 <= j < i ==> problem(#[trigger] rows[j]) is None;
            assert(terms::unnamed(secrets, rows[i].1));
            assert forall|j: int| 0 <= j < i implies !terms::unnamed(
                secrets,
                (#[trigger] rows[j]).1,
            ) by {
                assert(problem(rows[j]) is None);
            }
        },
        None => {
            assert forall|i: int| 0 <= i < rows.len() implies !terms::unnamed(
                secrets,
                (#[trigger] rows[i]).1,
            ) by {
                assert(problem(rows[i]) is None);
            }
        },
    }
}

/// A document passes exactly if every binding has its record in it, whatever else it holds; if not,
/// the failure names the reference of the first binding that has none.
pub proof fn complete_documents_pass(
    references: &TextTable,
    document: &FileDocument,
    outcome: Result<(), RuntimeFailure>,
)
    requires
        call_ensures(encrypted_file::verify_document, (references, document), outcome),
    ensures
        outcome is Ok <==> complete(references@, document.secrets@),
        outcome is Err ==> names_first_missing(references@, document.secrets@, outcome),
{
    verifications_agree(references@, document@, outcome);
}

/// Where the host offers a document, preparation succeeds exactly if every binding has its record in
/// it, and else names the first that has none. It succeeds only over a document that came from the
/// configured file; and where it fails over none, it says that the file is unavailable.
pub proof fn preparation_needs_a_complete_document<F: SecretFiles, K: KeySource>(
    config: &EncryptedFileConfig,
    files: &F,
    keys: &K,
    outcome: Result<(), RuntimeFailure>,
)
    requires
        call_ensures(encrypted_file::verify_sources::<F, K>, (config, files, keys), outcome),
    ensures
        forall|
            metadata: FileMetadata,
            content: Seq<u8>,
            key: Seq<char>,
            version: u32,
            secrets: table::Rows,
        | #[trigger]
            offers(*config, files, keys, metadata, content, key, version, secrets) ==> if complete(
                config.references@,
                secrets,
            ) {
                outcome is Ok
            } else {
                names_first_missing(config.references@, secrets, outcome)
            },
        (exists|file: OpenedFile, key: String, parsed: FileDocument|
            may_open(files, config.path@, asked_bytes(*config), Ok(file)) && #[trigger] came_from(
                *config,
                files,
                keys,
                file,
                key,
                parsed,
            ) && if complete(config.references@, parsed.secrets@) {
                outcome is Ok
            } else {
                names_first_missing(config.references@, parsed.secrets@, outcome)
            }) || outcome is Err && terms::reported(
            outcome->Err_0,
            "configured encrypted secret file is unavailable"@,
        ),
{
    let rows = config.references@;
    let loaded = choose|loaded: Option<encrypted_file::DocumentView>| #[trigger]
        encrypted_file::loads(*config, *files, *keys, loaded) && capability::checked(outcome)
            == encrypted_file::verification(rows, loaded);
    if loaded is Some {
        verifications_agree(rows, loaded->0, outcome);
        let (file, key, parsed) = origin_of_a_loaded_document(*config, files, keys, loaded->0);
        assert(came_from(*config, files, keys, file, key, parsed));
    }
    assert forall|
        metadata: FileMetadata,
        content: Seq<u8>,
        key: Seq<char>,
        version: u32,
        secrets: table::Rows,
    | #[trigger]
        offers(
            *config,
            files,
            keys,
            metadata,
            content,
            key,
            version,
            secrets,
        ) implies if complete(rows, secrets) {
        outcome is Ok
    } else {
        names_first_missing(rows, secrets, outcome)
    } by {
        offered_documents_load(
            *config,
            files,
            keys,
            metadata,
            content,
            key,
            version,
            secrets,
            loaded,
        );
    }
}

/// Wiping a document leaves its version and its record names, each beside an empty secret.
pub proof fn wiping_empties_every_secret(document: &mut FileDocument)
    requires
        call_ensures(FileDocument::wipe, (document,), ()),
    ensures
        final(document).version == old(document).version,
        final(document).secrets@.len() == old(document).secrets@.len(),
        forall|i: int|
            0 <= i < old(document).secrets@.len() ==> (#[trigger] final(document).secrets@[i]).0
                == old(document).secrets@[i].0 && final(document).secrets@[i].1.len() == 0,
{
}

} // verus!
