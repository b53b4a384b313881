use lenso_secrets::capability::{PluginError, ResolveError, RuntimeFailure};
use lenso_secrets::command::{
    check_config, command_request, continue_preparation, finish_resolution, program_unchanged,
    validate_config, verification_step, CommandConfig, CommandSecretsPlugin, LocatedProgram,
    PrepareStep, PreparedProgram, SOURCE_PLACEHOLDER,
};
use lenso_secrets::process::{accept_output, wait_action, BoundedOutput, WaitAction};
use lenso_secrets::table::TextTable;

fn table(rows: &[(&str, &str)]) -> TextTable {
    let mut table = TextTable::new();
    for (name, value) in rows {
        assert!(table.insert((*name).to_owned(), (*value).to_owned()));
    }
    table
}

fn texts(texts: &[&str]) -> Vec<String> {
    texts.iter().map(|text| (*text).to_owned()).collect()
}

fn config(program: &str) -> CommandConfig {
    CommandConfig {
        program: program.to_owned(),
        arguments: vec![SOURCE_PLACEHOLDER.to_owned()],
        environment_allowlist: Vec::new(),
        references: table(&[("model/openai-api-key", "op://vault/item/password")]),
        timeout_ms: 2_000,
        max_output_bytes: 4096,
    }
}

/// What a command that wrote these chunks and ended well or not leaves behind.
fn run(success: bool, chunks: &[&[u8]], limit: usize) -> Result<String, ()> {
    let mut output = BoundedOutput::new();
    for chunk in chunks {
        output.absorb(chunk, limit);
    }
    accept_output(success, output)
}

#[test]
fn command_observes_rotation_and_strips_only_one_line_ending() {
    let first = run(true, &[b"first-secret\n"], 4096);
    assert_eq!(first, Ok("first-secret".to_owned()));
    let answered = finish_resolution("model/openai-api-key", first).ok().unwrap();
    assert!(!answered.debug_text().contains("first-secret"));

    let rotated = run(true, &[b"rotated-secret"], 4096);
    assert_eq!(rotated, Ok("rotated-secret".to_owned()));

    assert_eq!(run(true, &[b"secret\r\n"], 4096), Ok("secret".to_owned()));
    assert_eq!(run(true, &[b"secret\n\n"], 4096), Ok("secret\n".to_owned()));
    assert_eq!(run(true, &[b"secret\r"], 4096), Ok("secret\r".to_owned()));
}

#[test]
fn stderr_nonzero_timeout_and_output_overflow_are_redacted() {
    let failure = run(false, &[b"never-log-this"], 4096);
    assert!(failure.is_err());
    assert!(!format!("{failure:?}").contains("never-log-this"));
    let reported = finish_resolution("model/openai-api-key", failure).err().unwrap();
    assert!(!format!("{reported:?}").contains("never-log-this"));

    assert_eq!(wait_action(false, 10, 10, false), WaitAction::Kill);
    assert_eq!(wait_action(false, 9, 10, false), WaitAction::Pause);

    assert!(run(true, &[b"123456789"], 4).is_err());
}

#[test]
fn configuration_requires_absolute_program_and_one_standalone_placeholder() {
    let mut invalid = config("relative");
    assert!(validate_config(&invalid).is_err());
    invalid.program = "/absolute/resolver".to_owned();
    assert!(validate_config(&invalid).is_ok());
    invalid.arguments = vec!["prefix-{source}".to_owned()];
    assert!(validate_config(&invalid).is_err());
    invalid.arguments = vec![SOURCE_PLACEHOLDER.to_owned(), SOURCE_PLACEHOLDER.to_owned()];
    assert!(validate_config(&invalid).is_err());
}

fn refused(detail: &str) -> Result<(), RuntimeFailure> {
    Err(RuntimeFailure::InvalidResolvedPlan {
        detail: detail.to_owned(),
    })
}

#[test]
fn command_configuration_errors_come_in_order() {
    let mut bad = config("/bin/op");
    assert_eq!(check_config(&bad, true), Ok(()));
    bad.max_output_bytes = 1_048_577;
    assert_eq!(
        check_config(&bad, true),
        refused("max_output_bytes must be between 1 and 1048576")
    );
    bad.timeout_ms = 300_001;
    assert_eq!(
        check_config(&bad, true),
        refused("timeout_ms must be between 1 and 300000")
    );
    bad.references = table(&[("a", "b"), ("c", "\t")]);
    assert_eq!(
        check_config(&bad, true),
        refused("Secrets command references are invalid")
    );
    bad.environment_allowlist = texts(&["HOME", "PATH", "HOME"]);
    let names = "Secrets command environment allowlist contains invalid or duplicate names";
    assert_eq!(check_config(&bad, true), refused(names));
    bad.environment_allowlist = texts(&["home"]);
    assert_eq!(check_config(&bad, true), refused(names));
    bad.environment_allowlist = (0..65).map(|i| format!("A{i}")).collect();
    assert_eq!(
        check_config(&bad, true),
        refused("Secrets command environment allowlist cannot exceed 64 names")
    );
    let placeholder =
        "Secrets command arguments require exactly one standalone `{source}` placeholder";
    for arguments in [
        texts(&["read"]),
        texts(&["{source}", "{source}"]),
        texts(&["{source}", "x{source}"]),
        vec!["{source}".to_owned(), "x".repeat(65_529)],
    ] {
        bad.arguments = arguments;
        assert_eq!(check_config(&bad, true), refused(placeholder));
    }
    bad.arguments = texts(&["{source}", "a\0"]);
    assert_eq!(
        check_config(&bad, true),
        refused("Secrets command arguments are invalid")
    );
    let count = "Secrets command arguments must contain between 1 and 64 entries";
    bad.arguments = Vec::new();
    assert_eq!(check_config(&bad, true), refused(count));
    bad.arguments = vec!["x".to_owned(); 65];
    assert_eq!(check_config(&bad, true), refused(count));
    let absolute = "Secrets command program must be absolute";
    assert_eq!(check_config(&bad, false), refused(absolute));
    bad.program = String::new();
    assert_eq!(check_config(&bad, true), refused(absolute));
    assert_eq!(validate_config(&bad), refused(absolute));
}

#[test]
fn command_configuration_limits_are_within_reach() {
    let mut largest = config("/bin/op");
    largest.arguments = vec!["{source}".to_owned(), "x".repeat(65_528)];
    largest.environment_allowlist = (0..64).map(|i| format!("A{i}")).collect();
    largest.references = table(&[("a", &"s".repeat(4096))]);
    largest.timeout_ms = 300_000;
    largest.max_output_bytes = 1_048_576;
    assert_eq!(check_config(&largest, true), Ok(()));
}

#[test]
fn the_source_takes_the_place_of_the_placeholder() {
    let mut config = config("/bin/op");
    config.arguments = texts(&["read", "--no-newline", "{source}", "{ source }"]);
    config.environment_allowlist = texts(&["HOME"]);
    let prepared = PreparedProgram {
        executable: b"/usr/bin/op".to_vec(),
    };
    let request = command_request(&config, &prepared, "op://x; rm -rf {source}");
    assert_eq!(
        request.arguments,
        texts(&["read", "--no-newline", "op://x; rm -rf {source}", "{ source }"])
    );
    assert_eq!(request.configured_program, "/bin/op");
    assert_eq!(request.executable, b"/usr/bin/op");
    assert_eq!(request.environment_allowlist, texts(&["HOME"]));
    assert_eq!(request.timeout_ms, 2_000);
    assert_eq!(request.max_output_bytes, 4096);
    assert!(program_unchanged(&request, b"/usr/bin/op"));
    assert!(!program_unchanged(&request, b"/usr/bin/oq"));
    assert!(!program_unchanged(&request, b"/usr/bin/o"));
}

fn located(is_file: bool) -> Option<LocatedProgram> {
    Some(LocatedProgram {
        path: b"/usr/bin/op".to_vec(),
        is_file,
    })
}

#[test]
fn a_provider_is_prepared_by_a_regular_file() {
    let mut plugin = CommandSecretsPlugin::new(config("/bin/op"));
    assert_eq!(
        plugin.begin_preparation(None),
        refused("Secrets command program is unavailable")
    );
    assert_eq!(
        plugin.begin_preparation(located(false)),
        refused("Secrets command program is not a regular file")
    );
    assert_eq!(plugin.prepared, None);
    assert_eq!(plugin.begin_preparation(located(true)), Ok(()));
    assert_eq!(
        plugin.prepared,
        Some(PreparedProgram {
            executable: b"/usr/bin/op".to_vec()
        })
    );
    plugin.deactivate();
    assert_eq!(plugin.prepared, None);
}

#[test]
fn preparation_runs_every_reference_in_order() {
    let mut config = config("/bin/op");
    config.references = table(&[("b", "two"), ("a", "one")]);
    let prepared = PreparedProgram {
        executable: b"/usr/bin/op".to_vec(),
    };
    let mut sources = Vec::new();
    let mut step = verification_step(&config, &prepared, 0);
    while let PrepareStep::Run { position, request } = step {
        sources.push(request.arguments[0].clone());
        step = continue_preparation(&config, &prepared, position, true)
            .ok()
            .unwrap();
    }
    assert_eq!(sources, texts(&["one", "two"]));
}

#[test]
fn preparation_fails_with_the_first_missing_secret() {
    let mut config = config("/bin/op");
    config.references = table(&[("b", "two"), ("a", "one")]);
    let prepared = PreparedProgram {
        executable: b"/usr/bin/op".to_vec(),
    };
    assert_eq!(
        continue_preparation(&config, &prepared, 1, false).err().unwrap(),
        RuntimeFailure::PluginFailure {
            detail: "configured command secret reference `b` is unavailable".to_owned()
        }
    );
}

#[test]
fn requests_are_refused_before_anything_runs() {
    let mut plugin = CommandSecretsPlugin::new(config("/bin/op"));
    assert_eq!(
        plugin.begin_resolution("../x").err().unwrap(),
        PluginError::Domain(ResolveError::InvalidReference)
    );
    assert_eq!(
        plugin.begin_resolution("other").err().unwrap(),
        PluginError::Domain(ResolveError::UnknownReference)
    );
    assert_eq!(
        plugin.begin_resolution("model/openai-api-key").err().unwrap(),
        PluginError::Runtime(RuntimeFailure::Unavailable {
            capability: "lenso.secrets@1"
        })
    );
    plugin.begin_preparation(located(true)).unwrap();
    let request = plugin.begin_resolution("model/openai-api-key").ok().unwrap();
    assert_eq!(request.arguments, texts(&["op://vault/item/password"]));
    assert_eq!(request.executable, b"/usr/bin/op");
}

#[test]
fn outputs_are_kept_up_to_the_limit() {
    let mut output = BoundedOutput::new();
    output.absorb(b"abc", 5);
    output.absorb(b"", 5);
    output.absorb(b"de", 5);
    assert_eq!(output.bytes, b"abcde");
    assert!(!output.overflow);
    output.absorb(b"f", 5);
    assert_eq!(output.bytes, b"abcde");
    assert!(output.overflow);
    output.absorb(b"", 5);
    assert!(output.overflow);
}

#[test]
fn chunks_do_not_change_the_secret() {
    assert_eq!(
        run(true, &[b"se", b"cr", b"et\n"], 7),
        run(true, &[b"secret\n"], 7)
    );
    assert_eq!(run(true, &[b"secret", b"\n"], 6), Err(()));
}

#[test]
fn outputs_without_a_secret_are_refused() {
    assert_eq!(run(true, &[], 10), Err(()));
    assert_eq!(run(true, &[b"\r\n"], 10), Err(()));
    assert_eq!(run(true, &[b"\xff"], 10), Err(()));
    assert_eq!(run(true, &["\u{1f511}\n".as_bytes()], 10), Ok("\u{1f511}".to_owned()));
}

#[test]
fn an_exit_counts_even_when_the_time_is_up() {
    assert_eq!(wait_action(true, 10, 1, true), WaitAction::Collect);
    assert_eq!(wait_action(false, 0, 1, true), WaitAction::Kill);
    assert_eq!(wait_action(false, 0, 0, false), WaitAction::Kill);
}

#[test]
fn bare_names_are_refused_as_programs() {
    for program in ["", "relative", "op", "."] {
        assert_eq!(
            validate_config(&config(program)),
            refused("Secrets command program must be absolute")
        );
    }
    assert_eq!(
        validate_config(&config("bin/op")),
        refused("Secrets command program must be absolute")
    );
}
