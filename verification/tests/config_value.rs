use mowz::config_value::{
    op_program, op_read_args, parse_op_output, EnvLookup, OpError, ResolveError, StringSource, StringValue,
};

fn source(env: Option<&str>, op: Option<&str>, op_account: Option<&str>) -> StringValue {
    StringValue::Source(StringSource {
        env: env.map(str::to_owned),
        op: op.map(str::to_owned),
        op_account: op_account.map(str::to_owned),
    })
}

#[test]
fn resolves_literal_string_without_reinterpreting_it() {
    let value = StringValue::Literal("op://production/grafana/token".to_owned());

    let resolved = value
        .resolve_with(&|_: &str| -> EnvLookup { panic!("literal read environment") }, &|_: &str, _: Option<&str>| -> Result<String, OpError> {
            panic!("literal read op")
        })
        .unwrap();

    assert_eq!(resolved, "op://production/grafana/token");
}

#[test]
fn resolves_env_only_string() {
    let value = source(Some("GRAFANA_TOKEN"), None, None);

    let resolved = value
        .resolve_with(
            &|name: &str| {
                assert_eq!(name, "GRAFANA_TOKEN");
                EnvLookup::Present("environment-secret".to_owned())
            },
            &|_: &str, _: Option<&str>| -> Result<String, OpError> { panic!("env-only value read op") },
        )
        .unwrap();

    assert_eq!(resolved, "environment-secret");
}

#[test]
fn resolves_op_only_string() {
    let value = source(None, Some("op://production/grafana/token"), None);

    let resolved = value
        .resolve_with(&|_: &str| -> EnvLookup { panic!("op-only value read environment") }, &|reference: &str, account: Option<&str>| {
            assert_eq!(reference, "op://production/grafana/token");
            assert_eq!(account, None);
            Ok("one-password-secret".to_owned())
        })
        .unwrap();

    assert_eq!(resolved, "one-password-secret");
}

#[test]
fn resolves_environment_before_op() {
    let value = source(Some("GRAFANA_TOKEN"), Some("op://production/grafana/token"), None);

    let resolved = value
        .resolve_with(&|_: &str| EnvLookup::Present("environment-secret".to_owned()), &|_: &str, _: Option<&str>| -> Result<String, OpError> {
            panic!("op fallback ran despite environment value")
        })
        .unwrap();

    assert_eq!(resolved, "environment-secret");
}

#[test]
fn resolves_op_when_environment_is_missing() {
    let value = source(Some("GRAFANA_TOKEN"), Some("op://production/grafana/token"), None);

    let resolved = value
        .resolve_with(&|_: &str| EnvLookup::NotPresent, &|reference: &str, account: Option<&str>| {
            assert_eq!(reference, "op://production/grafana/token");
            assert_eq!(account, None);
            Ok("one-password-secret".to_owned())
        })
        .unwrap();

    assert_eq!(resolved, "one-password-secret");
}

#[test]
fn does_not_fall_back_when_environment_is_empty() {
    let value = source(Some("GRAFANA_TOKEN"), Some("op://production/grafana/token"), None);

    let resolved = value
        .resolve_with(&|_: &str| EnvLookup::Present(String::new()), &|_: &str, _: Option<&str>| -> Result<String, OpError> {
            panic!("op fallback ran despite an empty environment value")
        })
        .unwrap();

    assert!(resolved.is_empty());
}

#[test]
fn does_not_reinterpret_resolved_values() {
    let value = source(Some("GRAFANA_TOKEN"), None, None);

    let resolved = value
        .resolve_with(&|_: &str| EnvLookup::Present("op://production/grafana/token".to_owned()), &|_: &str, _: Option<&str>| -> Result<String, OpError> {
            panic!("resolved environment value was reinterpreted")
        })
        .unwrap();

    assert_eq!(resolved, "op://production/grafana/token");
}

#[test]
fn resolves_op_with_configured_account() {
    let value = source(None, Some("op://Private/DIALECTIC_GRAFANA_TOKEN/credential"), Some("54BDP35LLRDPFBNWXFDQQYCVXU"));

    let resolved = value
        .resolve_with(&|_: &str| -> EnvLookup { panic!("op-only value read environment") }, &|reference: &str, account: Option<&str>| {
            assert_eq!(reference, "op://Private/DIALECTIC_GRAFANA_TOKEN/credential");
            assert_eq!(account, Some("54BDP35LLRDPFBNWXFDQQYCVXU"));
            Ok("one-password-secret".to_owned())
        })
        .unwrap();

    assert_eq!(resolved, "one-password-secret");
}

#[test]
fn rejects_op_account_without_op() {
    let value = source(Some("GRAFANA_TOKEN"), None, Some("54BDP35LLRDPFBNWXFDQQYCVXU"));

    let error = value
        .resolve_with(&|_: &str| -> EnvLookup { panic!("invalid source read environment") }, &|_: &str, _: Option<&str>| -> Result<String, OpError> {
            panic!("invalid source read op")
        })
        .unwrap_err();

    assert!(error.message().contains("cannot configure `op_account` without `op`"), "{error:?}");
}

#[test]
fn reports_missing_variable_without_fallback() {
    let value = source(Some("GRAFANA_TOKEN"), None, None);
    let error = value
        .resolve_with(&|_: &str| EnvLookup::NotPresent, &|_: &str, _: Option<&str>| -> Result<String, OpError> { panic!("no op") })
        .unwrap_err();
    assert_eq!(error, ResolveError::EnvNotSet { name: "GRAFANA_TOKEN".to_owned() });
    assert_eq!(
        error.message(),
        "environment variable GRAFANA_TOKEN is not set and no 1Password fallback is configured"
    );
}

#[test]
fn reports_non_unicode_variables() {
    let value = source(Some("GRAFANA_TOKEN"), Some("op://x"), None);
    let error = value
        .resolve_with(&|_: &str| EnvLookup::NotUnicode, &|_: &str, _: Option<&str>| -> Result<String, OpError> { panic!("no op") })
        .unwrap_err();
    assert_eq!(error.message(), "environment variable GRAFANA_TOKEN is not valid UTF-8");
}

#[test]
fn reports_sources_without_variable_or_reference() {
    let value = source(None, None, None);
    assert_eq!(value.validate(), Err(ResolveError::NoSource));
    assert_eq!(ResolveError::NoSource.message(), "string source must configure `env`, `op`, or both");
    assert_eq!(source(None, None, Some("a")).validate(), Err(ResolveError::OpAccountWithoutOp));
    assert_eq!(source(Some("A"), None, None).validate(), Ok(()));
    assert_eq!(StringValue::Literal(String::new()).validate(), Ok(()));
}

#[test]
fn passes_op_failures_through() {
    let value = source(None, Some("op://x"), None);
    let error = value
        .resolve_with(&|_: &str| -> EnvLookup { panic!("no env") }, &|_: &str, _: Option<&str>| Err(OpError::NotUtf8))
        .unwrap_err();
    assert_eq!(error, ResolveError::Op(OpError::NotUtf8));
    assert_eq!(error.message(), "`op read` returned a configured value that is not valid UTF-8");
}

#[test]
fn builds_op_read_command_without_account() {
    assert_eq!(op_program(), "op");
    assert_eq!(
        op_read_args("op://production/grafana/token", None),
        ["read", "--no-newline", "op://production/grafana/token"]
    );
}

#[test]
fn builds_op_read_command_with_account() {
    assert_eq!(
        op_read_args("op://Private/DIALECTIC_GRAFANA_TOKEN/credential", Some("54BDP35LLRDPFBNWXFDQQYCVXU")),
        [
            "read",
            "--no-newline",
            "--account",
            "54BDP35LLRDPFBNWXFDQQYCVXU",
            "op://Private/DIALECTIC_GRAFANA_TOKEN/credential",
        ]
    );
}

#[test]
fn includes_trimmed_op_stderr_without_stdout_on_failure() {
    let error = parse_op_output(false, b"  account is ambiguous  \n", b"sentinel-secret-value".to_vec())
        .unwrap_err()
        .message();

    assert!(error.ends_with(": account is ambiguous"), "{error}");
    assert!(!error.contains("sentinel-secret-value"), "{error}");
}

#[test]
fn reports_op_failures_without_diagnostics() {
    let error = parse_op_output(false, b" \n\t", b"secret".to_vec()).unwrap_err();
    assert_eq!(error, OpError::Failed { stderr: String::new() });
    assert_eq!(
        error.message(),
        "`op read` failed; check that the 1Password CLI is authenticated and the configured reference is accessible"
    );
}

#[test]
fn decodes_op_output() {
    assert_eq!(parse_op_output(true, b"", "s\u{e9}cret".as_bytes().to_vec()), Ok("s\u{e9}cret".to_owned()));
    assert_eq!(parse_op_output(true, b"", vec![0xff, 0xfe]), Err(OpError::NotUtf8));
    let lossy = parse_op_output(false, &[b'b', b'a', b'd', 0xff], Vec::new()).unwrap_err();
    assert_eq!(lossy, OpError::Failed { stderr: "bad\u{fffd}".to_owned() });
}
