use git_remote_opendal::config::RemoteConfig;
use git_remote_opendal::credentials::{
    check_prompt_input, env_key_for_upper, env_var_name, env_var_name_for_upper, git_config_key,
    prompt_answer, prompt_label, specs_for_scheme, tty_hint_for_upper, tty_unavailable_hint,
    validate_url, ParamSpec, PromptCheck, ResolveAction, ResolveError, Resolver,
};
use git_remote_opendal::strmap::StringMap;
use std::collections::HashMap;

fn make_cfg(scheme: &str) -> RemoteConfig {
    RemoteConfig { scheme: scheme.to_string(), root: "/".to_string(), params: StringMap::new() }
}

/// Drive the resolver against an in-memory Git configuration, answering
/// prompts with `injector`.
fn resolve_with_injector<F>(
    cfg: RemoteConfig,
    git_config: &mut HashMap<String, String>,
    mut injector: F,
) -> Result<RemoteConfig, ResolveError>
where
    F: FnMut(&ParamSpec) -> Option<String>,
{
    let (mut r, mut act) = Resolver::start(cfg);
    loop {
        act = match act {
            ResolveAction::LookupConfig { config_key } => {
                r.on_config_value(git_config.get(&config_key).cloned())
            }
            ResolveAction::Prompt(spec) => {
                let v = injector(&spec);
                r.on_answer(v)
            }
            ResolveAction::SaveConfig { config_key, value, .. } => {
                git_config.insert(config_key, value);
                r.on_saved()
            }
            ResolveAction::Done => return Ok(r.into_config()),
            ResolveAction::Fail(e) => return Err(e),
        };
    }
}

#[test]
fn specs_s3_bucket_is_required() {
    let specs = specs_for_scheme("s3");
    let bucket = specs.iter().find(|s| s.key == "bucket").expect("bucket spec");
    assert!(bucket.required);
    assert!(!bucket.sensitive);
    assert!(bucket.prompt);
}

#[test]
fn specs_s3_secret_is_sensitive() {
    let specs = specs_for_scheme("s3");
    let secret = specs.iter().find(|s| s.key == "secret-access-key").expect("secret spec");
    assert!(!secret.required);
    assert!(secret.sensitive);
    assert!(secret.prompt);
}

#[test]
fn specs_fs_is_empty() {
    assert!(specs_for_scheme("fs").is_empty());
}

#[test]
fn specs_memory_is_empty() {
    assert!(specs_for_scheme("memory").is_empty());
}

#[test]
fn specs_unknown_is_empty() {
    assert!(specs_for_scheme("nonexistent").is_empty());
}

#[test]
fn gcs_credential_has_no_prompt() {
    let specs = specs_for_scheme("gcs");
    let cred = specs.iter().find(|s| s.key == "credential").expect("credential spec");
    assert!(!cred.prompt);
}

#[test]
fn gdrive_access_token_has_no_prompt() {
    let specs = specs_for_scheme("gdrive");
    let tok = specs.iter().find(|s| s.key == "access-token").expect("access-token spec");
    assert!(!tok.prompt);
}

#[test]
fn specs_orders_and_counts() {
    let keys: Vec<&str> = specs_for_scheme("azblob").iter().map(|s| s.key).collect();
    assert_eq!(keys, vec!["container", "account-name", "account-key", "endpoint"]);
    assert_eq!(specs_for_scheme("s3").len(), 5);
    assert_eq!(specs_for_scheme("gcs").len(), 4);
    assert_eq!(specs_for_scheme("gdrive").len(), 4);
}

#[test]
fn resolve_skips_already_set_params() {
    let mut git_config = HashMap::new();
    let mut cfg = make_cfg("s3");
    cfg.params.insert("bucket".to_string(), "pre-set".to_string());
    let call_count = std::cell::Cell::new(0u32);
    let cfg = resolve_with_injector(cfg, &mut git_config, |spec| {
        if spec.key == "bucket" {
            call_count.set(call_count.get() + 1);
        }
        None
    })
    .unwrap();
    assert_eq!(call_count.get(), 0, "injector should not be called for pre-set params");
    assert_eq!(cfg.params.get("bucket").unwrap(), "pre-set");
}

#[test]
fn resolve_prompts_for_missing_required() {
    let mut git_config = HashMap::new();
    let cfg = resolve_with_injector(make_cfg("s3"), &mut git_config, |spec| {
        if spec.key == "bucket" {
            Some("injected-bucket".to_string())
        } else {
            None
        }
    })
    .unwrap();
    assert_eq!(cfg.params.get("bucket").unwrap(), "injected-bucket");
}

#[test]
fn resolve_errors_on_blank_required() {
    let mut git_config = HashMap::new();
    let result = resolve_with_injector(make_cfg("s3"), &mut git_config, |_| None);
    assert!(result.is_err(), "should fail when required param is blank");
}

#[test]
fn resolve_skips_no_prompt_specs() {
    let mut git_config = HashMap::new();
    let mut prompted_keys: Vec<&str> = Vec::new();
    resolve_with_injector(make_cfg("gcs"), &mut git_config, |spec| {
        prompted_keys.push(spec.key);
        if spec.key == "bucket" {
            Some("test-bucket".to_string())
        } else {
            None
        }
    })
    .unwrap();
    assert!(
        !prompted_keys.contains(&"credential"),
        "credential (prompt:false) should not trigger injector"
    );
}

#[test]
fn resolve_saves_answers_and_skips_and_does_not_ask_again() {
    let mut git_config = HashMap::new();
    let cfg = resolve_with_injector(make_cfg("s3"), &mut git_config, |spec| {
        if spec.key == "bucket" {
            Some("b".to_string())
        } else {
            None
        }
    })
    .unwrap();
    assert_eq!(cfg.params.get("bucket").unwrap(), "b");
    assert_eq!(git_config.get("opendal.s3.bucket").unwrap(), "b");
    assert_eq!(git_config.get("opendal.s3.region").unwrap(), "");
    assert!(!cfg.params.contains_key("region"));
    let mut asked = 0;
    let cfg = resolve_with_injector(make_cfg("s3"), &mut git_config, |_| {
        asked += 1;
        None
    })
    .unwrap();
    assert_eq!(asked, 0);
    assert_eq!(cfg.params.get("bucket").unwrap(), "b");
    assert_eq!(cfg.params.len(), 1);
}

#[test]
fn resolve_reports_missing_required_variable() {
    let mut git_config = HashMap::new();
    match resolve_with_injector(make_cfg("azblob"), &mut git_config, |_| None) {
        Err(ResolveError::MissingRequired { key, env_var }) => {
            assert_eq!(key, "container");
            assert_eq!(env_var, "OPENDAL_AZBLOB_CONTAINER");
        }
        other => panic!("unexpected: {:?}", other.map(|c| c.scheme)),
    }
}

#[test]
fn resolve_warns_about_plain_text_secrets() {
    let mut cfg = make_cfg("s3");
    cfg.params.insert("bucket".to_string(), "x".to_string());
    cfg.params.insert("region".to_string(), "r".to_string());
    cfg.params.insert("endpoint".to_string(), "https://e".to_string());
    cfg.params.insert("access-key-id".to_string(), "id".to_string());
    let (mut r, act) = Resolver::start(cfg);
    match act {
        ResolveAction::LookupConfig { config_key } => {
            assert_eq!(config_key, "opendal.s3.secret-access-key")
        }
        other => panic!("unexpected {:?}", other),
    }
    match r.on_config_value(None) {
        ResolveAction::Prompt(spec) => assert_eq!(spec.key, "secret-access-key"),
        other => panic!("unexpected {:?}", other),
    }
    match r.on_answer(Some("s3cr3t".to_string())) {
        ResolveAction::SaveConfig { config_key, param, value, warn_env_var, report_failure } => {
            assert_eq!(config_key, "opendal.s3.secret-access-key");
            assert_eq!(param, "secret-access-key");
            assert_eq!(value, "s3cr3t");
            assert_eq!(warn_env_var.as_deref(), Some("OPENDAL_S3_SECRET_ACCESS_KEY"));
            assert!(report_failure);
        }
        other => panic!("unexpected {:?}", other),
    }
    assert!(matches!(r.on_saved(), ResolveAction::Done));
    assert_eq!(r.into_config().params.get("secret-access-key").unwrap(), "s3cr3t");
}

#[test]
fn git_config_key_format() {
    assert_eq!(git_config_key("s3", "bucket"), "opendal.s3.bucket");
    assert_eq!(git_config_key("azblob", "account-name"), "opendal.azblob.account-name");
}

#[test]
fn validate_url_accepts_http_schemes_only() {
    assert_eq!(validate_url("http://x"), None);
    assert_eq!(validate_url("https://x"), None);
    assert_eq!(validate_url("ftp://x"), Some("Must start with http:// or https://"));
    assert_eq!(validate_url("HTTP://x"), Some("Must start with http:// or https://"));
}

#[test]
fn prompt_answer_validation_and_labels() {
    let specs = specs_for_scheme("s3");
    let endpoint = specs.iter().find(|s| s.key == "endpoint").unwrap();
    assert!(matches!(
        check_prompt_input(endpoint, Some("minio:9000".to_string())),
        PromptCheck::Retry("Must start with http:// or https://")
    ));
    match check_prompt_input(endpoint, Some("http://minio:9000".to_string())) {
        PromptCheck::Accept(Some(v)) => assert_eq!(v, "http://minio:9000"),
        other => panic!("unexpected {:?}", other),
    }
    assert!(matches!(check_prompt_input(endpoint, None), PromptCheck::Accept(None)));
    let bucket = specs.iter().find(|s| s.key == "bucket").unwrap();
    assert_eq!(prompt_label(bucket), "S3 bucket name: ");
    assert_eq!(prompt_label(endpoint), "Custom endpoint URL (blank to skip) (blank to skip): ");
    assert_eq!(prompt_answer("  value \n"), Some("value".to_string()));
    assert_eq!(prompt_answer(" \t\n"), None);
}

#[test]
fn env_names_and_tty_hint() {
    assert_eq!(env_var_name("gcs", "credential-path"), "OPENDAL_GCS_CREDENTIAL_PATH");
    assert_eq!(
        tty_unavailable_hint("access-key-id"),
        "Cannot open terminal for 'access-key-id' prompt. Set the corresponding \
         OPENDAL_*_ACCESS_KEY_ID environment variable to configure without a TTY."
    );
}

#[test]
fn resolve_fails_on_empty_configured_required() {
    let mut cfg = make_cfg("s3");
    cfg.params.insert("region".to_string(), "r".to_string());
    cfg.params.insert("endpoint".to_string(), "https://e".to_string());
    cfg.params.insert("access-key-id".to_string(), "id".to_string());
    cfg.params.insert("secret-access-key".to_string(), "k".to_string());
    let mut git_config = HashMap::new();
    git_config.insert("opendal.s3.bucket".to_string(), String::new());
    let mut asked = 0;
    match resolve_with_injector(cfg, &mut git_config, |_| {
        asked += 1;
        Some("b".to_string())
    }) {
        Err(ResolveError::MissingRequired { key, env_var }) => {
            assert_eq!(key, "bucket");
            assert_eq!(env_var, "OPENDAL_S3_BUCKET");
        }
        other => panic!("unexpected: {:?}", other.map(|c| c.scheme)),
    }
    assert_eq!(asked, 0);
}

#[test]
fn resolve_treats_empty_answer_as_blank() {
    let mut git_config = HashMap::new();
    match resolve_with_injector(make_cfg("gcs"), &mut git_config, |_| Some(String::new())) {
        Err(ResolveError::MissingRequired { key, .. }) => assert_eq!(key, "bucket"),
        other => panic!("unexpected: {:?}", other.map(|c| c.scheme)),
    }
    let mut git_config = HashMap::new();
    let cfg = resolve_with_injector(make_cfg("gdrive"), &mut git_config, |spec| {
        if spec.key == "client-id" {
            Some(String::new())
        } else {
            Some("v".to_string())
        }
    })
    .unwrap();
    assert!(!cfg.params.contains_key("client-id"));
    assert_eq!(git_config.get("opendal.gdrive.client-id").unwrap(), "");
    assert_eq!(cfg.params.get("client-secret").unwrap(), "v");
    for i in 0..cfg.params.len() {
        assert!(!cfg.params.entry(i).1.is_empty());
    }
}

#[test]
fn scheme_tables_are_well_formed() {
    for scheme in ["s3", "gcs", "azblob", "gdrive"] {
        let specs = specs_for_scheme(scheme);
        assert!(!specs.is_empty());
        for (i, p) in specs.iter().enumerate() {
            assert!(!p.key.is_empty() && !p.key.starts_with('-') && !p.key.ends_with('-'));
            assert!(!p.key.contains("--"));
            assert!(p.key.chars().all(|c| c.is_ascii_lowercase() || c == '-'));
            assert!(!p.required || p.prompt);
            assert_eq!(p.validator.is_some(), p.key == "endpoint");
            assert!(specs[i + 1..].iter().all(|q| q.key != p.key));
        }
    }
    for scheme in ["fs", "memory", "S3", ""] {
        assert!(specs_for_scheme(scheme).is_empty());
    }
}

#[test]
fn env_names_from_mapped_case() {
    assert_eq!(env_key_for_upper("ACCESS-KEY-ID"), "ACCESS_KEY_ID");
    assert_eq!(env_var_name_for_upper("GDRIVE", "REFRESH-TOKEN"), "OPENDAL_GDRIVE_REFRESH_TOKEN");
    assert_eq!(
        tty_hint_for_upper("client-id", "CLIENT-ID"),
        "Cannot open terminal for 'client-id' prompt. Set the corresponding \
         OPENDAL_*_CLIENT_ID environment variable to configure without a TTY."
    );
}
