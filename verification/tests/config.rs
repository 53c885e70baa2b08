use git_remote_opendal::config::{
    collect_env_params, env_params_under, env_prefix_for_upper, param_key_for_lower, parse_url,
    RemoteConfig, UrlError,
};

fn vars(pairs: &[(&str, &str)]) -> Vec<(String, String)> {
    pairs.iter().map(|(k, v)| (k.to_string(), v.to_string())).collect()
}

#[test]
fn parse_s3_url() {
    let (scheme, root) = parse_url("opendal://s3/repos/myrepo.git").unwrap();
    assert_eq!(scheme, "s3");
    assert_eq!(root, "/repos/myrepo.git");
}

#[test]
fn parse_fs_url() {
    let (scheme, root) = parse_url("opendal://fs/tmp/repos/myrepo.git").unwrap();
    assert_eq!(scheme, "fs");
    assert_eq!(root, "/tmp/repos/myrepo.git");
}

#[test]
fn parse_scheme_only() {
    let (scheme, root) = parse_url("opendal://memory").unwrap();
    assert_eq!(scheme, "memory");
    assert_eq!(root, "/");
}

#[test]
fn parsed_url_reassembles() {
    for url in ["opendal://s3/a/b", "opendal://fs/", "opendal://gdrive//x/"] {
        let (scheme, root) = parse_url(url).unwrap();
        assert!(!scheme.contains('/'));
        assert!(root.starts_with('/'));
        assert_eq!(format!("opendal://{}{}", scheme, root), url);
    }
}

#[test]
fn reject_non_opendal_url() {
    assert!(parse_url("s3://bucket/path").is_err());
}

#[test]
fn reject_empty_scheme() {
    assert_eq!(parse_url("opendal:///repo").unwrap_err(), UrlError::EmptyScheme);
    assert_eq!(parse_url("s3://bucket/path").unwrap_err(), UrlError::MissingPrefix);
}

#[test]
fn env_params_collected() {
    let params = collect_env_params("s3", &vars(&[("OPENDAL_S3_BUCKET", "test-bucket")]));
    assert_eq!(params.get("bucket").map(String::as_str), Some("test-bucket"));
}

#[test]
fn env_params_keys_are_lowercase_hyphenated_and_scoped_to_scheme() {
    let params = collect_env_params(
        "s3",
        &vars(&[
            ("OPENDAL_S3_SECRET_ACCESS_KEY", "k"),
            ("OPENDAL_GCS_BUCKET", "other"),
            ("HOME", "/root"),
            ("OPENDAL_S3_REGION", "us-east-1"),
        ]),
    );
    assert_eq!(params.len(), 2);
    assert_eq!(params.get("secret-access-key").map(String::as_str), Some("k"));
    assert_eq!(params.get("region").map(String::as_str), Some("us-east-1"));
    assert!(!params.contains_key("bucket"));
}

#[test]
fn env_params_later_variable_wins() {
    let params = collect_env_params(
        "fs",
        &vars(&[("OPENDAL_FS_A_B", "first"), ("OPENDAL_FS_A-B", "second")]),
    );
    assert_eq!(params.len(), 1);
    assert_eq!(params.get("a-b").map(String::as_str), Some("second"));
}

#[test]
fn config_takes_bucket_from_first_segment() {
    let cfg =
        RemoteConfig::from_url_and_env("opendal://s3/my-bucket/repos/myrepo", &vars(&[])).unwrap();
    assert_eq!(cfg.scheme, "s3");
    assert_eq!(cfg.root, "/repos/myrepo");
    assert_eq!(cfg.params.get("bucket").map(String::as_str), Some("my-bucket"));
}

#[test]
fn config_env_bucket_takes_precedence() {
    let cfg = RemoteConfig::from_url_and_env(
        "opendal://gcs/url-bucket/team",
        &vars(&[("OPENDAL_GCS_BUCKET", "env-bucket")]),
    )
    .unwrap();
    assert_eq!(cfg.root, "/team");
    assert_eq!(cfg.params.get("bucket").map(String::as_str), Some("env-bucket"));
}

#[test]
fn config_takes_container_for_azblob() {
    let cfg = RemoteConfig::from_url_and_env("opendal://azblob/cont", &vars(&[])).unwrap();
    assert_eq!(cfg.root, "/");
    assert_eq!(cfg.params.get("container").map(String::as_str), Some("cont"));
}

#[test]
fn config_keeps_fs_root_whole() {
    let cfg = RemoteConfig::from_url_and_env(
        "opendal://fs/tmp/my-bare-repos/myrepo",
        &vars(&[("OPENDAL_FS_ATOMIC_WRITE_DIR", "/tmp/w")]),
    )
    .unwrap();
    assert_eq!(cfg.scheme, "fs");
    assert_eq!(cfg.root, "/tmp/my-bare-repos/myrepo");
    assert_eq!(cfg.params.get("atomic-write-dir").map(String::as_str), Some("/tmp/w"));
}

#[test]
fn config_without_path_has_root_slash() {
    let cfg = RemoteConfig::from_url_and_env("opendal://s3", &vars(&[])).unwrap();
    assert_eq!(cfg.root, "/");
    assert!(cfg.params.is_empty());
}

#[test]
fn config_refuses_bad_url() {
    assert_eq!(
        RemoteConfig::from_url_and_env("file:///x", &vars(&[])).unwrap_err(),
        UrlError::MissingPrefix
    );
}

#[test]
fn env_prefix_and_key_from_mapped_case() {
    assert_eq!(env_prefix_for_upper("AZBLOB"), "OPENDAL_AZBLOB_");
    assert_eq!(param_key_for_lower("secret_access_key"), "secret-access-key");
    assert_eq!(param_key_for_lower("bucket"), "bucket");
}

#[test]
fn env_params_under_a_given_prefix() {
    let m = env_params_under(
        "OPENDAL_GCS_",
        &vars(&[
            ("OPENDAL_GCS_CREDENTIAL_PATH", "/k.json"),
            ("OPENDAL_S3_BUCKET", "other"),
            ("OPENDAL_GCS_BUCKET", "b"),
            ("OPENDAL_GCS_", "empty-suffix"),
        ]),
    );
    assert_eq!(m.get("credential-path").map(|s| s.as_str()), Some("/k.json"));
    assert_eq!(m.get("bucket").map(|s| s.as_str()), Some("b"));
    assert_eq!(m.get("").map(|s| s.as_str()), Some("empty-suffix"));
    assert_eq!(m.len(), 3);
}
