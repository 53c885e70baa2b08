use git_remote_opendal::config::RemoteConfig;
use git_remote_opendal::operator::{
    build_memory, build_operator, gcs_plan, gdrive_plan, normalize_fs_root, s3_plan,
    OperatorError, USER_SUPPORTED_SCHEMES,
};
use git_remote_opendal::strmap::StringMap;

fn cfg(scheme: &str, root: &str, params: &[(&str, &str)]) -> RemoteConfig {
    let mut m = StringMap::new();
    for (k, v) in params {
        m.insert(k.to_string(), v.to_string());
    }
    RemoteConfig { scheme: scheme.to_string(), root: root.to_string(), params: m }
}

#[test]
fn user_supported_schemes_do_not_advertise_memory() {
    assert_eq!(USER_SUPPORTED_SCHEMES, "s3, gcs, azblob, gdrive, fs");
    assert!(!USER_SUPPORTED_SCHEMES.contains("memory"));
}

#[test]
fn fs_root_gets_single_leading_slash() {
    assert_eq!(normalize_fs_root("///tmp/repo"), "/tmp/repo");
    assert_eq!(normalize_fs_root("tmp/repo"), "/tmp/repo");
    assert_eq!(normalize_fs_root(""), "/");
    let once = normalize_fs_root("//a//b");
    assert_eq!(once, "/a//b");
    assert_eq!(normalize_fs_root(&once), once);
}

#[test]
fn s3_requires_bucket() {
    assert!(matches!(s3_plan(&cfg("s3", "/r", &[])), Err(OperatorError::MissingS3Bucket)));
    let p = s3_plan(&cfg("s3", "/r", &[("bucket", "b"), ("region", "eu")])).unwrap();
    assert_eq!(p.bucket, "b");
    assert_eq!(p.root, "/r");
    assert_eq!(p.region.as_deref(), Some("eu"));
    assert_eq!(p.endpoint, None);
    assert!(matches!(
        build_operator(&cfg("s3", "/r", &[])),
        Err(OperatorError::MissingS3Bucket)
    ));
}

#[test]
fn gcs_and_gdrive_plans_pick_their_params() {
    assert!(matches!(gcs_plan(&cfg("gcs", "/", &[])), Err(OperatorError::MissingGcsBucket)));
    let p = gcs_plan(&cfg("gcs", "/x", &[("bucket", "b"), ("credential-path", "/k.json")])).unwrap();
    assert_eq!(p.credential_path.as_deref(), Some("/k.json"));
    assert_eq!(p.credential, None);
    let g = gdrive_plan(&cfg("gdrive", "/d", &[("refresh-token", "t")]));
    assert_eq!(g.root, "/d");
    assert_eq!(g.refresh_token.as_deref(), Some("t"));
    assert_eq!(g.client_id, None);
}

#[test]
fn unsupported_scheme_is_refused() {
    match build_operator(&cfg("ftp", "/", &[])) {
        Err(OperatorError::UnsupportedScheme(s)) => assert_eq!(s, "ftp"),
        _ => panic!("expected an unsupported scheme"),
    }
    assert!(matches!(
        build_operator(&cfg("azblob", "/", &[])),
        Err(OperatorError::MissingAzblobContainer)
    ));
}

#[test]
fn memory_and_fs_operators_build() {
    assert!(build_memory().is_ok());
    assert!(build_operator(&cfg("memory", "/", &[])).is_ok());
    assert!(build_operator(&cfg("fs", "tmp/x", &[])).is_ok());
}

fn built(r: Result<git_remote_opendal::operator::BuiltOperator, OperatorError>) -> opendal::Operator {
    match r {
        Ok(b) => b.into_operator(),
        Err(e) => panic!("operator was not built: {:?}", e),
    }
}

#[test]
fn s3_operator_is_on_the_url_bucket_and_root() {
    let mut c = RemoteConfig::from_url_and_env("opendal://s3/my-bucket/repos/myrepo", &Vec::new())
        .unwrap();
    c.params.insert("region".to_string(), "us-east-1".to_string());
    let info = built(build_operator(&c)).info();
    assert_eq!(info.name(), "my-bucket");
    assert_eq!(info.root(), "/repos/myrepo/");
}

#[test]
fn azblob_operator_is_on_the_url_container_and_root() {
    let mut c =
        RemoteConfig::from_url_and_env("opendal://azblob/my-container/repos/myrepo", &Vec::new())
            .unwrap();
    c.params.insert(
        "endpoint".to_string(),
        "https://acct.blob.core.windows.net".to_string(),
    );
    let info = built(build_operator(&c)).info();
    assert_eq!(info.name(), "my-container");
    assert_eq!(info.root(), "/repos/myrepo/");
}

#[test]
fn fs_operator_is_on_the_normalised_root() {
    let info = built(build_operator(&cfg("fs", "tmp/x", &[]))).info();
    assert_eq!(info.root(), "/tmp/x");
}
