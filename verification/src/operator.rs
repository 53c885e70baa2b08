//! Storage operators for the supported services.
//!
//! Each service's settings are first worked out from the remote
//! configuration (a required bucket or container, the root, and whichever
//! optional parameters are present); the service's builder is then given
//! exactly those settings.

use vstd::prelude::*;
use opendal::services::{Azblob, Fs, Gcs, Gdrive, Memory, S3};
use opendal::Operator;
use crate::config::RemoteConfig;
use crate::text::{concat2, str_eq, trim_start_char, trim_start_matches};

verus! {

/// `opendal::Operator`, the handle on a storage service.
#[verifier::external_type_specification]
#[verifier::external_body]
pub struct ExOperator(opendal::Operator);

/// `opendal::Error`, a storage service's error.
#[verifier::external_type_specification]
#[verifier::external_body]
pub struct ExOpendalError(opendal::Error);

/// `opendal::services::S3`, the S3 builder.
#[verifier::external_type_specification]
#[verifier::external_body]
pub struct ExS3Builder(opendal::services::S3);

/// `opendal::services::Gcs`, the GCS builder.
#[verifier::external_type_specification]
#[verifier::external_body]
pub struct ExGcsBuilder(opendal::services::Gcs);

/// `opendal::services::Azblob`, the Azure Blob builder.
#[verifier::external_type_specification]
#[verifier::external_body]
pub struct ExAzblobBuilder(opendal::services::Azblob);

/// `opendal::services::Gdrive`, the Google Drive builder.
#[verifier::external_type_specification]
#[verifier::external_body]
pub struct ExGdriveBuilder(opendal::services::Gdrive);

/// `opendal::services::Fs`, the filesystem builder.
#[verifier::external_type_specification]
#[verifier::external_body]
pub struct ExFsBuilder(opendal::services::Fs);

/// `opendal::services::Memory`, the in-memory builder.
#[verifier::external_type_specification]
#[verifier::external_body]
pub struct ExMemoryBuilder(opendal::services::Memory);

/// The schemes offered to users (`memory` serves tests only).
pub const USER_SUPPORTED_SCHEMES: &'static str = "s3, gcs, azblob, gdrive, fs";

/// Why no operator could be built.
#[derive(Debug)]
pub enum OperatorError {
    /// `s3` without a `bucket` parameter.
    MissingS3Bucket,
    /// `gcs` without a `bucket` parameter.
    MissingGcsBucket,
    /// `azblob` without a `container` parameter.
    MissingAzblobContainer,
    /// A scheme that no service stands for.
    UnsupportedScheme(String),
    /// The storage service refused its settings.
    Service(opendal::Error),
}

/// The character view of an optional string.
pub open spec fn opt_view(o: Option<String>) -> Option<Seq<char>> {
    match o {
        Some(s) => Some(s@),
        None => None,
    }
}

/// The value of `key` in `params`, if present.
pub open spec fn param(params: Map<Seq<char>, Seq<char>>, key: Seq<char>) -> Option<Seq<char>> {
    if params.contains_key(key) {
        Some(params[key])
    } else {
        None
    }
}

fn param_of(cfg: &RemoteConfig, key: &str) -> (r: Option<String>)
    ensures
        opt_view(r) == param(cfg.params@, key@),
{
    match cfg.params.get(key) {
        Some(v) => Some(v.clone()),
        None => None,
    }
}

/// Settings of the S3 service.
pub struct S3Plan {
    pub bucket: String,
    pub root: String,
    pub region: Option<String>,
    pub endpoint: Option<String>,
    pub access_key_id: Option<String>,
    pub secret_access_key: Option<String>,
}

/// The S3 settings of `cfg`; the `bucket` parameter is required.
pub fn s3_plan(cfg: &RemoteConfig) -> (r: Result<S3Plan, OperatorError>)
    ensures
        !cfg.params@.contains_key("bucket"@) ==> r matches Err(OperatorError::MissingS3Bucket),
        cfg.params@.contains_key("bucket"@) ==> (r matches Ok(p) && {
            &&& p.bucket@ == cfg.params@["bucket"@]
            &&& p.root@ == cfg.root@
            &&& opt_view(p.region) == param(cfg.params@, "region"@)
            &&& opt_view(p.endpoint) == param(cfg.params@, "endpoint"@)
            &&& opt_view(p.access_key_id) == param(cfg.params@, "access-key-id"@)
            &&& opt_view(p.secret_access_key) == param(cfg.params@, "secret-access-key"@)
        }),
{
    let bucket = match param_of(cfg, "bucket") {
        Some(b) => b,
        None => return Err(OperatorError::MissingS3Bucket),
    };
    Ok(
        S3Plan {
            bucket,
            root: cfg.root.clone(),
            region: param_of(cfg, "region"),
            endpoint: param_of(cfg, "endpoint"),
            access_key_id: param_of(cfg, "access-key-id"),
            secret_access_key: param_of(cfg, "secret-access-key"),
        },
    )
}

/// Settings of the GCS service.
pub struct GcsPlan {
    pub bucket: String,
    pub root: String,
    pub credential: Option<String>,
    pub credential_path: Option<String>,
    pub endpoint: Option<String>,
}

/// The GCS settings of `cfg`; the `bucket` parameter is required.
pub fn gcs_plan(cfg: &RemoteConfig) -> (r: Result<GcsPlan, OperatorError>)
    ensures
        !cfg.params@.contains_key("bucket"@) ==> r matches Err(OperatorError::MissingGcsBucket),
        cfg.params@.contains_key("bucket"@) ==> (r matches Ok(p) && {
            &&& p.bucket@ == cfg.params@["bucket"@]
            &&& p.root@ == cfg.root@
            &&& opt_view(p.credential) == param(cfg.params@, "credential"@)
            &&& opt_view(p.credential_path) == param(cfg.params@, "credential-path"@)
            &&& opt_view(p.endpoint) == param(cfg.params@, "endpoint"@)
        }),
{
    let bucket = match param_of(cfg, "bucket") {
        Some(b) => b,
        None => return Err(OperatorError::MissingGcsBucket),
    };
    Ok(
        GcsPlan {
            bucket,
            root: cfg.root.clone(),
            credential: param_of(cfg, "credential"),
            credential_path: param_of(cfg, "credential-path"),
            endpoint: param_of(cfg, "endpoint"),
        },
    )
}

/// Settings of the Azure Blob service.
pub struct AzblobPlan {
    pub container: String,
    pub root: String,
    pub account_name: Option<String>,
    pub account_key: Option<String>,
    pub endpoint: Option<String>,
}

/// The Azure Blob settings of `cfg`; the `container` parameter is required.
pub fn azblob_plan(cfg: &RemoteConfig) -> (r: Result<AzblobPlan, OperatorError>)
    ensures
        !cfg.params@.contains_key("container"@) ==> r matches Err(
            OperatorError::MissingAzblobContainer,
        ),
        cfg.params@.contains_key("container"@) ==> (r matches Ok(p) && {
            &&& p.container@ == cfg.params@["container"@]
            &&& p.root@ == cfg.root@
            &&& opt_view(p.account_name) == param(cfg.params@, "account-name"@)
            &&& opt_view(p.account_key) == param(cfg.params@, "account-key"@)
            &&& opt_view(p.endpoint) == param(cfg.params@, "endpoint"@)
        }),
{
    let container = match param_of(cfg, "container") {
        Some(c) => c,
        None => return Err(OperatorError::MissingAzblobContainer),
    };
    Ok(
        AzblobPlan {
            container,
            root: cfg.root.clone(),
            account_name: param_of(cfg, "account-name"),
            account_key: param_of(cfg, "account-key"),
            endpoint: param_of(cfg, "endpoint"),
        },
    )
}

/// Settings of the Google Drive service.
pub struct GdrivePlan {
    pub root: String,
    pub client_id: Option<String>,
    pub client_secret: Option<String>,
    pub refresh_token: Option<String>,
    pub access_token: Option<String>,
}

/// The Google Drive settings of `cfg`; every parameter is optional.
pub fn gdrive_plan(cfg: &RemoteConfig) -> (p: GdrivePlan)
    ensures
        p.root@ == cfg.root@,
        opt_view(p.client_id) == param(cfg.params@, "client-id"@),
        opt_view(p.client_secret) == param(cfg.params@, "client-secret"@),
        opt_view(p.refresh_token) == param(cfg.params@, "refresh-token"@),
        opt_view(p.access_token) == param(cfg.params@, "access-token"@),
{
    GdrivePlan {
        root: cfg.root.clone(),
        client_id: param_of(cfg, "client-id"),
        client_secret: param_of(cfg, "client-secret"),
        refresh_token: param_of(cfg, "refresh-token"),
        access_token: param_of(cfg, "access-token"),
    }
}

/// A filesystem root with exactly one leading `/`.
pub open spec fn spec_fs_root(root: Seq<char>) -> Seq<char> {
    "/"@ + trim_start_char(root, '/')
}

proof fn lemma_trim_start_char(s: Seq<char>, c: char)
    ensures
        trim_start_char(s, c).len() > 0 ==> trim_start_char(s, c)[0] != c,
    decreases s.len(),
{
    if s.len() > 0 && s[0] == c {
        lemma_trim_start_char(s.drop_first(), c);
    }
}

/// A normalised filesystem root starts with exactly one `/` and keeps the
/// rest of the path; normalising it again changes nothing.
pub proof fn lemma_fs_root_normal(root: Seq<char>)
    ensures
        spec_fs_root(root)[0] == '/',
        spec_fs_root(root).len() > 1 ==> spec_fs_root(root)[1] != '/',
        spec_fs_root(spec_fs_root(root)) == spec_fs_root(root),
{
    reveal_strlit("/");
    let t = trim_start_char(root, '/');
    lemma_trim_start_char(root, '/');
    let n = spec_fs_root(root);
    assert(n =~= seq!['/'] + t);
    assert(n.drop_first() =~= t);
    assert(trim_start_char(n, '/') == trim_start_char(t, '/'));
    if t.len() > 0 {
        assert(trim_start_char(t, '/') == t);
    } else {
        assert(trim_start_char(t, '/') == t);
    }
}

/// Normalise a filesystem root to a single leading `/`.
pub fn normalize_fs_root(root: &str) -> (r: String)
    ensures
        r@ == spec_fs_root(root@),
{
    let trimmed = trim_start_matches(root, '/');
    concat2("/", trimmed.as_str())
}


/// One setting that can be handed to a service's builder.
#[derive(Debug, Clone, Copy, PartialEq, Eq, Structural)]
pub enum Setting {
    Bucket,
    Container,
    Root,
    Region,
    Endpoint,
    AccessKeyId,
    SecretAccessKey,
    Credential,
    CredentialPath,
    AccountName,
    AccountKey,
    ClientId,
    ClientSecret,
    RefreshToken,
    AccessToken,
}

/// A storage service that an operator is built for.
#[derive(Debug, Clone, Copy, PartialEq, Eq, Structural)]
pub enum Service {
    S3,
    Gcs,
    Azblob,
    Gdrive,
    Fs,
    Memory,
}

/// A service's builder, with the settings handed to it so far, in order.
pub struct ServiceBuilder<B> {
    builder: B,
    handed: Ghost<Seq<(Setting, Seq<char>)>>,
}

impl<B> ServiceBuilder<B> {
    /// The settings handed to the builder so far, in the order of the calls.
    pub closed spec fn handed(&self) -> Seq<(Setting, Seq<char>)> {
        self.handed@
    }
}

/// An operator, with the service it was built for and the settings that
/// its builder was given, in order.
pub struct BuiltOperator {
    /// The handle on the storage service.
    pub operator: Operator,
    service: Ghost<Service>,
    settings: Ghost<Seq<(Setting, Seq<char>)>>,
}

impl BuiltOperator {
    /// The service the operator was built for.
    pub closed spec fn service(&self) -> Service {
        self.service@
    }

    /// The settings the service's builder was given, in order.
    pub closed spec fn settings(&self) -> Seq<(Setting, Seq<char>)> {
        self.settings@
    }

    /// The operator itself.
    pub fn into_operator(self) -> Operator {
        self.operator
    }
}

/// `S3::default`, the empty builder of the service; nothing is claimed of it.
pub assume_specification[ <opendal::services::S3 as core::default::Default>::default ]() -> opendal::services::S3;

/// `Gcs::default`, the empty builder of the service; nothing is claimed of it.
pub assume_specification[ <opendal::services::Gcs as core::default::Default>::default ]() -> opendal::services::Gcs;

/// `Azblob::default`, the empty builder of the service; nothing is claimed of it.
pub assume_specification[ <opendal::services::Azblob as core::default::Default>::default ]() -> opendal::services::Azblob;

/// `Gdrive::default`, the empty builder of the service; nothing is claimed of it.
pub assume_specification[ <opendal::services::Gdrive as core::default::Default>::default ]() -> opendal::services::Gdrive;

/// `Fs::default`, the empty builder of the service; nothing is claimed of it.
pub assume_specification[ <opendal::services::Fs as core::default::Default>::default ]() -> opendal::services::Fs;

/// `Memory::default`, the empty builder of the service; nothing is claimed of it.
pub assume_specification[ <opendal::services::Memory as core::default::Default>::default ]() -> opendal::services::Memory;

fn fresh<B>(builder: B) -> (r: ServiceBuilder<B>)
    ensures
        r.handed() == Seq::<(Setting, Seq<char>)>::empty(),
{
    ServiceBuilder { builder, handed: Ghost(Seq::empty()) }
}

/// Calls `S3::bucket`, which stores the bucket name in the builder's
/// configuration. The contract records that `bucket` was handed over as the
/// `Bucket` setting; what the builder keeps of it is not stated.
#[verifier::external_body]
fn s3_bucket(b: ServiceBuilder<S3>, bucket: &str) -> (r: ServiceBuilder<S3>)
    ensures
        r.handed() == b.handed().push((Setting::Bucket, bucket@)),
{
    ServiceBuilder { builder: b.builder.bucket(bucket), handed: Ghost(b.handed@.push((Setting::Bucket, bucket@))) }
}

/// Calls `S3::root`, which stores the root path (an empty one leaves the root unset) in the builder's
/// configuration. The contract records that `root` was handed over as the
/// `Root` setting; what the builder keeps of it is not stated.
#[verifier::external_body]
fn s3_root(b: ServiceBuilder<S3>, root: &str) -> (r: ServiceBuilder<S3>)
    ensures
        r.handed() == b.handed().push((Setting::Root, root@)),
{
    ServiceBuilder { builder: b.builder.root(root), handed: Ghost(b.handed@.push((Setting::Root, root@))) }
}

/// Calls `S3::region`, which stores the signing region (an empty one is ignored) in the builder's
/// configuration. The contract records that `region` was handed over as the
/// `Region` setting; what the builder keeps of it is not stated.
#[verifier::external_body]
fn s3_region(b: ServiceBuilder<S3>, region: &str) -> (r: ServiceBuilder<S3>)
    ensures
        r.handed() == b.handed().push((Setting::Region, region@)),
{
    ServiceBuilder { builder: b.builder.region(region), handed: Ghost(b.handed@.push((Setting::Region, region@))) }
}

/// Calls `S3::endpoint`, which stores the endpoint, without trailing `/` (an empty one is ignored) in the builder's
/// configuration. The contract records that `endpoint` was handed over as the
/// `Endpoint` setting; what the builder keeps of it is not stated.
#[verifier::external_body]
fn s3_endpoint(b: ServiceBuilder<S3>, endpoint: &str) -> (r: ServiceBuilder<S3>)
    ensures
        r.handed() == b.handed().push((Setting::Endpoint, endpoint@)),
{
    ServiceBuilder { builder: b.builder.endpoint(endpoint), handed: Ghost(b.handed@.push((Setting::Endpoint, endpoint@))) }
}

/// Calls `S3::access_key_id`, which stores the access key id (an empty one is ignored) in the builder's
/// configuration. The contract records that `v` was handed over as the
/// `AccessKeyId` setting; what the builder keeps of it is not stated.
#[verifier::external_body]
fn s3_access_key_id(b: ServiceBuilder<S3>, v: &str) -> (r: ServiceBuilder<S3>)
    ensures
        r.handed() == b.handed().push((Setting::AccessKeyId, v@)),
{
    ServiceBuilder { builder: b.builder.access_key_id(v), handed: Ghost(b.handed@.push((Setting::AccessKeyId, v@))) }
}

/// Calls `S3::secret_access_key`, which stores the secret access key (an empty one is ignored) in the builder's
/// configuration. The contract records that `v` was handed over as the
/// `SecretAccessKey` setting; what the builder keeps of it is not stated.
#[verifier::external_body]
fn s3_secret_access_key(b: ServiceBuilder<S3>, v: &str) -> (r: ServiceBuilder<S3>)
    ensures
        r.handed() == b.handed().push((Setting::SecretAccessKey, v@)),
{
    ServiceBuilder { builder: b.builder.secret_access_key(v), handed: Ghost(b.handed@.push((Setting::SecretAccessKey, v@))) }
}

/// Calls `Gcs::bucket`, which stores the bucket name in the builder's
/// configuration. The contract records that `bucket` was handed over as the
/// `Bucket` setting; what the builder keeps of it is not stated.
#[verifier::external_body]
fn gcs_bucket(b: ServiceBuilder<Gcs>, bucket: &str) -> (r: ServiceBuilder<Gcs>)
    ensures
        r.handed() == b.handed().push((Setting::Bucket, bucket@)),
{
    ServiceBuilder { builder: b.builder.bucket(bucket), handed: Ghost(b.handed@.push((Setting::Bucket, bucket@))) }
}

/// Calls `Gcs::root`, which stores the root path (an empty one leaves the root unset) in the builder's
/// configuration. The contract records that `root` was handed over as the
/// `Root` setting; what the builder keeps of it is not stated.
#[verifier::external_body]
fn gcs_root(b: ServiceBuilder<Gcs>, root: &str) -> (r: ServiceBuilder<Gcs>)
    ensures
        r.handed() == b.handed().push((Setting::Root, root@)),
{
    ServiceBuilder { builder: b.builder.root(root), handed: Ghost(b.handed@.push((Setting::Root, root@))) }
}

/// Calls `Gcs::credential`, which stores the raw credential (an empty one is ignored) in the builder's
/// configuration. The contract records that `credential` was handed over as the
/// `Credential` setting; what the builder keeps of it is not stated.
#[verifier::external_body]
fn gcs_credential(b: ServiceBuilder<Gcs>, credential: &str) -> (r: ServiceBuilder<Gcs>)
    ensures
        r.handed() == b.handed().push((Setting::Credential, credential@)),
{
    ServiceBuilder { builder: b.builder.credential(credential), handed: Ghost(b.handed@.push((Setting::Credential, credential@))) }
}

/// Calls `Gcs::credential_path`, which stores the credential file path (an empty one is ignored) in the builder's
/// configuration. The contract records that `path` was handed over as the
/// `CredentialPath` setting; what the builder keeps of it is not stated.
#[verifier::external_body]
fn gcs_credential_path(b: ServiceBuilder<Gcs>, path: &str) -> (r: ServiceBuilder<Gcs>)
    ensures
        r.handed() == b.handed().push((Setting::CredentialPath, path@)),
{
    ServiceBuilder { builder: b.builder.credential_path(path), handed: Ghost(b.handed@.push((Setting::CredentialPath, path@))) }
}

/// Calls `Gcs::endpoint`, which stores the endpoint (an empty one is ignored) in the builder's
/// configuration. The contract records that `endpoint` was handed over as the
/// `Endpoint` setting; what the builder keeps of it is not stated.
#[verifier::external_body]
fn gcs_endpoint(b: ServiceBuilder<Gcs>, endpoint: &str) -> (r: ServiceBuilder<Gcs>)
    ensures
        r.handed() == b.handed().push((Setting::Endpoint, endpoint@)),
{
    ServiceBuilder { builder: b.builder.endpoint(endpoint), handed: Ghost(b.handed@.push((Setting::Endpoint, endpoint@))) }
}

/// Calls `Azblob::container`, which stores the container name in the builder's
/// configuration. The contract records that `container` was handed over as the
/// `Container` setting; what the builder keeps of it is not stated.
#[verifier::external_body]
fn azblob_container(b: ServiceBuilder<Azblob>, container: &str) -> (r: ServiceBuilder<Azblob>)
    ensures
        r.handed() == b.handed().push((Setting::Container, container@)),
{
    ServiceBuilder { builder: b.builder.container(container), handed: Ghost(b.handed@.push((Setting::Container, container@))) }
}

/// Calls `Azblob::root`, which stores the root path (an empty one leaves the root unset) in the builder's
/// configuration. The contract records that `root` was handed over as the
/// `Root` setting; what the builder keeps of it is not stated.
#[verifier::external_body]
fn azblob_root(b: ServiceBuilder<Azblob>, root: &str) -> (r: ServiceBuilder<Azblob>)
    ensures
        r.handed() == b.handed().push((Setting::Root, root@)),
{
    ServiceBuilder { builder: b.builder.root(root), handed: Ghost(b.handed@.push((Setting::Root, root@))) }
}

/// Calls `Azblob::account_name`, which stores the account name (an empty one is ignored) in the builder's
/// configuration. The contract records that `account_name` was handed over as the
/// `AccountName` setting; what the builder keeps of it is not stated.
#[verifier::external_body]
fn azblob_account_name(b: ServiceBuilder<Azblob>, account_name: &str) -> (r: ServiceBuilder<Azblob>)
    ensures
        r.handed() == b.handed().push((Setting::AccountName, account_name@)),
{
    ServiceBuilder { builder: b.builder.account_name(account_name), handed: Ghost(b.handed@.push((Setting::AccountName, account_name@))) }
}

/// Calls `Azblob::account_key`, which stores the account key (an empty one is ignored) in the builder's
/// configuration. The contract records that `account_key` was handed over as the
/// `AccountKey` setting; what the builder keeps of it is not stated.
#[verifier::external_body]
fn azblob_account_key(b: ServiceBuilder<Azblob>, account_key: &str) -> (r: ServiceBuilder<Azblob>)
    ensures
        r.handed() == b.handed().push((Setting::AccountKey, account_key@)),
{
    ServiceBuilder { builder: b.builder.account_key(account_key), handed: Ghost(b.handed@.push((Setting::AccountKey, account_key@))) }
}

/// Calls `Azblob::endpoint`, which stores the endpoint, without trailing `/` (an empty one is ignored) in the builder's
/// configuration. The contract records that `endpoint` was handed over as the
/// `Endpoint` setting; what the builder keeps of it is not stated.
#[verifier::external_body]
fn azblob_endpoint(b: ServiceBuilder<Azblob>, endpoint: &str) -> (r: ServiceBuilder<Azblob>)
    ensures
        r.handed() == b.handed().push((Setting::Endpoint, endpoint@)),
{
    ServiceBuilder { builder: b.builder.endpoint(endpoint), handed: Ghost(b.handed@.push((Setting::Endpoint, endpoint@))) }
}

/// Calls `Gdrive::root`, which stores the root path (an empty one leaves the root unset) in the builder's
/// configuration. The contract records that `root` was handed over as the
/// `Root` setting; what the builder keeps of it is not stated.
#[verifier::external_body]
fn gdrive_root(b: ServiceBuilder<Gdrive>, root: &str) -> (r: ServiceBuilder<Gdrive>)
    ensures
        r.handed() == b.handed().push((Setting::Root, root@)),
{
    ServiceBuilder { builder: b.builder.root(root), handed: Ghost(b.handed@.push((Setting::Root, root@))) }
}

/// Calls `Gdrive::client_id`, which stores the OAuth2 client id in the builder's
/// configuration. The contract records that `client_id` was handed over as the
/// `ClientId` setting; what the builder keeps of it is not stated.
#[verifier::external_body]
fn gdrive_client_id(b: ServiceBuilder<Gdrive>, client_id: &str) -> (r: ServiceBuilder<Gdrive>)
    ensures
        r.handed() == b.handed().push((Setting::ClientId, client_id@)),
{
    ServiceBuilder { builder: b.builder.client_id(client_id), handed: Ghost(b.handed@.push((Setting::ClientId, client_id@))) }
}

/// Calls `Gdrive::client_secret`, which stores the OAuth2 client secret in the builder's
/// configuration. The contract records that `client_secret` was handed over as the
/// `ClientSecret` setting; what the builder keeps of it is not stated.
#[verifier::external_body]
fn gdrive_client_secret(b: ServiceBuilder<Gdrive>, client_secret: &str) -> (r: ServiceBuilder<Gdrive>)
    ensures
        r.handed() == b.handed().push((Setting::ClientSecret, client_secret@)),
{
    ServiceBuilder { builder: b.builder.client_secret(client_secret), handed: Ghost(b.handed@.push((Setting::ClientSecret, client_secret@))) }
}

/// Calls `Gdrive::refresh_token`, which stores the OAuth2 refresh token in the builder's
/// configuration. The contract records that `refresh_token` was handed over as the
/// `RefreshToken` setting; what the builder keeps of it is not stated.
#[verifier::external_body]
fn gdrive_refresh_token(b: ServiceBuilder<Gdrive>, refresh_token: &str) -> (r: ServiceBuilder<Gdrive>)
    ensures
        r.handed() == b.handed().push((Setting::RefreshToken, refresh_token@)),
{
    ServiceBuilder { builder: b.builder.refresh_token(refresh_token), handed: Ghost(b.handed@.push((Setting::RefreshToken, refresh_token@))) }
}

/// Calls `Gdrive::access_token`, which stores the OAuth2 access token in the builder's
/// configuration. The contract records that `access_token` was handed over as the
/// `AccessToken` setting; what the builder keeps of it is not stated.
#[verifier::external_body]
fn gdrive_access_token(b: ServiceBuilder<Gdrive>, access_token: &str) -> (r: ServiceBuilder<Gdrive>)
    ensures
        r.handed() == b.handed().push((Setting::AccessToken, access_token@)),
{
    ServiceBuilder { builder: b.builder.access_token(access_token), handed: Ghost(b.handed@.push((Setting::AccessToken, access_token@))) }
}

/// Calls `Fs::root`, which stores the root directory in the builder's
/// configuration. The contract records that `root` was handed over as the
/// `Root` setting; what the builder keeps of it is not stated.
#[verifier::external_body]
fn fs_root(b: ServiceBuilder<Fs>, root: &str) -> (r: ServiceBuilder<Fs>)
    ensures
        r.handed() == b.handed().push((Setting::Root, root@)),
{
    ServiceBuilder { builder: b.builder.root(root), handed: Ghost(b.handed@.push((Setting::Root, root@))) }
}

/// Calls `Operator::new` on an S3 builder and finishes the operator.
/// Building may fail (the service checks its settings and may read the
/// environment or the disk); when it succeeds, the operator is recorded as
/// built for this service from the settings the builder was handed. Nothing
/// more is claimed of the operator.
#[verifier::external_body]
fn finish_s3(b: ServiceBuilder<S3>) -> (r: Result<BuiltOperator, opendal::Error>)
    ensures
        r matches Ok(o) ==> o.service() == Service::S3 && o.settings() == b.handed(),
{
    let operator = Operator::new(b.builder)?.finish();
    Ok(BuiltOperator { operator, service: Ghost(Service::S3), settings: b.handed })
}

/// Calls `Operator::new` on a GCS builder and finishes the operator.
/// Building may fail (the service checks its settings and may read the
/// environment or the disk); when it succeeds, the operator is recorded as
/// built for this service from the settings the builder was handed. Nothing
/// more is claimed of the operator.
#[verifier::external_body]
fn finish_gcs(b: ServiceBuilder<Gcs>) -> (r: Result<BuiltOperator, opendal::Error>)
    ensures
        r matches Ok(o) ==> o.service() == Service::Gcs && o.settings() == b.handed(),
{
    let operator = Operator::new(b.builder)?.finish();
    Ok(BuiltOperator { operator, service: Ghost(Service::Gcs), settings: b.handed })
}

/// Calls `Operator::new` on an Azure Blob builder and finishes the operator.
/// Building may fail (the service checks its settings and may read the
/// environment or the disk); when it succeeds, the operator is recorded as
/// built for this service from the settings the builder was handed. Nothing
/// more is claimed of the operator.
#[verifier::external_body]
fn finish_azblob(b: ServiceBuilder<Azblob>) -> (r: Result<BuiltOperator, opendal::Error>)
    ensures
        r matches Ok(o) ==> o.service() == Service::Azblob && o.settings() == b.handed(),
{
    let operator = Operator::new(b.builder)?.finish();
    Ok(BuiltOperator { operator, service: Ghost(Service::Azblob), settings: b.handed })
}

/// Calls `Operator::new` on a Google Drive builder and finishes the operator.
/// Building may fail (the service checks its settings and may read the
/// environment or the disk); when it succeeds, the operator is recorded as
/// built for this service from the settings the builder was handed. Nothing
/// more is claimed of the operator.
#[verifier::external_body]
fn finish_gdrive(b: ServiceBuilder<Gdrive>) -> (r: Result<BuiltOperator, opendal::Error>)
    ensures
        r matches Ok(o) ==> o.service() == Service::Gdrive && o.settings() == b.handed(),
{
    let operator = Operator::new(b.builder)?.finish();
    Ok(BuiltOperator { operator, service: Ghost(Service::Gdrive), settings: b.handed })
}

/// Calls `Operator::new` on a filesystem builder and finishes the operator.
/// Building may fail (the service checks its settings and may read the
/// environment or the disk); when it succeeds, the operator is recorded as
/// built for this service from the settings the builder was handed. Nothing
/// more is claimed of the operator.
#[verifier::external_body]
fn finish_fs(b: ServiceBuilder<Fs>) -> (r: Result<BuiltOperator, opendal::Error>)
    ensures
        r matches Ok(o) ==> o.service() == Service::Fs && o.settings() == b.handed(),
{
    let operator = Operator::new(b.builder)?.finish();
    Ok(BuiltOperator { operator, service: Ghost(Service::Fs), settings: b.handed })
}

/// Calls `Operator::new` on a memory builder and finishes the operator.
/// Building may fail (the service checks its settings and may read the
/// environment or the disk); when it succeeds, the operator is recorded as
/// built for this service from the settings the builder was handed. Nothing
/// more is claimed of the operator.
#[verifier::external_body]
fn finish_memory(b: ServiceBuilder<Memory>) -> (r: Result<BuiltOperator, opendal::Error>)
    ensures
        r matches Ok(o) ==> o.service() == Service::Memory && o.settings() == b.handed(),
{
    let operator = Operator::new(b.builder)?.finish();
    Ok(BuiltOperator { operator, service: Ghost(Service::Memory), settings: b.handed })
}

/// Whether a build outcome is the service's own refusal (or success).
pub open spec fn service_outcome(r: Result<BuiltOperator, OperatorError>) -> bool {
    r is Ok || r matches Err(OperatorError::Service(_))
}

/// The setting `s` with the value `v`, when there is one.
pub open spec fn opt_setting(s: Setting, v: Option<Seq<char>>) -> Seq<(Setting, Seq<char>)> {
    match v {
        Some(x) => seq![(s, x)],
        None => Seq::empty(),
    }
}

/// The values handed as setting `s`, in the order they were handed.
pub open spec fn handed_values(settings: Seq<(Setting, Seq<char>)>, s: Setting) -> Seq<Seq<char>>
    decreases settings.len(),
{
    if settings.len() == 0 {
        Seq::empty()
    } else {
        (if settings[0].0 == s {
            seq![settings[0].1]
        } else {
            Seq::empty()
        }) + handed_values(settings.drop_first(), s)
    }
}

/// A present value as a one-element sequence; an absent one as none.
pub open spec fn opt_seq(v: Option<Seq<char>>) -> Seq<Seq<char>> {
    match v {
        Some(x) => seq![x],
        None => Seq::empty(),
    }
}

proof fn lemma_handed_values_add(a: Seq<(Setting, Seq<char>)>, b: Seq<(Setting, Seq<char>)>, s: Setting)
    ensures
        handed_values(a + b, s) == handed_values(a, s) + handed_values(b, s),
    decreases a.len(),
{
    if a.len() == 0 {
        assert(a + b =~= b);
        assert(handed_values(a, s) + handed_values(b, s) =~= handed_values(b, s));
    } else {
        assert((a + b).drop_first() =~= a.drop_first() + b);
        assert((a + b)[0] == a[0]);
        lemma_handed_values_add(a.drop_first(), b, s);
        assert(handed_values(a + b, s) =~= handed_values(a, s) + handed_values(b, s));
    }
}

proof fn lemma_handed_values_one(x: (Setting, Seq<char>), s: Setting)
    ensures
        handed_values(seq![x], s) == (if x.0 == s {
            seq![x.1]
        } else {
            Seq::<Seq<char>>::empty()
        }),
{
    assert(seq![x].drop_first() =~= Seq::<(Setting, Seq<char>)>::empty());
    assert(handed_values(seq![x].drop_first(), s) =~= Seq::<Seq<char>>::empty());
    assert(seq![x][0] == x);
    assert(handed_values(seq![x], s) =~= (if x.0 == s {
        seq![x.1]
    } else {
        Seq::<Seq<char>>::empty()
    }));
}

proof fn lemma_handed_values_pair(x: (Setting, Seq<char>), y: (Setting, Seq<char>), s: Setting)
    ensures
        handed_values(seq![x, y], s) == handed_values(seq![x], s) + handed_values(seq![y], s),
{
    assert(seq![x, y] =~= seq![x] + seq![y]);
    lemma_handed_values_add(seq![x], seq![y], s);
}

proof fn lemma_handed_values_opt(t: Setting, v: Option<Seq<char>>, s: Setting)
    ensures
        handed_values(opt_setting(t, v), s) == (if t == s {
            opt_seq(v)
        } else {
            Seq::<Seq<char>>::empty()
        }),
{
    match v {
        Some(x) => lemma_handed_values_one((t, x), s),
        None => {
            assert(handed_values(opt_setting(t, v), s) =~= Seq::<Seq<char>>::empty());
        },
    }
}

/// What the S3 builder is given for `params` and `root`: the bucket, the
/// root, then region, endpoint, access key id and secret access key where
/// present.
pub open spec fn s3_settings(params: Map<Seq<char>, Seq<char>>, root: Seq<char>) -> Seq<
    (Setting, Seq<char>),
> {
    seq![(Setting::Bucket, params["bucket"@]), (Setting::Root, root)] + opt_setting(
        Setting::Region,
        param(params, "region"@),
    ) + opt_setting(Setting::Endpoint, param(params, "endpoint"@)) + opt_setting(
        Setting::AccessKeyId,
        param(params, "access-key-id"@),
    ) + opt_setting(Setting::SecretAccessKey, param(params, "secret-access-key"@))
}

/// What the GCS builder is given: the bucket, the root, then credential,
/// credential path and endpoint where present.
pub open spec fn gcs_settings(params: Map<Seq<char>, Seq<char>>, root: Seq<char>) -> Seq<
    (Setting, Seq<char>),
> {
    seq![(Setting::Bucket, params["bucket"@]), (Setting::Root, root)] + opt_setting(
        Setting::Credential,
        param(params, "credential"@),
    ) + opt_setting(Setting::CredentialPath, param(params, "credential-path"@)) + opt_setting(
        Setting::Endpoint,
        param(params, "endpoint"@),
    )
}

/// What the Azure Blob builder is given: the container, the root, then
/// account name, account key and endpoint where present.
pub open spec fn azblob_settings(params: Map<Seq<char>, Seq<char>>, root: Seq<char>) -> Seq<
    (Setting, Seq<char>),
> {
    seq![(Setting::Container, params["container"@]), (Setting::Root, root)] + opt_setting(
        Setting::AccountName,
        param(params, "account-name"@),
    ) + opt_setting(Setting::AccountKey, param(params, "account-key"@)) + opt_setting(
        Setting::Endpoint,
        param(params, "endpoint"@),
    )
}

/// What the Google Drive builder is given: the root, then client id, client
/// secret, refresh token and access token where present.
pub open spec fn gdrive_settings(params: Map<Seq<char>, Seq<char>>, root: Seq<char>) -> Seq<
    (Setting, Seq<char>),
> {
    seq![(Setting::Root, root)] + opt_setting(Setting::ClientId, param(params, "client-id"@))
        + opt_setting(Setting::ClientSecret, param(params, "client-secret"@)) + opt_setting(
        Setting::RefreshToken,
        param(params, "refresh-token"@),
    ) + opt_setting(Setting::AccessToken, param(params, "access-token"@))
}

/// What the filesystem builder is given: the normalised root.
pub open spec fn fs_settings(root: Seq<char>) -> Seq<(Setting, Seq<char>)> {
    seq![(Setting::Root, spec_fs_root(root))]
}

proof fn lemma_s3_handed(params: Map<Seq<char>, Seq<char>>, root: Seq<char>, s: Setting)
    ensures
        handed_values(s3_settings(params, root), s) == (if s == Setting::Bucket {
            seq![params["bucket"@]]
        } else {
            Seq::<Seq<char>>::empty()
        }) + (if s == Setting::Root {
            seq![root]
        } else {
            Seq::<Seq<char>>::empty()
        }) + (if s == Setting::Region {
            opt_seq(param(params, "region"@))
        } else {
            Seq::<Seq<char>>::empty()
        }) + (if s == Setting::Endpoint {
            opt_seq(param(params, "endpoint"@))
        } else {
            Seq::<Seq<char>>::empty()
        }) + (if s == Setting::AccessKeyId {
            opt_seq(param(params, "access-key-id"@))
        } else {
            Seq::<Seq<char>>::empty()
        }) + (if s == Setting::SecretAccessKey {
            opt_seq(param(params, "secret-access-key"@))
        } else {
            Seq::<Seq<char>>::empty()
        }),
{
    let x = (Setting::Bucket, params["bucket"@]);
    let y = (Setting::Root, root);
    let mut acc = seq![x, y];
    lemma_handed_values_pair(x, y, s);
    lemma_handed_values_one(x, s);
    lemma_handed_values_one(y, s);
    let o = opt_setting(Setting::Region, param(params, "region"@));
    lemma_handed_values_opt(Setting::Region, param(params, "region"@), s);
    lemma_handed_values_add(acc, o, s);
    acc = acc + o;
    let o = opt_setting(Setting::Endpoint, param(params, "endpoint"@));
    lemma_handed_values_opt(Setting::Endpoint, param(params, "endpoint"@), s);
    lemma_handed_values_add(acc, o, s);
    acc = acc + o;
    let o = opt_setting(Setting::AccessKeyId, param(params, "access-key-id"@));
    lemma_handed_values_opt(Setting::AccessKeyId, param(params, "access-key-id"@), s);
    lemma_handed_values_add(acc, o, s);
    acc = acc + o;
    let o = opt_setting(Setting::SecretAccessKey, param(params, "secret-access-key"@));
    lemma_handed_values_opt(Setting::SecretAccessKey, param(params, "secret-access-key"@), s);
    lemma_handed_values_add(acc, o, s);
    acc = acc + o;
    assert(acc =~= s3_settings(params, root));
}

/// The S3 builder is handed the `bucket` parameter as its bucket, the root as its root, and
/// each of `region`, `endpoint`, `access-key-id`, `secret-access-key`, when present, as the setting of that name:
/// each of them exactly once, and no other setting.
pub proof fn lemma_s3_settings_by_name(params: Map<Seq<char>, Seq<char>>, root: Seq<char>)
    ensures
        handed_values(s3_settings(params, root), Setting::Bucket) == seq![params["bucket"@]],
        handed_values(s3_settings(params, root), Setting::Root) == seq![root],
        handed_values(s3_settings(params, root), Setting::Region) == opt_seq(param(params, "region"@)),
        handed_values(s3_settings(params, root), Setting::Endpoint) == opt_seq(param(params, "endpoint"@)),
        handed_values(s3_settings(params, root), Setting::AccessKeyId) == opt_seq(param(params, "access-key-id"@)),
        handed_values(s3_settings(params, root), Setting::SecretAccessKey) == opt_seq(param(params, "secret-access-key"@)),
        forall|s: Setting|
            s != Setting::Bucket && s != Setting::Root && s != Setting::Region && s != Setting::Endpoint && s != Setting::AccessKeyId && s != Setting::SecretAccessKey ==> #[trigger] handed_values(s3_settings(params, root), s).len() == 0,
{
    lemma_s3_handed(params, root, Setting::Bucket);
    assert(handed_values(s3_settings(params, root), Setting::Bucket) =~= {
        let s = Setting::Bucket;
        (if s == Setting::Bucket {
            seq![params["bucket"@]]
        } else {
            Seq::<Seq<char>>::empty()
        }) + (if s == Setting::Root {
            seq![root]
        } else {
            Seq::<Seq<char>>::empty()
        }) + (if s == Setting::Region {
            opt_seq(param(params, "region"@))
        } else {
            Seq::<Seq<char>>::empty()
        }) + (if s == Setting::Endpoint {
            opt_seq(param(params, "endpoint"@))
        } else {
            Seq::<Seq<char>>::empty()
        }) + (if s == Setting::AccessKeyId {
            opt_seq(param(params, "access-key-id"@))
        } else {
            Seq::<Seq<char>>::empty()
        }) + (if s == Setting::SecretAccessKey {
            opt_seq(param(params, "secret-access-key"@))
        } else {
            Seq::<Seq<char>>::empty()
        })
    });
    lemma_s3_handed(params, root, Setting::Root);
    assert(handed_values(s3_settings(params, root), Setting::Root) =~= {
        let s = Setting::Root;
        (if s == Setting::Bucket {
            seq![params["bucket"@]]
        } else {
            Seq::<Seq<char>>::empty()
        }) + (if s == Setting::Root {
            seq![root]
        } else {
            Seq::<Seq<char>>::empty()
        }) + (if s == Setting::Region {
            opt_seq(param(params, "region"@))
        } else {
            Seq::<Seq<char>>::empty()
        }) + (if s == Setting::Endpoint {
            opt_seq(param(params, "endpoint"@))
        } else {
            Seq::<Seq<char>>::empty()
        }) + (if s == Setting::AccessKeyId {
            opt_seq(param(params, "access-key-id"@))
        } else {
            Seq::<Seq<char>>::empty()
        }) + (if s == Setting::SecretAccessKey {
            opt_seq(param(params, "secret-access-key"@))
        } else {
            Seq::<Seq<char>>::empty()
        })
    });
    lemma_s3_handed(params, root, Setting::Region);
    assert(handed_values(s3_settings(params, root), Setting::Region) =~= {
        let s = Setting::Region;
        (if s == Setting::Bucket {
            seq![params["bucket"@]]
        } else {
            Seq::<Seq<char>>::empty()
        }) + (if s == Setting::Root {
            seq![root]
        } else {
            Seq::<Seq<char>>::empty()
        }) + (if s == Setting::Region {
            opt_seq(param(params, "region"@))
        } else {
            Seq::<Seq<char>>::empty()
        }) + (if s == Setting::Endpoint {
            opt_seq(param(params, "endpoint"@))
        } else {
            Seq::<Seq<char>>::empty()
        }) + (if s == Setting::AccessKeyId {
            opt_seq(param(params, "access-key-id"@))
        } else {
            Seq::<Seq<char>>::empty()
        }) + (if s == Setting::SecretAccessKey {
            opt_seq(param(params, "secret-access-key"@))
        } else {
            Seq::<Seq<char>>::empty()
        })
    });
    lemma_s3_handed(params, root, Setting::Endpoint);
    assert(handed_values(s3_settings(params, root), Setting::Endpoint) =~= {
        let s = Setting::Endpoint;
        (if s == Setting::Bucket {
            seq![params["bucket"@]]
        } else {
            Seq::<Seq<char>>::empty()
        }) + (if s == Setting::Root {
            seq![root]
        } else {
            Seq::<Seq<char>>::empty()
        }) + (if s == Setting::Region {
            opt_seq(param(params, "region"@))
        } else {
            Seq::<Seq<char>>::empty()
        }) + (if s == Setting::Endpoint {
            opt_seq(param(params, "endpoint"@))
        } else {
            Seq::<Seq<char>>::empty()
        }) + (if s == Setting::AccessKeyId {
            opt_seq(param(params, "access-key-id"@))
        } else {
            Seq::<Seq<char>>::empty()
        }) + (if s == Setting::SecretAccessKey {
            opt_seq(param(params, "secret-access-key"@))
        } else {
            Seq::<Seq<char>>::empty()
        })
    });
    lemma_s3_handed(params, root, Setting::AccessKeyId);
    assert(handed_values(s3_settings(params, root), Setting::AccessKeyId) =~= {
        let s = Setting::AccessKeyId;
        (if s == Setting::Bucket {
            seq![params["bucket"@]]
        } else {
            Seq::<Seq<char>>::empty()
        }) + (if s == Setting::Root {
            seq![root]
        } else {
            Seq::<Seq<char>>::empty()
        }) + (if s == Setting::Region {
            opt_seq(param(params, "region"@))
        } else {
            Seq::<Seq<char>>::empty()
        }) + (if s == Setting::Endpoint {
            opt_seq(param(params, "endpoint"@))
        } else {
            Seq::<Seq<char>>::empty()
        }) + (if s == Setting::AccessKeyId {
            opt_seq(param(params, "access-key-id"@))
        } else {
            Seq::<Seq<char>>::empty()
        }) + (if s == Setting::SecretAccessKey {
            opt_seq(param(params, "secret-access-key"@))
        } else {
            Seq::<Seq<char>>::empty()
        })
    });
    lemma_s3_handed(params, root, Setting::SecretAccessKey);
    assert(handed_values(s3_settings(params, root), Setting::SecretAccessKey) =~= {
        let s = Setting::SecretAccessKey;
        (if s == Setting::Bucket {
            seq![params["bucket"@]]
        } else {
            Seq::<Seq<char>>::empty()
        }) + (if s == Setting::Root {
            seq![root]
        } else {
            Seq::<Seq<char>>::empty()
        }) + (if s == Setting::Region {
            opt_seq(param(params, "region"@))
        } else {
            Seq::<Seq<char>>::empty()
        }) + (if s == Setting::Endpoint {
            opt_seq(param(params, "endpoint"@))
        } else {
            Seq::<Seq<char>>::empty()
        }) + (if s == Setting::AccessKeyId {
            opt_seq(param(params, "access-key-id"@))
        } else {
            Seq::<Seq<char>>::empty()
        }) + (if s == Setting::SecretAccessKey {
            opt_seq(param(params, "secret-access-key"@))
        } else {
            Seq::<Seq<char>>::empty()
        })
    });
    assert forall|s: Setting|
        s != Setting::Bucket && s != Setting::Root && s != Setting::Region && s != Setting::Endpoint && s != Setting::AccessKeyId && s != Setting::SecretAccessKey implies #[trigger] handed_values(s3_settings(params, root), s).len() == 0 by {
        lemma_s3_handed(params, root, s);
    }
}

proof fn lemma_gcs_handed(params: Map<Seq<char>, Seq<char>>, root: Seq<char>, s: Setting)
    ensures
        handed_values(gcs_settings(params, root), s) == (if s == Setting::Bucket {
            seq![params["bucket"@]]
        } else {
            Seq::<Seq<char>>::empty()
        }) + (if s == Setting::Root {
            seq![root]
        } else {
            Seq::<Seq<char>>::empty()
        }) + (if s == Setting::Credential {
            opt_seq(param(params, "credential"@))
        } else {
            Seq::<Seq<char>>::empty()
        }) + (if s == Setting::CredentialPath {
            opt_seq(param(params, "credential-path"@))
        } else {
            Seq::<Seq<char>>::empty()
        }) + (if s == Setting::Endpoint {
            opt_seq(param(params, "endpoint"@))
        } else {
            Seq::<Seq<char>>::empty()
        }),
{
    let x = (Setting::Bucket, params["bucket"@]);
    let y = (Setting::Root, root);
    let mut acc = seq![x, y];
    lemma_handed_values_pair(x, y, s);
    lemma_handed_values_one(x, s);
    lemma_handed_values_one(y, s);
    let o = opt_setting(Setting::Credential, param(params, "credential"@));
    lemma_handed_values_opt(Setting::Credential, param(params, "credential"@), s);
    lemma_handed_values_add(acc, o, s);
    acc = acc + o;
    let o = opt_setting(Setting::CredentialPath, param(params, "credential-path"@));
    lemma_handed_values_opt(Setting::CredentialPath, param(params, "credential-path"@), s);
    lemma_handed_values_add(acc, o, s);
    acc = acc + o;
    let o = opt_setting(Setting::Endpoint, param(params, "endpoint"@));
    lemma_handed_values_opt(Setting::Endpoint, param(params, "endpoint"@), s);
    lemma_handed_values_add(acc, o, s);
    acc = acc + o;
    assert(acc =~= gcs_settings(params, root));
}

/// The GCS builder is handed the `bucket` parameter as its bucket, the root as its root, and
/// each of `credential`, `credential-path`, `endpoint`, when present, as the setting of that name:
/// each of them exactly once, and no other setting.
pub proof fn lemma_gcs_settings_by_name(params: Map<Seq<char>, Seq<char>>, root: Seq<char>)
    ensures
        handed_values(gcs_settings(params, root), Setting::Bucket) == seq![params["bucket"@]],
        handed_values(gcs_settings(params, root), Setting::Root) == seq![root],
        handed_values(gcs_settings(params, root), Setting::Credential) == opt_seq(param(params, "credential"@)),
        handed_values(gcs_settings(params, root), Setting::CredentialPath) == opt_seq(param(params, "credential-path"@)),
        handed_values(gcs_settings(params, root), Setting::Endpoint) == opt_seq(param(params, "endpoint"@)),
        forall|s: Setting|
            s != Setting::Bucket && s != Setting::Root && s != Setting::Credential && s != Setting::CredentialPath && s != Setting::Endpoint ==> #[trigger] handed_values(gcs_settings(params, root), s).len() == 0,
{
    lemma_gcs_handed(params, root, Setting::Bucket);
    assert(handed_values(gcs_settings(params, root), Setting::Bucket) =~= {
        let s = Setting::Bucket;
        (if s == Setting::Bucket {
            seq![params["bucket"@]]
        } else {
            Seq::<Seq<char>>::empty()
        }) + (if s == Setting::Root {
            seq![root]
        } else {
            Seq::<Seq<char>>::empty()
        }) + (if s == Setting::Credential {
            opt_seq(param(params, "credential"@))
        } else {
            Seq::<Seq<char>>::empty()
        }) + (if s == Setting::CredentialPath {
            opt_seq(param(params, "credential-path"@))
        } else {
            Seq::<Seq<char>>::empty()
        }) + (if s == Setting::Endpoint {
            opt_seq(param(params, "endpoint"@))
        } else {
            Seq::<Seq<char>>::empty()
        })
    });
    lemma_gcs_handed(params, root, Setting::Root);
    assert(handed_values(gcs_settings(params, root), Setting::Root) =~= {
        let s = Setting::Root;
        (if s == Setting::Bucket {
            seq![params["bucket"@]]
        } else {
            Seq::<Seq<char>>::empty()
        }) + (if s == Setting::Root {
            seq![root]
        } else {
            Seq::<Seq<char>>::empty()
        }) + (if s == Setting::Credential {
            opt_seq(param(params, "credential"@))
        } else {
            Seq::<Seq<char>>::empty()
        }) + (if s == Setting::CredentialPath {
            opt_seq(param(params, "credential-path"@))
        } else {
            Seq::<Seq<char>>::empty()
        }) + (if s == Setting::Endpoint {
            opt_seq(param(params, "endpoint"@))
        } else {
            Seq::<Seq<char>>::empty()
        })
    });
    lemma_gcs_handed(params, root, Setting::Credential);
    assert(handed_values(gcs_settings(params, root), Setting::Credential) =~= {
        let s = Setting::Credential;
        (if s == Setting::Bucket {
            seq![params["bucket"@]]
        } else {
            Seq::<Seq<char>>::empty()
        }) + (if s == Setting::Root {
            seq![root]
        } else {
            Seq::<Seq<char>>::empty()
        }) + (if s == Setting::Credential {
            opt_seq(param(params, "credential"@))
        } else {
            Seq::<Seq<char>>::empty()
        }) + (if s == Setting::CredentialPath {
            opt_seq(param(params, "credential-path"@))
        } else {
            Seq::<Seq<char>>::empty()
        }) + (if s == Setting::Endpoint {
            opt_seq(param(params, "endpoint"@))
        } else {
            Seq::<Seq<char>>::empty()
        })
    });
    lemma_gcs_handed(params, root, Setting::CredentialPath);
    assert(handed_values(gcs_settings(params, root), Setting::CredentialPath) =~= {
        let s = Setting::CredentialPath;
        (if s == Setting::Bucket {
            seq![params["bucket"@]]
        } else {
            Seq::<Seq<char>>::empty()
        }) + (if s == Setting::Root {
            seq![root]
        } else {
            Seq::<Seq<char>>::empty()
        }) + (if s == Setting::Credential {
            opt_seq(param(params, "credential"@))
        } else {
            Seq::<Seq<char>>::empty()
        }) + (if s == Setting::CredentialPath {
            opt_seq(param(params, "credential-path"@))
        } else {
            Seq::<Seq<char>>::empty()
        }) + (if s == Setting::Endpoint {
            opt_seq(param(params, "endpoint"@))
        } else {
            Seq::<Seq<char>>::empty()
        })
    });
    lemma_gcs_handed(params, root, Setting::Endpoint);
    assert(handed_values(gcs_settings(params, root), Setting::Endpoint) =~= {
        let s = Setting::Endpoint;
        (if s == Setting::Bucket {
            seq![params["bucket"@]]
        } else {
            Seq::<Seq<char>>::empty()
        }) + (if s == Setting::Root {
            seq![root]
        } else {
            Seq::<Seq<char>>::empty()
        }) + (if s == Setting::Credential {
            opt_seq(param(params, "credential"@))
        } else {
            Seq::<Seq<char>>::empty()
        }) + (if s == Setting::CredentialPath {
            opt_seq(param(params, "credential-path"@))
        } else {
            Seq::<Seq<char>>::empty()
        }) + (if s == Setting::Endpoint {
            opt_seq(param(params, "endpoint"@))
        } else {
            Seq::<Seq<char>>::empty()
        })
    });
    assert forall|s: Setting|
        s != Setting::Bucket && s != Setting::Root && s != Setting::Credential && s != Setting::CredentialPath && s != Setting::Endpoint implies #[trigger] handed_values(gcs_settings(params, root), s).len() == 0 by {
        lemma_gcs_handed(params, root, s);
    }
}

proof fn lemma_azblob_handed(params: Map<Seq<char>, Seq<char>>, root: Seq<char>, s: Setting)
    ensures
        handed_values(azblob_settings(params, root), s) == (if s == Setting::Container {
            seq![params["container"@]]
        } else {
            Seq::<Seq<char>>::empty()
        }) + (if s == Setting::Root {
            seq![root]
        } else {
            Seq::<Seq<char>>::empty()
        }) + (if s == Setting::AccountName {
            opt_seq(param(params, "account-name"@))
        } else {
            Seq::<Seq<char>>::empty()
        }) + (if s == Setting::AccountKey {
            opt_seq(param(params, "account-key"@))
        } else {
            Seq::<Seq<char>>::empty()
        }) + (if s == Setting::Endpoint {
            opt_seq(param(params, "endpoint"@))
        } else {
            Seq::<Seq<char>>::empty()
        }),
{
    let x = (Setting::Container, params["container"@]);
    let y = (Setting::Root, root);
    let mut acc = seq![x, y];
    lemma_handed_values_pair(x, y, s);
    lemma_handed_values_one(x, s);
    lemma_handed_values_one(y, s);
    let o = opt_setting(Setting::AccountName, param(params, "account-name"@));
    lemma_handed_values_opt(Setting::AccountName, param(params, "account-name"@), s);
    lemma_handed_values_add(acc, o, s);
    acc = acc + o;
    let o = opt_setting(Setting::AccountKey, param(params, "account-key"@));
    lemma_handed_values_opt(Setting::AccountKey, param(params, "account-key"@), s);
    lemma_handed_values_add(acc, o, s);
    acc = acc + o;
    let o = opt_setting(Setting::Endpoint, param(params, "endpoint"@));
    lemma_handed_values_opt(Setting::Endpoint, param(params, "endpoint"@), s);
    lemma_handed_values_add(acc, o, s);
    acc = acc + o;
    assert(acc =~= azblob_settings(params, root));
}

/// The Azure Blob builder is handed the `container` parameter as its container, the root as its root, and
/// each of `account-name`, `account-key`, `endpoint`, when present, as the setting of that name:
/// each of them exactly once, and no other setting.
pub proof fn lemma_azblob_settings_by_name(params: Map<Seq<char>, Seq<char>>, root: Seq<char>)
    ensures
        handed_values(azblob_settings(params, root), Setting::Container) == seq![params["container"@]],
        handed_values(azblob_settings(params, root), Setting::Root) == seq![root],
        handed_values(azblob_settings(params, root), Setting::AccountName) == opt_seq(param(params, "account-name"@)),
        handed_values(azblob_settings(params, root), Setting::AccountKey) == opt_seq(param(params, "account-key"@)),
        handed_values(azblob_settings(params, root), Setting::Endpoint) == opt_seq(param(params, "endpoint"@)),
        forall|s: Setting|
            s != Setting::Container && s != Setting::Root && s != Setting::AccountName && s != Setting::AccountKey && s != Setting::Endpoint ==> #[trigger] handed_values(azblob_settings(params, root), s).len() == 0,
{
    lemma_azblob_handed(params, root, Setting::Container);
    assert(handed_values(azblob_settings(params, root), Setting::Container) =~= {
        let s = Setting::Container;
        (if s == Setting::Container {
            seq![params["container"@]]
        } else {
            Seq::<Seq<char>>::empty()
        }) + (if s == Setting::Root {
            seq![root]
        } else {
            Seq::<Seq<char>>::empty()
        }) + (if s == Setting::AccountName {
            opt_seq(param(params, "account-name"@))
        } else {
            Seq::<Seq<char>>::empty()
        }) + (if s == Setting::AccountKey {
            opt_seq(param(params, "account-key"@))
        } else {
            Seq::<Seq<char>>::empty()
        }) + (if s == Setting::Endpoint {
            opt_seq(param(params, "endpoint"@))
        } else {
            Seq::<Seq<char>>::empty()
        })
    });
    lemma_azblob_handed(params, root, Setting::Root);
    assert(handed_values(azblob_settings(params, root), Setting::Root) =~= {
        let s = Setting::Root;
        (if s == Setting::Container {
            seq![params["container"@]]
        } else {
            Seq::<Seq<char>>::empty()
        }) + (if s == Setting::Root {
            seq![root]
        } else {
            Seq::<Seq<char>>::empty()
        }) + (if s == Setting::AccountName {
            opt_seq(param(params, "account-name"@))
        } else {
            Seq::<Seq<char>>::empty()
        }) + (if s == Setting::AccountKey {
            opt_seq(param(params, "account-key"@))
        } else {
            Seq::<Seq<char>>::empty()
        }) + (if s == Setting::Endpoint {
            opt_seq(param(params, "endpoint"@))
        } else {
            Seq::<Seq<char>>::empty()
        })
    });
    lemma_azblob_handed(params, root, Setting::AccountName);
    assert(handed_values(azblob_settings(params, root), Setting::AccountName) =~= {
        let s = Setting::AccountName;
        (if s == Setting::Container {
            seq![params["container"@]]
        } else {
            Seq::<Seq<char>>::empty()
        }) + (if s == Setting::Root {
            seq![root]
        } else {
            Seq::<Seq<char>>::empty()
        }) + (if s == Setting::AccountName {
            opt_seq(param(params, "account-name"@))
        } else {
            Seq::<Seq<char>>::empty()
        }) + (if s == Setting::AccountKey {
            opt_seq(param(params, "account-key"@))
        } else {
            Seq::<Seq<char>>::empty()
        }) + (if s == Setting::Endpoint {
            opt_seq(param(params, "endpoint"@))
        } else {
            Seq::<Seq<char>>::empty()
        })
    });
    lemma_azblob_handed(params, root, Setting::AccountKey);
    assert(handed_values(azblob_settings(params, root), Setting::AccountKey) =~= {
        let s = Setting::AccountKey;
        (if s == Setting::Container {
            seq![params["container"@]]
        } else {
            Seq::<Seq<char>>::empty()
        }) + (if s == Setting::Root {
            seq![root]
        } else {
            Seq::<Seq<char>>::empty()
        }) + (if s == Setting::AccountName {
            opt_seq(param(params, "account-name"@))
        } else {
            Seq::<Seq<char>>::empty()
        }) + (if s == Setting::AccountKey {
            opt_seq(param(params, "account-key"@))
        } else {
            Seq::<Seq<char>>::empty()
        }) + (if s == Setting::Endpoint {
            opt_seq(param(params, "endpoint"@))
        } else {
            Seq::<Seq<char>>::empty()
        })
    });
    lemma_azblob_handed(params, root, Setting::Endpoint);
    assert(handed_values(azblob_settings(params, root), Setting::Endpoint) =~= {
        let s = Setting::Endpoint;
        (if s == Setting::Container {
            seq![params["container"@]]
        } else {
            Seq::<Seq<char>>::empty()
        }) + (if s == Setting::Root {
            seq![root]
        } else {
            Seq::<Seq<char>>::empty()
        }) + (if s == Setting::AccountName {
            opt_seq(param(params, "account-name"@))
        } else {
            Seq::<Seq<char>>::empty()
        }) + (if s == Setting::AccountKey {
            opt_seq(param(params, "account-key"@))
        } else {
            Seq::<Seq<char>>::empty()
        }) + (if s == Setting::Endpoint {
            opt_seq(param(params, "endpoint"@))
        } else {
            Seq::<Seq<char>>::empty()
        })
    });
    assert forall|s: Setting|
        s != Setting::Container && s != Setting::Root && s != Setting::AccountName && s != Setting::AccountKey && s != Setting::Endpoint implies #[trigger] handed_values(azblob_settings(params, root), s).len() == 0 by {
        lemma_azblob_handed(params, root, s);
    }
}

proof fn lemma_gdrive_handed(params: Map<Seq<char>, Seq<char>>, root: Seq<char>, s: Setting)
    ensures
        handed_values(gdrive_settings(params, root), s) == (if s == Setting::Root {
            seq![root]
        } else {
            Seq::<Seq<char>>::empty()
        }) + (if s == Setting::ClientId {
            opt_seq(param(params, "client-id"@))
        } else {
            Seq::<Seq<char>>::empty()
        }) + (if s == Setting::ClientSecret {
            opt_seq(param(params, "client-secret"@))
        } else {
            Seq::<Seq<char>>::empty()
        }) + (if s == Setting::RefreshToken {
            opt_seq(param(params, "refresh-token"@))
        } else {
            Seq::<Seq<char>>::empty()
        }) + (if s == Setting::AccessToken {
            opt_seq(param(params, "access-token"@))
        } else {
            Seq::<Seq<char>>::empty()
        }),
{
    let y = (Setting::Root, root);
    let mut acc = seq![y];
    lemma_handed_values_one(y, s);
    let o = opt_setting(Setting::ClientId, param(params, "client-id"@));
    lemma_handed_values_opt(Setting::ClientId, param(params, "client-id"@), s);
    lemma_handed_values_add(acc, o, s);
    acc = acc + o;
    let o = opt_setting(Setting::ClientSecret, param(params, "client-secret"@));
    lemma_handed_values_opt(Setting::ClientSecret, param(params, "client-secret"@), s);
    lemma_handed_values_add(acc, o, s);
    acc = acc + o;
    let o = opt_setting(Setting::RefreshToken, param(params, "refresh-token"@));
    lemma_handed_values_opt(Setting::RefreshToken, param(params, "refresh-token"@), s);
    lemma_handed_values_add(acc, o, s);
    acc = acc + o;
    let o = opt_setting(Setting::AccessToken, param(params, "access-token"@));
    lemma_handed_values_opt(Setting::AccessToken, param(params, "access-token"@), s);
    lemma_handed_values_add(acc, o, s);
    acc = acc + o;
    assert(acc =~= gdrive_settings(params, root));
}

/// The Google Drive builder is handed the root as its root, and
/// each of `client-id`, `client-secret`, `refresh-token`, `access-token`, when present, as the setting of that name:
/// each of them exactly once, and no other setting.
pub proof fn lemma_gdrive_settings_by_name(params: Map<Seq<char>, Seq<char>>, root: Seq<char>)
    ensures
        handed_values(gdrive_settings(params, root), Setting::Root) == seq![root],
        handed_values(gdrive_settings(params, root), Setting::ClientId) == opt_seq(param(params, "client-id"@)),
        handed_values(gdrive_settings(params, root), Setting::ClientSecret) == opt_seq(param(params, "client-secret"@)),
        handed_values(gdrive_settings(params, root), Setting::RefreshToken) == opt_seq(param(params, "refresh-token"@)),
        handed_values(gdrive_settings(params, root), Setting::AccessToken) == opt_seq(param(params, "access-token"@)),
        forall|s: Setting|
            s != Setting::Root && s != Setting::ClientId && s != Setting::ClientSecret && s != Setting::RefreshToken && s != Setting::AccessToken ==> #[trigger] handed_values(gdrive_settings(params, root), s).len() == 0,
{
    lemma_gdrive_handed(params, root, Setting::Root);
    assert(handed_values(gdrive_settings(params, root), Setting::Root) =~= {
        let s = Setting::Root;
        (if s == Setting::Root {
            seq![root]
        } else {
            Seq::<Seq<char>>::empty()
        }) + (if s == Setting::ClientId {
            opt_seq(param(params, "client-id"@))
        } else {
            Seq::<Seq<char>>::empty()
        }) + (if s == Setting::ClientSecret {
            opt_seq(param(params, "client-secret"@))
        } else {
            Seq::<Seq<char>>::empty()
        }) + (if s == Setting::RefreshToken {
            opt_seq(param(params, "refresh-token"@))
        } else {
            Seq::<Seq<char>>::empty()
        }) + (if s == Setting::AccessToken {
            opt_seq(param(params, "access-token"@))
        } else {
            Seq::<Seq<char>>::empty()
        })
    });
    lemma_gdrive_handed(params, root, Setting::ClientId);
    assert(handed_values(gdrive_settings(params, root), Setting::ClientId) =~= {
        let s = Setting::ClientId;
        (if s == Setting::Root {
            seq![root]
        } else {
            Seq::<Seq<char>>::empty()
        }) + (if s == Setting::ClientId {
            opt_seq(param(params, "client-id"@))
        } else {
            Seq::<Seq<char>>::empty()
        }) + (if s == Setting::ClientSecret {
            opt_seq(param(params, "client-secret"@))
        } else {
            Seq::<Seq<char>>::empty()
        }) + (if s == Setting::RefreshToken {
            opt_seq(param(params, "refresh-token"@))
        } else {
            Seq::<Seq<char>>::empty()
        }) + (if s == Setting::AccessToken {
            opt_seq(param(params, "access-token"@))
        } else {
            Seq::<Seq<char>>::empty()
        })
    });
    lemma_gdrive_handed(params, root, Setting::ClientSecret);
    assert(handed_values(gdrive_settings(params, root), Setting::ClientSecret) =~= {
        let s = Setting::ClientSecret;
        (if s == Setting::Root {
            seq![root]
        } else {
            Seq::<Seq<char>>::empty()
        }) + (if s == Setting::ClientId {
            opt_seq(param(params, "client-id"@))
        } else {
            Seq::<Seq<char>>::empty()
        }) + (if s == Setting::ClientSecret {
            opt_seq(param(params, "client-secret"@))
        } else {
            Seq::<Seq<char>>::empty()
        }) + (if s == Setting::RefreshToken {
            opt_seq(param(params, "refresh-token"@))
        } else {
            Seq::<Seq<char>>::empty()
        }) + (if s == Setting::AccessToken {
            opt_seq(param(params, "access-token"@))
        } else {
            Seq::<Seq<char>>::empty()
        })
    });
    lemma_gdrive_handed(params, root, Setting::RefreshToken);
    assert(handed_values(gdrive_settings(params, root), Setting::RefreshToken) =~= {
        let s = Setting::RefreshToken;
        (if s == Setting::Root {
            seq![root]
        } else {
            Seq::<Seq<char>>::empty()
        }) + (if s == Setting::ClientId {
            opt_seq(param(params, "client-id"@))
        } else {
            Seq::<Seq<char>>::empty()
        }) + (if s == Setting::ClientSecret {
            opt_seq(param(params, "client-secret"@))
        } else {
            Seq::<Seq<char>>::empty()
        }) + (if s == Setting::RefreshToken {
            opt_seq(param(params, "refresh-token"@))
        } else {
            Seq::<Seq<char>>::empty()
        }) + (if s == Setting::AccessToken {
            opt_seq(param(params, "access-token"@))
        } else {
            Seq::<Seq<char>>::empty()
        })
    });
    lemma_gdrive_handed(params, root, Setting::AccessToken);
    assert(handed_values(gdrive_settings(params, root), Setting::AccessToken) =~= {
        let s = Setting::AccessToken;
        (if s == Setting::Root {
            seq![root]
        } else {
            Seq::<Seq<char>>::empty()
        }) + (if s == Setting::ClientId {
            opt_seq(param(params, "client-id"@))
        } else {
            Seq::<Seq<char>>::empty()
        }) + (if s == Setting::ClientSecret {
            opt_seq(param(params, "client-secret"@))
        } else {
            Seq::<Seq<char>>::empty()
        }) + (if s == Setting::RefreshToken {
            opt_seq(param(params, "refresh-token"@))
        } else {
            Seq::<Seq<char>>::empty()
        }) + (if s == Setting::AccessToken {
            opt_seq(param(params, "access-token"@))
        } else {
            Seq::<Seq<char>>::empty()
        })
    });
    assert forall|s: Setting|
        s != Setting::Root && s != Setting::ClientId && s != Setting::ClientSecret && s != Setting::RefreshToken && s != Setting::AccessToken implies #[trigger] handed_values(gdrive_settings(params, root), s).len() == 0 by {
        lemma_gdrive_handed(params, root, s);
    }
}

/// The filesystem builder is handed the normalised root as its root, and no
/// other setting.
pub proof fn lemma_fs_settings_by_name(root: Seq<char>)
    ensures
        handed_values(fs_settings(root), Setting::Root) == seq![spec_fs_root(root)],
        forall|s: Setting| s != Setting::Root ==> #[trigger] handed_values(fs_settings(root), s).len() == 0,
{
    lemma_handed_values_one((Setting::Root, spec_fs_root(root)), Setting::Root);
    assert forall|s: Setting| s != Setting::Root implies #[trigger] handed_values(fs_settings(root), s).len() == 0 by {
        lemma_handed_values_one((Setting::Root, spec_fs_root(root)), s);
    }
}

/// Build an S3 operator from `cfg`: the bucket and root, then the optional
/// parameters that are present, are handed to the S3 builder.
pub fn build_s3(cfg: &RemoteConfig) -> (r: Result<BuiltOperator, OperatorError>)
    ensures
        !cfg.params@.contains_key("bucket"@) ==> r matches Err(OperatorError::MissingS3Bucket),
        cfg.params@.contains_key("bucket"@) ==> service_outcome(r),
        r matches Ok(o) ==> o.service() == Service::S3 && o.settings() == s3_settings(
            cfg.params@,
            cfg.root@,
        ),
{
    let plan = s3_plan(cfg)?;
    let mut b = fresh(S3::default());
    b = s3_bucket(b, plan.bucket.as_str());
    b = s3_root(b, plan.root.as_str());
    let ghost h0 = b.handed();
    if let Some(v) = &plan.region {
        b = s3_region(b, v.as_str());
    }
    let ghost h1 = b.handed();
    assert(h1 == h0 + opt_setting(Setting::Region, opt_view(plan.region)));
    if let Some(v) = &plan.endpoint {
        b = s3_endpoint(b, v.as_str());
    }
    let ghost h2 = b.handed();
    assert(h2 == h1 + opt_setting(Setting::Endpoint, opt_view(plan.endpoint)));
    if let Some(v) = &plan.access_key_id {
        b = s3_access_key_id(b, v.as_str());
    }
    let ghost h3 = b.handed();
    assert(h3 == h2 + opt_setting(Setting::AccessKeyId, opt_view(plan.access_key_id)));
    if let Some(v) = &plan.secret_access_key {
        b = s3_secret_access_key(b, v.as_str());
    }
    assert(b.handed() == h3 + opt_setting(
        Setting::SecretAccessKey,
        opt_view(plan.secret_access_key),
    ));
    assert(b.handed() =~= s3_settings(cfg.params@, cfg.root@));
    match finish_s3(b) {
        Ok(op) => Ok(op),
        Err(e) => Err(OperatorError::Service(e)),
    }
}

/// Build a GCS operator from `cfg`: the bucket and root, then the optional
/// parameters that are present, are handed to the GCS builder.
pub fn build_gcs(cfg: &RemoteConfig) -> (r: Result<BuiltOperator, OperatorError>)
    ensures
        !cfg.params@.contains_key("bucket"@) ==> r matches Err(OperatorError::MissingGcsBucket),
        cfg.params@.contains_key("bucket"@) ==> service_outcome(r),
        r matches Ok(o) ==> o.service() == Service::Gcs && o.settings() == gcs_settings(
            cfg.params@,
            cfg.root@,
        ),
{
    let plan = gcs_plan(cfg)?;
    let mut b = fresh(Gcs::default());
    b = gcs_bucket(b, plan.bucket.as_str());
    b = gcs_root(b, plan.root.as_str());
    let ghost h0 = b.handed();
    if let Some(v) = &plan.credential {
        b = gcs_credential(b, v.as_str());
    }
    let ghost h1 = b.handed();
    assert(h1 == h0 + opt_setting(Setting::Credential, opt_view(plan.credential)));
    if let Some(v) = &plan.credential_path {
        b = gcs_credential_path(b, v.as_str());
    }
    let ghost h2 = b.handed();
    assert(h2 == h1 + opt_setting(Setting::CredentialPath, opt_view(plan.credential_path)));
    if let Some(v) = &plan.endpoint {
        b = gcs_endpoint(b, v.as_str());
    }
    assert(b.handed() == h2 + opt_setting(Setting::Endpoint, opt_view(plan.endpoint)));
    assert(b.handed() =~= gcs_settings(cfg.params@, cfg.root@));
    match finish_gcs(b) {
        Ok(op) => Ok(op),
        Err(e) => Err(OperatorError::Service(e)),
    }
}

/// Build an Azure Blob operator from `cfg`: the container and root, then
/// the optional parameters that are present, are handed to the builder.
pub fn build_azblob(cfg: &RemoteConfig) -> (r: Result<BuiltOperator, OperatorError>)
    ensures
        !cfg.params@.contains_key("container"@) ==> r matches Err(
            OperatorError::MissingAzblobContainer,
        ),
        cfg.params@.contains_key("container"@) ==> service_outcome(r),
        r matches Ok(o) ==> o.service() == Service::Azblob && o.settings() == azblob_settings(
            cfg.params@,
            cfg.root@,
        ),
{
    let plan = azblob_plan(cfg)?;
    let mut b = fresh(Azblob::default());
    b = azblob_container(b, plan.container.as_str());
    b = azblob_root(b, plan.root.as_str());
    let ghost h0 = b.handed();
    if let Some(v) = &plan.account_name {
        b = azblob_account_name(b, v.as_str());
    }
    let ghost h1 = b.handed();
    assert(h1 == h0 + opt_setting(Setting::AccountName, opt_view(plan.account_name)));
    if let Some(v) = &plan.account_key {
        b = azblob_account_key(b, v.as_str());
    }
    let ghost h2 = b.handed();
    assert(h2 == h1 + opt_setting(Setting::AccountKey, opt_view(plan.account_key)));
    if let Some(v) = &plan.endpoint {
        b = azblob_endpoint(b, v.as_str());
    }
    assert(b.handed() == h2 + opt_setting(Setting::Endpoint, opt_view(plan.endpoint)));
    assert(b.handed() =~= azblob_settings(cfg.params@, cfg.root@));
    match finish_azblob(b) {
        Ok(op) => Ok(op),
        Err(e) => Err(OperatorError::Service(e)),
    }
}

/// Build a Google Drive operator from `cfg`: the root, then the optional
/// parameters that are present, are handed to the builder.
pub fn build_gdrive(cfg: &RemoteConfig) -> (r: Result<BuiltOperator, OperatorError>)
    ensures
        service_outcome(r),
        r matches Ok(o) ==> o.service() == Service::Gdrive && o.settings() == gdrive_settings(
            cfg.params@,
            cfg.root@,
        ),
{
    let plan = gdrive_plan(cfg);
    let mut b = fresh(Gdrive::default());
    b = gdrive_root(b, plan.root.as_str());
    let ghost h0 = b.handed();
    if let Some(v) = &plan.client_id {
        b = gdrive_client_id(b, v.as_str());
    }
    let ghost h1 = b.handed();
    assert(h1 == h0 + opt_setting(Setting::ClientId, opt_view(plan.client_id)));
    if let Some(v) = &plan.client_secret {
        b = gdrive_client_secret(b, v.as_str());
    }
    let ghost h2 = b.handed();
    assert(h2 == h1 + opt_setting(Setting::ClientSecret, opt_view(plan.client_secret)));
    if let Some(v) = &plan.refresh_token {
        b = gdrive_refresh_token(b, v.as_str());
    }
    let ghost h3 = b.handed();
    assert(h3 == h2 + opt_setting(Setting::RefreshToken, opt_view(plan.refresh_token)));
    if let Some(v) = &plan.access_token {
        b = gdrive_access_token(b, v.as_str());
    }
    assert(b.handed() == h3 + opt_setting(Setting::AccessToken, opt_view(plan.access_token)));
    assert(b.handed() =~= gdrive_settings(cfg.params@, cfg.root@));
    match finish_gdrive(b) {
        Ok(op) => Ok(op),
        Err(e) => Err(OperatorError::Service(e)),
    }
}

/// Build a filesystem operator rooted at `cfg`'s root, normalised.
pub fn build_fs(cfg: &RemoteConfig) -> (r: Result<BuiltOperator, OperatorError>)
    ensures
        service_outcome(r),
        r matches Ok(o) ==> o.service() == Service::Fs && o.settings() == fs_settings(cfg.root@),
{
    let root = normalize_fs_root(cfg.root.as_str());
    let b = fs_root(fresh(Fs::default()), root.as_str());
    assert(b.handed() =~= fs_settings(cfg.root@));
    match finish_fs(b) {
        Ok(op) => Ok(op),
        Err(e) => Err(OperatorError::Service(e)),
    }
}

/// Build an in-memory operator (its contents live only as long as the
/// process); its builder is given no setting.
pub fn build_memory() -> (r: Result<BuiltOperator, OperatorError>)
    ensures
        service_outcome(r),
        r matches Ok(o) ==> o.service() == Service::Memory && o.settings() == Seq::<
            (Setting, Seq<char>),
        >::empty(),
{
    match finish_memory(fresh(Memory::default())) {
        Ok(op) => Ok(op),
        Err(e) => Err(OperatorError::Service(e)),
    }
}

/// The service a scheme stands for, if any.
pub open spec fn is_known_scheme(scheme: Seq<char>) -> bool {
    scheme == "s3"@ || scheme == "gcs"@ || scheme == "azblob"@ || scheme == "gdrive"@ || scheme
        == "fs"@ || scheme == "memory"@
}

/// The service that a known scheme stands for, and the settings its
/// builder is given for `params` and `root`.
pub open spec fn scheme_settings(
    scheme: Seq<char>,
    params: Map<Seq<char>, Seq<char>>,
    root: Seq<char>,
) -> (Service, Seq<(Setting, Seq<char>)>) {
    if scheme == "s3"@ {
        (Service::S3, s3_settings(params, root))
    } else if scheme == "gcs"@ {
        (Service::Gcs, gcs_settings(params, root))
    } else if scheme == "azblob"@ {
        (Service::Azblob, azblob_settings(params, root))
    } else if scheme == "gdrive"@ {
        (Service::Gdrive, gdrive_settings(params, root))
    } else if scheme == "fs"@ {
        (Service::Fs, fs_settings(root))
    } else {
        (Service::Memory, Seq::empty())
    }
}

/// Build the operator for the remote's scheme.
pub fn build_operator(cfg: &RemoteConfig) -> (r: Result<BuiltOperator, OperatorError>)
    ensures
        !is_known_scheme(cfg.scheme@) ==> (r matches Err(OperatorError::UnsupportedScheme(s))
            && s@ == cfg.scheme@),
        cfg.scheme@ == "s3"@ ==> (!cfg.params@.contains_key("bucket"@) <==> (r matches Err(
            OperatorError::MissingS3Bucket,
        ))),
        cfg.scheme@ == "gcs"@ ==> (!cfg.params@.contains_key("bucket"@) <==> (r matches Err(
            OperatorError::MissingGcsBucket,
        ))),
        cfg.scheme@ == "azblob"@ ==> (!cfg.params@.contains_key("container"@) <==> (r matches Err(
            OperatorError::MissingAzblobContainer,
        ))),
        (cfg.scheme@ == "gdrive"@ || cfg.scheme@ == "fs"@ || cfg.scheme@ == "memory"@)
            ==> service_outcome(r),
        r matches Ok(o) ==> is_known_scheme(cfg.scheme@) && (o.service(), o.settings())
            == scheme_settings(cfg.scheme@, cfg.params@, cfg.root@),
{
    let scheme = cfg.scheme.as_str();
    proof {
        reveal_strlit("s3");
        reveal_strlit("gcs");
        reveal_strlit("azblob");
        reveal_strlit("gdrive");
        reveal_strlit("fs");
        reveal_strlit("memory");
    }
    assert("s3"@.len() == 2 && "s3"@[0] == 's');
    assert("gcs"@.len() == 3);
    assert("azblob"@.len() == 6 && "azblob"@[0] == 'a');
    assert("gdrive"@.len() == 6 && "gdrive"@[0] == 'g');
    assert("fs"@.len() == 2 && "fs"@[0] == 'f');
    assert("memory"@.len() == 6 && "memory"@[0] == 'm');
    if str_eq(scheme, "s3") {
        build_s3(cfg)
    } else if str_eq(scheme, "gcs") {
        build_gcs(cfg)
    } else if str_eq(scheme, "azblob") {
        build_azblob(cfg)
    } else if str_eq(scheme, "gdrive") {
        build_gdrive(cfg)
    } else if str_eq(scheme, "fs") {
        build_fs(cfg)
    } else if str_eq(scheme, "memory") {
        build_memory()
    } else {
        Err(OperatorError::UnsupportedScheme(cfg.scheme.clone()))
    }
}

} // verus!
