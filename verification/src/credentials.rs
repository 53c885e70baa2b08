//! Backend parameters that a scheme knows about, and the decisions of
//! resolving missing ones.
//!
//! Resolution order, highest priority first: parameters already present
//! (from `OPENDAL_<SCHEME>_<KEY>` variables), the repository's local Git
//! configuration (`opendal.<scheme>.<key>`), then an interactive prompt whose
//! answer is saved back to the Git configuration. An empty configured value
//! means the user skipped the parameter before: it is not asked again, and
//! for a required parameter it is a fatal error, as a blank answer is.
//!
//! The reading, prompting and saving are done by the caller; [`Resolver`]
//! decides, one event at a time, what is to be done next.

use vstd::prelude::*;
use crate::config::RemoteConfig;
use crate::text::{
    concat2, replace, replace_char, seq_starts_with, starts_with, str_eq, str_to_uppercase,
    to_uppercase, trim, trim_ws,
};

verus! {

/// A check that a prompted value must pass.
#[derive(Debug, Clone, Copy, PartialEq, Eq, Structural)]
pub enum Validator {
    /// The value must start with `http://` or `https://`.
    Url,
}

/// What the resolver knows about one backend parameter.
#[derive(Debug, Clone, Copy)]
pub struct ParamSpec {
    /// Lowercase-hyphenated key matching the parameter keys, e.g. `access-key-id`.
    pub key: &'static str,
    /// Human-readable label shown in the prompt.
    pub description: &'static str,
    /// An empty or absent value is a fatal error.
    pub required: bool,
    /// Input is masked and saving it in plain text is warned about.
    pub sensitive: bool,
    /// When false the parameter is never prompted for (the backend falls back
    /// to its default authentication).
    pub prompt: bool,
    /// Check applied to a prompted value; a failing value is asked for again.
    pub validator: Option<Validator>,
}

/// The mathematical value of a [`ParamSpec`].
pub struct ParamSpecView {
    pub key: Seq<char>,
    pub description: Seq<char>,
    pub required: bool,
    pub sensitive: bool,
    pub prompt: bool,
    pub validator: Option<Validator>,
}

impl View for ParamSpec {
    type V = ParamSpecView;

    open spec fn view(&self) -> ParamSpecView {
        ParamSpecView {
            key: self.key@,
            description: self.description@,
            required: self.required,
            sensitive: self.sensitive,
            prompt: self.prompt,
            validator: self.validator,
        }
    }
}

pub open spec fn pspec(
    key: &str,
    description: &str,
    required: bool,
    sensitive: bool,
    prompt: bool,
    validator: Option<Validator>,
) -> ParamSpecView {
    ParamSpecView { key: key@, description: description@, required, sensitive, prompt, validator }
}

/// Parameters of the `s3` scheme.
pub open spec fn s3_specs() -> Seq<ParamSpecView> {
    seq![
        pspec("bucket", "S3 bucket name", true, false, true, None),
        pspec("region", "AWS region (e.g. us-east-1)", false, false, true, None),
        pspec("endpoint", "Custom endpoint URL (blank to skip)", false, false, true, Some(Validator::Url)),
        pspec("access-key-id", "AWS access key ID (blank for IAM auth)", false, false, true, None),
        pspec("secret-access-key", "AWS secret access key", false, true, true, None),
    ]
}

/// Parameters of the `gcs` scheme. The raw credential JSON is never
/// prompted for; the credential path is.
pub open spec fn gcs_specs() -> Seq<ParamSpecView> {
    seq![
        pspec("bucket", "GCS bucket name", true, false, true, None),
        pspec("credential-path", "Service account JSON path (blank for ADC)", false, false, true, None),
        pspec("credential", "Raw GCS credential JSON", false, true, false, None),
        pspec("endpoint", "Custom GCS endpoint URL (blank to skip)", false, false, true, Some(Validator::Url)),
    ]
}

/// Parameters of the `azblob` scheme.
pub open spec fn azblob_specs() -> Seq<ParamSpecView> {
    seq![
        pspec("container", "Azure Blob container name", true, false, true, None),
        pspec("account-name", "Azure storage account name", false, false, true, None),
        pspec("account-key", "Azure storage account key", false, true, true, None),
        pspec("endpoint", "Custom Azure endpoint URL (blank to skip)", false, false, true, Some(Validator::Url)),
    ]
}

/// Parameters of the `gdrive` scheme. The short-lived access token is never
/// prompted for; the refresh token is.
pub open spec fn gdrive_specs() -> Seq<ParamSpecView> {
    seq![
        pspec("client-id", "OAuth2 client ID", false, false, true, None),
        pspec("client-secret", "OAuth2 client secret", false, true, true, None),
        pspec("refresh-token", "OAuth2 refresh token", false, true, true, None),
        pspec("access-token", "OAuth2 access token (temporary)", false, true, false, None),
    ]
}

/// The parameters known for `scheme`; none for other schemes.
pub open spec fn scheme_specs(scheme: Seq<char>) -> Seq<ParamSpecView> {
    if scheme == "s3"@ {
        s3_specs()
    } else if scheme == "gcs"@ {
        gcs_specs()
    } else if scheme == "azblob"@ {
        azblob_specs()
    } else if scheme == "gdrive"@ {
        gdrive_specs()
    } else {
        seq![]
    }
}

/// Whether `k` is a lowercase-hyphenated key: words of lowercase ASCII
/// letters joined by single hyphens.
pub open spec fn is_param_key(k: Seq<char>) -> bool {
    &&& k.len() > 0
    &&& forall|i: int| 0 <= i < k.len() ==> ('a' <= #[trigger] k[i] <= 'z' || k[i] == '-')
    &&& k[0] != '-'
    &&& k[k.len() - 1] != '-'
    &&& forall|i: int| 0 <= i < k.len() - 1 && #[trigger] k[i] == '-' ==> k[i + 1] != '-'
}

/// Whether a parameter table is well formed: its keys are distinct and
/// lowercase-hyphenated, a required parameter is always prompted for (it is
/// never silently left unset), and exactly the `endpoint` parameter carries a
/// validator.
pub open spec fn specs_well_formed(specs: Seq<ParamSpecView>) -> bool {
    &&& forall|i: int, j: int|
        0 <= i < j < specs.len() ==> #[trigger] specs[i].key != #[trigger] specs[j].key
    &&& forall|i: int| 0 <= i < specs.len() ==> is_param_key(#[trigger] specs[i].key)
    &&& forall|i: int| 0 <= i < specs.len() && (#[trigger] specs[i]).required ==> specs[i].prompt
    &&& forall|i: int|
        0 <= i < specs.len() ==> ((#[trigger] specs[i]).validator is Some <==> specs[i].key
            == "endpoint"@)
}

proof fn lemma_key_literals()
    ensures
        is_param_key("bucket"@),
        is_param_key("region"@),
        is_param_key("endpoint"@),
        is_param_key("access-key-id"@),
        is_param_key("secret-access-key"@),
        is_param_key("credential-path"@),
        is_param_key("credential"@),
        is_param_key("container"@),
        is_param_key("account-name"@),
        is_param_key("account-key"@),
        is_param_key("client-id"@),
        is_param_key("client-secret"@),
        is_param_key("refresh-token"@),
        is_param_key("access-token"@),
{
    reveal_strlit("bucket");
    reveal_strlit("region");
    reveal_strlit("endpoint");
    reveal_strlit("access-key-id");
    reveal_strlit("secret-access-key");
    reveal_strlit("credential-path");
    reveal_strlit("credential");
    reveal_strlit("container");
    reveal_strlit("account-name");
    reveal_strlit("account-key");
    reveal_strlit("client-id");
    reveal_strlit("client-secret");
    reveal_strlit("refresh-token");
    reveal_strlit("access-token");
}

/// Every scheme's parameter table is well formed (distinct,
/// lowercase-hyphenated keys; required implies prompted; a validator on
/// `endpoint` only), and a scheme has parameters exactly when it is one of
/// `s3`, `gcs`, `azblob` and `gdrive`.
pub proof fn lemma_scheme_specs_well_formed(scheme: Seq<char>)
    ensures
        specs_well_formed(scheme_specs(scheme)),
        scheme_specs(scheme).len() > 0 <==> (scheme == "s3"@ || scheme == "gcs"@ || scheme
            == "azblob"@ || scheme == "gdrive"@),
{
    lemma_key_literals();
    reveal_strlit("bucket");
    reveal_strlit("region");
    reveal_strlit("endpoint");
    reveal_strlit("access-key-id");
    reveal_strlit("secret-access-key");
    reveal_strlit("credential-path");
    reveal_strlit("credential");
    reveal_strlit("container");
    reveal_strlit("account-name");
    reveal_strlit("account-key");
    reveal_strlit("client-id");
    reveal_strlit("client-secret");
    reveal_strlit("refresh-token");
    reveal_strlit("access-token");
    let specs = scheme_specs(scheme);
    assert(specs_well_formed(specs));
}

/// The character view of a list of parameter descriptions.
pub open spec fn specs_view(specs: Seq<ParamSpec>) -> Seq<ParamSpecView> {
    specs.map_values(|p: ParamSpec| p@)
}

fn ps(
    key: &'static str,
    description: &'static str,
    required: bool,
    sensitive: bool,
    prompt: bool,
    validator: Option<Validator>,
) -> (r: ParamSpec)
    ensures
        r@ == pspec(key, description, required, sensitive, prompt, validator),
{
    ParamSpec { key, description, required, sensitive, prompt, validator }
}

/// The parameters known for `scheme`, in resolution order.
pub fn specs_for_scheme(scheme: &str) -> (r: Vec<ParamSpec>)
    ensures
        specs_view(r@) == scheme_specs(scheme@),
{
    let mut v: Vec<ParamSpec> = Vec::new();
    if str_eq(scheme, "s3") {
        v.push(ps("bucket", "S3 bucket name", true, false, true, None));
        v.push(ps("region", "AWS region (e.g. us-east-1)", false, false, true, None));
        v.push(ps("endpoint", "Custom endpoint URL (blank to skip)", false, false, true, Some(Validator::Url)));
        v.push(ps("access-key-id", "AWS access key ID (blank for IAM auth)", false, false, true, None));
        v.push(ps("secret-access-key", "AWS secret access key", false, true, true, None));
        assert(specs_view(v@) =~= s3_specs());
    } else if str_eq(scheme, "gcs") {
        v.push(ps("bucket", "GCS bucket name", true, false, true, None));
        v.push(ps("credential-path", "Service account JSON path (blank for ADC)", false, false, true, None));
        v.push(ps("credential", "Raw GCS credential JSON", false, true, false, None));
        v.push(ps("endpoint", "Custom GCS endpoint URL (blank to skip)", false, false, true, Some(Validator::Url)));
        assert(specs_view(v@) =~= gcs_specs());
    } else if str_eq(scheme, "azblob") {
        v.push(ps("container", "Azure Blob container name", true, false, true, None));
        v.push(ps("account-name", "Azure storage account name", false, false, true, None));
        v.push(ps("account-key", "Azure storage account key", false, true, true, None));
        v.push(ps("endpoint", "Custom Azure endpoint URL (blank to skip)", false, false, true, Some(Validator::Url)));
        assert(specs_view(v@) =~= azblob_specs());
    } else if str_eq(scheme, "gdrive") {
        v.push(ps("client-id", "OAuth2 client ID", false, false, true, None));
        v.push(ps("client-secret", "OAuth2 client secret", false, true, true, None));
        v.push(ps("refresh-token", "OAuth2 refresh token", false, true, true, None));
        v.push(ps("access-token", "OAuth2 access token (temporary)", false, true, false, None));
        assert(specs_view(v@) =~= gdrive_specs());
    } else {
        assert(specs_view(v@) =~= seq![]);
    }
    v
}

/// Whether `v` is an `http://` or `https://` URL.
pub open spec fn is_http_url(v: Seq<char>) -> bool {
    seq_starts_with(v, "http://"@) || seq_starts_with(v, "https://"@)
}

/// The complaint about a value that is not an `http(s)` URL.
pub open spec fn url_complaint() -> Seq<char> {
    "Must start with http:// or https://"@
}

/// Check that `v` is an `http://` or `https://` URL; the message says what is
/// wrong otherwise.
pub fn validate_url(v: &str) -> (r: Option<&'static str>)
    ensures
        is_http_url(v@) ==> r is None,
        !is_http_url(v@) ==> r is Some && r->0@ == url_complaint(),
{
    if starts_with(v, "http://") || starts_with(v, "https://") {
        None
    } else {
        Some("Must start with http:// or https://")
    }
}

impl Validator {
    /// The complaint about `v`, if it fails this check.
    pub open spec fn complaint(self, v: Seq<char>) -> Option<Seq<char>> {
        match self {
            Validator::Url => if is_http_url(v) {
                None
            } else {
                Some(url_complaint())
            },
        }
    }

    /// Apply this check to `v`.
    pub fn check(&self, v: &str) -> (r: Option<&'static str>)
        ensures
            match self.complaint(v@) {
                Some(m) => r is Some && r->0@ == m,
                None => r is None,
            },
    {
        match self {
            Validator::Url => validate_url(v),
        }
    }
}

/// What to do with one answer to a prompt.
#[derive(Debug)]
pub enum PromptCheck {
    /// Use this answer (`None`: the user left it blank).
    Accept(Option<String>),
    /// Show this error and prompt again.
    Retry(&'static str),
}

/// Decide on one (trimmed) answer to the prompt for `spec`: a blank answer
/// is accepted as a skip without validation; a value that fails the spec's
/// validator is asked for again.
pub fn check_prompt_input(spec: &ParamSpec, answer: Option<String>) -> (r: PromptCheck)
    ensures
        match answer {
            None => r matches PromptCheck::Accept(a) && a is None,
            Some(v) => match spec.validator {
                Some(val) => match val.complaint(v@) {
                    Some(m) => r matches PromptCheck::Retry(msg) && msg@ == m,
                    None => r matches PromptCheck::Accept(a) && a is Some && a->0@ == v@,
                },
                None => r matches PromptCheck::Accept(a) && a is Some && a->0@ == v@,
            },
        },
{
    match answer {
        None => PromptCheck::Accept(None),
        Some(v) => {
            if let Some(val) = &spec.validator {
                if let Some(msg) = val.check(v.as_str()) {
                    return PromptCheck::Retry(msg);
                }
            }
            PromptCheck::Accept(Some(v))
        },
    }
}

/// The answer that a line typed at a prompt gives: the line without
/// surrounding white space, or nothing when that leaves it empty.
pub open spec fn spec_prompt_answer(line: Seq<char>) -> Option<Seq<char>> {
    if trim_ws(line).len() == 0 {
        None
    } else {
        Some(trim_ws(line))
    }
}

/// The answer that a line typed at a prompt gives (`None`: left blank).
pub fn prompt_answer(line: &str) -> (r: Option<String>)
    ensures
        match spec_prompt_answer(line@) {
            Some(v) => r is Some && r->0@ == v,
            None => r is None,
        },
{
    let v = trim(line);
    if v.unicode_len() == 0 {
        None
    } else {
        Some(v)
    }
}

/// The label shown when prompting for `spec`.
pub open spec fn spec_prompt_label(spec: ParamSpecView) -> Seq<char> {
    if spec.required {
        spec.description + ": "@
    } else {
        spec.description + " (blank to skip): "@
    }
}

/// The label shown when prompting for `spec`.
pub fn prompt_label(spec: &ParamSpec) -> (r: String)
    ensures
        r@ == spec_prompt_label(spec@),
{
    if spec.required {
        concat2(spec.description, ": ")
    } else {
        concat2(spec.description, " (blank to skip): ")
    }
}

/// The variable-name form of a parameter key: uppercased, `-` turned into `_`.
pub open spec fn env_key(key: Seq<char>) -> Seq<char> {
    replace_char(str_to_uppercase(key), '-', '_')
}

/// The environment variable that sets parameter `key` of `scheme`.
pub open spec fn spec_env_var_name(scheme: Seq<char>, key: Seq<char>) -> Seq<char> {
    env_var_name_for(str_to_uppercase(scheme), env_key(key))
}

/// The variable `OPENDAL_<upper_scheme>_<env_key>` from an uppercased scheme
/// name and the variable-name form of a key.
pub open spec fn env_var_name_for(upper_scheme: Seq<char>, env_key: Seq<char>) -> Seq<char> {
    "OPENDAL_"@ + upper_scheme + "_"@ + env_key
}

/// The variable-name form of an already uppercased key: `-` turned into `_`.
pub fn env_key_for_upper(upper_key: &str) -> (r: String)
    ensures
        r@ == replace_char(upper_key@, '-', '_'),
{
    proof {
        reveal_strlit("_");
    }
    replace(upper_key, '-', "_")
}

/// The variable `OPENDAL_<upper_scheme>_<KEY>` from an uppercased scheme name
/// and an uppercased key.
pub fn env_var_name_for_upper(upper_scheme: &str, upper_key: &str) -> (r: String)
    ensures
        r@ == env_var_name_for(upper_scheme@, replace_char(upper_key@, '-', '_')),
{
    let a = concat2("OPENDAL_", upper_scheme);
    let b = concat2(a.as_str(), "_");
    let k = env_key_for_upper(upper_key);
    concat2(b.as_str(), k.as_str())
}

/// The environment variable that sets parameter `key` of `scheme`,
/// `OPENDAL_<SCHEME>_<KEY>`.
pub fn env_var_name(scheme: &str, key: &str) -> (r: String)
    ensures
        r@ == spec_env_var_name(scheme@, key@),
{
    let upper_scheme = to_uppercase(scheme);
    let upper_key = to_uppercase(key);
    env_var_name_for_upper(upper_scheme.as_str(), upper_key.as_str())
}

/// The name of a parameter in the repository's Git configuration.
pub open spec fn spec_git_config_key(scheme: Seq<char>, key: Seq<char>) -> Seq<char> {
    "opendal."@ + scheme + "."@ + key
}

/// The Git configuration name `opendal.<scheme>.<key>`.
pub fn git_config_key(scheme: &str, key: &str) -> (r: String)
    ensures
        r@ == spec_git_config_key(scheme@, key@),
{
    let a = concat2("opendal.", scheme);
    let b = concat2(a.as_str(), ".");
    concat2(b.as_str(), key)
}

/// The hint given when no terminal can be opened to prompt for `key`.
pub open spec fn spec_tty_hint(key: Seq<char>) -> Seq<char> {
    tty_hint_text(key, env_key(key))
}

/// The hint for `key`, whose variable-name form is `env_key`.
pub open spec fn tty_hint_text(key: Seq<char>, env_key: Seq<char>) -> Seq<char> {
    "Cannot open terminal for '"@ + key + "' prompt. Set the corresponding OPENDAL_*_"@ + env_key
        + " environment variable to configure without a TTY."@
}

/// The hint for `key` from its uppercased form.
pub fn tty_hint_for_upper(key: &str, upper_key: &str) -> (r: String)
    ensures
        r@ == tty_hint_text(key@, replace_char(upper_key@, '-', '_')),
{
    let a = concat2("Cannot open terminal for '", key);
    let b = concat2(a.as_str(), "' prompt. Set the corresponding OPENDAL_*_");
    let k = env_key_for_upper(upper_key);
    let c = concat2(b.as_str(), k.as_str());
    concat2(c.as_str(), " environment variable to configure without a TTY.")
}

/// The hint given when no terminal can be opened to prompt for `key`.
pub fn tty_unavailable_hint(key: &str) -> (r: String)
    ensures
        r@ == spec_tty_hint(key@),
{
    let upper_key = to_uppercase(key);
    tty_hint_for_upper(key, upper_key.as_str())
}


/// The value that an answer gives: none for a blank (absent or empty) one.
pub open spec fn answer_value(answer: Option<String>) -> Option<Seq<char>> {
    match answer {
        Some(v) => if v@.len() > 0 {
            Some(v@)
        } else {
            None
        },
        None => None,
    }
}

/// Where a resolution stands.
#[derive(Debug, Clone, Copy, PartialEq, Eq, Structural)]
pub enum Stage {
    /// Waiting for the configured value of the current parameter.
    LookingUp,
    /// Waiting for the user's answer for the current parameter.
    Prompting,
    /// Waiting for the answer to be saved to the configuration.
    Saving,
    /// Resolution is over.
    Finished,
}

/// Why resolution stopped.
#[derive(Debug)]
pub enum ResolveError {
    /// A required parameter has no value: it was left blank at the prompt or
    /// is empty in the configuration. `env_var` is the variable that would
    /// set it.
    MissingRequired { key: String, env_var: String },
}

/// The next thing the caller has to do.
#[derive(Debug)]
pub enum ResolveAction {
    /// Read `config_key` from the repository's local Git configuration and
    /// hand the result to [`Resolver::on_config_value`].
    LookupConfig { config_key: String },
    /// Prompt for this parameter (deciding on each answer with
    /// [`check_prompt_input`]) and hand the result to [`Resolver::on_answer`].
    Prompt(ParamSpec),
    /// Store `value` under `config_key`, then call [`Resolver::on_saved`].
    /// When `warn_env_var` is set, first warn that the value of `param` is
    /// stored in plain text and that this variable avoids it. When
    /// `report_failure` holds, a failed store is reported as a warning;
    /// otherwise it is ignored.
    SaveConfig {
        config_key: String,
        param: String,
        value: String,
        warn_env_var: Option<String>,
        report_failure: bool,
    },
    /// Every parameter is resolved.
    Done,
    /// Resolution failed.
    Fail(ResolveError),
}

/// The mathematical value of a [`ResolveAction`].
pub enum ResolveActionView {
    LookupConfig { config_key: Seq<char> },
    Prompt(ParamSpecView),
    SaveConfig {
        config_key: Seq<char>,
        param: Seq<char>,
        value: Seq<char>,
        warn_env_var: Option<Seq<char>>,
        report_failure: bool,
    },
    Done,
    Fail { key: Seq<char>, env_var: Seq<char> },
}

impl View for ResolveAction {
    type V = ResolveActionView;

    open spec fn view(&self) -> ResolveActionView {
        match self {
            ResolveAction::LookupConfig { config_key } => ResolveActionView::LookupConfig {
                config_key: config_key@,
            },
            ResolveAction::Prompt(spec) => ResolveActionView::Prompt(spec@),
            ResolveAction::SaveConfig { config_key, param, value, warn_env_var, report_failure } =>
                ResolveActionView::SaveConfig {
                config_key: config_key@,
                param: param@,
                value: value@,
                warn_env_var: match warn_env_var {
                    Some(v) => Some(v@),
                    None => None,
                },
                report_failure: *report_failure,
            },
            ResolveAction::Done => ResolveActionView::Done,
            ResolveAction::Fail(ResolveError::MissingRequired { key, env_var }) =>
                ResolveActionView::Fail { key: key@, env_var: env_var@ },
        }
    }
}

/// The first position at or after `i` whose parameter is not set in `params`
/// (the length of `specs` when there is none).
pub open spec fn next_unset(
    specs: Seq<ParamSpecView>,
    params: Map<Seq<char>, Seq<char>>,
    i: int,
) -> int
    decreases specs.len() - i,
{
    if i >= specs.len() {
        specs.len() as int
    } else if !params.contains_key(specs[i].key) {
        i
    } else {
        next_unset(specs, params, i + 1)
    }
}

/// Position, stage and action after moving on to the first unset parameter
/// at or after `i`: its configured value is looked up, or resolution is done.
pub open spec fn after_advance(
    scheme: Seq<char>,
    specs: Seq<ParamSpecView>,
    params: Map<Seq<char>, Seq<char>>,
    i: int,
) -> (int, Stage, ResolveActionView) {
    let j = next_unset(specs, params, i);
    if j >= specs.len() {
        (specs.len() as int, Stage::Finished, ResolveActionView::Done)
    } else {
        (
            j,
            Stage::LookingUp,
            ResolveActionView::LookupConfig { config_key: spec_git_config_key(scheme, specs[j].key) },
        )
    }
}

proof fn lemma_next_unset(specs: Seq<ParamSpecView>, params: Map<Seq<char>, Seq<char>>, i: int)
    requires
        0 <= i <= specs.len(),
    ensures
        i <= next_unset(specs, params, i) <= specs.len(),
        next_unset(specs, params, i) < specs.len() ==> !params.contains_key(
            specs[next_unset(specs, params, i)].key,
        ),
        forall|k: int| i <= k < next_unset(specs, params, i) ==> params.contains_key(specs[k].key),
    decreases specs.len() - i,
{
    if i < specs.len() && params.contains_key(specs[i].key) {
        lemma_next_unset(specs, params, i + 1);
    }
}

/// The decisions of resolving the parameters of one remote configuration.
pub struct Resolver {
    cfg: RemoteConfig,
    specs: Vec<ParamSpec>,
    index: usize,
    stage: Stage,
}

impl Resolver {
    /// The configuration being completed.
    pub closed spec fn config(&self) -> crate::config::RemoteConfigView {
        self.cfg@
    }

    /// The parameters of the configuration's scheme, in resolution order.
    pub closed spec fn specs(&self) -> Seq<ParamSpecView> {
        specs_view(self.specs@)
    }

    /// Position of the parameter being resolved.
    pub closed spec fn index(&self) -> int {
        self.index as int
    }

    /// What the resolver waits for.
    pub closed spec fn stage(&self) -> Stage {
        self.stage
    }

    /// The resolver's invariant: the parameters are those of the scheme, and
    /// the parameter being looked up or prompted for is not set yet.
    pub closed spec fn wf(&self) -> bool {
        &&& self.specs() == scheme_specs(self.cfg.scheme@)
        &&& self.index <= self.specs@.len()
        &&& self.stage != Stage::Finished ==> self.index < self.specs@.len()
        &&& (self.stage == Stage::LookingUp || self.stage == Stage::Prompting)
            ==> !self.cfg.params@.contains_key(self.specs@[self.index as int].key@)
    }

    fn advance(&mut self, i: usize) -> (act: ResolveAction)
        requires
            old(self).specs() == scheme_specs(old(self).cfg.scheme@),
            i <= old(self).specs().len(),
        ensures
            final(self).wf(),
            final(self).config() == old(self).config(),
            final(self).specs() == old(self).specs(),
            (final(self).index(), final(self).stage(), act@) == after_advance(
                old(self).config().scheme,
                old(self).specs(),
                old(self).config().params,
                i as int,
            ),
    {
        proof {
            lemma_next_unset(self.specs(), self.cfg.params@, i as int);
        }
        let n = self.specs.len();
        let mut j = i;
        while j < n && self.cfg.params.contains_key(self.specs[j].key)
            invariant
                n == self.specs@.len(),
                n == self.specs().len(),
                i <= j <= n,
                next_unset(self.specs(), self.cfg.params@, i as int) == next_unset(
                    self.specs(),
                    self.cfg.params@,
                    j as int,
                ),
            decreases n - j,
        {
            j = j + 1;
        }
        if j == n {
            self.index = n;
            self.stage = Stage::Finished;
            ResolveAction::Done
        } else {
            self.index = j;
            self.stage = Stage::LookingUp;
            let key = git_config_key(self.cfg.scheme.as_str(), self.specs[j].key);
            ResolveAction::LookupConfig { config_key: key }
        }
    }

    /// Begin resolving the parameters that `cfg` lacks.
    pub fn start(cfg: RemoteConfig) -> (r: (Resolver, ResolveAction))
        ensures
            r.0.wf(),
            r.0.config() == cfg@,
            r.0.specs() == scheme_specs(cfg.scheme@),
            (r.0.index(), r.0.stage(), r.1@) == after_advance(
                cfg.scheme@,
                scheme_specs(cfg.scheme@),
                cfg.params@,
                0,
            ),
    {
        let specs = specs_for_scheme(cfg.scheme.as_str());
        let mut r = Resolver { cfg, specs, index: 0, stage: Stage::Finished };
        let act = r.advance(0);
        (r, act)
    }

    /// What the resolver waits for.
    pub fn current_stage(&self) -> (s: Stage)
        ensures
            s == self.stage(),
    {
        self.stage
    }

    /// The configuration as resolved so far.
    pub fn config_ref(&self) -> (c: &RemoteConfig)
        ensures
            c@ == self.config(),
    {
        &self.cfg
    }

    /// The configuration as resolved.
    pub fn into_config(self) -> (c: RemoteConfig)
        ensures
            c@ == self.config(),
    {
        self.cfg
    }

    /// The current parameter's value in the Git configuration, if it has one.
    ///
    /// A non-empty value sets the parameter; an empty one records an earlier
    /// skip, which fails for a required parameter. Either way the parameter
    /// is not prompted for. Without a configured value a parameter marked for
    /// prompting is prompted for; another one is left unset.
    pub fn on_config_value(&mut self, value: Option<String>) -> (act: ResolveAction)
        requires
            old(self).wf(),
            old(self).stage() == Stage::LookingUp,
        ensures
            final(self).wf(),
            final(self).specs() == old(self).specs(),
            final(self).config().scheme == old(self).config().scheme,
            final(self).config().root == old(self).config().root,
            old(self).config().params.submap_of(final(self).config().params),
            forall|k: Seq<char>|
                #[trigger] final(self).config().params.contains_key(k) && !old(
                    self,
                ).config().params.contains_key(k) ==> k == old(self).specs()[old(self).index()].key
                    && final(self).config().params[k].len() > 0,
            value is Some ==> !(act@ is Prompt),
            act@ matches ResolveActionView::Prompt(p) ==> (p.prompt
                && !final(self).config().params.contains_key(p.key)),
            ({
                let spec = old(self).specs()[old(self).index()];
                let scheme = old(self).config().scheme;
                let params = old(self).config().params;
                match value {
                    Some(v) => if v@.len() > 0 {
                        &&& final(self).config().params == params.insert(spec.key, v@)
                        &&& (final(self).index(), final(self).stage(), act@) == after_advance(
                            scheme,
                            old(self).specs(),
                            final(self).config().params,
                            old(self).index() + 1,
                        )
                    } else if spec.required {
                        &&& final(self).config().params == params
                        &&& final(self).stage() == Stage::Finished
                        &&& act@ == ResolveActionView::Fail {
                            key: spec.key,
                            env_var: spec_env_var_name(scheme, spec.key),
                        }
                    } else {
                        &&& final(self).config().params == params
                        &&& (final(self).index(), final(self).stage(), act@) == after_advance(
                            scheme,
                            old(self).specs(),
                            params,
                            old(self).index() + 1,
                        )
                    },
                    None => {
                        &&& final(self).config().params == params
                        &&& if spec.prompt {
                            &&& final(self).index() == old(self).index()
                            &&& final(self).stage() == Stage::Prompting
                            &&& act@ == ResolveActionView::Prompt(spec)
                        } else {
                            (final(self).index(), final(self).stage(), act@) == after_advance(
                                scheme,
                                old(self).specs(),
                                params,
                                old(self).index() + 1,
                            )
                        }
                    },
                }
            }),
    {
        let i = self.index;
        let _n = self.specs.len();
        match value {
            Some(v) => {
                if v.unicode_len() > 0 {
                    self.cfg.params.insert(self.specs[i].key.to_owned(), v);
                    self.advance(i + 1)
                } else if self.specs[i].required {
                    self.stage = Stage::Finished;
                    let key = self.specs[i].key;
                    let env_var = env_var_name(self.cfg.scheme.as_str(), key);
                    ResolveAction::Fail(ResolveError::MissingRequired { key: key.to_owned(), env_var })
                } else {
                    self.advance(i + 1)
                }
            },
            None => {
                if self.specs[i].prompt {
                    self.stage = Stage::Prompting;
                    ResolveAction::Prompt(self.specs[i])
                } else {
                    self.advance(i + 1)
                }
            },
        }
    }

    /// The user's answer for the current parameter (`None`, or an empty
    /// string: left blank).
    ///
    /// A blank answer fails for a required parameter and is otherwise saved
    /// as an empty value so that it is not asked again; a non-empty answer
    /// sets the parameter and is saved, with a plain-text warning for
    /// sensitive parameters.
    pub fn on_answer(&mut self, answer: Option<String>) -> (act: ResolveAction)
        requires
            old(self).wf(),
            old(self).stage() == Stage::Prompting,
        ensures
            final(self).wf(),
            final(self).specs() == old(self).specs(),
            final(self).index() == old(self).index(),
            final(self).config().scheme == old(self).config().scheme,
            final(self).config().root == old(self).config().root,
            old(self).config().params.submap_of(final(self).config().params),
            forall|k: Seq<char>|
                #[trigger] final(self).config().params.contains_key(k) && !old(
                    self,
                ).config().params.contains_key(k) ==> k == old(self).specs()[old(self).index()].key
                    && final(self).config().params[k].len() > 0,
            ({
                let spec = old(self).specs()[old(self).index()];
                let scheme = old(self).config().scheme;
                let params = old(self).config().params;
                let config_key = spec_git_config_key(scheme, spec.key);
                match answer_value(answer) {
                    None => {
                        &&& final(self).config().params == params
                        &&& if spec.required {
                            &&& final(self).stage() == Stage::Finished
                            &&& act@ == ResolveActionView::Fail {
                                key: spec.key,
                                env_var: spec_env_var_name(scheme, spec.key),
                            }
                        } else {
                            &&& final(self).stage() == Stage::Saving
                            &&& act@ == ResolveActionView::SaveConfig {
                                config_key,
                                param: spec.key,
                                value: Seq::empty(),
                                warn_env_var: None,
                                report_failure: false,
                            }
                        }
                    },
                    Some(v) => {
                        &&& final(self).config().params == params.insert(spec.key, v)
                        &&& final(self).stage() == Stage::Saving
                        &&& act@ == ResolveActionView::SaveConfig {
                            config_key,
                            param: spec.key,
                            value: v,
                            warn_env_var: if spec.sensitive {
                                Some(spec_env_var_name(scheme, spec.key))
                            } else {
                                None
                            },
                            report_failure: true,
                        }
                    },
                }
            }),
    {
        let i = self.index;
        let spec = self.specs[i];
        let config_key = git_config_key(self.cfg.scheme.as_str(), spec.key);
        let answer = match answer {
            Some(v) => if v.unicode_len() > 0 {
                Some(v)
            } else {
                None
            },
            None => None,
        };
        match answer {
            None => {
                if spec.required {
                    self.stage = Stage::Finished;
                    let env_var = env_var_name(self.cfg.scheme.as_str(), spec.key);
                    ResolveAction::Fail(
                        ResolveError::MissingRequired { key: spec.key.to_owned(), env_var },
                    )
                } else {
                    self.stage = Stage::Saving;
                    ResolveAction::SaveConfig {
                        config_key,
                        param: spec.key.to_owned(),
                        value: String::new(),
                        warn_env_var: None,
                        report_failure: false,
                    }
                }
            },
            Some(v) => {
                let warn_env_var = if spec.sensitive {
                    Some(env_var_name(self.cfg.scheme.as_str(), spec.key))
                } else {
                    None
                };
                let value = v.clone();
                self.cfg.params.insert(spec.key.to_owned(), v);
                self.stage = Stage::Saving;
                ResolveAction::SaveConfig {
                    config_key,
                    param: spec.key.to_owned(),
                    value,
                    warn_env_var,
                    report_failure: true,
                }
            },
        }
    }

    /// The current parameter's answer has been saved (or saving it failed,
    /// which does not stop resolution).
    pub fn on_saved(&mut self) -> (act: ResolveAction)
        requires
            old(self).wf(),
            old(self).stage() == Stage::Saving,
        ensures
            final(self).wf(),
            final(self).specs() == old(self).specs(),
            final(self).config() == old(self).config(),
            (final(self).index(), final(self).stage(), act@) == after_advance(
                old(self).config().scheme,
                old(self).specs(),
                old(self).config().params,
                old(self).index() + 1,
            ),
    {
        let i = self.index;
        let _n = self.specs.len();
        self.advance(i + 1)
    }
}

} // verus!
