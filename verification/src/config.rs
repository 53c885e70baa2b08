//! Remote configuration: the `opendal://<scheme>/<root>` URL and the
//! backend parameters taken from `OPENDAL_<SCHEME>_<KEY>` variables.
//!
//! Parameter keys are lowercase-hyphenated (`bucket`, `access-key-id`).
//! For the bucketed backends (`s3`, `gcs`) and the container backend
//! (`azblob`) the first segment of the URL path names the bucket or
//! container and the rest of the path is the repository root; a bucket or
//! container set through the environment takes precedence.

use vstd::prelude::*;
use crate::strmap::StringMap;
use crate::text::{
    concat2, find_char, first_index, lemma_find_from, replace, replace_char, seq_starts_with,
    starts_with, str_eq, str_to_lowercase, str_to_uppercase, substring, to_lowercase, to_uppercase,
};

verus! {

/// Why a remote URL was refused.
#[derive(Debug, Clone, Copy, PartialEq, Eq, Structural)]
pub enum UrlError {
    /// The URL does not start with `opendal://`.
    MissingPrefix,
    /// Nothing stands between `opendal://` and the next `/`.
    EmptyScheme,
}

/// Parsed remote configuration.
#[derive(Debug)]
pub struct RemoteConfig {
    /// Storage scheme, e.g. `s3`, `gcs`, `azblob`, `fs`.
    pub scheme: String,
    /// Root path inside the storage backend for this repository.
    pub root: String,
    /// Backend parameters, keyed lowercase-hyphenated.
    pub params: StringMap,
}

/// The mathematical value of a [`RemoteConfig`].
pub struct RemoteConfigView {
    pub scheme: Seq<char>,
    pub root: Seq<char>,
    pub params: Map<Seq<char>, Seq<char>>,
}

impl View for RemoteConfig {
    type V = RemoteConfigView;

    open spec fn view(&self) -> RemoteConfigView {
        RemoteConfigView { scheme: self.scheme@, root: self.root@, params: self.params@ }
    }
}

/// The prefix every remote URL carries.
pub open spec fn url_prefix() -> Seq<char> {
    "opendal://"@
}

/// Scheme and root of a remote URL, or why it is refused.
///
/// The scheme runs up to the first `/` after the prefix; the root is the rest,
/// starting with that `/`, or `/` when there is none.
pub open spec fn spec_parse_url(url: Seq<char>) -> Result<(Seq<char>, Seq<char>), UrlError> {
    if !seq_starts_with(url, url_prefix()) {
        Err(UrlError::MissingPrefix)
    } else {
        let rest = url.skip(url_prefix().len() as int);
        let (scheme, root) = match first_index(rest, '/') {
            Some(i) => (rest.take(i), rest.skip(i)),
            None => (rest, "/"@),
        };
        if scheme.len() == 0 {
            Err(UrlError::EmptyScheme)
        } else {
            Ok((scheme, root))
        }
    }
}

/// Split a remote URL into its scheme and its root path.
pub fn parse_url(url: &str) -> (r: Result<(String, String), UrlError>)
    ensures
        match spec_parse_url(url@) {
            Ok((scheme, root)) => r is Ok && r->Ok_0.0@ == scheme && r->Ok_0.1@ == root,
            Err(e) => r == Err::<(String, String), UrlError>(e),
        },
{
    let prefix = "opendal://";
    proof {
        reveal_strlit("opendal://");
    }
    if !starts_with(url, prefix) {
        return Err(UrlError::MissingPrefix);
    }
    let n = url.unicode_len();
    let p = prefix.unicode_len();
    let rest = substring(url, p, n);
    assert(rest@ =~= url@.skip(p as int));
    let m = rest.unicode_len();
    let (scheme, root) = match find_char(rest.as_str(), '/') {
        Some(i) => {
            proof {
                lemma_find_from(rest@, '/', 0);
            }
            assert(rest@.take(i as int) =~= rest@.subrange(0, i as int));
            assert(rest@.skip(i as int) =~= rest@.subrange(i as int, m as int));
            (substring(rest.as_str(), 0, i), substring(rest.as_str(), i, m))
        },
        None => {
            assert(rest@ =~= rest@.subrange(0, m as int));
            (substring(rest.as_str(), 0, m), "/".to_owned())
        },
    };
    if scheme.unicode_len() == 0 {
        return Err(UrlError::EmptyScheme);
    }
    Ok((scheme, root))
}

/// Remote URLs are exactly `opendal://`, the scheme and the root: the scheme
/// is not empty and holds no `/`, the root starts with `/`, and a root of `/`
/// may stand for a URL that has no path at all.
pub proof fn lemma_parse_url_reassembles(url: Seq<char>)
    requires
        spec_parse_url(url) is Ok,
    ensures
        ({
            let (scheme, root) = spec_parse_url(url)->Ok_0;
            &&& scheme.len() > 0
            &&& forall|i: int| 0 <= i < scheme.len() ==> scheme[i] != '/'
            &&& root.len() > 0 && root[0] == '/'
            &&& url == url_prefix() + scheme + root || (root == "/"@ && url == url_prefix()
                + scheme)
        }),
{
    reveal_strlit("/");
    let rest = url.skip(url_prefix().len() as int);
    lemma_find_from(rest, '/', 0);
    assert(url =~= url.take(url_prefix().len() as int) + rest);
    match first_index(rest, '/') {
        Some(i) => {
            assert(rest =~= rest.take(i) + rest.skip(i));
        },
        None => {},
    }
}

/// The variable-name prefix that carries parameters for `scheme`:
/// `OPENDAL_<SCHEME>_`.
pub open spec fn env_prefix(scheme: Seq<char>) -> Seq<char> {
    prefix_for_upper(str_to_uppercase(scheme))
}

/// The variable-name prefix `OPENDAL_<upper>_` for an already uppercased
/// scheme name.
pub open spec fn prefix_for_upper(upper: Seq<char>) -> Seq<char> {
    "OPENDAL_"@ + upper + "_"@
}

/// The prefix `OPENDAL_<upper>_` for an already uppercased scheme name.
pub fn env_prefix_for_upper(upper: &str) -> (r: String)
    ensures
        r@ == prefix_for_upper(upper@),
{
    let head = concat2("OPENDAL_", upper);
    concat2(head.as_str(), "_")
}

/// The parameter key that a variable-name suffix stands for: lowercased,
/// with `_` turned into `-`.
pub open spec fn param_key_of(suffix: Seq<char>) -> Seq<char> {
    replace_char(str_to_lowercase(suffix), '_', '-')
}

/// The parameter key for an already lowercased variable-name suffix: `_`
/// turned into `-`.
pub fn param_key_for_lower(lower: &str) -> (r: String)
    ensures
        r@ == replace_char(lower@, '_', '-'),
{
    proof {
        reveal_strlit("-");
    }
    replace(lower, '_', "-")
}

/// The parameters that the variables `vars` (in order) give under `prefix`;
/// a later variable wins over an earlier one that maps to the same key.
pub open spec fn env_params(vars: Seq<(Seq<char>, Seq<char>)>, prefix: Seq<char>) -> Map<
    Seq<char>,
    Seq<char>,
>
    decreases vars.len(),
{
    if vars.len() == 0 {
        Map::empty()
    } else {
        let m = env_params(vars.drop_last(), prefix);
        let (k, v) = vars.last();
        if seq_starts_with(k, prefix) {
            m.insert(param_key_of(k.skip(prefix.len() as int)), v)
        } else {
            m
        }
    }
}

/// The character view of a list of variables.
pub open spec fn vars_view(vars: Seq<(String, String)>) -> Seq<(Seq<char>, Seq<char>)> {
    vars.map_values(|p: (String, String)| (p.0@, p.1@))
}

/// Collect the `OPENDAL_<SCHEME>_<KEY>` variables among `vars` as parameters
/// keyed lowercase-hyphenated.
pub fn collect_env_params(scheme: &str, vars: &Vec<(String, String)>) -> (m: StringMap)
    ensures
        m@ == env_params(vars_view(vars@), env_prefix(scheme@)),
{
    let upper = to_uppercase(scheme);
    let prefix = env_prefix_for_upper(upper.as_str());
    env_params_under(prefix.as_str(), vars)
}

/// The parameters that the variables `vars` give under `prefix` (a variable
/// `<prefix><SUFFIX>` sets the key that `SUFFIX` stands for; later variables
/// win).
pub fn env_params_under(prefix: &str, vars: &Vec<(String, String)>) -> (m: StringMap)
    ensures
        m@ == env_params(vars_view(vars@), prefix@),
{
    let plen = prefix.unicode_len();
    let mut m = StringMap::new();
    let n = vars.len();
    let ghost vv = vars_view(vars@);
    let mut i: usize = 0;
    while i < n
        invariant
            n == vars@.len(),
            vv == vars_view(vars@),
            plen == prefix@.len(),
            i <= n,
            m@ == env_params(vv.take(i as int), prefix@),
        decreases n - i,
    {
        let (k, v) = &vars[i];
        assert(vv.take(i + 1).drop_last() =~= vv.take(i as int));
        assert(vv.take(i + 1).last() == (k@, v@));
        if starts_with(k.as_str(), prefix) {
            let klen = k.unicode_len();
            let suffix = substring(k.as_str(), plen, klen);
            assert(suffix@ =~= k@.skip(plen as int));
            let lower = to_lowercase(suffix.as_str());
            let key = param_key_for_lower(lower.as_str());
            m.insert(key, v.clone());
        }
        i = i + 1;
    }
    assert(vv.take(n as int) =~= vv);
    m
}

/// A variable `OPENDAL_<SCHEME>_<SUFFIX>=v` gives the parameter
/// `param_key_of(SUFFIX) = v` unless a later variable gives that key too.
pub proof fn lemma_env_var_becomes_param(
    vars: Seq<(Seq<char>, Seq<char>)>,
    prefix: Seq<char>,
    i: int,
)
    requires
        0 <= i < vars.len(),
        seq_starts_with(vars[i].0, prefix),
        forall|j: int|
            i < j < vars.len() && seq_starts_with(vars[j].0, prefix) ==> param_key_of(
                vars[j].0.skip(prefix.len() as int),
            ) != param_key_of(vars[i].0.skip(prefix.len() as int)),
    ensures
        env_params(vars, prefix).contains_key(param_key_of(vars[i].0.skip(prefix.len() as int))),
        env_params(vars, prefix)[param_key_of(vars[i].0.skip(prefix.len() as int))] == vars[i].1,
    decreases vars.len(),
{
    if i < vars.len() - 1 {
        let d = vars.drop_last();
        assert(d[i] == vars[i]);
        assert forall|j: int|
            i < j < d.len() && seq_starts_with(d[j].0, prefix) implies param_key_of(
            d[j].0.skip(prefix.len() as int),
        ) != param_key_of(d[i].0.skip(prefix.len() as int)) by {
            assert(d[j] == vars[j]);
        }
        lemma_env_var_becomes_param(d, prefix, i);
    }
}

/// Every parameter comes from some variable that carries the prefix.
pub proof fn lemma_param_comes_from_env_var(
    vars: Seq<(Seq<char>, Seq<char>)>,
    prefix: Seq<char>,
    key: Seq<char>,
)
    requires
        env_params(vars, prefix).contains_key(key),
    ensures
        exists|i: int|
            0 <= i < vars.len() && seq_starts_with(vars[i].0, prefix) && param_key_of(
                vars[i].0.skip(prefix.len() as int),
            ) == key && env_params(vars, prefix)[key] == vars[i].1,
    decreases vars.len(),
{
    let d = vars.drop_last();
    let last = vars.len() - 1;
    if seq_starts_with(vars[last].0, prefix) && param_key_of(
        vars[last].0.skip(prefix.len() as int),
    ) == key {
        assert(0 <= last < vars.len());
    } else {
        lemma_param_comes_from_env_var(d, prefix, key);
        let i = choose|i: int|
            0 <= i < d.len() && seq_starts_with(d[i].0, prefix) && param_key_of(
                d[i].0.skip(prefix.len() as int),
            ) == key && env_params(d, prefix)[key] == d[i].1;
        assert(vars[i] == d[i]);
    }
}

/// Parameter keys collected from variables are hyphenated: none holds `_`.
pub proof fn lemma_param_keys_hyphenated(
    vars: Seq<(Seq<char>, Seq<char>)>,
    prefix: Seq<char>,
    key: Seq<char>,
)
    requires
        env_params(vars, prefix).contains_key(key),
    ensures
        forall|i: int| 0 <= i < key.len() ==> key[i] != '_',
{
    lemma_param_comes_from_env_var(vars, prefix, key);
}

/// The parameter that names the bucket or container of a scheme, if any.
pub open spec fn bucket_param(scheme: Seq<char>) -> Option<Seq<char>> {
    if scheme == "s3"@ || scheme == "gcs"@ {
        Some("bucket"@)
    } else if scheme == "azblob"@ {
        Some("container"@)
    } else {
        None
    }
}

/// The first segment of a root path and the path after it (`/` when nothing
/// follows the segment).
pub open spec fn root_segment(root: Seq<char>) -> (Seq<char>, Seq<char>) {
    let rest = root.skip(1);
    match first_index(rest, '/') {
        Some(i) => (rest.take(i), rest.skip(i)),
        None => (rest, "/"@),
    }
}

/// The configuration of a remote URL under the variables `vars`.
pub open spec fn spec_remote_config(
    url: Seq<char>,
    vars: Seq<(Seq<char>, Seq<char>)>,
) -> Result<RemoteConfigView, UrlError> {
    match spec_parse_url(url) {
        Err(e) => Err(e),
        Ok((scheme, root)) => {
            let env = env_params(vars, env_prefix(scheme));
            match bucket_param(scheme) {
                Some(name) if root_segment(root).0.len() > 0 => {
                    let (segment, rest) = root_segment(root);
                    Ok(
                        RemoteConfigView {
                            scheme,
                            root: rest,
                            params: if env.contains_key(name) {
                                env
                            } else {
                                env.insert(name, segment)
                            },
                        },
                    )
                },
                _ => Ok(RemoteConfigView { scheme, root, params: env }),
            }
        },
    }
}

/// The bucket or container parameter name of `scheme`, if it has one.
fn bucket_param_of(scheme: &str) -> (r: Option<&'static str>)
    ensures
        match bucket_param(scheme@) {
            Some(name) => r is Some && r->0@ == name,
            None => r is None,
        },
{
    if str_eq(scheme, "s3") || str_eq(scheme, "gcs") {
        Some("bucket")
    } else if str_eq(scheme, "azblob") {
        Some("container")
    } else {
        None
    }
}

/// The first segment of `root` and the path after it.
fn split_root_segment(root: &str) -> (r: (String, String))
    requires
        root@.len() > 0,
    ensures
        r.0@ == root_segment(root@).0,
        r.1@ == root_segment(root@).1,
{
    let n = root.unicode_len();
    let rest = substring(root, 1, n);
    assert(rest@ =~= root@.skip(1));
    let m = rest.unicode_len();
    match find_char(rest.as_str(), '/') {
        Some(i) => {
            proof {
                lemma_find_from(rest@, '/', 0);
            }
            assert(rest@.take(i as int) =~= rest@.subrange(0, i as int));
            assert(rest@.skip(i as int) =~= rest@.subrange(i as int, m as int));
            (substring(rest.as_str(), 0, i), substring(rest.as_str(), i, m))
        },
        None => {
            assert(rest@ =~= rest@.subrange(0, m as int));
            (substring(rest.as_str(), 0, m), "/".to_owned())
        },
    }
}

/// The configuration of a URL keeps every parameter that the
/// `OPENDAL_<SCHEME>_<KEY>` variables give, with its value; the only
/// parameter it can add is the scheme's bucket or container, which is then
/// the first segment of the URL path. A scheme with a bucket or container
/// always has one when that segment is non-empty, and the root is then the
/// path after it.
pub proof fn lemma_remote_config_keeps_env_params(
    url: Seq<char>,
    vars: Seq<(Seq<char>, Seq<char>)>,
)
    ensures
        spec_remote_config(url, vars) matches Ok(c) ==> env_params(
            vars,
            env_prefix(c.scheme),
        ).submap_of(c.params),
        spec_remote_config(url, vars) matches Ok(c) ==> forall|k: Seq<char>|
            #[trigger] c.params.contains_key(k) && !env_params(
                vars,
                env_prefix(c.scheme),
            ).contains_key(k) ==> bucket_param(c.scheme) == Some(k) && c.params[k]
                == root_segment(spec_parse_url(url)->Ok_0.1).0,
        spec_remote_config(url, vars) matches Ok(c) ==> (bucket_param(c.scheme) matches Some(
            name,
        ) ==> (root_segment(spec_parse_url(url)->Ok_0.1).0.len() > 0 ==> c.params.contains_key(
            name,
        ) && c.root == root_segment(spec_parse_url(url)->Ok_0.1).1)),
{
}

impl RemoteConfig {
    /// Parse the configuration from the remote URL and the process
    /// environment, given as its variables in order.
    pub fn from_url_and_env(url: &str, vars: &Vec<(String, String)>) -> (r: Result<
        RemoteConfig,
        UrlError,
    >)
        ensures
            match spec_remote_config(url@, vars_view(vars@)) {
                Ok(v) => r is Ok && r->Ok_0@ == v,
                Err(e) => r is Err && r->Err_0 == e,
            },
            r matches Ok(c) ==> env_params(vars_view(vars@), env_prefix(c.scheme@)).submap_of(
                c.params@,
            ),
    {
        proof {
            lemma_remote_config_keeps_env_params(url@, vars_view(vars@));
        }
        let (scheme, root) = parse_url(url)?;
        proof {
            lemma_parse_url_reassembles(url@);
        }
        let mut params = collect_env_params(scheme.as_str(), vars);
        match bucket_param_of(scheme.as_str()) {
            Some(name) => {
                let (segment, rest) = split_root_segment(root.as_str());
                if segment.unicode_len() > 0 {
                    if !params.contains_key(name) {
                        params.insert(name.to_owned(), segment);
                    }
                    return Ok(RemoteConfig { scheme, root: rest, params });
                }
                Ok(RemoteConfig { scheme, root, params })
            },
            None => Ok(RemoteConfig { scheme, root, params }),
        }
    }
}

} // verus!
