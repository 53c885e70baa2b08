//! The repository layout kept on the storage backend:
//!
//! ```text
//! <root>/
//!   info/refs.json      ref name -> SHA-1, and the ordered list of bundles
//!   objects/<name>.bundle  one Git bundle per push, applied in list order
//! ```

use vstd::prelude::*;
use crate::strmap::{keys_unique, pairs_insert, pairs_to_map, lemma_pairs_insert, StringMap};
use crate::text::concat2;

verus! {

/// Where the refs store lives, relative to the repository root.
pub const REFS_PATH: &'static str = "info/refs.json";

/// The stored state of a repository: its refs and its bundles.
#[derive(Debug)]
pub struct RefsStore {
    /// Ref name to SHA-1, in insertion order.
    pub refs: StringMap,
    /// Keys of the bundle objects, in the order they must be applied; each
    /// successful push appends one.
    pub bundles: Vec<String>,
}

/// The mathematical value of a [`RefsStore`].
pub struct RefsStoreView {
    /// Ref name and SHA-1 pairs, in insertion order, with unique names.
    pub refs: Seq<(Seq<char>, Seq<char>)>,
    pub bundles: Seq<Seq<char>>,
}

impl View for RefsStore {
    type V = RefsStoreView;

    open spec fn view(&self) -> RefsStoreView {
        RefsStoreView {
            refs: self.refs.pairs(),
            bundles: self.bundles@.map_values(|b: String| b@),
        }
    }
}

impl RefsStore {
    /// The store of a repository that has never been pushed to.
    pub fn new() -> (s: Self)
        ensures
            s@.refs == Seq::<(Seq<char>, Seq<char>)>::empty(),
            s@.bundles == Seq::<Seq<char>>::empty(),
    {
        let s = RefsStore { refs: StringMap::new(), bundles: Vec::new() };
        assert(s@.bundles =~= Seq::<Seq<char>>::empty());
        s
    }
}

/// The object key of the bundle named `name`.
pub open spec fn spec_bundle_key(name: Seq<char>) -> Seq<char> {
    "objects/"@ + name + ".bundle"@
}

/// The object key `objects/<name>.bundle` of the bundle named `name`.
pub fn bundle_key(name: &str) -> (k: String)
    ensures
        k@ == spec_bundle_key(name@),
{
    let a = concat2("objects/", name);
    concat2(a.as_str(), ".bundle")
}

/// Distinct bundle names give distinct object keys, so a push never
/// overwrites the bundle of another push.
pub proof fn lemma_bundle_key_injective(a: Seq<char>, b: Seq<char>)
    requires
        spec_bundle_key(a) == spec_bundle_key(b),
    ensures
        a == b,
{
    let p = "objects/"@;
    let s = ".bundle"@;
    let ka = spec_bundle_key(a);
    let kb = spec_bundle_key(b);
    assert(ka.len() == p.len() + a.len() + s.len());
    assert(kb.len() == p.len() + b.len() + s.len());
    assert(a.len() == b.len());
    assert forall|i: int| 0 <= i < a.len() implies a[i] == b[i] by {
        assert(ka[p.len() + i] == a[i]);
        assert(kb[p.len() + i] == b[i]);
    }
    assert(a =~= b);
}

/// `refs` after setting each ref of `updates`, in order.
pub open spec fn apply_updates(
    refs: Seq<(Seq<char>, Seq<char>)>,
    updates: Seq<(Seq<char>, Seq<char>)>,
) -> Seq<(Seq<char>, Seq<char>)>
    decreases updates.len(),
{
    if updates.len() == 0 {
        refs
    } else {
        let u = updates.last();
        pairs_insert(apply_updates(refs, updates.drop_last()), u.0, u.1)
    }
}

/// Applying updates sets exactly the updated refs to their new SHA-1s and
/// leaves every other ref as it was.
pub proof fn lemma_apply_updates(
    refs: Seq<(Seq<char>, Seq<char>)>,
    updates: Seq<(Seq<char>, Seq<char>)>,
)
    requires
        keys_unique(refs),
    ensures
        keys_unique(apply_updates(refs, updates)),
        pairs_to_map(apply_updates(refs, updates)) == pairs_to_map(refs).union_prefer_right(
            pairs_to_map(updates),
        ),
    decreases updates.len(),
{
    if updates.len() > 0 {
        let d = updates.drop_last();
        let u = updates.last();
        lemma_apply_updates(refs, d);
        lemma_pairs_insert(apply_updates(refs, d), u.0, u.1);
        assert(pairs_to_map(refs).union_prefer_right(pairs_to_map(updates)) =~= pairs_to_map(
            refs,
        ).union_prefer_right(pairs_to_map(d)).insert(u.0, u.1));
    }
}

} // verus!
