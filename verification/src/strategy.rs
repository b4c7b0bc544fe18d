//! File strategies; `replace` overwrites the local file with the upstream one.
use vstd::prelude::*;

verus! {

/// What applying a strategy to one file decided.
#[derive(Debug, PartialEq, Eq)]
pub enum StrategyResult {
    /// The local file already has the wanted content.
    Unchanged,
    /// The local file must be written with `content`.
    Changed { content: Vec<u8> },
}

/// The decision as plain values: `None` for `Unchanged`, else the content to write.
pub open spec fn strategy_view(r: StrategyResult) -> Option<Seq<u8>> {
    match r {
        StrategyResult::Unchanged => None,
        StrategyResult::Changed { content } => Some(content@),
    }
}

/// What `replace` decides for `upstream` and the local content (`None` when
/// there is no local file): nothing to do when the local file equals upstream,
/// else write upstream.
pub open spec fn replace_decision(upstream: Seq<u8>, local: Option<Seq<u8>>) -> Option<Seq<u8>> {
    if local == Some(upstream) {
        None
    } else {
        Some(upstream)
    }
}

/// The local content once a decision is carried out.
pub open spec fn content_after(local: Option<Seq<u8>>, decision: Option<Seq<u8>>) -> Option<Seq<u8>> {
    match decision {
        None => local,
        Some(c) => Some(c),
    }
}

/// The bytes of an optional local file, as plain values.
pub open spec fn local_view(local: Option<&[u8]>) -> Option<Seq<u8>> {
    match local {
        Some(l) => Some(l@),
        None => None,
    }
}

/// Whether `a` and `b` hold the same bytes.
fn bytes_equal(a: &[u8], b: &[u8]) -> (r: bool)
    ensures
        r == (a@ == b@),
{
    if a.len() != b.len() {
        return false;
    }
    let mut i: usize = 0;
    while i < a.len()
        invariant
            a@.len() == b@.len(),
            i <= a@.len(),
            forall|k: int| 0 <= k < i ==> a@[k] == b@[k],
        decreases a@.len() - i,
    {
        if a[i] != b[i] {
            return false;
        }
        i = i + 1;
    }
    assert(a@ =~= b@);
    true
}

/// Apply the `replace` strategy.
///
/// Writes `upstream` content to the local path, unless the local file already
/// has identical content.
pub fn apply(upstream: &[u8], local: Option<&[u8]>) -> (r: StrategyResult)
    ensures
        strategy_view(r) == replace_decision(upstream@, local_view(local)),
{
    match local {
        Some(existing) => {
            if bytes_equal(existing, upstream) {
                return StrategyResult::Unchanged;
            }
        },
        None => {},
    }
    StrategyResult::Changed { content: vstd::slice::slice_to_vec(upstream) }
}

/// After `replace`, the local file holds exactly the upstream content,
/// whatever it held before.
pub proof fn law_replace_yields_upstream(upstream: Seq<u8>, local: Option<Seq<u8>>)
    ensures
        content_after(local, replace_decision(upstream, local)) == Some(upstream),
{
}

/// `replace` is idempotent: applying it again to what it left changes nothing.
pub proof fn law_replace_idempotent(upstream: Seq<u8>, local: Option<Seq<u8>>)
    ensures
        replace_decision(upstream, content_after(local, replace_decision(upstream, local)))
            == None::<Seq<u8>>,
{
}

} // verus!
