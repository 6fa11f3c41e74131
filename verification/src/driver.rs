//! The decisions of the driver, which runs the plugins of a build: which
//! resolver or loader handles an asset, what happens when none does, and
//! which transformers run in each round.
use vstd::prelude::*;
use crate::asset::Asset;
use crate::dependency::Dependency;
use crate::plugin::ResolveResult;
use crate::chain::{ChainStep, step_after, outcome, chain_next, chain_finds_first_answer};
use crate::url_ops::{UrlError, url_joined, url_file_path, join_url, file_path_of};

verus! {

/// `i` is the first position of `applies` that holds `true`.
pub open spec fn is_first_applicable(applies: Seq<bool>, i: int) -> bool {
    &&& 0 <= i < applies.len()
    &&& applies[i]
    &&& forall|j: int| 0 <= j < i ==> !#[trigger] applies[j]
}

/// No position of `applies` holds `true`.
pub open spec fn none_applicable(applies: Seq<bool>) -> bool {
    forall|j: int| 0 <= j < applies.len() ==> !#[trigger] applies[j]
}

/// Only one position of `applies` is the first that holds `true`: the
/// resolver or loader that handles an asset is determined by the answers.
pub proof fn first_applicable_is_unique(applies: Seq<bool>, i: int, j: int)
    requires
        is_first_applicable(applies, i),
        is_first_applicable(applies, j),
    ensures
        i == j,
{
    if i < j {
        assert(!applies[i]);
    } else if j < i {
        assert(!applies[j]);
    }
}

/// The reply that the plugin at `index` gives to a chain that looks for the
/// first plugin that applies: its own position when it applies.
pub open spec fn apply_reply(index: usize, applies: bool) -> Option<usize> {
    if applies {
        Some(index)
    } else {
        None
    }
}

/// The replies of plugins whose `apply` answered `applies`, in order.
pub open spec fn apply_replies(applies: Seq<bool>) -> Seq<Option<usize>> {
    Seq::new(applies.len(), |i: int| apply_reply(i as usize, applies[i]))
}

/// The step after asking the plugin at `index` (of `count`) whether it
/// applies: when it does, it handles the asset and no later plugin is asked;
/// when it does not, the next plugin is asked; after the last, none applies.
pub fn apply_step(count: usize, index: usize, applies: bool) -> (step: ChainStep<usize>)
    requires
        index < count,
    ensures
        step == step_after(count as nat, index as nat, apply_reply(index, applies)),
{
    let reply = if applies {
        Some(index)
    } else {
        None
    };
    chain_next(count, index, reply)
}

/// Asking the plugins one after another whether they apply ends at the first
/// that applies, and finds none exactly when none applies.
pub proof fn apply_steps_find_first(applies: Seq<bool>)
    requires
        applies.len() <= usize::MAX,
    ensures
        forall|i: int|
            is_first_applicable(applies, i) ==> outcome(apply_replies(applies), 0) == ChainStep::Found(
                i as usize,
            ),
        none_applicable(applies) <==> outcome(apply_replies(applies), 0) == ChainStep::<usize>::Exhausted,
{
    let replies = apply_replies(applies);
    chain_finds_first_answer(replies, 0);
    assert forall|i: int| is_first_applicable(applies, i) implies outcome(replies, 0) == ChainStep::Found(
        i as usize,
    ) by {
        assert(replies[i] == Some(i as usize));
        assert forall|j: int| 0 <= j < i implies #[trigger] replies[j] is None by {
            assert(!applies[j]);
        }
    }
    assert((forall|j: int| 0 <= j < replies.len() ==> #[trigger] replies[j] is None) <==> none_applicable(
        applies,
    )) by {
        if none_applicable(applies) {
            assert forall|j: int| 0 <= j < replies.len() implies #[trigger] replies[j] is None by {
                assert(!applies[j]);
            }
        }
        if forall|j: int| 0 <= j < replies.len() ==> #[trigger] replies[j] is None {
            assert forall|j: int| 0 <= j < applies.len() implies !#[trigger] applies[j] by {
                assert(replies[j] is None);
            }
        }
    }
}

/// Resolves `dependency` as a URL relative to the identifier of `importer`:
/// what the driver does when no resolver applies.
pub fn resolve_by_url(importer: &Asset, dependency: &Dependency) -> (r: Result<ResolveResult, UrlError>)
    ensures
        match url_joined(importer.id@, dependency.specifier@) {
            Ok(id) => r matches Ok(res) && res.asset_id@ == id,
            Err(e) => r matches Err(e2) && e2 == e,
        },
{
    match join_url(importer.id.as_str(), dependency.specifier.as_str()) {
        Ok(asset_id) => Ok(ResolveResult { asset_id }),
        Err(e) => Err(e),
    }
}

/// The file that the driver reads for asset `id` when no loader applies: the
/// path that the URL names, as the bytes of the operating system's encoding.
/// `None` when the URL names no file (a build cannot go on then).
pub fn file_path(id: &str) -> (path: Option<Vec<u8>>)
    ensures
        match url_file_path(id@) {
            Some(p) => path matches Some(bytes) && bytes@ == p,
            None => path is None,
        },
{
    file_path_of(id)
}

/// Whether `x` occurs in `v`.
fn occurs(v: &Vec<usize>, x: usize) -> (b: bool)
    ensures
        b == v@.contains(x),
{
    let mut i: usize = 0;
    while i < v.len()
        invariant
            i <= v@.len(),
            forall|j: int| 0 <= j < i ==> v@[j] != x,
        decreases v@.len() - i,
    {
        if v[i] == x {
            return true;
        }
        i = i + 1;
    }
    false
}

/// `round` holds, in increasing order, exactly the positions of transformers
/// that apply and did not run in the round before (`previous`).
pub open spec fn is_round(round: Seq<usize>, previous: Seq<usize>, applies: Seq<bool>) -> bool {
    &&& forall|k: int|
        0 <= k < round.len() ==> {
            &&& (#[trigger] round[k]) < applies.len()
            &&& applies[round[k] as int]
            &&& !previous.contains(round[k])
        }
    &&& forall|k1: int, k2: int| 0 <= k1 < k2 < round.len() ==> round[k1] < round[k2]
    &&& forall|i: int|
        0 <= i < applies.len() && #[trigger] applies[i] && !previous.contains(i as usize)
            ==> round.contains(i as usize)
}

/// Two strictly increasing sequences with the same elements are equal.
proof fn increasing_with_same_elements(a: Seq<usize>, b: Seq<usize>)
    requires
        forall|k1: int, k2: int| 0 <= k1 < k2 < a.len() ==> a[k1] < a[k2],
        forall|k1: int, k2: int| 0 <= k1 < k2 < b.len() ==> b[k1] < b[k2],
        forall|x: usize| a.contains(x) <==> b.contains(x),
    ensures
        a == b,
    decreases a.len() + b.len(),
{
    if a.len() > 0 && b.len() > 0 {
        // The first elements are the least of each, hence equal.
        assert(a.contains(a[0]));
        assert(b.contains(b[0]));
        let ka = choose|k: int| 0 <= k < a.len() && a[k] == b[0];
        let kb = choose|k: int| 0 <= k < b.len() && b[k] == a[0];
        if ka > 0 {
            assert(a[0] < a[ka]);
            if kb > 0 {
                assert(b[0] < b[kb]);
            }
        }
        assert(a[0] == b[0]);
        let ta = a.drop_first();
        let tb = b.drop_first();
        assert forall|x: usize| ta.contains(x) <==> tb.contains(x) by {
            if ta.contains(x) {
                let k = choose|k: int| 0 <= k < ta.len() && ta[k] == x;
                assert(a[k + 1] == x && a[0] < x);
                assert(a.contains(x));
                let m = choose|m: int| 0 <= m < b.len() && b[m] == x;
                assert(m != 0);
                assert(tb[m - 1] == x);
            }
            if tb.contains(x) {
                let k = choose|k: int| 0 <= k < tb.len() && tb[k] == x;
                assert(b[k + 1] == x && b[0] < x);
                assert(b.contains(x));
                let m = choose|m: int| 0 <= m < a.len() && a[m] == x;
                assert(m != 0);
                assert(ta[m - 1] == x);
            }
        }
        increasing_with_same_elements(ta, tb);
        assert(a =~= seq![a[0]] + ta);
        assert(b =~= seq![b[0]] + tb);
    } else if a.len() > 0 {
        assert(a.contains(a[0]));
    } else if b.len() > 0 {
        assert(b.contains(b[0]));
    }
}

/// A round is determined by the round before and the answers of `apply`:
/// two rounds for the same inputs are the same.
pub proof fn round_is_unique(r1: Seq<usize>, r2: Seq<usize>, previous: Seq<usize>, applies: Seq<bool>)
    requires
        is_round(r1, previous, applies),
        is_round(r2, previous, applies),
    ensures
        r1 == r2,
{
    assert forall|x: usize| r1.contains(x) <==> r2.contains(x) by {
        if r1.contains(x) {
            let k = choose|k: int| 0 <= k < r1.len() && r1[k] == x;
            assert(applies[x as int]);
        }
        if r2.contains(x) {
            let k = choose|k: int| 0 <= k < r2.len() && r2[k] == x;
            assert(applies[x as int]);
        }
    }
    increasing_with_same_elements(r1, r2);
}

/// A round holds a transformer exactly when it applies and did not run in
/// the round before, wherever the transformers of the round before stand.
pub proof fn round_is_every_fresh_transformer(round: Seq<usize>, previous: Seq<usize>, applies: Seq<bool>)
    requires
        is_round(round, previous, applies),
        applies.len() <= usize::MAX,
    ensures
        forall|i: int|
            0 <= i < applies.len() ==> (round.contains(i as usize) <==> (#[trigger] applies[i]
                && !previous.contains(i as usize))),
        forall|x: usize| round.contains(x) ==> x < applies.len(),
{
    assert forall|i: int| 0 <= i < applies.len() implies (round.contains(i as usize) <==> (
    #[trigger] applies[i] && !previous.contains(i as usize))) by {
        if round.contains(i as usize) {
            let k = choose|k: int| 0 <= k < round.len() && round[k] == i as usize;
            assert(round[k] as int == i);
            assert(applies[round[k] as int]);
        }
    }
    assert forall|x: usize| round.contains(x) implies x < applies.len() by {
        let k = choose|k: int| 0 <= k < round.len() && round[k] == x;
        assert(round[k] < applies.len());
    }
}

/// No transformer runs in two rounds in a row: a round and the round before
/// it have no transformer in common.
pub proof fn rounds_do_not_repeat(round: Seq<usize>, previous: Seq<usize>, applies: Seq<bool>, x: usize)
    requires
        is_round(round, previous, applies),
        round.contains(x),
    ensures
        !previous.contains(x),
{
    let k = choose|k: int| 0 <= k < round.len() && round[k] == x;
}

/// The transformers of the next round, given those of the round before and
/// the answers of all transformers' `apply` for the asset, in order.
pub fn transform_round(previous: &Vec<usize>, applies: &Vec<bool>) -> (round: Vec<usize>)
    ensures
        is_round(round@, previous@, applies@),
        forall|i: int|
            0 <= i < applies@.len() ==> (round@.contains(i as usize) <==> (#[trigger] applies@[i]
                && !previous@.contains(i as usize))),
{
    let mut round: Vec<usize> = Vec::new();
    let mut i: usize = 0;
    while i < applies.len()
        invariant
            i <= applies@.len(),
            forall|k: int|
                0 <= k < round@.len() ==> {
                    &&& (#[trigger] round@[k]) < i
                    &&& applies@[round@[k] as int]
                    &&& !previous@.contains(round@[k])
                },
            forall|k1: int, k2: int| 0 <= k1 < k2 < round@.len() ==> round@[k1] < round@[k2],
            forall|j: int|
                0 <= j < i && #[trigger] applies@[j] && !previous@.contains(j as usize)
                    ==> round@.contains(j as usize),
        decreases applies@.len() - i,
    {
        if applies[i] && !occurs(previous, i) {
            let ghost before = round@;
            round.push(i);
            assert forall|j: int|
                0 <= j < i + 1 && #[trigger] applies@[j] && !previous@.contains(j as usize)
                implies round@.contains(j as usize) by {
                if j < i {
                    let k = choose|k: int| 0 <= k < before.len() && before[k] == j as usize;
                    assert(round@[k] == j as usize);
                } else {
                    assert(round@[round@.len() - 1] == i);
                }
            }
        }
        i = i + 1;
    }
    proof {
        round_is_every_fresh_transformer(round@, previous@, applies@);
    }
    round
}

} // verus!
