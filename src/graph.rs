use vstd::prelude::*;
use crate::model::{
    find_binding, lookup, ModelDocument, ResolvedBinding, ResolvedTexture, TextureBinding,
    TextureValue,
};

verus! {

/// The first model of `models`, from index `k` on, whose path is `p`.
pub open spec fn find_from(models: Seq<ModelDocument>, p: Seq<char>, k: int) -> Option<usize>
    decreases models.len() - k,
    when k >= 0
{
    if k >= models.len() {
        None
    } else if models[k].path@ == p {
        Some(k as usize)
    } else {
        find_from(models, p, k + 1)
    }
}

/// The model of the catalog named `p`, if the catalog holds one.
pub open spec fn model_named(models: Seq<ModelDocument>, p: Seq<char>) -> Option<usize> {
    find_from(models, p, 0)
}

/// The catalog index of model `j`'s parent. A parent outside the catalog (a
/// built-in model of the engine) ends the chain like an absent one.
pub open spec fn parent_of(models: Seq<ModelDocument>, j: int) -> Option<usize> {
    match models[j].parent {
        Some(p) => model_named(models, p@),
        None => None,
    }
}

pub proof fn lemma_find_from_bound(models: Seq<ModelDocument>, p: Seq<char>, k: int)
    requires
        k >= 0,
        models.len() <= usize::MAX,
    ensures
        find_from(models, p, k) matches Some(j) ==> k <= j < models.len() && models[j as int].path@
            == p,
    decreases models.len() - k,
{
    if k < models.len() && models[k].path@ != p {
        lemma_find_from_bound(models, p, k + 1);
    }
}

/// Every lookup by name lands inside the catalog.
pub open spec fn names_in_range(models: Seq<ModelDocument>) -> bool {
    forall|p: Seq<char>| #[trigger] model_named(models, p) is Some ==> model_named(models, p)->0 < models.len()
}

pub proof fn lemma_names_in_range(models: Seq<ModelDocument>)
    requires
        models.len() <= usize::MAX,
    ensures
        names_in_range(models),
{
    assert forall|p: Seq<char>| #[trigger] model_named(models, p) is Some implies model_named(models, p)->0
        < models.len() by {
        lemma_find_from_bound(models, p, 0);
    }
}

/// Index of the first model whose path is `p`.
pub fn find_model(models: &Vec<ModelDocument>, p: &String) -> (r: Option<usize>)
    ensures
        r == model_named(models@, p@),
        r matches Some(j) ==> j < models@.len(),
{
    let mut k: usize = 0;
    let n = models.len();
    proof {
        lemma_find_from_bound(models@, p@, 0);
    }
    while k < n
        invariant
            n == models@.len(),
            k <= n,
            model_named(models@, p@) == find_from(models@, p@, k as int),
        decreases models@.len() - k,
    {
        if models[k].path == *p {
            return Some(k);
        }
        k = k + 1;
    }
    None
}

/// Catalog index of the parent of model `j`.
pub fn parent_index(models: &Vec<ModelDocument>, j: usize) -> (r: Option<usize>)
    requires
        j < models@.len(),
    ensures
        r == parent_of(models@, j as int),
        r matches Some(q) ==> q < models@.len(),
{
    match &models[j].parent {
        Some(p) => find_model(models, p),
        None => None,
    }
}

/// The ancestor chain of model `i`, the model itself first, followed through at
/// most `fuel` models. `None` when the bound runs out first, which is what a
/// cycle of parents does.
pub open spec fn chain_from(models: Seq<ModelDocument>, i: usize, fuel: nat) -> Option<
    Seq<usize>,
>
    decreases fuel,
{
    if fuel == 0 {
        None
    } else {
        match parent_of(models, i as int) {
            None => Some(seq![i]),
            Some(p) => match chain_from(models, p, (fuel - 1) as nat) {
                Some(c) => Some(seq![i] + c),
                None => None,
            },
        }
    }
}

/// The ancestor chain of model `i` with the depth bound of the analysis: the
/// number of models in the catalog. A chain that does not end within it is
/// cyclic.
pub open spec fn ancestry(models: Seq<ModelDocument>, i: usize) -> Option<Seq<usize>> {
    chain_from(models, i, models.len())
}

pub open spec fn prefixed(c: Seq<usize>, o: Option<Seq<usize>>) -> Option<Seq<usize>> {
    match o {
        Some(t) => Some(c + t),
        None => None,
    }
}

pub proof fn lemma_chain_bound(models: Seq<ModelDocument>, i: usize, fuel: nat)
    requires
        i < models.len(),
        models.len() <= usize::MAX,
    ensures
        chain_from(models, i, fuel) matches Some(c) ==> c.len() > 0 && c[0] == i && forall|k: int|
            0 <= k < c.len() ==> #[trigger] c[k] < models.len(),
    decreases fuel,
{
    if fuel > 0 {
        match models[i as int].parent {
            Some(p) => lemma_find_from_bound(models, p@, 0),
            None => {},
        }
        match parent_of(models, i as int) {
            Some(p) => {
                lemma_chain_bound(models, p, (fuel - 1) as nat);
                match chain_from(models, p, (fuel - 1) as nat) {
                    Some(c) => {
                        let r = seq![i] + c;
                        assert forall|k: int| 0 <= k < r.len() implies #[trigger] r[k]
                            < models.len() by {
                            if k > 0 {
                                assert(r[k] == c[k - 1]);
                            }
                        }
                    },
                    None => {},
                }
            },
            None => {},
        }
    }
}

/// Follows the parent links of model `i`; `None` when the chain is cyclic.
pub fn ancestor_chain(models: &Vec<ModelDocument>, i: usize) -> (r: Option<Vec<usize>>)
    requires
        i < models@.len(),
    ensures
        match r {
            Some(c) => ancestry(models@, i) == Some(c@),
            None => ancestry(models@, i) is None,
        },
{
    let mut c: Vec<usize> = Vec::new();
    let mut j: usize = i;
    let mut fuel: usize = models.len();
    assert(c@ + seq![] =~= c@);
    while fuel > 0
        invariant
            j < models@.len(),
            ancestry(models@, i) == prefixed(c@, chain_from(models@, j, fuel as nat)),
        decreases fuel,
    {
        let p = parent_index(models, j);
        let ghost old_c = c@;
        c.push(j);
        match p {
            None => {
                assert(old_c + seq![j] =~= c@);
                return Some(c);
            },
            Some(q) => {
                assert forall|t: Seq<usize>| old_c + (seq![j] + t) =~= c@ + t by {}
                j = q;
                fuel = fuel - 1;
            },
        }
    }
    None
}

/// The `textures` entries along a chain, oldest ancestor first, so that a
/// closer descendant's binding comes later and wins.
pub open spec fn merged(models: Seq<ModelDocument>, chain: Seq<usize>) -> Seq<TextureBinding>
    decreases chain.len(),
{
    if chain.len() == 0 {
        seq![]
    } else {
        merged(models, chain.drop_first()) + models[chain[0] as int].textures@
    }
}

/// Appends copies of all of `src` to `dst`.
fn append_bindings(dst: &mut Vec<TextureBinding>, src: &Vec<TextureBinding>)
    ensures
        final(dst)@ == old(dst)@ + src@,
{
    let mut k: usize = 0;
    while k < src.len()
        invariant
            k <= src@.len(),
            dst@ == old(dst)@ + src@.take(k as int),
        decreases src@.len() - k,
    {
        dst.push(src[k].duplicate());
        assert(src@.take(k + 1) =~= src@.take(k as int).push(src@[k as int]));
        k = k + 1;
    }
    assert(src@.take(k as int) =~= src@);
}

/// Merges the texture bindings of a chain, oldest ancestor first.
pub fn merge_chain(models: &Vec<ModelDocument>, chain: &Vec<usize>) -> (r: Vec<TextureBinding>)
    requires
        forall|k: int| 0 <= k < chain@.len() ==> #[trigger] chain@[k] < models@.len(),
    ensures
        r@ == merged(models@, chain@),
{
    let mut out: Vec<TextureBinding> = Vec::new();
    let mut k: usize = chain.len();
    assert(chain@.subrange(k as int, chain@.len() as int) =~= seq![]);
    while k > 0
        invariant
            k <= chain@.len(),
            forall|m: int| 0 <= m < chain@.len() ==> #[trigger] chain@[m] < models@.len(),
            out@ == merged(models@, chain@.subrange(k as int, chain@.len() as int)),
        decreases k,
    {
        let ghost tail = chain@.subrange(k - 1, chain@.len() as int);
        assert(tail.drop_first() =~= chain@.subrange(k as int, chain@.len() as int));
        assert(tail[0] == chain@[k - 1]);
        append_bindings(&mut out, &models[chain[k - 1]].textures);
        k = k - 1;
    }
    assert(chain@.subrange(0, chain@.len() as int) =~= chain@);
    out
}

/// What key `k` resolves to in the merged map `s`, following `#key`
/// redirections at most `fuel` times. An absent key, the placeholder, and a
/// redirection chain that does not end all give the placeholder.
pub open spec fn resolve(s: Seq<TextureBinding>, k: Seq<char>, fuel: nat) -> ResolvedTexture
    decreases fuel,
{
    if fuel == 0 {
        ResolvedTexture::Missing
    } else {
        match lookup(s, k) {
            Some(TextureValue::Texture(t)) => ResolvedTexture::Texture(t),
            Some(TextureValue::Redirect(k2)) => resolve(s, k2@, (fuel - 1) as nat),
            _ => ResolvedTexture::Missing,
        }
    }
}

/// What key `k` resolves to in `s`, with one step for each binding as the bound.
pub open spec fn resolved(s: Seq<TextureBinding>, k: Seq<char>) -> ResolvedTexture {
    resolve(s, k, s.len())
}

/// Resolves key `k` against the merged map `s`.
pub fn resolve_key(s: &Vec<TextureBinding>, k: &String) -> (r: ResolvedTexture)
    ensures
        r == resolved(s@, k@),
{
    let mut cur: String = k.clone();
    let mut fuel: usize = s.len();
    while fuel > 0
        invariant
            resolved(s@, k@) == resolve(s@, cur@, fuel as nat),
        decreases fuel,
    {
        match find_binding(s, &cur) {
            None => {
                return ResolvedTexture::Missing;
            },
            Some(j) => match &s[j].value {
                TextureValue::Texture(t) => {
                    return ResolvedTexture::Texture(t.clone());
                },
                TextureValue::Redirect(k2) => {
                    cur = k2.clone();
                    fuel = fuel - 1;
                },
                TextureValue::Missing => {
                    return ResolvedTexture::Missing;
                },
            },
        }
    }
    ResolvedTexture::Missing
}

/// Binding `j` is the one that decides its key: no later binding has the key.
pub open spec fn decides(s: Seq<TextureBinding>, j: int) -> bool {
    forall|m: int| j < m < s.len() ==> #[trigger] s[m].key@ != s[j].key@
}

/// The effective map of the first `n` bindings' keys: one entry per key, in
/// the order of each key's deciding binding, with its resolved value.
pub open spec fn effective_prefix(s: Seq<TextureBinding>, n: nat) -> Seq<ResolvedBinding>
    decreases n,
{
    if n == 0 {
        seq![]
    } else {
        let rest = effective_prefix(s, (n - 1) as nat);
        if decides(s, n - 1) {
            rest.push(ResolvedBinding { key: s[n - 1].key, value: resolved(s, s[n - 1].key@) })
        } else {
            rest
        }
    }
}

/// The effective texture map of a merged binding list.
pub open spec fn effective_map(s: Seq<TextureBinding>) -> Seq<ResolvedBinding> {
    effective_prefix(s, s.len())
}

/// Resolves every key of the merged map `s`, once per key.
pub fn resolve_all(s: &Vec<TextureBinding>) -> (r: Vec<ResolvedBinding>)
    ensures
        r@ == effective_map(s@),
{
    let mut out: Vec<ResolvedBinding> = Vec::new();
    let mut j: usize = 0;
    while j < s.len()
        invariant
            j <= s@.len(),
            out@ == effective_prefix(s@, j as nat),
        decreases s@.len() - j,
    {
        let mut last = true;
        let mut m: usize = j + 1;
        while m < s.len()
            invariant
                j < m <= s@.len(),
                last == forall|q: int| j < q < m ==> #[trigger] s@[q].key@ != s@[j as int].key@,
            decreases s@.len() - m,
        {
            if s[m].key == s[j].key {
                last = false;
            }
            m = m + 1;
        }
        if last {
            out.push(ResolvedBinding { key: s[j].key.clone(), value: resolve_key(s, &s[j].key) });
        }
        j = j + 1;
    }
    out
}

/// A model with its effective (inherited, merged and resolved) texture map.
pub struct EffectiveModel {
    pub path: String,
    pub textures: Vec<ResolvedBinding>,
}

/// The effective texture map of model `i`; `None` when its parent chain is
/// cyclic, which leaves it out of the graph.
pub open spec fn effective_of(models: Seq<ModelDocument>, i: int) -> Option<Seq<ResolvedBinding>> {
    match ancestry(models, i as usize) {
        Some(c) => Some(effective_map(merged(models, c))),
        None => None,
    }
}

/// Computes the effective model of model `i`, or `None` for a cyclic chain.
pub fn effective_model(models: &Vec<ModelDocument>, i: usize) -> (r: Option<EffectiveModel>)
    requires
        i < models@.len(),
    ensures
        match r {
            Some(e) => effective_of(models@, i as int) == Some(e.textures@) && e.path
                == models@[i as int].path,
            None => effective_of(models@, i as int) is None,
        },
{
    let n = models.len();
    proof {
        lemma_chain_bound(models@, i, n as nat);
    }
    match ancestor_chain(models, i) {
        None => None,
        Some(chain) => {
            let flat = merge_chain(models, &chain);
            Some(EffectiveModel { path: models[i].path.clone(), textures: resolve_all(&flat) })
        },
    }
}

/// The `n`-th ancestor of model `s` (itself for `n == 0`).
pub open spec fn nth_ancestor(models: Seq<ModelDocument>, s: usize, n: nat) -> Option<usize>
    decreases n,
{
    if n == 0 {
        Some(s)
    } else {
        match nth_ancestor(models, s, (n - 1) as nat) {
            Some(j) => parent_of(models, j as int),
            None => None,
        }
    }
}

/// Model `j` is in use: it is named by an entry point, or it is an ancestor of
/// a model that is.
pub open spec fn reachable(models: Seq<ModelDocument>, entries: Seq<String>, j: usize) -> bool {
    exists|e: int, n: nat|
        0 <= e < entries.len() && model_named(models, entries[e]@) is Some && #[trigger] nth_ancestor(
            models,
            model_named(models, entries[e]@)->0,
            n,
        ) == Some(j)
}

/// Every marked model's parent is marked.
pub open spec fn closed(models: Seq<ModelDocument>, marked: Seq<bool>) -> bool {
    forall|j: int|
        0 <= j < marked.len() && #[trigger] marked[j] && parent_of(models, j) is Some ==> marked[parent_of(
            models,
            j,
        )->0 as int]
}

pub open spec fn count_unmarked(marked: Seq<bool>) -> nat
    decreases marked.len(),
{
    if marked.len() == 0 {
        0
    } else {
        count_unmarked(marked.drop_last()) + if marked.last() {
            0nat
        } else {
            1nat
        }
    }
}

proof fn lemma_mark_one(marked: Seq<bool>, k: int)
    requires
        0 <= k < marked.len(),
        !marked[k],
    ensures
        count_unmarked(marked.update(k, true)) + 1 == count_unmarked(marked),
    decreases marked.len(),
{
    let u = marked.update(k, true);
    if k < marked.len() - 1 {
        assert(u.drop_last() =~= marked.drop_last().update(k, true));
        lemma_mark_one(marked.drop_last(), k);
    } else {
        assert(u.drop_last() =~= marked.drop_last());
    }
}

proof fn lemma_closed_ancestors(
    models: Seq<ModelDocument>,
    marked: Seq<bool>,
    s: usize,
    n: nat,
)
    requires
        marked.len() == models.len(),
        models.len() <= usize::MAX,
        s < marked.len(),
        marked[s as int],
        closed(models, marked),
    ensures
        nth_ancestor(models, s, n) matches Some(j) ==> j < marked.len() && marked[j as int],
    decreases n,
{
    if n > 0 {
        lemma_closed_ancestors(models, marked, s, (n - 1) as nat);
        match nth_ancestor(models, s, (n - 1) as nat) {
            Some(j) => {
                match models[j as int].parent {
                    Some(p) => lemma_find_from_bound(models, p@, 0),
                    None => {},
                }
            },
            None => {},
        }
    }
}

/// Marks every model reachable from the entry points.
pub fn reachable_models(models: &Vec<ModelDocument>, entries: &Vec<String>) -> (r: Vec<bool>)
    ensures
        r@.len() == models@.len(),
        forall|j: int| 0 <= j < r@.len() ==> #[trigger] r@[j] == reachable(models@, entries@, j as usize),
{
    let n = models.len();
    proof {
        lemma_names_in_range(models@);
    }
    let mut marked: Vec<bool> = Vec::new();
    while marked.len() < n
        invariant
            n == models@.len(),
            marked@.len() <= n,
            forall|j: int| 0 <= j < marked@.len() ==> !#[trigger] marked@[j],
        decreases n - marked@.len(),
    {
        marked.push(false);
    }
    let mut e: usize = 0;
    while e < entries.len()
        invariant
            n == models@.len(),
            names_in_range(models@),
            marked@.len() == n,
            e <= entries@.len(),
            closed(models@, marked@),
            forall|j: int| 0 <= j < n && #[trigger] marked@[j] ==> reachable(models@, entries@, j as usize),
            forall|f: int| 0 <= f < e ==> (#[trigger] model_named(models@, entries@[f]@) matches Some(s) ==> marked@[s as int]),
        decreases entries@.len() - e,
    {
        match find_model(models, &entries[e]) {
            None => {},
            Some(s) => {
                if !marked[s] {
                    let ghost before = marked@;
                    proof {
                        lemma_mark_one(marked@, s as int);
                        assert(nth_ancestor(models@, s, 0) == Some(s));
                    }
                    marked.set(s, true);
                    assert forall|j: int| 0 <= j < n && j != s && #[trigger] marked@[j] implies before[j] by {}
                    assert forall|f: int| 0 <= f < e implies (#[trigger] model_named(models@, entries@[f]@) matches Some(t) ==> marked@[t as int]) by {
                        if model_named(models@, entries@[f]@) is Some {
                            let t = model_named(models@, entries@[f]@)->0;
                            assert(before[t as int]);
                        }
                    }
                    let mut cur: usize = s;
                    let ghost mut steps: nat = 0;
                    loop
                        invariant
                            n == models@.len(),
                            names_in_range(models@),
                            marked@.len() == n,
                            e < entries@.len(),
                            model_named(models@, entries@[e as int]@) == Some(s),
                            cur < n,
                            s < n,
                            marked@[cur as int],
                            marked@[s as int],
                            nth_ancestor(models@, s, steps) == Some(cur),
                            forall|j: int| 0 <= j < n && j != cur && #[trigger] marked@[j] && parent_of(models@, j) is Some ==> marked@[parent_of(models@, j)->0 as int],
                            forall|j: int| 0 <= j < n && #[trigger] marked@[j] ==> reachable(models@, entries@, j as usize),
                            forall|f: int| 0 <= f < e ==> (#[trigger] model_named(models@, entries@[f]@) matches Some(t) ==> marked@[t as int]),
                        ensures
                            marked@.len() == n,
                            marked@[s as int],
                            closed(models@, marked@),
                            forall|j: int| 0 <= j < n && #[trigger] marked@[j] ==> reachable(models@, entries@, j as usize),
                            forall|f: int| 0 <= f < e ==> (#[trigger] model_named(models@, entries@[f]@) matches Some(t) ==> marked@[t as int]),
                        decreases count_unmarked(marked@),
                    {
                        match parent_index(models, cur) {
                            None => {
                                break;
                            },
                            Some(q) => {
                                if marked[q] {
                                    break;
                                }
                                proof {
                                    lemma_mark_one(marked@, q as int);
                                    assert(nth_ancestor(models@, s, steps + 1) == Some(q));
                                    assert(nth_ancestor(models@, model_named(models@, entries@[e as int]@)->0, steps + 1) == Some(q));
                                    assert(reachable(models@, entries@, q));
                                }
                                marked.set(q, true);
                                cur = q;
                                proof {
                                    steps = steps + 1;
                                }
                            },
                        }
                    }
                }
            },
        }
        e = e + 1;
    }
    proof {
        assert forall|j: int| 0 <= j < marked@.len() implies #[trigger] marked@[j] == reachable(models@, entries@, j as usize) by {
            if reachable(models@, entries@, j as usize) {
                let (f, k) = choose|f: int, k: nat|
                    0 <= f < entries@.len() && model_named(models@, entries@[f]@) is Some
                        && #[trigger] nth_ancestor(models@, model_named(models@, entries@[f]@)->0, k)
                        == Some(j as usize);
                let s = model_named(models@, entries@[f]@)->0;
                lemma_find_from_bound(models@, entries@[f]@, 0);
                lemma_closed_ancestors(models@, marked@, s, k);
            }
        }
    }
    marked
}

} // verus!
