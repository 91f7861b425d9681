//! Properties of the analysis, stated over the specification functions that
//! the executable functions' contracts use.

use vstd::prelude::*;
use crate::checks::{
    map_uses, missing_models, model_missing, model_unused, texture_used, unused_models,
    unused_textures,
};
use crate::graph::{
    ancestry, chain_from, decides, effective_map, effective_of, effective_prefix, find_from,
    lemma_chain_bound, lemma_find_from_bound, merged, model_named, nth_ancestor, parent_of, reachable, resolve, resolved,
};
use crate::model::{lemma_lookup_concat, lookup, ModelDocument, ResolvedBinding, ResolvedTexture, TextureBinding, TextureValue};
use crate::pack::{lemma_push_sorted, models_sorted, path_le, paths_sorted, Pack};
use crate::PackResult;

verus! {

/// A pack without models and textures has no findings.
pub proof fn lemma_empty_pack_has_no_findings(p: Pack)
    requires
        p.textures@.len() == 0,
        p.models@.len() == 0,
    ensures
        unused_textures(p.textures@, p.models@, p.textures@.len()) == Seq::<String>::empty(),
        unused_models(p.models@, p.entry_points@, p.models@.len()) == Seq::<String>::empty(),
        missing_models(p.models@, p.models@.len()) == Seq::<String>::empty(),
{
}

/// A binding found by `lookup` is one that decides its key.
pub proof fn lemma_lookup_decides(s: Seq<TextureBinding>, k: Seq<char>)
    ensures
        lookup(s, k) is Some ==> exists|j: int|
            0 <= j < s.len() && #[trigger] s[j].key@ == k && decides(s, j) && lookup(s, k)
                == Some(s[j].value),
    decreases s.len(),
{
    if s.len() > 0 {
        if s.last().key@ == k {
            assert(s[s.len() - 1].key@ == k && decides(s, s.len() - 1));
        } else {
            lemma_lookup_decides(s.drop_last(), k);
            if lookup(s, k) is Some {
                let j = choose|j: int|
                    0 <= j < s.drop_last().len() && #[trigger] s.drop_last()[j].key@ == k
                        && decides(s.drop_last(), j) && lookup(s.drop_last(), k) == Some(
                        s.drop_last()[j].value,
                    );
                assert(s[j].key@ == k);
                assert forall|m: int| j < m < s.len() implies #[trigger] s[m].key@ != s[j].key@ by {
                    if m < s.len() - 1 {
                        assert(s.drop_last()[m] == s[m]);
                    }
                }
                assert(decides(s, j));
            }
        }
    }
}

proof fn lemma_prefix_keeps(s: Seq<TextureBinding>, j: int, n: nat)
    requires
        0 <= j < n <= s.len(),
        decides(s, j),
    ensures
        exists|m: int|
            0 <= m < effective_prefix(s, n).len() && #[trigger] effective_prefix(s, n)[m]
                == (ResolvedBinding { key: s[j].key, value: resolved(s, s[j].key@) }),
    decreases n,
{
    if n == j + 1 {
        let p = effective_prefix(s, n);
        assert(p[p.len() - 1] == ResolvedBinding { key: s[j].key, value: resolved(s, s[j].key@) });
    } else {
        lemma_prefix_keeps(s, j, (n - 1) as nat);
        let q = effective_prefix(s, (n - 1) as nat);
        let m = choose|m: int|
            0 <= m < q.len() && #[trigger] q[m] == (ResolvedBinding {
                key: s[j].key,
                value: resolved(s, s[j].key@),
            });
        assert(effective_prefix(s, n)[m] == q[m]);
    }
}

/// Every key bound in a merged map has an entry in the effective map, holding
/// what the key resolves to.
pub proof fn lemma_effective_has_key(s: Seq<TextureBinding>, k: Seq<char>)
    requires
        lookup(s, k) is Some,
    ensures
        exists|m: int|
            0 <= m < effective_map(s).len() && (#[trigger] effective_map(s)[m]).key@ == k
                && effective_map(s)[m].value == resolved(s, k),
{
    lemma_lookup_decides(s, k);
    let j = choose|j: int|
        0 <= j < s.len() && #[trigger] s[j].key@ == k && decides(s, j) && lookup(s, k) == Some(
            s[j].value,
        );
    lemma_prefix_keeps(s, j, s.len());
    let m = choose|m: int|
        0 <= m < effective_prefix(s, s.len()).len() && #[trigger] effective_prefix(s, s.len())[m]
            == (ResolvedBinding { key: s[j].key, value: resolved(s, s[j].key@) });
    assert(effective_map(s)[m].key@ == k);
}

/// A texture that a model of the graph binds literally in its own document is
/// used, so it is never reported as unreferenced.
pub proof fn lemma_own_literal_is_used(
    models: Seq<ModelDocument>,
    i: usize,
    k: Seq<char>,
    x: String,
)
    requires
        i < models.len() <= usize::MAX,
        effective_of(models, i as int) is Some,
        lookup(models[i as int].textures@, k) == Some(TextureValue::Texture(x)),
    ensures
        texture_used(models, x@),
{
    let c = ancestry(models, i)->0;
    lemma_chain_bound(models, i, models.len());
    assert(c.len() > 0 && c[0] == i);
    assert(c == seq![c[0]] + c.drop_first());
    let s = merged(models, c);
    lemma_lookup_concat(merged(models, c.drop_first()), models[i as int].textures@, k);
    assert(lookup(s, k) == Some(TextureValue::Texture(x)));
    lemma_lookup_decides(s, k);
    assert(resolved(s, k) == ResolvedTexture::Texture(x));
    lemma_effective_has_key(s, k);
    let m = choose|m: int|
        0 <= m < effective_map(s).len() && (#[trigger] effective_map(s)[m]).key@ == k
            && effective_map(s)[m].value == resolved(s, k);
    assert(map_uses(effective_map(s), x@));
    assert(effective_of(models, i as int) is Some);
}

/// Which textures the unreferenced-texture check reports: exactly the catalog
/// textures that no model uses.
pub proof fn lemma_unused_texture_iff(
    textures: Seq<String>,
    models: Seq<ModelDocument>,
    i: int,
    n: nat,
)
    requires
        0 <= i < n <= textures.len(),
    ensures
        unused_textures(textures, models, n).contains(textures[i]) <==> !texture_used(
            models,
            textures[i]@,
        ),
    decreases n,
{
    let r = unused_textures(textures, models, n);
    let q = unused_textures(textures, models, (n - 1) as nat);
    lemma_unused_textures_members(textures, models, n);
    if i < n - 1 {
        lemma_unused_texture_iff(textures, models, i, (n - 1) as nat);
        if q.contains(textures[i]) {
            let m = choose|m: int| 0 <= m < q.len() && q[m] == textures[i];
            assert(r[m] == q[m]);
        }
    } else {
        if !texture_used(models, textures[i]@) {
            assert(r[r.len() - 1] == textures[i]);
        }
    }
}

proof fn lemma_unused_textures_members(textures: Seq<String>, models: Seq<ModelDocument>, n: nat)
    requires
        n <= textures.len(),
    ensures
        forall|m: int|
            0 <= m < unused_textures(textures, models, n).len() ==> !texture_used(
                models,
                (#[trigger] unused_textures(textures, models, n)[m])@,
            ),
    decreases n,
{
    if n > 0 {
        lemma_unused_textures_members(textures, models, (n - 1) as nat);
        let q = unused_textures(textures, models, (n - 1) as nat);
        let r = unused_textures(textures, models, n);
        assert forall|m: int| 0 <= m < r.len() implies !texture_used(models, (#[trigger] r[m])@) by {
            if m < q.len() {
                assert(r[m] == q[m]);
            }
        }
    }
}

/// A chain bound that suffices keeps sufficing with more steps allowed.
pub proof fn lemma_chain_fuel(models: Seq<ModelDocument>, i: usize, f: nat, g: nat)
    requires
        f <= g,
        chain_from(models, i, f) is Some,
    ensures
        chain_from(models, i, g) == chain_from(models, i, f),
    decreases f,
{
    if let Some(p) = parent_of(models, i as int) {
        lemma_chain_fuel(models, p, (f - 1) as nat, (g - 1) as nat);
    }
}

/// Inheritance: the merged map of a model with a parent is its parent's merged
/// map with the model's own bindings on top, so a key of the model's own wins
/// and any other key keeps the parent's value.
pub proof fn lemma_child_overrides_parent(models: Seq<ModelDocument>, i: usize, k: Seq<char>)
    requires
        i < models.len(),
        ancestry(models, i) is Some,
        parent_of(models, i as int) is Some,
    ensures
        ({
            let p = parent_of(models, i as int)->0;
            let c = ancestry(models, i)->0;
            &&& ancestry(models, p) is Some
            &&& merged(models, c) == merged(models, ancestry(models, p)->0)
                + models[i as int].textures@
            &&& lookup(merged(models, c), k) == if lookup(models[i as int].textures@, k) is Some {
                lookup(models[i as int].textures@, k)
            } else {
                lookup(merged(models, ancestry(models, p)->0), k)
            }
        }),
{
    let p = parent_of(models, i as int)->0;
    let f = models.len();
    let c = ancestry(models, i)->0;
    let t = chain_from(models, p, (f - 1) as nat)->0;
    lemma_chain_fuel(models, p, (f - 1) as nat, f);
    assert(c == seq![i] + t);
    assert(c.drop_first() =~= t);
    lemma_lookup_concat(merged(models, t), models[i as int].textures@, k);
}

/// Redirection: a key bound to `#k2` resolves to what `k2` is bound to
/// literally, and to the placeholder where `k2` is bound to nothing.
pub proof fn lemma_redirect_resolves(s: Seq<TextureBinding>, k: Seq<char>, k2: String)
    requires
        lookup(s, k) == Some(TextureValue::Redirect(k2)),
    ensures
        lookup(s, k2@) matches Some(TextureValue::Texture(x)) ==> resolved(s, k) == ResolvedTexture::Texture(x),
        lookup(s, k2@) is None ==> resolved(s, k) == ResolvedTexture::Missing,
{
    lemma_lookup_decides(s, k);
    lemma_lookup_decides(s, k2@);
    let j = choose|j: int|
        0 <= j < s.len() && #[trigger] s[j].key@ == k && decides(s, j) && lookup(s, k) == Some(
            s[j].value,
        );
    if lookup(s, k2@) is Some {
        let j2 = choose|j2: int|
            0 <= j2 < s.len() && #[trigger] s[j2].key@ == k2@ && decides(s, j2) && lookup(s, k2@) == Some(
                s[j2].value,
            );
        if lookup(s, k2@) is Some && lookup(s, k2@)->0 is Texture {
            assert(j != j2);
            assert(s.len() >= 2);
            let f = (s.len() - 1) as nat;
            assert(resolve(s, k2@, f) == ResolvedTexture::Texture(lookup(s, k2@)->0->Texture_0));
        }
    } else {
        let f = (s.len() - 1) as nat;
        assert(resolve(s, k2@, f) == ResolvedTexture::Missing);
    }
}

/// Two models that are each other's parent have no chain under any bound: both
/// are left out of the graph.
pub proof fn lemma_two_cycle_excluded(models: Seq<ModelDocument>, a: usize, b: usize, f: nat)
    requires
        parent_of(models, a as int) == Some(b),
        parent_of(models, b as int) == Some(a),
    ensures
        chain_from(models, a, f) is None,
        chain_from(models, b, f) is None,
    decreases f,
{
    if f > 0 {
        lemma_two_cycle_excluded(models, a, b, (f - 1) as nat);
    }
}

/// A model in use keeps its parent in use: a model named only as a parent is
/// not reported as unreferenced while its child is in use.
pub proof fn lemma_parent_of_reachable(
    models: Seq<ModelDocument>,
    entries: Seq<String>,
    j: usize,
    p: usize,
)
    requires
        reachable(models, entries, j),
        parent_of(models, j as int) == Some(p),
    ensures
        reachable(models, entries, p),
        !model_unused(models, entries, p as int),
{
    let (e, n) = choose|e: int, n: nat|
        0 <= e < entries.len() && model_named(models, entries[e]@) is Some
            && #[trigger] nth_ancestor(models, model_named(models, entries[e]@)->0, n)
            == Some(j);
    let s = model_named(models, entries[e]@)->0;
    assert(nth_ancestor(models, s, n + 1) == Some(p));
}

proof fn lemma_ancestor_compose(models: Seq<ModelDocument>, s: usize, j: usize, n: nat, k: nat)
    requires
        nth_ancestor(models, s, n) == Some(j),
    ensures
        nth_ancestor(models, s, n + k) == nth_ancestor(models, j, k),
    decreases k,
{
    if k > 0 {
        lemma_ancestor_compose(models, s, j, n, (k - 1) as nat);
        assert((n + k - 1) as nat == n + (k - 1) as nat);
    }
}

/// Any model on the parent chain of a model in use is in use, so it is not
/// reported as unreferenced, even where no entry point names it.
pub proof fn lemma_ancestor_of_reachable(
    models: Seq<ModelDocument>,
    entries: Seq<String>,
    j: usize,
    k: nat,
    p: usize,
)
    requires
        reachable(models, entries, j),
        nth_ancestor(models, j, k) == Some(p),
    ensures
        reachable(models, entries, p),
        !model_unused(models, entries, p as int),
{
    let (e, n) = choose|e: int, n: nat|
        0 <= e < entries.len() && model_named(models, entries[e]@) is Some
            && #[trigger] nth_ancestor(models, model_named(models, entries[e]@)->0, n)
            == Some(j);
    let s = model_named(models, entries[e]@)->0;
    lemma_ancestor_compose(models, s, j, n, k);
    assert(nth_ancestor(models, s, n + k) == Some(p));
}

/// The analysis is a function of the pack: two results of equal packs hold the
/// same ordered findings.
pub proof fn lemma_analysis_deterministic(a: PackResult, b: PackResult)
    requires
        a.findings_of(),
        b.findings_of(),
        a.pack.textures@ == b.pack.textures@,
        a.pack.models@ == b.pack.models@,
        a.pack.entry_points@ == b.pack.entry_points@,
    ensures
        a.unreferenced_textures@ == b.unreferenced_textures@,
        a.unreferenced_models@ == b.unreferenced_models@,
        a.missing_texture_models@ == b.missing_texture_models@,
        a.cyclic_models@ == b.cyclic_models@,
{
}

/// How many entries of `s` have path `x`.
pub open spec fn occurrences(s: Seq<String>, x: Seq<char>) -> nat
    decreases s.len(),
{
    if s.len() == 0 {
        0
    } else {
        occurrences(s.drop_last(), x) + if s.last()@ == x {
            1nat
        } else {
            0nat
        }
    }
}

/// No two models of the catalog share a path.
pub open spec fn paths_distinct(models: Seq<ModelDocument>) -> bool {
    forall|a: int, b: int|
        0 <= a < b < models.len() ==> (#[trigger] models[a]).path@ != (#[trigger] models[b]).path@
}

/// A model with the placeholder under any number of keys is listed once.
pub proof fn lemma_missing_listed_once(models: Seq<ModelDocument>, i: int, n: nat)
    requires
        paths_distinct(models),
        0 <= i < models.len(),
        n <= models.len(),
        model_missing(models, i),
    ensures
        occurrences(missing_models(models, n), models[i].path@) == if i < n {
            1nat
        } else {
            0nat
        },
    decreases n,
{
    if n > 0 {
        lemma_missing_listed_once(models, i, (n - 1) as nat);
        let q = missing_models(models, (n - 1) as nat);
        if model_missing(models, n - 1) {
            assert(q.push(models[n - 1].path).drop_last() == q);
            if n - 1 != i {
                assert(models[n - 1].path@ != models[i].path@);
            }
        }
    }
}

/// The unreferenced-texture list of a catalog in path order is in path order,
/// and holds catalog entries only.
pub proof fn lemma_unused_textures_sorted(textures: Seq<String>, models: Seq<ModelDocument>, n: nat)
    requires
        paths_sorted(textures),
        n <= textures.len(),
    ensures
        paths_sorted(unused_textures(textures, models, n)),
        forall|m: int|
            0 <= m < unused_textures(textures, models, n).len() ==> exists|j: int|
                0 <= j < n && #[trigger] unused_textures(textures, models, n)[m] == textures[j],
    decreases n,
{
    if n > 0 {
        lemma_unused_textures_sorted(textures, models, (n - 1) as nat);
        let q = unused_textures(textures, models, (n - 1) as nat);
        let r = unused_textures(textures, models, n);
        let x = textures[n - 1];
        assert forall|m: int| 0 <= m < q.len() implies path_le((#[trigger] q[m])@, x@) by {
            let j = choose|j: int| 0 <= j < n - 1 && q[m] == textures[j];
            assert(path_le(textures[j]@, textures[n - 1]@));
        }
        lemma_push_sorted(q, x);
        assert forall|m: int| 0 <= m < r.len() implies exists|j: int|
            0 <= j < n && #[trigger] r[m] == textures[j] by {
            if m < q.len() {
                assert(r[m] == q[m]);
                let j = choose|j: int| 0 <= j < n - 1 && q[m] == textures[j];
                assert(r[m] == textures[j]);
            } else {
                assert(r[m] == textures[n - 1]);
            }
        }
    }
}

/// The unreferenced-model list of a catalog in path order is in path order,
/// and holds catalog paths only.
pub proof fn lemma_unused_models_sorted(models: Seq<ModelDocument>, entries: Seq<String>, n: nat)
    requires
        models_sorted(models),
        n <= models.len(),
    ensures
        paths_sorted(unused_models(models, entries, n)),
        forall|m: int|
            0 <= m < unused_models(models, entries, n).len() ==> exists|j: int|
                0 <= j < n && #[trigger] unused_models(models, entries, n)[m] == models[j].path,
    decreases n,
{
    if n > 0 {
        lemma_unused_models_sorted(models, entries, (n - 1) as nat);
        let q = unused_models(models, entries, (n - 1) as nat);
        let r = unused_models(models, entries, n);
        let x = models[n - 1].path;
        assert forall|m: int| 0 <= m < q.len() implies path_le((#[trigger] q[m])@, x@) by {
            let j = choose|j: int| 0 <= j < n - 1 && q[m] == models[j].path;
            assert(path_le(models[j].path@, models[n - 1].path@));
        }
        lemma_push_sorted(q, x);
        assert forall|m: int| 0 <= m < r.len() implies exists|j: int|
            0 <= j < n && #[trigger] r[m] == models[j].path by {
            if m < q.len() {
                assert(r[m] == q[m]);
                let j = choose|j: int| 0 <= j < n - 1 && q[m] == models[j].path;
                assert(r[m] == models[j].path);
            } else {
                assert(r[m] == models[n - 1].path);
            }
        }
    }
}

/// The missing-texture list of a catalog in path order is in path order, and
/// holds catalog paths only.
pub proof fn lemma_missing_models_sorted(models: Seq<ModelDocument>, n: nat)
    requires
        models_sorted(models),
        n <= models.len(),
    ensures
        paths_sorted(missing_models(models, n)),
        forall|m: int|
            0 <= m < missing_models(models, n).len() ==> exists|j: int|
                0 <= j < n && #[trigger] missing_models(models, n)[m] == models[j].path,
    decreases n,
{
    if n > 0 {
        lemma_missing_models_sorted(models, (n - 1) as nat);
        let q = missing_models(models, (n - 1) as nat);
        let r = missing_models(models, n);
        let x = models[n - 1].path;
        assert forall|m: int| 0 <= m < q.len() implies path_le((#[trigger] q[m])@, x@) by {
            let j = choose|j: int| 0 <= j < n - 1 && q[m] == models[j].path;
            assert(path_le(models[j].path@, models[n - 1].path@));
        }
        lemma_push_sorted(q, x);
        assert forall|m: int| 0 <= m < r.len() implies exists|j: int|
            0 <= j < n && #[trigger] r[m] == models[j].path by {
            if m < q.len() {
                assert(r[m] == q[m]);
                let j = choose|j: int| 0 <= j < n - 1 && q[m] == models[j].path;
                assert(r[m] == models[j].path);
            } else {
                assert(r[m] == models[n - 1].path);
            }
        }
    }
}

/// The findings of an analysis come in path order.
pub proof fn lemma_findings_in_path_order(r: PackResult)
    requires
        r.findings_of(),
    ensures
        paths_sorted(r.unreferenced_textures@),
        paths_sorted(r.unreferenced_models@),
        paths_sorted(r.missing_texture_models@),
{
    let p = r.pack;
    lemma_unused_textures_sorted(p.textures@, p.models@, p.textures@.len());
    lemma_unused_models_sorted(p.models@, p.entry_points@, p.models@.len());
    lemma_missing_models_sorted(p.models@, p.models@.len());
}

/// `after` is `before` with the `textures` of model `b` replaced, its path and
/// parent kept.
pub open spec fn textures_replaced(
    before: Seq<ModelDocument>,
    after: Seq<ModelDocument>,
    b: int,
) -> bool {
    &&& before.len() == after.len()
    &&& 0 <= b < before.len()
    &&& after[b].path == before[b].path
    &&& after[b].parent == before[b].parent
    &&& forall|j: int| 0 <= j < before.len() && j != b ==> #[trigger] after[j] == before[j]
}

proof fn lemma_find_same(before: Seq<ModelDocument>, after: Seq<ModelDocument>, b: int, p: Seq<char>, k: int)
    requires
        textures_replaced(before, after, b),
        k >= 0,
    ensures
        find_from(after, p, k) == find_from(before, p, k),
    decreases before.len() - k,
{
    if k < before.len() {
        if k != b {
            assert(after[k] == before[k]);
        }
        lemma_find_same(before, after, b, p, k + 1);
    }
}

proof fn lemma_chain_same(before: Seq<ModelDocument>, after: Seq<ModelDocument>, b: int, i: usize, f: nat)
    requires
        textures_replaced(before, after, b),
        i < before.len() <= usize::MAX,
    ensures
        chain_from(after, i, f) == chain_from(before, i, f),
    decreases f,
{
    if f > 0 {
        if i as int != b {
            assert(after[i as int] == before[i as int]);
        }
        match before[i as int].parent {
            Some(p) => {
                lemma_find_same(before, after, b, p@, 0);
                lemma_find_from_bound(before, p@, 0);
            },
            None => {},
        }
        if let Some(q) = parent_of(before, i as int) {
            lemma_chain_same(before, after, b, q, (f - 1) as nat);
        }
    }
}

proof fn lemma_merged_same(before: Seq<ModelDocument>, after: Seq<ModelDocument>, b: int, c: Seq<usize>)
    requires
        textures_replaced(before, after, b),
        forall|k: int| 0 <= k < c.len() ==> #[trigger] c[k] < before.len() && c[k] != b,
    ensures
        merged(after, c) == merged(before, c),
    decreases c.len(),
{
    if c.len() > 0 {
        assert(c[0] < before.len() && c[0] != b);
        assert(after[c[0] as int] == before[c[0] as int]);
        assert forall|k: int| 0 <= k < c.drop_first().len() implies #[trigger] c.drop_first()[k]
            < before.len() && c.drop_first()[k] != b by {
            assert(c.drop_first()[k] == c[k + 1]);
        }
        lemma_merged_same(before, after, b, c.drop_first());
    }
}

/// Replacing a model's own textures leaves the effective map of every model
/// whose chain does not pass through it unchanged; in particular a parent is
/// unaffected by what its child declares.
pub proof fn lemma_effective_unaffected(
    before: Seq<ModelDocument>,
    after: Seq<ModelDocument>,
    b: int,
    a: usize,
)
    requires
        textures_replaced(before, after, b),
        a < before.len() <= usize::MAX,
        ancestry(before, a) matches Some(c) ==> !c.contains(b as usize),
    ensures
        effective_of(after, a as int) == effective_of(before, a as int),
{
    lemma_chain_same(before, after, b, a, before.len());
    if let Some(c) = ancestry(before, a) {
        lemma_chain_bound(before, a, before.len());
        assert forall|k: int| 0 <= k < c.len() implies #[trigger] c[k] < before.len() && c[k] != b by {
            if c[k] == b {
                assert(c.contains(b as usize));
            }
        }
        lemma_merged_same(before, after, b, c);
    }
}

} // verus!
