use vstd::prelude::*;
use crate::graph::{effective_model, effective_of, reachable, reachable_models, EffectiveModel};
use crate::model::{ModelDocument, ResolvedBinding, ResolvedTexture};

verus! {

/// The reference graph of a model catalog: the effective model of each model
/// (`None` for one left out by a cyclic parent chain) and whether each is in use.
pub struct PackGraph {
    pub effective: Vec<Option<EffectiveModel>>,
    pub reachable: Vec<bool>,
}

/// `g` is the reference graph of `models` with entry points `entries`.
pub open spec fn graph_of(g: PackGraph, models: Seq<ModelDocument>, entries: Seq<String>) -> bool {
    &&& g.effective@.len() == models.len()
    &&& g.reachable@.len() == models.len()
    &&& forall|i: int|
        0 <= i < models.len() ==> match #[trigger] g.effective@[i] {
            Some(e) => effective_of(models, i) == Some(e.textures@) && e.path == models[i].path,
            None => effective_of(models, i) is None,
        }
    &&& forall|i: int|
        0 <= i < models.len() ==> #[trigger] g.reachable@[i] == reachable(models, entries, i as usize)
}

impl PackGraph {
    /// Builds the reference graph: effective models and reachability.
    pub fn build(models: &Vec<ModelDocument>, entries: &Vec<String>) -> (r: PackGraph)
        ensures
            graph_of(r, models@, entries@),
    {
        let mut effective: Vec<Option<EffectiveModel>> = Vec::new();
        let mut i: usize = 0;
        while i < models.len()
            invariant
                i <= models@.len(),
                effective@.len() == i,
                forall|j: int|
                    0 <= j < i ==> match #[trigger] effective@[j] {
                        Some(e) => effective_of(models@, j) == Some(e.textures@) && e.path
                            == models@[j].path,
                        None => effective_of(models@, j) is None,
                    },
            decreases models@.len() - i,
        {
            effective.push(effective_model(models, i));
            i = i + 1;
        }
        PackGraph { effective, reachable: reachable_models(models, entries) }
    }
}

/// Some key of the effective map `m` resolves to texture `t`.
pub open spec fn map_uses(m: Seq<ResolvedBinding>, t: Seq<char>) -> bool {
    exists|k: int|
        0 <= k < m.len() && (#[trigger] m[k]).value is Texture && m[k].value->Texture_0@ == t
}

/// Some model of the graph resolves a key to texture `t`.
pub open spec fn texture_used(models: Seq<ModelDocument>, t: Seq<char>) -> bool {
    exists|i: int|
        0 <= i < models.len() && #[trigger] effective_of(models, i) is Some && map_uses(
            effective_of(models, i)->0,
            t,
        )
}

/// Some key of the effective map `m` resolves to the placeholder.
pub open spec fn map_has_missing(m: Seq<ResolvedBinding>) -> bool {
    exists|k: int| 0 <= k < m.len() && (#[trigger] m[k]).value is Missing
}

/// The catalog textures among the first `n` that no model uses, in catalog order.
pub open spec fn unused_textures(textures: Seq<String>, models: Seq<ModelDocument>, n: nat) -> Seq<
    String,
>
    decreases n,
{
    if n == 0 {
        seq![]
    } else {
        let rest = unused_textures(textures, models, (n - 1) as nat);
        if texture_used(models, textures[n - 1]@) {
            rest
        } else {
            rest.push(textures[n - 1])
        }
    }
}

/// Model `i` is in the graph and not in use.
pub open spec fn model_unused(models: Seq<ModelDocument>, entries: Seq<String>, i: int) -> bool {
    effective_of(models, i) is Some && !reachable(models, entries, i as usize)
}

/// Paths of the models among the first `n` that are in the graph but not in
/// use, in catalog order.
pub open spec fn unused_models(models: Seq<ModelDocument>, entries: Seq<String>, n: nat) -> Seq<
    String,
>
    decreases n,
{
    if n == 0 {
        seq![]
    } else {
        let rest = unused_models(models, entries, (n - 1) as nat);
        if model_unused(models, entries, n - 1) {
            rest.push(models[n - 1].path)
        } else {
            rest
        }
    }
}

/// Model `i` is in the graph and some key of it resolves to the placeholder.
pub open spec fn model_missing(models: Seq<ModelDocument>, i: int) -> bool {
    effective_of(models, i) is Some && map_has_missing(effective_of(models, i)->0)
}

/// Paths of the models among the first `n` with a key that resolves to the
/// placeholder, in catalog order.
pub open spec fn missing_models(models: Seq<ModelDocument>, n: nat) -> Seq<String>
    decreases n,
{
    if n == 0 {
        seq![]
    } else {
        let rest = missing_models(models, (n - 1) as nat);
        if model_missing(models, n - 1) {
            rest.push(models[n - 1].path)
        } else {
            rest
        }
    }
}

/// Paths of the models among the first `n` whose parent chain is cyclic, in
/// catalog order: the models left out of the graph.
pub open spec fn cyclic_models(models: Seq<ModelDocument>, n: nat) -> Seq<String>
    decreases n,
{
    if n == 0 {
        seq![]
    } else {
        let rest = cyclic_models(models, (n - 1) as nat);
        if effective_of(models, n - 1) is None {
            rest.push(models[n - 1].path)
        } else {
            rest
        }
    }
}

/// Paths of the models left out of the graph for a cyclic parent chain.
pub fn models_with_cyclic_inheritance(
    models: &Vec<ModelDocument>,
    graph: &PackGraph,
    entries: Ghost<Seq<String>>,
) -> (r: Vec<String>)
    requires
        graph_of(*graph, models@, entries@),
    ensures
        r@ == cyclic_models(models@, models@.len()),
{
    let mut out: Vec<String> = Vec::new();
    let mut i: usize = 0;
    while i < models.len()
        invariant
            graph_of(*graph, models@, entries@),
            i <= models@.len(),
            out@ == cyclic_models(models@, i as nat),
        decreases models@.len() - i,
    {
        if graph.effective[i].is_none() {
            out.push(models[i].path.clone());
        }
        i = i + 1;
    }
    out
}

fn uses_texture(m: &Vec<ResolvedBinding>, t: &String) -> (r: bool)
    ensures
        r == map_uses(m@, t@),
{
    let mut k: usize = 0;
    while k < m.len()
        invariant
            k <= m@.len(),
            forall|q: int|
                0 <= q < k ==> !((#[trigger] m@[q]).value is Texture && m@[q].value->Texture_0@
                    == t@),
        decreases m@.len() - k,
    {
        match &m[k].value {
            ResolvedTexture::Texture(x) => {
                if *x == *t {
                    return true;
                }
            },
            ResolvedTexture::Missing => {},
        }
        k = k + 1;
    }
    false
}

fn has_missing(m: &Vec<ResolvedBinding>) -> (r: bool)
    ensures
        r == map_has_missing(m@),
{
    let mut k: usize = 0;
    while k < m.len()
        invariant
            k <= m@.len(),
            forall|q: int| 0 <= q < k ==> !((#[trigger] m@[q]).value is Missing),
        decreases m@.len() - k,
    {
        if let ResolvedTexture::Missing = &m[k].value {
            return true;
        }
        k = k + 1;
    }
    false
}

fn graph_uses_texture(
    graph: &PackGraph,
    t: &String,
    models: Ghost<Seq<ModelDocument>>,
    entries: Ghost<Seq<String>>,
) -> (r: bool)
    requires
        graph_of(*graph, models@, entries@),
    ensures
        r == texture_used(models@, t@),
{
    let mut i: usize = 0;
    while i < graph.effective.len()
        invariant
            graph_of(*graph, models@, entries@),
            i <= graph.effective@.len(),
            forall|j: int|
                0 <= j < i ==> !(#[trigger] effective_of(models@, j) is Some && map_uses(
                    effective_of(models@, j)->0,
                    t@,
                )),
        decreases graph.effective@.len() - i,
    {
        if let Some(e) = &graph.effective[i] {
            if uses_texture(&e.textures, t) {
                return true;
            }
        }
        i = i + 1;
    }
    false
}

/// The catalog textures that no model of the graph uses, in catalog order.
pub fn textures_unreferenced(
    textures: &Vec<String>,
    graph: &PackGraph,
    models: Ghost<Seq<ModelDocument>>,
    entries: Ghost<Seq<String>>,
) -> (r: Vec<String>)
    requires
        graph_of(*graph, models@, entries@),
    ensures
        r@ == unused_textures(textures@, models@, textures@.len()),
{
    let mut out: Vec<String> = Vec::new();
    let mut i: usize = 0;
    while i < textures.len()
        invariant
            graph_of(*graph, models@, entries@),
            i <= textures@.len(),
            out@ == unused_textures(textures@, models@, i as nat),
        decreases textures@.len() - i,
    {
        if !graph_uses_texture(graph, &textures[i], models, entries) {
            out.push(textures[i].clone());
        }
        i = i + 1;
    }
    out
}

/// Paths of the models in the graph that no entry point reaches, in catalog order.
pub fn models_unreferenced(
    models: &Vec<ModelDocument>,
    graph: &PackGraph,
    entries: Ghost<Seq<String>>,
) -> (r: Vec<String>)
    requires
        graph_of(*graph, models@, entries@),
    ensures
        r@ == unused_models(models@, entries@, models@.len()),
{
    let mut out: Vec<String> = Vec::new();
    let mut i: usize = 0;
    while i < models.len()
        invariant
            graph_of(*graph, models@, entries@),
            i <= models@.len(),
            out@ == unused_models(models@, entries@, i as nat),
        decreases models@.len() - i,
    {
        if graph.effective[i].is_some() && !graph.reachable[i] {
            out.push(models[i].path.clone());
        }
        i = i + 1;
    }
    out
}

/// Paths of the models in the graph with a key that resolves to the
/// placeholder, each once, in catalog order.
pub fn models_with_missing_texture(
    models: &Vec<ModelDocument>,
    graph: &PackGraph,
    entries: Ghost<Seq<String>>,
) -> (r: Vec<String>)
    requires
        graph_of(*graph, models@, entries@),
    ensures
        r@ == missing_models(models@, models@.len()),
{
    let mut out: Vec<String> = Vec::new();
    let mut i: usize = 0;
    while i < models.len()
        invariant
            graph_of(*graph, models@, entries@),
            i <= models@.len(),
            out@ == missing_models(models@, i as nat),
        decreases models@.len() - i,
    {
        if let Some(e) = &graph.effective[i] {
            if has_missing(&e.textures) {
                out.push(models[i].path.clone());
            }
        }
        i = i + 1;
    }
    out
}

} // verus!
