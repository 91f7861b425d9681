use vstd::prelude::*;
use crate::checks::{
    cyclic_models, graph_of, missing_models, models_with_cyclic_inheritance, models_unreferenced, models_with_missing_texture,
    textures_unreferenced, unused_models, unused_textures, PackGraph,
};
use crate::model::{normalize_path, normalized, ModelDocument};

verus! {

/// Lexicographic order of two paths, character by character.
pub open spec fn path_le(a: Seq<char>, b: Seq<char>) -> bool
    decreases a.len(),
{
    if a.len() == 0 {
        true
    } else if b.len() == 0 {
        false
    } else if a[0] != b[0] {
        (a[0] as u32) < (b[0] as u32)
    } else {
        path_le(a.drop_first(), b.drop_first())
    }
}

pub open spec fn paths_sorted(s: Seq<String>) -> bool {
    forall|i: int, j: int| 0 <= i < j < s.len() ==> path_le(#[trigger] s[i]@, #[trigger] s[j]@)
}

pub open spec fn models_sorted(s: Seq<ModelDocument>) -> bool {
    forall|i: int, j: int|
        0 <= i < j < s.len() ==> path_le(#[trigger] s[i].path@, #[trigger] s[j].path@)
}

pub proof fn lemma_push_sorted(q: Seq<String>, x: String)
    requires
        paths_sorted(q),
        forall|m: int| 0 <= m < q.len() ==> path_le((#[trigger] q[m])@, x@),
    ensures
        paths_sorted(q.push(x)),
{
    let r = q.push(x);
    assert forall|i: int, j: int| 0 <= i < j < r.len() implies path_le(
        #[trigger] r[i]@,
        #[trigger] r[j]@,
    ) by {
        assert(r[i] == q[i]);
        if j < q.len() {
            assert(r[j] == q[j]);
        }
    }
}

/// Relies on slice::sort: the elements are rearranged into ascending order of
/// `String`'s `Ord`, which compares the UTF-8 bytes lexicographically; on
/// UTF-8 that is the order of the characters' scalar values.
#[verifier::external_body]
fn sort_paths(v: &mut Vec<String>)
    ensures
        final(v)@.to_multiset() == old(v)@.to_multiset(),
        paths_sorted(final(v)@),
{
    v.sort();
}

/// Relies on slice::sort_by, comparing the models' paths with `String`'s `Ord`
/// (lexicographic on the UTF-8 bytes, so on the characters).
#[verifier::external_body]
fn sort_models(v: &mut Vec<ModelDocument>)
    ensures
        final(v)@.to_multiset() == old(v)@.to_multiset(),
        models_sorted(final(v)@),
{
    v.sort_by(|a, b| a.path.cmp(&b.path));
}

/// The engine release that a metadata format number stands for, or `None`
/// for a number missing from the table.
pub open spec fn version_name(format: u64) -> Option<Seq<char>> {
    if format == 1 {
        Some("1.6.1 - 1.8.9"@)
    } else if format == 2 {
        Some("1.9 - 1.10.2"@)
    } else if format == 3 {
        Some("1.11 - 1.12.2"@)
    } else if format == 4 {
        Some("1.13 - 1.14.4"@)
    } else if format == 5 {
        Some("1.15 - 1.16.1"@)
    } else if format == 6 {
        Some("1.16.2 - 1.16.5"@)
    } else if format == 7 {
        Some("1.17 - 1.17.1"@)
    } else if format == 8 {
        Some("1.18 - 1.18.2"@)
    } else if format == 9 {
        Some("1.19 - 1.19.2"@)
    } else if format == 12 {
        Some("1.19.3"@)
    } else if format == 13 {
        Some("1.19.4"@)
    } else if format == 15 {
        Some("1.20 - 1.20.1"@)
    } else {
        None
    }
}

/// The parsed metadata descriptor of a pack.
pub struct PackMeta {
    pub pack_format: u64,
    pub description: Option<String>,
}

impl PackMeta {
    pub fn new(pack_format: u64, description: Option<String>) -> (r: PackMeta)
        ensures
            r.pack_format == pack_format,
            r.description == description,
    {
        PackMeta { pack_format, description }
    }

    /// The engine release of the format, `None` for an unmapped number.
    pub fn engine_version(&self) -> (r: Option<&'static str>)
        ensures
            match r {
                Some(v) => version_name(self.pack_format) == Some(v@),
                None => version_name(self.pack_format) is None,
            },
    {
        let f = self.pack_format;
        if f == 1 {
            Some("1.6.1 - 1.8.9")
        } else if f == 2 {
            Some("1.9 - 1.10.2")
        } else if f == 3 {
            Some("1.11 - 1.12.2")
        } else if f == 4 {
            Some("1.13 - 1.14.4")
        } else if f == 5 {
            Some("1.15 - 1.16.1")
        } else if f == 6 {
            Some("1.16.2 - 1.16.5")
        } else if f == 7 {
            Some("1.17 - 1.17.1")
        } else if f == 8 {
            Some("1.18 - 1.18.2")
        } else if f == 9 {
            Some("1.19 - 1.19.2")
        } else if f == 12 {
            Some("1.19.3")
        } else if f == 13 {
            Some("1.19.4")
        } else if f == 15 {
            Some("1.20 - 1.20.1")
        } else {
            None
        }
    }

    /// The engine release of the format, or `"unknown"` for an unmapped number.
    pub fn minecraft_version(&self) -> (r: &'static str)
        ensures
            match version_name(self.pack_format) {
                Some(v) => r@ == v,
                None => r@ == "unknown"@,
            },
    {
        match self.engine_version() {
            Some(v) => v,
            None => "unknown",
        }
    }
}

/// Normalizes each path of a list.
fn normalize_all(v: &Vec<String>) -> (r: Vec<String>)
    ensures
        r@.len() == v@.len(),
        forall|k: int| 0 <= k < v@.len() ==> (#[trigger] r@[k])@ == normalized(v@[k]@),
{
    let mut out: Vec<String> = Vec::new();
    let mut k: usize = 0;
    while k < v.len()
        invariant
            k <= v@.len(),
            out@.len() == k,
            forall|m: int| 0 <= m < k ==> (#[trigger] out@[m])@ == normalized(v@[m]@),
        decreases v@.len() - k,
    {
        out.push(normalize_path(v[k].as_str()));
        k = k + 1;
    }
    out
}

/// A loaded pack: its metadata, its texture and model catalogs in path order,
/// the models named by its entry points, and the reference graph over them.
pub struct Pack {
    pub pack_meta: PackMeta,
    pub textures: Vec<String>,
    pub models: Vec<ModelDocument>,
    pub entry_points: Vec<String>,
    pub graph: PackGraph,
}

impl Pack {
    /// The catalogs are sorted and the graph is that of the models and entry points.
    pub open spec fn wf(&self) -> bool {
        &&& paths_sorted(self.textures@)
        &&& models_sorted(self.models@)
        &&& graph_of(self.graph, self.models@, self.entry_points@)
    }

    /// Assembles a pack: normalizes the texture paths and the model paths that
    /// the entry points name, puts both catalogs in path order, and builds the
    /// graph.
    pub fn new(
        pack_meta: PackMeta,
        textures: Vec<String>,
        models: Vec<ModelDocument>,
        entry_points: Vec<String>,
    ) -> (r: Pack)
        ensures
            r.wf(),
            r.pack_meta == pack_meta,
            r.textures@.len() == textures@.len(),
            exists|n: Seq<String>|
                #![trigger n.to_multiset()]
                n.len() == textures@.len() && (forall|k: int|
                    0 <= k < n.len() ==> (#[trigger] n[k])@ == normalized(textures@[k]@))
                    && r.textures@.to_multiset() == n.to_multiset(),
            r.models@.to_multiset() == models@.to_multiset(),
            r.entry_points@.len() == entry_points@.len(),
            forall|k: int|
                0 <= k < entry_points@.len() ==> (#[trigger] r.entry_points@[k])@ == normalized(
                    entry_points@[k]@,
                ),
    {
        let entry_points = normalize_all(&entry_points);
        let mut textures_out = normalize_all(&textures);
        let ghost n = textures_out@;
        sort_paths(&mut textures_out);
        let mut models = models;
        sort_models(&mut models);
        proof {
            textures_out@.to_multiset_ensures();
            n.to_multiset_ensures();
            assert(textures_out@.len() == n.len());
        }
        let graph = PackGraph::build(&models, &entry_points);
        Pack { pack_meta, textures: textures_out, models, entry_points, graph }
    }

    /// Models left out of the graph because their parent chain is cyclic, in path order.
    pub fn models_with_cyclic_inheritance(&self) -> (r: Vec<String>)
        requires
            self.wf(),
        ensures
            r@ == cyclic_models(self.models@, self.models@.len()),
    {
        models_with_cyclic_inheritance(&self.models, &self.graph, Ghost(self.entry_points@))
    }

    /// Catalog textures that no model's effective texture map uses, in path order.
    pub fn textures_unreferenced(&self) -> (r: Vec<String>)
        requires
            self.wf(),
        ensures
            r@ == unused_textures(self.textures@, self.models@, self.textures@.len()),
    {
        textures_unreferenced(&self.textures, &self.graph, Ghost(self.models@), Ghost(self.entry_points@))
    }

    /// Models in the graph that no entry point reaches, in path order.
    pub fn models_unreferenced(&self) -> (r: Vec<String>)
        requires
            self.wf(),
        ensures
            r@ == unused_models(self.models@, self.entry_points@, self.models@.len()),
    {
        models_unreferenced(&self.models, &self.graph, Ghost(self.entry_points@))
    }

    /// Models in the graph with a key that resolves to the placeholder, in path order.
    pub fn models_with_missing_texture(&self) -> (r: Vec<String>)
        requires
            self.wf(),
        ensures
            r@ == missing_models(self.models@, self.models@.len()),
    {
        models_with_missing_texture(&self.models, &self.graph, Ghost(self.entry_points@))
    }
}

} // verus!
