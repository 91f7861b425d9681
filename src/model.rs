use vstd::prelude::*;
use vstd::string::StringExecFns;

verus! {

/// A value bound to a texture key in a model document.
pub enum TextureValue {
    /// A literal texture asset path.
    Texture(String),
    /// A reference to another key of the same (merged) texture map: `#key`.
    Redirect(String),
    /// The reserved missing-placeholder literal.
    Missing,
}

impl TextureValue {
    pub fn duplicate(&self) -> (r: Self)
        ensures
            r == *self,
    {
        match self {
            TextureValue::Texture(t) => TextureValue::Texture(t.clone()),
            TextureValue::Redirect(k) => TextureValue::Redirect(k.clone()),
            TextureValue::Missing => TextureValue::Missing,
        }
    }
}

/// One `key: value` entry of a model's `textures` mapping.
pub struct TextureBinding {
    pub key: String,
    pub value: TextureValue,
}

impl TextureBinding {
    pub fn duplicate(&self) -> (r: Self)
        ensures
            r == *self,
    {
        TextureBinding { key: self.key.clone(), value: self.value.duplicate() }
    }
}

/// A parsed model definition. `textures` is kept in document order; a later
/// entry for the same key overrides an earlier one.
pub struct ModelDocument {
    pub path: String,
    pub parent: Option<String>,
    pub textures: Vec<TextureBinding>,
}

/// The value that a texture key finally resolves to.
pub enum ResolvedTexture {
    Texture(String),
    Missing,
}

/// One key of a model's effective texture map, with its resolved value.
pub struct ResolvedBinding {
    pub key: String,
    pub value: ResolvedTexture,
}

/// The value bound to key `k` in a binding list: the last entry with that key.
pub open spec fn lookup(s: Seq<TextureBinding>, k: Seq<char>) -> Option<TextureValue>
    decreases s.len(),
{
    if s.len() == 0 {
        None
    } else if s.last().key@ == k {
        Some(s.last().value)
    } else {
        lookup(s.drop_last(), k)
    }
}

/// Looking a key up in `a + b`: a binding of `b` wins over one of `a`.
pub proof fn lemma_lookup_concat(a: Seq<TextureBinding>, b: Seq<TextureBinding>, k: Seq<char>)
    ensures
        lookup(a + b, k) == (if lookup(b, k) is Some {
            lookup(b, k)
        } else {
            lookup(a, k)
        }),
    decreases b.len(),
{
    if b.len() == 0 {
        assert(a + b =~= a);
    } else {
        assert((a + b).drop_last() =~= a + b.drop_last());
        lemma_lookup_concat(a, b.drop_last(), k);
    }
}

/// Index of the binding that decides key `k` (the last one with that key).
pub fn find_binding(s: &Vec<TextureBinding>, k: &String) -> (r: Option<usize>)
    ensures
        match r {
            Some(j) => j < s@.len() && s@[j as int].key@ == k@ && lookup(s@, k@) == Some(
                s@[j as int].value,
            ),
            None => lookup(s@, k@) is None,
        },
{
    let mut j: usize = s.len();
    assert(s@.take(j as int) =~= s@);
    while j > 0
        invariant
            j <= s@.len(),
            lookup(s@, k@) == lookup(s@.take(j as int), k@),
        decreases j,
    {
        assert(s@.take(j as int).drop_last() =~= s@.take(j - 1));
        if s[j - 1].key == *k {
            return Some(j - 1);
        }
        j = j - 1;
    }
    None
}

/// Relies on str::strip_prefix with a `char` pattern: `Some(rest)` exactly
/// when `s` starts with `c`, `rest` being what follows it.
#[verifier::external_body]
fn strip_char(s: &str, c: char) -> (r: Option<&str>)
    ensures
        match r {
            Some(rest) => s@ == seq![c] + rest@,
            None => s@.len() == 0 || s@[0] != c,
        },
{
    s.strip_prefix(c)
}

/// Relies on str::contains with a `char` pattern: whether `c` occurs in `s`.
#[verifier::external_body]
fn contains_char(s: &str, c: char) -> (r: bool)
    ensures
        r == s@.contains(c),
{
    s.contains(c)
}

/// The namespace assumed for a path written without one.
pub open spec fn default_namespace() -> Seq<char> {
    "minecraft:"@
}

/// The normalized form of an asset path: a path without a namespace is in the
/// default one.
pub open spec fn normalized(p: Seq<char>) -> Seq<char> {
    if p.contains(':') {
        p
    } else {
        default_namespace() + p
    }
}

/// Normalizes an asset path to `namespace:relative/path`.
pub fn normalize_path(p: &str) -> (r: String)
    ensures
        r@ == normalized(p@),
{
    if contains_char(p, ':') {
        p.to_owned()
    } else {
        let ns = String::from_str("minecraft:");
        proof {
            reveal_strlit("minecraft:");
        }
        ns.concat(p)
    }
}

/// The reserved literal that leaves a texture slot on the missing placeholder.
pub open spec fn placeholder_literal() -> Seq<char> {
    "#missing"@
}

/// `t` is what the raw value `v` reads as.
pub open spec fn reads_as(v: Seq<char>, t: TextureValue) -> bool {
    if v == placeholder_literal() {
        t is Missing
    } else if v.len() > 0 && v[0] == '#' {
        t is Redirect && t->Redirect_0@ == v.drop_first()
    } else {
        t is Texture && t->Texture_0@ == normalized(v)
    }
}

/// Reads a raw `textures` value.
pub fn parse_texture_value(v: &str) -> (r: TextureValue)
    ensures
        reads_as(v@, r),
{
    let missing = String::from_str("#missing");
    proof {
        reveal_strlit("#missing");
    }
    if v.to_owned() == missing {
        return TextureValue::Missing;
    }
    match strip_char(v, '#') {
        Some(rest) => {
            assert(rest@ =~= v@.drop_first());
            TextureValue::Redirect(rest.to_owned())
        },
        None => TextureValue::Texture(normalize_path(v)),
    }
}

impl ModelDocument {
    /// Builds a model document from its raw fields: its path and its parent's
    /// are normalized and each `textures` value is read in document order.
    pub fn new(path: String, parent: Option<String>, textures: Vec<(String, String)>) -> (r:
        ModelDocument)
        ensures
            r.path@ == normalized(path@),
            match parent {
                Some(p) => r.parent matches Some(q) && q@ == normalized(p@),
                None => r.parent is None,
            },
            r.textures@.len() == textures@.len(),
            forall|k: int|
                0 <= k < textures@.len() ==> (#[trigger] r.textures@[k]).key == textures@[k].0
                    && reads_as(textures@[k].1@, r.textures@[k].value),
    {
        let parent = match parent {
            Some(p) => Some(normalize_path(p.as_str())),
            None => None,
        };
        let mut bindings: Vec<TextureBinding> = Vec::new();
        let mut k: usize = 0;
        while k < textures.len()
            invariant
                k <= textures@.len(),
                bindings@.len() == k,
                forall|m: int|
                    0 <= m < k ==> (#[trigger] bindings@[m]).key == textures@[m].0 && reads_as(
                        textures@[m].1@,
                        bindings@[m].value,
                    ),
            decreases textures@.len() - k,
        {
            let (key, value) = &textures[k];
            bindings.push(TextureBinding { key: key.clone(), value: parse_texture_value(value.as_str()) });
            k = k + 1;
        }
        ModelDocument { path: normalize_path(path.as_str()), parent, textures: bindings }
    }

}

} // verus!
