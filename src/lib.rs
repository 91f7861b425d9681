//! Consistency analysis of game resource packs: parent-chain resolution of
//! model texture maps, reachability of models from entry points, and the three
//! checks over the resulting graph.

pub mod checks;
pub mod emoji;
pub mod graph;
pub mod laws;
pub mod model;
pub mod pack;

use vstd::prelude::*;
use vstd::string::StringExecFns;
use crate::checks::{cyclic_models, missing_models, unused_models, unused_textures};
use crate::pack::{version_name, Pack};

verus! {

/// Runs the analysis of a loaded pack and lays its findings out as status records.
pub struct PackAdviser;

/// Where the pack to analyse lies.
pub struct PackOptions {
    /// Pack directory path
    pub path: String,
}

/// A condition in the metadata that does not stop the analysis.
pub enum PackMetaError {
    /// The format number is not in the version table.
    UnknownFormat(u64),
}

pub enum PackAdviserStatusError {
    PackMetaError(PackMetaError),
    /// Models left out of the graph because their parent chain is cyclic.
    CyclicInheritance(Vec<String>),
    /// A model document that could not be read; it is left out of the catalog.
    ModelParseError,
}

pub enum PackAdviserStatusType {
    Notice(String),
    Warn(String),
    Error(PackAdviserStatusError),
}

/// One notification of the analysis, about the file or asset at `path`.
pub struct PackAdviserStatus {
    pub path: String,
    pub status_type: PackAdviserStatusType,
}

/// The findings of one analysis run.
pub struct PackResult {
    pub pack: Pack,
    pub unreferenced_textures: Vec<String>,
    pub unreferenced_models: Vec<String>,
    pub missing_texture_models: Vec<String>,
    pub cyclic_models: Vec<String>,
}

impl PackResult {
    /// The findings are those of `pack`.
    pub open spec fn findings_of(&self) -> bool {
        let p = self.pack;
        &&& p.wf()
        &&& self.unreferenced_textures@ == unused_textures(p.textures@, p.models@, p.textures@.len())
        &&& self.unreferenced_models@ == unused_models(p.models@, p.entry_points@, p.models@.len())
        &&& self.missing_texture_models@ == missing_models(p.models@, p.models@.len())
        &&& self.cyclic_models@ == cyclic_models(p.models@, p.models@.len())
    }
}

/// The character of a decimal digit.
pub open spec fn digit_char(d: u64) -> char {
    if d == 0 {
        '0'
    } else if d == 1 {
        '1'
    } else if d == 2 {
        '2'
    } else if d == 3 {
        '3'
    } else if d == 4 {
        '4'
    } else if d == 5 {
        '5'
    } else if d == 6 {
        '6'
    } else if d == 7 {
        '7'
    } else if d == 8 {
        '8'
    } else {
        '9'
    }
}

/// `n` written in decimal, without leading zeros.
pub open spec fn decimal(n: u64) -> Seq<char>
    decreases n,
{
    if n < 10 {
        seq![digit_char(n)]
    } else {
        decimal(n / 10).push(digit_char(n % 10))
    }
}

/// Relies on `u64`'s `Display` (through `to_string`): the number in decimal,
/// without sign or leading zeros.
#[verifier::external_body]
fn decimal_text(n: u64) -> (r: String)
    ensures
        r@ == decimal(n),
{
    n.to_string()
}

/// The notice that reports the format number and its release.
pub open spec fn notice_text(format: u64, version: Seq<char>) -> Seq<char> {
    "pack_format: "@ + decimal(format) + " ("@ + version + ")"@
}

/// Writes the notice that reports the format number and its release.
pub fn notice(format: u64, version: &str) -> (r: String)
    ensures
        r@ == notice_text(format, version@),
{
    let digits = decimal_text(format);
    let r = String::from_str("pack_format: ").concat(digits.as_str()).concat(" (").concat(
        version,
    ).concat(")");
    r
}

/// The notice for a format number that the version table does not hold.
pub open spec fn unknown_format_text() -> Seq<char> {
    "pack_format is not in the version table"@
}

/// `s` holds one warning with message `msg` for each path of `list`, in order.
pub open spec fn warnings_for(s: Seq<PackAdviserStatus>, list: Seq<String>, msg: Seq<char>) -> bool {
    &&& s.len() == list.len()
    &&& forall|k: int|
        0 <= k < s.len() ==> (#[trigger] s[k]).path == list[k] && s[k].status_type is Warn
            && s[k].status_type->Warn_0@ == msg
}

/// Appends a warning with message `msg` for each path of `list`.
fn push_warnings(out: &mut Vec<PackAdviserStatus>, list: &Vec<String>, msg: &str)
    ensures
        final(out)@.len() == old(out)@.len() + list@.len(),
        final(out)@.subrange(0, old(out)@.len() as int) == old(out)@,
        warnings_for(
            final(out)@.subrange(old(out)@.len() as int, final(out)@.len() as int),
            list@,
            msg@,
        ),
{
    let ghost start = out@.len();
    let mut k: usize = 0;
    while k < list.len()
        invariant
            k <= list@.len(),
            start == old(out)@.len(),
            out@.len() == start + k,
            out@.subrange(0, start as int) == old(out)@,
            forall|m: int|
                0 <= m < k ==> (#[trigger] out@[start + m]).path == list@[m] && out@[start
                    + m].status_type is Warn && out@[start + m].status_type->Warn_0@ == msg@,
        decreases list@.len() - k,
    {
        out.push(
            PackAdviserStatus {
                path: list[k].clone(),
                status_type: PackAdviserStatusType::Warn(msg.to_owned()),
            },
        );
        assert(out@.subrange(0, start as int) =~= old(out)@);
        k = k + 1;
    }
    let ghost tail = out@.subrange(start as int, out@.len() as int);
    assert forall|m: int| 0 <= m < tail.len() implies (#[trigger] tail[m]).path == list@[m]
        && tail[m].status_type is Warn && tail[m].status_type->Warn_0@ == msg@ by {
        assert(tail[m] == out@[start + m]);
    }
}

/// Number of status records that come before the warnings: the format notice,
/// a second notice for an unmapped format, one error for cyclic models if
/// there are any.
pub open spec fn head_len(r: &PackResult) -> int {
    1 + (if version_name(r.pack.pack_meta.pack_format) is None {
        1int
    } else {
        0int
    }) + (if r.cyclic_models@.len() > 0 {
        1int
    } else {
        0int
    })
}

impl PackAdviser {
    pub fn new() -> (r: Self)
        ensures
            r == PackAdviser,
    {
        PackAdviser
    }

    /// Runs the three checks, and collects the models left out for cyclic chains.
    pub fn analyze(&self, pack: Pack) -> (r: PackResult)
        requires
            pack.wf(),
        ensures
            r.pack == pack,
            r.findings_of(),
    {
        let unreferenced_textures = pack.textures_unreferenced();
        let unreferenced_models = pack.models_unreferenced();
        let missing_texture_models = pack.models_with_missing_texture();
        let cyclic_models = pack.models_with_cyclic_inheritance();
        PackResult {
            pack,
            unreferenced_textures,
            unreferenced_models,
            missing_texture_models,
            cyclic_models,
        }
    }

    /// The status records of a run on the pack at `path`, in order: the format
    /// notice; a second notice for an unmapped format number; a single error naming
    /// all models with a cyclic parent chain, if any; then one warning per
    /// unused texture, per unreferenced model and per model with a missing
    /// texture.
    pub fn statuses(&self, path: &String, result: &PackResult) -> (r: Vec<PackAdviserStatus>)
        ensures
            ({
                let h = head_len(result);
                let nt = result.unreferenced_textures@.len();
                let nm = result.unreferenced_models@.len();
                &&& r@.len() == h + nt + nm + result.missing_texture_models@.len()
                &&& r@[0].path == *path
                &&& r@[0].status_type is Notice
                &&& r@[0].status_type->Notice_0@ == notice_text(
                    result.pack.pack_meta.pack_format,
                    match version_name(result.pack.pack_meta.pack_format) {
                        Some(v) => v,
                        None => "unknown"@,
                    },
                )
                &&& version_name(result.pack.pack_meta.pack_format) is None ==> r@[1].path == *path
                    && r@[1].status_type is Notice && r@[1].status_type->Notice_0@
                    == unknown_format_text()
                &&& result.cyclic_models@.len() > 0 ==> r@[h - 1].path == *path
                    && r@[h - 1].status_type is Error && r@[h - 1].status_type->Error_0
                    is CyclicInheritance && r@[h - 1].status_type->Error_0->CyclicInheritance_0@
                    == result.cyclic_models@
                &&& warnings_for(
                    r@.subrange(h, h + nt),
                    result.unreferenced_textures@,
                    "Unused texture in model"@,
                )
                &&& warnings_for(
                    r@.subrange(h + nt, h + nt + nm),
                    result.unreferenced_models@,
                    "Unreferenced model"@,
                )
                &&& warnings_for(
                    r@.subrange(h + nt + nm, r@.len() as int),
                    result.missing_texture_models@,
                    "Textures contain #missing"@,
                )
            }),
    {
        let meta = &result.pack.pack_meta;
        let mut out: Vec<PackAdviserStatus> = Vec::new();
        out.push(
            PackAdviserStatus {
                path: path.clone(),
                status_type: PackAdviserStatusType::Notice(
                    notice(meta.pack_format, meta.minecraft_version()),
                ),
            },
        );
        if meta.engine_version().is_none() {
            out.push(
                PackAdviserStatus {
                    path: path.clone(),
                    status_type: PackAdviserStatusType::Notice(
                        String::from_str("pack_format is not in the version table"),
                    ),
                },
            );
        }
        if result.cyclic_models.len() > 0 {
            out.push(
                PackAdviserStatus {
                    path: path.clone(),
                    status_type: PackAdviserStatusType::Error(
                        PackAdviserStatusError::CyclicInheritance(
                            copy_paths(&result.cyclic_models),
                        ),
                    ),
                },
            );
        }
        let ghost h = out@.len() as int;
        assert(h == head_len(result));
        let ghost o1 = out@;
        push_warnings(&mut out, &result.unreferenced_textures, "Unused texture in model");
        let ghost o2 = out@;
        push_warnings(&mut out, &result.unreferenced_models, "Unreferenced model");
        let ghost o3 = out@;
        push_warnings(&mut out, &result.missing_texture_models, "Textures contain #missing");
        proof {
            let nt = result.unreferenced_textures@.len() as int;
            let nm = result.unreferenced_models@.len() as int;
            assert(out@.subrange(0, o3.len() as int) == o3);
            assert(o3.subrange(0, o2.len() as int) == o2);
            assert(out@.subrange(h, h + nt) =~= o2.subrange(h, h + nt));
            assert(out@.subrange(h + nt, h + nt + nm) =~= o3.subrange(h + nt, h + nt + nm));
            assert(out@[0] == o1[0]);
            assert(o2[0] == o1[0]);
            assert(o3[0] == o1[0]);
            assert(out@[h - 1] == o1[h - 1]);
            assert(o2[h - 1] == o1[h - 1]);
            assert(o3[h - 1] == o1[h - 1]);
            if h > 1 {
                assert(out@[1] == o1[1]);
                assert(o2[1] == o1[1]);
                assert(o3[1] == o1[1]);
            }
        }
        out
    }
}

/// A copy of a list of paths.
pub fn copy_paths(v: &Vec<String>) -> (r: Vec<String>)
    ensures
        r@ == v@,
{
    let mut out: Vec<String> = Vec::new();
    let mut k: usize = 0;
    while k < v.len()
        invariant
            k <= v@.len(),
            out@ == v@.take(k as int),
        decreases v@.len() - k,
    {
        out.push(v[k].clone());
        assert(v@.take(k + 1) =~= v@.take(k as int).push(v@[k as int]));
        k = k + 1;
    }
    assert(v@.take(k as int) =~= v@);
    out
}

} // verus!
