use packadvice::emoji::Emoji;
use packadvice::model::{
    normalize_path, parse_texture_value, ModelDocument, ResolvedTexture, TextureValue,
};
use packadvice::pack::{Pack, PackMeta};
use packadvice::{
    notice, PackAdviser, PackAdviserStatusError, PackAdviserStatusType, PackResult,
};

fn model(path: &str, parent: Option<&str>, textures: &[(&str, &str)]) -> ModelDocument {
    ModelDocument::new(
        path.to_string(),
        parent.map(|p| p.to_string()),
        textures.iter().map(|(k, v)| (k.to_string(), v.to_string())).collect(),
    )
}

fn strings(v: &[&str]) -> Vec<String> {
    v.iter().map(|s| s.to_string()).collect()
}

fn pack(textures: &[&str], models: Vec<ModelDocument>, entries: &[&str]) -> Pack {
    Pack::new(PackMeta::new(15, None), strings(textures), models, strings(entries))
}

fn analyze(p: Pack) -> PackResult {
    PackAdviser::new().analyze(p)
}

fn effective(p: &Pack, path: &str, key: &str) -> Option<ResolvedTexture> {
    let i = p.models.iter().position(|m| m.path == path)?;
    let e = p.graph.effective[i].as_ref()?;
    e.textures.iter().find(|b| b.key == key).map(|b| match &b.value {
        ResolvedTexture::Texture(t) => ResolvedTexture::Texture(t.clone()),
        ResolvedTexture::Missing => ResolvedTexture::Missing,
    })
}

fn is_texture(r: Option<ResolvedTexture>, expected: &str) -> bool {
    matches!(r, Some(ResolvedTexture::Texture(t)) if t == expected)
}

#[test]
fn empty_pack_has_no_findings() {
    let r = analyze(pack(&[], vec![], &[]));
    assert!(r.unreferenced_textures.is_empty());
    assert!(r.unreferenced_models.is_empty());
    assert!(r.missing_texture_models.is_empty());
    assert!(r.cyclic_models.is_empty());
}

#[test]
fn referenced_texture_is_not_reported_until_reference_removed() {
    let used = pack(
        &["minecraft:block/a", "minecraft:block/b"],
        vec![model("minecraft:block/m", None, &[("all", "block/a")])],
        &["block/m"],
    );
    let r = analyze(used);
    assert_eq!(r.unreferenced_textures, strings(&["minecraft:block/b"]));

    let unused = pack(
        &["minecraft:block/a", "minecraft:block/b"],
        vec![model("minecraft:block/m", None, &[])],
        &["block/m"],
    );
    let r = analyze(unused);
    assert_eq!(
        r.unreferenced_textures,
        strings(&["minecraft:block/a", "minecraft:block/b"])
    );
}

#[test]
fn child_inherits_parent_texture() {
    let p = pack(
        &[],
        vec![
            model("minecraft:block/a", None, &[("particle", "x")]),
            model("minecraft:block/b", Some("block/a"), &[]),
        ],
        &[],
    );
    assert!(is_texture(effective(&p, "minecraft:block/b", "particle"), "minecraft:x"));
}

#[test]
fn child_override_wins_and_parent_unaffected() {
    let p = pack(
        &[],
        vec![
            model("minecraft:block/a", None, &[("particle", "x")]),
            model("minecraft:block/b", Some("minecraft:block/a"), &[("particle", "y")]),
        ],
        &[],
    );
    assert!(is_texture(effective(&p, "minecraft:block/b", "particle"), "minecraft:y"));
    assert!(is_texture(effective(&p, "minecraft:block/a", "particle"), "minecraft:x"));
}

#[test]
fn redirection_resolves_to_target() {
    let p = pack(&[], vec![model("minecraft:block/m", None, &[("all", "x"), ("top", "#all")])], &[]);
    assert!(is_texture(effective(&p, "minecraft:block/m", "top"), "minecraft:x"));
}

#[test]
fn redirection_to_absent_key_is_missing() {
    let p = pack(&[], vec![model("minecraft:block/m", None, &[("top", "#all")])], &["block/m"]);
    assert!(matches!(effective(&p, "minecraft:block/m", "top"), Some(ResolvedTexture::Missing)));
    let r = analyze(p);
    assert_eq!(r.missing_texture_models, strings(&["minecraft:block/m"]));
}

#[test]
fn redirection_resolved_after_merge() {
    let p = pack(
        &[],
        vec![
            model("minecraft:block/parent", None, &[("side", "#all")]),
            model("minecraft:block/child", Some("block/parent"), &[("all", "stone")]),
        ],
        &[],
    );
    assert!(is_texture(effective(&p, "minecraft:block/child", "side"), "minecraft:stone"));
    assert!(matches!(
        effective(&p, "minecraft:block/parent", "side"),
        Some(ResolvedTexture::Missing)
    ));
}

#[test]
fn redirection_cycle_is_missing() {
    let p = pack(&[], vec![model("minecraft:block/m", None, &[("a", "#b"), ("b", "#a")])], &[]);
    assert!(matches!(effective(&p, "minecraft:block/m", "a"), Some(ResolvedTexture::Missing)));
}

#[test]
fn cyclic_parents_are_excluded_and_reported_once() {
    let p = pack(
        &["minecraft:t"],
        vec![
            model("minecraft:block/a", Some("block/b"), &[("all", "t")]),
            model("minecraft:block/b", Some("block/a"), &[]),
        ],
        &["block/a"],
    );
    assert!(p.graph.effective.iter().all(|e| e.is_none()));
    let r = analyze(p);
    assert_eq!(r.cyclic_models, strings(&["minecraft:block/a", "minecraft:block/b"]));
    assert!(r.unreferenced_models.is_empty());
    assert_eq!(r.unreferenced_textures, strings(&["minecraft:t"]));
    let statuses = PackAdviser::new().statuses(&"pack".to_string(), &r);
    let cyclic = statuses
        .iter()
        .filter(|s| {
            matches!(
                s.status_type,
                PackAdviserStatusType::Error(PackAdviserStatusError::CyclicInheritance(_))
            )
        })
        .count();
    assert_eq!(cyclic, 1);
}

#[test]
fn parent_of_used_model_is_not_unreferenced() {
    let p = pack(
        &[],
        vec![
            model("minecraft:block/base", None, &[]),
            model("minecraft:block/leaf", Some("block/base"), &[]),
            model("minecraft:block/stray", None, &[]),
        ],
        &["minecraft:block/leaf"],
    );
    let r = analyze(p);
    assert_eq!(r.unreferenced_models, strings(&["minecraft:block/stray"]));
}

#[test]
fn analysis_is_idempotent() {
    let build = || {
        pack(
            &["minecraft:z", "minecraft:a"],
            vec![
                model("minecraft:block/y", None, &[("x", "#missing")]),
                model("minecraft:block/c", None, &[("x", "#nothing")]),
            ],
            &[],
        )
    };
    let a = analyze(build());
    let b = analyze(build());
    assert_eq!(a.unreferenced_textures, b.unreferenced_textures);
    assert_eq!(a.unreferenced_models, b.unreferenced_models);
    assert_eq!(a.missing_texture_models, b.missing_texture_models);
    assert_eq!(a.unreferenced_textures, strings(&["minecraft:a", "minecraft:z"]));
    assert_eq!(
        a.unreferenced_models,
        strings(&["minecraft:block/c", "minecraft:block/y"])
    );
}

#[test]
fn missing_model_listed_once() {
    let p = pack(
        &[],
        vec![model(
            "minecraft:block/m",
            None,
            &[("a", "#missing"), ("b", "#missing"), ("c", "#gone")],
        )],
        &["block/m"],
    );
    let r = analyze(p);
    assert_eq!(r.missing_texture_models, strings(&["minecraft:block/m"]));
}

#[test]
fn inherited_missing_is_detected_and_override_fixes_it() {
    let p = pack(
        &[],
        vec![
            model("minecraft:block/p", None, &[("all", "#missing")]),
            model("minecraft:block/bad", Some("block/p"), &[]),
            model("minecraft:block/good", Some("block/p"), &[("all", "stone")]),
        ],
        &["block/bad", "block/good"],
    );
    let r = analyze(p);
    assert_eq!(
        r.missing_texture_models,
        strings(&["minecraft:block/bad", "minecraft:block/p"])
    );
}

#[test]
fn parent_outside_pack_ends_chain() {
    let p = pack(
        &["minecraft:block/s"],
        vec![model("minecraft:block/m", Some("block/cube_all"), &[("all", "block/s")])],
        &["block/m"],
    );
    let r = analyze(p);
    assert!(r.unreferenced_textures.is_empty());
    assert!(r.cyclic_models.is_empty());
}

#[test]
fn catalogs_are_sorted() {
    let p = pack(
        &["minecraft:c", "minecraft:a", "minecraft:b"],
        vec![model("minecraft:z", None, &[]), model("minecraft:m", None, &[])],
        &[],
    );
    assert_eq!(p.textures, strings(&["minecraft:a", "minecraft:b", "minecraft:c"]));
    assert_eq!(p.models[0].path, "minecraft:m");
    assert_eq!(p.models[1].path, "minecraft:z");
}

#[test]
fn texture_values_are_read() {
    assert!(matches!(parse_texture_value("#missing"), TextureValue::Missing));
    assert!(matches!(parse_texture_value("#top"), TextureValue::Redirect(k) if k == "top"));
    assert!(matches!(parse_texture_value("block/a"), TextureValue::Texture(t) if t == "minecraft:block/a"));
    assert!(matches!(parse_texture_value("mod:item/b"), TextureValue::Texture(t) if t == "mod:item/b"));
    assert!(matches!(parse_texture_value(""), TextureValue::Texture(t) if t == "minecraft:"));
}

#[test]
fn paths_are_normalized() {
    assert_eq!(normalize_path("block/stone"), "minecraft:block/stone");
    assert_eq!(normalize_path("mymod:block/stone"), "mymod:block/stone");
    let m = model("minecraft:block/x", Some("block/y"), &[]);
    assert_eq!(m.parent.as_deref(), Some("minecraft:block/y"));
}

#[test]
fn engine_versions() {
    assert_eq!(PackMeta::new(15, None).minecraft_version(), "1.20 - 1.20.1");
    assert_eq!(PackMeta::new(1, None).minecraft_version(), "1.6.1 - 1.8.9");
    assert_eq!(PackMeta::new(10, None).minecraft_version(), "unknown");
    assert_eq!(PackMeta::new(10, None).engine_version(), None);
}

#[test]
fn statuses_in_order() {
    let p = Pack::new(
        PackMeta::new(99, Some("d".to_string())),
        strings(&["minecraft:t"]),
        vec![model("minecraft:block/m", None, &[("a", "#missing")])],
        vec![],
    );
    let r = analyze(p);
    let s = PackAdviser::new().statuses(&"packdir".to_string(), &r);
    assert_eq!(s.len(), 5);
    assert_eq!(s[0].path, "packdir");
    assert!(matches!(&s[0].status_type, PackAdviserStatusType::Notice(m) if m == "pack_format: 99 (unknown)"));
    assert!(matches!(
        &s[1].status_type,
        PackAdviserStatusType::Notice(m) if m == "pack_format is not in the version table"
    ));
    assert_eq!(s[2].path, "minecraft:t");
    assert!(matches!(&s[2].status_type, PackAdviserStatusType::Warn(m) if m == "Unused texture in model"));
    assert_eq!(s[3].path, "minecraft:block/m");
    assert!(matches!(&s[3].status_type, PackAdviserStatusType::Warn(m) if m == "Unreferenced model"));
    assert!(matches!(&s[4].status_type, PackAdviserStatusType::Warn(m) if m == "Textures contain #missing"));
}

#[test]
fn emoji_picks_by_support() {
    let e = Emoji::new("✨", "*");
    assert_eq!(e.string(true), "✨");
    assert_eq!(e.string(false), "*");
}

#[test]
fn notice_writes_format_in_decimal() {
    assert_eq!(notice(0, "x"), "pack_format: 0 (x)");
    assert_eq!(notice(15, "1.20 - 1.20.1"), "pack_format: 15 (1.20 - 1.20.1)");
    assert_eq!(notice(1234, ""), "pack_format: 1234 ()");
}

#[test]
fn catalog_paths_are_normalized() {
    let p = pack(&["block/b", "mod:block/a"], vec![model("block/m", None, &[])], &[]);
    assert_eq!(p.textures, strings(&["minecraft:block/b", "mod:block/a"]));
    assert_eq!(p.models[0].path, "minecraft:block/m");
}
