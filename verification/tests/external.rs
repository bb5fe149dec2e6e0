use usd_bevy::fspath::{extension_of, join_path, paths_agree};
use usd_bevy::materialx::asset::MaterialXAssetReader;
use usd_bevy::materialx::compiler::CompiledTexture;
use usd_bevy::materialx::diagnostic::{
    DiagnosticCode, MaterialXDiagnostic, MaterialXDiagnostics, Severity, HISTORY_CAPACITY,
};
use usd_bevy::materialx::external::{
    adapt_code, adapt_diagnostic, compile_external_materialx, core_value_to_vec4, document_limits,
    external_failure, find_external_materialx, is_srgb_colorspace, load_external_document, uses_normal, CoreCode, CoreDiagnostic,
    CoreLocation, CoreMaterial, CoreTexture, CoreUniform, CoreValue, DocumentPlan,
    ExternalMaterialXSource, LayerSpec, PrimSite,
};
use usd_bevy::materialx::material::{
    address_mode, decode_texture, graph_path, graph_uuid, load_texture, module_shader,
    texture_sampler, AddressMode, FilterMode, MaterialXPendingTextures,
    MaterialXTextureCache, TextureStep,
};
use usd_bevy::materialx::value::Lane;

fn texture(path: &str) -> CompiledTexture {
    CompiledTexture {
        path: path.into(),
        is_srgb: true,
        u_address_mode: "periodic".into(),
        v_address_mode: "periodic".into(),
        filter_type: "linear".into(),
    }
}

fn site(path: &str, layer: &str, references: &[&str]) -> PrimSite {
    PrimSite {
        path: path.into(),
        stack: Ok(vec![LayerSpec {
            layer: layer.into(),
            references: Ok(Some(references.iter().map(|r| r.to_string()).collect())),
        }]),
    }
}

fn source() -> ExternalMaterialXSource {
    ExternalMaterialXSource {
        document: "virtual/material.mtlx".into(),
        material_name: "M".into(),
    }
}

fn plain(code: CoreCode, message: &str) -> CoreDiagnostic {
    CoreDiagnostic {
        severity: Severity::Error,
        code,
        material: None,
        node: None,
        property: None,
        message: message.into(),
        location: None,
    }
}

fn core_material(uniforms: Vec<CoreUniform>, textures: Vec<CoreTexture>) -> CoreMaterial {
    CoreMaterial {
        graph_key: 42,
        wesl: "root".into(),
        uniforms,
        textures,
        blends: false,
        transmission: true,
        required_modules: vec!["pbrlib::mx_roughness_anisotropy".into()],
        diagnostics: vec![plain(CoreCode::StandardSurfaceApproximation, "approximate")],
    }
}

#[test]
fn compiles_document_and_texture_from_host_asset_reader() {
    const DOCUMENT: &str = r#"<materialx>
  <image name="I" type="color3">
    <input name="file" type="filename" value="texture.png" />
  </image>
  <standard_surface name="S" type="surfaceshader">
    <input name="base_color" type="color3" nodename="I" />
  </standard_surface>
  <surfacematerial name="M" type="material">
    <input name="surfaceshader" type="surfaceshader" nodename="S" />
  </surfacematerial>
</materialx>"#;
    match load_external_document(&source(), "/M", Some(Ok(DOCUMENT.as_bytes().to_vec())), false) {
        Ok(DocumentPlan::Parse(text)) => assert_eq!(text, DOCUMENT),
        other => panic!("the host's bytes are parsed, got {other:?}"),
    }
    let compiled = compile_external_materialx(
        core_material(
            vec![],
            vec![CoreTexture {
                resolved_path: "virtual/texture.png".into(),
                authored_colorspace: None,
                u_address_mode: "periodic".into(),
                v_address_mode: "periodic".into(),
                filter_type: "linear".into(),
            }],
        ),
        "/M",
    )
    .unwrap();

    assert_eq!(compiled.textures.len(), 1);
    assert!(compiled.textures[0].path.ends_with("virtual/texture.png"));
    assert!(!compiled.textures[0].is_srgb);
}

#[test]
fn compiled_documents_keep_what_the_renderer_needs() {
    let compiled = compile_external_materialx(
        core_material(
            vec![CoreUniform {
                name: "base".into(),
                scope: None,
                value: CoreValue::Float(0.5f32.to_bits()),
            }],
            vec![CoreTexture {
                resolved_path: "a.png".into(),
                authored_colorspace: Some("sRGB_Texture".into()),
                u_address_mode: "clamp".into(),
                v_address_mode: "mirror".into(),
                filter_type: "closest".into(),
            }],
        ),
        "/Looks/M",
    )
    .unwrap();
    assert_eq!(compiled.material, "/Looks/M");
    assert_eq!(compiled.graph_key, 42);
    assert!(compiled.transmission && !compiled.alpha_blend);
    assert_eq!(compiled.uniforms[0].x, Lane::Bits32(0.5f32.to_bits()));
    assert!(compiled.textures[0].is_srgb);
    assert_eq!(compiled.required_modules, ["pbrlib::mx_roughness_anisotropy"]);
    assert_eq!(compiled.diagnostics[0].code, DiagnosticCode::UnsupportedFeature);

    let failure = compile_external_materialx(
        core_material(
            vec![CoreUniform {
                name: "m".into(),
                scope: Some("Graph".into()),
                value: CoreValue::Other("matrix44".into()),
            }],
            vec![],
        ),
        "/M",
    )
    .unwrap_err();
    assert_eq!(failure.diagnostics.len(), 1);
    assert_eq!(failure.diagnostics[0].node.as_deref(), Some("Graph"));
    assert_eq!(failure.diagnostics[0].property.as_deref(), Some("m"));
    assert_eq!(
        failure.diagnostics[0].message,
        "MaterialX uniform type matrix44 does not fit the Bevy adapter's vec4 value slots"
    );
}

#[test]
fn ancestors_are_searched_for_a_document() {
    let sites = vec![
        site("/A/Looks/M", "/stage/root.usda", &[]),
        site("/A/Looks", "/stage/root.usda", &["./other.usda"]),
        site("/A", "/stage/root.usda", &["mat/Board.MTLX"]),
    ];
    let found = find_external_materialx(&sites, "/A/Looks/M", &|p: &str| {
        p == "/stage/mat/Board.MTLX"
    })
    .unwrap()
    .expect("binding ancestry contains a .mtlx reference");
    assert_eq!(found.material_name, "M");
    assert_eq!(found.document, "/stage/mat/Board.MTLX");

    let missing = find_external_materialx(&sites, "/A/Looks/M", &|_: &str| false).unwrap_err();
    assert_eq!(missing.code, DiagnosticCode::MissingAsset);
    assert_eq!(missing.node.as_deref(), Some("/A"));
    assert_eq!(missing.message, "referenced MaterialX document does not exist");

    let none = find_external_materialx(&vec![], "/A/Looks/M", &|_: &str| true).unwrap();
    assert!(none.is_none());
}

#[test]
fn two_documents_are_ambiguous() {
    let sites = vec![site("/M", "/s/root.usda", &["a.mtlx", "b.mtlx", "a.mtlx"])];
    let found = find_external_materialx(&sites, "/M", &|_: &str| true).unwrap_err();
    assert_eq!(found.code, DiagnosticCode::AmbiguousMaterial);
    assert_eq!(found.message, "2 MaterialX documents contribute at the same USD scope");
    let absolute = vec![site("/M", "/s/root.usda", &["/x/a.mtlx"])];
    let found = find_external_materialx(&absolute, "/M", &|_: &str| true).unwrap().unwrap();
    assert_eq!(found.document, "/x/a.mtlx");
}

#[test]
fn unreadable_layers_and_roots_are_refused() {
    let sites = vec![PrimSite { path: "/M".into(), stack: Err("broken".into()) }];
    let found = find_external_materialx(&sites, "/M", &|_: &str| true).unwrap_err();
    assert_eq!(found.code, DiagnosticCode::InvalidConnection);
    assert_eq!(found.message, "cannot inspect the USD prim stack: broken");
    let sites = vec![PrimSite {
        path: "/M".into(),
        stack: Ok(vec![LayerSpec { layer: "l".into(), references: Err("bad op".into()) }]),
    }];
    let found = find_external_materialx(&sites, "/M", &|_: &str| true).unwrap_err();
    assert_eq!(found.message, "cannot read the authored reference list: bad op");
    let found = find_external_materialx(&vec![], "/", &|_: &str| true).unwrap_err();
    assert_eq!(found.code, DiagnosticCode::MissingMaterial);
}

#[test]
fn documents_come_from_the_host_first() {
    assert!(matches!(load_external_document(&source(), "/M", None, true), Ok(DocumentPlan::Load)));
    assert!(matches!(
        load_external_document(&source(), "/M", Some(Err("no".into())), true),
        Ok(DocumentPlan::Load)
    ));
    let gone = load_external_document(&source(), "/M", Some(Err("no".into())), false).unwrap_err();
    assert_eq!(gone.code, DiagnosticCode::MissingAsset);
    assert_eq!(gone.message, "cannot read MaterialX document: no");
    let bytes = vec![b'a', 0xff];
    let expected = String::from_utf8(bytes.clone()).unwrap_err();
    let broken = load_external_document(&source(), "/M", Some(Ok(bytes)), false).unwrap_err();
    assert_eq!(broken.code, DiagnosticCode::InvalidDocument);
    assert_eq!(broken.message, format!("MaterialX document is not UTF-8: {expected}"));
}

#[test]
fn core_diagnostics_keep_their_place() {
    let mut d = plain(CoreCode::XmlSyntax, "unexpected end");
    d.location = Some(CoreLocation { document: None, line: 3, column: 14 });
    let adapted = adapt_diagnostic(&d, "/M");
    assert_eq!(adapted.message, "unexpected end (<MaterialX>:3:14)");
    assert_eq!(adapted.material, "/M");
    assert_eq!(adapted.code, DiagnosticCode::InvalidDocument);
    d.location = Some(CoreLocation { document: Some("m.mtlx".into()), line: 1, column: 2 });
    d.material = Some("Own".into());
    let adapted = adapt_diagnostic(&d, "/M");
    assert_eq!(adapted.message, "unexpected end (m.mtlx:1:2)");
    assert_eq!(adapted.material, "Own");
    let failure = external_failure(&vec![plain(CoreCode::MissingMaterial, "x")], "/M");
    assert_eq!(failure.diagnostics[0].code, DiagnosticCode::MissingMaterial);
    assert_eq!(adapt_code(CoreCode::ConnectionCycle), DiagnosticCode::ConnectionCycle);
    assert_eq!(adapt_code(CoreCode::ResourceLimit), DiagnosticCode::ResourceLimit);
}

#[test]
fn core_values_fill_a_slot() {
    let slot = core_value_to_vec4(&CoreValue::Color3(1, 2, 3)).unwrap();
    assert_eq!((slot.x, slot.y, slot.z), (Lane::Bits32(1), Lane::Bits32(2), Lane::Bits32(3)));
    assert_eq!(slot.w, Lane::Bits32(0));
    assert_eq!(core_value_to_vec4(&CoreValue::Integer(-4)).unwrap().x, Lane::Int(-4));
    let one = core_value_to_vec4(&CoreValue::Boolean(true)).unwrap();
    assert_eq!(one.x, Lane::Bits32(1.0f32.to_bits()));
    assert_eq!(core_value_to_vec4(&CoreValue::Color4(1, 2, 3, 4)).unwrap().w, Lane::Bits32(4));
}

#[test]
fn graph_handles_are_deterministic_and_namespaced() {
    assert_eq!(graph_uuid(7), graph_uuid(7));
    assert_ne!(graph_uuid(7), graph_uuid(8));
    assert_ne!(module_shader("generated::inline"), graph_uuid(7));
    assert_eq!(module_shader("generated::inline"), module_shader("generated::inline"));
    assert_ne!(module_shader("generated::inline"), module_shader("generated::other"));
    assert_eq!(graph_uuid(7) & 0xffff_ffff_ffff_ffff, 7);
    assert!(graph_path(0xabc).contains("0000000000000abc"));
}

/// A grey image of eight by eight pixels.
const GREY_JPEG: [u8; 141] = [
    255, 216, 255, 219, 0, 67, 0, 1, 1, 1, 1, 1, 1, 1, 1, 1, 1, 1, 1, 1,
    1, 1, 1, 1, 1, 1, 1, 1, 1, 1, 1, 1, 1, 1, 1, 1, 1, 1, 1, 1,
    1, 1, 1, 1, 1, 1, 1, 1, 1, 1, 1, 1, 1, 1, 1, 1, 1, 1, 1, 1,
    1, 1, 1, 1, 1, 1, 1, 1, 1, 1, 1, 255, 192, 0, 11, 8, 0, 8, 0, 8,
    1, 1, 17, 0, 255, 196, 0, 20, 0, 1, 0, 0, 0, 0, 0, 0, 0, 0, 0, 0,
    0, 0, 0, 0, 0, 0, 255, 196, 0, 20, 16, 1, 0, 0, 0, 0, 0, 0, 0, 0,
    0, 0, 0, 0, 0, 0, 0, 0, 255, 218, 0, 8, 1, 1, 0, 0, 63, 0, 63, 255,
    217,
];

#[test]
fn decodes_texture_from_host_asset_reader() {
    let reader = MaterialXAssetReader::new(|path: &str| {
        if path == "virtual.jpg" {
            Ok(GREY_JPEG.to_vec())
        } else {
            Err("missing".to_string())
        }
    });
    let jpeg = texture("virtual.jpg");
    let image = decode_texture(&jpeg, reader.read(&jpeg.path))
        .expect("host-provided JPEG should decode");
    assert_eq!((image.width(), image.height()), (8, 8));
    assert!(reader.contains("virtual.jpg") && !reader.contains("other.jpg"));
    let lost = texture("other.jpg");
    assert_eq!(
        decode_texture(&lost, reader.read(&lost.path)).unwrap_err(),
        "cannot read texture: missing"
    );
    assert_eq!(
        decode_texture(&texture("virtual.jpg"), Err("missing".into())).unwrap_err(),
        "cannot read texture: missing"
    );
    assert_eq!(
        decode_texture(&texture("virtual"), Ok(vec![1, 2, 3])).unwrap_err(),
        "texture has no usable file extension"
    );
    let broken = decode_texture(&texture("virtual.jpg"), Ok(vec![1, 2, 3])).unwrap_err();
    assert!(broken.starts_with("cannot decode texture: "), "{broken}");
}

#[test]
fn samplers_follow_the_authored_modes() {
    assert_eq!(address_mode("periodic"), AddressMode::Repeat);
    assert_eq!(address_mode("mirror"), AddressMode::MirrorRepeat);
    assert_eq!(address_mode("clamp"), AddressMode::ClampToEdge);
    let mut t = texture("a.png");
    assert_eq!(texture_sampler(&t).filter, FilterMode::Linear);
    t.filter_type = "closest".into();
    t.v_address_mode = "mirror".into();
    let s = texture_sampler(&t);
    assert_eq!(s.filter, FilterMode::Nearest);
    assert_eq!((s.u, s.v), (AddressMode::Repeat, AddressMode::MirrorRepeat));
}

#[test]
fn textures_are_decoded_once() {
    let mut cache: MaterialXTextureCache<u32> = MaterialXTextureCache::new();
    let mut pending: MaterialXPendingTextures<u32, u32> = MaterialXPendingTextures::new();
    let t = texture("a.png");
    match load_texture("/M", &t, Some(&cache), false, true, true) {
        TextureStep::Refuse(d) => {
            assert_eq!(d.code, DiagnosticCode::MissingAsset);
            assert_eq!(d.property.as_deref(), Some("a.png"));
        }
        other => panic!("refused, got {other:?}"),
    }
    assert!(matches!(
        load_texture("/M", &t, Some(&cache), true, true, true),
        TextureStep::Spawn
    ));
    cache.insert(texture("a.png"), 1);
    pending.insert(texture("a.png"), 10, 1, "/M".into());
    assert!(matches!(
        load_texture("/M", &t, Some(&cache), true, true, true),
        TextureStep::Reuse(1)
    ));
    let mut linear = texture("a.png");
    linear.is_srgb = false;
    assert!(cache.get(&linear).is_none());
    for i in 0..3 {
        pending.insert(texture("b.png"), 20 + i, 2, "/M".into());
    }
    let done = pending.take_completed(&vec![true, false, true, true]);
    let done: Vec<(u32, u32)> = done.iter().map(|d| (d.task, d.handle)).collect();
    assert_eq!(done, [(10, 1), (21, 2)]);
    let left: Vec<u32> = pending.pending.iter().map(|p| p.task).collect();
    assert_eq!(left, [20, 22]);
}

#[test]
fn the_history_keeps_the_newest() {
    let mut history = MaterialXDiagnostics::default();
    for i in 0..HISTORY_CAPACITY + 3 {
        history.push(MaterialXDiagnostic::warning(
            DiagnosticCode::MissingValue,
            "/M",
            None,
            None,
            &format!("{i}"),
        ));
    }
    let kept = history.iter();
    assert_eq!(kept.len(), HISTORY_CAPACITY);
    assert_eq!(kept[0].message, "3");
    assert_eq!(kept[HISTORY_CAPACITY - 1].message, format!("{}", HISTORY_CAPACITY + 2));
    assert_eq!(kept[0].to_line(), "/M: MissingValue: 3");
}

#[test]
fn file_paths_compare_by_their_parts() {
    assert_eq!(extension_of("a/b.tar.gz").as_deref(), Some("gz"));
    assert_eq!(extension_of("a/.hidden"), None);
    assert_eq!(extension_of("a/b.png/").as_deref(), Some("png"));
    assert_eq!(join_path("/a/b", "c"), "/a/b/c");
    assert_eq!(join_path("/a/b", "/c"), "/c");
    assert_eq!(join_path("", "c"), "c");
    assert!(paths_agree("/a//b/", "/a/./b"));
    assert!(!paths_agree("/a/b", "a/b"));
}

#[test]
fn colour_spaces_are_known_in_any_case() {
    for name in ["srgb", "SRGB", "sRGB_Texture", "srgbtexture", "SrgbTexture"] {
        assert!(is_srgb_colorspace(name), "{name}");
    }
    for name in ["", "srgb ", " srgb", "srgb_displayp3", "lin_rec709", "raw"] {
        assert!(!is_srgb_colorspace(name), "{name}");
    }
}

#[test]
fn documents_are_compiled_within_limits() {
    let limits = document_limits();
    assert_eq!((limits.max_nodes, limits.max_depth), (1024, 256));
    assert_eq!((limits.max_uniforms, limits.max_textures), (64, 4));
    assert!(!uses_normal(false, false, false));
    for bits in 1..8 {
        assert!(uses_normal(bits & 1 != 0, bits & 2 != 0, bits & 4 != 0));
    }
}
