use usd_bevy::materialx::compiler::{compile_materialx, has_materialx_terminal, CompileFailure};
use usd_bevy::materialx::diagnostic::{DiagnosticCode, Severity};
use usd_bevy::materialx::registry::{
    host_standard_surface, Coverage, Manifest, MaterialXRegistry, Port, Summary, TranslatorModule, Upstream,
};
use usd_bevy::materialx::material::{
    decode_texture, graph_path, graph_uuid, load_texture, plan_material, register_shaders,
    MaterialXTextureCache, TextureStep,
};
use usd_bevy::materialx::value::{parse_default, Lane, Slot};
use usd_bevy::route::material::{
    fallback_preview, material_action, materialx_step, MaterialAction, MaterialXStep,
};
use usd_bevy::stage::{Attribute, Authored, Prim, Stage, Value};

fn port(name: &str, kind: &str, wesl: Option<&str>, default: Option<&str>) -> Port {
    Port {
        name: name.into(),
        materialx_type: kind.into(),
        wesl_type: wesl.map(|w| w.into()),
        default_value: default.map(|d| d.into()),
        uniform: false,
    }
}

fn node(id: &str, status: &str, symbol: Option<&str>, inputs: Vec<Port>, outputs: Vec<Port>) -> Coverage {
    Coverage {
        nodedef: id.into(),
        node: id.into(),
        node_group: "math".into(),
        source_kind: "inline".into(),
        source: None,
        symbol: symbol.map(|s| s.into()),
        module: symbol.map(|_| "generated::inline".into()),
        status: status.into(),
        reason: None,
        inputs,
        outputs,
    }
}

fn descriptors() -> Vec<Coverage> {
    let color = |name: &str| port(name, "color3", Some("vec3f"), Some("0.0, 0.0, 0.0"));
    let out = |kind: &str| vec![port("out", kind, None, None)];
    vec![
        node(
            "ND_add_color3",
            "translated",
            Some("mx_add_color3"),
            vec![color("in1"), color("in2")],
            out("color3"),
        ),
        node(
            "ND_add_float",
            "translated",
            Some("mx_add_float"),
            vec![
                port("in1", "float", Some("f32"), Some("0.0")),
                port("in2", "float", Some("f32"), Some("0.0")),
            ],
            out("float"),
        ),
        node(
            "ND_image_color3",
            "translated",
            Some("mx_image_color3"),
            vec![
                port("file", "filename", None, Some("")),
                color("default"),
                port("texcoord", "vector2", Some("vec2f"), Some("0.0, 0.0")),
            ],
            out("color3"),
        ),
        node("ND_texcoord_vector2", "host_only", None, vec![], out("vector2")),
        node(
            "ND_separate2",
            "translated",
            Some("mx_separate2"),
            vec![],
            vec![port("outx", "float", None, None), port("outy", "float", None, None)],
        ),
        node("ND_geompropvalue", "unsupported", None, vec![], out("color3")),
        node(
            "ND_file_reader",
            "translated",
            Some("mx_file_reader"),
            vec![port("file", "filename", None, None)],
            out("color3"),
        ),
        node(
            "ND_matrix",
            "translated",
            Some("mx_matrix"),
            vec![port("m", "matrix44", Some("mat4x4f"), Some("1"))],
            out("color3"),
        ),
        node(
            "ND_needs_value",
            "translated",
            Some("mx_needs_value"),
            vec![port("in", "color3", Some("vec3f"), None)],
            out("color3"),
        ),
        node(
            "ND_bad_default",
            "translated",
            Some("mx_bad_default"),
            vec![port("in", "color3", Some("vec3f"), Some("0.1, oops, 0.3"))],
            out("color3"),
        ),
    ]
}

fn registry() -> MaterialXRegistry {
    let manifest = Manifest {
        schema_version: 1,
        generator: "materialx-wesl".into(),
        upstream: Upstream {
            project: "MaterialX".into(),
            version: "1.39.5".into(),
            commit: "0".into(),
            source_url: "https://materialx.org".into(),
        },
        summary: Summary {
            nodedefs: 693,
            inline_generated: 0,
            file_backed: 0,
            generator_context: 0,
            nodegraphs: 0,
            host_only: 0,
            unsupported_upstream: 0,
        },
        nodes: descriptors(),
    };
    let modules = vec![TranslatorModule {
        module: "generated::inline".into(),
        asset_path: "embedded://materialx/generated/inline.wesl".into(),
        source: [
            "fn mx_add_color3(a: vec3f, b: vec3f) -> vec3f { return a + b; }",
            "fn mx_add_float(a: f32, b: f32) -> f32 { return a + b; }",
            "fn mx_image_color3(default_value: vec3f, uv: vec2f) -> vec3f { return default_value; }",
            "fn mx_separate2() -> vec2f { return vec2f(0.0); }",
            "fn mx_file_reader() -> vec3f { return vec3f(0.0); }",
            "fn mx_matrix(m: mat4x4f) -> vec3f { return m[0].xyz; }",
            "fn mx_needs_value(a: vec3f) -> vec3f { return a; }",
            "fn mx_bad_default(a: vec3f) -> vec3f { return a; }",
        ]
        .join("\n"),
    }];
    let registry = MaterialXRegistry::from_manifest(manifest, modules);
    assert!(registry.is_validated());
    registry
}

fn prim<'a>(stage: &'a mut Stage, path: &str) -> &'a mut Prim {
    if let Some(i) = stage.prims.iter().position(|p| p.path == path) {
        return &mut stage.prims[i];
    }
    stage.prims.push(Prim::new(path, None));
    stage.prims.last_mut().unwrap()
}

fn attribute<'a>(stage: &'a mut Stage, path: &str, name: &str) -> &'a mut Attribute {
    let prim = prim(stage, path);
    if let Some(i) = prim.attributes.iter().position(|a| a.name == name) {
        return &mut prim.attributes[i];
    }
    prim.attributes.push(Attribute::new(name));
    prim.attributes.last_mut().unwrap()
}

fn set(stage: &mut Stage, path: &str, name: &str, value: fn() -> Value) {
    let authored = || Authored { shown: format!("{:?}", value()), value: value() };
    let attribute = attribute(stage, path, name);
    attribute.at_default = Ok(Some(authored()));
    attribute.at_time = Ok(Some(authored()));
}

fn set_value(stage: &mut Stage, path: &str, name: &str, make: &dyn Fn() -> Value) {
    let attribute = attribute(stage, path, name);
    let shown = format!("{:?}", make());
    attribute.at_default = Ok(Some(Authored { shown: shown.clone(), value: make() }));
    attribute.at_time = Ok(Some(Authored { shown, value: make() }));
}

fn connect(stage: &mut Stage, path: &str, name: &str, targets: &[&str]) {
    attribute(stage, path, name).connections = Ok(targets.iter().map(|t| t.to_string()).collect());
}

fn define(stage: &mut Stage, path: &str, kind: &str) {
    prim(stage, path).prim_type = Ok(Some(kind.into()));
}

fn define_shader(stage: &mut Stage, path: &str, id: &str) {
    define(stage, path, "Shader");
    let id = id.to_string();
    set_value(stage, path, "info:id", &|| Value::Token(id.clone()));
}

fn color(r: f32, g: f32, b: f32) -> Value {
    Value::Vec3f(r.to_bits(), g.to_bits(), b.to_bits())
}

fn set_color(stage: &mut Stage, path: &str, name: &str, rgb: [f32; 3]) {
    set_value(stage, path, name, &|| color(rgb[0], rgb[1], rgb[2]));
}

fn lane(lane: &Lane) -> f32 {
    match lane {
        Lane::Bits32(b) => f32::from_bits(*b),
        Lane::Bits64(b) => f64::from_bits(*b) as f32,
        Lane::Int(n) => *n as f32,
        Lane::Literal(text) => text.parse().unwrap(),
    }
}

fn slots(uniforms: &[Slot]) -> Vec<[f32; 4]> {
    uniforms.iter().map(|s| [lane(&s.x), lane(&s.y), lane(&s.z), lane(&s.w)]).collect()
}

/// A material with one Standard Surface of a constant base colour.
fn constant_surface() -> (Stage, &'static str) {
    let mut stage = Stage { prims: vec![], absent_files: vec![] };
    define(&mut stage, "/Mat", "Material");
    define_shader(&mut stage, "/Mat/Surface", "ND_standard_surface_surfaceshader");
    connect(&mut stage, "/Mat", "outputs:mtlx:surface", &["/Mat/Surface.outputs:out"]);
    set_color(&mut stage, "/Mat/Surface", "inputs:base_color", [0.2, 0.4, 0.6]);
    (stage, "/Mat")
}

/// The base colour comes from a sum of two colours.
fn arithmetic() -> (Stage, &'static str) {
    let (mut stage, material) = constant_surface();
    define_shader(&mut stage, "/Mat/Add", "ND_add_color3");
    set_color(&mut stage, "/Mat/Add", "inputs:in1", [0.1, 0.2, 0.3]);
    set_color(&mut stage, "/Mat/Add", "inputs:in2", [0.3, 0.2, 0.1]);
    connect(&mut stage, "/Mat/Surface", "inputs:base_color", &["/Mat/Add.outputs:out"]);
    (stage, material)
}

/// The base colour comes from a sampled image.
fn image_uv0() -> (Stage, &'static str) {
    let (mut stage, material) = constant_surface();
    define_shader(&mut stage, "/Mat/Image", "ND_image_color3");
    define_shader(&mut stage, "/Mat/Uv", "ND_texcoord_vector2");
    set(&mut stage, "/Mat/Image", "inputs:file", || Value::Asset {
        authored: "./wood.png".into(),
        resolved: Some("/textures/wood.png".into()),
    });
    connect(&mut stage, "/Mat/Image", "inputs:texcoord", &["/Mat/Uv.outputs:out"]);
    connect(&mut stage, "/Mat/Surface", "inputs:base_color", &["/Mat/Image.outputs:out"]);
    (stage, material)
}

/// Only the universal terminal is connected.
fn universal_fallback() -> (Stage, &'static str) {
    let (mut stage, material) = constant_surface();
    connect(&mut stage, "/Mat", "outputs:mtlx:surface", &[]);
    connect(&mut stage, "/Mat", "outputs:surface", &["/Mat/Surface.outputs:out"]);
    (stage, material)
}

/// Base colour and emission colour share one node.
fn shared_upstream() -> (Stage, &'static str) {
    let (mut stage, material) = arithmetic();
    connect(&mut stage, "/Mat/Surface", "inputs:emission_color", &["/Mat/Add.outputs:out"]);
    (stage, material)
}

fn failure(stage: &Stage, material: &str) -> CompileFailure {
    compile_materialx(stage, material, &registry()).unwrap_err()
}

fn reports(stage: &Stage, material: &str, code: DiagnosticCode) {
    let failure = failure(stage, material);
    assert!(
        failure.diagnostics.iter().any(|d| d.code == code),
        "expected {code:?}, got {:?}",
        failure.diagnostics
    );
    assert_eq!(failure.diagnostics.len(), 1);
    assert_eq!(failure.diagnostics[0].severity, Severity::Error);
}

#[test]
fn constant_standard_surface_compiles_to_runtime_uniforms() {
    let (stage, material) = constant_surface();
    let compiled = compile_materialx(&stage, material, &registry()).unwrap();
    assert!(compiled.wesl.contains("materialx_graph"));
    assert!(compiled.wesl.contains("pbr_input.material.base_color"));
    assert!(slots(&compiled.uniforms).contains(&[0.2, 0.4, 0.6, 0.0]));
    assert!(compiled.required_modules.is_empty());
    compiled
        .wesl
        .parse::<wesl::syntax::TranslationUnit>()
        .expect("generated root is valid WESL syntax");
}

#[test]
fn arithmetic_is_lowered_in_descriptor_input_order() {
    let (stage, material) = arithmetic();
    let compiled = compile_materialx(&stage, material, &registry()).unwrap();
    assert!(compiled.wesl.contains("mx_add_color3("));
    assert_eq!(compiled.required_modules, ["generated::inline"]);
    // The base weight takes the first slot, so the two colours follow it.
    assert!(compiled.wesl.contains(
        "    let mx_node_0 = mx_add_color3(materialx.values[1].xyz, materialx.values[2].xyz);"
    ));
    let values = slots(&compiled.uniforms);
    assert_eq!(values[1], [0.1, 0.2, 0.3, 0.0]);
    assert_eq!(values[2], [0.3, 0.2, 0.1, 0.0]);
}

#[test]
fn mtlx_terminal_wins_over_universal() {
    let (mut stage, material) = constant_surface();
    define_shader(&mut stage, "/Mat/Bad", "NotMaterialX");
    connect(&mut stage, "/Mat", "outputs:surface", &["/Mat/Bad.outputs:out"]);
    assert!(compile_materialx(&stage, material, &registry()).is_ok());
}

#[test]
fn universal_terminal_is_a_valid_fallback() {
    let (mut stage, material) = constant_surface();
    connect(&mut stage, "/Mat", "outputs:mtlx:surface", &[]);
    connect(&mut stage, "/Mat", "outputs:surface", &["/Mat/Surface.outputs:out"]);
    assert!(compile_materialx(&stage, material, &registry()).is_ok());
}

#[test]
fn cycles_are_diagnostics() {
    let (mut stage, material) = constant_surface();
    define_shader(&mut stage, "/Mat/A", "ND_add_color3");
    define_shader(&mut stage, "/Mat/B", "ND_add_color3");
    connect(&mut stage, "/Mat/A", "inputs:in1", &["/Mat/B.outputs:out"]);
    connect(&mut stage, "/Mat/B", "inputs:in1", &["/Mat/A.outputs:out"]);
    connect(&mut stage, "/Mat/Surface", "inputs:base_color", &["/Mat/A.outputs:out"]);
    let failure = failure(&stage, material);
    assert!(failure.diagnostics.iter().any(|d| d.code == DiagnosticCode::ConnectionCycle));
    assert_eq!(
        failure.to_line(),
        "/Mat: ConnectionCycle: cycle detected while lowering MaterialX connections \
         [node /Mat/A] [property /Mat/A.outputs:out]"
    );
}

#[test]
fn text_fixtures_cover_the_first_vertical_slice() {
    let registry = registry();
    for (name, (stage, material)) in [
        ("constant_standard_surface.usda", constant_surface()),
        ("arithmetic.usda", arithmetic()),
        ("image_uv0.usda", image_uv0()),
        ("universal_fallback.usda", universal_fallback()),
        ("shared_upstream.usda", shared_upstream()),
    ] {
        let compiled = compile_materialx(&stage, material, &registry)
            .unwrap_or_else(|error| panic!("{name}: {}", error.to_line()));
        compiled
            .wesl
            .parse::<wesl::syntax::TranslationUnit>()
            .unwrap_or_else(|error| panic!("{name}: invalid generated WESL: {error}"));
    }

    let (stage, material) = shared_upstream();
    let compiled = compile_materialx(&stage, material, &registry).unwrap();
    assert_eq!(compiled.wesl.matches("mx_add_color3(").count(), 1);
    let (stage, material) = image_uv0();
    let compiled = compile_materialx(&stage, material, &registry).unwrap();
    assert_eq!(compiled.textures.len(), 1);
    assert!(compiled.wesl.contains("mx_image_color3("));
}

#[test]
fn invalid_text_fixtures_report_specific_diagnostics() {
    let (mut cycle, _) = constant_surface();
    define_shader(&mut cycle, "/Mat/A", "ND_add_color3");
    connect(&mut cycle, "/Mat/A", "inputs:in1", &["/Mat/A.outputs:out"]);
    connect(&mut cycle, "/Mat/Surface", "inputs:base_color", &["/Mat/A.outputs:out"]);

    let (mut ambiguous, _) = arithmetic();
    define_shader(&mut ambiguous, "/Mat/Other", "ND_add_color3");
    connect(
        &mut ambiguous,
        "/Mat/Surface",
        "inputs:base_color",
        &["/Mat/Add.outputs:out", "/Mat/Other.outputs:out"],
    );

    let (mut unknown, _) = constant_surface();
    define_shader(&mut unknown, "/Mat/Odd", "ND_not_in_registry");
    connect(&mut unknown, "/Mat/Surface", "inputs:base_color", &["/Mat/Odd.outputs:out"]);

    let (mut mismatch, _) = constant_surface();
    define_shader(&mut mismatch, "/Mat/Float", "ND_add_float");
    connect(&mut mismatch, "/Mat/Surface", "inputs:base_color", &["/Mat/Float.outputs:out"]);

    let (mut missing, _) = image_uv0();
    set(&mut missing, "/Mat/Image", "inputs:file", || Value::Asset {
        authored: "./gone.png".into(),
        resolved: None,
    });

    for (stage, code) in [
        (cycle, DiagnosticCode::ConnectionCycle),
        (ambiguous, DiagnosticCode::AmbiguousConnection),
        (unknown, DiagnosticCode::UnknownNodeDef),
        (mismatch, DiagnosticCode::TypeMismatch),
        (missing, DiagnosticCode::MissingAsset),
    ] {
        reports(&stage, "/Mat", code);
    }
}

#[test]
fn every_terminal_problem_has_its_diagnostic() {
    let (mut none, material) = constant_surface();
    connect(&mut none, "/Mat", "outputs:mtlx:surface", &[]);
    reports(&none, material, DiagnosticCode::MissingTerminal);

    let (mut two, material) = constant_surface();
    connect(
        &mut two,
        "/Mat",
        "outputs:mtlx:surface",
        &["/Mat/Surface.outputs:out", "/Mat/Surface.outputs:other"],
    );
    let found = failure(&two, material);
    assert_eq!(found.diagnostics[0].code, DiagnosticCode::AmbiguousConnection);
    assert_eq!(
        found.diagnostics[0].message,
        "surface terminal has 2 composed sources; exactly one is required"
    );

    let (mut prim_target, material) = constant_surface();
    connect(&mut prim_target, "/Mat", "outputs:mtlx:surface", &["/Mat/Surface"]);
    reports(&prim_target, material, DiagnosticCode::InvalidConnection);

    let (mut input_target, material) = constant_surface();
    connect(&mut input_target, "/Mat", "outputs:mtlx:surface", &["/Mat/Surface.inputs:base"]);
    let found = failure(&input_target, material);
    assert_eq!(
        found.diagnostics[0].message,
        "surface terminal must connect to a shader output"
    );

    let (mut unreadable, material) = constant_surface();
    attribute(&mut unreadable, "/Mat", "outputs:mtlx:surface").connections =
        Err("layer is damaged".into());
    let found = failure(&unreadable, material);
    assert_eq!(
        found.diagnostics[0].message,
        "failed to read composed USD property: layer is damaged"
    );

    // A property path is no material.
    let (stage, _) = constant_surface();
    let found = failure(&stage, "/Mat.outputs");
    assert_eq!(
        found.diagnostics[0].message,
        "invalid USD path: Cannot append property to property path"
    );
}

#[test]
fn surface_materials_are_looked_through() {
    let (mut stage, material) = constant_surface();
    define_shader(&mut stage, "/Mat/Wrapper", "ND_surfacematerial");
    connect(&mut stage, "/Mat", "outputs:mtlx:surface", &["/Mat/Wrapper.outputs:out"]);
    reports(&stage, material, DiagnosticCode::MissingValue);
    connect(
        &mut stage,
        "/Mat/Wrapper",
        "inputs:surfaceshader",
        &["/Mat/Surface.outputs:out"],
    );
    assert!(compile_materialx(&stage, material, &registry()).is_ok());
    connect(
        &mut stage,
        "/Mat/Wrapper",
        "inputs:surfaceshader",
        &["/Mat/Surface.outputs:out", "/Mat/Surface.outputs:b"],
    );
    reports(&stage, material, DiagnosticCode::AmbiguousConnection);
}

#[test]
fn every_node_problem_has_its_diagnostic() {
    let with = |id: &str, output: &str| {
        let (mut stage, _) = constant_surface();
        define_shader(&mut stage, "/Mat/N", id);
        connect(
            &mut stage,
            "/Mat/Surface",
            "inputs:base_color",
            &[format!("/Mat/N.{output}").as_str()],
        );
        stage
    };
    reports(&with("ND_separate2", "outputs:outz"), "/Mat", DiagnosticCode::UnknownOutput);
    reports(&with("ND_geompropvalue", "outputs:out"), "/Mat", DiagnosticCode::UnsupportedFeature);
    let host_only = failure(&with("ND_file_reader", "outputs:out"), "/Mat");
    assert_eq!(
        host_only.diagnostics[0].message,
        "host-only input on ND_file_reader needs special lowering"
    );
    let matrix = failure(&with("ND_matrix", "outputs:out"), "/Mat");
    assert_eq!(matrix.diagnostics[0].code, DiagnosticCode::TypeMismatch);
    assert_eq!(
        matrix.diagnostics[0].message,
        "MaterialX default type matrix44 is not GPU-uniform compatible"
    );
    reports(&with("ND_needs_value", "outputs:out"), "/Mat", DiagnosticCode::MissingValue);
    let bad = failure(&with("ND_bad_default", "outputs:out"), "/Mat");
    assert_eq!(
        bad.diagnostics[0].message,
        "invalid color3 default \"0.1, oops, 0.3\": invalid float literal"
    );
    reports(&with("ND_add_color3", "other"), "/Mat", DiagnosticCode::InvalidConnection);
    reports(&with("ND_add_color3", "inputs:in1"), "/Mat", DiagnosticCode::InvalidConnection);

    let mut external = with("ND_add_color3", "outputs:out");
    set(&mut external, "/Mat/N", "info:implementationSource", || {
        Value::Token("sourceAsset".into())
    });
    let found = failure(&external, "/Mat");
    assert_eq!(found.diagnostics[0].code, DiagnosticCode::UnsupportedImplementation);
    assert_eq!(
        found.diagnostics[0].message,
        "implementationSource \"sourceAsset\" is not a registry id"
    );

    let mut nameless = with("ND_add_color3", "outputs:out");
    set(&mut nameless, "/Mat/N", "info:id", || Value::Bool(true));
    reports(&nameless, "/Mat", DiagnosticCode::UnknownNodeDef);
}

#[test]
fn interfaces_are_followed() {
    let (mut stage, material) = arithmetic();
    define(&mut stage, "/Mat/Graph", "NodeGraph");
    connect(&mut stage, "/Mat/Graph", "outputs:color", &["/Mat/Add.outputs:out"]);
    connect(&mut stage, "/Mat/Surface", "inputs:base_color", &["/Mat/Graph.outputs:color"]);
    assert!(compile_materialx(&stage, material, &registry()).is_ok());
    connect(&mut stage, "/Mat/Graph", "outputs:color", &[]);
    reports(&stage, material, DiagnosticCode::InvalidConnection);
    connect(
        &mut stage,
        "/Mat/Graph",
        "outputs:color",
        &["/Mat/Add.outputs:out", "/Mat/Add.outputs:b"],
    );
    reports(&stage, material, DiagnosticCode::AmbiguousConnection);
}

#[test]
fn images_are_limited_to_four() {
    let (mut stage, material) = constant_surface();
    let mut previous = "/Mat/Image0.outputs:out".to_string();
    for i in 0..5 {
        let path = format!("/Mat/Image{i}");
        define_shader(&mut stage, &path, "ND_image_color3");
        set(&mut stage, &path, "inputs:file", || Value::Text("wood.png".into()));
        if i > 0 {
            let add = format!("/Mat/Sum{i}");
            define_shader(&mut stage, &add, "ND_add_color3");
            connect(&mut stage, &add, "inputs:in1", &[previous.as_str()]);
            connect(&mut stage, &add, "inputs:in2", &[format!("{path}.outputs:out").as_str()]);
            previous = format!("{add}.outputs:out");
        }
    }
    connect(&mut stage, "/Mat/Surface", "inputs:base_color", &["/Mat/Sum3.outputs:out"]);
    let compiled = compile_materialx(&stage, material, &registry()).unwrap();
    assert_eq!(compiled.textures.len(), 4);
    for i in 0..4 {
        assert!(compiled.wesl.contains(&format!("var materialx_texture_{i}: texture_2d<f32>;")));
        assert!(compiled
            .wesl
            .contains(&format!("@binding({}) var materialx_sampler_{i}: sampler;", 2 + 2 * i)));
    }
    connect(&mut stage, "/Mat/Surface", "inputs:base_color", &["/Mat/Sum4.outputs:out"]);
    reports(&stage, material, DiagnosticCode::ResourceLimit);
}

#[test]
fn uniforms_are_limited_to_sixty_four() {
    let (mut stage, material) = constant_surface();
    let mut previous = "/Mat/Add0.outputs:out".to_string();
    define_shader(&mut stage, "/Mat/Add0", "ND_add_color3");
    for i in 1..80 {
        let path = format!("/Mat/Add{i}");
        define_shader(&mut stage, &path, "ND_add_color3");
        connect(&mut stage, &path, "inputs:in1", &[previous.as_str()]);
        previous = format!("{path}.outputs:out");
    }
    connect(&mut stage, "/Mat/Surface", "inputs:base_color", &[previous.as_str()]);
    let found = failure(&stage, material);
    assert_eq!(found.diagnostics[0].code, DiagnosticCode::ResourceLimit);
    assert_eq!(
        found.diagnostics[0].message,
        "first slice supports at most 64 uniform values"
    );
}

#[test]
fn texture_files_are_checked() {
    let (mut stage, material) = image_uv0();
    let compiled = compile_materialx(&stage, material, &registry()).unwrap();
    assert_eq!(compiled.textures[0].path, "/textures/wood.png");
    assert!(compiled.textures[0].is_srgb);
    assert_eq!(compiled.textures[0].u_address_mode, "periodic");
    assert_eq!(compiled.textures[0].filter_type, "linear");
    stage.absent_files.push("/textures/wood.png".into());
    let found = failure(&stage, material);
    assert_eq!(found.diagnostics[0].code, DiagnosticCode::MissingAsset);
    assert_eq!(
        found.diagnostics[0].message,
        "resolved texture asset does not exist: /textures/wood.png"
    );

    let (mut relative, material) = image_uv0();
    set(&mut relative, "/Mat/Image", "inputs:file", || Value::Text("wood.png".into()));
    relative.absent_files.push("wood.png".into());
    assert!(compile_materialx(&relative, material, &registry()).is_ok());

    let (mut empty, material) = image_uv0();
    attribute(&mut empty, "/Mat/Image", "inputs:file").at_time = Ok(None);
    assert_eq!(failure(&empty, material).diagnostics[0].message, "image node has no texture asset");

    let (mut odd, material) = image_uv0();
    set(&mut odd, "/Mat/Image", "inputs:file", || Value::Bool(true));
    reports(&odd, material, DiagnosticCode::TypeMismatch);

    let (mut connected, material) = image_uv0();
    connect(&mut connected, "/Mat/Image", "inputs:file", &["/Mat/Uv.outputs:out"]);
    reports(&connected, material, DiagnosticCode::UnsupportedFeature);
}

#[test]
fn changing_values_keeps_the_source_and_the_key() {
    let registry = registry();
    let (mut a, material) = image_uv0();
    set_color(&mut a, "/Mat/Surface", "inputs:emission_color", [0.1, 0.1, 0.1]);
    let (mut b, _) = image_uv0();
    set_color(&mut b, "/Mat/Surface", "inputs:emission_color", [0.9, 0.2, 0.4]);
    set(&mut b, "/Mat/Image", "inputs:file", || Value::Text("stone.png".into()));
    let x = compile_materialx(&a, material, &registry).unwrap();
    let y = compile_materialx(&b, material, &registry).unwrap();
    assert_eq!(x.wesl, y.wesl);
    assert_eq!(x.graph_key, y.graph_key);
    assert_ne!(x.textures[0].path, y.textures[0].path);
    assert_ne!(slots(&x.uniforms), slots(&y.uniforms));
    let (c, material) = arithmetic();
    let z = compile_materialx(&c, material, &registry).unwrap();
    assert_ne!(x.graph_key, z.graph_key);
}

#[test]
fn authored_opacity_and_normal_change_the_source() {
    let (mut stage, material) = constant_surface();
    let plain = compile_materialx(&stage, material, &registry()).unwrap();
    assert!(!plain.alpha_blend && !plain.transmission);
    assert_eq!(plain.diagnostics.len(), 1);
    assert_eq!(plain.diagnostics[0].severity, Severity::Warning);
    assert!(!plain.wesl.contains("pbr_input.N"));
    set_color(&mut stage, "/Mat/Surface", "inputs:opacity", [0.5, 0.5, 0.5]);
    set_color(&mut stage, "/Mat/Surface", "inputs:normal", [0.0, 0.0, 1.0]);
    let rich = compile_materialx(&stage, material, &registry()).unwrap();
    assert!(rich.alpha_blend);
    assert_eq!(rich.diagnostics.len(), 2);
    assert!(rich.wesl.contains("STANDARD_MATERIAL_FLAGS_ALPHA_MODE_BLEND;\n"));
    assert!(rich.wesl.contains("    pbr_input.N = normalize(mx.normal);\n"));
    assert!(rich.wesl.contains("dot(materialx.values[6].xyz, vec3f(0.299, 0.587, 0.114))"));
}

#[test]
fn terminals_decide_the_routing() {
    let registry = registry();
    let (stage, material) = constant_surface();
    assert!(has_materialx_terminal(&stage, material, &registry));
    let (stage, material) = universal_fallback();
    assert!(has_materialx_terminal(&stage, material, &registry));
    let (mut stage, material) = universal_fallback();
    set(&mut stage, "/Mat/Surface", "info:id", || Value::Token("UsdPreviewSurface".into()));
    assert!(!has_materialx_terminal(&stage, material, &registry));
    define(&mut stage, "/Mat/Surface", "NodeGraph");
    assert!(has_materialx_terminal(&stage, material, &registry));
    let (mut stage, material) = universal_fallback();
    connect(&mut stage, "/Mat", "outputs:surface", &[]);
    assert!(!has_materialx_terminal(&stage, material, &registry));
}

#[test]
fn bundled_registry_has_expected_provenance_and_nodes() {
    let registry = registry();
    assert_eq!(registry.schema_version(), 1);
    assert_eq!(registry.upstream().version, "1.39.5");
    assert_eq!(registry.summary().nodedefs, 693);
    assert!(registry.node("ND_add_color3").is_some());
    assert_eq!(
        registry
            .node("ND_standard_surface_surfaceshader")
            .unwrap()
            .status,
        "host_pbr"
    );
    assert_eq!(registry.generator(), "materialx-wesl");
    assert_eq!(registry.len(), 11);
    assert!(!registry.is_empty());
    assert!(registry.node("ND_missing").is_none());
}

#[test]
fn every_callable_descriptor_resolves_to_a_bundled_module_and_symbol() {
    let registry = registry();
    let mut callable = 0;
    for known in descriptors() {
        let node = registry.node(&known.nodedef).unwrap();
        if !node.callable() {
            continue;
        }
        callable += 1;
        let module = node.module.as_deref().unwrap();
        let symbol = node.symbol.as_deref().unwrap();
        let source = registry
            .translator_modules()
            .iter()
            .find(|m| m.module == module)
            .map(|m| m.source.as_str())
            .unwrap();
        assert!(
            source.contains(&format!("fn {symbol}(")),
            "{} -> {module}::{symbol}",
            node.nodedef
        );
    }
    assert_eq!(callable, 8);
    assert!(registry.is_complete());
}

#[test]
fn registries_without_a_called_symbol_are_not_complete() {
    let whole = registry();
    let manifest = |nodes| Manifest {
        schema_version: 1,
        generator: String::new(),
        upstream: whole.upstream().clone(),
        summary: whole.summary().clone(),
        nodes,
    };
    let module = |source: &str| TranslatorModule {
        module: "generated::inline".into(),
        asset_path: String::new(),
        source: source.into(),
    };
    let add = || vec![node("ND_add", "composed", Some("mx_add"), vec![], vec![])];
    let complete = |nodes, modules| {
        let registry = MaterialXRegistry::from_manifest(manifest(nodes), modules);
        assert!(registry.is_validated());
        registry.is_complete()
    };
    assert!(complete(add(), vec![module("fn mx_add() {}")]));
    assert!(!complete(add(), vec![module("fn mx_add2() {}")]));
    assert!(!complete(add(), vec![]));
    assert!(complete(vec![node("ND_host", "host_only", None, vec![], vec![])], vec![]));
}

#[test]
fn standard_surface_inputs_have_defaults_that_parse() {
    let surface = host_standard_surface();
    assert_eq!(surface.nodedef, "ND_standard_surface_surfaceshader");
    assert_eq!(surface.status, "host_pbr");
    assert!(surface.module.is_none() && surface.symbol.is_none());
    for input in &surface.inputs {
        assert!(input.wesl_type.is_some());
        let default = input.default_value.as_deref().unwrap();
        assert!(parse_default(&input.materialx_type, default).is_ok(), "{}", input.name);
    }
    let names: Vec<&str> = surface.inputs.iter().map(|p| p.name.as_str()).collect();
    assert_eq!(
        names,
        [
            "base",
            "base_color",
            "metalness",
            "specular_roughness",
            "emission",
            "emission_color",
            "opacity",
            "normal"
        ]
    );
}

#[test]
fn callable_descriptors_without_a_symbol_are_not_validated() {
    let mut broken = node("ND_broken", "composed", None, vec![], vec![]);
    broken.module = None;
    let manifest = Manifest {
        schema_version: 1,
        generator: String::new(),
        upstream: Upstream {
            project: String::new(),
            version: String::new(),
            commit: String::new(),
            source_url: String::new(),
        },
        summary: Summary {
            nodedefs: 1,
            inline_generated: 0,
            file_backed: 0,
            generator_context: 0,
            nodegraphs: 0,
            host_only: 0,
            unsupported_upstream: 0,
        },
        nodes: vec![broken],
    };
    assert!(!MaterialXRegistry::from_manifest(manifest, vec![]).is_validated());
}

/// A single opaque pixel.
const PIXEL: [u8; 70] = [
    137, 80, 78, 71, 13, 10, 26, 10, 0, 0, 0, 13, 73, 72, 68, 82,
    0, 0, 0, 1, 0, 0, 0, 1, 8, 6, 0, 0, 0, 31, 21, 196,
    137, 0, 0, 0, 13, 73, 68, 65, 84, 120, 218, 99, 248, 223, 224, 240,
    31, 0, 7, 0, 2, 191, 244, 137, 213, 242, 0, 0, 0, 0, 73, 69,
    78, 68, 174, 66, 96, 130,
];

#[test]
fn materialx_route_attaches_custom_material_and_registers_wesl() {
    let registry = registry();
    let (stage, material) = arithmetic();
    let result = match materialx_step(&stage, &vec![], material, &registry, &|_: &str| false) {
        MaterialXStep::Done(result) => result,
        _ => panic!("the connected terminal is compiled"),
    };
    let (recorded, action) = material_action(result, true);
    assert_eq!(recorded.len(), 1);
    let compiled = match action {
        MaterialAction::Attach(compiled) => compiled,
        _ => panic!("the compiled material is attached"),
    };
    let shaders = register_shaders(&registry, &compiled);
    assert!(shaders.len() > 1, "translated modules and generated root were registered");
    assert_eq!(shaders[0].path, "embedded://materialx/generated/inline.wesl");
    assert_eq!(shaders[1].id, graph_uuid(compiled.graph_key));
    assert_eq!(shaders[1].path, graph_path(compiled.graph_key));
    assert_eq!(shaders[1].source, compiled.wesl);
    assert_ne!(shaders[0].id, shaders[1].id);
}

#[test]
fn materialx_route_decodes_resolved_texture() {
    let registry = registry();
    let (stage, material) = image_uv0();
    let result = match materialx_step(&stage, &vec![], material, &registry, &|_: &str| false) {
        MaterialXStep::Done(result) => result,
        _ => panic!("the connected terminal is compiled"),
    };
    let compiled = result.expect("valid image graph uses the MaterialX material");
    let plan = plan_material(&compiled);
    assert_eq!(plan.textures.len(), 1);
    let mut cache: MaterialXTextureCache<u32> = MaterialXTextureCache::new();
    let texture = &plan.textures[0];
    assert!(matches!(
        load_texture(material, texture, Some(&cache), true, false, false),
        TextureStep::DecodeNow
    ));
    let image = decode_texture(texture, Ok(PIXEL.to_vec())).unwrap();
    assert_eq!((image.width(), image.height()), (1, 1));
    assert_eq!(image.data.as_deref(), Some(&[255, 128, 64, 255][..]));
    cache.insert(texture.duplicate(), 4);
    assert!(matches!(
        load_texture(material, texture, Some(&cache), true, false, false),
        TextureStep::Reuse(4)
    ));
}

#[test]
fn materialx_route_attaches_visible_fallback_and_diagnostic() {
    let (mut stage, material) = constant_surface();
    define_shader(&mut stage, "/Mat/Odd", "ND_not_in_registry");
    connect(&mut stage, "/Mat/Surface", "inputs:base_color", &["/Mat/Odd.outputs:out"]);
    let registry = registry();
    let result = match materialx_step(&stage, &vec![], material, &registry, &|_: &str| false) {
        MaterialXStep::Done(result) => result,
        _ => panic!("the connected terminal is compiled"),
    };
    let (recorded, action) = material_action(result, true);
    match action {
        MaterialAction::Fallback(failure) => {
            assert!(failure.iter().any(|d| d.code == DiagnosticCode::UnknownNodeDef));
            assert_eq!(failure, recorded);
        }
        _ => panic!("the fallback is attached"),
    }
    let shown = fallback_preview();
    assert_eq!(shown.diffuse_color.unwrap().x, 1.0f32.to_bits());
    assert_eq!(shown.diffuse_color.unwrap().y, 0.0f32.to_bits());
    assert_eq!(shown.roughness, Some(0.35f32.to_bits()));
    assert_eq!(shown.emissive_color.unwrap().z, 0.25f32.to_bits());
}

#[test]
fn materials_without_a_terminal_are_left_alone() {
    let (mut stage, material) = universal_fallback();
    set(&mut stage, "/Mat/Surface", "info:id", || Value::Token("UsdPreviewSurface".into()));
    assert!(matches!(
        materialx_step(&stage, &vec![], material, &registry(), &|_: &str| true),
        MaterialXStep::NotMaterialX
    ));
}

#[test]
fn the_universal_terminal_does_not_change_the_result() {
    let (plain, material) = arithmetic();
    let (mut other, _) = arithmetic();
    connect(&mut other, "/Mat", "outputs:surface", &["/Mat/A.outputs:x", "/Mat/B.outputs:y"]);
    let first = compile_materialx(&plain, material, &registry()).unwrap();
    let second = compile_materialx(&other, material, &registry()).unwrap();
    assert_eq!(first.wesl, second.wesl);
    assert_eq!(first.graph_key, second.graph_key);
    assert_eq!(first.required_modules, second.required_modules);
    assert_eq!(first.diagnostics.len(), second.diagnostics.len());
}
