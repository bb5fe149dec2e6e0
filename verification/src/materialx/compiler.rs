//! Composed UsdShade-to-MaterialX graph compiler.

use super::diagnostic::{diagnostic_views, DiagnosticCode, DiagnosticView, MaterialXDiagnostic};
use super::emit::{import_views, root_module, SurfaceExpressions, SurfaceView};
use super::graph;
use super::graph::{
    chosen_output, compiled, connected, id_implementation, image_file, image_texture,
    lower_arguments, lower_constant, lower_fresh, lower_image, lower_ports, lower_surface,
    new_uniform, no_work, only_source, opts_in, path_problem, read_problem, readable_sources,
    required_port, room, shader_name, slot_code, sources_of, surface_inputs, surface_of,
    surface_output, surface_warnings, terminal, terminal_in, type_problem, variable_name, with_call,
    with_import, with_module, CompiledView, ExpressionView, Graph, TextureView, Work, MAX_TEXTURES,
    MAX_UNIFORMS,
};
use super::registry::{Coverage, CoverageView, MaterialXRegistry, Port, PortView};
use super::value::{parse_default, slot_views, value_to_uniform, Slot};
use crate::fspath::absolute;
use crate::hash::{fixed_hash, hashes_to};
use crate::path::{append_property, prim_path, property_split, split_property};
use crate::stage::{attribute_targets, find_attribute, find_prim, Attribute, Prim, Stage, Value};
use crate::text::{
    cat, copy, copy_all, join, less, number, quote, starts_with, str_eq, strip_leading, text_less,
    views,
};
use vstd::hash_map::StringHashMap;
use vstd::prelude::*;

verus! {

/// One texture and its MaterialX sampling metadata.
#[derive(Debug, Clone, PartialEq, Eq, Hash)]
pub struct CompiledTexture {
    pub path: String,
    pub is_srgb: bool,
    pub u_address_mode: String,
    pub v_address_mode: String,
    pub filter_type: String,
}

impl View for CompiledTexture {
    type V = TextureView;

    open spec fn view(&self) -> TextureView {
        TextureView {
            path: self.path@,
            is_srgb: self.is_srgb,
            u_address_mode: self.u_address_mode@,
            v_address_mode: self.v_address_mode@,
            filter_type: self.filter_type@,
        }
    }
}

/// What a list of textures says.
pub open spec fn texture_views(list: Seq<CompiledTexture>) -> Seq<TextureView> {
    list.map_values(|t: CompiledTexture| t@)
}

/// A compiled graph plus its runtime values and resource dependencies.
#[derive(Debug)]
pub struct CompiledMaterialX {
    pub material: String,
    /// A hash of the source and the number of textures alone, so that it stays
    /// the same when only authored values or texture paths change.
    pub graph_key: u64,
    pub wesl: String,
    pub uniforms: Vec<Slot>,
    pub textures: Vec<CompiledTexture>,
    pub alpha_blend: bool,
    /// Whether the surface refracts what lies behind it; that is distinct from
    /// alpha blending. Graphs in UsdShade never do.
    pub transmission: bool,
    pub required_modules: Vec<String>,
    pub diagnostics: Vec<MaterialXDiagnostic>,
}

impl View for CompiledMaterialX {
    type V = CompiledView;

    open spec fn view(&self) -> CompiledView {
        CompiledView {
            material: self.material@,
            wesl: self.wesl@,
            uniforms: slot_views(self.uniforms@),
            textures: texture_views(self.textures@),
            alpha_blend: self.alpha_blend,
            transmission: self.transmission,
            required_modules: views(self.required_modules@),
            diagnostics: diagnostic_views(self.diagnostics@),
        }
    }
}

/// A failed compilation. All failures are structured and location-aware.
#[derive(Debug, Clone)]
pub struct CompileFailure {
    pub diagnostics: Vec<MaterialXDiagnostic>,
}

/// The one-line form of a failure.
pub open spec fn failure_text(diagnostics: Seq<MaterialXDiagnostic>) -> Seq<char> {
    if diagnostics.len() > 0 {
        super::diagnostic::diagnostic_text(diagnostics[0]@)
    } else {
        "MaterialX compilation failed"@
    }
}

impl CompileFailure {
    /// The first diagnostic on one line, or a general message without one.
    pub fn to_line(&self) -> (r: String)
        ensures
            r@ == failure_text(self.diagnostics@),
    {
        if self.diagnostics.len() > 0 {
            self.diagnostics[0].to_line()
        } else {
            copy("MaterialX compilation failed")
        }
    }
}

/// A generated expression and its MaterialX type.
#[derive(Debug)]
struct Expression {
    code: String,
    materialx_type: String,
}

impl View for Expression {
    type V = ExpressionView;

    closed spec fn view(&self) -> ExpressionView {
        ExpressionView { code: self.code@, materialx_type: self.materialx_type@ }
    }
}

impl Expression {
    fn duplicate(&self) -> (r: Expression)
        ensures
            r@ == self@,
    {
        Expression {
            code: copy(self.code.as_str()),
            materialx_type: copy(self.materialx_type.as_str()),
        }
    }
}

struct Compiler<'a> {
    stage: &'a Stage,
    material: &'a str,
    registry: &'a MaterialXRegistry,
    uniforms: Vec<Slot>,
    textures: Vec<CompiledTexture>,
    lines: Vec<String>,
    modules: Vec<String>,
    imports: Vec<(String, String)>,
    memo: StringHashMap<Expression>,
    visiting: Vec<String>,
}

/// A call that the library's two collections of names answer alike.
spec fn lowered(r: Result<Expression, MaterialXDiagnostic>, w: Work) -> Result<
    (Work, ExpressionView),
    DiagnosticView,
> {
    match r {
        Ok(e) => Ok((w, e@)),
        Err(d) => Err(d@),
    }
}

spec fn lowered_input(r: Result<(Expression, bool), MaterialXDiagnostic>, w: Work) -> Result<
    (Work, ExpressionView, bool),
    DiagnosticView,
> {
    match r {
        Ok(p) => Ok((w, p.0@, p.1)),
        Err(d) => Err(d@),
    }
}

spec fn text_or(r: Result<String, MaterialXDiagnostic>) -> Result<Seq<char>, DiagnosticView> {
    match r {
        Ok(s) => Ok(s@),
        Err(d) => Err(d@),
    }
}

spec fn texts_or(r: Result<Vec<String>, MaterialXDiagnostic>) -> Result<
    Seq<Seq<char>>,
    DiagnosticView,
> {
    match r {
        Ok(s) => Ok(views(s@)),
        Err(d) => Err(d@),
    }
}

fn insert_module(list: &mut Vec<String>, item: String)
    ensures
        views(final(list)@) == with_module(views(old(list)@), item@),
{
    let n: usize = list.len();
    let mut i: usize = n;
    let ghost all = views(list@);
    assert(all.take(n as int) =~= all);
    assert(all.skip(n as int) =~= Seq::<Seq<char>>::empty());
    assert(with_module(all, item@) =~= with_module(all.take(n as int), item@) + all.skip(n as int));
    while i > 0 && !less(list[i - 1].as_str(), item.as_str())
        invariant
            n == list@.len(),
            i <= n,
            all == views(list@),
            with_module(all, item@) == with_module(all.take(i as int), item@) + all.skip(i as int),
        decreases i,
    {
        assert(all.take(i as int).last() == all[i - 1]);
        assert(all[i - 1] == list@[i - 1]@);
        assert(all.take(i as int).drop_last() =~= all.take(i - 1));
        if str_eq(list[i - 1].as_str(), item.as_str()) {
            assert(all.take(i as int) + all.skip(i as int) =~= all);
            return;
        }
        assert(with_module(all.take(i - 1), item@).push(all[i - 1]) + all.skip(i as int)
            =~= with_module(all.take(i - 1), item@) + all.skip(i - 1));
        i = i - 1;
    }
    assert(with_module(all.take(i as int), item@) =~= all.take(i as int).push(item@)) by {
        if i > 0 {
            assert(all.take(i as int).last() == all[i - 1]);
            less_is_not_equal(all[i - 1], item@);
        }
    }
    list.insert(i, item);
    assert(views(list@) =~= all.take(i as int).push(item@) + all.skip(i as int));
}

proof fn less_is_not_equal(a: Seq<char>, b: Seq<char>)
    requires
        text_less(a, b),
    ensures
        a != b,
    decreases a.len(),
{
    if a.len() > 0 && b.len() > 0 && a[0] == b[0] {
        less_is_not_equal(a.skip(1), b.skip(1));
    }
}

fn insert_import(list: &mut Vec<(String, String)>, module: String, symbol: String)
    ensures
        import_views(final(list)@) == with_import(import_views(old(list)@), (module@, symbol@)),
{
    let n: usize = list.len();
    let mut i: usize = n;
    let ghost all = import_views(list@);
    let ghost item = (module@, symbol@);
    assert(all.take(n as int) =~= all);
    assert(with_import(all, item) =~= with_import(all.take(n as int), item) + all.skip(n as int));
    while i > 0 && !(less(list[i - 1].0.as_str(), module.as_str()) || (str_eq(
        list[i - 1].0.as_str(),
        module.as_str(),
    ) && less(list[i - 1].1.as_str(), symbol.as_str())))
        invariant
            n == list@.len(),
            i <= n,
            all == import_views(list@),
            item == (module@, symbol@),
            with_import(all, item) == with_import(all.take(i as int), item) + all.skip(i as int),
        decreases i,
    {
        assert(all.take(i as int).last() == all[i - 1]);
        assert(all[i - 1] == (list@[i - 1].0@, list@[i - 1].1@));
        assert(all.take(i as int).drop_last() =~= all.take(i - 1));
        if str_eq(list[i - 1].0.as_str(), module.as_str()) && str_eq(
            list[i - 1].1.as_str(),
            symbol.as_str(),
        ) {
            assert(all.take(i as int) + all.skip(i as int) =~= all);
            return;
        }
        assert(with_import(all.take(i - 1), item).push(all[i - 1]) + all.skip(i as int)
            =~= with_import(all.take(i - 1), item) + all.skip(i - 1));
        i = i - 1;
    }
    assert(with_import(all.take(i as int), item) =~= all.take(i as int).push(item)) by {
        if i > 0 {
            assert(all.take(i as int).last() == all[i - 1]);
            if all[i - 1].0 == item.0 {
                if text_less(all[i - 1].0, item.0) {
                    less_is_not_equal(all[i - 1].0, item.0);
                }
                less_is_not_equal(all[i - 1].1, item.1);
            }
        }
    }
    list.insert(i, (module, symbol));
    assert(import_views(list@) =~= all.take(i as int).push(item) + all.skip(i as int));
}

/// The text `parts` joined with a comma and a space.
fn join_arguments(parts: &Vec<String>) -> (r: String)
    ensures
        r@ == join(views(parts@), ", "@),
{
    let ghost all = views(parts@);
    if parts.len() == 0 {
        let out = String::new();
        assert(out@ =~= Seq::<char>::empty());
        return out;
    }
    let mut out = copy(parts[0].as_str());
    assert(join(all.take(1), ", "@) == all[0]);
    for i in 1..parts.len()
        invariant
            all == views(parts@),
            out@ == join(all.take(i as int), ", "@),
    {
        out.append(", ");
        out.append(parts[i].as_str());
        assert(all.take(i as int + 1).drop_last() =~= all.take(i as int));
    }
    assert(all.take(parts@.len() as int) =~= all);
    out
}

proof fn found_attribute_is_listed(attributes: Seq<Attribute>, name: Seq<char>, target: Seq<char>)
    requires
        find_attribute(attributes, name) is Some,
        attribute_targets(find_attribute(attributes, name)->0) is Ok,
        attribute_targets(find_attribute(attributes, name)->0)->Ok_0.contains(target),
    ensures
        graph::attribute_list_targets(attributes).contains(target),
    decreases attributes.len(),
{
    let rest = graph::attribute_list_targets(attributes.skip(1));
    let head = match attribute_targets(attributes[0]) {
        Ok(list) => list,
        Err(_) => Seq::empty(),
    };
    if attributes[0].name@ == name {
        let k = choose|k: int| 0 <= k < head.len() && head[k] == target;
        assert((head + rest)[k] == target);
    } else {
        found_attribute_is_listed(attributes.skip(1), name, target);
        let k = choose|k: int| 0 <= k < rest.len() && rest[k] == target;
        assert((head + rest)[head.len() + k] == target);
    }
}

proof fn found_prim_is_listed(
    prims: Seq<Prim>,
    path: Seq<char>,
    name: Seq<char>,
    target: Seq<char>,
)
    requires
        find_prim(prims, path) is Some,
        find_attribute(find_prim(prims, path)->0.attributes@, name) is Some,
        attribute_targets(find_attribute(find_prim(prims, path)->0.attributes@, name)->0) is Ok,
        attribute_targets(
            find_attribute(find_prim(prims, path)->0.attributes@, name)->0,
        )->Ok_0.contains(target),
    ensures
        graph::prim_list_targets(prims).contains(target),
    decreases prims.len(),
{
    let head = graph::attribute_list_targets(prims[0].attributes@);
    let rest = graph::prim_list_targets(prims.skip(1));
    if prims[0].path@ == path {
        found_attribute_is_listed(prims[0].attributes@, name, target);
        let k = choose|k: int| 0 <= k < head.len() && head[k] == target;
        assert((head + rest)[k] == target);
    } else {
        found_prim_is_listed(prims.skip(1), path, name, target);
        let k = choose|k: int| 0 <= k < rest.len() && rest[k] == target;
        assert((head + rest)[head.len() + k] == target);
    }
}

/// Every source of an attribute is a connection target of the stage.
pub proof fn sources_are_connected(g: Graph, attribute: Seq<char>, k: int)
    ensures
        sources_of(g, attribute) matches Ok(list) ==> 0 <= k < list.len() ==> connected(
            g.stage,
        ).contains(list[k]),
{
    if sources_of(g, attribute) is Ok && 0 <= k < sources_of(g, attribute)->Ok_0.len() {
        let (prim, name) = property_split(attribute)->0;
        let list = sources_of(g, attribute)->Ok_0;
        assert(list.contains(list[k]));
        found_prim_is_listed(g.stage.prims@, prim, name, list[k]);
    }
}

/// Once an argument fails, so do all longer argument lists.
proof fn failure_stays(
    g: Graph,
    visiting: Set<Seq<char>>,
    w: Work,
    prim: Seq<char>,
    id: Seq<char>,
    inputs: Seq<PortView>,
    from: nat,
    to: nat,
)
    requires
        from <= to,
        lower_arguments(g, visiting, w, prim, id, inputs, from) is Err,
    ensures
        lower_arguments(g, visiting, w, prim, id, inputs, to) == lower_arguments(
            g,
            visiting,
            w,
            prim,
            id,
            inputs,
            from,
        ),
    decreases to,
{
    if from < to {
        failure_stays(g, visiting, w, prim, id, inputs, from, (to - 1) as nat);
    }
}

/// One more input of the surface is lowered.
proof fn port_succeeds(
    g: Graph,
    prim: Seq<char>,
    node: CoverageView,
    count: nat,
    before: Work,
    done: Seq<(ExpressionView, bool)>,
    input: PortView,
    after: Work,
    pair: (ExpressionView, bool),
)
    requires
        count < surface_inputs().len(),
        lower_ports(g, no_work(), prim, node, surface_inputs(), count) == Ok::<
            (Work, Seq<(ExpressionView, bool)>),
            DiagnosticView,
        >((before, done)),
        required_port(node, surface_inputs()[count as int]) == Ok::<PortView, DiagnosticView>(
            input,
        ),
        graph::lower_input(g, Set::empty(), before, prim, input) == Ok::<
            (Work, ExpressionView, bool),
            DiagnosticView,
        >((after, pair.0, pair.1)),
    ensures
        lower_ports(g, no_work(), prim, node, surface_inputs(), count + 1) == Ok::<
            (Work, Seq<(ExpressionView, bool)>),
            DiagnosticView,
        >((after, done.push(pair))),
{
}

/// An input of the surface that cannot be lowered fails the surface.
proof fn port_fails(
    g: Graph,
    prim: Seq<char>,
    node: CoverageView,
    count: nat,
    before: Work,
    done: Seq<(ExpressionView, bool)>,
    d: DiagnosticView,
)
    requires
        count < surface_inputs().len(),
        lower_ports(g, no_work(), prim, node, surface_inputs(), count) == Ok::<
            (Work, Seq<(ExpressionView, bool)>),
            DiagnosticView,
        >((before, done)),
        match required_port(node, surface_inputs()[count as int]) {
            Err(missing) => missing == d,
            Ok(input) => graph::lower_input(g, Set::empty(), before, prim, input) == Err::<
                (Work, ExpressionView, bool),
                DiagnosticView,
            >(d),
        },
    ensures
        lower_ports(g, no_work(), prim, node, surface_inputs(), surface_inputs().len()) == Err::<
            (Work, Seq<(ExpressionView, bool)>),
            DiagnosticView,
        >(d),
{
    port_failure_stays(
        g,
        no_work(),
        prim,
        node,
        surface_inputs(),
        count + 1,
        surface_inputs().len(),
    );
}

proof fn port_failure_stays(
    g: Graph,
    w: Work,
    prim: Seq<char>,
    node: CoverageView,
    names: Seq<Seq<char>>,
    from: nat,
    to: nat,
)
    requires
        from <= to,
        lower_ports(g, w, prim, node, names, from) is Err,
    ensures
        lower_ports(g, w, prim, node, names, to) == lower_ports(g, w, prim, node, names, from),
    decreases to,
{
    if from < to {
        port_failure_stays(g, w, prim, node, names, from, (to - 1) as nat);
    }
}

impl<'a> Compiler<'a> {
    spec fn graph(self) -> Graph {
        Graph {
            stage: *self.stage,
            material: self.material@,
            nodes: self.registry.descriptors(),
        }
    }

    spec fn work(self) -> Work {
        Work {
            uniforms: slot_views(self.uniforms@),
            textures: texture_views(self.textures@),
            lines: views(self.lines@),
            modules: views(self.modules@),
            imports: import_views(self.imports@),
            memo: self.memo@.map_values(|e: Expression| e@),
        }
    }

    spec fn open_sources(self) -> Set<Seq<char>> {
        views(self.visiting@).to_set()
    }

    /// What no lowering step changes.
    spec fn same_setting(self, other: Self) -> bool {
        self.graph() == other.graph() && self.visiting@ == other.visiting@ && self.registry
            == other.registry
    }

    fn new(stage: &'a Stage, material: &'a str, registry: &'a MaterialXRegistry) -> (r: Self)
        ensures
            r.graph() == (Graph {
                stage: *stage,
                material: material@,
                nodes: registry.descriptors(),
            }),
            r.registry == registry,
            r.work() == no_work(),
            r.visiting@.len() == 0,
    {
        let r = Compiler {
            stage,
            material,
            registry,
            uniforms: Vec::new(),
            textures: Vec::new(),
            lines: Vec::new(),
            modules: Vec::new(),
            imports: Vec::new(),
            memo: StringHashMap::new(),
            visiting: Vec::new(),
        };
        assert(r.work() =~= no_work());
        r
    }

    fn read_error(&self, property: &str, error: &str) -> (r: MaterialXDiagnostic)
        ensures
            r@ == read_problem(self.graph(), property@, error@),
    {
        MaterialXDiagnostic::error(
            DiagnosticCode::InvalidConnection,
            self.material,
            Some(prim_path(property)),
            Some(copy(property)),
            cat("failed to read composed USD property: ", error).as_str(),
        )
    }

    fn internal_error(&self, location: &str, error: &str) -> (r: MaterialXDiagnostic)
        ensures
            r@ == path_problem(self.graph(), location@, error@),
    {
        MaterialXDiagnostic::error(
            DiagnosticCode::InvalidConnection,
            self.material,
            None,
            Some(copy(location)),
            cat("invalid USD path: ", error).as_str(),
        )
    }

    fn connections(&self, attribute: &str) -> (r: Result<Vec<String>, MaterialXDiagnostic>)
        ensures
            texts_or(r) == sources_of(self.graph(), attribute@),
    {
        match split_property(attribute) {
            None => Err(
                MaterialXDiagnostic::error(
                    DiagnosticCode::InvalidConnection,
                    self.material,
                    None,
                    Some(copy(attribute)),
                    "expected an attribute property path",
                ),
            ),
            Some((prim, name)) => match self.stage.attribute(prim.as_str(), name.as_str()) {
                None => {
                    let none: Vec<String> = Vec::new();
                    assert(views(none@) =~= Seq::<Seq<char>>::empty());
                    Ok(none)
                },
                Some(found) => match &found.connections {
                    Ok(list) => Ok(copy_all(list)),
                    Err(error) => Err(self.read_error(attribute, error.as_str())),
                },
            },
        }
    }

    fn exactly_one_connection(&self, attribute: &str) -> (r: Result<String, MaterialXDiagnostic>)
        ensures
            text_or(r) == only_source(self.graph(), attribute@),
    {
        let mut sources = match self.connections(attribute) {
            Ok(list) => list,
            Err(d) => return Err(d),
        };
        assert(views(sources@).len() == sources@.len());
        if sources.len() == 1 {
            assert(views(sources@)[0] == sources@[0]@);
            Ok(copy(sources[0].as_str()))
        } else if sources.len() == 0 {
            Err(
                MaterialXDiagnostic::error(
                    DiagnosticCode::MissingValue,
                    self.material,
                    Some(prim_path(attribute)),
                    Some(copy(attribute)),
                    "required input is not connected",
                ),
            )
        } else {
            let mut message = copy("required input has ");
            message.append(number(sources.len() as u64).as_str());
            message.append(" sources");
            Err(
                MaterialXDiagnostic::error(
                    DiagnosticCode::AmbiguousConnection,
                    self.material,
                    Some(prim_path(attribute)),
                    Some(copy(attribute)),
                    message.as_str(),
                ),
            )
        }
    }

    fn shader_id(&self, prim: &str) -> (r: Result<String, MaterialXDiagnostic>)
        ensures
            text_or(r) == shader_name(self.graph(), prim@),
    {
        let id_path = match append_property(prim, "info:id") {
            Ok(path) => path,
            Err(error) => return Err(self.internal_error(prim, error.as_str())),
        };
        if let Some(attribute) = self.stage.attribute(prim, "info:id") {
            match &attribute.at_default {
                Err(error) => return Err(self.read_error(id_path.as_str(), error.as_str())),
                Ok(Some(authored)) => match &authored.value {
                    Value::Token(id) => return Ok(copy(id.as_str())),
                    Value::Text(id) => return Ok(copy(id.as_str())),
                    _ => {},
                },
                Ok(None) => {},
            }
        }
        Err(
            MaterialXDiagnostic::error(
                DiagnosticCode::UnknownNodeDef,
                self.material,
                Some(copy(prim)),
                Some(id_path),
                "shader has no token/string info:id",
            ),
        )
    }

    fn verify_id_implementation(&self, prim: &str) -> (r: Result<(), MaterialXDiagnostic>)
        ensures
            match r {
                Ok(_) => id_implementation(self.graph(), prim@) is Ok,
                Err(d) => id_implementation(self.graph(), prim@) == Err::<(), DiagnosticView>(d@),
            },
    {
        let path = match append_property(prim, "info:implementationSource") {
            Ok(path) => path,
            Err(_) => copy(prim),
        };
        let mut source = copy("id");
        if let Some(attribute) = self.stage.attribute(prim, "info:implementationSource") {
            match &attribute.at_default {
                Err(error) => return Err(self.read_error(path.as_str(), error.as_str())),
                Ok(Some(authored)) => match &authored.value {
                    Value::Token(text) => {
                        source = copy(text.as_str());
                    },
                    Value::Text(text) => {
                        source = copy(text.as_str());
                    },
                    _ => {
                        source = copy(authored.shown.as_str());
                    },
                },
                Ok(None) => {},
            }
        }
        if str_eq(source.as_str(), "id") {
            Ok(())
        } else {
            let mut message = copy("implementationSource ");
            message.append(quote(source.as_str()).as_str());
            message.append(" is not a registry id");
            Err(
                MaterialXDiagnostic::error(
                    DiagnosticCode::UnsupportedImplementation,
                    self.material,
                    Some(copy(prim)),
                    Some(path),
                    message.as_str(),
                ),
            )
        }
    }

    fn descriptor(&self, prim: &str, id: &str) -> (r: Result<&'a Coverage, MaterialXDiagnostic>)
        ensures
            match r {
                Ok(node) => graph::descriptor_of(self.graph(), prim@, id@) == Ok::<
                    CoverageView,
                    DiagnosticView,
                >(node@),
                Err(d) => graph::descriptor_of(self.graph(), prim@, id@) == Err::<
                    CoverageView,
                    DiagnosticView,
                >(d@),
            },
    {
        let registry: &'a MaterialXRegistry = self.registry;
        match registry.node(id) {
            Some(node) => Ok(node),
            None => {
                let mut message = copy("NodeDef ");
                message.append(id);
                message.append(" is absent from the MaterialX registry");
                Err(
                    MaterialXDiagnostic::error(
                        DiagnosticCode::UnknownNodeDef,
                        self.material,
                        Some(copy(prim)),
                        None,
                        message.as_str(),
                    ),
                )
            },
        }
    }

    fn require_type(&self, expression: &Expression, input: &Port, attribute: &str) -> (r: Result<
        (),
        MaterialXDiagnostic,
    >)
        ensures
            match r {
                Ok(_) => expression@.materialx_type == input@.materialx_type,
                Err(d) => expression@.materialx_type != input@.materialx_type && d@
                    == type_problem(
                    self.graph(),
                    expression@.materialx_type,
                    input@,
                    attribute@,
                ),
            },
    {
        if str_eq(expression.materialx_type.as_str(), input.materialx_type.as_str()) {
            return Ok(());
        }
        let mut message = copy("input expects ");
        message.append(input.materialx_type.as_str());
        message.append(", connected output is ");
        message.append(expression.materialx_type.as_str());
        Err(
            MaterialXDiagnostic::error(
                DiagnosticCode::TypeMismatch,
                self.material,
                Some(prim_path(attribute)),
                Some(copy(attribute)),
                message.as_str(),
            ),
        )
    }

    fn push_uniform(&mut self, port: &Port, data: Slot, attribute: &str) -> (r: Result<
        Expression,
        MaterialXDiagnostic,
    >)
        ensures
            lowered(r, final(self).work()) == new_uniform(
                old(self).graph(),
                old(self).work(),
                port@,
                data@,
                attribute@,
            ),
            r is Err ==> final(self).work() == old(self).work(),
            final(self).same_setting(*old(self)),
    {
        let ghost before = self.work();
        if self.uniforms.len() == MAX_UNIFORMS {
            return Err(
                MaterialXDiagnostic::error(
                    DiagnosticCode::ResourceLimit,
                    self.material,
                    Some(prim_path(attribute)),
                    Some(copy(attribute)),
                    "first slice supports at most 64 uniform values",
                ),
            );
        }
        let index = number(self.uniforms.len() as u64);
        let mut value = copy("materialx.values[");
        value.append(index.as_str());
        value.append("]");
        let kind = port.materialx_type.as_str();
        let code = if str_eq(kind, "float") {
            cat(value.as_str(), ".x")
        } else if str_eq(kind, "integer") {
            cat(cat("i32(", value.as_str()).as_str(), ".x)")
        } else if str_eq(kind, "boolean") {
            cat(value.as_str(), ".x != 0.0")
        } else if str_eq(kind, "vector2") {
            cat(value.as_str(), ".xy")
        } else if str_eq(kind, "color3") || str_eq(kind, "vector3") {
            cat(value.as_str(), ".xyz")
        } else if str_eq(kind, "color4") || str_eq(kind, "vector4") {
            value
        } else {
            let mut message = copy("uniform MaterialX type ");
            message.append(kind);
            message.append(" is not supported yet");
            return Err(
                MaterialXDiagnostic::error(
                    DiagnosticCode::UnsupportedFeature,
                    self.material,
                    Some(prim_path(attribute)),
                    Some(copy(attribute)),
                    message.as_str(),
                ),
            );
        };
        assert(slot_code(before.uniforms.len(), port@.materialx_type) == Some(code@));
        self.uniforms.push(data);
        assert(self.work().uniforms =~= before.uniforms.push(data@));
        Ok(Expression { code, materialx_type: copy(kind) })
    }

    fn lower_unconnected(&mut self, prim: &str, port: &Port, attribute: &str) -> (r: Result<
        (Expression, bool),
        MaterialXDiagnostic,
    >)
        ensures
            lowered_input(r, final(self).work()) == lower_constant(
                old(self).graph(),
                old(self).work(),
                prim@,
                port@,
                attribute@,
            ),
            final(self).same_setting(*old(self)),
    {
        let name = cat("inputs:", port.name.as_str());
        let stage: &'a Stage = self.stage;
        if let Some(found) = stage.attribute(prim, name.as_str()) {
            match &found.at_time {
                Err(error) => return Err(self.read_error(attribute, error.as_str())),
                Ok(Some(authored)) => {
                    let data = match value_to_uniform(port.materialx_type.as_str(), authored) {
                        Ok(data) => data,
                        Err(message) => return Err(
                            MaterialXDiagnostic::error(
                                DiagnosticCode::TypeMismatch,
                                self.material,
                                Some(prim_path(attribute)),
                                Some(copy(attribute)),
                                message.as_str(),
                            ),
                        ),
                    };
                    return match self.push_uniform(port, data, attribute) {
                        Ok(expression) => Ok((expression, true)),
                        Err(d) => Err(d),
                    };
                },
                Ok(None) => {},
            }
        }
        match &port.default_value {
            None => {
                let mut message = copy("input ");
                message.append(port.name.as_str());
                message.append(" has no connection, authored value, or NodeDef default");
                Err(
                    MaterialXDiagnostic::error(
                        DiagnosticCode::MissingValue,
                        self.material,
                        Some(copy(prim)),
                        Some(copy(attribute)),
                        message.as_str(),
                    ),
                )
            },
            Some(text) => {
                let data = match parse_default(port.materialx_type.as_str(), text.as_str()) {
                    Ok(data) => data,
                    Err(message) => return Err(
                        MaterialXDiagnostic::error(
                            DiagnosticCode::TypeMismatch,
                            self.material,
                            Some(copy(prim)),
                            Some(copy(attribute)),
                            message.as_str(),
                        ),
                    ),
                };
                match self.push_uniform(port, data, attribute) {
                    Ok(expression) => Ok((expression, false)),
                    Err(d) => Err(d),
                }
            },
        }
    }

    fn lower_input(&mut self, prim: &str, port: &Port) -> (r: Result<
        (Expression, bool),
        MaterialXDiagnostic,
    >)
        requires
            old(self).registry.validated(),
        ensures
            lowered_input(r, final(self).work()) == graph::lower_input(
                old(self).graph(),
                old(self).open_sources(),
                old(self).work(),
                prim@,
                port@,
            ),
            final(self).same_setting(*old(self)),
        decreases room(old(self).graph(), old(self).open_sources()), 1int, 0int,
    {
        let name = cat("inputs:", port.name.as_str());
        let attribute = match append_property(prim, name.as_str()) {
            Ok(path) => path,
            Err(error) => return Err(self.internal_error(prim, error.as_str())),
        };
        let sources = match self.connections(attribute.as_str()) {
            Ok(list) => list,
            Err(d) => return Err(d),
        };
        assert(views(sources@).len() == sources@.len());
        if sources.len() > 1 {
            let mut message = copy("input has ");
            message.append(number(sources.len() as u64).as_str());
            message.append(" composed sources; exactly one is required");
            return Err(
                MaterialXDiagnostic::error(
                    DiagnosticCode::AmbiguousConnection,
                    self.material,
                    Some(copy(prim)),
                    Some(attribute),
                    message.as_str(),
                ),
            );
        }
        if sources.len() == 1 {
            assert(views(sources@)[0] == sources@[0]@);
            proof {
                sources_are_connected(self.graph(), attribute@, 0);
            }
            let expression = match self.lower_source(sources[0].as_str()) {
                Ok(expression) => expression,
                Err(d) => return Err(d),
            };
            return match self.require_type(&expression, port, attribute.as_str()) {
                Ok(_) => Ok((expression, true)),
                Err(d) => Err(d),
            };
        }
        self.lower_unconnected(prim, port, attribute.as_str())
    }

    fn lower_source(&mut self, source: &str) -> (r: Result<Expression, MaterialXDiagnostic>)
        requires
            old(self).registry.validated(),
            connected(old(self).graph().stage).contains(source@),
        ensures
            lowered(r, final(self).work()) == graph::lower_source(
                old(self).graph(),
                old(self).open_sources(),
                old(self).work(),
                source@,
            ),
            final(self).same_setting(*old(self)),
        decreases room(old(self).graph(), old(self).open_sources()), 0int, 0int,
    {
        if let Some(expression) = self.memo.get(source) {
            return Ok(expression.duplicate());
        }
        for i in 0..self.visiting.len()
            invariant
                *self == *old(self),
                !self.memo@.contains_key(source@),
                connected(self.graph().stage).contains(source@),
                forall|k: int| 0 <= k < i ==> (#[trigger] self.visiting@[k])@ != source@,
        {
            if str_eq(self.visiting[i].as_str(), source) {
                assert(views(self.visiting@)[i as int] == source@);
                assert(self.open_sources().contains(source@));
                return Err(
                    MaterialXDiagnostic::error(
                        DiagnosticCode::ConnectionCycle,
                        self.material,
                        Some(prim_path(source)),
                        Some(copy(source)),
                        "cycle detected while lowering MaterialX connections",
                    ),
                );
            }
        }
        assert(!self.open_sources().contains(source@)) by {
            if self.open_sources().contains(source@) {
                let k = choose|k: int|
                    0 <= k < views(self.visiting@).len() && views(self.visiting@)[k] == source@;
                assert(self.visiting@[k]@ == source@);
            }
        }
        proof {
            graph::room_shrinks(self.graph(), self.open_sources(), source@);
        }
        self.visiting.push(copy(source));
        proof {
            assert(views(self.visiting@) =~= views(old(self).visiting@).push(source@));
            assert(self.open_sources() =~= old(self).open_sources().insert(source@)) by {
                views(old(self).visiting@).lemma_push_to_set_commute(source@);
            }
            assert(self.work() == old(self).work());
        }
        let result = self.lower_source_uncached(source);
        let _ = self.visiting.pop();
        assert(self.visiting@ =~= old(self).visiting@);
        match result {
            Ok(expression) => {
                let ghost done = self.work();
                self.memo.insert(copy(source), expression.duplicate());
                assert(self.work().memo =~= done.memo.insert(source@, expression@));
                Ok(expression)
            },
            Err(d) => Err(d),
        }
    }

    fn lower_source_uncached(&mut self, source: &str) -> (r: Result<
        Expression,
        MaterialXDiagnostic,
    >)
        requires
            old(self).registry.validated(),
        ensures
            lowered(r, final(self).work()) == lower_fresh(
                old(self).graph(),
                old(self).open_sources(),
                old(self).work(),
                source@,
            ),
            final(self).same_setting(*old(self)),
        decreases room(old(self).graph(), old(self).open_sources()), 4int, 0int,
    {
        let (prim, property) = match split_property(source) {
            Some(parts) => parts,
            None => return Err(
                MaterialXDiagnostic::error(
                    DiagnosticCode::InvalidConnection,
                    self.material,
                    None,
                    Some(copy(source)),
                    "connection target is not a property path",
                ),
            ),
        };
        let stage: &'a Stage = self.stage;
        let mut interface = starts_with(property.as_str(), "inputs:");
        let mut shader = false;
        if let Some(found) = stage.prim(prim.as_str()) {
            match &found.prim_type {
                Err(error) => return Err(self.read_error(source, error.as_str())),
                Ok(Some(kind)) => {
                    interface = interface || str_eq(kind.as_str(), "Material") || str_eq(
                        kind.as_str(),
                        "NodeGraph",
                    );
                    shader = str_eq(kind.as_str(), "Shader");
                },
                Ok(None) => {},
            }
        }
        if interface {
            let sources = match self.connections(source) {
                Ok(list) => list,
                Err(d) => return Err(d),
            };
            assert(views(sources@).len() == sources@.len());
            if sources.len() > 1 {
                return Err(
                    MaterialXDiagnostic::error(
                        DiagnosticCode::AmbiguousConnection,
                        self.material,
                        Some(prim),
                        Some(copy(source)),
                        "interface property resolves to multiple sources",
                    ),
                );
            }
            if sources.len() == 1 {
                assert(views(sources@)[0] == sources@[0]@);
                proof {
                    sources_are_connected(self.graph(), source@, 0);
                }
                return self.lower_source(sources[0].as_str());
            }
            return Err(
                MaterialXDiagnostic::error(
                    DiagnosticCode::InvalidConnection,
                    self.material,
                    Some(prim),
                    Some(copy(source)),
                    "interface property has no value-producing connection",
                ),
            );
        }
        if !shader || !starts_with(property.as_str(), "outputs:") {
            return Err(
                MaterialXDiagnostic::error(
                    DiagnosticCode::InvalidConnection,
                    self.material,
                    Some(prim),
                    Some(copy(source)),
                    "connection target is not a Shader output",
                ),
            );
        }
        let output = strip_leading(property.as_str(), "outputs:");
        self.lower_node(prim.as_str(), output.as_str())
    }

    fn emit_call(&mut self, module: &str, symbol: &str, arguments: &str) -> (r: String)
        ensures
            final(self).work() == with_call(old(self).work(), module@, symbol@, arguments@),
            r@ == variable_name(old(self).work().lines.len()),
            final(self).same_setting(*old(self)),
    {
        let ghost before = self.work();
        let variable = cat("mx_node_", number(self.lines.len() as u64).as_str());
        insert_module(&mut self.modules, copy(module));
        insert_import(&mut self.imports, copy(module), copy(symbol));
        let mut line = copy("    let ");
        line.append(variable.as_str());
        line.append(" = ");
        line.append(symbol);
        line.append("(");
        line.append(arguments);
        line.append(");");
        self.lines.push(line);
        assert(self.work().lines =~= with_call(before, module@, symbol@, arguments@).lines);
        variable
    }

    fn pick_output(
        &self,
        prim: &str,
        id: &str,
        node: &'a Coverage,
        output_name: &str,
    ) -> (r: Result<&'a Port, MaterialXDiagnostic>)
        ensures
            match r {
                Ok(port) => chosen_output(self.graph(), prim@, id@, node@, output_name@) == Ok::<
                    PortView,
                    DiagnosticView,
                >(port@),
                Err(d) => chosen_output(self.graph(), prim@, id@, node@, output_name@) == Err::<
                    PortView,
                    DiagnosticView,
                >(d@),
            },
    {
        if let Some(port) = node.output(output_name) {
            return Ok(port);
        }
        assert(node@.outputs.len() == node.outputs@.len());
        if node.outputs.len() == 1 {
            assert(node@.outputs[0] == node.outputs@[0]@);
            return Ok(&node.outputs[0]);
        }
        let mut message = copy("NodeDef ");
        message.append(id);
        message.append(" has no output named ");
        message.append(output_name);
        Err(
            MaterialXDiagnostic::error(
                DiagnosticCode::UnknownOutput,
                self.material,
                Some(copy(prim)),
                Some(cat("outputs:", output_name)),
                message.as_str(),
            ),
        )
    }

    fn lower_node(&mut self, prim: &str, output_name: &str) -> (r: Result<
        Expression,
        MaterialXDiagnostic,
    >)
        requires
            old(self).registry.validated(),
        ensures
            lowered(r, final(self).work()) == graph::lower_node(
                old(self).graph(),
                old(self).open_sources(),
                old(self).work(),
                prim@,
                output_name@,
            ),
            final(self).same_setting(*old(self)),
        decreases room(old(self).graph(), old(self).open_sources()), 3int, 0int,
    {
        let id = match self.shader_id(prim) {
            Ok(id) => id,
            Err(d) => return Err(d),
        };
        match self.verify_id_implementation(prim) {
            Ok(_) => {},
            Err(d) => return Err(d),
        }
        let node: &'a Coverage = match self.descriptor(prim, id.as_str()) {
            Ok(node) => node,
            Err(d) => return Err(d),
        };
        let output: &'a Port = match self.pick_output(prim, id.as_str(), node, output_name) {
            Ok(port) => port,
            Err(d) => return Err(d),
        };
        proof {
            super::registry::found_nodes_name_their_symbol(*self.registry, id@);
        }
        if str_eq(id.as_str(), "ND_texcoord_vector2") {
            return Ok(
                Expression {
                    code: copy("uv"),
                    materialx_type: copy(output.materialx_type.as_str()),
                },
            );
        }
        if str_eq(id.as_str(), "ND_image_color3") {
            return self.lower_image_color3(prim, node, output);
        }
        if !node.callable() {
            let mut message = copy("NodeDef ");
            message.append(id.as_str());
            message.append(" is ");
            message.append(node.status.as_str());
            message.append(": ");
            match &node.reason {
                Some(reason) => message.append(reason.as_str()),
                None => message.append("no implementation"),
            }
            return Err(
                MaterialXDiagnostic::error(
                    DiagnosticCode::UnsupportedFeature,
                    self.material,
                    Some(copy(prim)),
                    None,
                    message.as_str(),
                ),
            );
        }
        let mut arguments: Vec<String> = Vec::new();
        let ghost g = self.graph();
        let ghost visiting = self.open_sources();
        let ghost before = self.work();
        let ghost inputs = node@.inputs;
        assert(views(arguments@) =~= Seq::<Seq<char>>::empty());
        let count: usize = node.inputs.len();
        for i in 0..count
            invariant
                count == node.inputs@.len(),
                inputs == node@.inputs,
                inputs.len() == count,
                self.same_setting(*old(self)),
                self.registry.validated(),
                g == self.graph(),
                visiting == self.open_sources(),
                g == old(self).graph(),
                visiting == old(self).open_sources(),
                lower_arguments(g, visiting, before, prim@, id@, inputs, i as nat) == Ok::<
                    (Work, Seq<Seq<char>>),
                    DiagnosticView,
                >((self.work(), views(arguments@))),
                graph::lower_node(
                    g,
                    visiting,
                    before,
                    prim@,
                    output_name@,
                ) == (match lower_arguments(g, visiting, before, prim@, id@, inputs, count as nat) {
                    Err(d) => Err(d),
                    Ok((w1, codes)) => Ok(
                        (
                            with_call(w1, node@.module->0, node@.symbol->0, join(codes, ", "@)),
                            ExpressionView {
                                code: variable_name(w1.lines.len()),
                                materialx_type: output@.materialx_type,
                            },
                        ),
                    ),
                }),
                before == old(self).work(),
        {
            let input: &'a Port = &node.inputs[i];
            assert(inputs[i as int] == input@);
            if input.wesl_type.is_none() {
                let mut message = copy("host-only input on ");
                message.append(id.as_str());
                message.append(" needs special lowering");
                let failure = MaterialXDiagnostic::error(
                    DiagnosticCode::UnsupportedFeature,
                    self.material,
                    Some(copy(prim)),
                    Some(cat("inputs:", input.name.as_str())),
                    message.as_str(),
                );
                proof {
                    failure_stays(g, visiting, before, prim@, id@, inputs, i as nat + 1, count as nat);
                }
                return Err(failure);
            }
            match self.lower_input(prim, input) {
                Ok((expression, _)) => {
                    let ghost sofar = views(arguments@);
                    arguments.push(expression.code);
                    assert(views(arguments@) =~= sofar.push(expression@.code));
                },
                Err(d) => {
                    proof {
                        failure_stays(
                            g,
                            visiting,
                            before,
                            prim@,
                            id@,
                            inputs,
                            i as nat + 1,
                            count as nat,
                        );
                    }
                    return Err(d);
                },
            }
        }
        let joined = join_arguments(&arguments);
        match (&node.module, &node.symbol) {
            (Some(module), Some(symbol)) => {
                let variable = self.emit_call(module.as_str(), symbol.as_str(), joined.as_str());
                Ok(
                    Expression {
                        code: variable,
                        materialx_type: copy(output.materialx_type.as_str()),
                    },
                )
            },
            _ => {
                assert(false);
                Err(self.internal_error(prim, ""))
            },
        }
    }

    fn choose_texture(&self, prim: &str, node: &Coverage) -> (r: Result<
        CompiledTexture,
        MaterialXDiagnostic,
    >)
        ensures
            match r {
                Ok(texture) => image_texture(self.graph(), self.work(), prim@, node@) == Ok::<
                    TextureView,
                    DiagnosticView,
                >(texture@),
                Err(d) => image_texture(self.graph(), self.work(), prim@, node@) == Err::<
                    TextureView,
                    DiagnosticView,
                >(d@),
            },
    {
        if self.textures.len() == MAX_TEXTURES {
            return Err(
                MaterialXDiagnostic::error(
                    DiagnosticCode::ResourceLimit,
                    self.material,
                    Some(copy(prim)),
                    None,
                    "first slice supports at most 4 image nodes per material",
                ),
            );
        }
        let file_port = match port(node, "file") {
            Ok(port) => port,
            Err(d) => return Err(d),
        };
        let file_attr = match append_property(prim, "inputs:file") {
            Ok(path) => path,
            Err(error) => return Err(self.internal_error(prim, error.as_str())),
        };
        let sources = match self.connections(file_attr.as_str()) {
            Ok(list) => list,
            Err(d) => return Err(d),
        };
        assert(views(sources@).len() == sources@.len());
        if sources.len() > 0 {
            return Err(
                MaterialXDiagnostic::error(
                    DiagnosticCode::UnsupportedFeature,
                    self.material,
                    Some(copy(prim)),
                    Some(file_attr),
                    "connected filename inputs are not supported in the first slice",
                ),
            );
        }
        let (file, unresolved) = match self.texture_file(prim, file_port, file_attr.as_str()) {
            Ok(found) => found,
            Err(d) => return Err(d),
        };
        if file.as_str().unicode_len() == 0 {
            return Err(
                MaterialXDiagnostic::error(
                    DiagnosticCode::MissingAsset,
                    self.material,
                    Some(copy(prim)),
                    Some(file_attr),
                    "image node has no texture asset",
                ),
            );
        }
        if unresolved || (absolute(file.as_str()) && self.stage.is_absent(file.as_str())) {
            return Err(
                MaterialXDiagnostic::error(
                    DiagnosticCode::MissingAsset,
                    self.material,
                    Some(copy(prim)),
                    Some(file_attr),
                    cat("resolved texture asset does not exist: ", file.as_str()).as_str(),
                ),
            );
        }
        Ok(
            CompiledTexture {
                path: file,
                is_srgb: true,
                u_address_mode: copy("periodic"),
                v_address_mode: copy("periodic"),
                filter_type: copy("linear"),
            },
        )
    }

    fn texture_file(&self, prim: &str, file_port: &Port, file_attr: &str) -> (r: Result<
        (String, bool),
        MaterialXDiagnostic,
    >)
        ensures
            match r {
                Ok(found) => image_file(self.graph(), prim@, file_port@, file_attr@) == Ok::<
                    (Seq<char>, bool),
                    DiagnosticView,
                >((found.0@, found.1)),
                Err(d) => image_file(self.graph(), prim@, file_port@, file_attr@) == Err::<
                    (Seq<char>, bool),
                    DiagnosticView,
                >(d@),
            },
    {
        if let Some(attribute) = self.stage.attribute(prim, "inputs:file") {
            match &attribute.at_time {
                Err(error) => return Err(self.read_error(file_attr, error.as_str())),
                Ok(Some(authored)) => return match &authored.value {
                    Value::Asset { authored: path, resolved } => match resolved {
                        Some(found) => Ok((copy(found.as_str()), false)),
                        None => Ok((copy(path.as_str()), true)),
                    },
                    Value::Text(path) => Ok((copy(path.as_str()), false)),
                    Value::Token(path) => Ok((copy(path.as_str()), false)),
                    _ => Err(
                        MaterialXDiagnostic::error(
                            DiagnosticCode::TypeMismatch,
                            self.material,
                            Some(copy(prim)),
                            Some(copy(file_attr)),
                            cat(
                                "filename input has incompatible value ",
                                authored.shown.as_str(),
                            ).as_str(),
                        ),
                    ),
                },
                Ok(None) => {},
            }
        }
        let text = match &file_port.default_value {
            Some(text) => copy(text.as_str()),
            None => String::new(),
        };
        assert(file_port.default_value is None ==> text@ =~= Seq::<char>::empty());
        Ok((text, false))
    }

    fn lower_image_color3(&mut self, prim: &str, node: &'a Coverage, output: &'a Port) -> (r: Result<
        Expression,
        MaterialXDiagnostic,
    >)
        requires
            old(self).registry.validated(),
            node@.module is Some,
            node@.symbol is Some,
        ensures
            lowered(r, final(self).work()) == lower_image(
                old(self).graph(),
                old(self).open_sources(),
                old(self).work(),
                prim@,
                node@,
                output@,
            ),
            image_texture(old(self).graph(), old(self).work(), prim@, node@) is Err
                ==> final(self).work() == old(self).work(),
            old(self).work().textures.len() == MAX_TEXTURES ==> r is Err && final(self).work()
                == old(self).work(),
            final(self).same_setting(*old(self)),
        decreases room(old(self).graph(), old(self).open_sources()), 2int, 0int,
    {
        let texture = match self.choose_texture(prim, node) {
            Ok(texture) => texture,
            Err(d) => return Err(d),
        };
        let index = number(self.textures.len() as u64);
        let ghost before = self.work();
        self.textures.push(texture);
        assert(self.work().textures =~= before.textures.push(texture@));
        let default_port = match port(node, "default") {
            Ok(port) => port,
            Err(d) => return Err(d),
        };
        let default = match self.lower_input(prim, default_port) {
            Ok((expression, _)) => expression,
            Err(d) => return Err(d),
        };
        let texcoord_port = match port(node, "texcoord") {
            Ok(port) => port,
            Err(d) => return Err(d),
        };
        let texcoord = match self.lower_input(prim, texcoord_port) {
            Ok((expression, _)) => expression,
            Err(d) => return Err(d),
        };
        let mut arguments = copy("materialx_texture_");
        arguments.append(index.as_str());
        arguments.append(", materialx_sampler_");
        arguments.append(index.as_str());
        arguments.append(", ");
        arguments.append(default.code.as_str());
        arguments.append(", ");
        arguments.append(texcoord.code.as_str());
        arguments.append(", vec2f(1.0), vec2f(0.0)");
        match (&node.module, &node.symbol) {
            (Some(module), Some(symbol)) => {
                let variable = self.emit_call(module.as_str(), symbol.as_str(), arguments.as_str());
                Ok(
                    Expression {
                        code: variable,
                        materialx_type: copy(output.materialx_type.as_str()),
                    },
                )
            },
            _ => {
                assert(false);
                Err(self.internal_error(prim, ""))
            },
        }
    }

    fn terminal_at(&self, name: &str) -> (r: Result<Option<String>, MaterialXDiagnostic>)
        ensures
            match r {
                Ok(found) => terminal_in(self.graph(), name@) == Ok::<
                    Option<Seq<char>>,
                    DiagnosticView,
                >(crate::text::opt_view(found)),
                Err(d) => terminal_in(self.graph(), name@) == Err::<
                    Option<Seq<char>>,
                    DiagnosticView,
                >(d@),
            },
    {
        let path = match append_property(self.material, name) {
            Ok(path) => path,
            Err(error) => return Err(self.internal_error(name, error.as_str())),
        };
        let sources = match self.connections(path.as_str()) {
            Ok(list) => list,
            Err(d) => return Err(d),
        };
        assert(views(sources@).len() == sources@.len());
        if sources.len() > 1 {
            let mut message = copy("surface terminal has ");
            message.append(number(sources.len() as u64).as_str());
            message.append(" composed sources; exactly one is required");
            return Err(
                MaterialXDiagnostic::error(
                    DiagnosticCode::AmbiguousConnection,
                    self.material,
                    None,
                    Some(path),
                    message.as_str(),
                ),
            );
        }
        if sources.len() == 1 {
            assert(views(sources@)[0] == sources@[0]@);
            return Ok(Some(copy(sources[0].as_str())));
        }
        Ok(None)
    }

    fn select_terminal(&self) -> (r: Result<String, MaterialXDiagnostic>)
        ensures
            text_or(r) == terminal(self.graph()),
    {
        match self.terminal_at("outputs:mtlx:surface") {
            Ok(Some(source)) => return Ok(source),
            Ok(None) => {},
            Err(d) => return Err(d),
        }
        match self.terminal_at("outputs:surface") {
            Ok(Some(source)) => return Ok(source),
            Ok(None) => {},
            Err(d) => return Err(d),
        }
        Err(
            MaterialXDiagnostic::error(
                DiagnosticCode::MissingTerminal,
                self.material,
                None,
                None,
                "neither outputs:mtlx:surface nor universal outputs:surface is connected",
            ),
        )
    }

    fn resolve_surface_node(&self, terminal: &str) -> (r: Result<String, MaterialXDiagnostic>)
        ensures
            text_or(r) == surface_output(self.graph(), terminal@),
    {
        let (prim, property) = match split_property(terminal) {
            Some(parts) => parts,
            None => return Err(
                MaterialXDiagnostic::error(
                    DiagnosticCode::InvalidConnection,
                    self.material,
                    None,
                    Some(copy(terminal)),
                    "surface connection target is not a property path",
                ),
            ),
        };
        if !starts_with(property.as_str(), "outputs:") {
            return Err(
                MaterialXDiagnostic::error(
                    DiagnosticCode::InvalidConnection,
                    self.material,
                    Some(prim),
                    Some(copy(terminal)),
                    "surface terminal must connect to a shader output",
                ),
            );
        }
        let id = match self.shader_id(prim.as_str()) {
            Ok(id) => id,
            Err(d) => return Err(d),
        };
        if str_eq(id.as_str(), "ND_surfacematerial") {
            return match append_property(prim.as_str(), "inputs:surfaceshader") {
                Ok(input) => self.exactly_one_connection(input.as_str()),
                Err(error) => Err(self.internal_error(prim.as_str(), error.as_str())),
            };
        }
        Ok(copy(terminal))
    }

    fn lower_surface_inputs(&mut self, prim: &str, node: &'a Coverage) -> (r: Result<
        Vec<(Expression, bool)>,
        MaterialXDiagnostic,
    >)
        requires
            old(self).registry.validated(),
            old(self).visiting@.len() == 0,
            old(self).work() == no_work(),
        ensures
            match r {
                Ok(done) => lower_ports(
                    old(self).graph(),
                    no_work(),
                    prim@,
                    node@,
                    surface_inputs(),
                    surface_inputs().len(),
                ) == Ok::<(Work, Seq<(ExpressionView, bool)>), DiagnosticView>(
                    (final(self).work(), done_views(done@)),
                ) && done@.len() == surface_inputs().len(),
                Err(d) => lower_ports(
                    old(self).graph(),
                    no_work(),
                    prim@,
                    node@,
                    surface_inputs(),
                    surface_inputs().len(),
                ) == Err::<(Work, Seq<(ExpressionView, bool)>), DiagnosticView>(d@),
            },
            final(self).same_setting(*old(self)),
    {
        let names: Vec<&str> = vec![
            "base",
            "base_color",
            "metalness",
            "specular_roughness",
            "emission",
            "emission_color",
            "opacity",
            "normal",
        ];
        let ghost g = self.graph();
        let ghost wanted = surface_inputs();
        assert(self.open_sources() =~= Set::<Seq<char>>::empty()) by {
            assert(views(self.visiting@) =~= Seq::<Seq<char>>::empty());
        }
        let mut done: Vec<(Expression, bool)> = Vec::new();
        assert(done_views(done@) =~= Seq::<(ExpressionView, bool)>::empty());
        for i in 0..8usize
            invariant
                names@.len() == 8,
                wanted == surface_inputs(),
                forall|k: int| 0 <= k < 8 ==> (#[trigger] names@[k])@ == wanted[k],
                wanted.len() == 8,
                self.same_setting(*old(self)),
                self.registry.validated(),
                g == self.graph(),
                g == old(self).graph(),
                self.open_sources() == Set::<Seq<char>>::empty(),
                lower_ports(g, no_work(), prim@, node@, wanted, i as nat) == Ok::<
                    (Work, Seq<(ExpressionView, bool)>),
                    DiagnosticView,
                >((self.work(), done_views(done@))),
                done@.len() == i,
        {
            let ghost before = self.work();
            let ghost sofar = done_views(done@);
            let input = match port(node, names[i]) {
                Ok(port) => port,
                Err(d) => {
                    proof {
                        port_fails(g, prim@, node@, i as nat, before, sofar, d@);
                    }
                    return Err(d);
                },
            };
            match self.lower_input(prim, input) {
                Ok(pair) => {
                    done.push(pair);
                    assert(done_views(done@) =~= sofar.push((pair.0@, pair.1)));
                    proof {
                        port_succeeds(
                            g,
                            prim@,
                            node@,
                            i as nat,
                            before,
                            sofar,
                            input@,
                            self.work(),
                            (pair.0@, pair.1),
                        );
                    }
                },
                Err(d) => {
                    proof {
                        port_fails(g, prim@, node@, i as nat, before, sofar, d@);
                    }
                    return Err(d);
                },
            }
        }
        Ok(done)
    }

    fn lower_standard_surface(&mut self, output: &str) -> (r: Result<
        (SurfaceExpressions, Vec<MaterialXDiagnostic>),
        MaterialXDiagnostic,
    >)
        requires
            old(self).registry.validated(),
            old(self).visiting@.len() == 0,
            old(self).work() == no_work(),
        ensures
            match r {
                Ok(done) => lower_surface(old(self).graph(), output@) == Ok::<
                    (Work, SurfaceView, Seq<DiagnosticView>),
                    DiagnosticView,
                >((final(self).work(), done.0@, diagnostic_views(done.1@))),
                Err(d) => lower_surface(old(self).graph(), output@) == Err::<
                    (Work, SurfaceView, Seq<DiagnosticView>),
                    DiagnosticView,
                >(d@),
            },
            final(self).same_setting(*old(self)),
    {
        let prim = prim_path(output);
        let id = match self.shader_id(prim.as_str()) {
            Ok(id) => id,
            Err(d) => return Err(d),
        };
        if !str_eq(id.as_str(), "ND_standard_surface_surfaceshader") {
            return Err(
                MaterialXDiagnostic::error(
                    DiagnosticCode::UnknownNodeDef,
                    self.material,
                    Some(prim),
                    Some(copy(output)),
                    cat(
                        "expected ND_standard_surface_surfaceshader, found ",
                        id.as_str(),
                    ).as_str(),
                ),
            );
        }
        match self.verify_id_implementation(prim.as_str()) {
            Ok(_) => {},
            Err(d) => return Err(d),
        }
        let node: &'a Coverage = match self.descriptor(prim.as_str(), id.as_str()) {
            Ok(node) => node,
            Err(d) => return Err(d),
        };
        let ghost g = self.graph();
        let done = match self.lower_surface_inputs(prim.as_str(), node) {
            Ok(done) => done,
            Err(d) => return Err(d),
        };
        let ghost lowered_ports = done_views(done@);
        let normal_active = done[7].1;
        let mut diagnostics: Vec<MaterialXDiagnostic> = Vec::new();
        diagnostics.push(
            MaterialXDiagnostic::warning(
                DiagnosticCode::UnsupportedFeature,
                self.material,
                Some(copy(prim.as_str())),
                None,
                "MaterialX Standard Surface is approximated through Bevy PBR; unsupported lobes use Bevy defaults",
            ),
        );
        if normal_active {
            diagnostics.push(
                MaterialXDiagnostic::warning(
                    DiagnosticCode::UnsupportedFeature,
                    self.material,
                    Some(copy(prim.as_str())),
                    Some(copy("inputs:normal")),
                    "the first slice treats the compiled normal as world-space",
                ),
            );
        }
        assert(diagnostic_views(diagnostics@) =~= surface_warnings(g, prim@, lowered_ports));
        let surface = SurfaceExpressions {
            base_color: weighted(done[1].0.code.as_str(), done[0].0.code.as_str()),
            metalness: copy(done[2].0.code.as_str()),
            roughness: copy(done[3].0.code.as_str()),
            emission: weighted(done[5].0.code.as_str(), done[4].0.code.as_str()),
            opacity: cat(
                cat("dot(", done[6].0.code.as_str()).as_str(),
                ", vec3f(0.299, 0.587, 0.114))",
            ),
            normal: if normal_active {
                Some(copy(done[7].0.code.as_str()))
            } else {
                None
            },
            alpha_blend: done[6].1,
        };
        assert(surface@ =~= surface_of(lowered_ports));
        Ok((surface, diagnostics))
    }

    fn compile(self) -> (r: Result<CompiledMaterialX, CompileFailure>)
        requires
            self.registry.validated(),
            self.visiting@.len() == 0,
            self.work() == no_work(),
        ensures
            compile_result(r) == compile_outcome(self.graph()),
            r matches Ok(c) ==> keyed_by_source(c),
    {
        let mut this = self;
        let terminal = match this.select_terminal() {
            Ok(terminal) => terminal,
            Err(d) => return Err(failure(d)),
        };
        let surface_node = match this.resolve_surface_node(terminal.as_str()) {
            Ok(output) => output,
            Err(d) => return Err(failure(d)),
        };
        let (surface, diagnostics) = match this.lower_standard_surface(surface_node.as_str()) {
            Ok(done) => done,
            Err(d) => return Err(failure(d)),
        };
        let wesl = root_module(&this.imports, &this.lines, &surface);
        let counted: Vec<i128> = vec![this.textures.len() as i128];
        assert(counted@ =~= seq![this.textures@.len() as i128]);
        let graph_key: u64 = fixed_hash(wesl.as_str(), &counted);
        Ok(
            CompiledMaterialX {
                material: copy(this.material),
                graph_key,
                wesl,
                uniforms: this.uniforms,
                textures: this.textures,
                alpha_blend: surface.alpha_blend,
                transmission: false,
                required_modules: this.modules,
                diagnostics,
            },
        )
    }
}

spec fn done_views(done: Seq<(Expression, bool)>) -> Seq<(ExpressionView, bool)> {
    done.map_values(|p: (Expression, bool)| (p.0@, p.1))
}

fn weighted(color: &str, weight: &str) -> (r: String)
    ensures
        r@ == "("@ + color@ + " * vec3f("@ + weight@ + "))"@,
{
    let mut out = copy("(");
    out.append(color);
    out.append(" * vec3f(");
    out.append(weight);
    out.append("))");
    out
}

fn failure(d: MaterialXDiagnostic) -> (r: CompileFailure)
    ensures
        diagnostic_views(r.diagnostics@) == seq![d@],
{
    let diagnostics = vec![d];
    assert(diagnostic_views(diagnostics@) =~= seq![d@]);
    CompileFailure { diagnostics }
}

fn port<'b>(descriptor: &'b Coverage, name: &str) -> (r: Result<&'b Port, MaterialXDiagnostic>)
    ensures
        match r {
            Ok(port) => required_port(descriptor@, name@) == Ok::<PortView, DiagnosticView>(port@),
            Err(d) => required_port(descriptor@, name@) == Err::<PortView, DiagnosticView>(d@),
        },
{
    match descriptor.input(name) {
        Some(port) => Ok(port),
        None => Err(
            MaterialXDiagnostic::error(
                DiagnosticCode::MissingValue,
                "<registry>",
                Some(copy(descriptor.nodedef.as_str())),
                Some(cat("inputs:", name)),
                "host descriptor is missing a required port",
            ),
        ),
    }
}

/// A compilation result, by what it says.
pub open spec fn compile_result(r: Result<CompiledMaterialX, CompileFailure>) -> Result<
    CompiledView,
    Seq<DiagnosticView>,
> {
    match r {
        Ok(c) => Ok(c@),
        Err(f) => Err(diagnostic_views(f.diagnostics@)),
    }
}

/// What compiling the graph gives: the compiled graph, or the one diagnostic
/// that it fails with.
pub open spec fn compile_outcome(g: Graph) -> Result<CompiledView, Seq<DiagnosticView>> {
    match compiled(g) {
        Ok(c) => Ok(c),
        Err(d) => Err(seq![d]),
    }
}

/// The key is a hash of the generated source and of the number of textures, and
/// of nothing else.
pub open spec fn keyed_by_source(c: CompiledMaterialX) -> bool {
    hashes_to(c.wesl@, seq![c.textures@.len() as i128], c.graph_key)
}

/// Compile the MaterialX surface selected from `material`.
///
/// `outputs:mtlx:surface` is selected first. Only when it is unconnected is
/// the universal `outputs:surface` considered.
pub fn compile_materialx(stage: &Stage, material: &str, registry: &MaterialXRegistry) -> (r: Result<
    CompiledMaterialX,
    CompileFailure,
>)
    requires
        registry.validated(),
    ensures
        compile_result(r) == compile_outcome(
            Graph { stage: *stage, material: material@, nodes: registry.descriptors() },
        ),
        r matches Ok(c) ==> keyed_by_source(c),
{
    Compiler::new(stage, material, registry).compile()
}

fn material_sources(stage: &Stage, material: &str, name: &str) -> (r: Vec<String>)
    ensures
        forall|nodes: Seq<CoverageView>|
            views(r@) == #[trigger] readable_sources(
                Graph { stage: *stage, material: material@, nodes },
                name@,
            ),
{
    let none: Vec<String> = Vec::new();
    assert(views(none@) =~= Seq::<Seq<char>>::empty());
    match append_property(material, name) {
        Err(_) => none,
        Ok(path) => match split_property(path.as_str()) {
            None => none,
            Some((prim, property)) => match stage.attribute(prim.as_str(), property.as_str()) {
                None => none,
                Some(found) => match &found.connections {
                    Ok(list) => copy_all(list),
                    Err(_) => none,
                },
            },
        },
    }
}

/// Cheap routing predicate. An explicit MaterialX terminal always opts in;
/// the universal fallback opts in when it directly names a registered
/// MaterialX shader or a NodeGraph interface.
pub fn has_materialx_terminal(stage: &Stage, material: &str, registry: &MaterialXRegistry) -> (r:
    bool)
    ensures
        r == opts_in(Graph { stage: *stage, material: material@, nodes: registry.descriptors() }),
{
    let ghost g = Graph { stage: *stage, material: material@, nodes: registry.descriptors() };
    let own = material_sources(stage, material, "outputs:mtlx:surface");
    assert(views(own@) == readable_sources(g, "outputs:mtlx:surface"@));
    assert(views(own@).len() == own@.len());
    if own.len() > 0 {
        return true;
    }
    let universal = material_sources(stage, material, "outputs:surface");
    assert(views(universal@) == readable_sources(g, "outputs:surface"@));
    assert(views(universal@).len() == universal@.len());
    if universal.len() != 1 {
        return false;
    }
    assert(views(universal@)[0] == universal@[0]@);
    let prim = prim_path(universal[0].as_str());
    if let Some(found) = stage.prim(prim.as_str()) {
        if let Ok(Some(kind)) = &found.prim_type {
            if str_eq(kind.as_str(), "NodeGraph") {
                return true;
            }
        }
    }
    if let Some(attribute) = stage.attribute(prim.as_str(), "info:id") {
        if let Ok(Some(authored)) = &attribute.at_default {
            return match &authored.value {
                Value::Token(id) => registry.node(id.as_str()).is_some(),
                Value::Text(id) => registry.node(id.as_str()).is_some(),
                _ => false,
            };
        }
    }
    false
}

} // verus!
