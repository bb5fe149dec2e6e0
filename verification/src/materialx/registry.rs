//! The MaterialX NodeDef registry that the graph compiler reads.

use super::value::{
    components, default_slot, digits_end, first_bad, is_digit, is_float, is_number,
};
use crate::text::{
    contains, copy, copy_opt, occurs, opt_view, split_on, splits_at_last, str_eq, trim_front, trimmed, unsplit,
};
use vstd::prelude::*;

verus! {

/// MaterialX source provenance recorded by the translator.
#[derive(Debug, Clone, PartialEq, Eq)]
pub struct Upstream {
    pub project: String,
    pub version: String,
    pub commit: String,
    pub source_url: String,
}

/// Coverage totals from the translator snapshot.
#[derive(Debug, Clone, PartialEq, Eq)]
pub struct Summary {
    pub nodedefs: usize,
    pub inline_generated: usize,
    pub file_backed: usize,
    pub generator_context: usize,
    pub nodegraphs: usize,
    pub host_only: usize,
    pub unsupported_upstream: usize,
}

/// One ordered MaterialX input or output port.
#[derive(Debug, Clone, PartialEq, Eq)]
pub struct Port {
    pub name: String,
    pub materialx_type: String,
    pub wesl_type: Option<String>,
    pub default_value: Option<String>,
    pub uniform: bool,
}

/// Descriptor for one MaterialX NodeDef.
#[derive(Debug, Clone, PartialEq, Eq)]
pub struct Coverage {
    pub nodedef: String,
    pub node: String,
    pub node_group: String,
    pub source_kind: String,
    pub source: Option<String>,
    pub symbol: Option<String>,
    pub module: Option<String>,
    pub status: String,
    pub reason: Option<String>,
    pub inputs: Vec<Port>,
    pub outputs: Vec<Port>,
}

/// The translator's coverage document, as parsed.
#[derive(Debug, Clone)]
pub struct Manifest {
    pub schema_version: u32,
    pub generator: String,
    pub upstream: Upstream,
    pub summary: Summary,
    pub nodes: Vec<Coverage>,
}

/// One bundled WESL module: its descriptor name, its Bevy asset path and its
/// source.
#[derive(Debug, Clone)]
pub struct TranslatorModule {
    pub module: String,
    pub asset_path: String,
    pub source: String,
}

/// Descriptor registry used by the graph compiler.
#[derive(Debug, Clone)]
pub struct MaterialXRegistry {
    schema_version: u32,
    generator: String,
    upstream: Upstream,
    summary: Summary,
    nodes: Vec<Coverage>,
    modules: Vec<TranslatorModule>,
}

/// A port, with its texts as character sequences.
#[verifier::ext_equal]
pub struct PortView {
    pub name: Seq<char>,
    pub materialx_type: Seq<char>,
    pub wesl_type: Option<Seq<char>>,
    pub default_value: Option<Seq<char>>,
    pub uniform: bool,
}

/// A descriptor, with its texts as character sequences.
#[verifier::ext_equal]
pub struct CoverageView {
    pub nodedef: Seq<char>,
    pub node: Seq<char>,
    pub node_group: Seq<char>,
    pub source_kind: Seq<char>,
    pub source: Option<Seq<char>>,
    pub symbol: Option<Seq<char>>,
    pub module: Option<Seq<char>>,
    pub status: Seq<char>,
    pub reason: Option<Seq<char>>,
    pub inputs: Seq<PortView>,
    pub outputs: Seq<PortView>,
}

impl View for Port {
    type V = PortView;

    open spec fn view(&self) -> PortView {
        PortView {
            name: self.name@,
            materialx_type: self.materialx_type@,
            wesl_type: opt_view(self.wesl_type),
            default_value: opt_view(self.default_value),
            uniform: self.uniform,
        }
    }
}

/// What a list of ports says.
pub open spec fn port_views(list: Seq<Port>) -> Seq<PortView> {
    list.map_values(|p: Port| p@)
}

impl View for Coverage {
    type V = CoverageView;

    open spec fn view(&self) -> CoverageView {
        CoverageView {
            nodedef: self.nodedef@,
            node: self.node@,
            node_group: self.node_group@,
            source_kind: self.source_kind@,
            source: opt_view(self.source),
            symbol: opt_view(self.symbol),
            module: opt_view(self.module),
            status: self.status@,
            reason: opt_view(self.reason),
            inputs: port_views(self.inputs@),
            outputs: port_views(self.outputs@),
        }
    }
}

/// What a list of descriptors says.
pub open spec fn coverage_views(list: Seq<Coverage>) -> Seq<CoverageView> {
    list.map_values(|c: Coverage| c@)
}

/// The descriptor that `nodedef` names: the last one where several share it.
pub open spec fn find_node(nodes: Seq<CoverageView>, nodedef: Seq<char>) -> Option<CoverageView>
    decreases nodes.len(),
{
    if nodes.len() == 0 {
        None
    } else if nodes.last().nodedef == nodedef {
        Some(nodes.last())
    } else {
        find_node(nodes.drop_last(), nodedef)
    }
}

/// The first port called `name`.
pub open spec fn find_port(ports: Seq<PortView>, name: Seq<char>) -> Option<PortView>
    decreases ports.len(),
{
    if ports.len() == 0 {
        None
    } else if ports[0].name == name {
        Some(ports[0])
    } else {
        find_port(ports.skip(1), name)
    }
}

/// The descriptor stands for a WESL function that generated code may call.
pub open spec fn is_callable(node: CoverageView) -> bool {
    node.status == "translated"@ || node.status == "composed"@
}

/// A descriptor that generated code calls names its module and its symbol.
pub open spec fn names_its_symbol(node: CoverageView) -> bool {
    (is_callable(node) || node.nodedef == "ND_image_color3"@) ==> node.module is Some
        && node.symbol is Some
}

/// The module is called `name` and defines a function called `symbol`.
pub open spec fn defines(module: TranslatorModule, name: Seq<char>, symbol: Seq<char>) -> bool {
    module.module@ == name && occurs(module.source@, "fn "@ + symbol + "("@)
}

/// Some module of the list is called `name` and defines `symbol`.
pub open spec fn is_defined(
    modules: Seq<TranslatorModule>,
    name: Seq<char>,
    symbol: Seq<char>,
) -> bool {
    exists|j: int| 0 <= j < modules.len() && defines(#[trigger] modules[j], name, symbol)
}

/// A descriptor that generated code calls names a module of the list that
/// defines its symbol.
pub open spec fn is_bundled(modules: Seq<TranslatorModule>, node: CoverageView) -> bool {
    is_callable(node) ==> node.module is Some && node.symbol is Some && is_defined(
        modules,
        node.module->0,
        node.symbol->0,
    )
}

/// A port with a WESL type and a default.
pub open spec fn host_port(
    name: Seq<char>,
    materialx_type: Seq<char>,
    wesl_type: Seq<char>,
    default_value: Seq<char>,
) -> PortView {
    PortView {
        name,
        materialx_type,
        wesl_type: Some(wesl_type),
        default_value: Some(default_value),
        uniform: false,
    }
}

/// The Standard Surface descriptor, a host node with a small interface.
pub open spec fn standard_surface_node() -> CoverageView {
    CoverageView {
        nodedef: "ND_standard_surface_surfaceshader"@,
        node: "standard_surface"@,
        node_group: "pbr"@,
        source_kind: "host"@,
        source: None,
        symbol: None,
        module: None,
        status: "host_pbr"@,
        reason: Some("Lowered approximately to Bevy StandardMaterial/PBR inputs"@),
        inputs: seq![
            host_port("base"@, "float"@, "f32"@, "1.0"@),
            host_port("base_color"@, "color3"@, "vec3f"@, "0.8, 0.8, 0.8"@),
            host_port("metalness"@, "float"@, "f32"@, "0.0"@),
            host_port("specular_roughness"@, "float"@, "f32"@, "0.2"@),
            host_port("emission"@, "float"@, "f32"@, "0.0"@),
            host_port("emission_color"@, "color3"@, "vec3f"@, "1.0, 1.0, 1.0"@),
            host_port("opacity"@, "color3"@, "vec3f"@, "1.0, 1.0, 1.0"@),
            host_port("normal"@, "vector3"@, "vec3f"@, "0.0, 0.0, 1.0"@),
        ],
        outputs: seq![
            PortView {
                name: "out"@,
                materialx_type: "surfaceshader"@,
                wesl_type: None,
                default_value: None,
                uniform: false,
            },
        ],
    }
}

impl Port {
    /// A port that says the same.
    pub fn duplicate(&self) -> (r: Port)
        ensures
            r@ == self@,
    {
        Port {
            name: copy(self.name.as_str()),
            materialx_type: copy(self.materialx_type.as_str()),
            wesl_type: copy_opt(&self.wesl_type),
            default_value: copy_opt(&self.default_value),
            uniform: self.uniform,
        }
    }
}

impl Coverage {
    /// The first input called `name`.
    pub fn input(&self, name: &str) -> (r: Option<&Port>)
        ensures
            match r {
                Some(p) => find_port(self@.inputs, name@) == Some(p@),
                None => find_port(self@.inputs, name@) is None,
            },
    {
        first_port(&self.inputs, name)
    }

    /// The first output called `name`.
    pub fn output(&self, name: &str) -> (r: Option<&Port>)
        ensures
            match r {
                Some(p) => find_port(self@.outputs, name@) == Some(p@),
                None => find_port(self@.outputs, name@) is None,
            },
    {
        first_port(&self.outputs, name)
    }

    /// Whether generated code may call the node's WESL function.
    pub fn callable(&self) -> (r: bool)
        ensures
            r == is_callable(self@),
    {
        str_eq(self.status.as_str(), "translated") || str_eq(self.status.as_str(), "composed")
    }
}

fn first_port<'a>(ports: &'a Vec<Port>, name: &str) -> (r: Option<&'a Port>)
    ensures
        match r {
            Some(p) => find_port(port_views(ports@), name@) == Some(p@),
            None => find_port(port_views(ports@), name@) is None,
        },
{
    let ghost all = port_views(ports@);
    let mut i: usize = 0;
    assert(all.skip(0) =~= all);
    while i < ports.len()
        invariant
            i <= ports@.len(),
            all == port_views(ports@),
            find_port(all, name@) == find_port(all.skip(i as int), name@),
        decreases ports@.len() - i,
    {
        if str_eq(ports[i].name.as_str(), name) {
            return Some(&ports[i]);
        }
        assert(all.skip(i as int).skip(1) =~= all.skip(i as int + 1));
        i = i + 1;
    }
    None
}

fn make_port(name: &str, materialx_type: &str, wesl_type: &str, default_value: &str) -> (r: Port)
    ensures
        r@ == host_port(name@, materialx_type@, wesl_type@, default_value@),
{
    Port {
        name: copy(name),
        materialx_type: copy(materialx_type),
        wesl_type: Some(copy(wesl_type)),
        default_value: Some(copy(default_value)),
        uniform: false,
    }
}

/// The Standard Surface descriptor.
pub fn host_standard_surface() -> (r: Coverage)
    ensures
        r@ == standard_surface_node(),
{
    let inputs = vec![
        make_port("base", "float", "f32", "1.0"),
        make_port("base_color", "color3", "vec3f", "0.8, 0.8, 0.8"),
        make_port("metalness", "float", "f32", "0.0"),
        make_port("specular_roughness", "float", "f32", "0.2"),
        make_port("emission", "float", "f32", "0.0"),
        make_port("emission_color", "color3", "vec3f", "1.0, 1.0, 1.0"),
        make_port("opacity", "color3", "vec3f", "1.0, 1.0, 1.0"),
        make_port("normal", "vector3", "vec3f", "0.0, 0.0, 1.0"),
    ];
    let outputs = vec![
        Port {
            name: copy("out"),
            materialx_type: copy("surfaceshader"),
            wesl_type: None,
            default_value: None,
            uniform: false,
        },
    ];
    let node = Coverage {
        nodedef: copy("ND_standard_surface_surfaceshader"),
        node: copy("standard_surface"),
        node_group: copy("pbr"),
        source_kind: copy("host"),
        source: None,
        symbol: None,
        module: None,
        status: copy("host_pbr"),
        reason: Some(copy("Lowered approximately to Bevy StandardMaterial/PBR inputs")),
        inputs,
        outputs,
    };
    assert(node@.inputs =~= standard_surface_node().inputs);
    assert(node@.outputs =~= standard_surface_node().outputs);
    node
}

impl MaterialXRegistry {
    /// The descriptors, in order.
    pub closed spec fn descriptors(self) -> Seq<CoverageView> {
        coverage_views(self.nodes@)
    }

    /// The bundled WESL modules, in order.
    pub closed spec fn module_list(self) -> Seq<TranslatorModule> {
        self.modules@
    }

    /// The descriptor that `nodedef` names.
    pub open spec fn lookup(self, nodedef: Seq<char>) -> Option<CoverageView> {
        find_node(self.descriptors(), nodedef)
    }

    /// The manifest parts that the registry reports unchanged.
    pub closed spec fn provenance(self) -> (u32, Seq<char>, Upstream, Summary) {
        (self.schema_version, self.generator@, self.upstream, self.summary)
    }

    /// Every descriptor that generated code calls names its module and symbol.
    pub open spec fn validated(self) -> bool {
        forall|i: int|
            0 <= i < self.descriptors().len() ==> names_its_symbol(#[trigger] self.descriptors()[i])
    }

    /// Every descriptor that generated code calls names a bundled module that
    /// defines its symbol.
    pub open spec fn complete(self) -> bool {
        forall|i: int|
            0 <= i < self.descriptors().len() ==> is_bundled(
                self.module_list(),
                #[trigger] self.descriptors()[i],
            )
    }

    /// The registry of a parsed manifest. Standard Surface lives in the
    /// MaterialX pbrlib, which the translator does not cover: it is a host node
    /// that follows the manifest's own.
    pub fn from_manifest(manifest: Manifest, modules: Vec<TranslatorModule>) -> (r: Self)
        ensures
            r.descriptors() == coverage_views(manifest.nodes@).push(standard_surface_node()),
            r.module_list() == modules@,
            r.provenance() == (
                manifest.schema_version,
                manifest.generator@,
                manifest.upstream,
                manifest.summary,
            ),
    {
        let mut nodes = manifest.nodes;
        let ghost before = nodes@;
        nodes.push(host_standard_surface());
        assert(coverage_views(nodes@) =~= coverage_views(before).push(standard_surface_node()));
        MaterialXRegistry {
            schema_version: manifest.schema_version,
            generator: manifest.generator,
            upstream: manifest.upstream,
            summary: manifest.summary,
            nodes,
            modules,
        }
    }

    pub fn schema_version(&self) -> (r: u32)
        ensures
            r == self.provenance().0,
    {
        self.schema_version
    }

    pub fn generator(&self) -> (r: &str)
        ensures
            r@ == self.provenance().1,
    {
        self.generator.as_str()
    }

    pub fn upstream(&self) -> (r: &Upstream)
        ensures
            *r == self.provenance().2,
    {
        &self.upstream
    }

    pub fn summary(&self) -> (r: &Summary)
        ensures
            *r == self.provenance().3,
    {
        &self.summary
    }

    /// The descriptor that `nodedef` names.
    pub fn node(&self, nodedef: &str) -> (r: Option<&Coverage>)
        ensures
            match r {
                Some(c) => self.lookup(nodedef@) == Some(c@),
                None => self.lookup(nodedef@) is None,
            },
    {
        let ghost all = self.descriptors();
        let mut i: usize = self.nodes.len();
        assert(all.take(i as int) =~= all);
        while i > 0
            invariant
                i <= self.nodes@.len(),
                all == coverage_views(self.nodes@),
                find_node(all, nodedef@) == find_node(all.take(i as int), nodedef@),
            decreases i,
        {
            assert(all.take(i as int).last() == self.nodes@[i - 1]@);
            assert(all.take(i as int).drop_last() =~= all.take(i - 1));
            if str_eq(self.nodes[i - 1].nodedef.as_str(), nodedef) {
                return Some(&self.nodes[i - 1]);
            }
            i = i - 1;
        }
        None
    }

    pub fn len(&self) -> (r: usize)
        ensures
            r == self.descriptors().len(),
    {
        self.nodes.len()
    }

    pub fn is_empty(&self) -> (r: bool)
        ensures
            r == (self.descriptors().len() == 0),
    {
        self.nodes.len() == 0
    }

    /// Every bundled WESL module with its Bevy asset path and source.
    pub fn translator_modules(&self) -> (r: &Vec<TranslatorModule>)
        ensures
            r@ == self.module_list(),
    {
        &self.modules
    }

    /// Whether every descriptor that generated code calls names its module and
    /// its symbol, as the compiler needs.
    pub fn is_validated(&self) -> (r: bool)
        ensures
            r == self.validated(),
    {
        for i in 0..self.nodes.len()
            invariant
                forall|k: int| 0 <= k < i ==> names_its_symbol(#[trigger] self.descriptors()[k]),
        {
            let node = &self.nodes[i];
            assert(self.descriptors()[i as int] == node@);
            if (node.callable() || str_eq(node.nodedef.as_str(), "ND_image_color3")) && (
            node.module.is_none() || node.symbol.is_none()) {
                assert(!names_its_symbol(self.descriptors()[i as int]));
                return false;
            }
        }
        true
    }

    fn defines_symbol(&self, name: &str, symbol: &str) -> (r: bool)
        ensures
            r == is_defined(self.module_list(), name@, symbol@),
    {
        let mut head = copy("fn ");
        head.append(symbol);
        head.append("(");
        for j in 0..self.modules.len()
            invariant
                head@ == "fn "@ + symbol@ + "("@,
                forall|k: int| 0 <= k < j ==> !defines(#[trigger] self.modules@[k], name@, symbol@),
        {
            let module = &self.modules[j];
            if str_eq(module.module.as_str(), name) && contains(
                module.source.as_str(),
                head.as_str(),
            ) {
                assert(defines(self.modules@[j as int], name@, symbol@));
                return true;
            }
        }
        false
    }

    /// Whether every descriptor that generated code calls names a bundled
    /// module that defines its symbol.
    pub fn is_complete(&self) -> (r: bool)
        ensures
            r == self.complete(),
    {
        for i in 0..self.nodes.len()
            invariant
                forall|k: int|
                    0 <= k < i ==> is_bundled(self.module_list(), #[trigger] self.descriptors()[k]),
        {
            let node = &self.nodes[i];
            assert(self.descriptors()[i as int] == node@);
            if node.callable() {
                let found = match (&node.module, &node.symbol) {
                    (Some(module), Some(symbol)) => self.defines_symbol(
                        module.as_str(),
                        symbol.as_str(),
                    ),
                    _ => false,
                };
                if !found {
                    assert(!is_bundled(self.module_list(), self.descriptors()[i as int]));
                    return false;
                }
            }
        }
        true
    }
}

/// A callable descriptor found in a complete registry names a bundled module
/// that defines its symbol.
pub proof fn found_nodes_are_bundled(registry: MaterialXRegistry, nodedef: Seq<char>)
    requires
        registry.complete(),
    ensures
        registry.lookup(nodedef) matches Some(node) ==> is_bundled(registry.module_list(), node),
{
    found_in(registry.descriptors(), nodedef);
}

/// A descriptor found in a validated registry names its module and symbol
/// where generated code calls it.
pub proof fn found_nodes_name_their_symbol(registry: MaterialXRegistry, nodedef: Seq<char>)
    requires
        registry.validated(),
    ensures
        registry.lookup(nodedef) matches Some(node) ==> names_its_symbol(node) && node.nodedef
            == nodedef,
{
    found_in(registry.descriptors(), nodedef);
}

proof fn found_in(nodes: Seq<CoverageView>, nodedef: Seq<char>)
    ensures
        find_node(nodes, nodedef) matches Some(node) ==> nodes.contains(node) && node.nodedef
            == nodedef,
    decreases nodes.len(),
{
    if nodes.len() > 0 {
        found_in(nodes.drop_last(), nodedef);
        if nodes.last().nodedef == nodedef {
            assert(nodes[nodes.len() - 1] == nodes.last());
        } else if find_node(nodes.drop_last(), nodedef) is Some {
            let node = find_node(nodes.drop_last(), nodedef)->0;
            let k = choose|k: int| 0 <= k < nodes.len() - 1 && nodes.drop_last()[k] == node;
            assert(nodes[k] == node);
        }
    }
}

/// Whatever the manifest holds, a registry built from it knows Standard
/// Surface as the host node.
pub proof fn standard_surface_is_always_known(nodes: Seq<CoverageView>)
    ensures
        find_node(
            nodes.push(standard_surface_node()),
            "ND_standard_surface_surfaceshader"@,
        ) == Some(standard_surface_node()),
{
    assert(nodes.push(standard_surface_node()).last() == standard_surface_node());
}

/// The text is a digit, a dot and a digit.
spec fn is_plain_decimal(s: Seq<char>) -> bool {
    s.len() == 3 && is_digit(s[0]) && s[1] == '.' && is_digit(s[2])
}

proof fn plain_decimals_are_floats(s: Seq<char>)
    requires
        is_plain_decimal(s),
    ensures
        is_float(s),
        trimmed(s) == s,
        trimmed(seq![' '] + s) == s,
        !s.contains(','),
        !(seq![' '] + s).contains(','),
{
    reveal_with_fuel(digits_end, 3);
    assert(is_number(s, 0));
    let spaced = seq![' '] + s;
    assert(spaced[0] == ' ');
    assert(spaced.skip(1) =~= s);
    reveal_with_fuel(trim_front, 2);
}

proof fn numbers_fill_one(materialx_type: Seq<char>, s: Seq<char>)
    requires
        is_plain_decimal(s),
        materialx_type != "boolean"@,
        components(materialx_type) == Some(1nat),
    ensures
        default_slot(materialx_type, s) is Ok,
{
    plain_decimals_are_floats(s);
    unsplit(s, ',');
    reveal_with_fuel(first_bad, 2);
}

proof fn triples_fill_three(materialx_type: Seq<char>, s: Seq<char>)
    requires
        s.len() == 13,
        is_plain_decimal(s.subrange(0, 3)),
        s[3] == ',',
        s[4] == ' ',
        is_plain_decimal(s.subrange(5, 8)),
        s[8] == ',',
        s[9] == ' ',
        is_plain_decimal(s.subrange(10, 13)),
        materialx_type != "boolean"@,
        components(materialx_type) == Some(3nat),
    ensures
        default_slot(materialx_type, s) is Ok,
{
    let a = s.subrange(0, 3);
    let b = s.subrange(5, 8);
    let c = s.subrange(10, 13);
    plain_decimals_are_floats(a);
    plain_decimals_are_floats(b);
    plain_decimals_are_floats(c);
    assert(s.skip(9) =~= seq![' '] + c);
    splits_at_last(s, ',', 8);
    let head = s.take(8);
    assert(head.skip(4) =~= seq![' '] + b);
    splits_at_last(head, ',', 3);
    assert(head.take(3) =~= a);
    unsplit(a, ',');
    let parts = split_on(s, ',');
    assert(parts =~= seq![a, seq![' '] + b, seq![' '] + c]);
    assert(parts.skip(1)[0] == parts[1]);
    assert(parts.skip(1).skip(1)[0] == parts[2]);
    assert(parts.skip(1).skip(1).skip(1).len() == 0);
    reveal_with_fuel(first_bad, 4);
}

/// Every input of the Standard Surface descriptor has a WESL type and a
/// default that parses as its MaterialX type, and no two inputs share a name.
pub proof fn standard_surface_defaults_parse()
    ensures
        forall|i: int|
            0 <= i < standard_surface_node().inputs.len() ==> {
                let port = #[trigger] standard_surface_node().inputs[i];
                port.wesl_type is Some && port.default_value is Some && default_slot(
                    port.materialx_type,
                    port.default_value->0,
                ) is Ok
            },
        forall|i: int, j: int|
            0 <= i < j < standard_surface_node().inputs.len() ==> (
            #[trigger] standard_surface_node().inputs[i]).name != (
            #[trigger] standard_surface_node().inputs[j]).name,
{
    reveal_strlit("boolean");
    reveal_strlit("integer");
    reveal_strlit("float");
    reveal_strlit("vector2");
    reveal_strlit("color3");
    reveal_strlit("vector3");
    reveal_strlit("base");
    reveal_strlit("base_color");
    reveal_strlit("metalness");
    reveal_strlit("specular_roughness");
    reveal_strlit("emission");
    reveal_strlit("emission_color");
    reveal_strlit("opacity");
    reveal_strlit("normal");
    reveal_strlit("1.0");
    reveal_strlit("0.0");
    reveal_strlit("0.2");
    reveal_strlit("0.8, 0.8, 0.8");
    reveal_strlit("1.0, 1.0, 1.0");
    reveal_strlit("0.0, 0.0, 1.0");
    assert("color3"@.len() == 6);
    assert(components("color3"@) == Some(3nat));
    let inputs = standard_surface_node().inputs;
    assert forall|i: int, j: int| 0 <= i < j < inputs.len() implies (#[trigger] inputs[i]).name != (
    #[trigger] inputs[j]).name by {
        assert(inputs[0].name.len() == 4);
        assert(inputs[1].name.len() == 10);
        assert(inputs[2].name.len() == 9);
        assert(inputs[3].name.len() == 18);
        assert(inputs[4].name.len() == 8);
        assert(inputs[5].name.len() == 14);
        assert(inputs[6].name.len() == 7);
        assert(inputs[7].name.len() == 6);
    }
    assert("vector3"@[0] != "boolean"@[0]);
    assert("vector3"@[0] != "integer"@[0]);
    assert("vector3"@[6] != "vector2"@[6]);
    numbers_fill_one("float"@, "1.0"@);
    numbers_fill_one("float"@, "0.0"@);
    numbers_fill_one("float"@, "0.2"@);
    triples_fill_three("color3"@, "0.8, 0.8, 0.8"@);
    triples_fill_three("color3"@, "1.0, 1.0, 1.0"@);
    triples_fill_three("vector3"@, "0.0, 0.0, 1.0"@);
}

} // verus!
