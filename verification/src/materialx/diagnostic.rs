//! Structured MaterialX compiler and runtime diagnostics.

use crate::text::{copy, copy_opt, opt_view};
use std::collections::VecDeque;
use vstd::prelude::*;

verus! {

#[derive(Debug, Clone, Copy, PartialEq, Eq, Hash, Structural)]
pub enum Severity {
    Warning,
    Error,
}

#[derive(Debug, Clone, Copy, PartialEq, Eq, Hash, Structural)]
pub enum DiagnosticCode {
    InvalidDocument,
    MissingMaterial,
    AmbiguousMaterial,
    MissingTerminal,
    AmbiguousConnection,
    InvalidConnection,
    ConnectionCycle,
    UnknownNodeDef,
    UnsupportedImplementation,
    UnknownOutput,
    MissingValue,
    TypeMismatch,
    UnsupportedFeature,
    MissingAsset,
    ResourceLimit,
}

/// The name of a code as messages print it.
pub open spec fn code_text(code: DiagnosticCode) -> Seq<char> {
    match code {
        DiagnosticCode::InvalidDocument => "InvalidDocument"@,
        DiagnosticCode::MissingMaterial => "MissingMaterial"@,
        DiagnosticCode::AmbiguousMaterial => "AmbiguousMaterial"@,
        DiagnosticCode::MissingTerminal => "MissingTerminal"@,
        DiagnosticCode::AmbiguousConnection => "AmbiguousConnection"@,
        DiagnosticCode::InvalidConnection => "InvalidConnection"@,
        DiagnosticCode::ConnectionCycle => "ConnectionCycle"@,
        DiagnosticCode::UnknownNodeDef => "UnknownNodeDef"@,
        DiagnosticCode::UnsupportedImplementation => "UnsupportedImplementation"@,
        DiagnosticCode::UnknownOutput => "UnknownOutput"@,
        DiagnosticCode::MissingValue => "MissingValue"@,
        DiagnosticCode::TypeMismatch => "TypeMismatch"@,
        DiagnosticCode::UnsupportedFeature => "UnsupportedFeature"@,
        DiagnosticCode::MissingAsset => "MissingAsset"@,
        DiagnosticCode::ResourceLimit => "ResourceLimit"@,
    }
}

impl DiagnosticCode {
    /// The name of the code.
    pub fn text(self) -> (r: &'static str)
        ensures
            r@ == code_text(self),
    {
        match self {
            DiagnosticCode::InvalidDocument => "InvalidDocument",
            DiagnosticCode::MissingMaterial => "MissingMaterial",
            DiagnosticCode::AmbiguousMaterial => "AmbiguousMaterial",
            DiagnosticCode::MissingTerminal => "MissingTerminal",
            DiagnosticCode::AmbiguousConnection => "AmbiguousConnection",
            DiagnosticCode::InvalidConnection => "InvalidConnection",
            DiagnosticCode::ConnectionCycle => "ConnectionCycle",
            DiagnosticCode::UnknownNodeDef => "UnknownNodeDef",
            DiagnosticCode::UnsupportedImplementation => "UnsupportedImplementation",
            DiagnosticCode::UnknownOutput => "UnknownOutput",
            DiagnosticCode::MissingValue => "MissingValue",
            DiagnosticCode::TypeMismatch => "TypeMismatch",
            DiagnosticCode::UnsupportedFeature => "UnsupportedFeature",
            DiagnosticCode::MissingAsset => "MissingAsset",
            DiagnosticCode::ResourceLimit => "ResourceLimit",
        }
    }
}

/// One location-aware MaterialX diagnostic suitable for logging or UI.
#[derive(Debug, Clone, PartialEq, Eq)]
pub struct MaterialXDiagnostic {
    pub severity: Severity,
    pub code: DiagnosticCode,
    pub material: String,
    pub node: Option<String>,
    pub property: Option<String>,
    pub message: String,
}

/// What a diagnostic says, with its texts as character sequences.
#[verifier::ext_equal]
pub struct DiagnosticView {
    pub severity: Severity,
    pub code: DiagnosticCode,
    pub material: Seq<char>,
    pub node: Option<Seq<char>>,
    pub property: Option<Seq<char>>,
    pub message: Seq<char>,
}

impl View for MaterialXDiagnostic {
    type V = DiagnosticView;

    open spec fn view(&self) -> DiagnosticView {
        DiagnosticView {
            severity: self.severity,
            code: self.code,
            material: self.material@,
            node: opt_view(self.node),
            property: opt_view(self.property),
            message: self.message@,
        }
    }
}

/// What a list of diagnostics says.
pub open spec fn diagnostic_views(list: Seq<MaterialXDiagnostic>) -> Seq<DiagnosticView> {
    list.map_values(|d: MaterialXDiagnostic| d@)
}

/// An error diagnostic.
pub open spec fn error_view(
    code: DiagnosticCode,
    material: Seq<char>,
    node: Option<Seq<char>>,
    property: Option<Seq<char>>,
    message: Seq<char>,
) -> DiagnosticView {
    DiagnosticView { severity: Severity::Error, code, material, node, property, message }
}

/// A warning diagnostic.
pub open spec fn warning_view(
    code: DiagnosticCode,
    material: Seq<char>,
    node: Option<Seq<char>>,
    property: Option<Seq<char>>,
    message: Seq<char>,
) -> DiagnosticView {
    DiagnosticView { severity: Severity::Warning, code, material, node, property, message }
}

/// A bracketed location, or nothing.
pub open spec fn location_text(label: Seq<char>, place: Option<Seq<char>>) -> Seq<char> {
    match place {
        Some(p) => label + p + "]"@,
        None => Seq::empty(),
    }
}

/// The one-line form of a diagnostic.
pub open spec fn diagnostic_text(d: DiagnosticView) -> Seq<char> {
    d.material + ": "@ + code_text(d.code) + ": "@ + d.message + location_text(" [node "@, d.node)
        + location_text(" [property "@, d.property)
}

impl MaterialXDiagnostic {
    pub fn error(
        code: DiagnosticCode,
        material: &str,
        node: Option<String>,
        property: Option<String>,
        message: &str,
    ) -> (r: Self)
        ensures
            r@ == error_view(code, material@, opt_view(node), opt_view(property), message@),
    {
        MaterialXDiagnostic {
            severity: Severity::Error,
            code,
            material: copy(material),
            node,
            property,
            message: copy(message),
        }
    }

    pub fn warning(
        code: DiagnosticCode,
        material: &str,
        node: Option<String>,
        property: Option<String>,
        message: &str,
    ) -> (r: Self)
        ensures
            r@ == warning_view(code, material@, opt_view(node), opt_view(property), message@),
    {
        MaterialXDiagnostic {
            severity: Severity::Warning,
            code,
            material: copy(material),
            node,
            property,
            message: copy(message),
        }
    }

    /// A diagnostic that says the same.
    pub fn duplicate(&self) -> (r: Self)
        ensures
            r@ == self@,
    {
        MaterialXDiagnostic {
            severity: self.severity,
            code: self.code,
            material: copy(self.material.as_str()),
            node: copy_opt(&self.node),
            property: copy_opt(&self.property),
            message: copy(self.message.as_str()),
        }
    }

    /// The diagnostic on one line: material, code and message, then the node
    /// and the property where there are any.
    pub fn to_line(&self) -> (r: String)
        ensures
            r@ == diagnostic_text(self@),
    {
        let mut out = copy(self.material.as_str());
        out.append(": ");
        out.append(self.code.text());
        out.append(": ");
        out.append(self.message.as_str());
        let ghost head = out@;
        match &self.node {
            Some(node) => {
                out.append(" [node ");
                out.append(node.as_str());
                out.append("]");
                assert(out@ =~= head + location_text(" [node "@, self@.node));
            },
            None => {
                assert(out@ =~= head + location_text(" [node "@, self@.node));
            },
        }
        let ghost mid = out@;
        match &self.property {
            Some(property) => {
                out.append(" [property ");
                out.append(property.as_str());
                out.append("]");
                assert(out@ =~= mid + location_text(" [property "@, self@.property));
            },
            None => {
                assert(out@ =~= mid + location_text(" [property "@, self@.property));
            },
        }
        out
    }
}

/// Diagnostics attached to an entity whose MaterialX graph failed.
#[derive(Debug, Clone)]
pub struct MaterialXFailure(pub Vec<MaterialXDiagnostic>);

/// How many diagnostics a session keeps.
pub const HISTORY_CAPACITY: usize = 256;

/// Bounded session history for editor/UI inspection.
#[derive(Debug)]
pub struct MaterialXDiagnostics {
    entries: VecDeque<MaterialXDiagnostic>,
    capacity: usize,
}

/// The newest `capacity` items of a history.
pub open spec fn newest<T>(all: Seq<T>, capacity: nat) -> Seq<T> {
    if all.len() <= capacity {
        all
    } else {
        all.skip(all.len() - capacity)
    }
}

impl View for MaterialXDiagnostics {
    type V = Seq<MaterialXDiagnostic>;

    closed spec fn view(&self) -> Seq<MaterialXDiagnostic> {
        self.entries@
    }
}

impl Default for MaterialXDiagnostics {
    fn default() -> (r: Self)
        ensures
            r@ == Seq::<MaterialXDiagnostic>::empty(),
            r.bounded(),
    {
        MaterialXDiagnostics { entries: VecDeque::new(), capacity: HISTORY_CAPACITY }
    }
}

impl MaterialXDiagnostics {
    /// The history never holds more than its capacity.
    pub closed spec fn bounded(self) -> bool {
        self.entries@.len() <= self.capacity && self.capacity == HISTORY_CAPACITY
    }

    /// Appends a diagnostic; when the history is full the oldest one goes.
    pub fn push(&mut self, diagnostic: MaterialXDiagnostic)
        requires
            old(self).bounded(),
        ensures
            final(self)@ == newest(old(self)@.push(diagnostic), HISTORY_CAPACITY as nat),
            final(self).bounded(),
    {
        if self.entries.len() == self.capacity {
            let _ = self.entries.pop_front();
        }
        self.entries.push_back(diagnostic);
        assert(self.entries@ =~= newest(old(self)@.push(diagnostic), HISTORY_CAPACITY as nat));
    }

    /// The kept diagnostics, oldest first.
    pub fn iter(&self) -> (r: Vec<&MaterialXDiagnostic>)
        ensures
            r@ == self@.map_values(|d: MaterialXDiagnostic| &d),
            self.bounded() ==> r@.len() <= HISTORY_CAPACITY,
    {
        let mut out: Vec<&MaterialXDiagnostic> = Vec::new();
        for i in 0..self.entries.len()
            invariant
                out@.len() == i,
                forall|k: int| 0 <= k < i ==> out@[k] == &self.entries@[k],
        {
            out.push(&self.entries[i]);
        }
        assert(out@ =~= self@.map_values(|d: MaterialXDiagnostic| &d));
        out
    }
}

/// The history that starts empty and takes `pushed` one after the other.
pub open spec fn history(pushed: Seq<MaterialXDiagnostic>) -> Seq<MaterialXDiagnostic>
    decreases pushed.len(),
{
    if pushed.len() == 0 {
        Seq::empty()
    } else {
        newest(history(pushed.drop_last()).push(pushed.last()), HISTORY_CAPACITY as nat)
    }
}

/// However many diagnostics were pushed, the history holds the newest 256 of
/// them in the order they came.
pub proof fn history_keeps_the_newest(pushed: Seq<MaterialXDiagnostic>)
    ensures
        history(pushed) == newest(pushed, HISTORY_CAPACITY as nat),
        history(pushed).len() <= HISTORY_CAPACITY,
    decreases pushed.len(),
{
    if pushed.len() > 0 {
        history_keeps_the_newest(pushed.drop_last());
    }
    assert(history(pushed) =~= newest(pushed, HISTORY_CAPACITY as nat));
}

} // verus!
