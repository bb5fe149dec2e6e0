//! The overlays pane: what is drawn over the scene, and what its switches and
//! sliders change.

use super::rows::{row_views, section, section_views, slider, toggle, RowView, Section, SectionView};
use crate::float::{round_to_u32, rounded64};
use crate::stage::Scalar;
use vstd::prelude::*;

verus! {

/// The bits of the doubles that bound the sliders.
pub const ZERO: u64 = 0;

pub const FIVE: u64 = 0x4014_0000_0000_0000;

pub const MIN_RADIUS: u64 = 0x3f50_624d_d2f1_a9fc;

pub const MAX_RADIUS: u64 = 0x3fc9_9999_9999_999a;

pub const MIN_SEGMENTS: u64 = 0x4008_0000_0000_0000;

pub const MAX_SEGMENTS: u64 = 0x4038_0000_0000_0000;

pub const MIN_POINT_SCALE: u64 = 0x3fa9_9999_9999_999a;

pub const MAX_POINT_SCALE: u64 = 0x4010_0000_0000_0000;

/// What is drawn over the scene.
#[derive(Debug, Clone, Copy, PartialEq, Eq, Structural)]
pub struct DisplayToggles {
    pub show_world_grid: bool,
    pub show_world_axes: bool,
    pub show_prim_markers: bool,
    pub prim_marker_bias: Scalar,
    pub show_skeleton: bool,
    pub show_physics: bool,
    pub show_colliders: bool,
    pub wireframe: bool,
    pub light_intensity_scale: Scalar,
}

/// How curves and points are turned into meshes.
#[derive(Debug, Clone, Copy, PartialEq, Eq, Structural)]
pub struct CurveTuning {
    pub default_radius: Scalar,
    pub ring_segments: u32,
    pub point_scale: Scalar,
}

/// The controls of the pane.
#[derive(Debug, Clone, Copy, PartialEq, Eq, Structural)]
pub enum Control {
    WorldGrid,
    WorldAxes,
    PrimMarkers,
    MarkerBias,
    Skeleton,
    Physics,
    Colliders,
    Wireframe,
    LightIntensity,
    CurveRadius,
    RingSegments,
    PointScale,
}

/// A control that was moved, with its new state; that of a slider is the bits
/// of a double.
#[derive(Debug, Clone, Copy, PartialEq, Eq, Structural)]
pub enum Change {
    Switched(Control, bool),
    Slid(Control, u64),
}

/// A slider.
pub open spec fn slider_view(
    label: Seq<char>,
    value: Scalar,
    low: u64,
    high: u64,
    digits: u32,
    unit: Seq<char>,
) -> RowView {
    RowView::Slider { label, value, low, high, digits, unit }
}

/// The world section.
pub open spec fn world_section(t: DisplayToggles) -> SectionView {
    SectionView {
        id: "ov_world"@,
        title: "World overlays"@,
        icon: "square-multiple"@,
        rows: seq![
            RowView::Toggle { label: "Ground grid (G)"@, on: t.show_world_grid },
            RowView::Toggle { label: "World axes (X)"@, on: t.show_world_axes },
            RowView::Toggle { label: "Prim markers (P)"@, on: t.show_prim_markers },
            slider_view("Prim marker bias"@, t.prim_marker_bias, ZERO, FIVE, 2, "×"@),
            RowView::Toggle { label: "Skeleton bones (B)"@, on: t.show_skeleton },
            RowView::Toggle { label: "Physics gizmos (Y)"@, on: t.show_physics },
            RowView::Toggle { label: "Collider wireframes (C)"@, on: t.show_colliders },
        ],
    }
}

/// The render section.
pub open spec fn render_section(t: DisplayToggles) -> SectionView {
    SectionView {
        id: "ov_render"@,
        title: "Render"@,
        icon: "color"@,
        rows: seq![
            RowView::Toggle { label: "Wireframe"@, on: t.wireframe },
            slider_view("Light intensity"@, t.light_intensity_scale, ZERO, FIVE, 2, "×"@),
        ],
    }
}

/// The curves section.
pub open spec fn curve_section(c: CurveTuning) -> SectionView {
    SectionView {
        id: "ov_curves"@,
        title: "Curves (tubes)"@,
        icon: "options"@,
        rows: seq![
            slider_view("Radius"@, c.default_radius, MIN_RADIUS, MAX_RADIUS, 3, " m"@),
            slider_view(
                "Ring segments"@,
                Scalar::Int(c.ring_segments as i64),
                MIN_SEGMENTS,
                MAX_SEGMENTS,
                0,
                ""@,
            ),
            slider_view("Point scale"@, c.point_scale, MIN_POINT_SCALE, MAX_POINT_SCALE, 2, "×"@),
        ],
    }
}

/// What the overlays pane shows.
pub fn draw_overlays_panel(t: DisplayToggles, c: CurveTuning) -> (r: Vec<Section>)
    ensures
        section_views(r@) == seq![world_section(t), render_section(t), curve_section(c)],
{
    let world = vec![
        toggle("Ground grid (G)", t.show_world_grid),
        toggle("World axes (X)", t.show_world_axes),
        toggle("Prim markers (P)", t.show_prim_markers),
        slider("Prim marker bias", t.prim_marker_bias, ZERO, FIVE, 2, "×"),
        toggle("Skeleton bones (B)", t.show_skeleton),
        toggle("Physics gizmos (Y)", t.show_physics),
        toggle("Collider wireframes (C)", t.show_colliders),
    ];
    assert(row_views(world@) =~= world_section(t).rows);
    let render = vec![
        toggle("Wireframe", t.wireframe),
        slider("Light intensity", t.light_intensity_scale, ZERO, FIVE, 2, "×"),
    ];
    assert(row_views(render@) =~= render_section(t).rows);
    let curves = vec![
        slider("Radius", c.default_radius, MIN_RADIUS, MAX_RADIUS, 3, " m"),
        slider(
            "Ring segments",
            Scalar::Int(c.ring_segments as i64),
            MIN_SEGMENTS,
            MAX_SEGMENTS,
            0,
            "",
        ),
        slider("Point scale", c.point_scale, MIN_POINT_SCALE, MAX_POINT_SCALE, 2, "×"),
    ];
    assert(row_views(curves@) =~= curve_section(c).rows);
    let sections = vec![
        section("ov_world", "World overlays", "square-multiple", world),
        section("ov_render", "Render", "color", render),
        section("ov_curves", "Curves (tubes)", "options", curves),
    ];
    assert(section_views(sections@) =~= seq![
        world_section(t),
        render_section(t),
        curve_section(c),
    ]);
    sections
}

/// The switches and sliders after one was moved. Ring segments are whole: the
/// slider's value is rounded.
pub open spec fn changed(t: DisplayToggles, c: CurveTuning, change: Change) -> (
    DisplayToggles,
    CurveTuning,
) {
    match change {
        Change::Switched(Control::WorldGrid, on) => (
            DisplayToggles { show_world_grid: on, ..t },
            c,
        ),
        Change::Switched(Control::WorldAxes, on) => (
            DisplayToggles { show_world_axes: on, ..t },
            c,
        ),
        Change::Switched(Control::PrimMarkers, on) => (
            DisplayToggles { show_prim_markers: on, ..t },
            c,
        ),
        Change::Switched(Control::Skeleton, on) => (DisplayToggles { show_skeleton: on, ..t }, c),
        Change::Switched(Control::Physics, on) => (DisplayToggles { show_physics: on, ..t }, c),
        Change::Switched(Control::Colliders, on) => (
            DisplayToggles { show_colliders: on, ..t },
            c,
        ),
        Change::Switched(Control::Wireframe, on) => (DisplayToggles { wireframe: on, ..t }, c),
        Change::Slid(Control::MarkerBias, v) => (
            DisplayToggles { prim_marker_bias: Scalar::F64(v), ..t },
            c,
        ),
        Change::Slid(Control::LightIntensity, v) => (
            DisplayToggles { light_intensity_scale: Scalar::F64(v), ..t },
            c,
        ),
        Change::Slid(Control::CurveRadius, v) => (
            t,
            CurveTuning { default_radius: Scalar::F64(v), ..c },
        ),
        Change::Slid(Control::RingSegments, v) => (
            t,
            CurveTuning { ring_segments: rounded64(v) as u32, ..c },
        ),
        Change::Slid(Control::PointScale, v) => (
            t,
            CurveTuning { point_scale: Scalar::F64(v), ..c },
        ),
        _ => (t, c),
    }
}

/// The switches and sliders after the first `count` changes.
pub open spec fn changed_by(
    t: DisplayToggles,
    c: CurveTuning,
    changes: Seq<Change>,
    count: nat,
) -> (DisplayToggles, CurveTuning)
    decreases count,
{
    if count == 0 {
        (t, c)
    } else {
        let before = changed_by(t, c, changes, (count - 1) as nat);
        changed(before.0, before.1, changes[count - 1])
    }
}

/// Applies what was moved in the pane; everything else stays.
pub fn apply_overlay_changes(t: &mut DisplayToggles, c: &mut CurveTuning, changes: &Vec<Change>)
    ensures
        (*final(t), *final(c)) == changed_by(*old(t), *old(c), changes@, changes@.len()),
{
    for i in 0..changes.len()
        invariant
            (*t, *c) == changed_by(*old(t), *old(c), changes@, i as nat),
    {
        match changes[i] {
            Change::Switched(Control::WorldGrid, on) => {
                t.show_world_grid = on;
            },
            Change::Switched(Control::WorldAxes, on) => {
                t.show_world_axes = on;
            },
            Change::Switched(Control::PrimMarkers, on) => {
                t.show_prim_markers = on;
            },
            Change::Switched(Control::Skeleton, on) => {
                t.show_skeleton = on;
            },
            Change::Switched(Control::Physics, on) => {
                t.show_physics = on;
            },
            Change::Switched(Control::Colliders, on) => {
                t.show_colliders = on;
            },
            Change::Switched(Control::Wireframe, on) => {
                t.wireframe = on;
            },
            Change::Slid(Control::MarkerBias, v) => {
                t.prim_marker_bias = Scalar::F64(v);
            },
            Change::Slid(Control::LightIntensity, v) => {
                t.light_intensity_scale = Scalar::F64(v);
            },
            Change::Slid(Control::CurveRadius, v) => {
                c.default_radius = Scalar::F64(v);
            },
            Change::Slid(Control::RingSegments, v) => {
                c.ring_segments = round_to_u32(v);
            },
            Change::Slid(Control::PointScale, v) => {
                c.point_scale = Scalar::F64(v);
            },
            _ => {},
        }
    }
}

/// Which control stands in a row of a section, by place.
pub open spec fn control_of(section: nat, row: nat) -> Option<Control> {
    if section == 0 {
        if row == 0 {
            Some(Control::WorldGrid)
        } else if row == 1 {
            Some(Control::WorldAxes)
        } else if row == 2 {
            Some(Control::PrimMarkers)
        } else if row == 3 {
            Some(Control::MarkerBias)
        } else if row == 4 {
            Some(Control::Skeleton)
        } else if row == 5 {
            Some(Control::Physics)
        } else if row == 6 {
            Some(Control::Colliders)
        } else {
            None
        }
    } else if section == 1 {
        if row == 0 {
            Some(Control::Wireframe)
        } else if row == 1 {
            Some(Control::LightIntensity)
        } else {
            None
        }
    } else if section == 2 {
        if row == 0 {
            Some(Control::CurveRadius)
        } else if row == 1 {
            Some(Control::RingSegments)
        } else if row == 2 {
            Some(Control::PointScale)
        } else {
            None
        }
    } else {
        None
    }
}

/// Which control stands in a row of a section, by place.
pub fn control_at(section: usize, row: usize) -> (r: Option<Control>)
    ensures
        r == control_of(section as nat, row as nat),
{
    match (section, row) {
        (0, 0) => Some(Control::WorldGrid),
        (0, 1) => Some(Control::WorldAxes),
        (0, 2) => Some(Control::PrimMarkers),
        (0, 3) => Some(Control::MarkerBias),
        (0, 4) => Some(Control::Skeleton),
        (0, 5) => Some(Control::Physics),
        (0, 6) => Some(Control::Colliders),
        (1, 0) => Some(Control::Wireframe),
        (1, 1) => Some(Control::LightIntensity),
        (2, 0) => Some(Control::CurveRadius),
        (2, 1) => Some(Control::RingSegments),
        (2, 2) => Some(Control::PointScale),
        _ => None,
    }
}

} // verus!
