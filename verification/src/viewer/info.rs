//! The stage-info pane.

use super::rows::{
    badges, button, readout, readout_view, row_views, section, section_views, RowView, Section,
    SectionView,
};
use crate::text::{cat, copy, decimal, number, views};
use vstd::prelude::*;

verus! {

/// What was counted when a stage was loaded.
#[derive(Debug)]
pub struct StageInfo {
    pub path: String,
    pub default_prim: Option<String>,
    pub layer_count: u64,
    pub variant_count: u64,
    pub lights_directional: u64,
    pub lights_point: u64,
    pub lights_spot: u64,
    pub lights_dome: u64,
    pub instance_prim_count: u64,
    pub instance_prototype_reuses: u64,
    pub animated_prim_count: u64,
    pub skeleton_count: u64,
    pub skel_root_count: u64,
    pub skel_binding_count: u64,
    pub render_settings_count: u64,
    pub render_product_count: u64,
    pub render_var_count: u64,
    pub physics_scene_count: u64,
    pub rigid_body_count: u64,
    pub joint_count: u64,
    pub custom_attr_prim_count: u64,
    pub custom_layer_data_entries: u64,
    pub subdivision_prim_count: u64,
    pub light_linked_count: u64,
    pub clip_prim_count: u64,
}

/// What is counted among the projected entities.
#[derive(Debug, Clone, Copy, PartialEq, Eq, Structural)]
pub struct EntityCounts {
    pub prims: u64,
    pub meshes: u64,
    pub spatial_audio: u64,
    pub procedural: u64,
}

/// A number and what it counts.
pub open spec fn counted(n: u64, what: Seq<char>) -> Seq<char> {
    decimal(n as nat) + what
}

fn count_text(n: u64, what: &str) -> (r: String)
    ensures
        r@ == counted(n, what@),
{
    cat(number(n).as_str(), what)
}

/// The stage section.
pub open spec fn stage_section(info: StageInfo, counts: EntityCounts) -> SectionView {
    SectionView {
        id: "info_stage"@,
        title: "Stage"@,
        icon: "document"@,
        rows: seq![
            readout_view("file"@, info.path@),
            readout_view(
                "defaultPrim"@,
                match info.default_prim {
                    Some(p) => p@,
                    None => "—"@,
                },
            ),
            readout_view("layers"@, decimal(info.layer_count as nat)),
            readout_view("prims"@, decimal(counts.prims as nat)),
            readout_view("meshes"@, decimal(counts.meshes as nat)),
            readout_view("variants"@, decimal(info.variant_count as nat)),
        ],
    }
}

/// The lights and instances section.
pub open spec fn lights_section(info: StageInfo) -> SectionView {
    SectionView {
        id: "info_lights"@,
        title: "Lights & instances"@,
        icon: "options"@,
        rows: seq![
            RowView::Badges {
                label: "lights"@,
                items: seq![
                    counted(info.lights_directional, " dir"@),
                    counted(info.lights_point, " pt"@),
                    counted(info.lights_spot, " spot"@),
                    counted(info.lights_dome, " dome"@),
                ],
            },
            RowView::Badges {
                label: "instances"@,
                items: seq![
                    counted(info.instance_prim_count, " prim"@),
                    counted(info.instance_prototype_reuses, " reuse"@),
                ],
            },
            readout_view("animated"@, counted(info.animated_prim_count, " prim(s)"@)),
        ],
    }
}

/// The skeleton, render and physics section.
pub open spec fn skel_section(info: StageInfo) -> SectionView {
    SectionView {
        id: "info_skel"@,
        title: "Skel & render"@,
        icon: "options"@,
        rows: seq![
            RowView::Badges {
                label: "skel"@,
                items: seq![
                    counted(info.skeleton_count, " skel"@),
                    counted(info.skel_root_count, " root"@),
                    counted(info.skel_binding_count, " bind"@),
                ],
            },
            RowView::Badges {
                label: "render"@,
                items: seq![
                    counted(info.render_settings_count, " settings"@),
                    counted(info.render_product_count, " product"@),
                    counted(info.render_var_count, " var"@),
                ],
            },
            RowView::Badges {
                label: "physics"@,
                items: seq![
                    counted(info.physics_scene_count, " scene"@),
                    counted(info.rigid_body_count, " rigid"@),
                    counted(info.joint_count, " joint"@),
                ],
            },
        ],
    }
}

/// The authoring section.
pub open spec fn authoring_section(info: StageInfo, counts: EntityCounts) -> SectionView {
    SectionView {
        id: "info_authoring"@,
        title: "Authoring detail"@,
        icon: "document"@,
        rows: seq![
            readout_view(
                "custom"@,
                counted(info.custom_attr_prim_count, " prim · "@) + counted(
                    info.custom_layer_data_entries,
                    " layer"@,
                ),
            ),
            readout_view("subdiv"@, counted(info.subdivision_prim_count, " mesh(es)"@)),
            readout_view("light-link"@, counted(info.light_linked_count, " light(s)"@)),
            readout_view("clips"@, counted(info.clip_prim_count, " prim(s)"@)),
            readout_view("spatial-audio"@, counted(counts.spatial_audio, " source(s)"@)),
            readout_view("procedural"@, counted(counts.procedural, " prim(s)"@)),
        ],
    }
}

/// The actions section.
pub open spec fn actions_section() -> SectionView {
    SectionView {
        id: "info_actions"@,
        title: "Actions"@,
        icon: "options"@,
        rows: seq![RowView::Button("Reload stage (R)"@)],
    }
}

fn stage_rows(info: &StageInfo, counts: EntityCounts) -> (r: Section)
    ensures
        r@ == stage_section(*info, counts),
{
    let default_prim = match &info.default_prim {
        Some(p) => copy(p.as_str()),
        None => copy("—"),
    };
    let rows = vec![
        readout("file", info.path.as_str()),
        readout("defaultPrim", default_prim.as_str()),
        readout("layers", number(info.layer_count).as_str()),
        readout("prims", number(counts.prims).as_str()),
        readout("meshes", number(counts.meshes).as_str()),
        readout("variants", number(info.variant_count).as_str()),
    ];
    assert(row_views(rows@) =~= stage_section(*info, counts).rows);
    section("info_stage", "Stage", "document", rows)
}

fn lights_rows(info: &StageInfo) -> (r: Section)
    ensures
        r@ == lights_section(*info),
{
    let lights = vec![
        count_text(info.lights_directional, " dir"),
        count_text(info.lights_point, " pt"),
        count_text(info.lights_spot, " spot"),
        count_text(info.lights_dome, " dome"),
    ];
    assert(views(lights@) =~= seq![
        counted(info.lights_directional, " dir"@),
        counted(info.lights_point, " pt"@),
        counted(info.lights_spot, " spot"@),
        counted(info.lights_dome, " dome"@),
    ]);
    let instances = vec![
        count_text(info.instance_prim_count, " prim"),
        count_text(info.instance_prototype_reuses, " reuse"),
    ];
    assert(views(instances@) =~= seq![
        counted(info.instance_prim_count, " prim"@),
        counted(info.instance_prototype_reuses, " reuse"@),
    ]);
    let rows = vec![
        badges("lights", lights),
        badges("instances", instances),
        readout("animated", count_text(info.animated_prim_count, " prim(s)").as_str()),
    ];
    assert(row_views(rows@) =~= lights_section(*info).rows);
    section("info_lights", "Lights & instances", "options", rows)
}

fn three(a: String, b: String, c: String) -> (r: Vec<String>)
    ensures
        views(r@) == seq![a@, b@, c@],
{
    let out = vec![a, b, c];
    assert(views(out@) =~= seq![a@, b@, c@]);
    out
}

fn skel_rows(info: &StageInfo) -> (r: Section)
    ensures
        r@ == skel_section(*info),
{
    let rows = vec![
        badges(
            "skel",
            three(
                count_text(info.skeleton_count, " skel"),
                count_text(info.skel_root_count, " root"),
                count_text(info.skel_binding_count, " bind"),
            ),
        ),
        badges(
            "render",
            three(
                count_text(info.render_settings_count, " settings"),
                count_text(info.render_product_count, " product"),
                count_text(info.render_var_count, " var"),
            ),
        ),
        badges(
            "physics",
            three(
                count_text(info.physics_scene_count, " scene"),
                count_text(info.rigid_body_count, " rigid"),
                count_text(info.joint_count, " joint"),
            ),
        ),
    ];
    assert(row_views(rows@) =~= skel_section(*info).rows);
    section("info_skel", "Skel & render", "options", rows)
}

fn authoring_rows(info: &StageInfo, counts: EntityCounts) -> (r: Section)
    ensures
        r@ == authoring_section(*info, counts),
{
    let custom = cat(
        count_text(info.custom_attr_prim_count, " prim · ").as_str(),
        count_text(info.custom_layer_data_entries, " layer").as_str(),
    );
    let rows = vec![
        readout("custom", custom.as_str()),
        readout("subdiv", count_text(info.subdivision_prim_count, " mesh(es)").as_str()),
        readout("light-link", count_text(info.light_linked_count, " light(s)").as_str()),
        readout("clips", count_text(info.clip_prim_count, " prim(s)").as_str()),
        readout("spatial-audio", count_text(counts.spatial_audio, " source(s)").as_str()),
        readout("procedural", count_text(counts.procedural, " prim(s)").as_str()),
    ];
    assert(row_views(rows@) =~= authoring_section(*info, counts).rows);
    section("info_authoring", "Authoring detail", "document", rows)
}

/// What the stage-info pane shows.
pub fn draw_info_panel(info: &StageInfo, counts: EntityCounts) -> (r: Vec<Section>)
    ensures
        section_views(r@) == seq![
            stage_section(*info, counts),
            lights_section(*info),
            skel_section(*info),
            authoring_section(*info, counts),
            actions_section(),
        ],
{
    let action_rows = vec![button("Reload stage (R)")];
    assert(row_views(action_rows@) =~= actions_section().rows);
    let sections = vec![
        stage_rows(info, counts),
        lights_rows(info),
        skel_rows(info),
        authoring_rows(info, counts),
        section("info_actions", "Actions", "options", action_rows),
    ];
    assert(section_views(sections@) =~= seq![
        stage_section(*info, counts),
        lights_section(*info),
        skel_section(*info),
        authoring_section(*info, counts),
        actions_section(),
    ]);
    sections
}

} // verus!
