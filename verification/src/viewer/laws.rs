//! What the panes show and what using them changes.

use super::cameras::{
    bookmark_name, bookmark_section, camera_details, camera_names, camera_section, mount_view, CameraBookmark,
    CameraMount, StageCamera,
};
use super::info::{
    actions_section, authoring_section, lights_section, skel_section, stage_section, EntityCounts,
    StageInfo,
};
use super::log::{
    camera_keys, keys_section, last_segment, log_section, overlay_keys, panel_keys, segment_from,
    shown_lines, LogLine,
};
use super::materials::{
    entry_less, entry_of, entry_row, materials_section, sorted_entries, with_entry, BoundMaterial,
};
use super::overlays::{
    changed, changed_by, control_of, curve_section, render_section, world_section, Change, Control,
    CurveTuning, DisplayToggles,
};
use super::ribbon::{
    button_views, in_cluster, is_switch, opened_by, pane_button, pane_ids, ribbon_buttons, toggled,
    toggles_after, zone_of, ButtonView, Cluster, RibbonButton,
};
use super::rows::{section_views, Row, RowView, Section, TagView};
use super::selection::{
    is_stale, loaded_section, revealed, selected_section, tag_if, tags_of, PrimSummary,
};
use super::timeline::{timeline_section, ClockTexts, Playback};
use super::tree::{
    bare_node, count_char, depth_of, less_is_asymmetric, not_less_is_transitive, sorted_nodes,
    tree_of, tree_section, tree_views, trees_are_sorted, walk_after, walk_step, walked,
    with_children, RowPlan,
    TreeEntry, TreeNode, TreeNodeView, TreeWalk,
};
use super::variants::{
    current_option, first_place_finds, override_views, set_less, set_row, set_views, sorted_sets,
    variants_section, with_set, Override, SetRow, SetRowView, VariantSet,
};
use crate::assoc::pushed_members;
use crate::float::rounded64;
use crate::fspath::{directory, joined, without_tail};
use crate::materialx::laws::less_is_total;
use crate::read::camera::Projection;
use crate::read::skel::short_name;
use crate::stage::Scalar;
use crate::text::{decimal, text_less, views};
use vstd::prelude::*;

verus! {

/// The rows of the overlays pane, section by section.
pub open spec fn overlay_rows(t: DisplayToggles, c: CurveTuning, section: nat) -> Seq<RowView> {
    if section == 0 {
        world_section(t).rows
    } else if section == 1 {
        render_section(t).rows
    } else {
        curve_section(c).rows
    }
}

/// What a toggle or slider shows after it was moved: a toggle its new state, a
/// slider its new value, rounded where it counts whole segments.
pub open spec fn shows_change(row: RowView, change: Change) -> bool {
    match (row, change) {
        (RowView::Toggle { label, on }, Change::Switched(_, to)) => on == to,
        (
            RowView::Slider { label, value, low, high, digits, unit },
            Change::Slid(control, to),
        ) => value == (if control == Control::RingSegments {
            Scalar::Int(rounded64(to) as i64)
        } else {
            Scalar::F64(to)
        }),
        _ => false,
    }
}

/// Moving the control of a row changes what that row shows, to just what was
/// set, and leaves every other row of the pane as it was. A switch has no value
/// to slide and a slider no state to switch.
pub proof fn controls_move_their_own_row(
    t: DisplayToggles,
    c: CurveTuning,
    change: Change,
    section: nat,
    row: nat,
    other_section: nat,
    other_row: nat,
)
    requires
        section < 3,
        other_section < 3,
        row < overlay_rows(t, c, section).len(),
        other_row < overlay_rows(t, c, other_section).len(),
        (change matches Change::Switched(control, _) && control_of(section, row) == Some(control)
            && overlay_rows(t, c, section)[row as int] is Toggle) || (change matches Change::Slid(
            control,
            value,
        ) && control_of(section, row) == Some(control) && overlay_rows(
            t,
            c,
            section,
        )[row as int] is Slider && rounded64(value) <= u32::MAX),
    ensures
        ({
            let (t1, c1) = changed(t, c, change);
            &&& shows_change(overlay_rows(t1, c1, section)[row as int], change)
            &&& (section != other_section || row != other_row) ==> overlay_rows(
                t1,
                c1,
                other_section,
            )[other_row as int] == overlay_rows(t, c, other_section)[other_row as int]
        }),
{
    let w = world_section(t).rows;
    assert(w.len() == 7);
    let r = render_section(t).rows;
    assert(r.len() == 2);
    let k = curve_section(c).rows;
    assert(k.len() == 3);
}

/// Every row of the pane has a control, and each control stands in one row.
pub proof fn every_row_has_its_control(t: DisplayToggles, c: CurveTuning, section: nat, row: nat)
    ensures
        section < 3 ==> (control_of(section, row) is Some <==> row < overlay_rows(
            t,
            c,
            section,
        ).len()),
        section >= 3 ==> control_of(section, row) is None,
        forall|s: nat, q: nat|
            control_of(section, row) is Some && #[trigger] control_of(s, q) == control_of(
                section,
                row,
            ) ==> s == section && q == row,
{
}

/// Changes apply one after the other, and none apply to an empty list.
pub proof fn changes_apply_in_order(
    t: DisplayToggles,
    c: CurveTuning,
    changes: Seq<Change>,
    first: Change,
    second: Change,
)
    ensures
        changed_by(t, c, changes, 0) == (t, c),
        changed_by(t, c, seq![first], 1) == changed(t, c, first),
        changed_by(t, c, seq![first, second], 2) == changed(
            changed(t, c, first).0,
            changed(t, c, first).1,
            second,
        ),
{
    reveal_with_fuel(changed_by, 4);
    assert(seq![first][0] == first);
    assert(seq![first, second][0] == first);
    assert(seq![first, second][1] == second);
}

proof fn ribbon_ids_differ()
    ensures
        forall|i: int, j: int|
            0 <= i < j < 11 ==> (#[trigger] ribbon_buttons()[i]).id != (
            #[trigger] ribbon_buttons()[j]).id,
{
    reveal_strlit("viewer_selection");
    reveal_strlit("viewer_tree");
    reveal_strlit("viewer_info");
    reveal_strlit("viewer_variants");
    reveal_strlit("viewer_cameras");
    reveal_strlit("viewer_materials");
    reveal_strlit("viewer_play");
    reveal_strlit("viewer_overlays");
    reveal_strlit("viewer_timeline");
    reveal_strlit("viewer_keys");
    reveal_strlit("viewer_log");
    let all = ribbon_buttons();
    assert(all[0].id[7] == 's');
    assert(all[1].id[7] == 't' && all[1].id.len() == 11);
    assert(all[2].id[7] == 'i');
    assert(all[3].id[7] == 'v');
    assert(all[4].id[7] == 'c');
    assert(all[5].id[7] == 'm');
    assert(all[6].id[7] == 'p');
    assert(all[7].id[7] == 'o');
    assert(all[8].id[7] == 't' && all[8].id.len() == 15);
    assert(all[9].id[7] == 'k');
    assert(all[10].id[7] == 'l');
}

/// The rail has eleven buttons, no two of them the same. All but play open a
/// pane; play stands alone in the middle.
pub proof fn the_rail_has_its_buttons()
    ensures
        ribbon_buttons().len() == 11,
        forall|i: int|
            0 <= i < 11 ==> ((#[trigger] ribbon_buttons()[i]).opens_pane <==> ribbon_buttons()[i].id
                != "viewer_play"@),
        forall|i: int|
            0 <= i < 11 ==> ((#[trigger] ribbon_buttons()[i]).cluster == Cluster::Middle
                <==> ribbon_buttons()[i].id == "viewer_play"@),
        forall|i: int, j: int|
            0 <= i < j < 11 ==> (#[trigger] ribbon_buttons()[i]).id != (
            #[trigger] ribbon_buttons()[j]).id,
{
    ribbon_ids_differ();
    let all = ribbon_buttons();
    assert(all[6].id == "viewer_play"@);
}

proof fn zones_are_found(buttons: Seq<ButtonView>, i: int)
    requires
        0 <= i < buttons.len(),
        forall|a: int, b: int|
            0 <= a < b < buttons.len() ==> (#[trigger] buttons[a]).id != (#[trigger] buttons[b]).id,
    ensures
        zone_of(buttons, buttons[i].id) == buttons[i].cluster,
    decreases buttons.len(),
{
    if i > 0 {
        let rest = buttons.skip(1);
        assert(buttons[0].id != buttons[i].id);
        assert forall|a: int, b: int| 0 <= a < b < rest.len() implies (#[trigger] rest[a]).id != (
        #[trigger] rest[b]).id by {
            assert(buttons[a + 1].id != buttons[b + 1].id);
        }
        assert(rest[i - 1] == buttons[i]);
        zones_are_found(rest, i - 1);
    }
}

/// The pane of a button opens in the cluster where the button stands.
pub proof fn panes_open_beside_their_button(i: int)
    requires
        0 <= i < ribbon_buttons().len(),
    ensures
        zone_of(ribbon_buttons(), ribbon_buttons()[i].id) == ribbon_buttons()[i].cluster,
{
    the_rail_has_its_buttons();
    zones_are_found(ribbon_buttons(), i);
}

/// A cluster holds all its buttons and no others, and the panes are those of
/// all buttons that open one.
pub proof fn clusters_hold_their_buttons(
    buttons: Seq<ButtonView>,
    cluster: Cluster,
    count: nat,
    button: ButtonView,
    id: Seq<char>,
)
    requires
        count <= buttons.len(),
    ensures
        in_cluster(buttons, cluster, count).contains(button) <==> buttons.take(
            count as int,
        ).contains(button) && button.cluster == cluster,
        pane_ids(buttons, count).contains(id) <==> exists|i: int|
            0 <= i < count && (#[trigger] buttons[i]).opens_pane && buttons[i].id == id,
    decreases count,
{
    if count > 0 {
        let last = (count - 1) as nat;
        clusters_hold_their_buttons(buttons, cluster, last, button, id);
        let own = buttons[last as int];
        let head = buttons.take(last as int);
        assert(buttons.take(count as int) =~= head.push(own));
        pushed_members(head, own, button);
        pushed_members(in_cluster(buttons, cluster, last), own, button);
        pushed_members(pane_ids(buttons, last), own.id, id);
        if pane_ids(buttons, last).contains(id) {
            let i = choose|i: int|
                0 <= i < last && (#[trigger] buttons[i]).opens_pane && buttons[i].id == id;
            assert(buttons[i].opens_pane);
        }
    }
}

/// Each click on play toggles physics and no other click does.
pub proof fn only_play_toggles_physics(running: bool, clicked: Seq<Seq<char>>, id: Seq<char>)
    ensures
        toggled(running, clicked, 0) == running,
        id == "viewer_play"@ ==> toggled(running, clicked.push(id), clicked.len() + 1) == !toggled(
            running,
            clicked,
            clicked.len(),
        ),
        id != "viewer_play"@ ==> toggled(running, clicked.push(id), clicked.len() + 1) == toggled(
            running,
            clicked,
            clicked.len(),
        ),
{
    earlier_clicks_decide(running, clicked, id, clicked.len());
}

proof fn earlier_clicks_decide(running: bool, clicked: Seq<Seq<char>>, id: Seq<char>, count: nat)
    requires
        count <= clicked.len(),
    ensures
        toggled(running, clicked.push(id), count) == toggled(running, clicked, count),
    decreases count,
{
    if count > 0 {
        earlier_clicks_decide(running, clicked, id, (count - 1) as nat);
    }
}

/// A command that opens a pane opens the one it is named after.
pub proof fn commands_open_the_pane_they_name(id: Seq<char>)
    ensures
        opened_by(id) matches Some(pane) ==> exists|name: Seq<char>|
            id == #[trigger] ("open_"@ + name) && pane == "viewer_"@ + name,
        opened_by("open_selection"@) is Some,
        opened_by("open_tree"@) is Some,
        opened_by("open_info"@) is Some,
        opened_by("open_variants"@) is Some,
        opened_by("open_cameras"@) is Some,
        opened_by("open_overlays"@) is Some,
        opened_by("open_timeline"@) is Some,
        opened_by("open_keys"@) is Some,
        opened_by("open_log"@) is Some,
{
    reveal_strlit("open_");
    reveal_strlit("viewer_");
    if id == "open_selection"@ {
        reveal_strlit("open_selection");
        reveal_strlit("viewer_selection");
        reveal_strlit("selection");
        assert(id =~= "open_"@ + "selection"@);
        assert("viewer_selection"@ =~= "viewer_"@ + "selection"@);
    } else if id == "open_tree"@ {
        reveal_strlit("open_tree");
        reveal_strlit("viewer_tree");
        reveal_strlit("tree");
        assert(id =~= "open_"@ + "tree"@);
        assert("viewer_tree"@ =~= "viewer_"@ + "tree"@);
    } else if id == "open_info"@ {
        reveal_strlit("open_info");
        reveal_strlit("viewer_info");
        reveal_strlit("info");
        assert(id =~= "open_"@ + "info"@);
        assert("viewer_info"@ =~= "viewer_"@ + "info"@);
    } else if id == "open_variants"@ {
        reveal_strlit("open_variants");
        reveal_strlit("viewer_variants");
        reveal_strlit("variants");
        assert(id =~= "open_"@ + "variants"@);
        assert("viewer_variants"@ =~= "viewer_"@ + "variants"@);
    } else if id == "open_cameras"@ {
        reveal_strlit("open_cameras");
        reveal_strlit("viewer_cameras");
        reveal_strlit("cameras");
        assert(id =~= "open_"@ + "cameras"@);
        assert("viewer_cameras"@ =~= "viewer_"@ + "cameras"@);
    } else if id == "open_overlays"@ {
        reveal_strlit("open_overlays");
        reveal_strlit("viewer_overlays");
        reveal_strlit("overlays");
        assert(id =~= "open_"@ + "overlays"@);
        assert("viewer_overlays"@ =~= "viewer_"@ + "overlays"@);
    } else if id == "open_timeline"@ {
        reveal_strlit("open_timeline");
        reveal_strlit("viewer_timeline");
        reveal_strlit("timeline");
        assert(id =~= "open_"@ + "timeline"@);
        assert("viewer_timeline"@ =~= "viewer_"@ + "timeline"@);
    } else if id == "open_keys"@ {
        reveal_strlit("open_keys");
        reveal_strlit("viewer_keys");
        reveal_strlit("keys");
        assert(id =~= "open_"@ + "keys"@);
        assert("viewer_keys"@ =~= "viewer_"@ + "keys"@);
    } else if id == "open_log"@ {
        reveal_strlit("open_log");
        reveal_strlit("viewer_log");
        reveal_strlit("log");
        assert(id =~= "open_"@ + "log"@);
        assert("viewer_log"@ =~= "viewer_"@ + "log"@);
    }
}

proof fn switches_open_nothing()
    ensures
        opened_by("toggle_grid"@) is None,
        opened_by("toggle_axes"@) is None,
        opened_by("toggle_markers"@) is None,
        opened_by("toggle_wireframe"@) is None,
        "toggle_grid"@ != "toggle_axes"@,
        "toggle_grid"@ != "toggle_markers"@,
        "toggle_grid"@ != "toggle_wireframe"@,
        "toggle_axes"@ != "toggle_markers"@,
        "toggle_axes"@ != "toggle_wireframe"@,
        "toggle_markers"@ != "toggle_wireframe"@,
{
    reveal_strlit("toggle_grid");
    reveal_strlit("toggle_axes");
    reveal_strlit("toggle_markers");
    reveal_strlit("toggle_wireframe");
    reveal_strlit("open_");
    assert("toggle_grid"@[0] == 't' && "toggle_grid"@[7] == 'g');
    assert("toggle_axes"@[0] == 't' && "toggle_axes"@[7] == 'a');
    assert("toggle_markers"@[0] == 't' && "toggle_markers"@[7] == 'm');
    assert("toggle_wireframe"@[0] == 't' && "toggle_wireframe"@[7] == 'w');
    opening_commands_start_alike("toggle_grid"@);
    opening_commands_start_alike("toggle_axes"@);
    opening_commands_start_alike("toggle_markers"@);
    opening_commands_start_alike("toggle_wireframe"@);
}

proof fn opening_commands_start_alike(id: Seq<char>)
    requires
        id.len() > 0,
        id[0] != 'o',
    ensures
        opened_by(id) is None,
{
    commands_open_the_pane_they_name(id);
    reveal_strlit("open_");
    if opened_by(id) is Some {
        let pane = opened_by(id)->0;
        let name = choose|name: Seq<char>|
            id == #[trigger] ("open_"@ + name) && pane == "viewer_"@ + name;
        assert(id[0] == ("open_"@ + name)[0]);
        assert(("open_"@ + name)[0] == "open_"@[0]);
    }
}

/// A switch command flips its own switch and no other; flipping it again gives
/// the switches back. No other command touches them.
pub proof fn commands_flip_their_switch(t: DisplayToggles, id: Seq<char>)
    ensures
        toggles_after(t, "toggle_grid"@) == (DisplayToggles {
            show_world_grid: !t.show_world_grid,
            ..t
        }),
        toggles_after(t, "toggle_axes"@) == (DisplayToggles {
            show_world_axes: !t.show_world_axes,
            ..t
        }),
        toggles_after(t, "toggle_markers"@) == (DisplayToggles {
            show_prim_markers: !t.show_prim_markers,
            ..t
        }),
        toggles_after(t, "toggle_wireframe"@) == (DisplayToggles { wireframe: !t.wireframe, ..t }),
        toggles_after(toggles_after(t, id), id) == t,
        id != "toggle_grid"@ && id != "toggle_axes"@ && id != "toggle_markers"@ && id
            != "toggle_wireframe"@ ==> toggles_after(t, id) == t && !is_switch(id),
        is_switch(id) ==> opened_by(id) is None,
{
    switches_open_nothing();
}

/// The list of cameras starts with the free one; behind it stand those of the
/// stage in order, each with its short name and its own lens and projection.
pub proof fn cameras_are_listed_in_order(cameras: Seq<StageCamera>, i: int)
    requires
        0 <= i < cameras.len(),
    ensures
        camera_names(cameras).len() == cameras.len() + 1,
        camera_details(cameras).len() == cameras.len() + 1,
        camera_names(cameras)[0] == "Arcball (free)"@,
        camera_names(cameras)[i + 1] == short_name(cameras[i].path@),
        cameras[i].projection == Some(Projection::Orthographic) ==> camera_details(cameras)[i + 1]
            == cameras[i].focal_text@ + "mm · "@ + "ortho"@,
        cameras[i].projection != Some(Projection::Orthographic) ==> camera_details(cameras)[i + 1]
            == cameras[i].focal_text@ + "mm · "@ + "persp"@,
        camera_section(cameras).rows == seq![
            RowView::Choices { names: camera_names(cameras), trailing: camera_details(cameras) },
        ],
{
}

/// Every bookmark has its row with its own name and distance, and only an empty
/// list says that there are none.
pub proof fn bookmarks_are_listed_in_order(
    items: Seq<CameraBookmark>,
    distances: Seq<Seq<char>>,
    i: int,
)
    requires
        0 <= i < items.len() == distances.len(),
    ensures
        bookmark_section(items, distances).rows[0] == RowView::Button("Save current view"@),
        (bookmark_section(items, distances).rows[1] matches RowView::Choices { names, trailing }
            && names.len() == items.len() && names[i] == items[i].name@ && trailing[i] == "d "@
            + distances[i]),
        bookmark_section(Seq::empty(), distances).rows[1] == (RowView::Readout {
            label: "bookmarks"@,
            value: "(none yet)"@,
        }),
{
}

/// The stage section names each count after what it counts.
pub proof fn stage_counts_have_their_label(info: StageInfo, counts: EntityCounts)
    ensures
        ({
            let rows = stage_section(info, counts).rows;
            &&& rows.len() == 6
            &&& rows[0] == (RowView::Readout { label: "file"@, value: info.path@ })
            &&& info.default_prim matches Some(p) ==> rows[1] == (RowView::Readout {
                label: "defaultPrim"@,
                value: p@,
            })
            &&& info.default_prim is None ==> rows[1] == (RowView::Readout {
                label: "defaultPrim"@,
                value: "—"@,
            })
            &&& rows[2] == (RowView::Readout {
                label: "layers"@,
                value: decimal(info.layer_count as nat),
            })
            &&& rows[3] == (RowView::Readout { label: "prims"@, value: decimal(counts.prims as nat) })
            &&& rows[4] == (RowView::Readout {
                label: "meshes"@,
                value: decimal(counts.meshes as nat),
            })
            &&& rows[5] == (RowView::Readout {
                label: "variants"@,
                value: decimal(info.variant_count as nat),
            })
        }),
{
}

/// The badges of lights, instances, skeletons, render prims and physics prims
/// each show their own count.
pub proof fn badge_counts_have_their_label(info: StageInfo)
    ensures
        ({
            let rows = lights_section(info).rows;
            &&& rows.len() == 3
            &&& rows[0] == (RowView::Badges {
                label: "lights"@,
                items: seq![
                    decimal(info.lights_directional as nat) + " dir"@,
                    decimal(info.lights_point as nat) + " pt"@,
                    decimal(info.lights_spot as nat) + " spot"@,
                    decimal(info.lights_dome as nat) + " dome"@,
                ],
            })
            &&& rows[1] == (RowView::Badges {
                label: "instances"@,
                items: seq![
                    decimal(info.instance_prim_count as nat) + " prim"@,
                    decimal(info.instance_prototype_reuses as nat) + " reuse"@,
                ],
            })
            &&& rows[2] == (RowView::Readout {
                label: "animated"@,
                value: decimal(info.animated_prim_count as nat) + " prim(s)"@,
            })
        }),
        ({
            let rows = skel_section(info).rows;
            &&& rows.len() == 3
            &&& rows[0] == (RowView::Badges {
                label: "skel"@,
                items: seq![
                    decimal(info.skeleton_count as nat) + " skel"@,
                    decimal(info.skel_root_count as nat) + " root"@,
                    decimal(info.skel_binding_count as nat) + " bind"@,
                ],
            })
            &&& rows[1] == (RowView::Badges {
                label: "render"@,
                items: seq![
                    decimal(info.render_settings_count as nat) + " settings"@,
                    decimal(info.render_product_count as nat) + " product"@,
                    decimal(info.render_var_count as nat) + " var"@,
                ],
            })
            &&& rows[2] == (RowView::Badges {
                label: "physics"@,
                items: seq![
                    decimal(info.physics_scene_count as nat) + " scene"@,
                    decimal(info.rigid_body_count as nat) + " rigid"@,
                    decimal(info.joint_count as nat) + " joint"@,
                ],
            })
        }),
{
}

/// The authoring section names each count after what it counts.
pub proof fn authoring_counts_have_their_label(info: StageInfo, counts: EntityCounts)
    ensures
        ({
            let rows = authoring_section(info, counts).rows;
            &&& rows.len() == 6
            &&& rows[0] == (RowView::Readout {
                label: "custom"@,
                value: decimal(info.custom_attr_prim_count as nat) + " prim · "@ + (decimal(
                    info.custom_layer_data_entries as nat,
                ) + " layer"@),
            })
            &&& rows[1] == (RowView::Readout {
                label: "subdiv"@,
                value: decimal(info.subdivision_prim_count as nat) + " mesh(es)"@,
            })
            &&& rows[2] == (RowView::Readout {
                label: "light-link"@,
                value: decimal(info.light_linked_count as nat) + " light(s)"@,
            })
            &&& rows[3] == (RowView::Readout {
                label: "clips"@,
                value: decimal(info.clip_prim_count as nat) + " prim(s)"@,
            })
            &&& rows[4] == (RowView::Readout {
                label: "spatial-audio"@,
                value: decimal(counts.spatial_audio as nat) + " source(s)"@,
            })
            &&& rows[5] == (RowView::Readout {
                label: "procedural"@,
                value: decimal(counts.procedural as nat) + " prim(s)"@,
            })
        }),
        actions_section().rows == seq![RowView::Button("Reload stage (R)"@)],
{
}

/// The log shows its newest lines, the newest first, and at most 80 of them.
pub proof fn the_newest_lines_are_shown(lines: Seq<LogLine>, i: int)
    ensures
        lines.len() <= 80 ==> shown_lines(lines).len() == lines.len(),
        lines.len() > 80 ==> shown_lines(lines).len() == 80,
        0 <= i < shown_lines(lines).len() ==> shown_lines(lines)[i] == lines[lines.len() - 1 - i],
        log_section(lines).rows[0] == (RowView::Readout {
            label: "entries"@,
            value: decimal(shown_lines(lines).len()),
        }),
        0 <= i < shown_lines(lines).len() ==> log_section(lines).rows[i + 1] == (RowView::Readout {
            label: last_segment(shown_lines(lines)[i].target@),
            value: shown_lines(lines)[i].message@,
        }),
        log_section(lines).rows.len() == (if lines.len() == 0 {
            2
        } else {
            shown_lines(lines).len() + 1
        }),
{
}

/// A log target is shown by its last segment.
pub proof fn targets_are_shown_by_their_last_segment(above: Seq<char>, name: Seq<char>)
    requires
        !name.contains(':'),
    ensures
        last_segment(name) == name,
        last_segment(above + seq![':', ':'] + name) == name,
{
    let whole = above + seq![':', ':'] + name;
    segments_are_found(whole, whole.len(), above.len() + 2);
    assert(whole.skip(above.len() as int + 2) =~= name);
    plain_targets_are_one_segment(name, name.len());
}

proof fn plain_targets_are_one_segment(name: Seq<char>, end: nat)
    requires
        !name.contains(':'),
        end <= name.len(),
    ensures
        segment_from(name, end) == name,
    decreases end,
{
    if end >= 2 {
        assert(name.contains(name[end - 1]));
        plain_targets_are_one_segment(name, (end - 1) as nat);
    }
}

proof fn segments_are_found(target: Seq<char>, end: nat, start: nat)
    requires
        2 <= start <= end <= target.len(),
        target[start - 1] == ':',
        target[start - 2] == ':',
        forall|k: int| start <= k < target.len() ==> #[trigger] target[k] != ':',
    ensures
        segment_from(target, end) == target.skip(start as int),
    decreases end,
{
    if end > start {
        assert(target[end - 1] != ':');
        segments_are_found(target, (end - 1) as nat, start);
    }
}

/// The key bindings as the controls pane lists them.
pub proof fn keys_have_their_meaning()
    ensures
        camera_keys() == seq![("L+R drag"@, "Orbit"@), ("Middle"@, "Pan"@), ("Scroll"@, "Zoom"@)],
        panel_keys().contains(("T"@, "Toggle prim tree"@)),
        panel_keys().contains(("I"@, "Toggle stage info"@)),
        panel_keys().contains(("O"@, "Toggle overlays"@)),
        panel_keys().contains(("?"@, "Toggle this panel"@)),
        overlay_keys().contains(("G"@, "Ground grid"@)),
        overlay_keys().contains(("X"@, "World axes"@)),
        overlay_keys().contains(("P"@, "Prim markers"@)),
        overlay_keys().contains(("B"@, "Skeleton bones"@)),
        overlay_keys().contains(("R"@, "Reload stage"@)),
{
    assert(panel_keys()[0] == ("T"@, "Toggle prim tree"@));
    assert(panel_keys()[1] == ("I"@, "Toggle stage info"@));
    assert(panel_keys()[2] == ("O"@, "Toggle overlays"@));
    assert(panel_keys()[3] == ("?"@, "Toggle this panel"@));
    assert(overlay_keys()[0] == ("G"@, "Ground grid"@));
    assert(overlay_keys()[1] == ("X"@, "World axes"@));
    assert(overlay_keys()[2] == ("P"@, "Prim markers"@));
    assert(overlay_keys()[3] == ("B"@, "Skeleton bones"@));
    assert(overlay_keys()[4] == ("R"@, "Reload stage"@));
}

/// A material is shown by the first 48 characters of its short name, and told
/// textured exactly where it is.
pub proof fn materials_are_shown_by_name(m: BoundMaterial, entry: (Seq<char>, bool))
    ensures
        entry_of(m).1 == m.textured,
        entry_of(m).0.len() <= 48,
        short_name(m.label@).len() <= 48 ==> entry_of(m).0 == short_name(m.label@),
        short_name(m.label@).len() > 48 ==> entry_of(m).0 == short_name(m.label@).take(48),
        entry.1 ==> entry_row(entry) == (RowView::Readout { label: entry.0, value: "textured"@ }),
        !entry.1 ==> entry_row(entry) == (RowView::Readout {
            label: entry.0,
            value: "constant color"@,
        }),
{
}

/// Every bound material has its entry, as often as it is bound, and no entry is
/// made up.
pub proof fn every_material_is_listed(materials: Seq<BoundMaterial>, count: nat)
    requires
        count <= materials.len(),
    ensures
        sorted_entries(materials, count).len() == count,
        sorted_entries(materials, count).to_multiset() == materials.take(count as int).map_values(
            |m: BoundMaterial| entry_of(m),
        ).to_multiset(),
    decreases count,
{
    broadcast use vstd::seq_lib::group_to_multiset_ensures;

    if count > 0 {
        let last = (count - 1) as nat;
        every_material_is_listed(materials, last);
        inserted_entries_are_added(sorted_entries(materials, last), entry_of(materials[last as int]));
        assert(materials.take(count as int).map_values(|m: BoundMaterial| entry_of(m))
            =~= materials.take(last as int).map_values(|m: BoundMaterial| entry_of(m)).push(
            entry_of(materials[last as int]),
        ));
    } else {
        assert(materials.take(0).map_values(|m: BoundMaterial| entry_of(m)) =~= Seq::<
            (Seq<char>, bool),
        >::empty());
    }
}

proof fn inserted_entries_are_added(list: Seq<(Seq<char>, bool)>, entry: (Seq<char>, bool))
    ensures
        with_entry(list, entry).len() == list.len() + 1,
        with_entry(list, entry).to_multiset() == list.to_multiset().insert(entry),
    decreases list.len(),
{
    broadcast use vstd::seq_lib::group_to_multiset_ensures;

    if !(list.len() == 0 || !entry_less(entry, list.last())) {
        let front = list.drop_last();
        inserted_entries_are_added(front, entry);
        assert(list =~= front.push(list.last()));
        assert(with_entry(list, entry).to_multiset() =~= list.to_multiset().insert(entry));
    }
}

/// The pane counts its materials and then lists them.
pub proof fn the_materials_pane_counts(entries: Seq<(Seq<char>, bool)>, i: int)
    requires
        0 <= i < entries.len(),
    ensures
        materials_section(entries).rows.len() == entries.len() + 1,
        materials_section(entries).rows[0] == (RowView::Readout {
            label: "materials"@,
            value: decimal(entries.len()),
        }),
        materials_section(entries).rows[i + 1] == entry_row(entries[i]),
{
}

proof fn joined_tags<T>(a: Seq<T>, b: Seq<T>, x: T)
    ensures
        (a + b).contains(x) <==> a.contains(x) || b.contains(x),
{
    if a.contains(x) {
        let k = choose|k: int| 0 <= k < a.len() && a[k] == x;
        assert((a + b)[k] == x);
    }
    if b.contains(x) {
        let k = choose|k: int| 0 <= k < b.len() && b[k] == x;
        assert((a + b)[a.len() + k] == x);
    }
    if (a + b).contains(x) {
        let k = choose|k: int| 0 <= k < (a + b).len() && (a + b)[k] == x;
        if k < a.len() {
            assert(a[k] == x);
        } else {
            assert(b[k - a.len()] == x);
        }
    }
}

proof fn single_tags(wanted: bool, label: Seq<char>, warning: bool, x: TagView)
    ensures
        tag_if(wanted, label, warning).contains(x) <==> wanted && x == (TagView { label, warning }),
{
    if wanted {
        assert(tag_if(wanted, label, warning)[0] == (TagView { label, warning }));
    }
}

/// A prim has a tag for exactly what it is: a mesh, its kind, a parent, a sound
/// source, a procedural, and hidden as a warning.
pub proof fn prims_have_their_tags(p: PrimSummary, x: TagView)
    ensures
        tags_of(p).contains(x) <==> {
            ||| p.has_mesh && x == (TagView { label: "mesh"@, warning: false })
            ||| p.kind is Some && x == (TagView { label: "kind:"@ + p.kind->0@, warning: false })
            ||| p.has_children && x == (TagView { label: "parent"@, warning: false })
            ||| p.has_audio && x == (TagView { label: "audio"@, warning: false })
            ||| p.procedural && x == (TagView { label: "procedural"@, warning: false })
            ||| p.hidden && x == (TagView { label: "hidden"@, warning: true })
        },
{
    let a = tag_if(p.has_mesh, "mesh"@, false);
    let b = match p.kind {
        Some(k) => seq![TagView { label: "kind:"@ + k@, warning: false }],
        None => Seq::empty(),
    };
    let c = tag_if(p.has_children, "parent"@, false);
    let d = tag_if(p.has_audio, "audio"@, false);
    let e = tag_if(p.procedural, "procedural"@, false);
    let f = tag_if(p.hidden, "hidden"@, true);
    single_tags(p.has_mesh, "mesh"@, false, x);
    single_tags(p.has_children, "parent"@, false, x);
    single_tags(p.has_audio, "audio"@, false, x);
    single_tags(p.procedural, "procedural"@, false, x);
    single_tags(p.hidden, "hidden"@, true, x);
    if let Some(k) = p.kind {
        assert(b[0] == (TagView { label: "kind:"@ + k@, warning: false }));
    }
    joined_tags(a, b, x);
    joined_tags(a + b, c, x);
    joined_tags(a + b + c, d, x);
    joined_tags(a + b + c + d, e, x);
    joined_tags(a + b + c + d + e, f, x);
}

/// The selected prim is shown with its name, path and tags; a selection whose
/// prim is gone is told stale, and no selection asks for one.
pub proof fn the_selection_is_shown(file: Seq<char>, selected: Option<u64>, found: Option<PrimSummary>)
    ensures
        loaded_section(file).rows[0] == (RowView::Readout { label: "file"@, value: file }),
        found matches Some(p) ==> {
            &&& selected_section(selected, found).rows[0] == (RowView::Readout {
                label: "name"@,
                value: p.name@,
            })
            &&& selected_section(selected, found).rows[1] == (RowView::Readout {
                label: "path"@,
                value: p.path@,
            })
            &&& selected_section(selected, found).rows[2] == RowView::Tags(tags_of(p))
        },
        found is None && selected is Some ==> selected_section(selected, found).rows == seq![
            RowView::Readout { label: "prim"@, value: "(selection stale)"@ },
        ],
        found is None && selected is None ==> selected_section(selected, found).rows == seq![
            RowView::Readout { label: "prim"@, value: "Click a prim in the Tree panel"@ },
        ],
        is_stale(selected, found) <==> selected is Some && found is None,
{
}

/// What is revealed is the directory of the file inside the root, or the root
/// where the path names nothing.
pub proof fn the_files_directory_is_revealed(root: Seq<char>, file: Seq<char>)
    ensures
        without_tail(joined(root, file)).len() == 0 ==> revealed(root, file) == root,
        without_tail(joined(root, file)).len() > 0 ==> revealed(root, file) == directory(
            joined(root, file),
        ),
{
}

/// The play button offers what it does: pause while playing, play otherwise.
/// The slider stands at the current second and goes to the end of the clip.
pub proof fn the_timeline_shows_the_clock(clock: Playback, animated: nat, texts: ClockTexts)
    ensures
        ({
            let rows = timeline_section(clock, animated, texts).rows;
            &&& rows.len() == 6
            &&& rows[0] == (RowView::Readout {
                label: "clip"@,
                value: decimal(animated) + " animated · "@ + texts.fps_short@ + " fps · "@
                    + texts.duration@ + "s"@,
            })
            &&& clock.playing ==> rows[1] == RowView::Button("Pause"@)
            &&& !clock.playing ==> rows[1] == RowView::Button("Play"@)
            &&& rows[2] == RowView::Button("Rewind"@)
            &&& (rows[3] matches RowView::Slider { label, value, low, high, digits, unit } && value
                == Scalar::F64(clock.seconds) && low == 0 && high == texts.span)
            &&& rows[4] == (RowView::Readout { label: "timeCode"@, value: texts.time_code@ })
            &&& rows[5] == (RowView::Readout { label: "fps"@, value: texts.fps@ })
        }),
{
}

/// A prim lies one level deeper than the prim above it.
pub proof fn children_lie_one_level_deeper(path: Seq<char>, name: Seq<char>)
    requires
        path.contains('/'),
        !name.contains('/'),
    ensures
        depth_of(path + seq!['/'] + name) == depth_of(path) + 1,
        depth_of(seq!['/'] + name) == 0,
{
    slashes_add_up(path + seq!['/'], name);
    slashes_add_up(path, seq!['/']);
    slashes_add_up(seq!['/'], name);
    reveal_with_fuel(count_char, 3);
    assert(seq!['/'].drop_last() =~= Seq::<char>::empty());
    no_slashes(name);
    some_slash(path);
}

proof fn slashes_add_up(a: Seq<char>, b: Seq<char>)
    ensures
        count_char(a + b, '/') == count_char(a, '/') + count_char(b, '/'),
    decreases b.len(),
{
    if b.len() == 0 {
        assert(a + b =~= a);
    } else {
        assert((a + b).drop_last() =~= a + b.drop_last());
        slashes_add_up(a, b.drop_last());
    }
}

proof fn no_slashes(name: Seq<char>)
    requires
        !name.contains('/'),
    ensures
        count_char(name, '/') == 0,
    decreases name.len(),
{
    if name.len() > 0 {
        assert(name.contains(name.last()));
        let rest = name.drop_last();
        assert forall|k: int| 0 <= k < rest.len() implies rest[k] != '/' by {
            assert(name[k] != '/');
        }
        no_slashes(rest);
    }
}

proof fn some_slash(path: Seq<char>)
    requires
        path.contains('/'),
    ensures
        count_char(path, '/') > 0,
    decreases path.len(),
{
    let k = choose|k: int| 0 <= k < path.len() && path[k] == '/';
    if path.last() != '/' {
        assert(path.drop_last()[k] == '/');
        some_slash(path.drop_last());
    }
}

/// A row of the tree is the prim's own: its path, its display name or else its
/// name, its depth and its swatch; it can be expanded exactly where some row
/// lies below it.
pub proof fn tree_rows_are_their_prims(e: TreeEntry, list: Seq<TreeNodeView>, i: int)
    requires
        0 <= i < list.len(),
    ensures
        bare_node(e).path == e.path@,
        e.display_name matches Some(d) ==> bare_node(e).label == d@,
        e.display_name is None ==> bare_node(e).label == e.name@,
        bare_node(e).depth == depth_of(e.path@),
        bare_node(e).swatch == e.swatch,
        with_children(list).len() == list.len(),
        with_children(list)[i].path == list[i].path,
        with_children(list)[i].label == list[i].label,
        with_children(list)[i].depth == list[i].depth,
        with_children(list)[i].swatch == list[i].swatch,
        with_children(list)[i].has_children <==> exists|k: int|
            0 <= k < list.len() && (list[i].path + "/"@).is_prefix_of((#[trigger] list[k]).path),
{
}

/// A collapsed row hides the deeper rows after it, up to the next one that is
/// not deeper; that one shows again, with its own depth. A row without
/// children, or an expanded one, hides nothing.
pub proof fn collapsed_rows_hide_what_is_below(
    walk: TreeWalk,
    path: Seq<char>,
    depth: u32,
    has_children: bool,
    filter: Seq<char>,
    above: u32,
)
    requires
        !walk.flat,
    ensures
        walk_after(walk, above, true, false).collapsed_at == Some(above),
        walk_after(walk, above, true, true) == walk,
        walk_after(walk, above, false, false) == walk,
        walk.collapsed_at == Some(above) && depth > above ==> walk_step(
            walk,
            path,
            depth,
            has_children,
            filter,
        ) == (walk, None::<RowPlan>),
        walk.collapsed_at == Some(above) && depth <= above ==> walk_step(
            walk,
            path,
            depth,
            has_children,
            filter,
        ) == (
            TreeWalk { flat: false, collapsed_at: None },
            Some(RowPlan { depth, expandable: has_children }),
        ),
        walk.collapsed_at is None ==> walk_step(walk, path, depth, has_children, filter) == (
            walk,
            Some(RowPlan { depth, expandable: has_children }),
        ),
{
}

/// The tree pane counts its prims.
pub proof fn the_tree_pane_counts(prims: nat)
    ensures
        tree_section(prims).rows[0] == (RowView::Readout { label: "prims"@, value: decimal(prims) }),
        tree_section(prims).rows[2] == RowView::Tree,
{
}

/// The option that is current in a set is the picked one, else the authored
/// one, and the first where neither is an option; the row points at it.
pub proof fn sets_show_their_current_option(
    set: VariantSet,
    picked: Seq<((Seq<char>, Seq<char>), Seq<char>)>,
)
    requires
        0 < set.options@.len() <= usize::MAX,
    ensures
        crate::assoc::at(picked, (set.prim_path@, set.name@)) matches Some(option)
            ==> current_option(set, picked) == option,
        crate::assoc::at(picked, (set.prim_path@, set.name@)) is None ==> (
        set.selection matches Some(s) ==> current_option(set, picked) == s@),
        set_row(set, picked).prim_path == set.prim_path@,
        set_row(set, picked).name == set.name@,
        set_row(set, picked).options == views(set.options@),
        set_row(set, picked).is_anim <==> set.name@ == "anim"@,
        views(set.options@).contains(current_option(set, picked)) ==> views(
            set.options@,
        )[set_row(set, picked).current as int] == current_option(set, picked),
        !views(set.options@).contains(current_option(set, picked)) ==> set_row(set, picked).current
            == 0,
{
    let list = views(set.options@);
    let item = current_option(set, picked);
    first_place_finds(list, item);
    if list.contains(item) {
        let k = choose|k: int| 0 <= k < list.len() && list[k] == item;
        assert(list[k] == item);
    }
}

/// Every set with options has its row, and no other row is shown.
pub proof fn every_set_with_options_is_listed(
    sets: Seq<VariantSet>,
    picked: Seq<((Seq<char>, Seq<char>), Seq<char>)>,
    count: nat,
    row: SetRowView,
)
    requires
        count <= sets.len(),
    ensures
        sorted_sets(sets, picked, count).contains(row) <==> exists|k: int|
            0 <= k < count && (#[trigger] sets[k]).options@.len() > 0 && row == set_row(
                sets[k],
                picked,
            ),
    decreases count,
{
    if count > 0 {
        let last = (count - 1) as nat;
        every_set_with_options_is_listed(sets, picked, last, row);
        let rest = sorted_sets(sets, picked, last);
        let own = set_row(sets[last as int], picked);
        inserted_rows_are_added(rest, own, row);
        if rest.contains(row) {
            let k = choose|k: int|
                0 <= k < last && (#[trigger] sets[k]).options@.len() > 0 && row == set_row(
                    sets[k],
                    picked,
                );
            assert(sets[k].options@.len() > 0);
        }
    }
}

proof fn inserted_rows_are_added(list: Seq<SetRowView>, own: SetRowView, row: SetRowView)
    ensures
        with_set(list, own).contains(row) <==> list.contains(row) || row == own,
    decreases list.len(),
{
    if list.len() == 0 || !set_less(own, list.last()) {
        pushed_members(list, own, row);
    } else {
        let front = list.drop_last();
        inserted_rows_are_added(front, own, row);
        pushed_members(with_set(front, own), list.last(), row);
        pushed_members(front, list.last(), row);
        assert(front.push(list.last()) =~= list);
    }
}

/// Each set is a dropdown of its options at the current one, labelled by its
/// prim and name.
pub proof fn sets_are_dropdowns(sets: Seq<SetRowView>, i: int)
    requires
        0 <= i < sets.len(),
    ensures
        variants_section(sets).rows.len() == sets.len(),
        variants_section(sets).rows[i] == (RowView::Dropdown {
            label: short_name(sets[i].prim_path) + "  ·  "@ + sets[i].name,
            options: sets[i].options,
            selected: sets[i].current,
        }),
        variants_section(Seq::empty()).rows == seq![
            RowView::Readout { label: "variants"@, value: "(none authored)"@ },
        ],
{
}

/// The materials are listed in order: by name, and plain before textured.
pub proof fn materials_are_listed_in_order(materials: Seq<BoundMaterial>, count: nat)
    requires
        count <= materials.len(),
    ensures
        forall|i: int, j: int|
            0 <= i < j < sorted_entries(materials, count).len() ==> !entry_less(
                #[trigger] sorted_entries(materials, count)[j],
                #[trigger] sorted_entries(materials, count)[i],
            ),
    decreases count,
{
    if count > 0 {
        let last = (count - 1) as nat;
        materials_are_listed_in_order(materials, last);
        inserted_entries_keep_order(
            sorted_entries(materials, last),
            entry_of(materials[last as int]),
        );
    }
}

proof fn entry_order_is_passed_on(
    a: (Seq<char>, bool),
    b: (Seq<char>, bool),
    c: (Seq<char>, bool),
)
    requires
        !entry_less(b, a),
        !entry_less(c, b),
    ensures
        !entry_less(c, a),
{
    not_less_is_transitive(a.0, b.0, c.0);
    less_is_total(a.0, b.0);
    less_is_total(b.0, c.0);
    if c.0 == a.0 && !text_less(a.0, b.0) {
        assert(a.0 == b.0);
    }
    if text_less(a.0, b.0) && c.0 == a.0 {
        assert(text_less(c.0, b.0));
    }
}

proof fn inserted_entries_keep_order(list: Seq<(Seq<char>, bool)>, entry: (Seq<char>, bool))
    requires
        forall|i: int, j: int|
            0 <= i < j < list.len() ==> !entry_less(#[trigger] list[j], #[trigger] list[i]),
    ensures
        forall|i: int, j: int|
            0 <= i < j < with_entry(list, entry).len() ==> !entry_less(
                #[trigger] with_entry(list, entry)[j],
                #[trigger] with_entry(list, entry)[i],
            ),
        forall|i: int|
            0 <= i < with_entry(list, entry).len() ==> #[trigger] with_entry(list, entry)[i] == entry
                || list.contains(with_entry(list, entry)[i]),
    decreases list.len(),
{
    let out = with_entry(list, entry);
    if list.len() == 0 || !entry_less(entry, list.last()) {
        assert forall|i: int, j: int| 0 <= i < j < out.len() implies !entry_less(
            #[trigger] out[j],
            #[trigger] out[i],
        ) by {
            if j == list.len() && i < list.len() - 1 {
                entry_order_is_passed_on(list[i], list[list.len() - 1], entry);
            }
        }
        assert forall|i: int| 0 <= i < out.len() implies #[trigger] out[i] == entry
            || list.contains(out[i]) by {
            if i < list.len() {
                assert(list[i] == out[i]);
            }
        }
    } else {
        let front = list.drop_last();
        let last = list.last();
        assert forall|i: int, j: int| 0 <= i < j < front.len() implies !entry_less(
            #[trigger] front[j],
            #[trigger] front[i],
        ) by {
            assert(!entry_less(list[j], list[i]));
        }
        inserted_entries_keep_order(front, entry);
        let inner = with_entry(front, entry);
        assert forall|i: int| 0 <= i < inner.len() implies !entry_less(
            last,
            #[trigger] inner[i],
        ) by {
            if inner[i] == entry {
                if text_less(entry.0, last.0) {
                    less_is_asymmetric(entry.0, last.0);
                }
                not_less_than_itself(entry.0);
            } else {
                let k = choose|k: int| 0 <= k < front.len() && front[k] == inner[i];
                assert(!entry_less(list[list.len() - 1], list[k]));
            }
        }
        assert forall|i: int, j: int| 0 <= i < j < out.len() implies !entry_less(
            #[trigger] out[j],
            #[trigger] out[i],
        ) by {
            assert(out[i] == inner[i]);
            if j < inner.len() {
                assert(out[j] == inner[j]);
            }
        }
        assert forall|i: int| 0 <= i < out.len() implies #[trigger] out[i] == entry
            || list.contains(out[i]) by {
            if i < inner.len() {
                assert(out[i] == inner[i]);
                if inner[i] != entry {
                    let k = choose|k: int| 0 <= k < front.len() && front[k] == inner[i];
                    assert(list[k] == out[i]);
                }
            } else {
                assert(list[list.len() - 1] == out[i]);
            }
        }
    }
}

proof fn not_less_than_itself(a: Seq<char>)
    ensures
        !text_less(a, a),
    decreases a.len(),
{
    if a.len() > 0 {
        not_less_than_itself(a.skip(1));
    }
}

/// The sections of the panes have their own names.
pub proof fn sections_have_their_names(
    t: DisplayToggles,
    c: CurveTuning,
    info: StageInfo,
    counts: EntityCounts,
)
    ensures
        world_section(t).title == "World overlays"@,
        render_section(t).title == "Render"@,
        curve_section(c).title == "Curves (tubes)"@,
        stage_section(info, counts).title == "Stage"@,
        lights_section(info).title == "Lights & instances"@,
        skel_section(info).title == "Skel & render"@,
        authoring_section(info, counts).title == "Authoring detail"@,
        actions_section().title == "Actions"@,
{
}

/// Each control of the overlays pane is labelled by what it switches or tunes,
/// and each slider has its range.
pub proof fn controls_have_their_label(t: DisplayToggles, c: CurveTuning)
    ensures
        ({
            let rows = world_section(t).rows;
            &&& rows[0] == (RowView::Toggle { label: "Ground grid (G)"@, on: t.show_world_grid })
            &&& rows[1] == (RowView::Toggle { label: "World axes (X)"@, on: t.show_world_axes })
            &&& rows[2] == (RowView::Toggle { label: "Prim markers (P)"@, on: t.show_prim_markers })
            &&& rows[3] == (RowView::Slider {
                label: "Prim marker bias"@,
                value: t.prim_marker_bias,
                low: 0,
                high: 0x4014_0000_0000_0000,
                digits: 2,
                unit: "×"@,
            })
            &&& rows[4] == (RowView::Toggle { label: "Skeleton bones (B)"@, on: t.show_skeleton })
            &&& rows[5] == (RowView::Toggle { label: "Physics gizmos (Y)"@, on: t.show_physics })
            &&& rows[6] == (RowView::Toggle {
                label: "Collider wireframes (C)"@,
                on: t.show_colliders,
            })
        }),
        render_section(t).rows[0] == (RowView::Toggle { label: "Wireframe"@, on: t.wireframe }),
        render_section(t).rows[1] == (RowView::Slider {
            label: "Light intensity"@,
            value: t.light_intensity_scale,
            low: 0,
            high: 0x4014_0000_0000_0000,
            digits: 2,
            unit: "×"@,
        }),
        curve_section(c).rows[0] == (RowView::Slider {
            label: "Radius"@,
            value: c.default_radius,
            low: 0x3f50_624d_d2f1_a9fc,
            high: 0x3fc9_9999_9999_999a,
            digits: 3,
            unit: " m"@,
        }),
        curve_section(c).rows[1] == (RowView::Slider {
            label: "Ring segments"@,
            value: Scalar::Int(c.ring_segments as i64),
            low: 0x4008_0000_0000_0000,
            high: 0x4038_0000_0000_0000,
            digits: 0,
            unit: ""@,
        }),
        curve_section(c).rows[2] == (RowView::Slider {
            label: "Point scale"@,
            value: c.point_scale,
            low: 0x3fa9_9999_9999_999a,
            high: 0x4010_0000_0000_0000,
            digits: 2,
            unit: "×"@,
        }),
{
}

/// A readout, a toggle, a slider and a dropdown are seen as they are.
pub proof fn rows_are_seen_as_they_are(row: Row)
    ensures
        (row matches Row::Readout { label, value } ==> row@ == (RowView::Readout {
            label: label@,
            value: value@,
        })),
        row matches Row::Button(label) ==> row@ == RowView::Button(label@),
        (row matches Row::Badges { label, items } ==> row@ == (RowView::Badges {
            label: label@,
            items: views(items@),
        })),
        (row matches Row::Toggle { label, on } ==> row@ == (RowView::Toggle { label: label@, on })),
        (row matches Row::Slider { label, value, low, high, digits, unit } ==> row@ == (
        RowView::Slider { label: label@, value, low, high, digits, unit: unit@ })),
        (row matches Row::Dropdown { label, options, selected } ==> row@ == (RowView::Dropdown {
            label: label@,
            options: views(options@),
            selected,
        })),
        (row matches Row::Choices { names, trailing } ==> row@ == (RowView::Choices {
            names: views(names@),
            trailing: views(trailing@),
        })),
        row matches Row::Search(hint) ==> row@ == RowView::Search(hint@),
        row is Tree ==> row@ == RowView::Tree,
        (row matches Row::Tags(tags) ==> (row@ matches RowView::Tags(seen) && seen.len()
            == tags@.len() && forall|i: int|
            0 <= i < tags@.len() ==> (#[trigger] seen[i]).label == tags@[i].label@ && seen[i].warning
                == tags@[i].warning)),
        (row matches Row::Keys(keys) ==> (row@ matches RowView::Keys(seen) && seen.len()
            == keys@.len() && forall|i: int|
            0 <= i < keys@.len() ==> (#[trigger] seen[i]).0 == keys@[i].0@ && seen[i].1
                == keys@[i].1@)),
{
}

/// A section, a button, a tree row and a set row are seen field by field.
pub proof fn pane_parts_are_seen_field_by_field(
    s: Section,
    b: RibbonButton,
    n: TreeNode,
    r: SetRow,
    i: int,
)
    ensures
        s@.id == s.id@ && s@.title == s.title@ && s@.icon == s.icon@,
        s@.rows.len() == s.rows@.len(),
        0 <= i < s.rows@.len() ==> s@.rows[i] == s.rows@[i]@,
        b@.id == b.id@ && b@.cluster == b.cluster && b@.icon == b.icon@,
        b@.tooltip == b.tooltip@ && b@.opens_pane == b.opens_pane,
        n@.path == n.path@ && n@.label == n.label@ && n@.depth == n.depth,
        n@.has_children == n.has_children && n@.swatch == n.swatch,
        r@.prim_path == r.prim_path@ && r@.name == r.name@ && r@.options == views(r.options@),
        r@.current == r.current && r@.is_anim == r.is_anim,
{
}

/// The tree of a stage is its sorted prims, each marked where others lie below
/// it.
pub proof fn trees_are_made_of_their_prims(entries: Seq<TreeEntry>)
    ensures
        tree_of(entries).len() == entries.len(),
        tree_of(entries) == with_children(sorted_nodes(entries, entries.len())),
{
    trees_are_sorted(entries, entries.len());
}

/// Each button of the rail has its place, icon and tooltip.
pub proof fn buttons_have_their_place()
    ensures
        ribbon_buttons()[0] == pane_button(
            "viewer_selection"@,
            Cluster::Start,
            "cursor"@,
            "File / selection"@,
        ),
        ribbon_buttons()[1] == pane_button(
            "viewer_tree"@,
            Cluster::Start,
            "folder"@,
            "Prim tree (T)"@,
        ),
        ribbon_buttons()[2] == pane_button(
            "viewer_info"@,
            Cluster::Start,
            "document"@,
            "Stage info (I)"@,
        ),
        ribbon_buttons()[3] == pane_button(
            "viewer_variants"@,
            Cluster::Start,
            "options"@,
            "Variants"@,
        ),
        ribbon_buttons()[4] == pane_button(
            "viewer_cameras"@,
            Cluster::Start,
            "cube"@,
            "Cameras"@,
        ),
        ribbon_buttons()[5] == pane_button(
            "viewer_materials"@,
            Cluster::Start,
            "color"@,
            "Materials"@,
        ),
        ribbon_buttons()[7] == pane_button(
            "viewer_overlays"@,
            Cluster::End,
            "square-multiple"@,
            "Overlays (O)"@,
        ),
        ribbon_buttons()[8] == pane_button(
            "viewer_timeline"@,
            Cluster::End,
            "clock"@,
            "Timeline"@,
        ),
        ribbon_buttons()[9] == pane_button(
            "viewer_keys"@,
            Cluster::End,
            "keyboard"@,
            "Controls (?)"@,
        ),
        ribbon_buttons()[10] == pane_button("viewer_log"@, Cluster::End, "list"@, "Log"@),
        ribbon_buttons()[6].tooltip == "Play / pause physics"@,
{
}

/// The viewport is seen as mounted on the camera that it is mounted on, and on
/// none while it is free.
pub proof fn mounts_are_seen_as_they_are(mount: CameraMount)
    ensures
        (mount matches CameraMount::Mounted { prim_path } ==> mount_view(mount) == Some(
            prim_path@,
        )),
        mount is Arcball ==> mount_view(mount) is None,
{
}

/// Picked options are seen one by one, each for its own prim and set.
pub proof fn picks_are_seen_in_order(list: Seq<Override>, i: int)
    requires
        0 <= i < list.len(),
    ensures
        override_views(list).len() == list.len(),
        override_views(list)[i] == ((list[i].prim_path@, list[i].set_name@), list[i].option@),
{
}

/// The sections, buttons and rows of a pane are seen one by one, in order.
pub proof fn pane_lists_are_seen_in_order(
    sections: Seq<Section>,
    buttons: Seq<RibbonButton>,
    nodes: Seq<TreeNode>,
    sets: Seq<SetRow>,
    i: int,
)
    ensures
        section_views(sections).len() == sections.len(),
        0 <= i < sections.len() ==> section_views(sections)[i] == sections[i]@,
        button_views(buttons).len() == buttons.len(),
        0 <= i < buttons.len() ==> button_views(buttons)[i] == buttons[i]@,
        tree_views(nodes).len() == nodes.len(),
        0 <= i < nodes.len() ==> tree_views(nodes)[i] == nodes[i]@,
        set_views(sets).len() == sets.len(),
        0 <= i < sets.len() ==> set_views(sets)[i] == sets[i]@,
{
}

/// The controls pane has a section of keys of its own for each list.
pub proof fn key_sections_hold_their_keys(
    id: Seq<char>,
    title: Seq<char>,
    keys: Seq<(Seq<char>, Seq<char>)>,
)
    ensures
        keys_section(id, title, keys).id == id,
        keys_section(id, title, keys).title == title,
        keys_section(id, title, keys).rows == seq![RowView::Keys(keys)],
{
}

/// Row `i` is collapsed and row `j` lies below it: it has children, is not
/// expanded, and every row from the one after it up to `j` is deeper.
pub open spec fn lies_in_collapsed(
    nodes: Seq<TreeNode>,
    expanded: Seq<bool>,
    i: int,
    j: int,
) -> bool {
    &&& 0 <= i < j
    &&& nodes[i].has_children
    &&& !expanded[i]
    &&& forall|k: int| i < k <= j ==> (#[trigger] nodes[k]).depth > nodes[i].depth
}

proof fn plain_walks_are_not_flat(nodes: Seq<TreeNode>, expanded: Seq<bool>, count: nat)
    ensures
        !walked(nodes, Seq::empty(), expanded, count).0.flat,
    decreases count,
{
    if count > 0 {
        plain_walks_are_not_flat(nodes, expanded, (count - 1) as nat);
    }
}

proof fn shown_rows_are_decided_once(
    nodes: Seq<TreeNode>,
    expanded: Seq<bool>,
    count: nat,
    j: usize,
)
    requires
        count <= nodes.len() <= usize::MAX,
    ensures
        walked(nodes, Seq::empty(), expanded, count).1.contains(j) <==> j < count && walk_step(
            walked(nodes, Seq::empty(), expanded, j as nat).0,
            nodes[j as int].path@,
            nodes[j as int].depth,
            nodes[j as int].has_children,
            Seq::empty(),
        ).1 is Some,
    decreases count,
{
    if count > 0 {
        let last = (count - 1) as nat;
        shown_rows_are_decided_once(nodes, expanded, last, j);
        pushed_members(walked(nodes, Seq::empty(), expanded, last).1, last as usize, j);
    }
}

proof fn collapsed_rows_stay_collapsed(
    nodes: Seq<TreeNode>,
    expanded: Seq<bool>,
    i: int,
    count: nat,
)
    requires
        0 <= i < count <= nodes.len(),
        nodes[i].has_children,
        !expanded[i],
        forall|k: int| i < k < count ==> (#[trigger] nodes[k]).depth > nodes[i].depth,
    ensures
        walked(nodes, Seq::empty(), expanded, count).0.collapsed_at matches Some(d) && d
            <= nodes[i].depth,
    decreases count,
{
    let last = (count - 1) as nat;
    plain_walks_are_not_flat(nodes, expanded, last);
    if i < last {
        collapsed_rows_stay_collapsed(nodes, expanded, i, last);
        assert(nodes[last as int].depth > nodes[i].depth);
    }
}

proof fn hidden_rows_lie_in_collapsed(
    nodes: Seq<TreeNode>,
    expanded: Seq<bool>,
    count: nat,
) -> (i: int)
    requires
        count <= nodes.len(),
        walked(nodes, Seq::empty(), expanded, count).0.collapsed_at is Some,
    ensures
        0 <= i < count,
        nodes[i].has_children,
        !expanded[i],
        walked(nodes, Seq::empty(), expanded, count).0.collapsed_at == Some(nodes[i].depth),
        forall|k: int| i < k < count ==> (#[trigger] nodes[k]).depth > nodes[i].depth,
    decreases count,
{
    if count == 0 {
        0
    } else {
        let last = (count - 1) as nat;
        plain_walks_are_not_flat(nodes, expanded, last);
        let before = walked(nodes, Seq::empty(), expanded, last).0;
        if before.collapsed_at is Some && nodes[last as int].depth > before.collapsed_at->0 {
            hidden_rows_lie_in_collapsed(nodes, expanded, last)
        } else {
            last as int
        }
    }
}

/// Without a filter exactly the rows show that lie in no collapsed row.
pub proof fn rows_show_unless_collapsed_away(
    nodes: Seq<TreeNode>,
    expanded: Seq<bool>,
    j: usize,
)
    requires
        j < nodes.len() <= usize::MAX,
        nodes.len() == expanded.len(),
    ensures
        walked(nodes, Seq::empty(), expanded, nodes.len()).1.contains(j) <==> !exists|i: int| #[trigger]
            lies_in_collapsed(nodes, expanded, i, j as int),
{
    shown_rows_are_decided_once(nodes, expanded, nodes.len(), j);
    plain_walks_are_not_flat(nodes, expanded, j as nat);
    let before = walked(nodes, Seq::empty(), expanded, j as nat).0;
    if exists|i: int| #[trigger] lies_in_collapsed(nodes, expanded, i, j as int) {
        let i = choose|i: int| #[trigger] lies_in_collapsed(nodes, expanded, i, j as int);
        collapsed_rows_stay_collapsed(nodes, expanded, i, j as nat);
        assert(nodes[j as int].depth > nodes[i].depth);
    }
    if before.collapsed_at is Some && nodes[j as int].depth > before.collapsed_at->0 {
        let i = hidden_rows_lie_in_collapsed(nodes, expanded, j as nat);
        assert(lies_in_collapsed(nodes, expanded, i, j as int));
    }
}

/// The variant sets are listed in order: by prim, then by name.
pub proof fn sets_are_listed_in_order(
    sets: Seq<VariantSet>,
    picked: Seq<((Seq<char>, Seq<char>), Seq<char>)>,
    count: nat,
)
    requires
        count <= sets.len(),
    ensures
        forall|i: int, j: int|
            0 <= i < j < sorted_sets(sets, picked, count).len() ==> !set_less(
                #[trigger] sorted_sets(sets, picked, count)[j],
                #[trigger] sorted_sets(sets, picked, count)[i],
            ),
    decreases count,
{
    if count > 0 {
        let last = (count - 1) as nat;
        sets_are_listed_in_order(sets, picked, last);
        inserted_sets_keep_order(
            sorted_sets(sets, picked, last),
            set_row(sets[last as int], picked),
        );
    }
}

proof fn set_order_is_passed_on(a: SetRowView, b: SetRowView, c: SetRowView)
    requires
        !set_less(b, a),
        !set_less(c, b),
    ensures
        !set_less(c, a),
{
    not_less_is_transitive(a.prim_path, b.prim_path, c.prim_path);
    less_is_total(a.prim_path, b.prim_path);
    less_is_total(b.prim_path, c.prim_path);
    if !text_less(b.name, a.name) && !text_less(c.name, b.name) {
        not_less_is_transitive(a.name, b.name, c.name);
    }
    if c.prim_path == a.prim_path && !text_less(a.prim_path, b.prim_path) {
        assert(a.prim_path == b.prim_path);
    }
    if text_less(a.prim_path, b.prim_path) && c.prim_path == a.prim_path {
        assert(text_less(c.prim_path, b.prim_path));
    }
}

proof fn inserted_sets_keep_order(list: Seq<SetRowView>, row: SetRowView)
    requires
        forall|i: int, j: int|
            0 <= i < j < list.len() ==> !set_less(#[trigger] list[j], #[trigger] list[i]),
    ensures
        forall|i: int, j: int|
            0 <= i < j < with_set(list, row).len() ==> !set_less(
                #[trigger] with_set(list, row)[j],
                #[trigger] with_set(list, row)[i],
            ),
        with_set(list, row).len() == list.len() + 1,
    decreases list.len(),
{
    let out = with_set(list, row);
    if list.len() == 0 || !set_less(row, list.last()) {
        assert forall|i: int, j: int| 0 <= i < j < out.len() implies !set_less(
            #[trigger] out[j],
            #[trigger] out[i],
        ) by {
            if j == list.len() && i < list.len() - 1 {
                set_order_is_passed_on(list[i], list[list.len() - 1], row);
            }
        }
    } else {
        let front = list.drop_last();
        let last = list.last();
        assert forall|i: int, j: int| 0 <= i < j < front.len() implies !set_less(
            #[trigger] front[j],
            #[trigger] front[i],
        ) by {
            assert(!set_less(list[j], list[i]));
        }
        inserted_sets_keep_order(front, row);
        let inner = with_set(front, row);
        assert forall|i: int| 0 <= i < inner.len() implies !set_less(last, #[trigger] inner[i]) by {
            inserted_rows_are_added(front, row, inner[i]);
            assert(inner.contains(inner[i]));
            if inner[i] == row {
                if text_less(row.prim_path, last.prim_path) {
                    less_is_asymmetric(row.prim_path, last.prim_path);
                }
                not_less_than_itself(row.prim_path);
                if text_less(row.name, last.name) {
                    less_is_asymmetric(row.name, last.name);
                }
            } else {
                let k = choose|k: int| 0 <= k < front.len() && front[k] == inner[i];
                assert(!set_less(list[list.len() - 1], list[k]));
            }
        }
        assert forall|i: int, j: int| 0 <= i < j < out.len() implies !set_less(
            #[trigger] out[j],
            #[trigger] out[i],
        ) by {
            assert(out[i] == inner[i]);
            if j < inner.len() {
                assert(out[j] == inner[j]);
            }
        }
    }
}

/// A bookmark is named by its number, and the panes of lists have their names.
pub proof fn pane_titles_are_their_own(
    number: nat,
    file: Seq<char>,
    sets: Seq<SetRowView>,
    lines: Seq<LogLine>,
    cameras: Seq<StageCamera>,
    entries: Seq<(Seq<char>, bool)>,
    clock: Playback,
    texts: ClockTexts,
)
    ensures
        bookmark_name(number) == "View "@ + decimal(number),
        sets.len() > 0 ==> variants_section(sets).title == "Variant sets"@,
        sets.len() == 0 ==> variants_section(sets).title == "Variants"@,
        log_section(lines).title == "Loader log"@,
        camera_section(cameras).title == "Cameras"@,
        materials_section(entries).title == "Bound materials"@,
        loaded_section(file).title == "Loaded stage"@,
        selected_section(None, None).title == "Selected prim"@,
        timeline_section(clock, number, texts).title == "Playback"@,
        tree_section(number).title == "Hierarchy"@,
        loaded_section(file).rows[1] == RowView::Button("Browse USD…"@),
        loaded_section(file).rows[2] == RowView::Button("Reveal in filesystem"@),
        tree_section(number).rows[1] == RowView::Search("Search prims…"@),
{
}

} // verus!
