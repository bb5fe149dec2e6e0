use usd_bevy::incremental::{
    plan_switch, reassignment, MaterialVariantCache, MeshProbe, SwitchPlan, VariantSwitch,
};
use usd_bevy::read::camera::Projection;
use usd_bevy::stage::{Scalar, Triple};
use usd_bevy::viewer::cameras::{
    draw_cameras_panel, mount_at, CameraBookmarks, CameraMount, StageCamera, Viewpoint,
};
use usd_bevy::viewer::info::{draw_info_panel, EntityCounts, StageInfo};
use usd_bevy::viewer::log::{draw_keys_panel, draw_log_panel, short_target, LogLine};
use usd_bevy::viewer::materials::{draw_materials_panel, BoundMaterial};
use usd_bevy::viewer::overlays::{
    apply_overlay_changes, control_at, draw_overlays_panel, Change, Control, CurveTuning,
    DisplayToggles,
};
use usd_bevy::viewer::ribbon::{
    draw_palette_panel, draw_ribbons, draw_unified_ribbons, pane_anchor_for, publish_pane_ids,
    ribbon_items, Cluster, PaletteEffect, RIB_LOG, RIB_PLAY, RIB_TREE,
};
use usd_bevy::viewer::rows::{Row, Section};
use usd_bevy::viewer::selection::{
    draw_selection_panel, prim_tags, reveal_target, selection_after, PrimSummary,
};
use usd_bevy::viewer::timeline::{draw_timeline_panel, playback_after, ClockTexts, Playback};
use usd_bevy::viewer::tree::{
    build_tree, draw_tree_panel, match_filter, render_tree, tree_click, TreeClick, TreeEntry,
};
use usd_bevy::viewer::variants::{
    apply_pick, collect_sets, draw_variants_panel, pick_override, Override, PickEffect,
    VariantSet,
};

fn entry(path: &str) -> TreeEntry {
    TreeEntry {
        path: path.into(),
        name: path.rsplit('/').next().unwrap().into(),
        display_name: None,
        swatch: None,
    }
}

fn scalar(x: f64) -> Scalar {
    Scalar::F64(x.to_bits())
}

fn readouts(section: &Section) -> Vec<(String, String)> {
    section
        .rows
        .iter()
        .filter_map(|row| match row {
            Row::Readout { label, value } => Some((label.clone(), value.clone())),
            _ => None,
        })
        .collect()
}

fn said(section: &Section, label: &str) -> Option<String> {
    readouts(section).into_iter().find(|(l, _)| l == label).map(|(_, v)| v)
}

#[test]
fn trees_are_sorted_and_nested() {
    let mut shown = entry("/World/B");
    shown.display_name = Some("Bee".into());
    let nodes = build_tree(&vec![shown, entry("/World"), entry("/World/A"), entry("/World/B/C")]);
    let paths: Vec<&str> = nodes.iter().map(|n| n.path.as_str()).collect();
    assert_eq!(paths, ["/World", "/World/A", "/World/B", "/World/B/C"]);
    let depths: Vec<u32> = nodes.iter().map(|n| n.depth).collect();
    assert_eq!(depths, [0, 1, 1, 2]);
    let parents: Vec<bool> = nodes.iter().map(|n| n.has_children).collect();
    assert_eq!(parents, [true, false, true, false]);
    assert_eq!(nodes[2].label, "Bee");
    assert_eq!(nodes[1].label, "A");
    assert_eq!(said(&draw_tree_panel(&nodes)[0], "prims").as_deref(), Some("4"));
}

#[test]
fn names_alone_do_not_nest() {
    let nodes = build_tree(&vec![entry("/A"), entry("/AB")]);
    assert!(!nodes[0].has_children);
}

#[test]
fn collapsed_rows_hide_their_subtree() {
    let nodes = build_tree(&vec![
        entry("/A"),
        entry("/A/B"),
        entry("/A/B/C"),
        entry("/A/D"),
        entry("/E"),
    ]);
    assert_eq!(render_tree(&nodes, "", &vec![true; 5]), [0, 1, 2, 3, 4]);
    assert_eq!(render_tree(&nodes, "", &vec![true, false, true, true, true]), [0, 1, 3, 4]);
    assert_eq!(render_tree(&nodes, "", &vec![false, true, true, true, true]), [0, 4]);
    assert_eq!(render_tree(&nodes, "b/c", &vec![false; 5]), [2]);
    assert_eq!(match_filter("B/C"), "b/c");
    assert_eq!(match_filter("ÄB"), "äb");
}

#[test]
fn clicks_select_and_fly() {
    let entries = vec![("/A".to_string(), 1), ("/B".to_string(), 2)];
    assert_eq!(tree_click(&entries, "/B", None), TreeClick::FlyTo(2));
    assert_eq!(tree_click(&entries, "/B", Some(2)), TreeClick::Same(2));
    assert_eq!(tree_click(&entries, "/C", Some(2)), TreeClick::Nothing);
    assert_eq!(tree_click(&entries, "", Some(2)), TreeClick::Nothing);
}

fn sets() -> Vec<VariantSet> {
    vec![
        VariantSet {
            prim_path: "/World/Chair".into(),
            name: "look".into(),
            options: vec!["red".into(), "blue".into()],
            selection: Some("blue".into()),
        },
        VariantSet {
            prim_path: "/World/Chair".into(),
            name: "anim".into(),
            options: vec!["walk".into(), "run".into()],
            selection: None,
        },
        VariantSet {
            prim_path: "/Empty".into(),
            name: "none".into(),
            options: vec![],
            selection: None,
        },
    ]
}

#[test]
fn picked_variants_become_current() {
    let mut picked: Vec<Override> = Vec::new();
    let rows = collect_sets(&sets(), &picked);
    assert_eq!(rows.len(), 2);
    assert_eq!((rows[0].name.as_str(), rows[0].current, rows[0].is_anim), ("anim", 0, true));
    assert_eq!((rows[1].name.as_str(), rows[1].current, rows[1].is_anim), ("look", 1, false));

    match apply_pick(&mut picked, &rows[1], 0) {
        PickEffect::Switch(s) => {
            assert_eq!((s.prim_path.as_str(), s.set_name.as_str()), ("/World/Chair", "look"));
            assert_eq!(s.option, "red");
        }
        other => panic!("a switch, got {other:?}"),
    }
    match apply_pick(&mut picked, &rows[0], 1) {
        PickEffect::PlayClip(name) => assert_eq!(name, "run"),
        other => panic!("a clip, got {other:?}"),
    }
    assert!(matches!(apply_pick(&mut picked, &rows[0], 9), PickEffect::Nothing));
    let rows = collect_sets(&sets(), &picked);
    assert_eq!((rows[0].current, rows[1].current), (1, 0));
    pick_override(&mut picked, "/World/Chair", "look", "blue");
    assert_eq!(picked.len(), 2);
    assert_eq!(collect_sets(&sets(), &picked)[1].current, 1);

    let panel = draw_variants_panel(&rows);
    match &panel[0].rows[0] {
        Row::Dropdown { label, options, selected } => {
            assert_eq!(label, "Chair  ·  anim");
            assert_eq!(options, &["walk", "run"]);
            assert_eq!(*selected, 1);
        }
        other => panic!("a dropdown, got {other:?}"),
    }
    let empty = draw_variants_panel(&vec![]);
    assert_eq!(said(&empty[0], "variants").as_deref(), Some("(none authored)"));
}

fn probe(path: &str, vertices: Option<usize>, points: Option<usize>, shaded: bool) -> MeshProbe {
    MeshProbe { path: path.into(), vertices, points, shaded }
}

#[test]
fn switches_reassign_only_unchanged_meshes() {
    let same = vec![probe("/A", Some(3), Some(3), true), probe("/B", Some(4), Some(4), true)];
    match plan_switch(&same) {
        SwitchPlan::Reassign(list) => assert_eq!(list, [0, 1]),
        other => panic!("reassigned, got {other:?}"),
    }
    let grown = vec![probe("/A", Some(3), Some(3), true), probe("/B", Some(4), Some(5), true)];
    assert!(matches!(plan_switch(&grown), SwitchPlan::Reload));
    let paths = vec!["/A".to_string(), "/B".to_string()];
    assert_eq!(reassignment(&paths, "/B"), Some(1));
    assert_eq!(reassignment(&paths, "/C"), None);
}

#[test]
fn switched_materials_are_remembered() {
    let switch = |option: &str| VariantSwitch {
        prim_path: "/A".into(),
        set_name: "look".into(),
        option: option.into(),
    };
    let mut cache: MaterialVariantCache<u32> = MaterialVariantCache::new();
    assert!(cache.get(&switch("red")).is_none());
    cache.insert(switch("red"), vec![("/A/M".to_string(), 7)]);
    cache.insert(switch("blue"), vec![]);
    assert_eq!(cache.get(&switch("red")), Some(&vec![("/A/M".to_string(), 7)]));
    cache.insert(switch("red"), vec![]);
    assert_eq!(cache.get(&switch("red")), Some(&vec![]));
}

fn view(distance: f64) -> Viewpoint {
    Viewpoint {
        focus: Triple { x: scalar(0.0), y: scalar(1.0), z: scalar(2.0) },
        distance: scalar(distance),
        yaw: scalar(0.5),
        elevation: scalar(0.25),
    }
}

#[test]
fn bookmarks_are_numbered_once() {
    let mut marks = CameraBookmarks { items: vec![], next_seq: 0 };
    marks.save(view(3.0));
    marks.save(view(4.0));
    marks.delete(0);
    marks.save(view(5.0));
    let names: Vec<&str> = marks.items.iter().map(|b| b.name.as_str()).collect();
    assert_eq!(names, ["View 2", "View 3"]);
    assert_eq!(marks.jump(1), Some(view(5.0)));
    assert_eq!(marks.jump(2), None);
    marks.delete(9);
    assert_eq!(marks.items.len(), 2);

    let cameras = vec![StageCamera {
        path: "/World/Cam".into(),
        focal_text: "50".into(),
        projection: Some(Projection::Orthographic),
    }];
    let panel = draw_cameras_panel(&marks, &vec!["4.0".into(), "5.0".into()], &cameras);
    match &panel[1].rows[0] {
        Row::Choices { names, trailing } => {
            assert_eq!(names, &["Arcball (free)", "Cam"]);
            assert_eq!(trailing, &["free", "50mm · ortho"]);
        }
        other => panic!("the cameras, got {other:?}"),
    }
    assert!(matches!(mount_at(&cameras, 0), CameraMount::Arcball));
    assert!(matches!(mount_at(&cameras, 2), CameraMount::Arcball));
    match mount_at(&cameras, 1) {
        CameraMount::Mounted { prim_path } => assert_eq!(prim_path, "/World/Cam"),
        other => panic!("mounted, got {other:?}"),
    }
}

fn summary() -> PrimSummary {
    PrimSummary {
        name: "Chair".into(),
        path: "/World/Chair".into(),
        has_mesh: true,
        kind: Some("component".into()),
        has_children: false,
        has_audio: false,
        procedural: false,
        hidden: true,
    }
}

#[test]
fn selections_are_described() {
    let tags = prim_tags(&summary());
    let labels: Vec<(&str, bool)> = tags.iter().map(|t| (t.label.as_str(), t.warning)).collect();
    assert_eq!(labels, [("mesh", false), ("kind:component", false), ("hidden", true)]);
    let panel = draw_selection_panel("a.usda", Some(4), &Some(summary()));
    assert_eq!(said(&panel[0], "file").as_deref(), Some("a.usda"));
    assert_eq!(said(&panel[1], "path").as_deref(), Some("/World/Chair"));
    let stale = draw_selection_panel("a.usda", Some(4), &None);
    assert_eq!(said(&stale[1], "prim").as_deref(), Some("(selection stale)"));
    let none = draw_selection_panel("a.usda", None, &None);
    assert_eq!(said(&none[1], "prim").as_deref(), Some("Click a prim in the Tree panel"));
    assert_eq!(selection_after(Some(4), &Some(summary()), false), Some(4));
    assert_eq!(selection_after(Some(4), &Some(summary()), true), None);
    assert_eq!(selection_after(Some(4), &None, false), None);
}

#[test]
fn stages_are_revealed_in_their_directory() {
    assert_eq!(reveal_target("/assets", "sub/a.usda"), "/assets/sub");
    assert_eq!(reveal_target("/assets", "a.usda"), "/assets");
    assert_eq!(reveal_target("/assets", "/other/a.usda"), "/other");
}

#[test]
fn clocks_follow_the_pane() {
    let clock = Playback { playing: false, seconds: 2.0f64.to_bits() };
    let played = playback_after(clock, true, false, None);
    assert_eq!(played, Playback { playing: true, seconds: 2.0f64.to_bits() });
    assert_eq!(playback_after(clock, false, true, None).seconds, 0);
    let moved = playback_after(clock, false, true, Some(7.5f64.to_bits()));
    assert_eq!(moved.seconds, 7.5f64.to_bits());
    let texts = ClockTexts {
        fps_short: "24".into(),
        fps: "24.0".into(),
        duration: "10.0".into(),
        time_code: "48.0".into(),
        span: 10.0f64.to_bits(),
    };
    let panel = draw_timeline_panel(played, 3, &texts);
    assert_eq!(said(&panel[0], "timeCode").as_deref(), Some("48.0"));
    assert!(matches!(&panel[0].rows[1], Row::Button(b) if b == "Pause"));
    assert!(said(&panel[0], "clip").unwrap().starts_with("3 animated · "));
}

#[test]
fn logs_show_the_newest_first() {
    assert_eq!(short_target("usd_bevy::route::mesh"), "mesh");
    assert_eq!(short_target("plain"), "plain");
    assert_eq!(short_target("a::"), "");
    let lines: Vec<LogLine> = (0..100)
        .map(|i| LogLine { target: "a::b".into(), message: format!("{i}") })
        .collect();
    let panel = draw_log_panel(&lines);
    let rows = readouts(&panel[0]);
    assert_eq!(rows[0], ("entries".to_string(), "80".to_string()));
    assert_eq!(rows[1], ("b".to_string(), "99".to_string()));
    assert_eq!(rows[80], ("b".to_string(), "20".to_string()));
    assert_eq!(rows.len(), 81);
    let empty = draw_log_panel(&vec![]);
    assert_eq!(
        said(&empty[0], "log").as_deref(),
        Some("(no events yet — load a stage)")
    );
    assert!(!draw_keys_panel().is_empty());
}

#[test]
fn bound_materials_are_listed_by_name() {
    let long = format!("stage/{}", "x".repeat(60));
    let panel = draw_materials_panel(&vec![
        BoundMaterial { label: long, textured: false },
        BoundMaterial { label: "stage/Mat".into(), textured: true },
    ]);
    let rows = readouts(&panel[0]);
    assert_eq!(rows[0], ("materials".to_string(), "2".to_string()));
    assert_eq!(rows[1], ("Mat".to_string(), "textured".to_string()));
    assert_eq!(rows[2], ("x".repeat(48), "constant color".to_string()));
}

fn toggles() -> DisplayToggles {
    DisplayToggles {
        show_world_grid: true,
        show_world_axes: false,
        show_prim_markers: false,
        prim_marker_bias: scalar(1.0),
        show_skeleton: false,
        show_physics: false,
        show_colliders: false,
        wireframe: false,
        light_intensity_scale: scalar(1.0),
    }
}

#[test]
fn overlays_change_one_setting() {
    let mut t = toggles();
    let mut c = CurveTuning {
        default_radius: scalar(0.01),
        ring_segments: 8,
        point_scale: scalar(1.0),
    };
    assert!(!draw_overlays_panel(t, c).is_empty());
    apply_overlay_changes(
        &mut t,
        &mut c,
        &vec![
            Change::Switched(Control::Wireframe, true),
            Change::Slid(Control::CurveRadius, 0.05f64.to_bits()),
        ],
    );
    assert_eq!(t, DisplayToggles { wireframe: true, ..toggles() });
    assert_eq!(c.default_radius, Scalar::F64(0.05f64.to_bits()));
    assert_eq!(c.ring_segments, 8);
    assert_eq!(control_at(0, 0), Some(Control::WorldGrid));
    assert_eq!(control_at(99, 0), None);
}

#[test]
fn ring_segments_are_whole() {
    let slide = |value: f64| {
        let mut t = toggles();
        let mut c = CurveTuning {
            default_radius: scalar(0.01),
            ring_segments: 8,
            point_scale: scalar(1.0),
        };
        let changes = vec![Change::Slid(Control::RingSegments, value.to_bits())];
        apply_overlay_changes(&mut t, &mut c, &changes);
        c.ring_segments
    };
    let values = [
        3.0, 7.4, 7.5, 7.6, 24.0, 0.0, -0.0, 0.5, 0.499_999_999_999_999_94, 0.25, 1.5, 2.5, -3.0,
        4_294_967_294.5, 4_294_967_295.5, 1e20, 1e-310, f64::NAN, f64::INFINITY,
        f64::NEG_INFINITY,
    ];
    for value in values {
        assert_eq!(slide(value), value.round() as u32, "{value}");
    }
}

#[test]
fn ribbons_hold_every_pane() {
    let items = ribbon_items();
    assert_eq!(items.len(), 11);
    let count = |c| draw_unified_ribbons(c).len();
    assert_eq!((count(Cluster::Start), count(Cluster::Middle), count(Cluster::End)), (6, 1, 4));
    assert_eq!(publish_pane_ids().len(), 10);
    assert!(!publish_pane_ids().iter().any(|id| id == RIB_PLAY));
    assert_eq!(pane_anchor_for(RIB_LOG), Cluster::End);
    assert_eq!(pane_anchor_for("unknown"), Cluster::Start);
    assert!(draw_ribbons(false, &vec![RIB_PLAY.to_string()]));
    assert!(!draw_ribbons(true, &vec![RIB_PLAY.to_string()]));
    assert!(draw_ribbons(true, &vec![RIB_TREE.to_string()]));
}

#[test]
fn palette_commands_take_effect() {
    let mut t = toggles();
    match draw_palette_panel(&mut t, "open_tree") {
        PaletteEffect::Open(id) => assert_eq!(id, RIB_TREE),
        other => panic!("opens, got {other:?}"),
    }
    assert!(matches!(draw_palette_panel(&mut t, "reload_stage"), PaletteEffect::Reload));
    assert!(matches!(draw_palette_panel(&mut t, "browse_usd"), PaletteEffect::Browse));
    assert_eq!(t, toggles());
    assert!(matches!(draw_palette_panel(&mut t, "toggle_grid"), PaletteEffect::Nothing));
    assert_eq!(t, DisplayToggles { show_world_grid: false, ..toggles() });
    assert!(matches!(draw_palette_panel(&mut t, "unknown"), PaletteEffect::Nothing));
}

#[test]
fn stage_info_is_summarized() {
    let info = StageInfo {
        path: "a.usda".into(),
        default_prim: None,
        layer_count: 2,
        variant_count: 3,
        lights_directional: 1,
        lights_point: 0,
        lights_spot: 0,
        lights_dome: 0,
        instance_prim_count: 0,
        instance_prototype_reuses: 0,
        animated_prim_count: 0,
        skeleton_count: 0,
        skel_root_count: 0,
        skel_binding_count: 0,
        render_settings_count: 0,
        render_product_count: 0,
        render_var_count: 0,
        physics_scene_count: 0,
        rigid_body_count: 0,
        joint_count: 0,
        custom_attr_prim_count: 0,
        custom_layer_data_entries: 0,
        subdivision_prim_count: 0,
        light_linked_count: 0,
        clip_prim_count: 0,
    };
    let counts = EntityCounts { prims: 12, meshes: 4, spatial_audio: 0, procedural: 0 };
    let panel = draw_info_panel(&info, counts);
    let all: Vec<(String, String)> = panel.iter().flat_map(readouts).collect();
    assert!(all.iter().any(|(_, v)| v == "a.usda"));
    assert!(all.iter().any(|(_, v)| v == "12"));
}
