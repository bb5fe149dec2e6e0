//! The left rail: its buttons in three clusters, where their panes open, and
//! what the command palette does.

use super::overlays::DisplayToggles;
use crate::text::{copy, str_eq, views};
use vstd::prelude::*;

verus! {

pub const RIBBON_LEFT: &'static str = "viewer_left";

pub const RIB_SELECTION: &'static str = "viewer_selection";

pub const RIB_TREE: &'static str = "viewer_tree";

pub const RIB_INFO: &'static str = "viewer_info";

pub const RIB_VARIANTS: &'static str = "viewer_variants";

pub const RIB_CAMERAS: &'static str = "viewer_cameras";

pub const RIB_MATERIALS: &'static str = "viewer_materials";

pub const RIB_OVERLAYS: &'static str = "viewer_overlays";

pub const RIB_TIMELINE: &'static str = "viewer_timeline";

pub const RIB_KEYS: &'static str = "viewer_keys";

pub const RIB_LOG: &'static str = "viewer_log";

pub const RIB_PLAY: &'static str = "viewer_play";

/// A cluster of the rail.
#[derive(Debug, Clone, Copy, PartialEq, Eq, Structural)]
pub enum Cluster {
    Start,
    Middle,
    End,
}

/// A button of the rail. `opens_pane` is false for a plain icon.
#[derive(Debug)]
pub struct RibbonButton {
    pub id: String,
    pub cluster: Cluster,
    pub icon: String,
    pub tooltip: String,
    pub opens_pane: bool,
}

/// A button, with its texts as character sequences.
#[verifier::ext_equal]
pub struct ButtonView {
    pub id: Seq<char>,
    pub cluster: Cluster,
    pub icon: Seq<char>,
    pub tooltip: Seq<char>,
    pub opens_pane: bool,
}

impl View for RibbonButton {
    type V = ButtonView;

    open spec fn view(&self) -> ButtonView {
        ButtonView {
            id: self.id@,
            cluster: self.cluster,
            icon: self.icon@,
            tooltip: self.tooltip@,
            opens_pane: self.opens_pane,
        }
    }
}

/// What a list of buttons says.
pub open spec fn button_views(buttons: Seq<RibbonButton>) -> Seq<ButtonView> {
    buttons.map_values(|b: RibbonButton| b@)
}

/// A button that opens a pane.
pub open spec fn pane_button(
    id: Seq<char>,
    cluster: Cluster,
    icon: Seq<char>,
    tooltip: Seq<char>,
) -> ButtonView {
    ButtonView { id, cluster, icon, tooltip, opens_pane: true }
}

/// The buttons of the rail, in order.
pub open spec fn ribbon_buttons() -> Seq<ButtonView> {
    seq![
        pane_button(RIB_SELECTION@, Cluster::Start, "cursor"@, "File / selection"@),
        pane_button(RIB_TREE@, Cluster::Start, "folder"@, "Prim tree (T)"@),
        pane_button(RIB_INFO@, Cluster::Start, "document"@, "Stage info (I)"@),
        pane_button(RIB_VARIANTS@, Cluster::Start, "options"@, "Variants"@),
        pane_button(RIB_CAMERAS@, Cluster::Start, "cube"@, "Cameras"@),
        pane_button(RIB_MATERIALS@, Cluster::Start, "color"@, "Materials"@),
        ButtonView {
            id: RIB_PLAY@,
            cluster: Cluster::Middle,
            icon: "play"@,
            tooltip: "Play / pause physics"@,
            opens_pane: false,
        },
        pane_button(RIB_OVERLAYS@, Cluster::End, "square-multiple"@, "Overlays (O)"@),
        pane_button(RIB_TIMELINE@, Cluster::End, "clock"@, "Timeline"@),
        pane_button(RIB_KEYS@, Cluster::End, "keyboard"@, "Controls (?)"@),
        pane_button(RIB_LOG@, Cluster::End, "list"@, "Log"@),
    ]
}

fn pane(id: &str, cluster: Cluster, icon: &str, tooltip: &str) -> (r: RibbonButton)
    ensures
        r@ == pane_button(id@, cluster, icon@, tooltip@),
{
    RibbonButton {
        id: copy(id),
        cluster,
        icon: copy(icon),
        tooltip: copy(tooltip),
        opens_pane: true,
    }
}

/// The buttons of the rail, in order.
pub fn ribbon_items() -> (r: Vec<RibbonButton>)
    ensures
        button_views(r@) == ribbon_buttons(),
{
    let play = RibbonButton {
        id: copy(RIB_PLAY),
        cluster: Cluster::Middle,
        icon: copy("play"),
        tooltip: copy("Play / pause physics"),
        opens_pane: false,
    };
    let out = vec![
        pane(RIB_SELECTION, Cluster::Start, "cursor", "File / selection"),
        pane(RIB_TREE, Cluster::Start, "folder", "Prim tree (T)"),
        pane(RIB_INFO, Cluster::Start, "document", "Stage info (I)"),
        pane(RIB_VARIANTS, Cluster::Start, "options", "Variants"),
        pane(RIB_CAMERAS, Cluster::Start, "cube", "Cameras"),
        pane(RIB_MATERIALS, Cluster::Start, "color", "Materials"),
        play,
        pane(RIB_OVERLAYS, Cluster::End, "square-multiple", "Overlays (O)"),
        pane(RIB_TIMELINE, Cluster::End, "clock", "Timeline"),
        pane(RIB_KEYS, Cluster::End, "keyboard", "Controls (?)"),
        pane(RIB_LOG, Cluster::End, "list", "Log"),
    ];
    assert(button_views(out@) =~= ribbon_buttons());
    out
}

/// The first `count` buttons that stand in a cluster.
pub open spec fn in_cluster(buttons: Seq<ButtonView>, cluster: Cluster, count: nat) -> Seq<ButtonView>
    decreases count,
{
    if count == 0 {
        Seq::empty()
    } else {
        let rest = in_cluster(buttons, cluster, (count - 1) as nat);
        if buttons[count - 1].cluster == cluster {
            rest.push(buttons[count - 1])
        } else {
            rest
        }
    }
}

/// The first `count` identifiers of buttons that open panes.
pub open spec fn pane_ids(buttons: Seq<ButtonView>, count: nat) -> Seq<Seq<char>>
    decreases count,
{
    if count == 0 {
        Seq::empty()
    } else {
        let rest = pane_ids(buttons, (count - 1) as nat);
        if buttons[count - 1].opens_pane {
            rest.push(buttons[count - 1].id)
        } else {
            rest
        }
    }
}

/// The buttons of a cluster, in order.
pub fn draw_unified_ribbons(cluster: Cluster) -> (r: Vec<RibbonButton>)
    ensures
        button_views(r@) == in_cluster(ribbon_buttons(), cluster, ribbon_buttons().len()),
{
    let items = ribbon_items();
    let ghost all = ribbon_buttons();
    let mut out: Vec<RibbonButton> = Vec::new();
    assert(button_views(out@) =~= Seq::<ButtonView>::empty());
    for i in 0..items.len()
        invariant
            button_views(items@) == all,
            all == ribbon_buttons(),
            button_views(out@) == in_cluster(all, cluster, i as nat),
    {
        let item = &items[i];
        assert(all[i as int] == item@);
        if item.cluster == cluster {
            let ghost sofar = button_views(out@);
            let same = RibbonButton {
                id: copy(item.id.as_str()),
                cluster: item.cluster,
                icon: copy(item.icon.as_str()),
                tooltip: copy(item.tooltip.as_str()),
                opens_pane: item.opens_pane,
            };
            assert(same@ == item@);
            out.push(same);
            assert(button_views(out@) =~= sofar.push(item@));
        }
    }
    assert(button_views(items@).len() == items@.len());
    out
}

/// The identifiers of the panes, in order.
pub fn publish_pane_ids() -> (r: Vec<String>)
    ensures
        views(r@) == pane_ids(ribbon_buttons(), ribbon_buttons().len()),
{
    let items = ribbon_items();
    let ghost all = ribbon_buttons();
    let mut out: Vec<String> = Vec::new();
    assert(views(out@) =~= Seq::<Seq<char>>::empty());
    for i in 0..items.len()
        invariant
            button_views(items@) == all,
            all == ribbon_buttons(),
            views(out@) == pane_ids(all, i as nat),
    {
        assert(all[i as int] == items@[i as int]@);
        if items[i].opens_pane {
            let ghost sofar = views(out@);
            out.push(copy(items[i].id.as_str()));
            assert(views(out@) =~= sofar.push(items@[i as int].id@));
        }
    }
    assert(button_views(items@).len() == items@.len());
    out
}

/// The cluster of the first button with this identifier; the first cluster
/// for any other identifier.
pub open spec fn zone_of(buttons: Seq<ButtonView>, id: Seq<char>) -> Cluster
    decreases buttons.len(),
{
    if buttons.len() == 0 {
        Cluster::Start
    } else if buttons[0].id == id {
        buttons[0].cluster
    } else {
        zone_of(buttons.skip(1), id)
    }
}

/// The zone of the rail where a button's pane opens.
pub fn pane_anchor_for(item_id: &str) -> (r: Cluster)
    ensures
        r == zone_of(ribbon_buttons(), item_id@),
{
    let items = ribbon_items();
    let ghost all = ribbon_buttons();
    let mut i: usize = 0;
    assert(all.skip(0) =~= all);
    assert(button_views(items@).len() == items@.len());
    while i < items.len()
        invariant
            button_views(items@) == all,
            all == ribbon_buttons(),
            all.len() == items@.len(),
            i <= items@.len(),
            zone_of(all, item_id@) == zone_of(all.skip(i as int), item_id@),
        decreases items@.len() - i,
    {
        assert(all.skip(i as int)[0] == items@[i as int]@);
        if str_eq(items[i].id.as_str(), item_id) {
            return items[i].cluster;
        }
        assert(all.skip(i as int).skip(1) =~= all.skip(i as int + 1));
        i = i + 1;
    }
    Cluster::Start
}

/// Whether physics runs after these buttons were clicked: each click on the
/// play button toggles it.
pub open spec fn toggled(running: bool, clicked: Seq<Seq<char>>, count: nat) -> bool
    decreases count,
{
    if count == 0 {
        running
    } else {
        let before = toggled(running, clicked, (count - 1) as nat);
        if clicked[count - 1] == RIB_PLAY@ {
            !before
        } else {
            before
        }
    }
}

/// Whether physics runs after these buttons were clicked.
pub fn draw_ribbons(running: bool, clicked: &Vec<String>) -> (r: bool)
    ensures
        r == toggled(running, views(clicked@), clicked@.len()),
{
    let mut on = running;
    for i in 0..clicked.len()
        invariant
            on == toggled(running, views(clicked@), i as nat),
    {
        assert(views(clicked@)[i as int] == clicked@[i as int]@);
        if str_eq(clicked[i].as_str(), RIB_PLAY) {
            on = !on;
        }
    }
    on
}

/// What a command of the palette asks of the host.
#[derive(Debug)]
pub enum PaletteEffect {
    /// No such command, or nothing but a switch changed.
    Nothing,
    /// Open this pane.
    Open(String),
    /// Load the stage again.
    Reload,
    /// Ask for a stage to load.
    Browse,
}

/// The pane that a command opens.
pub open spec fn opened_by(id: Seq<char>) -> Option<Seq<char>> {
    if id == "open_selection"@ {
        Some(RIB_SELECTION@)
    } else if id == "open_tree"@ {
        Some(RIB_TREE@)
    } else if id == "open_info"@ {
        Some(RIB_INFO@)
    } else if id == "open_variants"@ {
        Some(RIB_VARIANTS@)
    } else if id == "open_cameras"@ {
        Some(RIB_CAMERAS@)
    } else if id == "open_overlays"@ {
        Some(RIB_OVERLAYS@)
    } else if id == "open_timeline"@ {
        Some(RIB_TIMELINE@)
    } else if id == "open_keys"@ {
        Some(RIB_KEYS@)
    } else if id == "open_log"@ {
        Some(RIB_LOG@)
    } else {
        None
    }
}

/// The switches after a command.
pub open spec fn toggles_after(t: DisplayToggles, id: Seq<char>) -> DisplayToggles {
    if opened_by(id) is Some {
        t
    } else if id == "toggle_grid"@ {
        DisplayToggles { show_world_grid: !t.show_world_grid, ..t }
    } else if id == "toggle_axes"@ {
        DisplayToggles { show_world_axes: !t.show_world_axes, ..t }
    } else if id == "toggle_markers"@ {
        DisplayToggles { show_prim_markers: !t.show_prim_markers, ..t }
    } else if id == "toggle_wireframe"@ {
        DisplayToggles { wireframe: !t.wireframe, ..t }
    } else {
        t
    }
}

/// The command is one of the switches.
pub open spec fn is_switch(id: Seq<char>) -> bool {
    id == "toggle_grid"@ || id == "toggle_axes"@ || id == "toggle_markers"@ || id
        == "toggle_wireframe"@
}

fn pane_for(id: &str) -> (r: Option<&'static str>)
    ensures
        match r {
            Some(p) => opened_by(id@) == Some(p@),
            None => opened_by(id@) is None,
        },
{
    if str_eq(id, "open_selection") {
        Some(RIB_SELECTION)
    } else if str_eq(id, "open_tree") {
        Some(RIB_TREE)
    } else if str_eq(id, "open_info") {
        Some(RIB_INFO)
    } else if str_eq(id, "open_variants") {
        Some(RIB_VARIANTS)
    } else if str_eq(id, "open_cameras") {
        Some(RIB_CAMERAS)
    } else if str_eq(id, "open_overlays") {
        Some(RIB_OVERLAYS)
    } else if str_eq(id, "open_timeline") {
        Some(RIB_TIMELINE)
    } else if str_eq(id, "open_keys") {
        Some(RIB_KEYS)
    } else if str_eq(id, "open_log") {
        Some(RIB_LOG)
    } else {
        None
    }
}

/// Runs a command of the palette: it opens a pane, flips a switch, reloads or
/// browses.
pub fn draw_palette_panel(t: &mut DisplayToggles, id: &str) -> (r: PaletteEffect)
    ensures
        *final(t) == toggles_after(*old(t), id@),
        opened_by(id@) matches Some(p) ==> (r matches PaletteEffect::Open(name) && name@ == p),
        opened_by(id@) is None && !is_switch(id@) && id@ == "reload_stage"@ ==> r
            == PaletteEffect::Reload,
        opened_by(id@) is None && !is_switch(id@) && id@ != "reload_stage"@ && id@
            == "browse_usd"@ ==> r == PaletteEffect::Browse,
        opened_by(id@) is None && (is_switch(id@) || (id@ != "reload_stage"@ && id@
            != "browse_usd"@)) ==> r == PaletteEffect::Nothing,
{
    if let Some(p) = pane_for(id) {
        return PaletteEffect::Open(copy(p));
    }
    if str_eq(id, "toggle_grid") {
        t.show_world_grid = !t.show_world_grid;
        PaletteEffect::Nothing
    } else if str_eq(id, "toggle_axes") {
        t.show_world_axes = !t.show_world_axes;
        PaletteEffect::Nothing
    } else if str_eq(id, "toggle_markers") {
        t.show_prim_markers = !t.show_prim_markers;
        PaletteEffect::Nothing
    } else if str_eq(id, "toggle_wireframe") {
        t.wireframe = !t.wireframe;
        PaletteEffect::Nothing
    } else if str_eq(id, "reload_stage") {
        PaletteEffect::Reload
    } else if str_eq(id, "browse_usd") {
        PaletteEffect::Browse
    } else {
        PaletteEffect::Nothing
    }
}

} // verus!
