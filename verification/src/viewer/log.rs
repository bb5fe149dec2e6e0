//! The log pane and the list of controls.

use super::rows::{
    key_views, readout, readout_view, row_views, section, section_views, Row, RowView, Section,
    SectionView,
};
use crate::text::{copy, decimal, number};
use vstd::prelude::*;

verus! {

/// How many log lines are shown.
pub const SHOWN_LINES: usize = 80;

/// One line of the loader's log.
#[derive(Debug)]
pub struct LogLine {
    pub target: String,
    pub message: String,
}

/// What follows the last `::`, or the whole target.
pub open spec fn last_segment(target: Seq<char>) -> Seq<char>
    decreases target.len(),
{
    segment_from(target, target.len())
}

/// What follows the last `::` that ends at or before `end`.
pub open spec fn segment_from(target: Seq<char>, end: nat) -> Seq<char>
    decreases end,
{
    if end < 2 {
        target
    } else if target[end - 1] == ':' && target[end - 2] == ':' {
        target.skip(end as int)
    } else {
        segment_from(target, (end - 1) as nat)
    }
}

/// The last segment of a log target.
pub fn short_target(target: &str) -> (r: String)
    ensures
        r@ == last_segment(target@),
{
    let n: usize = target.unicode_len();
    let mut end: usize = n;
    while end >= 2
        invariant
            n == target@.len(),
            end <= n,
            last_segment(target@) == segment_from(target@, end as nat),
        decreases end,
    {
        if target.get_char(end - 1) == ':' && target.get_char(end - 2) == ':' {
            let out = target.substring_char(end, n).to_owned();
            assert(out@ =~= target@.skip(end as int));
            return out;
        }
        end = end - 1;
    }
    copy(target)
}

/// The newest lines, newest first, at most 80.
pub open spec fn shown_lines(lines: Seq<LogLine>) -> Seq<LogLine> {
    let count = if lines.len() < SHOWN_LINES {
        lines.len()
    } else {
        SHOWN_LINES as nat
    };
    Seq::new(count, |i: int| lines[lines.len() - 1 - i])
}

/// The section of the log pane.
pub open spec fn log_section(lines: Seq<LogLine>) -> SectionView {
    let shown = shown_lines(lines);
    SectionView {
        id: "log"@,
        title: "Loader log"@,
        icon: "list"@,
        rows: seq![readout_view("entries"@, decimal(shown.len()))] + (if shown.len() == 0 {
            seq![readout_view("log"@, "(no events yet — load a stage)"@)]
        } else {
            shown.map_values(|l: LogLine| readout_view(last_segment(l.target@), l.message@))
        }),
    }
}

/// What the log pane shows.
pub fn draw_log_panel(lines: &Vec<LogLine>) -> (r: Vec<Section>)
    ensures
        section_views(r@) == seq![log_section(lines@)],
{
    let total: usize = lines.len();
    let count: usize = if total < SHOWN_LINES {
        total
    } else {
        SHOWN_LINES
    };
    let ghost shown = shown_lines(lines@);
    let mut rows: Vec<Row> = vec![readout("entries", number(count as u64).as_str())];
    if count == 0 {
        rows.push(readout("log", "(no events yet — load a stage)"));
    } else {
        for i in 0..count
            invariant
                total == lines@.len(),
                count <= total,
                shown == shown_lines(lines@),
                shown.len() == count,
                rows@.len() == i + 1,
                rows@[0]@ == readout_view("entries"@, decimal(count as nat)),
                forall|k: int|
                    0 < k <= i ==> (#[trigger] rows@[k])@ == readout_view(
                        last_segment(shown[k - 1].target@),
                        shown[k - 1].message@,
                    ),
        {
            let line = &lines[total - 1 - i];
            assert(shown[i as int] == *line);
            rows.push(readout(short_target(line.target.as_str()).as_str(), line.message.as_str()));
        }
    }
    assert(row_views(rows@) =~= log_section(lines@).rows);
    let sections = vec![section("log", "Loader log", "list", rows)];
    assert(section_views(sections@) =~= seq![log_section(lines@)]);
    sections
}

/// A section of key bindings.
pub open spec fn keys_section(
    id: Seq<char>,
    title: Seq<char>,
    keys: Seq<(Seq<char>, Seq<char>)>,
) -> SectionView {
    SectionView { id, title, icon: "keyboard"@, rows: seq![RowView::Keys(keys)] }
}

/// The bindings that move the camera.
pub open spec fn camera_keys() -> Seq<(Seq<char>, Seq<char>)> {
    seq![("L+R drag"@, "Orbit"@), ("Middle"@, "Pan"@), ("Scroll"@, "Zoom"@)]
}

/// The bindings that open panes.
pub open spec fn panel_keys() -> Seq<(Seq<char>, Seq<char>)> {
    seq![
        ("T"@, "Toggle prim tree"@),
        ("I"@, "Toggle stage info"@),
        ("O"@, "Toggle overlays"@),
        ("?"@, "Toggle this panel"@),
    ]
}

/// The bindings that switch overlays.
pub open spec fn overlay_keys() -> Seq<(Seq<char>, Seq<char>)> {
    seq![
        ("G"@, "Ground grid"@),
        ("X"@, "World axes"@),
        ("P"@, "Prim markers"@),
        ("B"@, "Skeleton bones"@),
        ("R"@, "Reload stage"@),
    ]
}

fn bindings(id: &str, title: &str, keys: Vec<(String, String)>) -> (r: Section)
    ensures
        r@ == keys_section(id@, title@, key_views(keys@)),
{
    let rows = vec![Row::Keys(keys)];
    assert(row_views(rows@) =~= seq![RowView::Keys(key_views(keys@))]);
    section(id, title, "keyboard", rows)
}

/// What the controls pane shows.
pub fn draw_keys_panel() -> (r: Vec<Section>)
    ensures
        section_views(r@) == seq![
            keys_section("keys_cam"@, "Camera"@, camera_keys()),
            keys_section("keys_panels"@, "Panels"@, panel_keys()),
            keys_section("keys_ov"@, "Overlays"@, overlay_keys()),
        ],
{
    let camera = vec![
        (copy("L+R drag"), copy("Orbit")),
        (copy("Middle"), copy("Pan")),
        (copy("Scroll"), copy("Zoom")),
    ];
    assert(key_views(camera@) =~= camera_keys());
    let panels = vec![
        (copy("T"), copy("Toggle prim tree")),
        (copy("I"), copy("Toggle stage info")),
        (copy("O"), copy("Toggle overlays")),
        (copy("?"), copy("Toggle this panel")),
    ];
    assert(key_views(panels@) =~= panel_keys());
    let overlays = vec![
        (copy("G"), copy("Ground grid")),
        (copy("X"), copy("World axes")),
        (copy("P"), copy("Prim markers")),
        (copy("B"), copy("Skeleton bones")),
        (copy("R"), copy("Reload stage")),
    ];
    assert(key_views(overlays@) =~= overlay_keys());
    let sections = vec![
        bindings("keys_cam", "Camera", camera),
        bindings("keys_panels", "Panels", panels),
        bindings("keys_ov", "Overlays", overlays),
    ];
    assert(section_views(sections@) =~= seq![
        keys_section("keys_cam"@, "Camera"@, camera_keys()),
        keys_section("keys_panels"@, "Panels"@, panel_keys()),
        keys_section("keys_ov"@, "Overlays"@, overlay_keys()),
    ]);
    sections
}

} // verus!
