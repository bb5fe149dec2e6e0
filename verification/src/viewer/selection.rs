//! The selection pane: the loaded stage, the selected prim and what their
//! buttons do.

use super::rows::{
    button, readout, readout_view, row_views, section, section_views, tag_views, Row, RowView,
    Section, SectionView, Tag, TagView,
};
use crate::fspath::{directory, directory_of, join_path, joined, without_tail};
use crate::text::{cat, copy};
use vstd::prelude::*;

verus! {

/// What the viewer knows of a projected prim.
#[derive(Debug)]
pub struct PrimSummary {
    pub name: String,
    pub path: String,
    pub has_mesh: bool,
    pub kind: Option<String>,
    pub has_children: bool,
    pub has_audio: bool,
    pub procedural: bool,
    pub hidden: bool,
}

/// One tag where the condition holds.
pub open spec fn tag_if(wanted: bool, label: Seq<char>, warning: bool) -> Seq<TagView> {
    if wanted {
        seq![TagView { label, warning }]
    } else {
        Seq::empty()
    }
}

/// The tags of a prim.
pub open spec fn tags_of(p: PrimSummary) -> Seq<TagView> {
    tag_if(p.has_mesh, "mesh"@, false) + (match p.kind {
        Some(k) => seq![TagView { label: "kind:"@ + k@, warning: false }],
        None => Seq::empty(),
    }) + tag_if(p.has_children, "parent"@, false) + tag_if(p.has_audio, "audio"@, false) + tag_if(
        p.procedural,
        "procedural"@,
        false,
    ) + tag_if(p.hidden, "hidden"@, true)
}

fn push_tag(tags: &mut Vec<Tag>, wanted: bool, label: &str, warning: bool)
    ensures
        tag_views(final(tags)@) == tag_views(old(tags)@) + tag_if(wanted, label@, warning),
{
    if wanted {
        tags.push(Tag { label: copy(label), warning });
    }
    assert(tag_views(tags@) =~= tag_views(old(tags)@) + tag_if(wanted, label@, warning));
}

/// The tags of a prim.
pub fn prim_tags(p: &PrimSummary) -> (r: Vec<Tag>)
    ensures
        tag_views(r@) == tags_of(*p),
{
    let mut tags: Vec<Tag> = Vec::new();
    push_tag(&mut tags, p.has_mesh, "mesh", false);
    let ghost sofar = tag_views(tags@);
    match &p.kind {
        Some(k) => {
            tags.push(Tag { label: cat("kind:", k.as_str()), warning: false });
            assert(tag_views(tags@) =~= sofar + seq![
                TagView { label: "kind:"@ + k@, warning: false },
            ]);
        },
        None => {
            assert(tag_views(tags@) =~= sofar + Seq::<TagView>::empty());
        },
    }
    push_tag(&mut tags, p.has_children, "parent", false);
    push_tag(&mut tags, p.has_audio, "audio", false);
    push_tag(&mut tags, p.procedural, "procedural", false);
    push_tag(&mut tags, p.hidden, "hidden", true);
    assert(tag_views(tags@) =~= tags_of(*p));
    tags
}

/// The selection points at a prim that is gone.
pub open spec fn is_stale(selected: Option<u64>, found: Option<PrimSummary>) -> bool {
    selected is Some && found is None
}

/// The section of the loaded stage.
pub open spec fn loaded_section(file: Seq<char>) -> SectionView {
    SectionView {
        id: "sel_stage"@,
        title: "Loaded stage"@,
        icon: "folder"@,
        rows: seq![
            readout_view("file"@, file),
            RowView::Button("Browse USD…"@),
            RowView::Button("Reveal in filesystem"@),
        ],
    }
}

/// The section of the selected prim.
pub open spec fn selected_section(selected: Option<u64>, found: Option<PrimSummary>) -> SectionView {
    SectionView {
        id: "sel_prim"@,
        title: "Selected prim"@,
        icon: "cursor"@,
        rows: match found {
            Some(p) => seq![
                readout_view("name"@, p.name@),
                readout_view("path"@, p.path@),
                RowView::Tags(tags_of(p)),
                RowView::Button("Clear selection"@),
            ],
            None => seq![
                readout_view(
                    "prim"@,
                    if is_stale(selected, found) {
                        "(selection stale)"@
                    } else {
                        "Click a prim in the Tree panel"@
                    },
                ),
            ],
        },
    }
}

/// What the selection pane shows. `found` is the selected prim, where it still
/// exists.
pub fn draw_selection_panel(file: &str, selected: Option<u64>, found: &Option<PrimSummary>) -> (r:
    Vec<Section>)
    ensures
        section_views(r@) == seq![loaded_section(file@), selected_section(selected, *found)],
{
    let stage_rows = vec![
        readout("file", file),
        button("Browse USD…"),
        button("Reveal in filesystem"),
    ];
    assert(row_views(stage_rows@) =~= loaded_section(file@).rows);
    let prim_rows: Vec<Row> = match found {
        Some(p) => vec![
            readout("name", p.name.as_str()),
            readout("path", p.path.as_str()),
            Row::Tags(prim_tags(p)),
            button("Clear selection"),
        ],
        None => {
            let message = if selected.is_some() {
                "(selection stale)"
            } else {
                "Click a prim in the Tree panel"
            };
            vec![readout("prim", message)]
        },
    };
    assert(row_views(prim_rows@) =~= selected_section(selected, *found).rows);
    let sections = vec![
        section("sel_stage", "Loaded stage", "folder", stage_rows),
        section("sel_prim", "Selected prim", "cursor", prim_rows),
    ];
    assert(section_views(sections@) =~= seq![
        loaded_section(file@),
        selected_section(selected, *found),
    ]);
    sections
}

/// The selection after the pane was drawn: a stale one goes, and so does one
/// that was cleared.
pub fn selection_after(selected: Option<u64>, found: &Option<PrimSummary>, clear: bool) -> (r:
    Option<u64>)
    ensures
        r == (if is_stale(selected, *found) || clear {
            None
        } else {
            selected
        }),
{
    if (selected.is_some() && found.is_none()) || clear {
        None
    } else {
        selected
    }
}

/// The directory that is revealed for a stage file: the one that holds it, or
/// the root where the path names nothing.
pub open spec fn revealed(root: Seq<char>, file: Seq<char>) -> Seq<char> {
    let full = joined(root, file);
    if without_tail(full).len() == 0 {
        root
    } else {
        directory(full)
    }
}

/// The directory that is revealed for a stage file.
pub fn reveal_target(root: &str, file: &str) -> (r: String)
    ensures
        r@ == revealed(root@, file@),
{
    let full = join_path(root, file);
    if crate::fspath::names_nothing(full.as_str()) {
        copy(root)
    } else {
        directory_of(full.as_str())
    }
}

} // verus!
