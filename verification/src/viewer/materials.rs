//! The materials pane: the materials that are bound to prims.

use super::rows::{
    readout, readout_view, row_views, section, section_views, Row, RowView, Section, SectionView,
};
use crate::read::skel::{leaf, short_name};
use crate::text::{decimal, less, number, str_eq, text_less};
use vstd::prelude::*;

verus! {

/// How many characters of a material's name are shown.
pub const LABEL_LIMIT: usize = 48;

/// A bound material: the path or identity it is known by, and whether its base
/// colour is textured.
#[derive(Debug)]
pub struct BoundMaterial {
    pub label: String,
    pub textured: bool,
}

/// The name that is shown: the last element of the label, cut short.
pub open spec fn shown_name(label: Seq<char>) -> Seq<char> {
    let name = short_name(label);
    if name.len() <= LABEL_LIMIT {
        name
    } else {
        name.take(LABEL_LIMIT as int)
    }
}

/// An entry of the pane: the shown name and whether it is textured.
pub open spec fn entry_of(m: BoundMaterial) -> (Seq<char>, bool) {
    (shown_name(m.label@), m.textured)
}

/// `a` comes before `b`: by name, and plain before textured.
pub open spec fn entry_less(a: (Seq<char>, bool), b: (Seq<char>, bool)) -> bool {
    text_less(a.0, b.0) || (a.0 == b.0 && !a.1 && b.1)
}

/// `list` with `entry` at its place.
pub open spec fn with_entry(list: Seq<(Seq<char>, bool)>, entry: (Seq<char>, bool)) -> Seq<
    (Seq<char>, bool),
>
    decreases list.len(),
{
    if list.len() == 0 || !entry_less(entry, list.last()) {
        list.push(entry)
    } else {
        with_entry(list.drop_last(), entry).push(list.last())
    }
}

/// The entries of the first `count` materials, sorted.
pub open spec fn sorted_entries(materials: Seq<BoundMaterial>, count: nat) -> Seq<(Seq<char>, bool)>
    decreases count,
{
    if count == 0 {
        Seq::empty()
    } else {
        with_entry(
            sorted_entries(materials, (count - 1) as nat),
            entry_of(materials[count - 1]),
        )
    }
}

/// The entries, with their names as character sequences.
pub open spec fn entry_views(list: Seq<(String, bool)>) -> Seq<(Seq<char>, bool)> {
    list.map_values(|e: (String, bool)| (e.0@, e.1))
}

/// The readout of an entry.
pub open spec fn entry_row(entry: (Seq<char>, bool)) -> RowView {
    readout_view(
        entry.0,
        if entry.1 {
            "textured"@
        } else {
            "constant color"@
        },
    )
}

/// The section of the materials pane.
pub open spec fn materials_section(entries: Seq<(Seq<char>, bool)>) -> SectionView {
    SectionView {
        id: "mat"@,
        title: "Bound materials"@,
        icon: "color"@,
        rows: seq![readout_view("materials"@, decimal(entries.len()))] + entries.map_values(
            |e: (Seq<char>, bool)| entry_row(e),
        ),
    }
}

fn shown(label: &str) -> (r: String)
    ensures
        r@ == shown_name(label@),
{
    let name = leaf(label);
    let n: usize = name.as_str().unicode_len();
    if n <= LABEL_LIMIT {
        name
    } else {
        let out = name.as_str().substring_char(0, LABEL_LIMIT).to_owned();
        assert(out@ =~= name@.take(LABEL_LIMIT as int));
        out
    }
}

fn insert_entry(list: &mut Vec<(String, bool)>, name: String, textured: bool)
    ensures
        entry_views(final(list)@) == with_entry(entry_views(old(list)@), (name@, textured)),
{
    let n: usize = list.len();
    let mut i: usize = n;
    let ghost all = entry_views(list@);
    let ghost entry = (name@, textured);
    assert(all.take(n as int) =~= all);
    assert(with_entry(all, entry) =~= with_entry(all.take(n as int), entry) + all.skip(n as int));
    while i > 0 && (less(name.as_str(), list[i - 1].0.as_str()) || (str_eq(
        name.as_str(),
        list[i - 1].0.as_str(),
    ) && !textured && list[i - 1].1))
        invariant
            n == list@.len(),
            i <= n,
            all == entry_views(list@),
            entry == (name@, textured),
            with_entry(all, entry) == with_entry(all.take(i as int), entry) + all.skip(i as int),
        decreases i,
    {
        assert(all.take(i as int).last() == (list@[i - 1].0@, list@[i - 1].1));
        assert(all.take(i as int).drop_last() =~= all.take(i - 1));
        assert(with_entry(all.take(i - 1), entry).push(all[i - 1]) + all.skip(i as int)
            =~= with_entry(all.take(i - 1), entry) + all.skip(i - 1));
        i = i - 1;
    }
    assert(i > 0 ==> all.take(i as int).last() == (list@[i - 1].0@, list@[i - 1].1));
    list.insert(i, (name, textured));
    assert(entry_views(list@) =~= all.take(i as int).push(entry) + all.skip(i as int));
}

/// What the materials pane shows: how many materials are bound, then each by
/// name.
pub fn draw_materials_panel(materials: &Vec<BoundMaterial>) -> (r: Vec<Section>)
    ensures
        section_views(r@) == seq![materials_section(sorted_entries(materials@, materials@.len()))],
{
    let mut entries: Vec<(String, bool)> = Vec::new();
    assert(entry_views(entries@) =~= Seq::<(Seq<char>, bool)>::empty());
    for i in 0..materials.len()
        invariant
            entry_views(entries@) == sorted_entries(materials@, i as nat),
    {
        insert_entry(&mut entries, shown(materials[i].label.as_str()), materials[i].textured);
    }
    let ghost all = entry_views(entries@);
    assert(all.len() == entries@.len());
    let mut rows: Vec<Row> = vec![
        readout("materials", number(entries.len() as u64).as_str()),
    ];
    for i in 0..entries.len()
        invariant
            all == entry_views(entries@),
            rows@.len() == i + 1,
            rows@[0]@ == readout_view("materials"@, decimal(entries@.len())),
            forall|k: int| 0 < k <= i ==> (#[trigger] rows@[k])@ == entry_row(all[k - 1]),
    {
        assert(all[i as int] == (entries@[i as int].0@, entries@[i as int].1));
        let kind = if entries[i].1 {
            "textured"
        } else {
            "constant color"
        };
        rows.push(readout(entries[i].0.as_str(), kind));
    }
    assert(row_views(rows@) =~= materials_section(all).rows);
    let sections = vec![section("mat", "Bound materials", "color", rows)];
    assert(section_views(sections@) =~= seq![materials_section(all)]);
    sections
}

} // verus!
