//! The variants pane: the variant sets of the stage and what picking an option
//! does.

use super::rows::{
    readout, readout_view, row_views, section, section_views, Row, RowView, Section, SectionView,
};
use crate::incremental::{switch_view, VariantSwitch};
use crate::read::skel::{leaf, short_name};
use crate::text::{copy, copy_all, less, str_eq, text_less, views};
use vstd::prelude::*;

verus! {

/// A variant set as the stage authors it.
#[derive(Debug)]
pub struct VariantSet {
    pub prim_path: String,
    pub name: String,
    pub options: Vec<String>,
    pub selection: Option<String>,
}

/// An option that the user picked for a variant set.
#[derive(Debug)]
pub struct Override {
    pub prim_path: String,
    pub set_name: String,
    pub option: String,
}

/// A variant set with the option that is current.
#[derive(Debug)]
pub struct SetRow {
    pub prim_path: String,
    pub name: String,
    pub options: Vec<String>,
    pub current: usize,
    pub is_anim: bool,
}

/// A set row, with its texts as character sequences.
#[verifier::ext_equal]
pub struct SetRowView {
    pub prim_path: Seq<char>,
    pub name: Seq<char>,
    pub options: Seq<Seq<char>>,
    pub current: usize,
    pub is_anim: bool,
}

impl View for SetRow {
    type V = SetRowView;

    open spec fn view(&self) -> SetRowView {
        SetRowView {
            prim_path: self.prim_path@,
            name: self.name@,
            options: views(self.options@),
            current: self.current,
            is_anim: self.is_anim,
        }
    }
}

/// The set rows, with their texts as character sequences.
pub open spec fn set_views(sets: Seq<SetRow>) -> Seq<SetRowView> {
    sets.map_values(|s: SetRow| s@)
}

/// The picked options, as character sequences.
pub open spec fn override_views(list: Seq<Override>) -> Seq<((Seq<char>, Seq<char>), Seq<char>)> {
    list.map_values(|o: Override| ((o.prim_path@, o.set_name@), o.option@))
}

/// The first place of `item`, or zero.
pub open spec fn place_or_first(list: Seq<Seq<char>>, item: Seq<char>) -> int
    decreases list.len(),
{
    if exists|i: int| 0 <= i < list.len() && list[i] == item {
        first_place(list, item)
    } else {
        0
    }
}

/// The first place of `item`, or the length of the list.
pub open spec fn first_place(list: Seq<Seq<char>>, item: Seq<char>) -> int
    decreases list.len(),
{
    if list.len() == 0 || list[0] == item {
        0
    } else {
        1 + first_place(list.skip(1), item)
    }
}

/// The option that is current in a set: the picked one, or the authored one.
pub open spec fn current_option(
    set: VariantSet,
    picked: Seq<((Seq<char>, Seq<char>), Seq<char>)>,
) -> Seq<char> {
    match crate::assoc::at(picked, (set.prim_path@, set.name@)) {
        Some(option) => option,
        None => match set.selection {
            Some(s) => s@,
            None => Seq::empty(),
        },
    }
}

/// The row of a set.
pub open spec fn set_row(
    set: VariantSet,
    picked: Seq<((Seq<char>, Seq<char>), Seq<char>)>,
) -> SetRowView {
    SetRowView {
        prim_path: set.prim_path@,
        name: set.name@,
        options: views(set.options@),
        current: place_or_first(views(set.options@), current_option(set, picked)) as usize,
        is_anim: set.name@ == "anim"@,
    }
}

/// `a` comes before `b`: by prim, then by set.
pub open spec fn set_less(a: SetRowView, b: SetRowView) -> bool {
    text_less(a.prim_path, b.prim_path) || (a.prim_path == b.prim_path && text_less(a.name, b.name))
}

/// `list` with `row` at its place, after those that it does not come before.
pub open spec fn with_set(list: Seq<SetRowView>, row: SetRowView) -> Seq<SetRowView>
    decreases list.len(),
{
    if list.len() == 0 || !set_less(row, list.last()) {
        list.push(row)
    } else {
        with_set(list.drop_last(), row).push(list.last())
    }
}

/// The rows of the first `count` sets that have options.
pub open spec fn sorted_sets(
    sets: Seq<VariantSet>,
    picked: Seq<((Seq<char>, Seq<char>), Seq<char>)>,
    count: nat,
) -> Seq<SetRowView>
    decreases count,
{
    if count == 0 {
        Seq::empty()
    } else {
        let rest = sorted_sets(sets, picked, (count - 1) as nat);
        if sets[count - 1].options@.len() == 0 {
            rest
        } else {
            with_set(rest, set_row(sets[count - 1], picked))
        }
    }
}

fn find_option(options: &Vec<String>, item: &str) -> (r: usize)
    ensures
        r == place_or_first(views(options@), item@),
{
    let ghost all = views(options@);
    let mut i: usize = 0;
    assert(all.skip(0) =~= all);
    while i < options.len()
        invariant
            all == views(options@),
            i <= options@.len(),
            first_place(all, item@) == i + first_place(all.skip(i as int), item@),
            forall|k: int| 0 <= k < i ==> all[k] != item@,
        decreases options@.len() - i,
    {
        assert(all[i as int] == options@[i as int]@);
        assert(all.skip(i as int)[0] == all[i as int]);
        if str_eq(options[i].as_str(), item) {
            return i;
        }
        assert(all.skip(i as int).skip(1) =~= all.skip(i as int + 1));
        i = i + 1;
    }
    assert(all.len() == options@.len());
    0
}

fn find_override(picked: &Vec<Override>, prim: &str, set: &str) -> (r: Option<usize>)
    ensures
        match r {
            Some(i) => i < picked@.len() && i == crate::assoc::slot(
                override_views(picked@),
                (prim@, set@),
            ),
            None => crate::assoc::slot(override_views(picked@), (prim@, set@)) == picked@.len(),
        },
{
    let ghost all = override_views(picked@);
    let ghost key = (prim@, set@);
    let mut i: usize = 0;
    while i < picked.len()
        invariant
            all == override_views(picked@),
            key == (prim@, set@),
            i <= picked@.len(),
            forall|k: int| 0 <= k < i ==> (#[trigger] all[k]).0 != key,
        decreases picked@.len() - i,
    {
        let o = &picked[i];
        assert(all[i as int].0 == (o.prim_path@, o.set_name@));
        if str_eq(o.prim_path.as_str(), prim) && str_eq(o.set_name.as_str(), set) {
            proof {
                crate::assoc::first_is_slot(all, key, i as int);
            }
            return Some(i);
        }
        i = i + 1;
    }
    proof {
        crate::assoc::first_is_slot(all, key, all.len() as int);
    }
    None
}

fn insert_set(list: &mut Vec<SetRow>, row: SetRow)
    ensures
        set_views(final(list)@) == with_set(set_views(old(list)@), row@),
{
    let n: usize = list.len();
    let mut i: usize = n;
    let ghost all = set_views(list@);
    assert(all.take(n as int) =~= all);
    assert(with_set(all, row@) =~= with_set(all.take(n as int), row@) + all.skip(n as int));
    while i > 0 && (less(row.prim_path.as_str(), list[i - 1].prim_path.as_str()) || (str_eq(
        row.prim_path.as_str(),
        list[i - 1].prim_path.as_str(),
    ) && less(row.name.as_str(), list[i - 1].name.as_str())))
        invariant
            n == list@.len(),
            i <= n,
            all == set_views(list@),
            with_set(all, row@) == with_set(all.take(i as int), row@) + all.skip(i as int),
        decreases i,
    {
        assert(all.take(i as int).last() == list@[i - 1]@);
        assert(all.take(i as int).drop_last() =~= all.take(i - 1));
        assert(with_set(all.take(i - 1), row@).push(all[i - 1]) + all.skip(i as int) =~= with_set(
            all.take(i - 1),
            row@,
        ) + all.skip(i - 1));
        i = i - 1;
    }
    assert(i > 0 ==> all.take(i as int).last() == list@[i - 1]@);
    list.insert(i, row);
    assert(set_views(list@) =~= all.take(i as int).push(row@) + all.skip(i as int));
}

/// The variant sets with options, by prim and set, each with its current
/// option: the picked one, else the authored one, else the first.
pub fn collect_sets(sets: &Vec<VariantSet>, picked: &Vec<Override>) -> (r: Vec<SetRow>)
    ensures
        set_views(r@) == sorted_sets(sets@, override_views(picked@), sets@.len()),
{
    let ghost choices = override_views(picked@);
    let mut out: Vec<SetRow> = Vec::new();
    assert(set_views(out@) =~= Seq::<SetRowView>::empty());
    for i in 0..sets.len()
        invariant
            choices == override_views(picked@),
            set_views(out@) == sorted_sets(sets@, choices, i as nat),
    {
        let set = &sets[i];
        if set.options.len() > 0 {
            let current = match find_override(
                picked,
                set.prim_path.as_str(),
                set.name.as_str(),
            ) {
                Some(k) => {
                    assert(choices[k as int].1 == picked@[k as int].option@);
                    copy(picked[k].option.as_str())
                },
                None => match &set.selection {
                    Some(s) => copy(s.as_str()),
                    None => String::new(),
                },
            };
            assert(current@ =~= current_option(*set, choices));
            let row = SetRow {
                prim_path: copy(set.prim_path.as_str()),
                name: copy(set.name.as_str()),
                options: copy_all(&set.options),
                current: find_option(&set.options, current.as_str()),
                is_anim: str_eq(set.name.as_str(), "anim"),
            };
            assert(row@ == set_row(*set, choices));
            insert_set(&mut out, row);
        }
    }
    out
}

/// The dropdown of a set.
pub open spec fn set_dropdown(row: SetRowView) -> RowView {
    RowView::Dropdown {
        label: short_name(row.prim_path) + "  ·  "@ + row.name,
        options: row.options,
        selected: row.current,
    }
}

/// The section of the variants pane.
pub open spec fn variants_section(sets: Seq<SetRowView>) -> SectionView {
    if sets.len() == 0 {
        SectionView {
            id: "variants"@,
            title: "Variants"@,
            icon: "options"@,
            rows: seq![readout_view("variants"@, "(none authored)"@)],
        }
    } else {
        SectionView {
            id: "variants"@,
            title: "Variant sets"@,
            icon: "options"@,
            rows: sets.map_values(|s: SetRowView| set_dropdown(s)),
        }
    }
}

/// What the variants pane shows.
pub fn draw_variants_panel(sets: &Vec<SetRow>) -> (r: Vec<Section>)
    ensures
        section_views(r@) == seq![variants_section(set_views(sets@))],
{
    let ghost all = set_views(sets@);
    assert(all.len() == sets@.len());
    let mut rows: Vec<Row> = Vec::new();
    let title = if sets.len() == 0 {
        rows.push(readout("variants", "(none authored)"));
        "Variants"
    } else {
        for i in 0..sets.len()
            invariant
                all == set_views(sets@),
                rows@.len() == i,
                forall|k: int| 0 <= k < i ==> (#[trigger] rows@[k])@ == set_dropdown(all[k]),
        {
            let set = &sets[i];
            assert(all[i as int] == set@);
            let mut label = leaf(set.prim_path.as_str());
            label.append("  ·  ");
            label.append(set.name.as_str());
            rows.push(
                Row::Dropdown { label, options: copy_all(&set.options), selected: set.current },
            );
        }
        "Variant sets"
    };
    assert(row_views(rows@) =~= variants_section(all).rows);
    let sections = vec![section("variants", title, "options", rows)];
    assert(section_views(sections@) =~= seq![variants_section(all)]);
    sections
}

/// Keeps the picked option of a set; one picked before goes.
pub fn pick_override(picked: &mut Vec<Override>, prim: &str, set: &str, option: &str)
    ensures
        override_views(final(picked)@) == crate::assoc::put(
            override_views(old(picked)@),
            (prim@, set@),
            option@,
        ),
{
    let ghost before = override_views(picked@);
    match find_override(picked, prim, set) {
        Some(i) => {
            picked[i] = Override {
                prim_path: copy(prim),
                set_name: copy(set),
                option: copy(option),
            };
            assert(override_views(picked@) =~= before.update(i as int, ((prim@, set@), option@)));
        },
        None => {
            picked.push(
                Override { prim_path: copy(prim), set_name: copy(set), option: copy(option) },
            );
            assert(override_views(picked@) =~= before.push(((prim@, set@), option@)));
        },
    }
}

/// What picking an option asks for.
#[derive(Debug)]
pub enum PickEffect {
    /// The option does not exist.
    Nothing,
    /// Play this animation clip.
    PlayClip(String),
    /// Switch the variant.
    Switch(VariantSwitch),
}

/// What picking option `option` of the set `row` does: the choice is kept, and
/// an animation set plays the clip while any other set switches the variant.
pub fn apply_pick(picked: &mut Vec<Override>, row: &SetRow, option: usize) -> (r: PickEffect)
    ensures
        option >= row.options@.len() ==> r == PickEffect::Nothing && final(picked)@ == old(
            picked)@,
        option < row.options@.len() ==> override_views(final(picked)@) == crate::assoc::put(
            override_views(old(picked)@),
            (row.prim_path@, row.name@),
            row.options@[option as int]@,
        ),
        option < row.options@.len() && row.is_anim ==> (r matches PickEffect::PlayClip(name)
            && name@ == row.options@[option as int]@),
        option < row.options@.len() && !row.is_anim ==> (r matches PickEffect::Switch(s)
            && switch_view(s) == (row.prim_path@, row.name@, row.options@[option as int]@)),
{
    if option >= row.options.len() {
        return PickEffect::Nothing;
    }
    let choice = copy(row.options[option].as_str());
    pick_override(picked, row.prim_path.as_str(), row.name.as_str(), choice.as_str());
    if row.is_anim {
        PickEffect::PlayClip(choice)
    } else {
        PickEffect::Switch(
            VariantSwitch {
                prim_path: copy(row.prim_path.as_str()),
                set_name: copy(row.name.as_str()),
                option: choice,
            },
        )
    }
}

/// The first place of an item is the first at which it stands.
pub proof fn first_place_finds(list: Seq<Seq<char>>, item: Seq<char>)
    ensures
        0 <= first_place(list, item) <= list.len(),
        forall|i: int| 0 <= i < first_place(list, item) ==> #[trigger] list[i] != item,
        first_place(list, item) < list.len() ==> list[first_place(list, item)] == item,
    decreases list.len(),
{
    if list.len() > 0 && list[0] != item {
        let rest = list.skip(1);
        first_place_finds(rest, item);
        assert forall|i: int| 0 <= i < first_place(list, item) implies #[trigger] list[i] != item by {
            if i > 0 {
                assert(rest[i - 1] == list[i]);
            }
        }
    }
}

/// A picked option is the one that its set shows as current from then on.
pub proof fn picked_options_are_current(
    set: VariantSet,
    picked: Seq<((Seq<char>, Seq<char>), Seq<char>)>,
    option: int,
)
    requires
        crate::assoc::unique(picked),
        0 <= option < set.options@.len() <= usize::MAX,
    ensures
        ({
            let chosen = views(set.options@)[option];
            let after = crate::assoc::put(picked, (set.prim_path@, set.name@), chosen);
            views(set.options@)[set_row(set, after).current as int] == chosen
        }),
{
    let chosen = views(set.options@)[option];
    let key = (set.prim_path@, set.name@);
    crate::assoc::put_sets_one(picked, key, chosen);
    first_place_finds(views(set.options@), chosen);
}

} // verus!
