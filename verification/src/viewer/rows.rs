//! What a viewer pane shows: sections of rows, ready to draw.

use crate::stage::Scalar;
use crate::text::{copy, views};
use vstd::prelude::*;

verus! {

/// A tag of a prim; a warning is drawn in the warning colour.
#[derive(Debug)]
pub struct Tag {
    pub label: String,
    pub warning: bool,
}

/// One row of a section. The range of a slider is in the bits of doubles.
#[derive(Debug)]
pub enum Row {
    Readout { label: String, value: String },
    Button(String),
    Badges { label: String, items: Vec<String> },
    Tags(Vec<Tag>),
    Toggle { label: String, on: bool },
    Slider { label: String, value: Scalar, low: u64, high: u64, digits: u32, unit: String },
    Dropdown { label: String, options: Vec<String>, selected: usize },
    Choices { names: Vec<String>, trailing: Vec<String> },
    Search(String),
    Tree,
    Keys(Vec<(String, String)>),
}

/// A titled group of rows.
#[derive(Debug)]
pub struct Section {
    pub id: String,
    pub title: String,
    pub icon: String,
    pub rows: Vec<Row>,
}

/// A tag, with its label as a character sequence.
#[verifier::ext_equal]
pub struct TagView {
    pub label: Seq<char>,
    pub warning: bool,
}

/// A row, with its texts as character sequences.
#[verifier::ext_equal]
pub enum RowView {
    Readout { label: Seq<char>, value: Seq<char> },
    Button(Seq<char>),
    Badges { label: Seq<char>, items: Seq<Seq<char>> },
    Tags(Seq<TagView>),
    Toggle { label: Seq<char>, on: bool },
    Slider { label: Seq<char>, value: Scalar, low: u64, high: u64, digits: u32, unit: Seq<char> },
    Dropdown { label: Seq<char>, options: Seq<Seq<char>>, selected: usize },
    Choices { names: Seq<Seq<char>>, trailing: Seq<Seq<char>> },
    Search(Seq<char>),
    Tree,
    Keys(Seq<(Seq<char>, Seq<char>)>),
}

/// A section, with its texts as character sequences.
#[verifier::ext_equal]
pub struct SectionView {
    pub id: Seq<char>,
    pub title: Seq<char>,
    pub icon: Seq<char>,
    pub rows: Seq<RowView>,
}

impl View for Tag {
    type V = TagView;

    open spec fn view(&self) -> TagView {
        TagView { label: self.label@, warning: self.warning }
    }
}

/// What a list of tags says.
pub open spec fn tag_views(tags: Seq<Tag>) -> Seq<TagView> {
    tags.map_values(|t: Tag| t@)
}

/// What a list of key bindings says.
pub open spec fn key_views(keys: Seq<(String, String)>) -> Seq<(Seq<char>, Seq<char>)> {
    keys.map_values(|k: (String, String)| (k.0@, k.1@))
}

impl View for Row {
    type V = RowView;

    open spec fn view(&self) -> RowView {
        match *self {
            Row::Readout { label, value } => RowView::Readout { label: label@, value: value@ },
            Row::Button(label) => RowView::Button(label@),
            Row::Badges { label, items } => RowView::Badges { label: label@, items: views(items@) },
            Row::Tags(tags) => RowView::Tags(tag_views(tags@)),
            Row::Toggle { label, on } => RowView::Toggle { label: label@, on },
            Row::Slider { label, value, low, high, digits, unit } => RowView::Slider {
                label: label@,
                value,
                low,
                high,
                digits,
                unit: unit@,
            },
            Row::Dropdown { label, options, selected } => RowView::Dropdown {
                label: label@,
                options: views(options@),
                selected,
            },
            Row::Choices { names, trailing } => RowView::Choices {
                names: views(names@),
                trailing: views(trailing@),
            },
            Row::Search(hint) => RowView::Search(hint@),
            Row::Tree => RowView::Tree,
            Row::Keys(keys) => RowView::Keys(key_views(keys@)),
        }
    }
}

/// What a list of rows says.
pub open spec fn row_views(rows: Seq<Row>) -> Seq<RowView> {
    rows.map_values(|r: Row| r@)
}

impl View for Section {
    type V = SectionView;

    open spec fn view(&self) -> SectionView {
        SectionView {
            id: self.id@,
            title: self.title@,
            icon: self.icon@,
            rows: row_views(self.rows@),
        }
    }
}

/// What a list of sections says.
pub open spec fn section_views(sections: Seq<Section>) -> Seq<SectionView> {
    sections.map_values(|s: Section| s@)
}

/// A labelled value.
pub open spec fn readout_view(label: Seq<char>, value: Seq<char>) -> RowView {
    RowView::Readout { label, value }
}

pub fn readout(label: &str, value: &str) -> (r: Row)
    ensures
        r@ == readout_view(label@, value@),
{
    Row::Readout { label: copy(label), value: copy(value) }
}

pub fn button(label: &str) -> (r: Row)
    ensures
        r@ == RowView::Button(label@),
{
    Row::Button(copy(label))
}

pub fn badges(label: &str, items: Vec<String>) -> (r: Row)
    ensures
        r@ == (RowView::Badges { label: label@, items: views(items@) }),
{
    Row::Badges { label: copy(label), items }
}

pub fn toggle(label: &str, on: bool) -> (r: Row)
    ensures
        r@ == (RowView::Toggle { label: label@, on }),
{
    Row::Toggle { label: copy(label), on }
}

pub fn slider(label: &str, value: Scalar, low: u64, high: u64, digits: u32, unit: &str) -> (r: Row)
    ensures
        r@ == (RowView::Slider { label: label@, value, low, high, digits, unit: unit@ }),
{
    Row::Slider { label: copy(label), value, low, high, digits, unit: copy(unit) }
}

pub fn section(id: &str, title: &str, icon: &str, rows: Vec<Row>) -> (r: Section)
    ensures
        r@ == (SectionView { id: id@, title: title@, icon: icon@, rows: row_views(rows@) }),
{
    Section { id: copy(id), title: copy(title), icon: copy(icon), rows }
}

} // verus!
