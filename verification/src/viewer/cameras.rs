//! The cameras pane: bookmarks of the free camera and the cameras of the
//! stage.

use super::rows::{
    button, readout, readout_view, row_views, section, section_views, Row, RowView, Section,
    SectionView,
};
use crate::read::camera::Projection;
use crate::read::skel::{leaf, short_name};
use crate::stage::{Scalar, Triple};
use crate::text::{cat, copy, decimal, number, views};
use vstd::prelude::*;

verus! {

/// Where the free camera stands.
#[derive(Debug, Clone, Copy, PartialEq, Eq, Structural)]
pub struct Viewpoint {
    pub focus: Triple,
    pub distance: Scalar,
    pub yaw: Scalar,
    pub elevation: Scalar,
}

/// A saved view.
#[derive(Debug)]
pub struct CameraBookmark {
    pub name: String,
    pub view: Viewpoint,
}

/// The saved views, and the number of the last one that was saved.
#[derive(Debug)]
pub struct CameraBookmarks {
    pub items: Vec<CameraBookmark>,
    pub next_seq: u64,
}

/// Which camera the viewport looks through.
#[derive(Debug)]
pub enum CameraMount {
    Arcball,
    Mounted { prim_path: String },
}

/// A camera of the stage. `focal_text` is its focal length in whole
/// millimetres, 50 where none is authored.
#[derive(Debug)]
pub struct StageCamera {
    pub path: String,
    pub focal_text: String,
    pub projection: Option<Projection>,
}

/// The names of the bookmarks.
pub open spec fn bookmark_names(items: Seq<CameraBookmark>) -> Seq<Seq<char>> {
    items.map_values(|b: CameraBookmark| b.name@)
}

/// The short form of a projection.
pub open spec fn projection_text(projection: Option<Projection>) -> Seq<char> {
    if projection == Some(Projection::Orthographic) {
        "ortho"@
    } else {
        "persp"@
    }
}

/// What the list of cameras says: the free camera first, then those of the
/// stage.
pub open spec fn camera_names(cameras: Seq<StageCamera>) -> Seq<Seq<char>> {
    seq!["Arcball (free)"@] + cameras.map_values(|c: StageCamera| short_name(c.path@))
}

/// What stands behind the cameras in the list.
pub open spec fn camera_details(cameras: Seq<StageCamera>) -> Seq<Seq<char>> {
    seq!["free"@] + cameras.map_values(
        |c: StageCamera| c.focal_text@ + "mm · "@ + projection_text(c.projection),
    )
}

/// The bookmarks section. `distances` are the bookmark distances with one
/// decimal.
pub open spec fn bookmark_section(items: Seq<CameraBookmark>, distances: Seq<Seq<char>>) -> SectionView {
    SectionView {
        id: "cam_bm"@,
        title: "Bookmarks"@,
        icon: "history"@,
        rows: seq![
            RowView::Button("Save current view"@),
            if items.len() == 0 {
                readout_view("bookmarks"@, "(none yet)"@)
            } else {
                RowView::Choices {
                    names: bookmark_names(items),
                    trailing: distances.map_values(|d: Seq<char>| "d "@ + d),
                }
            },
        ],
    }
}

/// The cameras section.
pub open spec fn camera_section(cameras: Seq<StageCamera>) -> SectionView {
    SectionView {
        id: "cam_all"@,
        title: "Cameras"@,
        icon: "cube"@,
        rows: seq![
            RowView::Choices { names: camera_names(cameras), trailing: camera_details(cameras) },
        ],
    }
}

fn camera_row(cameras: &Vec<StageCamera>) -> (r: Row)
    ensures
        r@ == (RowView::Choices {
            names: camera_names(cameras@),
            trailing: camera_details(cameras@),
        }),
{
    let mut names: Vec<String> = vec![copy("Arcball (free)")];
    let mut trailing: Vec<String> = vec![copy("free")];
    for i in 0..cameras.len()
        invariant
            names@.len() == i + 1,
            trailing@.len() == i + 1,
            names@[0]@ == "Arcball (free)"@,
            trailing@[0]@ == "free"@,
            forall|k: int|
                0 < k <= i ==> (#[trigger] names@[k])@ == short_name(cameras@[k - 1].path@),
            forall|k: int|
                0 < k <= i ==> (#[trigger] trailing@[k])@ == cameras@[k - 1].focal_text@ + "mm · "@
                    + projection_text(cameras@[k - 1].projection),
    {
        let camera = &cameras[i];
        names.push(leaf(camera.path.as_str()));
        let mut detail = copy(camera.focal_text.as_str());
        detail.append("mm · ");
        match camera.projection {
            Some(Projection::Orthographic) => detail.append("ortho"),
            _ => detail.append("persp"),
        }
        trailing.push(detail);
    }
    assert(views(names@) =~= camera_names(cameras@));
    assert(views(trailing@) =~= camera_details(cameras@));
    Row::Choices { names, trailing }
}

/// What the cameras pane shows.
pub fn draw_cameras_panel(
    bookmarks: &CameraBookmarks,
    distances: &Vec<String>,
    cameras: &Vec<StageCamera>,
) -> (r: Vec<Section>)
    ensures
        section_views(r@) == seq![
            bookmark_section(bookmarks.items@, views(distances@)),
            camera_section(cameras@),
        ],
{
    let ghost wanted = bookmark_section(bookmarks.items@, views(distances@));
    let second = if bookmarks.items.len() == 0 {
        readout("bookmarks", "(none yet)")
    } else {
        let mut names: Vec<String> = Vec::new();
        for i in 0..bookmarks.items.len()
            invariant
                names@.len() == i,
                forall|k: int| 0 <= k < i ==> (#[trigger] names@[k])@ == bookmarks.items@[k].name@,
        {
            names.push(copy(bookmarks.items[i].name.as_str()));
        }
        let mut trailing: Vec<String> = Vec::new();
        for i in 0..distances.len()
            invariant
                trailing@.len() == i,
                forall|k: int| 0 <= k < i ==> (#[trigger] trailing@[k])@ == "d "@ + distances@[k]@,
        {
            trailing.push(cat("d ", distances[i].as_str()));
        }
        assert(views(names@) =~= bookmark_names(bookmarks.items@));
        assert(views(trailing@) =~= views(distances@).map_values(|d: Seq<char>| "d "@ + d));
        Row::Choices { names, trailing }
    };
    let rows = vec![button("Save current view"), second];
    assert(row_views(rows@) =~= wanted.rows);
    let camera_rows = vec![camera_row(cameras)];
    assert(row_views(camera_rows@) =~= camera_section(cameras@).rows);
    let sections = vec![
        section("cam_bm", "Bookmarks", "history", rows),
        section("cam_all", "Cameras", "cube", camera_rows),
    ];
    assert(section_views(sections@) =~= seq![wanted, camera_section(cameras@)]);
    sections
}

/// The name of the bookmark with this number.
pub open spec fn bookmark_name(seq: nat) -> Seq<char> {
    "View "@ + decimal(seq)
}

impl CameraBookmarks {
    /// Saves the current view under the next number.
    pub fn save(&mut self, view: Viewpoint)
        requires
            old(self).next_seq < u64::MAX,
        ensures
            final(self).next_seq == old(self).next_seq + 1,
            final(self).items@.len() == old(self).items@.len() + 1,
            final(self).items@.drop_last() == old(self).items@,
            final(self).items@.last().name@ == bookmark_name(final(self).next_seq as nat),
            final(self).items@.last().view == view,
    {
        let seq: u64 = self.next_seq + 1;
        self.next_seq = seq;
        self.items.push(CameraBookmark { name: cat("View ", number(seq).as_str()), view });
        assert(self.items@.drop_last() =~= old(self).items@);
    }

    /// Deletes the bookmark at `index`, if there is one. Its number is not
    /// given out again.
    pub fn delete(&mut self, index: usize)
        ensures
            final(self).next_seq == old(self).next_seq,
            final(self).items@ == (if index < old(self).items@.len() {
                old(self).items@.remove(index as int)
            } else {
                old(self).items@
            }),
    {
        if index < self.items.len() {
            let _ = self.items.remove(index);
        }
    }

    /// The view to fly to for the bookmark at `index`.
    pub fn jump(&self, index: usize) -> (r: Option<Viewpoint>)
        ensures
            r == (if index < self.items@.len() {
                Some(self.items@[index as int].view)
            } else {
                None
            }),
    {
        if index < self.items.len() {
            Some(self.items[index].view)
        } else {
            None
        }
    }
}

/// The path that the viewport is mounted on.
pub open spec fn mount_view(mount: CameraMount) -> Option<Seq<char>> {
    match mount {
        CameraMount::Arcball => None,
        CameraMount::Mounted { prim_path } => Some(prim_path@),
    }
}

/// The camera at `index` in the list: the free camera first, and for an index
/// past the end.
pub fn mount_at(cameras: &Vec<StageCamera>, index: usize) -> (r: CameraMount)
    ensures
        mount_view(r) == (if 0 < index <= cameras@.len() {
            Some(cameras@[index - 1].path@)
        } else {
            None
        }),
{
    if index > 0 && index <= cameras.len() {
        CameraMount::Mounted { prim_path: copy(cameras[index - 1].path.as_str()) }
    } else {
        CameraMount::Arcball
    }
}

/// Two bookmarks saved one after the other have different names.
pub proof fn bookmark_names_differ(a: nat, b: nat)
    requires
        bookmark_name(a) == bookmark_name(b),
    ensures
        a == b,
{
    let head = "View "@;
    assert(bookmark_name(a).skip(head.len() as int) =~= decimal(a));
    assert(bookmark_name(b).skip(head.len() as int) =~= decimal(b));
    crate::text::decimal_is_injective(a, b);
}

} // verus!
