//! The prim-tree pane: the sorted hierarchy, which rows of it show, and what a
//! click selects.

use super::rows::{
    readout, readout_view, row_views, section, section_views, Row, RowView, Section, SectionView,
};
use crate::route::signature::Lanes3;
use crate::text::{
    cat, contains, copy, decimal, less, lowercase, lowered, number, occurs, starts_with, str_eq,
    text_less,
};
use vstd::prelude::*;

verus! {

/// One projected prim as the tree finds it.
#[derive(Debug)]
pub struct TreeEntry {
    pub path: String,
    pub name: String,
    pub display_name: Option<String>,
    pub swatch: Option<Lanes3>,
}

/// One row of the tree.
#[derive(Debug)]
pub struct TreeNode {
    pub path: String,
    pub label: String,
    pub depth: u32,
    pub has_children: bool,
    pub swatch: Option<Lanes3>,
}

/// A row, with its texts as character sequences.
#[verifier::ext_equal]
pub struct TreeNodeView {
    pub path: Seq<char>,
    pub label: Seq<char>,
    pub depth: nat,
    pub has_children: bool,
    pub swatch: Option<Lanes3>,
}

impl View for TreeNode {
    type V = TreeNodeView;

    open spec fn view(&self) -> TreeNodeView {
        TreeNodeView {
            path: self.path@,
            label: self.label@,
            depth: self.depth as nat,
            has_children: self.has_children,
            swatch: self.swatch,
        }
    }
}

/// The rows, with their texts as character sequences.
pub open spec fn tree_views(nodes: Seq<TreeNode>) -> Seq<TreeNodeView> {
    nodes.map_values(|n: TreeNode| n@)
}

/// How often the character occurs.
pub open spec fn count_char(text: Seq<char>, c: char) -> nat
    decreases text.len(),
{
    if text.len() == 0 {
        0
    } else if text.last() == c {
        count_char(text.drop_last(), c) + 1
    } else {
        count_char(text.drop_last(), c)
    }
}

/// How deep a prim path lies: one less than its slashes.
pub open spec fn depth_of(path: Seq<char>) -> nat {
    if count_char(path, '/') == 0 {
        0
    } else {
        (count_char(path, '/') - 1) as nat
    }
}

/// The label of an entry: its display name, or its name.
pub open spec fn label_of(e: TreeEntry) -> Seq<char> {
    match e.display_name {
        Some(d) => d@,
        None => e.name@,
    }
}

/// The row of an entry, before the hierarchy is known.
pub open spec fn bare_node(e: TreeEntry) -> TreeNodeView {
    TreeNodeView {
        path: e.path@,
        label: label_of(e),
        depth: depth_of(e.path@),
        has_children: false,
        swatch: e.swatch,
    }
}

/// `list` with `node` at its place by path, after those with the same path.
pub open spec fn with_node(list: Seq<TreeNodeView>, node: TreeNodeView) -> Seq<TreeNodeView>
    decreases list.len(),
{
    if list.len() == 0 || !text_less(node.path, list.last().path) {
        list.push(node)
    } else {
        with_node(list.drop_last(), node).push(list.last())
    }
}

/// The rows of the first `count` entries by path.
pub open spec fn sorted_nodes(entries: Seq<TreeEntry>, count: nat) -> Seq<TreeNodeView>
    decreases count,
{
    if count == 0 {
        Seq::empty()
    } else {
        with_node(sorted_nodes(entries, (count - 1) as nat), bare_node(entries[count - 1]))
    }
}

/// Some row lies below `path`.
pub open spec fn has_rows_below(list: Seq<TreeNodeView>, path: Seq<char>) -> bool {
    exists|i: int| 0 <= i < list.len() && (path + "/"@).is_prefix_of((#[trigger] list[i]).path)
}

/// The rows, each marked where some row lies below it.
pub open spec fn with_children(list: Seq<TreeNodeView>) -> Seq<TreeNodeView> {
    list.map_values(
        |n: TreeNodeView| TreeNodeView { has_children: has_rows_below(list, n.path), ..n },
    )
}

/// The tree of the entries.
pub open spec fn tree_of(entries: Seq<TreeEntry>) -> Seq<TreeNodeView> {
    with_children(sorted_nodes(entries, entries.len()))
}

/// The rows are in ascending order of path.
pub open spec fn by_path(list: Seq<TreeNodeView>) -> bool {
    forall|i: int, j: int|
        0 <= i < j < list.len() ==> !text_less((#[trigger] list[j]).path, (#[trigger] list[i]).path)
}

fn count_slashes(path: &str) -> (r: usize)
    ensures
        r == count_char(path@, '/'),
        r <= path@.len(),
{
    let n: usize = path.unicode_len();
    let mut total: usize = 0;
    assert(path@.take(0) =~= Seq::<char>::empty());
    for i in 0..n
        invariant
            n == path@.len(),
            total == count_char(path@.take(i as int), '/'),
            total <= i,
    {
        assert(path@.take(i as int + 1).drop_last() =~= path@.take(i as int));
        if path.get_char(i) == '/' {
            total = total + 1;
        }
    }
    assert(path@.take(n as int) =~= path@);
    total
}

fn insert_node(list: &mut Vec<TreeNode>, node: TreeNode)
    ensures
        tree_views(final(list)@) == with_node(tree_views(old(list)@), node@),
{
    let n: usize = list.len();
    let mut i: usize = n;
    let ghost all = tree_views(list@);
    assert(all.take(n as int) =~= all);
    assert(with_node(all, node@) =~= with_node(all.take(n as int), node@) + all.skip(n as int));
    while i > 0 && less(node.path.as_str(), list[i - 1].path.as_str())
        invariant
            n == list@.len(),
            i <= n,
            all == tree_views(list@),
            with_node(all, node@) == with_node(all.take(i as int), node@) + all.skip(i as int),
        decreases i,
    {
        assert(all.take(i as int).last() == list@[i - 1]@);
        assert(all.take(i as int).drop_last() =~= all.take(i - 1));
        assert(with_node(all.take(i - 1), node@).push(all[i - 1]) + all.skip(i as int)
            =~= with_node(all.take(i - 1), node@) + all.skip(i - 1));
        i = i - 1;
    }
    assert(i > 0 ==> all.take(i as int).last() == list@[i - 1]@);
    list.insert(i, node);
    assert(tree_views(list@) =~= all.take(i as int).push(node@) + all.skip(i as int));
}

/// The tree of the projected prims: sorted by path, with the depth and the
/// label of each and whether other prims lie below it.
pub fn build_tree(entries: &Vec<TreeEntry>) -> (r: Vec<TreeNode>)
    requires
        forall|i: int| 0 <= i < entries@.len() ==> (#[trigger] entries@[i]).path@.len() <= u32::MAX,
    ensures
        tree_views(r@) == tree_of(entries@),
{
    let mut nodes: Vec<TreeNode> = Vec::new();
    assert(tree_views(nodes@) =~= Seq::<TreeNodeView>::empty());
    for i in 0..entries.len()
        invariant
            forall|i: int|
                0 <= i < entries@.len() ==> (#[trigger] entries@[i]).path@.len() <= u32::MAX,
            tree_views(nodes@) == sorted_nodes(entries@, i as nat),
    {
        let entry = &entries[i];
        assert(entries@[i as int].path@.len() <= u32::MAX);
        let slashes: usize = count_slashes(entry.path.as_str());
        let depth: u32 = if slashes == 0 {
            0
        } else {
            (slashes - 1) as u32
        };
        let label = match &entry.display_name {
            Some(d) => copy(d.as_str()),
            None => copy(entry.name.as_str()),
        };
        let node = TreeNode {
            path: copy(entry.path.as_str()),
            label,
            depth,
            has_children: false,
            swatch: entry.swatch,
        };
        assert(node@ == bare_node(*entry));
        insert_node(&mut nodes, node);
    }
    let ghost sorted = tree_views(nodes@);
    let count: usize = nodes.len();
    for i in 0..count
        invariant
            count == nodes@.len(),
            count == sorted.len(),
            forall|k: int| 0 <= k < i ==> (#[trigger] nodes@[k])@ == with_children(sorted)[k],
            forall|k: int| i <= k < count ==> (#[trigger] nodes@[k])@ == sorted[k],
            forall|k: int| 0 <= k < count ==> (#[trigger] nodes@[k]).path@ == sorted[k].path,
    {
        let prefix = cat(nodes[i].path.as_str(), "/");
        let mut found = false;
        for j in 0..count
            invariant
                count == nodes@.len(),
                count == sorted.len(),
                forall|k: int| 0 <= k < count ==> (#[trigger] nodes@[k]).path@ == sorted[k].path,
                found == (exists|q: int|
                    0 <= q < j && prefix@.is_prefix_of((#[trigger] sorted[q]).path)),
        {
            assert(nodes@[j as int].path@ == sorted[j as int].path);
            if starts_with(nodes[j].path.as_str(), prefix.as_str()) {
                found = true;
            }
        }
        assert(nodes@[i as int].path@ == sorted[i as int].path);
        assert(found == has_rows_below(sorted, sorted[i as int].path));
        let ghost before = nodes@;
        nodes[i].has_children = found;
        assert(nodes@[i as int]@ == with_children(sorted)[i as int]);
        assert forall|k: int| i < k < count implies (#[trigger] nodes@[k])@ == sorted[k] by {
            assert(nodes@[k] == before[k]);
        }
        assert forall|k: int| 0 <= k < i implies (#[trigger] nodes@[k])@ == with_children(
            sorted,
        )[k] by {
            assert(nodes@[k] == before[k]);
        }
    }
    assert(tree_views(nodes@) =~= with_children(sorted));
    nodes
}

proof fn insertion_keeps_order(list: Seq<TreeNodeView>, node: TreeNodeView)
    requires
        by_path(list),
    ensures
        by_path(with_node(list, node)),
        with_node(list, node).len() == list.len() + 1,
        with_node(list, node).to_multiset() == list.to_multiset().insert(node),
        forall|i: int|
            0 <= i < with_node(list, node).len() ==> #[trigger] with_node(list, node)[i] == node
                || list.contains(with_node(list, node)[i]),
    decreases list.len(),
{
    broadcast use vstd::seq_lib::group_to_multiset_ensures;

    let out = with_node(list, node);
    if list.len() == 0 || !text_less(node.path, list.last().path) {
        assert forall|i: int, j: int| 0 <= i < j < out.len() implies !text_less(
            (#[trigger] out[j]).path,
            (#[trigger] out[i]).path,
        ) by {
            if j == list.len() && i < list.len() - 1 {
                assert(!text_less(list[list.len() - 1].path, list[i].path));
                not_less_is_transitive(list[i].path, list.last().path, node.path);
            }
        }
    } else {
        let front = list.drop_last();
        let last = list.last();
        assert(by_path(front));
        insertion_keeps_order(front, node);
        let inner = with_node(front, node);
        assert forall|i: int| 0 <= i < inner.len() implies !text_less(
            last.path,
            (#[trigger] inner[i]).path,
        ) by {
            if inner[i] == node {
                less_is_asymmetric(node.path, last.path);
            } else {
                assert(front.contains(inner[i]));
                let k = choose|k: int| 0 <= k < front.len() && front[k] == inner[i];
                assert(list[k] == inner[i]);
            }
        }
        assert forall|i: int, j: int| 0 <= i < j < out.len() implies !text_less(
            (#[trigger] out[j]).path,
            (#[trigger] out[i]).path,
        ) by {
            assert(out[i] == inner[i]);
            if j < inner.len() {
                assert(out[j] == inner[j]);
            }
        }
        assert forall|i: int| 0 <= i < out.len() implies #[trigger] out[i] == node
            || list.contains(out[i]) by {
            if i < inner.len() {
                assert(out[i] == inner[i]);
                if inner[i] != node {
                    let k = choose|k: int| 0 <= k < front.len() && front[k] == inner[i];
                    assert(list[k] == inner[i]);
                }
            } else {
                assert(list[list.len() - 1] == out[i]);
            }
        }
        assert(list =~= front.push(last));
        assert(out.to_multiset() =~= list.to_multiset().insert(node));
    }
}

/// Of two texts at most one comes first.
pub proof fn less_is_asymmetric(a: Seq<char>, b: Seq<char>)
    requires
        text_less(a, b),
    ensures
        !text_less(b, a),
    decreases a.len(),
{
    if a.len() > 0 && b.len() > 0 && a[0] == b[0] {
        less_is_asymmetric(a.skip(1), b.skip(1));
    }
}

/// Not coming before is passed on.
pub proof fn not_less_is_transitive(a: Seq<char>, b: Seq<char>, c: Seq<char>)
    requires
        !text_less(b, a),
        !text_less(c, b),
    ensures
        !text_less(c, a),
    decreases a.len(),
{
    if a.len() > 0 && b.len() > 0 && c.len() > 0 && a[0] == b[0] && b[0] == c[0] {
        not_less_is_transitive(a.skip(1), b.skip(1), c.skip(1));
    }
}

/// The tree lists every entry once, in ascending order of path.
pub proof fn trees_are_sorted(entries: Seq<TreeEntry>, count: nat)
    requires
        count <= entries.len(),
    ensures
        by_path(sorted_nodes(entries, count)),
        sorted_nodes(entries, count).len() == count,
        sorted_nodes(entries, count).to_multiset() == entries.take(count as int).map_values(
            |e: TreeEntry| bare_node(e),
        ).to_multiset(),
    decreases count,
{
    broadcast use vstd::seq_lib::group_to_multiset_ensures;

    if count > 0 {
        let before = (count - 1) as nat;
        trees_are_sorted(entries, before);
        insertion_keeps_order(sorted_nodes(entries, before), bare_node(entries[count - 1]));
        assert(entries.take(count as int).map_values(|e: TreeEntry| bare_node(e))
            =~= entries.take(before as int).map_values(|e: TreeEntry| bare_node(e)).push(
            bare_node(entries[count - 1]),
        ));
    } else {
        assert(entries.take(0).map_values(|e: TreeEntry| bare_node(e)) =~= Seq::<
            TreeNodeView,
        >::empty());
    }
}

/// Where a walk over the rows stands: with a filter the tree is flat; without
/// one, rows deeper than a collapsed row are left out.
#[derive(Debug, Clone, Copy, PartialEq, Eq, Structural)]
pub struct TreeWalk {
    pub flat: bool,
    pub collapsed_at: Option<u32>,
}

/// How one row is drawn.
#[derive(Debug, Clone, Copy, PartialEq, Eq, Structural)]
pub struct RowPlan {
    pub depth: u32,
    pub expandable: bool,
}

/// What a walk does at a row: the walk after it, and how the row is drawn, if
/// at all.
pub open spec fn walk_step(
    walk: TreeWalk,
    path: Seq<char>,
    depth: u32,
    has_children: bool,
    filter: Seq<char>,
) -> (TreeWalk, Option<RowPlan>) {
    if walk.flat {
        if occurs(lowered(path), filter) {
            (walk, Some(RowPlan { depth: 0, expandable: false }))
        } else {
            (walk, None)
        }
    } else if walk.collapsed_at is Some && depth > walk.collapsed_at->0 {
        (walk, None)
    } else {
        (
            TreeWalk { collapsed_at: None, ..walk },
            Some(RowPlan { depth, expandable: has_children }),
        )
    }
}

/// The walk after a row was drawn and is now expanded or collapsed.
pub open spec fn walk_after(walk: TreeWalk, depth: u32, has_children: bool, expanded: bool) -> TreeWalk {
    if !walk.flat && has_children && !expanded {
        TreeWalk { collapsed_at: Some(depth), ..walk }
    } else {
        walk
    }
}

impl TreeWalk {
    /// A walk that starts at the first row. `filter` is in lowercase.
    pub fn start(filter: &str) -> (r: Self)
        ensures
            r == (TreeWalk { flat: filter@.len() > 0, collapsed_at: None }),
    {
        TreeWalk { flat: filter.unicode_len() > 0, collapsed_at: None }
    }

    /// How the row is drawn, if at all.
    pub fn visit(&mut self, node: &TreeNode, filter: &str) -> (r: Option<RowPlan>)
        ensures
            (*final(self), r) == walk_step(
                *old(self),
                node.path@,
                node.depth,
                node.has_children,
                filter@,
            ),
    {
        if self.flat {
            if contains(lowercase(node.path.as_str()).as_str(), filter) {
                return Some(RowPlan { depth: 0, expandable: false });
            }
            return None;
        }
        if let Some(d) = self.collapsed_at {
            if node.depth > d {
                return None;
            }
        }
        self.collapsed_at = None;
        Some(RowPlan { depth: node.depth, expandable: node.has_children })
    }

    /// Takes note of whether the drawn row is expanded.
    pub fn drawn(&mut self, node: &TreeNode, expanded: bool)
        ensures
            *final(self) == walk_after(*old(self), node.depth, node.has_children, expanded),
    {
        if !self.flat && node.has_children && !expanded {
            self.collapsed_at = Some(node.depth);
        }
    }
}

/// The walk over the first `count` rows, and the places of those that show.
pub open spec fn walked(
    nodes: Seq<TreeNode>,
    filter: Seq<char>,
    expanded: Seq<bool>,
    count: nat,
) -> (TreeWalk, Seq<usize>)
    decreases count,
{
    if count == 0 {
        (TreeWalk { flat: filter.len() > 0, collapsed_at: None }, Seq::empty())
    } else {
        let (before, rows) = walked(nodes, filter, expanded, (count - 1) as nat);
        let node = nodes[count - 1];
        let (now, plan) = walk_step(before, node.path@, node.depth, node.has_children, filter);
        match plan {
            None => (now, rows),
            Some(_) => (
                walk_after(now, node.depth, node.has_children, expanded[count - 1]),
                rows.push((count - 1) as usize),
            ),
        }
    }
}

/// The places of the rows that show, when each row is expanded or not as
/// given.
pub fn render_tree(nodes: &Vec<TreeNode>, filter: &str, expanded: &Vec<bool>) -> (r: Vec<usize>)
    requires
        expanded@.len() == nodes@.len(),
    ensures
        r@ == walked(nodes@, filter@, expanded@, nodes@.len()).1,
{
    let mut walk = TreeWalk::start(filter);
    let mut out: Vec<usize> = Vec::new();
    for i in 0..nodes.len()
        invariant
            expanded@.len() == nodes@.len(),
            (walk, out@) == walked(nodes@, filter@, expanded@, i as nat),
    {
        let plan = walk.visit(&nodes[i], filter);
        if plan.is_some() {
            walk.drawn(&nodes[i], expanded[i]);
            out.push(i);
        }
    }
    out
}

/// A filter shows exactly the rows whose path holds it, whatever is collapsed.
pub proof fn filters_show_matches(
    nodes: Seq<TreeNode>,
    filter: Seq<char>,
    expanded: Seq<bool>,
    count: nat,
    i: usize,
)
    requires
        count <= nodes.len() <= usize::MAX,
        filter.len() > 0,
    ensures
        walked(nodes, filter, expanded, count).0.flat,
        walked(nodes, filter, expanded, count).1.contains(i) <==> i < count && occurs(
            lowered(nodes[i as int].path@),
            filter,
        ),
    decreases count,
{
    if count > 0 {
        let before = (count - 1) as nat;
        filters_show_matches(nodes, filter, expanded, before, i);
        let rows = walked(nodes, filter, expanded, before).1;
        let all = walked(nodes, filter, expanded, count).1;
        let node = nodes[count - 1];
        if occurs(lowered(node.path@), filter) {
            assert(all == rows.push(before as usize));
            assert(all[rows.len() as int] == before as usize);
            if rows.contains(i) {
                let k = choose|k: int| 0 <= k < rows.len() && rows[k] == i;
                assert(all[k] == i);
            }
            if all.contains(i) && i != before as usize {
                let k = choose|k: int| 0 <= k < all.len() && all[k] == i;
                assert(rows[k] == i);
            }
        } else {
            assert(all == rows);
        }
    } else {
        assert(!Seq::<usize>::empty().contains(i));
    }
}

/// Without a filter and with every row expanded, all rows show.
pub proof fn expanded_trees_show_everything(
    nodes: Seq<TreeNode>,
    expanded: Seq<bool>,
    count: nat,
)
    requires
        count <= nodes.len(),
        nodes.len() == expanded.len(),
        forall|i: int| 0 <= i < expanded.len() ==> #[trigger] expanded[i],
    ensures
        walked(nodes, Seq::empty(), expanded, count).0 == (TreeWalk {
            flat: false,
            collapsed_at: None,
        }),
        walked(nodes, Seq::empty(), expanded, count).1 == Seq::new(count, |i: int| i as usize),
    decreases count,
{
    if count > 0 {
        expanded_trees_show_everything(nodes, expanded, (count - 1) as nat);
        assert(expanded[count - 1]);
    }
    assert(walked(nodes, Seq::empty(), expanded, count).1 =~= Seq::new(count, |i: int| i as usize));
}

/// The section that the tree pane shows.
pub open spec fn tree_section(prims: nat) -> SectionView {
    SectionView {
        id: "tree"@,
        title: "Hierarchy"@,
        icon: "folder"@,
        rows: seq![
            readout_view("prims"@, decimal(prims)),
            RowView::Search("Search prims…"@),
            RowView::Tree,
        ],
    }
}

/// What the tree pane shows around its rows.
pub fn draw_tree_panel(nodes: &Vec<TreeNode>) -> (r: Vec<Section>)
    ensures
        section_views(r@) == seq![tree_section(nodes@.len())],
{
    let rows = vec![
        readout("prims", number(nodes.len() as u64).as_str()),
        Row::Search(copy("Search prims…")),
        Row::Tree,
    ];
    assert(row_views(rows@) =~= tree_section(nodes@.len()).rows);
    let sections = vec![section("tree", "Hierarchy", "folder", rows)];
    assert(section_views(sections@) =~= seq![tree_section(nodes@.len())]);
    sections
}

/// The filter as it is matched: in lowercase.
pub fn match_filter(filter: &str) -> (r: String)
    ensures
        r@ == lowered(filter@),
{
    lowercase(filter)
}

/// What a click in the tree leads to.
#[derive(Debug, Clone, Copy, PartialEq, Eq, Structural)]
pub enum TreeClick {
    /// Nothing that is projected was clicked.
    Nothing,
    /// The prim was selected already.
    Same(u64),
    /// The prim is newly selected, and the camera flies to it.
    FlyTo(u64),
}

/// The entity of the first entry with this path.
pub open spec fn first_entity(entries: Seq<(Seq<char>, u64)>, path: Seq<char>) -> Option<u64> {
    crate::assoc::at(entries, path)
}

/// What a click on the row of `clicked` leads to. An empty path is no click.
pub fn tree_click(entries: &Vec<(String, u64)>, clicked: &str, selected: Option<u64>) -> (r:
    TreeClick)
    ensures
        r == (match first_entity(crate::live::path_entries(entries@), clicked@) {
            Some(e) => if clicked@.len() == 0 {
                TreeClick::Nothing
            } else if selected == Some(e) {
                TreeClick::Same(e)
            } else {
                TreeClick::FlyTo(e)
            },
            None => TreeClick::Nothing,
        }),
{
    let ghost all = crate::live::path_entries(entries@);
    if clicked.unicode_len() == 0 {
        return TreeClick::Nothing;
    }
    let mut i: usize = 0;
    while i < entries.len()
        invariant
            all == crate::live::path_entries(entries@),
            clicked@.len() > 0,
            i <= entries@.len(),
            forall|k: int| 0 <= k < i ==> (#[trigger] all[k]).0 != clicked@,
        decreases entries@.len() - i,
    {
        assert(all[i as int] == (entries@[i as int].0@, entries@[i as int].1));
        if str_eq(entries[i].0.as_str(), clicked) {
            proof {
                crate::assoc::first_is_slot(all, clicked@, i as int);
            }
            let entity: u64 = entries[i].1;
            return match selected {
                Some(e) if e == entity => TreeClick::Same(entity),
                _ => TreeClick::FlyTo(entity),
            };
        }
        i = i + 1;
    }
    proof {
        crate::assoc::first_is_slot(all, clicked@, all.len() as int);
    }
    TreeClick::Nothing
}

} // verus!
