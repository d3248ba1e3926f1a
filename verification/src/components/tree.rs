//! A collapsible tree view.

use vstd::prelude::*;
use crate::text::concat;
use crate::tui::{KeyCode, MouseEvent, MouseEventKind, Rect};

verus! {

/// A node of a tree: its label, children, whether it is expanded, whether
/// it is a leaf, and its depth below the root.
pub struct TreeNode {
    pub label: String,
    pub children: Vec<TreeNode>,
    pub expanded: bool,
    pub is_leaf: bool,
    pub depth: usize,
}

/// A visible row of a tree: depth, label, whether it is a leaf and whether
/// it is expanded.
pub type FlatRow = (nat, Seq<char>, bool, bool);

/// The rows a node shows, in order: itself, then, where it is expanded, the
/// rows of its children one after the other.
pub open spec fn flat(n: TreeNode) -> Seq<FlatRow>
    decreases n,
{
    seq![(n.depth as nat, n.label@, n.is_leaf, n.expanded)] + if n.expanded {
        flat_all(n.children@)
    } else {
        seq![]
    }
}

/// The rows of a list of nodes, one after the other.
pub open spec fn flat_all(cs: Seq<TreeNode>) -> Seq<FlatRow>
    decreases cs,
{
    if cs.len() == 0 {
        seq![]
    } else {
        flat_all(cs.drop_last()) + flat(cs.last())
    }
}

/// `b` is `a` with the node shown at row `k` (counted from `a` itself)
/// expanded or collapsed where it is not a leaf; where there is no such
/// row, `b` is `a`.
pub open spec fn toggled(a: TreeNode, b: TreeNode, k: int) -> bool
    decreases a,
{
    &&& b.label == a.label
    &&& b.is_leaf == a.is_leaf
    &&& b.depth == a.depth
    &&& if k == 0 {
        &&& b.expanded == (if a.is_leaf { a.expanded } else { !a.expanded })
        &&& b.children == a.children
    } else if k < 0 || !a.expanded {
        b.expanded == a.expanded && b.children == a.children
    } else {
        &&& b.expanded == a.expanded
        &&& toggled_all(a.children@, b.children@, k - 1)
    }
}

/// `bs` is `as_` with the node shown at row `k` of their rows toggled.
pub open spec fn toggled_all(as_: Seq<TreeNode>, bs: Seq<TreeNode>, k: int) -> bool
    decreases as_,
{
    if as_.len() == 0 {
        bs.len() == 0
    } else {
        let s = flat_all(as_.drop_last()).len();
        &&& bs.len() == as_.len()
        &&& if k < s {
            toggled_all(as_.drop_last(), bs.drop_last(), k) && bs.last() == as_.last()
        } else {
            bs.drop_last() == as_.drop_last() && toggled(as_.last(), bs.last(), k - s)
        }
    }
}

impl TreeNode {
    /// A leaf, collapsed, at depth 0.
    pub fn leaf(label: &str) -> (n: TreeNode)
        ensures
            n.label@ == label@,
            n.children@.len() == 0,
            !n.expanded,
            n.is_leaf,
            n.depth == 0,
    {
        TreeNode { label: label.to_owned(), children: Vec::new(), expanded: false, is_leaf: true, depth: 0 }
    }

    /// A branch, expanded, at depth 0, its children at depth 1.
    pub fn branch(label: &str, children: Vec<TreeNode>) -> (n: TreeNode)
        ensures
            n.label@ == label@,
            n.children@.len() == children@.len(),
            forall|i: int|
                0 <= i < children@.len() ==> #[trigger] n.children@[i] == (TreeNode {
                    depth: 1,
                    ..children@[i]
                }),
            n.expanded,
            !n.is_leaf,
            n.depth == 0,
    {
        let mut children = children;
        let ghost orig = children@;
        let mut i: usize = 0;
        while i < children.len()
            invariant
                i <= children@.len(),
                children@.len() == orig.len(),
                forall|k: int|
                    0 <= k < orig.len() ==> #[trigger] children@[k] == if k < i {
                        TreeNode { depth: 1, ..orig[k] }
                    } else {
                        orig[k]
                    },
            decreases children@.len() - i,
        {
            let mut c = TreeNode::leaf("");
            std::mem::swap(&mut c, &mut children[i]);
            c.depth = 1;
            children.set(i, c);
            i = i + 1;
        }
        TreeNode { label: label.to_owned(), children, expanded: true, is_leaf: false, depth: 0 }
    }

    /// Expands or collapses a branch; a leaf stays as it is.
    pub fn toggle(&mut self)
        ensures
            *final(self) == (TreeNode {
                expanded: if old(self).is_leaf { old(self).expanded } else { !old(self).expanded },
                ..*old(self)
            }),
    {
        if !self.is_leaf {
            self.expanded = !self.expanded;
        }
    }

    /// The rows this node shows (see [`flat`]), appended to `lines`.
    pub fn flatten(&self, lines: &mut Vec<(usize, String, bool, bool)>)
        ensures
            row_views(final(lines)@) == row_views(old(lines)@) + flat(*self),
        decreases *self,
    {
        let ghost start = row_views(lines@);
        let ghost before = lines@;
        lines.push((self.depth, self.label.clone(), self.is_leaf, self.expanded));
        proof {
            crate::surface::lemma_map_push(before, lines@.last(), |r: (usize, String, bool, bool)| row_view(r));
        }
        if self.expanded {
            let mut i: usize = 0;
            let ghost mid = row_views(lines@);
            while i < self.children.len()
                invariant
                    i <= self.children@.len(),
                    self.expanded,
                    row_views(lines@) == mid + flat_all(self.children@.take(i as int)),
                decreases self.children@.len() - i,
            {
                proof {
                    assert(self.children@.take(i + 1).drop_last() =~= self.children@.take(i as int));
                }
                self.children[i].flatten(lines);
                i = i + 1;
            }
            proof {
                assert(self.children@.take(self.children@.len() as int) =~= self.children@);
            }
        }
        proof {
            assert(row_views(lines@) =~= start + flat(*self));
        }
    }
}

/// The abstract value of a row.
pub open spec fn row_view(r: (usize, String, bool, bool)) -> FlatRow {
    (r.0 as nat, r.1@, r.2, r.3)
}

/// The abstract values of rows.
pub open spec fn row_views(rs: Seq<(usize, String, bool, bool)>) -> Seq<FlatRow> {
    rs.map_values(|r: (usize, String, bool, bool)| row_view(r))
}

/// The rows of the first `i + 1` nodes are those of the first `i` and then
/// those of node `i`.
pub proof fn lemma_flat_all_step(cs: Seq<TreeNode>, i: int)
    requires
        0 <= i < cs.len(),
    ensures
        flat_all(cs.take(i + 1)) == flat_all(cs.take(i)) + flat(cs[i]),
{
    assert(cs.take(i + 1).drop_last() =~= cs.take(i));
}

/// The rows of a prefix are no more than those of the whole list.
pub proof fn lemma_flat_all_prefix_len(cs: Seq<TreeNode>, i: int)
    requires
        0 <= i <= cs.len(),
    ensures
        flat_all(cs.take(i)).len() <= flat_all(cs).len(),
    decreases cs.len() - i,
{
    if i < cs.len() {
        lemma_flat_all_step(cs, i);
        lemma_flat_all_prefix_len(cs, i + 1);
    } else {
        assert(cs.take(i) =~= cs);
    }
}

/// A node toggled at a row it does not show stays as it is.
pub proof fn lemma_toggled_none(a: TreeNode, k: int)
    requires
        k >= flat(a).len(),
    ensures
        toggled(a, a, k),
    decreases a,
{
    if k != 0 && k >= 0 && a.expanded {
        lemma_toggled_all_none(a.children@, k - 1);
    }
}

/// A list toggled at a row it does not show stays as it is.
pub proof fn lemma_toggled_all_none(cs: Seq<TreeNode>, k: int)
    requires
        k >= flat_all(cs).len(),
    ensures
        toggled_all(cs, cs, k),
    decreases cs,
{
    if cs.len() > 0 {
        let s = flat_all(cs.drop_last()).len();
        if k < s {
        } else {
            lemma_toggled_none(cs.last(), k - s);
        }
    }
}

/// Toggling a row of node `i` of a list toggles that row of the list.
pub proof fn lemma_toggled_all_update(cs: Seq<TreeNode>, i: int, b: TreeNode, k: int)
    requires
        0 <= i < cs.len(),
        flat_all(cs.take(i)).len() <= k < flat_all(cs.take(i)).len() + flat(cs[i]).len(),
        toggled(cs[i], b, k - flat_all(cs.take(i)).len()),
    ensures
        toggled_all(cs, cs.update(i, b), k),
    decreases cs.len(),
{
    let n = cs.len();
    let new = cs.update(i, b);
    if i == n - 1 {
        assert(cs.take(i) =~= cs.drop_last());
        assert(new.drop_last() =~= cs.drop_last());
    } else {
        lemma_flat_all_step(cs, i);
        lemma_flat_all_prefix_len(cs.drop_last(), i + 1);
        assert(cs.drop_last().take(i + 1) =~= cs.take(i + 1));
        assert(cs.drop_last().take(i) =~= cs.take(i));
        assert(new.drop_last() =~= cs.drop_last().update(i, b));
        lemma_toggled_all_update(cs.drop_last(), i, b, k);
    }
}

/// The number of rows a node shows (see [`flat`]).
pub fn visible_len(n: &TreeNode) -> (c: usize)
    requires
        flat(*n).len() <= usize::MAX,
    ensures
        c == flat(*n).len(),
    decreases *n,
{
    let mut total: usize = 1;
    if n.expanded {
        let mut i: usize = 0;
        while i < n.children.len()
            invariant
                n.expanded,
                i <= n.children@.len(),
                flat(*n).len() <= usize::MAX,
                total == 1 + flat_all(n.children@.take(i as int)).len(),
            decreases n.children@.len() - i,
        {
            proof {
                lemma_flat_all_step(n.children@, i as int);
                lemma_flat_all_prefix_len(n.children@, i + 1);
            }
            let c = visible_len(&n.children[i]);
            total = total + c;
            i = i + 1;
        }
        proof {
            assert(n.children@.take(n.children@.len() as int) =~= n.children@);
        }
    }
    total
}

/// Expands or collapses the node a tree shows at row `k` (counted from
/// `node` itself); leaves and rows that are not shown are left alone.
pub fn toggle_in(node: &mut TreeNode, k: usize)
    requires
        flat(*old(node)).len() <= usize::MAX,
    ensures
        toggled(*old(node), *final(node), k as int),
    decreases *old(node),
{
    if k == 0 {
        node.toggle();
        return;
    }
    if !node.expanded {
        return;
    }
    let ghost cs = node.children@;
    let mut rest: usize = k - 1;
    let n = node.children.len();
    let mut i: usize = 0;
    while i < n
        invariant
            n == cs.len(),
            cs == node.children@,
            *node == *old(node),
            node.expanded,
            k > 0,
            flat(*old(node)).len() <= usize::MAX,
            i <= n,
            flat_all(cs.take(i as int)).len() <= k - 1,
            rest == k - 1 - flat_all(cs.take(i as int)).len(),
        decreases n - i,
    {
        proof {
            lemma_flat_all_step(cs, i as int);
            lemma_flat_all_prefix_len(cs, i + 1);
        }
        let c = visible_len(&node.children[i]);
        if rest < c {
            let mut child = TreeNode::leaf("");
            std::mem::swap(&mut child, &mut node.children[i]);
            proof {
                assert(child == cs[i as int]);
            }
            toggle_in(&mut child, rest);
            let ghost b = child;
            node.children.set(i, child);
            proof {
                assert(node.children@ == cs.update(i as int, b));
                lemma_toggled_all_update(cs, i as int, b, k - 1);
            }
            return;
        }
        rest = rest - c;
        i = i + 1;
    }
    proof {
        assert(cs.take(n as int) =~= cs);
        lemma_toggled_all_none(cs, k - 1);
    }
}

/// Levels below a node: 0 for none, else one more than its deepest child.
pub open spec fn tree_height(n: TreeNode) -> nat
    decreases n,
{
    if n.children@.len() == 0 {
        0
    } else {
        1 + height_all(n.children@)
    }
}

/// The largest height among a list of nodes (0 for none).
pub open spec fn height_all(cs: Seq<TreeNode>) -> nat
    decreases cs,
{
    if cs.len() == 0 {
        0
    } else {
        crate::surface::max_nat(height_all(cs.drop_last()), tree_height(cs.last()))
    }
}

/// `b` is `a` with every node's depth set: `d` for `a`, one more for each
/// level below.
pub open spec fn with_depths(a: TreeNode, b: TreeNode, d: int) -> bool
    decreases a,
{
    &&& b.label == a.label
    &&& b.is_leaf == a.is_leaf
    &&& b.expanded == a.expanded
    &&& b.depth == d
    &&& b.children@.len() == a.children@.len()
    &&& forall|i: int| 0 <= i < a.children@.len() ==> with_depths(#[trigger] a.children@[i], b.children@[i], d + 1)
}

proof fn lemma_height_all_bound(cs: Seq<TreeNode>, i: int)
    requires
        0 <= i < cs.len(),
    ensures
        tree_height(cs[i]) <= height_all(cs),
    decreases cs.len(),
{
    if i < cs.len() - 1 {
        lemma_height_all_bound(cs.drop_last(), i);
    }
}

proof fn lemma_height_all_same(cs: Seq<TreeNode>, ds: Seq<TreeNode>)
    requires
        cs.len() == ds.len(),
        forall|i: int| 0 <= i < cs.len() ==> (#[trigger] ds[i]).children == cs[i].children,
    ensures
        height_all(cs) == height_all(ds),
    decreases cs.len(),
{
    if cs.len() > 0 {
        assert forall|i: int| 0 <= i < cs.drop_last().len() implies (#[trigger] ds.drop_last()[i]).children
            == cs.drop_last()[i].children by {
            assert(ds[i].children == cs[i].children);
        }
        lemma_height_all_same(cs.drop_last(), ds.drop_last());
        assert(ds[ds.len() - 1].children == cs[cs.len() - 1].children);
        assert(tree_height(ds.last()) == tree_height(cs.last()));
    }
}

impl TreeNode {
    /// Sets the depth of this node to `depth` and of every node below it to
    /// its level below plus `depth`.
    pub fn compute_depths(&mut self, depth: usize)
        requires
            depth + tree_height(*old(self)) <= usize::MAX,
        ensures
            with_depths(*old(self), *final(self), depth as int),
        decreases *old(self),
    {
        self.depth = depth;
        let n = self.children.len();
        let ghost cs = self.children@;
        let mut i: usize = 0;
        while i < n
            invariant
                n == cs.len(),
                self.children@.len() == n,
                cs == old(self).children@,
                self.label == old(self).label,
                self.is_leaf == old(self).is_leaf,
                self.expanded == old(self).expanded,
                self.depth == depth,
                depth + tree_height(*old(self)) <= usize::MAX,
                i <= n,
                forall|k: int|
                    0 <= k < n ==> if k < i {
                        with_depths(cs[k], #[trigger] self.children@[k], depth + 1)
                    } else {
                        self.children@[k] == cs[k]
                    },
            decreases n - i,
        {
            proof {
                lemma_height_all_bound(cs, i as int);
            }
            let mut child = TreeNode::leaf("");
            std::mem::swap(&mut child, &mut self.children[i]);
            child.compute_depths(depth + 1);
            self.children.set(i, child);
            i = i + 1;
        }
    }
}

/// A tree view: its root, the selected row, focus and the first row shown.
pub struct Tree {
    pub root: TreeNode,
    pub selection: usize,
    pub focused: bool,
    pub scroll: usize,
}

/// The selection after a navigation key over `n > 0` rows.
pub open spec fn tree_nav(sel: nat, n: nat, code: KeyCode) -> nat {
    match code {
        KeyCode::Up => if sel > 0 { (sel - 1) as nat } else { 0 },
        KeyCode::Down => if sel + 1 < n { sel + 1 } else { (n - 1) as nat },
        KeyCode::Home => 0,
        KeyCode::End => (n - 1) as nat,
        _ => sel,
    }
}

impl Tree {
    /// The rows the tree shows (see [`flat`]).
    pub open spec fn rows(&self) -> Seq<FlatRow> {
        flat(self.root)
    }

    /// A tree whose root is a branch labelled `label` over `children`, each
    /// node at its level's depth, nothing selected but the root, unfocused.
    pub fn new(label: &str, children: Vec<TreeNode>) -> (t: Tree)
        requires
            1 + height_all(children@) <= usize::MAX,
        ensures
            ({
                let r = t.root;
                &&& r.label@ == label@
                &&& r.expanded
                &&& !r.is_leaf
                &&& r.depth == 0
                &&& r.children@.len() == children@.len()
                &&& forall|i: int|
                    0 <= i < children@.len() ==> with_depths(
                        #[trigger] children@[i],
                        r.children@[i],
                        1,
                    )
            }),
            t.selection == 0,
            !t.focused,
            t.scroll == 0,
    {
        let ghost cs = children@;
        let mut root = TreeNode::branch(label, children);
        proof {
            lemma_height_all_same(cs, root.children@);
        }
        let ghost branched = root;
        root.compute_depths(0);
        proof {
            assert forall|i: int| 0 <= i < cs.len() implies with_depths(#[trigger] cs[i], root.children@[i], 1) by {
                assert(with_depths(branched.children@[i], root.children@[i], 1));
                assert(branched.children@[i].children == cs[i].children);
            }
        }
        Tree { root, selection: 0, focused: false, scroll: 0 }
    }
}

impl Tree {
    /// Gives the tree the focus.
    pub fn focus(&mut self)
        ensures
            *final(self) == (Tree { focused: true, ..*old(self) }),
    {
        self.focused = true;
    }

    /// Takes the focus away.
    pub fn blur(&mut self)
        ensures
            *final(self) == (Tree { focused: false, ..*old(self) }),
    {
        self.focused = false;
    }

    /// The rows the tree shows (see [`flat`]).
    pub fn flatten(&self) -> (lines: Vec<(usize, String, bool, bool)>)
        ensures
            row_views(lines@) == self.rows(),
    {
        let mut lines: Vec<(usize, String, bool, bool)> = Vec::new();
        self.root.flatten(&mut lines);
        assert(row_views(lines@) =~= self.rows());
        lines
    }

    /// Expands or collapses the branch shown at row `idx`, where there is
    /// one (see [`toggled`]).
    pub fn toggle_at(&mut self, idx: usize)
        ensures
            toggled(old(self).root, final(self).root, idx as int),
            final(self).selection == old(self).selection,
            final(self).focused == old(self).focused,
            final(self).scroll == old(self).scroll,
    {
        let lines = self.flatten();
        proof {
            assert(lines@.len() == row_views(lines@).len());
        }
        if idx >= lines.len() {
            proof {
                lemma_toggled_none(self.root, idx as int);
            }
            return;
        }
        if !lines[idx].2 {
            let mut root = TreeNode::leaf("");
            std::mem::swap(&mut root, &mut self.root);
            toggle_in(&mut root, idx);
            self.root = root;
        } else {
            proof {
                assert(row_views(lines@)[idx as int].2);
                lemma_leaf_row_toggle(self.root, idx as int);
            }
        }
    }

    /// Handles a key while focused on a tree with rows: Up, Down, Home and
    /// End move the selection; Enter and the side arrows expand or collapse
    /// the selected branch.
    pub fn on_key(&mut self, code: KeyCode)
        ensures
            final(self).focused == old(self).focused,
            final(self).scroll == old(self).scroll,
            ({
                let n = old(self).rows().len();
                let active = old(self).focused && n > 0;
                if active && (code == KeyCode::Up || code == KeyCode::Down || code == KeyCode::Home || code
                    == KeyCode::End) {
                    final(self).root == old(self).root && final(self).selection == tree_nav(
                        old(self).selection as nat,
                        n,
                        code,
                    )
                } else if active && (code == KeyCode::Enter || code == KeyCode::Right || code == KeyCode::Left) {
                    final(self).selection == old(self).selection && toggled(
                        old(self).root,
                        final(self).root,
                        old(self).selection as int,
                    )
                } else {
                    *final(self) == *old(self)
                }
            }),
    {
        if !self.focused {
            return;
        }
        let flat = self.flatten();
        let n = flat.len();
        proof {
            assert(n == row_views(flat@).len());
        }
        if n == 0 {
            return;
        }
        let sel = self.selection;
        let last = n - 1;
        match code {
            KeyCode::Up => {
                self.selection = sel.saturating_sub(1);
            },
            KeyCode::Down => {
                self.selection = if sel < last {
                    sel + 1
                } else {
                    last
                };
            },
            KeyCode::Home => {
                self.selection = 0;
            },
            KeyCode::End => {
                self.selection = last;
            },
            KeyCode::Enter | KeyCode::Right | KeyCode::Left => {
                self.toggle_at(sel);
            },
            _ => {},
        }
    }

    /// Handles a mouse event over the tree's `area`: a press inside selects
    /// the clicked row (within the rows) and expands or collapses it where it
    /// is a branch; the wheel scrolls, down at most until the last row is
    /// shown.
    pub fn on_mouse(&mut self, area: Rect, ev: &MouseEvent)
        ensures
            final(self).focused == old(self).focused,
            ({
                let n = old(self).rows().len();
                let last: nat = if n > 0 { (n - 1) as nat } else { 0 };
                match ev.kind {
                    MouseEventKind::Down(_) => if area.spec_contains(ev.column, ev.row) {
                        let inner: nat = if ev.row > area.y + 1 { (ev.row - area.y - 1) as nat } else { 0 };
                        let s: nat = if inner + old(self).scroll < last { (inner + old(self).scroll) as nat } else { last };
                        &&& final(self).selection == s
                        &&& final(self).scroll == old(self).scroll
                        &&& if s < n && !old(self).rows()[s as int].2 {
                            toggled(old(self).root, final(self).root, s as int)
                        } else {
                            final(self).root == old(self).root
                        }
                    } else {
                        *final(self) == *old(self)
                    },
                    MouseEventKind::ScrollUp => *final(self) == (Tree {
                        scroll: if old(self).scroll > 0 { (old(self).scroll - 1) as usize } else { 0 },
                        ..*old(self)
                    }),
                    MouseEventKind::ScrollDown => {
                        let visible: nat = if area.height > 2 { (area.height - 2) as nat } else { 0 };
                        let top: nat = if n > visible { (n - visible) as nat } else { 0 };
                        *final(self) == (Tree {
                            scroll: if old(self).scroll + 1 < top { (old(self).scroll + 1) as usize } else { top as usize },
                            ..*old(self)
                        })
                    },
                    _ => *final(self) == *old(self),
                }
            }),
    {
        match ev.kind {
            MouseEventKind::Down(_) => {
                if area.contains(ev.column, ev.row) {
                    let inner_y = ev.row.saturating_sub(area.top() + 1) as usize;
                    let flat = self.flatten();
                    let n = flat.len();
                    proof {
                        assert(n == row_views(flat@).len());
                    }
                    let last = n.saturating_sub(1);
                    let s = if self.scroll < last && inner_y < last - self.scroll {
                        inner_y + self.scroll
                    } else {
                        last
                    };
                    self.selection = s;
                    if s < n && !flat[s].2 {
                        proof {
                            assert(row_views(flat@)[s as int].2 == flat@[s as int].2);
                        }
                        self.toggle_at(s);
                    } else {
                        proof {
                            if s < n {
                                assert(row_views(flat@)[s as int].2 == flat@[s as int].2);
                            }
                        }
                    }
                }
            },
            MouseEventKind::ScrollUp => {
                self.scroll = self.scroll.saturating_sub(1);
            },
            MouseEventKind::ScrollDown => {
                let visible = area.height.saturating_sub(2) as usize;
                let flat = self.flatten();
                proof {
                    assert(flat@.len() == row_views(flat@).len());
                }
                let top = flat.len().saturating_sub(visible);
                self.scroll = if self.scroll < top {
                    self.scroll + 1
                } else {
                    top
                };
            },
            _ => {},
        }
    }

    /// The text of each row drawn in an area `height` rows high (two go to
    /// the border), from the first row shown, and whether it is highlighted:
    /// two spaces per level of depth, an icon (page for a leaf, down or
    /// right triangle for an expanded or collapsed branch), a space and the
    /// label; the selected row is highlighted while the tree has the focus.
    pub fn lines(&self, height: u16) -> (out: Vec<(String, bool)>)
        ensures
            ({
                let rows = self.rows();
                let visible: nat = if height > 2 { (height - 2) as nat } else { 0 };
                let left: nat = if rows.len() > self.scroll { (rows.len() - self.scroll) as nat } else { 0 };
                let n: nat = if left < visible { left } else { visible };
                &&& out@.len() == n
                &&& forall|r: int|
                    0 <= r < n ==> {
                        let i = self.scroll + r;
                        (#[trigger] out@[r]).0@ == tree_line(rows[i]) && out@[r].1 == (i == self.selection
                            && self.focused)
                    }
            }),
    {
        let flat = self.flatten();
        let ghost rows = self.rows();
        let visible = height.saturating_sub(2) as usize;
        let total = flat.len();
        proof {
            assert(total == row_views(flat@).len());
        }
        let left = total.saturating_sub(self.scroll);
        let n = if left < visible {
            left
        } else {
            visible
        };
        let mut out: Vec<(String, bool)> = Vec::new();
        let mut r: usize = 0;
        while r < n
            invariant
                r <= n,
                n <= left,
                left == if total > self.scroll { total - self.scroll } else { 0 },
                total == flat@.len(),
                row_views(flat@) == rows,
                rows == self.rows(),
                out@.len() == r,
                forall|q: int|
                    0 <= q < r ==> {
                        let i = self.scroll + q;
                        (#[trigger] out@[q]).0@ == tree_line(rows[i]) && out@[q].1 == (i == self.selection
                            && self.focused)
                    },
            decreases n - r,
        {
            let i = self.scroll + r;
            let row = &flat[i];
            proof {
                assert(rows[i as int] == row_view(flat@[i as int]));
            }
            let mut indent = String::new();
            let mut d: usize = 0;
            proof {
                reveal_strlit("  ");
                assert("  "@ =~= seq![' ', ' ']);
            }
            while d < row.0
                invariant
                    "  "@ == seq![' ', ' '],
                    d <= row.0,
                    indent@ == Seq::new((2 * d) as nat, |k: int| ' '),
                decreases row.0 - d,
            {
                indent = concat(indent.as_str(), "  ");
                assert(indent@ =~= Seq::new((2 * (d + 1)) as nat, |k: int| ' '));
                d = d + 1;
            }
            let icon = if row.2 {
                "📄"
            } else if row.3 {
                "▼"
            } else {
                "▶"
            };
            proof {
                reveal_strlit(" ");
            }
            let a = concat(indent.as_str(), icon);
            let b = concat(a.as_str(), " ");
            let line = concat(b.as_str(), row.1.as_str());
            out.push((line, i == self.selection && self.focused));
            r = r + 1;
        }
        out
    }
}

/// A row's text: two spaces per level, its icon, a space and its label.
pub open spec fn tree_line(row: FlatRow) -> Seq<char> {
    Seq::new(2 * row.0, |k: int| ' ') + (if row.2 {
        "📄"@
    } else if row.3 {
        "▼"@
    } else {
        "▶"@
    }) + seq![' '] + row.1
}

/// Toggling the row of a leaf changes nothing.
pub proof fn lemma_leaf_row_toggle(a: TreeNode, k: int)
    requires
        0 <= k < flat(a).len(),
        flat(a)[k].2,
    ensures
        toggled(a, a, k),
    decreases a,
{
    if k == 0 {
    } else if a.expanded {
        lemma_leaf_row_toggle_all(a.children@, k - 1);
    }
}

proof fn lemma_leaf_row_toggle_all(cs: Seq<TreeNode>, k: int)
    requires
        0 <= k < flat_all(cs).len(),
        flat_all(cs)[k].2,
    ensures
        toggled_all(cs, cs, k),
    decreases cs,
{
    let s = flat_all(cs.drop_last()).len();
    if k < s {
        lemma_leaf_row_toggle_all(cs.drop_last(), k);
    } else {
        lemma_leaf_row_toggle(cs.last(), k - s);
    }
}

} // verus!
