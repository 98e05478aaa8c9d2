//! Data display widgets: table rows and row selection, lists, and
//! expandable trees.

use vstd::prelude::*;
use crate::text::owned;

verus! {

/// The views of a sequence of strings.
pub open spec fn views(s: Seq<String>) -> Seq<Seq<char>> {
    s.map_values(|x: String| x@)
}

/// The views of a sequence of string slices.
pub open spec fn str_views(s: Seq<&str>) -> Seq<Seq<char>> {
    s.map_values(|x: &str| x@)
}

// ---------------------------------------------------------------------------
// table
// ---------------------------------------------------------------------------

/// Row data for Table
pub struct TableRow {
    pub cells: Vec<String>,
    pub selected: bool,
}

impl TableRow {
    pub fn new(cells: Vec<&str>) -> (r: Self)
        ensures
            views(r.cells@) == str_views(cells@),
            !r.selected,
    {
        let mut out: Vec<String> = Vec::new();
        let mut i: usize = 0;
        while i < cells.len()
            invariant
                i <= cells@.len(),
                out@.len() == i,
                views(out@) == str_views(cells@.take(i as int)),
            decreases cells@.len() - i,
        {
            let ghost before = out@;
            out.push(owned(cells[i]));
            proof {
                assert(cells@.take(i + 1) =~= cells@.take(i as int).push(cells@[i as int]));
                assert forall|j: int| 0 <= j < i + 1 implies views(out@)[j] == str_views(cells@.take(i + 1))[j] by {
                    if j < i {
                        assert(out@[j] == before[j]);
                        assert(views(before)[j] == str_views(cells@.take(i as int))[j]);
                    }
                }
                assert(views(out@) =~= str_views(cells@.take(i + 1)));
            }
            i = i + 1;
        }
        proof {
            assert(cells@.take(cells@.len() as int) =~= cells@);
        }
        TableRow { cells: out, selected: false }
    }
}

/// Hover and selection of the rows of a table.
#[derive(Clone, Copy, Debug, PartialEq, Eq, Structural)]
pub struct TableSelection {
    pub selected_row: Option<usize>,
    pub hovered_row: Option<usize>,
}

impl TableSelection {
    pub fn new() -> (r: Self)
        ensures
            r.selected_row is None,
            r.hovered_row is None,
    {
        TableSelection { selected_row: None, hovered_row: None }
    }

    /// The pointer is over body row `row` (counted from the top of the
    /// scrolled content), or over no body row; rows past the end are no
    /// row.
    pub fn point_at(&mut self, row: Option<usize>, row_count: usize)
        ensures
            final(self).selected_row == old(self).selected_row,
            final(self).hovered_row == match row {
                Some(i) => if i < row_count {
                    Some(i)
                } else {
                    None
                },
                None => None,
            },
    {
        self.hovered_row = match row {
            Some(i) => if i < row_count {
                Some(i)
            } else {
                None
            },
            None => None,
        };
    }

    /// A left click: toggles the selection of the hovered row; returns
    /// whether the click was consumed.
    pub fn click(&mut self) -> (consumed: bool)
        ensures
            consumed == old(self).hovered_row is Some,
            final(self).hovered_row == old(self).hovered_row,
            final(self).selected_row == match old(self).hovered_row {
                Some(i) => if old(self).selected_row == Some(i) {
                    None
                } else {
                    Some(i)
                },
                None => old(self).selected_row,
            },
    {
        match self.hovered_row {
            Some(i) => {
                if self.selected_row == Some(i) {
                    self.selected_row = None;
                } else {
                    self.selected_row = Some(i);
                }
                true
            },
            None => false,
        }
    }
}

// ---------------------------------------------------------------------------
// list
// ---------------------------------------------------------------------------

/// Simple list item
pub struct ListItem {
    pub text: String,
    pub icon: Option<String>,
}

impl ListItem {
    pub fn new(text: &str) -> (r: Self)
        ensures
            r.text@ == text@,
            r.icon is None,
    {
        ListItem { text: owned(text), icon: None }
    }

    pub fn with_icon(self, icon: &str) -> (r: Self)
        ensures
            r.text == self.text,
            r.icon matches Some(i) && i@ == icon@,
    {
        let mut item = self;
        item.icon = Some(owned(icon));
        item
    }
}

/// Scrollable list view
pub struct ListView {
    pub items: Vec<ListItem>,
    pub selected_index: Option<usize>,
    pub hovered_index: Option<usize>,
}

impl ListView {
    pub fn new() -> (r: Self)
        ensures
            r.items@.len() == 0,
            r.selected_index is None,
            r.hovered_index is None,
    {
        ListView { items: Vec::new(), selected_index: None, hovered_index: None }
    }

    pub fn with_items(self, items: Vec<ListItem>) -> (r: Self)
        ensures
            r.items == items,
            r.selected_index == self.selected_index,
            r.hovered_index == self.hovered_index,
    {
        let mut l = self;
        l.items = items;
        l
    }

    pub fn add_item(&mut self, item: ListItem)
        ensures
            final(self).items@ == old(self).items@.push(item),
            final(self).selected_index == old(self).selected_index,
            final(self).hovered_index == old(self).hovered_index,
    {
        self.items.push(item);
    }

    /// The pointer is over item `idx` of the scrolled content; indices past
    /// the end are no item.
    pub fn point_at(&mut self, idx: usize)
        ensures
            final(self).items == old(self).items,
            final(self).selected_index == old(self).selected_index,
            final(self).hovered_index == if idx < old(self).items@.len() {
                Some(idx)
            } else {
                None
            },
    {
        self.hovered_index = if idx < self.items.len() {
            Some(idx)
        } else {
            None
        };
    }

    /// A left click selects the hovered item; returns whether it was
    /// consumed.
    pub fn click(&mut self) -> (consumed: bool)
        ensures
            consumed == old(self).hovered_index is Some,
            final(self).items == old(self).items,
            final(self).hovered_index == old(self).hovered_index,
            final(self).selected_index == match old(self).hovered_index {
                Some(i) => Some(i),
                None => old(self).selected_index,
            },
    {
        match self.hovered_index {
            Some(i) => {
                self.selected_index = Some(i);
                true
            },
            None => false,
        }
    }
}

impl Default for ListView {
    fn default() -> (r: Self)
        ensures
            r.items@.len() == 0,
            r.selected_index is None,
            r.hovered_index is None,
    {
        Self::new()
    }
}

// ---------------------------------------------------------------------------
// tree
// ---------------------------------------------------------------------------

/// Node in a tree view
pub struct TreeNode {
    pub label: String,
    pub icon: Option<String>,
    pub children: Vec<TreeNode>,
    pub expanded: bool,
    pub selected: bool,
}

/// Rows a node occupies when drawn: itself, and when expanded the rows of
/// its children.
pub open spec fn visible_count(n: TreeNode) -> nat
    decreases n, 1nat,
{
    if n.expanded {
        1 + visible_count_all(n.children@)
    } else {
        1
    }
}

/// Rows the nodes of a sequence occupy together.
pub open spec fn visible_count_all(s: Seq<TreeNode>) -> nat
    decreases s, 0nat,
{
    if s.len() == 0 {
        0
    } else {
        visible_count_all(s.drop_last()) + visible_count(s.last())
    }
}

impl TreeNode {
    pub fn new(label: &str) -> (r: Self)
        ensures
            r.label@ == label@,
            r.icon is None,
            r.children@.len() == 0,
            !r.expanded,
            !r.selected,
    {
        TreeNode {
            label: owned(label),
            icon: None,
            children: Vec::new(),
            expanded: false,
            selected: false,
        }
    }

    pub fn with_icon(self, icon: &str) -> (r: Self)
        ensures
            r == (TreeNode { icon: r.icon, ..self }),
            r.icon matches Some(i) && i@ == icon@,
    {
        let mut n = self;
        n.icon = Some(owned(icon));
        n
    }

    pub fn with_children(self, children: Vec<TreeNode>) -> (r: Self)
        ensures
            r == (TreeNode { children, ..self }),
    {
        let mut n = self;
        n.children = children;
        n
    }

    pub fn add_child(&mut self, child: TreeNode)
        ensures
            *final(self) == (TreeNode { children: final(self).children, ..*old(self) }),
            final(self).children@ == old(self).children@.push(child),
    {
        self.children.push(child);
    }

    /// Rows this node occupies when drawn.
    pub fn count_visible(&self) -> (r: usize)
        requires
            visible_count(*self) <= usize::MAX,
        ensures
            r == visible_count(*self),
        decreases *self,
    {
        if self.expanded {
            1 + count_visible_all(&self.children)
        } else {
            1
        }
    }
}

/// Rows a sequence of nodes occupies when drawn.
pub fn count_visible_all(nodes: &Vec<TreeNode>) -> (r: usize)
    requires
        visible_count_all(nodes@) <= usize::MAX,
    ensures
        r == visible_count_all(nodes@),
    decreases nodes@,
{
    let mut total: usize = 0;
    let mut i: usize = 0;
    while i < nodes.len()
        invariant
            i <= nodes@.len(),
            total == visible_count_all(nodes@.take(i as int)),
            visible_count_all(nodes@) <= usize::MAX,
        decreases nodes@.len() - i,
    {
        proof {
            assert(nodes@.take(i + 1).drop_last() =~= nodes@.take(i as int));
            lemma_count_prefix(nodes@, i + 1);
        }
        let c = nodes[i].count_visible();
        total = total + c;
        i = i + 1;
    }
    proof {
        assert(nodes@.take(nodes@.len() as int) =~= nodes@);
    }
    total
}

/// A prefix never occupies more rows than the whole sequence.
pub proof fn lemma_count_prefix(s: Seq<TreeNode>, k: int)
    requires
        0 <= k <= s.len(),
    ensures
        visible_count_all(s.take(k)) <= visible_count_all(s),
    decreases s.len(),
{
    if k < s.len() {
        assert(s.drop_last().take(k) =~= s.take(k));
        lemma_count_prefix(s.drop_last(), k);
    } else {
        assert(s.take(k) =~= s);
    }
}

/// Every node shows at least its own row, so siblings show at least one
/// row each.
pub proof fn lemma_each_node_shows_a_row(s: Seq<TreeNode>)
    ensures
        visible_count_all(s) >= s.len(),
    decreases s.len(),
{
    if s.len() > 0 {
        lemma_each_node_shows_a_row(s.drop_last());
        assert(visible_count(s.last()) >= 1);
        assert(visible_count_all(s) == visible_count_all(s.drop_last()) + visible_count(s.last()));
    }
}

/// A collapsed node occupies exactly one row, whatever its children; an
/// expanded one occupies its own row and at least one more for each
/// child. So expanding or collapsing a node with children changes the
/// number of rows it occupies.
pub proof fn lemma_collapsed_node_one_row(n: TreeNode)
    ensures
        !n.expanded ==> visible_count(n) == 1,
        n.expanded ==> visible_count(n) >= 1 + n.children@.len(),
        n.children@.len() > 0 ==> visible_count(TreeNode { expanded: !n.expanded, ..n })
            != visible_count(n),
{
    lemma_each_node_shows_a_row(n.children@);
}

/// Hierarchical tree view
pub struct TreeView {
    pub roots: Vec<TreeNode>,
}

impl TreeView {
    pub fn new() -> (r: Self)
        ensures
            r.roots@.len() == 0,
    {
        TreeView { roots: Vec::new() }
    }

    pub fn with_roots(self, roots: Vec<TreeNode>) -> (r: Self)
        ensures
            r.roots == roots,
    {
        TreeView { roots }
    }

    /// Rows all roots occupy when drawn.
    pub fn count_visible(&self) -> (r: usize)
        requires
            visible_count_all(self.roots@) <= usize::MAX,
        ensures
            r == visible_count_all(self.roots@),
    {
        count_visible_all(&self.roots)
    }
}

impl Default for TreeView {
    fn default() -> (r: Self)
        ensures
            r.roots@.len() == 0,
    {
        Self::new()
    }
}

} // verus!
