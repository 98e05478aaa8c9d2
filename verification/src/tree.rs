//! File tree: nodes that expand and collapse, the rows they show, which
//! node a row is, and toggling a node by id.

use vstd::prelude::*;
use crate::text::{owned, str_eq};

verus! {

/// A node in the file tree
pub struct FileNode {
    pub id: String,
    pub label: String,
    pub icon: Option<String>,
    pub children: Vec<FileNode>,
    pub expanded: bool,
    pub selectable: bool,
}

impl FileNode {
    pub fn new(id: &str, label: &str) -> (r: Self)
        ensures
            r.id@ == id@,
            r.label@ == label@,
            r.icon is None,
            r.children@.len() == 0,
            !r.expanded,
            r.selectable,
    {
        FileNode {
            id: owned(id),
            label: owned(label),
            icon: None,
            children: Vec::new(),
            expanded: false,
            selectable: true,
        }
    }

    pub fn with_icon(self, icon: &str) -> (r: Self)
        ensures
            r == (FileNode { icon: r.icon, ..self }),
            r.icon matches Some(i) && i@ == icon@,
    {
        let mut n = self;
        n.icon = Some(owned(icon));
        n
    }

    pub fn with_children(self, children: Vec<FileNode>) -> (r: Self)
        ensures
            r == (FileNode { children, ..self }),
    {
        let mut n = self;
        n.children = children;
        n
    }

    pub fn expanded(self) -> (r: Self)
        ensures
            r == (FileNode { expanded: true, ..self }),
    {
        let mut n = self;
        n.expanded = true;
        n
    }

    pub fn add_child(&mut self, child: FileNode)
        ensures
            *final(self) == (FileNode { children: final(self).children, ..*old(self) }),
            final(self).children@ == old(self).children@.push(child),
    {
        self.children.push(child);
    }

    pub fn has_children(&self) -> (r: bool)
        ensures
            r == (self.children@.len() > 0),
    {
        !self.children.is_empty()
    }

    /// Create a folder node
    pub fn folder(id: &str, label: &str) -> (r: Self)
        ensures
            r.id@ == id@,
            r.label@ == label@,
            r.icon matches Some(i) && i@ == "📁"@,
            r.children@.len() == 0,
            !r.expanded,
            r.selectable,
    {
        Self::new(id, label).with_icon("📁")
    }

    /// Create a file node
    pub fn file(id: &str, label: &str) -> (r: Self)
        ensures
            r.id@ == id@,
            r.label@ == label@,
            r.icon matches Some(i) && i@ == "📄"@,
            r.children@.len() == 0,
            !r.expanded,
            r.selectable,
    {
        Self::new(id, label).with_icon("📄")
    }
}

// ---------------------------------------------------------------------------
// rows
// ---------------------------------------------------------------------------

/// The rows a node shows, top to bottom, as (id, depth): the node itself,
/// then, when it is expanded, the rows of its children one level deeper.
pub open spec fn rows_of(n: FileNode, depth: int) -> Seq<(Seq<char>, int)>
    decreases n, 1nat,
{
    seq![(n.id@, depth)] + if n.expanded {
        rows_of_all(n.children@, depth + 1)
    } else {
        Seq::empty()
    }
}

/// The rows a sequence of sibling nodes shows, in order.
pub open spec fn rows_of_all(s: Seq<FileNode>, depth: int) -> Seq<(Seq<char>, int)>
    decreases s, 0nat,
{
    if s.len() == 0 {
        Seq::empty()
    } else {
        rows_of(s[0], depth) + rows_of_all(s.skip(1), depth)
    }
}

/// How deep the deepest node of a sequence lies below it (1 for leaves).
pub open spec fn height_all(s: Seq<FileNode>) -> nat
    decreases s, 0nat,
{
    if s.len() == 0 {
        0
    } else {
        let h0 = 1 + height_all(s[0].children@);
        let hr = height_all(s.skip(1));
        if h0 >= hr {
            h0
        } else {
            hr
        }
    }
}

/// Where a row search over a sequence of siblings ended.
pub enum RowSearch {
    /// The row is the node with this id at this depth.
    Found(String, usize),
    /// The siblings show this many rows, all before the one sought.
    Passed(usize),
}

/// Finds row `target` (0 = first row) among the rows of `nodes`.
pub fn find_row(nodes: &Vec<FileNode>, target: usize, depth: usize) -> (r: RowSearch)
    requires
        depth + height_all(nodes@) <= usize::MAX,
    ensures
        target < rows_of_all(nodes@, depth as int).len() ==> (r matches RowSearch::Found(id, d)
            && (id@, d as int) == rows_of_all(nodes@, depth as int)[target as int]),
        target >= rows_of_all(nodes@, depth as int).len() ==> r == RowSearch::Passed(
            rows_of_all(nodes@, depth as int).len() as usize,
        ),
    decreases nodes@,
{
    let mut seen: usize = 0;
    let mut i: usize = 0;
    proof {
        assert(nodes@.take(0) =~= Seq::<FileNode>::empty());
        assert(nodes@.skip(0) =~= nodes@);
    }
    while i < nodes.len()
        invariant
            i <= nodes@.len(),
            depth + height_all(nodes@) <= usize::MAX,
            seen <= target,
            rows_of_all(nodes@, depth as int) == rows_of_all(nodes@.take(i as int), depth as int)
                + rows_of_all(nodes@.skip(i as int), depth as int),
            seen == rows_of_all(nodes@.take(i as int), depth as int).len(),
        decreases nodes@.len() - i,
    {
        let ghost before = rows_of_all(nodes@.take(i as int), depth as int);
        let ghost rest = nodes@.skip(i as int);
        proof {
            lemma_rows_split(nodes@, i as int, depth as int);
            lemma_height_element(nodes@, i as int);
            assert(rest[0] == nodes@[i as int]);
            assert(rest.skip(1) =~= nodes@.skip(i + 1));
        }
        let node = &nodes[i];
        if seen == target {
            return RowSearch::Found(node.id.clone(), depth);
        }
        seen = seen + 1;
        if node.expanded {
            match find_row(&node.children, target - seen, depth + 1) {
                RowSearch::Found(id, d) => {
                    return RowSearch::Found(id, d);
                },
                RowSearch::Passed(k) => {
                    seen = seen + k;
                },
            }
        }
        proof {
            assert(rows_of_all(nodes@.take(i + 1), depth as int) == before + rows_of(
                nodes@[i as int],
                depth as int,
            ));
        }
        i = i + 1;
    }
    proof {
        assert(nodes@.take(i as int) =~= nodes@);
        assert(nodes@.skip(i as int) =~= Seq::<FileNode>::empty());
    }
    RowSearch::Passed(seen)
}

/// Counts the rows of `nodes` (shown at `depth`): each node one row, and
/// an expanded node also the rows of its children.
fn count_rows_all(nodes: &Vec<FileNode>, Ghost(depth): Ghost<int>) -> (r: usize)
    requires
        rows_of_all(nodes@, depth).len() <= usize::MAX,
    ensures
        r == rows_of_all(nodes@, depth).len(),
    decreases nodes@,
{
    let mut n: usize = 0;
    let mut i: usize = 0;
    proof {
        assert(nodes@.take(0) =~= Seq::<FileNode>::empty());
        assert(nodes@.skip(0) =~= nodes@);
    }
    while i < nodes.len()
        invariant
            i <= nodes@.len(),
            rows_of_all(nodes@, depth).len() <= usize::MAX,
            rows_of_all(nodes@, depth) == rows_of_all(nodes@.take(i as int), depth) + rows_of_all(
                nodes@.skip(i as int),
                depth,
            ),
            n == rows_of_all(nodes@.take(i as int), depth).len(),
        decreases nodes@.len() - i,
    {
        proof {
            lemma_rows_split(nodes@, i as int, depth);
            assert(nodes@.skip(i as int).skip(1) =~= nodes@.skip(i + 1));
        }
        let node = &nodes[i];
        n = n + 1;
        if node.expanded {
            let k = count_rows_all(&node.children, Ghost(depth + 1));
            n = n + k;
        }
        i = i + 1;
    }
    proof {
        assert(nodes@.take(i as int) =~= nodes@);
        assert(nodes@.skip(i as int) =~= Seq::<FileNode>::empty());
    }
    n
}

/// The rows of siblings split at any point into the rows before and the
/// rows after.
pub proof fn lemma_rows_split(s: Seq<FileNode>, i: int, depth: int)
    requires
        0 <= i < s.len(),
    ensures
        rows_of_all(s.take(i + 1), depth) == rows_of_all(s.take(i), depth) + rows_of(s[i], depth),
        rows_of_all(s.skip(i), depth) == rows_of(s[i], depth) + rows_of_all(s.skip(i + 1), depth),
    decreases i,
{
    assert(s.skip(i).skip(1) =~= s.skip(i + 1));
    if i == 0 {
        assert(s.take(1).skip(1) =~= Seq::<FileNode>::empty());
        assert(s.take(0) =~= Seq::<FileNode>::empty());
        assert(rows_of_all(s.take(1), depth) =~= rows_of(s[0], depth));
    } else {
        lemma_rows_split(s.skip(1), i - 1, depth);
        assert(s.skip(1).take(i) =~= s.take(i + 1).skip(1));
        assert(s.skip(1).take(i - 1) =~= s.take(i).skip(1));
        assert(s.skip(1).skip(i - 1) =~= s.skip(i));
        assert(s.take(i + 1)[0] == s[0]);
        assert(s.take(i)[0] == s[0]);
        assert(s.skip(1)[i - 1] == s[i]);
        assert(rows_of_all(s.take(i + 1), depth) =~= rows_of(s[0], depth) + rows_of_all(
            s.take(i + 1).skip(1),
            depth,
        ));
        assert(rows_of_all(s.take(i), depth) =~= rows_of(s[0], depth) + rows_of_all(
            s.take(i).skip(1),
            depth,
        ));
    }
}

/// Every element's subtree is no deeper than the whole sequence allows.
pub proof fn lemma_height_element(s: Seq<FileNode>, i: int)
    requires
        0 <= i < s.len(),
    ensures
        1 + height_all(s[i].children@) <= height_all(s),
        height_all(s.skip(i + 1)) <= height_all(s),
    decreases i,
{
    if i > 0 {
        lemma_height_element(s.skip(1), i - 1);
        assert(s.skip(1)[i - 1] == s[i]);
        assert(s.skip(1).skip(i) =~= s.skip(i + 1));
    }
}

/// The rows of siblings are the rows of the first `i` of them followed by
/// the rows of the rest.
proof fn lemma_rows_concat(s: Seq<FileNode>, i: int, depth: int)
    requires
        0 <= i <= s.len(),
    ensures
        rows_of_all(s, depth) == rows_of_all(s.take(i), depth) + rows_of_all(s.skip(i), depth),
    decreases i,
{
    if i == 0 {
        assert(s.take(0) =~= Seq::<FileNode>::empty());
        assert(s.skip(0) =~= s);
        assert(rows_of_all(s, depth) =~= rows_of_all(s.take(0), depth) + rows_of_all(s.skip(0), depth));
    } else {
        lemma_rows_concat(s, i - 1, depth);
        lemma_rows_split(s, i - 1, depth);
        assert(rows_of_all(s, depth) =~= rows_of_all(s.take(i), depth) + rows_of_all(s.skip(i), depth));
    }
}

/// A node's rows begin with the node itself at its own depth, and every
/// later row (a row of a descendant) lies strictly deeper than the node.
pub proof fn lemma_rows_depths(n: FileNode, depth: int)
    ensures
        rows_of(n, depth).len() >= 1,
        rows_of(n, depth)[0] == (n.id@, depth),
        forall|k: int| 1 <= k < rows_of(n, depth).len() ==> #[trigger] rows_of(n, depth)[k].1 > depth,
    decreases n, 1nat,
{
    if n.expanded {
        lemma_rows_all_depths(n.children@, depth + 1);
        let c = rows_of_all(n.children@, depth + 1);
        assert forall|k: int| 1 <= k < rows_of(n, depth).len() implies #[trigger] rows_of(n, depth)[k].1
            > depth by {
            assert(rows_of(n, depth)[k] == c[k - 1]);
        }
    }
}

/// Every row a sequence of siblings shows lies at their depth or deeper.
pub proof fn lemma_rows_all_depths(s: Seq<FileNode>, depth: int)
    ensures
        forall|k: int| 0 <= k < rows_of_all(s, depth).len() ==> #[trigger] rows_of_all(s, depth)[k].1 >= depth,
    decreases s, 0nat,
{
    if s.len() > 0 {
        lemma_rows_depths(s[0], depth);
        lemma_rows_all_depths(s.skip(1), depth);
        let a = rows_of(s[0], depth);
        let b = rows_of_all(s.skip(1), depth);
        assert forall|k: int| 0 <= k < rows_of_all(s, depth).len() implies #[trigger] rows_of_all(s, depth)[k].1
            >= depth by {
            if k < a.len() {
                assert(rows_of_all(s, depth)[k] == a[k]);
            } else {
                assert(rows_of_all(s, depth)[k] == b[k - a.len()]);
            }
        }
    }
}

/// A collapsed node shows only its own row. Right below an expanded node
/// with children comes its first child, one level deeper; and each child's
/// own row, wherever it stands among the node's rows, is one level deeper
/// than the node.
pub proof fn lemma_child_rows_one_level_deeper(n: FileNode, depth: int)
    ensures
        !n.expanded ==> rows_of(n, depth) == seq![(n.id@, depth)],
        n.expanded && n.children@.len() > 0 ==> rows_of(n, depth).len() >= 2 && rows_of(n, depth)[1]
            == (n.children@[0].id@, depth + 1),
        n.expanded ==> forall|i: int| 0 <= i < n.children@.len() ==> rows_of(n, depth).contains(
            (#[trigger] n.children@[i].id@, depth + 1),
        ),
{
    if !n.expanded {
        assert(rows_of(n, depth) =~= seq![(n.id@, depth)]);
    } else {
        let cs = n.children@;
        let c = rows_of_all(cs, depth + 1);
        if cs.len() > 0 {
            lemma_rows_depths(cs[0], depth + 1);
            assert(c == rows_of(cs[0], depth + 1) + rows_of_all(cs.skip(1), depth + 1));
            assert(rows_of(n, depth)[1] == c[0]);
        }
        assert forall|i: int| 0 <= i < cs.len() implies rows_of(n, depth).contains(
            (#[trigger] cs[i].id@, depth + 1),
        ) by {
            lemma_rows_split(cs, i, depth + 1);
            lemma_rows_depths(cs[i], depth + 1);
            assert(cs.skip(0) =~= cs);
            lemma_rows_concat(cs, i, depth + 1);
            let before = rows_of_all(cs.take(i), depth + 1);
            let ri = rows_of(cs[i], depth + 1);
            assert(c == before + ri + rows_of_all(cs.skip(i + 1), depth + 1));
            assert(c[before.len() as int] == ri[0]);
            assert(rows_of(n, depth)[1 + before.len() as int] == c[before.len() as int]);
        }
    }
}

// ---------------------------------------------------------------------------
// toggling
// ---------------------------------------------------------------------------

/// Some node of the subtree rooted at `n` has the id.
pub open spec fn node_has_id(n: FileNode, id: Seq<char>) -> bool
    decreases n, 1nat,
{
    n.id@ == id || any_has_id(n.children@, id)
}

/// Some node of the given subtrees has the id.
pub open spec fn any_has_id(s: Seq<FileNode>, id: Seq<char>) -> bool
    decreases s, 0nat,
{
    s.len() > 0 && (node_has_id(s[0], id) || any_has_id(s.skip(1), id))
}

/// `n` is `o` with the first node carrying the id (in top-down,
/// parent-before-children order) flipped between expanded and collapsed.
pub open spec fn toggled_node(o: FileNode, n: FileNode, id: Seq<char>) -> bool
    decreases o, 1nat,
{
    if o.id@ == id {
        n == FileNode { expanded: !o.expanded, ..o }
    } else {
        n == FileNode { children: n.children, ..o } && toggled_all(o.children@, n.children@, id)
    }
}

/// `n` is the sibling sequence `o` with the first node carrying the id
/// toggled; nodes before it keep their fields and their subtrees keep
/// their shape and fields, nodes after it are untouched.
pub open spec fn toggled_all(o: Seq<FileNode>, n: Seq<FileNode>, id: Seq<char>) -> bool
    decreases o, 0nat,
{
    o.len() == n.len() && (o.len() == 0 || (toggled_node(o[0], n[0], id) && if node_has_id(
        o[0],
        id,
    ) {
        n.skip(1) == o.skip(1)
    } else {
        toggled_all(o.skip(1), n.skip(1), id)
    }))
}

/// Siblings in which every node is toggled in place and none carries the
/// id are toggled as a whole.
pub proof fn lemma_toggled_all_none(o: Seq<FileNode>, n: Seq<FileNode>, id: Seq<char>)
    requires
        o.len() == n.len(),
        forall|j: int| 0 <= j < o.len() ==> !node_has_id(#[trigger] o[j], id),
        forall|j: int| 0 <= j < o.len() ==> toggled_node(#[trigger] o[j], n[j], id),
    ensures
        toggled_all(o, n, id),
    decreases o.len(),
{
    if o.len() > 0 {
        assert forall|j: int| 0 <= j < o.skip(1).len() implies !node_has_id(#[trigger] o.skip(1)[j], id) by {
            assert(o.skip(1)[j] == o[j + 1]);
        }
        assert forall|j: int| 0 <= j < o.skip(1).len() implies toggled_node(#[trigger] o.skip(1)[j], n.skip(1)[j], id) by {
            assert(o.skip(1)[j] == o[j + 1]);
            assert(n.skip(1)[j] == n[j + 1]);
        }
        assert(!node_has_id(o[0], id));
        assert(toggled_node(o[0], n[0], id));
        lemma_toggled_all_none(o.skip(1), n.skip(1), id);
    }
}

/// Toggling in siblings: nodes without the id toggled in place, then the
/// node that has it, toggled, then the untouched rest.
pub proof fn lemma_toggled_all_at(o: Seq<FileNode>, n: Seq<FileNode>, i: int, id: Seq<char>)
    requires
        0 <= i < o.len(),
        o.len() == n.len(),
        forall|j: int| 0 <= j < i ==> !node_has_id(#[trigger] o[j], id),
        forall|j: int| 0 <= j < i ==> toggled_node(#[trigger] o[j], n[j], id),
        node_has_id(o[i], id),
        toggled_node(o[i], n[i], id),
        n.skip(i + 1) == o.skip(i + 1),
    ensures
        toggled_all(o, n, id),
    decreases i,
{
    if i == 0 {
        assert(n.skip(1) =~= o.skip(1));
    } else {
        assert forall|j: int| 0 <= j < i - 1 implies !node_has_id(#[trigger] o.skip(1)[j], id) by {
            assert(o.skip(1)[j] == o[j + 1]);
        }
        assert forall|j: int| 0 <= j < i - 1 implies toggled_node(#[trigger] o.skip(1)[j], n.skip(1)[j], id) by {
            assert(o.skip(1)[j] == o[j + 1]);
            assert(n.skip(1)[j] == n[j + 1]);
        }
        assert(n.skip(1).skip(i) =~= n.skip(i + 1));
        assert(o.skip(1).skip(i) =~= o.skip(i + 1));
        assert(o.skip(1)[i - 1] == o[i]);
        assert(n.skip(1)[i - 1] == n[i]);
        assert(!node_has_id(o[0], id));
        assert(toggled_node(o[0], n[0], id));
        lemma_toggled_all_at(o.skip(1), n.skip(1), i - 1, id);
    }
}

/// Splitting `any_has_id` at an element.
pub proof fn lemma_has_id_split(s: Seq<FileNode>, i: int, id: Seq<char>)
    requires
        0 <= i < s.len(),
    ensures
        any_has_id(s.take(i + 1), id) == (any_has_id(s.take(i), id) || node_has_id(s[i], id)),
        any_has_id(s, id) == (any_has_id(s.take(i), id) || any_has_id(s.skip(i), id)),
    decreases i,
{
    if i == 0 {
        assert(s.take(1).skip(1) =~= Seq::<FileNode>::empty());
        assert(s.take(0) =~= Seq::<FileNode>::empty());
        assert(s.skip(0) =~= s);
    } else {
        lemma_has_id_split(s.skip(1), i - 1, id);
        assert(s.skip(1).take(i) =~= s.take(i + 1).skip(1));
        assert(s.skip(1).take(i - 1) =~= s.take(i).skip(1));
        assert(s.skip(1).skip(i - 1) =~= s.skip(i));
        assert(s.take(i + 1)[0] == s[0]);
        assert(s.take(i)[0] == s[0]);
        assert(s.skip(1)[i - 1] == s[i]);
    }
}

/// Toggles the first node (top-down) with the given id in a subtree.
pub fn toggle_in_node(node: &mut FileNode, id: &str) -> (found: bool)
    ensures
        found == node_has_id(*old(node), id@),
        toggled_node(*old(node), *final(node), id@),
    decreases *old(node), 1nat,
{
    if str_eq(node.id.as_str(), id) {
        node.expanded = !node.expanded;
        return true;
    }
    let found = toggle_in_all(&mut node.children, id);
    found
}

/// Toggles the first node (top-down) with the given id among siblings
/// and their subtrees.
pub fn toggle_in_all(nodes: &mut Vec<FileNode>, id: &str) -> (found: bool)
    ensures
        found == any_has_id(old(nodes)@, id@),
        toggled_all(old(nodes)@, final(nodes)@, id@),
    decreases old(nodes)@, 0nat,
{
    let ghost o = nodes@;
    let mut i: usize = 0;
    while i < nodes.len()
        invariant
            o == old(nodes)@,
            nodes@.len() == o.len(),
            nodes@.skip(i as int) == o.skip(i as int),
            i <= o.len(),
            !any_has_id(o.take(i as int), id@),
            forall|j: int| 0 <= j < i ==> !node_has_id(#[trigger] o[j], id@),
            forall|j: int| 0 <= j < i ==> toggled_node(#[trigger] o[j], nodes@[j], id@),
        decreases o.len() - i,
    {
        proof {
            lemma_has_id_split(o, i as int, id@);
            assert(o.skip(i as int)[0] == o[i as int]);
            assert(nodes@.skip(i as int)[0] == nodes@[i as int]);
            assert(nodes@[i as int] == o[i as int]);
            assert(decreases_to!(o => nodes@[i as int]));
            assert(decreases_to!(o => nodes[i as int]));
        }
        let ghost before = nodes@;
        let found = toggle_in_node(&mut nodes[i], id);
        proof {
            assert(found == node_has_id(o[i as int], id@));
            assert(nodes@ == before.update(i as int, nodes@[i as int]));
            assert(nodes@.skip(i + 1) =~= before.skip(i + 1));
            assert(before.skip(i as int).skip(1) =~= before.skip(i + 1));
            assert(o.skip(i as int).skip(1) =~= o.skip(i + 1));
        }
        if found {
            proof {
                lemma_toggled_all_at(o, nodes@, i as int, id@);
                assert(any_has_id(o.skip(i as int), id@));
            }
            return true;
        }
        i = i + 1;
    }
    proof {
        assert(o.take(i as int) =~= o);
        lemma_toggled_all_none(o, nodes@, id@);
    }
    false
}


// ---------------------------------------------------------------------------
// toggling twice
// ---------------------------------------------------------------------------

/// Two subtrees agree in every field of every node.
pub open spec fn same_node(a: FileNode, b: FileNode) -> bool
    decreases a, 1nat,
{
    b == FileNode { children: b.children, ..a } && same_all(a.children@, b.children@)
}

/// Two sibling sequences agree node by node.
pub open spec fn same_all(a: Seq<FileNode>, b: Seq<FileNode>) -> bool
    decreases a, 0nat,
{
    a.len() == b.len() && (a.len() == 0 || (same_node(a[0], b[0]) && same_all(
        a.skip(1),
        b.skip(1),
    )))
}

/// Every subtree agrees with itself.
pub proof fn lemma_same_node_refl(a: FileNode)
    ensures
        same_node(a, a),
    decreases a, 1nat,
{
    lemma_same_all_refl(a.children@);
}

/// Every sibling sequence agrees with itself.
pub proof fn lemma_same_all_refl(a: Seq<FileNode>)
    ensures
        same_all(a, a),
    decreases a, 0nat,
{
    if a.len() > 0 {
        lemma_same_node_refl(a[0]);
        lemma_same_all_refl(a.skip(1));
    }
}

/// Toggling keeps every id, so whether a subtree has the id is kept.
pub proof fn lemma_toggle_keeps_ids_node(o: FileNode, n: FileNode, id: Seq<char>)
    requires
        toggled_node(o, n, id),
    ensures
        node_has_id(n, id) == node_has_id(o, id),
    decreases o, 1nat,
{
    if o.id@ != id {
        lemma_toggle_keeps_ids_all(o.children@, n.children@, id);
    }
}

/// Toggling keeps every id among siblings too.
pub proof fn lemma_toggle_keeps_ids_all(o: Seq<FileNode>, n: Seq<FileNode>, id: Seq<char>)
    requires
        toggled_all(o, n, id),
    ensures
        any_has_id(n, id) == any_has_id(o, id),
    decreases o, 0nat,
{
    if o.len() > 0 {
        lemma_toggle_keeps_ids_node(o[0], n[0], id);
        if !node_has_id(o[0], id) {
            lemma_toggle_keeps_ids_all(o.skip(1), n.skip(1), id);
        }
    }
}

/// Toggling a subtree twice for the same id gives it back.
pub proof fn lemma_toggle_twice_node(a: FileNode, b: FileNode, c: FileNode, id: Seq<char>)
    requires
        toggled_node(a, b, id),
        toggled_node(b, c, id),
    ensures
        same_node(a, c),
    decreases a, 1nat,
{
    if a.id@ == id {
        assert(c == a);
        lemma_same_node_refl(a);
    } else {
        lemma_toggle_twice_all(a.children@, b.children@, c.children@, id);
    }
}

/// Toggling the first node with an id twice gives back the same tree:
/// every node keeps its fields and its place.
pub proof fn lemma_toggle_twice_all(a: Seq<FileNode>, b: Seq<FileNode>, c: Seq<FileNode>, id: Seq<char>)
    requires
        toggled_all(a, b, id),
        toggled_all(b, c, id),
    ensures
        same_all(a, c),
    decreases a, 0nat,
{
    if a.len() > 0 {
        lemma_toggle_keeps_ids_node(a[0], b[0], id);
        lemma_toggle_twice_node(a[0], b[0], c[0], id);
        if node_has_id(a[0], id) {
            assert(c.skip(1) == a.skip(1));
            lemma_same_all_refl(a.skip(1));
        } else {
            lemma_toggle_twice_all(a.skip(1), b.skip(1), c.skip(1), id);
        }
    }
}

// ---------------------------------------------------------------------------
// the tree widget state
// ---------------------------------------------------------------------------

/// Tree view widget state
pub struct FileTree {
    pub nodes: Vec<FileNode>,
    pub selected_id: Option<String>,
    pub hovered_id: Option<String>,
}

impl FileTree {
    pub fn new() -> (r: Self)
        ensures
            r.nodes@.len() == 0,
            r.selected_id is None,
            r.hovered_id is None,
    {
        FileTree { nodes: Vec::new(), selected_id: None, hovered_id: None }
    }

    /// Add a root node
    pub fn add_node(&mut self, node: FileNode)
        ensures
            final(self).nodes@ == old(self).nodes@.push(node),
            final(self).selected_id == old(self).selected_id,
            final(self).hovered_id == old(self).hovered_id,
    {
        self.nodes.push(node);
    }

    /// Select by ID
    pub fn select(&mut self, id: &str)
        ensures
            final(self).nodes == old(self).nodes,
            final(self).hovered_id == old(self).hovered_id,
            final(self).selected_id matches Some(s) && s@ == id@,
    {
        self.selected_id = Some(owned(id));
    }

    /// Toggle expand/collapse of the first node (top-down) with the id.
    pub fn toggle(&mut self, id: &str)
        ensures
            toggled_all(old(self).nodes@, final(self).nodes@, id@),
            final(self).selected_id == old(self).selected_id,
            final(self).hovered_id == old(self).hovered_id,
    {
        let _ = toggle_in_all(&mut self.nodes, id);
    }

    /// Count visible rows
    pub fn visible_rows(&self) -> (r: usize)
        requires
            rows_of_all(self.nodes@, 0).len() <= usize::MAX,
        ensures
            r == rows_of_all(self.nodes@, 0).len(),
    {
        count_rows_all(&self.nodes, Ghost(0))
    }

    /// The node shown at row `row` (0 = top row of the scrolled content)
    /// and its depth.
    pub fn node_at_row(&self, row: usize) -> (r: Option<(String, usize)>)
        requires
            height_all(self.nodes@) <= usize::MAX,
        ensures
            row < rows_of_all(self.nodes@, 0).len() ==> (r matches Some((id, d)) && (id@, d as int)
                == rows_of_all(self.nodes@, 0)[row as int]),
            row >= rows_of_all(self.nodes@, 0).len() ==> r is None,
    {
        match find_row(&self.nodes, row, 0) {
            RowSearch::Found(id, d) => Some((id, d)),
            RowSearch::Passed(_) => None,
        }
    }

    /// The pointer is over row `row` of the scrolled content, or outside
    /// the tree: the hovered node becomes the node of that row, if any.
    pub fn point_at_row(&mut self, row: Option<usize>)
        requires
            height_all(old(self).nodes@) <= usize::MAX,
        ensures
            final(self).nodes == old(self).nodes,
            final(self).selected_id == old(self).selected_id,
            match row {
                Some(k) => if k < rows_of_all(old(self).nodes@, 0).len() {
                    final(self).hovered_id matches Some(h) && h@ == rows_of_all(
                        old(self).nodes@,
                        0,
                    )[k as int].0
                } else {
                    final(self).hovered_id is None
                },
                None => final(self).hovered_id is None,
            },
    {
        self.hovered_id = None;
        if let Some(k) = row {
            if let Some((id, _)) = self.node_at_row(k) {
                self.hovered_id = Some(id);
            }
        }
    }

    /// A left click: toggles and selects the hovered node; returns its id
    /// (what the select callback receives), or `None` when nothing is
    /// hovered.
    pub fn click(&mut self) -> (r: Option<String>)
        ensures
            final(self).hovered_id == old(self).hovered_id,
            match old(self).hovered_id {
                Some(h) => {
                    &&& r == Some(h)
                    &&& final(self).selected_id == Some(h)
                    &&& toggled_all(old(self).nodes@, final(self).nodes@, h@)
                },
                None => r is None && *final(self) == *old(self),
            },
    {
        match &self.hovered_id {
            Some(h) => {
                let id = h.clone();
                self.toggle(id.as_str());
                self.selected_id = Some(id.clone());
                Some(id)
            },
            None => None,
        }
    }

    /// Create sample file tree
    pub fn sample_file_tree() -> (r: Self)
        ensures
            r.nodes@.len() == 3,
            r.nodes@[0].id@ == "src"@ && r.nodes@[0].expanded,
            r.nodes@[0].children@.len() == 3,
            r.nodes@[0].children@[0].id@ == "widgets"@,
            !r.nodes@[0].children@[0].expanded,
            r.nodes@[0].children@[0].children@.len() == 3,
            r.nodes@[0].children@[0].children@[0].id@ == "mod"@,
            r.nodes@[0].children@[0].children@[1].id@ == "panel"@,
            r.nodes@[0].children@[0].children@[2].id@ == "button"@,
            r.nodes@[0].children@[1].id@ == "lib"@,
            r.nodes@[0].children@[2].id@ == "main"@,
            r.nodes@[1].id@ == "cargo"@,
            r.nodes@[2].id@ == "readme"@,
            r.selected_id is None,
            r.hovered_id is None,
    {
        let mut tree = Self::new();
        let mut widgets: Vec<FileNode> = Vec::new();
        widgets.push(FileNode::file("mod", "mod.rs"));
        widgets.push(FileNode::file("panel", "panel.rs"));
        widgets.push(FileNode::file("button", "button.rs"));
        let mut src: Vec<FileNode> = Vec::new();
        src.push(FileNode::folder("widgets", "widgets").with_children(widgets));
        src.push(FileNode::file("lib", "lib.rs"));
        src.push(FileNode::file("main", "main.rs"));
        tree.add_node(FileNode::folder("src", "src").expanded().with_children(src));
        tree.add_node(FileNode::file("cargo", "Cargo.toml"));
        tree.add_node(FileNode::file("readme", "README.md"));
        tree
    }
}

impl Default for FileTree {
    fn default() -> (r: Self)
        ensures
            r.nodes@.len() == 0,
            r.selected_id is None,
            r.hovered_id is None,
    {
        Self::new()
    }
}

} // verus!
