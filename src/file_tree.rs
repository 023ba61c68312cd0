//! The virtual tree of the paths inside an archive, and its rendering as text with
//! box-drawing connectors.
use vstd::prelude::*;
use vstd::slice::slice_subrange;
use vstd::string::{axiom_spec_iter, next_postcondition, StringExecFns};

verus! {

broadcast use axiom_spec_iter, next_postcondition;

/// Whether an entry of this name is hidden: its name starts with a dot.
pub open spec fn hidden_name(name: Seq<char>) -> bool {
    name.len() > 0 && name[0] == '.'
}

/// Whether `p` is a prefix of `q`.
pub open spec fn is_prefix_of<T>(p: Seq<T>, q: Seq<T>) -> bool {
    p.len() <= q.len() && q.subrange(0, p.len() as int) == p
}

/// The component names of a path, as text.
pub open spec fn path_view(p: Seq<String>) -> Seq<Seq<char>> {
    p.map_values(|s: String| s@)
}

/// Tells whether an entry name is hidden.
pub fn is_hidden_name(name: &str) -> (r: bool)
    ensures
        r == hidden_name(name@),
{
    let mut chars = name.chars();
    match chars.next() {
        Some(c) => c == '.',
        None => false,
    }
}

/// One node of the tree: a named entry with the entries below it, in insertion order.
pub struct FileTree {
    name: String,
    hidden: bool,
    children: Vec<FileTree>,
}

impl FileTree {
    pub closed spec fn name(&self) -> Seq<char> {
        self.name@
    }

    pub closed spec fn hidden(&self) -> bool {
        self.hidden
    }

    pub closed spec fn children(&self) -> Seq<FileTree> {
        self.children@
    }

    /// Below the root, every node is hidden exactly when its name is, and no two children of
    /// a node share a name.
    pub closed spec fn wf(&self) -> bool
        decreases self,
    {
        &&& forall|i: int|
            #![trigger self.children@[i]]
            0 <= i < self.children@.len() ==> {
                &&& self.children@[i].hidden == hidden_name(self.children@[i].name@)
                &&& self.children@[i].wf()
            }
        &&& forall|i: int, j: int|
            0 <= i < j < self.children@.len() ==> #[trigger] self.children@[i].name@
                != #[trigger] self.children@[j].name@
    }

    /// Whether the path `p` leads from this node down to some node of the tree.
    pub closed spec fn contains_path(&self, p: Seq<Seq<char>>) -> bool
        decreases self, p.len(),
    {
        if p.len() == 0 {
            true
        } else {
            exists|i: int|
                0 <= i < self.children@.len() && #[trigger] self.children@[i].name@ == p[0]
                    && self.children@[i].contains_path(p.drop_first())
        }
    }

    /// A tree with one node and nothing below it.
    pub fn new(name: String, hidden: bool) -> (r: Self)
        ensures
            r.name() == name@,
            r.hidden() == hidden,
            r.children() == Seq::<FileTree>::empty(),
            r.wf(),
    {
        FileTree { name, hidden, children: Vec::new() }
    }

    /// Adds the path whose components are `new`, creating the nodes it is missing.
    pub fn add_path(&mut self, new: &[String])
        requires
            old(self).wf(),
        ensures
            final(self).wf(),
            final(self).name() == old(self).name(),
            final(self).hidden() == old(self).hidden(),
            final(self).contains_path(path_view(new@)),
            forall|q: Seq<Seq<char>>| #[trigger]
                old(self).contains_path(q) ==> final(self).contains_path(q),
            forall|q: Seq<Seq<char>>| #[trigger]
                final(self).contains_path(q) ==> old(self).contains_path(q) || is_prefix_of(
                    q,
                    path_view(new@),
                ),
            keeps_child_order(*old(self), *final(self)),
        decreases new@.len(),
    {
        if new.len() == 0 {
            proof {
                assert forall|q: Seq<Seq<char>>| #[trigger]
                    self.contains_path(q) implies old(self).contains_path(q) || is_prefix_of(
                    q,
                    path_view(new@),
                ) by {}
            }
            return ;
        }
        let first = &new[0];
        let mut i: usize = 0;
        while i < self.children.len() && self.children[i].name != *first
            invariant
                self == old(self),
                0 <= i <= self.children@.len(),
                forall|j: int| 0 <= j < i ==> #[trigger] self.children@[j].name@ != first@,
            decreases self.children@.len() - i,
        {
            i += 1;
        }
        let rest = slice_subrange(new, 1, new.len());
        let ghost p = path_view(new@);
        proof {
            assert(path_view(rest@) =~= p.drop_first());
        }
        if i < self.children.len() {
            if new.len() > 1 {
                let ghost before = self.children@;
                let mut child = self.children.remove(i);
                child.add_path(rest);
                self.children.insert(i, child);
                proof {
                    assert(self.children@ =~= before.update(i as int, child));
                    lemma_replace_child(*old(self), *self, i as int, p);
                }
            } else {
                proof {
                    assert(self.children@[i as int].contains_path(p.drop_first()));
                    assert forall|q: Seq<Seq<char>>| #[trigger]
                        self.contains_path(q) implies old(self).contains_path(q) || is_prefix_of(
                        q,
                        p,
                    ) by {}
                }
            }
        } else {
            let mut node = FileTree::new(first.clone(), is_hidden_name(first.as_str()));
            let ghost fresh = node;
            node.add_path(rest);
            self.children.push(node);
            proof {
                lemma_push_child(*old(self), *self, fresh, p);
            }
        }
    }

    /// Whether no child after the `i`-th is drawn.
    fn none_shown_after(&self, i: usize, show_hidden: bool) -> (r: bool)
        requires
            i < self.children@.len(),
        ensures
            r == last_shown(*self, i as int, show_hidden),
    {
        let len = self.children.len();
        let mut j: usize = i + 1;
        while j < len
            invariant
                len == self.children@.len(),
                i < j <= len,
                forall|k: int| i < k < j ==> !#[trigger] shown_child(*self, k, show_hidden),
            decreases len - j,
        {
            if show_hidden || !self.children[j].hidden {
                proof {
                    assert(shown_child(*self, j as int, show_hidden));
                }
                return false;
            }
            j += 1;
        }
        true
    }

    /// The lines that draw this tree, top node first.
    pub fn print(&self, show_hidden: bool) -> (r: Vec<String>)
        ensures
            lines_view(r@) == render(*self, Seq::empty(), true, true, show_hidden),
    {
        let mut out: Vec<String> = Vec::new();
        self.print_int(String::new(), true, true, show_hidden, &mut out);
        proof {
            assert(lines_view(out@) =~= render(*self, Seq::empty(), true, true, show_hidden));
        }
        out
    }

    fn print_int(
        &self,
        prefix: String,
        is_last: bool,
        is_top: bool,
        show_hidden: bool,
        out: &mut Vec<String>,
    )
        ensures
            lines_view(final(out)@) == lines_view(old(out)@) + render(
                *self,
                prefix@,
                is_last,
                is_top,
                show_hidden,
            ),
        decreases self,
    {
        let line = if is_top {
            self.name.clone()
        } else {
            let mut l = prefix.clone();
            l.append(connector_text(is_last));
            l.append(self.name.as_str());
            l
        };
        out.push(line);
        let below = if is_top {
            String::new()
        } else {
            let mut b = prefix.clone();
            b.append(indent_text(is_last));
            b
        };
        let ghost start = lines_view(old(out)@);
        let ghost target = start + render(*self, prefix@, is_last, is_top, show_hidden);
        proof {
            assert(lines_view(out@) =~= start + seq![line@]);
            assert(target =~= lines_view(out@) + render_children(*self, below@, 0, show_hidden));
        }
        let len = self.children.len();
        let mut i: usize = 0;
        while i < len
            invariant
                len == self.children@.len(),
                0 <= i <= len,
                lines_view(out@) + render_children(*self, below@, i as int, show_hidden) == target,
            decreases len - i,
        {
            let child = &self.children[i];
            let ghost before = lines_view(out@);
            if show_hidden || !child.hidden {
                proof {
                    assert(decreases_to!(self => self.children));
                    assert(decreases_to!(self.children => self.children@));
                    assert(decreases_to!(self.children@ => self.children@[i as int]));
                }
                let is_last = self.none_shown_after(i, show_hidden);
                child.print_int(below.clone(), is_last, false, show_hidden, out);
            }
            proof {
                assert(lines_view(out@) =~= before + child_lines(*self, below@, i as int, show_hidden));
                assert(before + render_children(*self, below@, i as int, show_hidden) =~= lines_view(
                    out@,
                ) + render_children(*self, below@, i + 1, show_hidden));
            }
            i += 1;
        }
        proof {
            assert(render_children(*self, below@, i as int, show_hidden) =~= Seq::empty());
            assert(lines_view(out@) =~= target);
        }
    }
}

/// `t` is a tree rooted at a visible node named `root` whose paths are those of `paths` and
/// their prefixes.
pub open spec fn holds_paths(t: FileTree, root: Seq<char>, paths: Seq<Vec<String>>) -> bool {
    &&& t.wf()
    &&& t.name() == root
    &&& !t.hidden()
    &&& forall|k: int| 0 <= k < paths.len() ==> t.contains_path(path_view(#[trigger] paths[k]@))
    &&& forall|q: Seq<Seq<char>>| #[trigger]
        t.contains_path(q) ==> q.len() == 0 || exists|k: int|
            0 <= k < paths.len() && is_prefix_of(q, path_view(#[trigger] paths[k]@))
}

/// The lines that draw the tree of the given paths under a root of the given name.
pub fn tree(root: String, paths: &Vec<Vec<String>>, show_hidden: bool) -> (r: Vec<String>)
    ensures
        exists|t: FileTree|
            holds_paths(t, root@, paths@) && lines_view(r@) == render(
                t,
                Seq::empty(),
                true,
                true,
                show_hidden,
            ),
{
    let t = build_tree(root, paths);
    t.print(show_hidden)
}

/// Builds the tree of the given paths under a root of the given name.
pub fn build_tree(root: String, paths: &Vec<Vec<String>>) -> (r: FileTree)
    ensures
        holds_paths(r, root@, paths@),
{
    let mut tree = FileTree::new(root, false);
    let mut k: usize = 0;
    while k < paths.len()
        invariant
            0 <= k <= paths@.len(),
            tree.wf(),
            tree.name() == root@,
            !tree.hidden(),
            forall|j: int| 0 <= j < k ==> tree.contains_path(path_view(#[trigger] paths@[j]@)),
            forall|q: Seq<Seq<char>>| #[trigger]
                tree.contains_path(q) ==> q.len() == 0 || exists|j: int|
                    0 <= j < k && is_prefix_of(q, path_view(#[trigger] paths@[j]@)),
        decreases paths@.len() - k,
    {
        let ghost before = tree;
        tree.add_path(paths[k].as_slice());
        proof {
            assert forall|q: Seq<Seq<char>>| #[trigger] tree.contains_path(q) implies q.len() == 0
                || exists|j: int|
                0 <= j < k + 1 && is_prefix_of(q, path_view(#[trigger] paths@[j]@)) by {
                if !before.contains_path(q) {
                    assert(is_prefix_of(q, path_view(paths@[k as int]@)));
                }
            }
        }
        k += 1;
    }
    tree
}

/// Whether the `i`-th child of `t` is drawn.
pub open spec fn shown_child(t: FileTree, i: int, show_hidden: bool) -> bool {
    show_hidden || !t.children()[i].hidden()
}

/// Whether no child after the `i`-th is drawn, so that it takes the closing connector.
pub open spec fn last_shown(t: FileTree, i: int, show_hidden: bool) -> bool {
    forall|j: int| i < j < t.children().len() ==> !#[trigger] shown_child(t, j, show_hidden)
}

/// With hidden entries suppressed, a hidden child contributes no line; otherwise a child's
/// first line is its indentation, a connector and its name.
pub proof fn law_hidden_entries(t: FileTree, prefix: Seq<char>, i: int, show_hidden: bool)
    requires
        t.wf(),
        0 <= i < t.children().len(),
    ensures
        !show_hidden && hidden_name(t.children()[i].name()) ==> child_lines(
            t,
            prefix,
            i,
            show_hidden,
        ) == Seq::<Seq<char>>::empty(),
        show_hidden || !hidden_name(t.children()[i].name()) ==> {
            &&& child_lines(t, prefix, i, show_hidden).len() > 0
            &&& child_lines(t, prefix, i, show_hidden)[0] == prefix + connector(
                last_shown(t, i, show_hidden),
            ) + t.children()[i].name()
        },
{
    let c = t.children@[i];
    assert(c.hidden == hidden_name(c.name@));
}

/// The connector drawn before a node's name, as text.
fn connector_text(is_last: bool) -> (r: &'static str)
    ensures
        r@ == connector(is_last),
{
    proof {
        reveal_strlit("\u{2514}\u{2500}\u{2500} ");
        reveal_strlit("\u{251c}\u{2500}\u{2500} ");
    }
    if is_last {
        "\u{2514}\u{2500}\u{2500} "
    } else {
        "\u{251c}\u{2500}\u{2500} "
    }
}

/// The indentation below a node, as text.
fn indent_text(is_last: bool) -> (r: &'static str)
    ensures
        r@ == indent(is_last),
{
    proof {
        reveal_strlit("    ");
        reveal_strlit("\u{2502}   ");
    }
    if is_last {
        "    "
    } else {
        "\u{2502}   "
    }
}

/// `after` has the children of `before`, under the same names and in the same places,
/// followed by at most one new child.
pub open spec fn keeps_child_order(before: FileTree, after: FileTree) -> bool {
    &&& before.children().len() <= after.children().len() <= before.children().len() + 1
    &&& forall|i: int|
        0 <= i < before.children().len() ==> (#[trigger] after.children()[i]).name()
            == before.children()[i].name()
}

/// The connector drawn before a node's name.
pub open spec fn connector(is_last: bool) -> Seq<char> {
    if is_last {
        seq!['\u{2514}', '\u{2500}', '\u{2500}', ' ']
    } else {
        seq!['\u{251c}', '\u{2500}', '\u{2500}', ' ']
    }
}

/// What the lines below a node are indented with, after that node's own indentation.
pub open spec fn indent(is_last: bool) -> Seq<char> {
    if is_last {
        seq![' ', ' ', ' ', ' ']
    } else {
        seq!['\u{2502}', ' ', ' ', ' ']
    }
}

/// The text of each line.
pub open spec fn lines_view(v: Seq<String>) -> Seq<Seq<char>> {
    v.map_values(|s: String| s@)
}

/// The lines that draw `t` and, depth first, the nodes below it: the top node by its name
/// alone, each other node by its indentation, a connector and its name. A hidden node is
/// left out, with all below it, unless `show_hidden` holds.
pub closed spec fn render(
    t: FileTree,
    prefix: Seq<char>,
    is_last: bool,
    is_top: bool,
    show_hidden: bool,
) -> Seq<Seq<char>>
    decreases t, 1int, 0int,
{
    let line = if is_top {
        t.name@
    } else {
        prefix + connector(is_last) + t.name@
    };
    let below = if is_top {
        Seq::empty()
    } else {
        prefix + indent(is_last)
    };
    seq![line] + render_children(t, below, 0, show_hidden)
}

/// The lines that draw the children of `t` from the `i`-th on.
pub closed spec fn render_children(t: FileTree, prefix: Seq<char>, i: int, show_hidden: bool) -> Seq<
    Seq<char>,
>
    decreases t, 0int, t.children().len() - i,
{
    if i < 0 || i >= t.children@.len() {
        Seq::empty()
    } else {
        child_lines(t, prefix, i, show_hidden) + render_children(t, prefix, i + 1, show_hidden)
    }
}

/// The lines that the `i`-th child of `t` contributes.
pub closed spec fn child_lines(t: FileTree, prefix: Seq<char>, i: int, show_hidden: bool) -> Seq<
    Seq<char>,
>
    decreases t, 0int, 0int,
{
    if 0 <= i < t.children@.len() {
        let c = t.children@[i];
        if !show_hidden && c.hidden {
            Seq::empty()
        } else {
            render(c, prefix, last_shown(t, i, show_hidden), false, show_hidden)
        }
    } else {
        Seq::empty()
    }
}

/// A node's lines: its own line (its bare name at the top, else its indentation, connector
/// and name), then the lines of its children in order, indented one step further.
pub proof fn lemma_render_unfold(
    t: FileTree,
    prefix: Seq<char>,
    is_last: bool,
    is_top: bool,
    show_hidden: bool,
)
    ensures
        render(t, prefix, is_last, is_top, show_hidden) == seq![
            if is_top {
                t.name()
            } else {
                prefix + connector(is_last) + t.name()
            },
        ] + render_children(
            t,
            if is_top {
                Seq::empty()
            } else {
                prefix + indent(is_last)
            },
            0,
            show_hidden,
        ),
{
}

/// The children's lines from the `i`-th on: the `i`-th child's lines, then those of the
/// children after it; nothing past the last child.
pub proof fn lemma_render_children_unfold(t: FileTree, prefix: Seq<char>, i: int, show_hidden: bool)
    ensures
        render_children(t, prefix, i, show_hidden) == if 0 <= i < t.children().len() {
            child_lines(t, prefix, i, show_hidden) + render_children(t, prefix, i + 1, show_hidden)
        } else {
            Seq::empty()
        },
{
}

/// The lines of the `i`-th child: none when it is hidden and hidden entries are suppressed,
/// else its own rendering, closed off when no later child is drawn.
pub proof fn lemma_child_lines_unfold(t: FileTree, prefix: Seq<char>, i: int, show_hidden: bool)
    requires
        0 <= i < t.children().len(),
    ensures
        child_lines(t, prefix, i, show_hidden) == if !show_hidden && t.children()[i].hidden() {
            Seq::empty()
        } else {
            render(t.children()[i], prefix, last_shown(t, i, show_hidden), false, show_hidden)
        },
{
}

/// Below a well-formed node, each child is well formed and hidden exactly when its name
/// starts with a dot.
pub proof fn lemma_child_wf(t: FileTree, i: int)
    requires
        t.wf(),
        0 <= i < t.children().len(),
    ensures
        t.children()[i].wf(),
        t.children()[i].hidden() == hidden_name(t.children()[i].name()),
{
}

/// The number of nodes in a tree, and in the part of it shown when hidden entries are
/// suppressed.
pub closed spec fn node_count(t: FileTree, show_hidden: bool) -> nat
    decreases t, 1int,
{
    1 + children_count(t, 0, show_hidden)
}

/// The nodes below the children of `t` from the `i`-th on.
pub closed spec fn children_count(t: FileTree, i: int, show_hidden: bool) -> nat
    decreases t, 0int, t.children().len() - i,
{
    if i < 0 || i >= t.children@.len() {
        0
    } else {
        let c = t.children@[i];
        (if !show_hidden && c.hidden {
            0
        } else {
            node_count(c, show_hidden)
        }) + children_count(t, i + 1, show_hidden)
    }
}

/// One line is drawn for each node shown: every node when hidden entries are shown, and
/// every node outside the hidden subtrees otherwise.
pub proof fn lemma_one_line_per_node(
    t: FileTree,
    prefix: Seq<char>,
    is_last: bool,
    is_top: bool,
    show_hidden: bool,
)
    ensures
        render(t, prefix, is_last, is_top, show_hidden).len() == node_count(t, show_hidden),
    decreases t, 1int, 0int,
{
    let below = if is_top {
        Seq::empty()
    } else {
        prefix + indent(is_last)
    };
    lemma_children_lines(t, below, 0, show_hidden);
}

proof fn lemma_children_lines(t: FileTree, prefix: Seq<char>, i: int, show_hidden: bool)
    ensures
        render_children(t, prefix, i, show_hidden).len() == children_count(t, i, show_hidden),
    decreases t, 0int, t.children().len() - i,
{
    if 0 <= i < t.children@.len() {
        let c = t.children@[i];
        assert(decreases_to!(t => t.children));
        assert(decreases_to!(t.children => t.children@));
        assert(decreases_to!(t.children@ => t.children@[i]));
        if !(!show_hidden && c.hidden) {
            lemma_one_line_per_node(c, prefix, last_shown(t, i, show_hidden), false, show_hidden);
        }
        lemma_children_lines(t, prefix, i + 1, show_hidden);
        assert(render_children(t, prefix, i, show_hidden) == child_lines(t, prefix, i, show_hidden)
            + render_children(t, prefix, i + 1, show_hidden));
        assert(children_count(t, i, show_hidden) == (if !show_hidden && c.hidden {
            0
        } else {
            node_count(c, show_hidden)
        }) + children_count(t, i + 1, show_hidden));
    }
}

/// A path extends a prefix of another when their first components agree and the rest does.
proof fn lemma_prefix_cons<T>(q: Seq<T>, p: Seq<T>)
    requires
        q.len() > 0,
        p.len() > 0,
        q[0] == p[0],
        is_prefix_of(q.drop_first(), p.drop_first()),
    ensures
        is_prefix_of(q, p),
{
    let r = q.drop_first();
    assert forall|k: int| 0 <= k < q.len() implies p[k] == q[k] by {
        if k > 0 {
            assert(r[k - 1] == q[k]);
            assert(p.drop_first().subrange(0, r.len() as int)[k - 1] == r[k - 1]);
        }
    }
    assert(p.subrange(0, q.len() as int) =~= q);
}

/// Replacing a child by one that holds more paths keeps the tree's properties.
proof fn lemma_replace_child(before: FileTree, after: FileTree, i: int, p: Seq<Seq<char>>)
    requires
        before.wf(),
        p.len() > 1,
        0 <= i < before.children@.len(),
        before.children@[i].name@ == p[0],
        after.name == before.name,
        after.hidden == before.hidden,
        after.children@ == before.children@.update(i, after.children@[i]),
        ({
            let (old_c, new_c) = (before.children@[i], after.children@[i]);
            &&& new_c.wf()
            &&& new_c.name@ == old_c.name@
            &&& new_c.hidden == old_c.hidden
            &&& new_c.contains_path(p.drop_first())
            &&& forall|q: Seq<Seq<char>>| #[trigger]
                old_c.contains_path(q) ==> new_c.contains_path(q)
            &&& forall|q: Seq<Seq<char>>| #[trigger]
                new_c.contains_path(q) ==> old_c.contains_path(q) || is_prefix_of(
                    q,
                    p.drop_first(),
                )
        }),
    ensures
        after.wf(),
        after.contains_path(p),
        forall|q: Seq<Seq<char>>| #[trigger] before.contains_path(q) ==> after.contains_path(q),
        forall|q: Seq<Seq<char>>| #[trigger]
            after.contains_path(q) ==> before.contains_path(q) || is_prefix_of(q, p),
{
    assert(after.children@[i].name@ == p[0]);
    assert forall|q: Seq<Seq<char>>| #[trigger] before.contains_path(q) implies after.contains_path(
        q,
    ) by {
        if q.len() > 0 {
            let j = choose|j: int|
                0 <= j < before.children@.len() && #[trigger] before.children@[j].name@ == q[0]
                    && before.children@[j].contains_path(q.drop_first());
            assert(after.children@[j].name@ == q[0]);
        }
    }
    assert forall|q: Seq<Seq<char>>| #[trigger] after.contains_path(q) implies before.contains_path(
        q,
    ) || is_prefix_of(q, p) by {
        if q.len() > 0 {
            let j = choose|j: int|
                0 <= j < after.children@.len() && #[trigger] after.children@[j].name@ == q[0]
                    && after.children@[j].contains_path(q.drop_first());
            if j != i {
                assert(before.children@[j].name@ == q[0]);
            } else if !before.children@[j].contains_path(q.drop_first()) {
                lemma_prefix_cons(q, p);
            }
        }
    }
}

/// Adding a fresh child under a name that no child has keeps the tree's properties.
proof fn lemma_push_child(before: FileTree, after: FileTree, fresh: FileTree, p: Seq<Seq<char>>)
    requires
        before.wf(),
        p.len() > 0,
        forall|j: int| 0 <= j < before.children@.len() ==> #[trigger] before.children@[j].name@
            != p[0],
        fresh.name@ == p[0],
        fresh.hidden == hidden_name(p[0]),
        fresh.children@.len() == 0,
        after.name == before.name,
        after.hidden == before.hidden,
        after.children@ == before.children@.push(after.children@.last()),
        ({
            let c = after.children@.last();
            &&& c.wf()
            &&& c.name@ == fresh.name@
            &&& c.hidden == fresh.hidden
            &&& c.contains_path(p.drop_first())
            &&& forall|q: Seq<Seq<char>>| #[trigger]
                c.contains_path(q) ==> fresh.contains_path(q) || is_prefix_of(q, p.drop_first())
        }),
    ensures
        after.wf(),
        after.contains_path(p),
        forall|q: Seq<Seq<char>>| #[trigger] before.contains_path(q) ==> after.contains_path(q),
        forall|q: Seq<Seq<char>>| #[trigger]
            after.contains_path(q) ==> before.contains_path(q) || is_prefix_of(q, p),
{
    let n = before.children@.len() as int;
    assert(after.children@[n].name@ == p[0]);
    assert forall|q: Seq<Seq<char>>| #[trigger] before.contains_path(q) implies after.contains_path(
        q,
    ) by {
        if q.len() > 0 {
            let j = choose|j: int|
                0 <= j < before.children@.len() && #[trigger] before.children@[j].name@ == q[0]
                    && before.children@[j].contains_path(q.drop_first());
            assert(after.children@[j].name@ == q[0]);
        }
    }
    assert forall|q: Seq<Seq<char>>| #[trigger] after.contains_path(q) implies before.contains_path(
        q,
    ) || is_prefix_of(q, p) by {
        if q.len() > 0 {
            let j = choose|j: int|
                0 <= j < after.children@.len() && #[trigger] after.children@[j].name@ == q[0]
                    && after.children@[j].contains_path(q.drop_first());
            if j < n {
                assert(before.children@[j].name@ == q[0]);
            } else {
                let r = q.drop_first();
                assert(after.children@[j] == after.children@.last());
                if r.len() > 0 {
                    assert(!fresh.contains_path(r));
                } else {
                    assert(p.drop_first().subrange(0, 0) =~= r);
                }
                lemma_prefix_cons(q, p);
            }
        }
    }
}

} // verus!
