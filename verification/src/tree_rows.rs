//! The rows of the project tree: projects, their groups and the nodes of
//! each group, filtered by a change filter and a name search.
//!
//! Whether a name matches the search is decided by the caller and handed
//! over with each item (`name_hit`); the rules here decide what is shown:
//! - a node is hit when it passes the filter and its name matches;
//! - a group is hit itself when some node passes the filter (or the filter
//!   is `All`) and its name matches; it is shown when it is hit itself or
//!   some node of it is hit;
//! - with the full-group mode on, a shown group lists all its nodes that
//!   are not deleted, else only its hit nodes;
//! - an open project is shown when its name or id matches or some group
//!   is shown; a closed project is always shown, as one row.

use vstd::prelude::*;
use crate::model::copy_str;

verus! {

/// Which changes the tree lists.
#[derive(Clone, Copy, Debug, PartialEq, Eq, Structural)]
pub enum TreeFilter {
    All,
    New,
    Modified,
    Deleted,
    Changed,
}

/// What a row of the tree stands for.
#[derive(Clone, Copy, Debug, PartialEq, Eq, Structural)]
pub enum RowKind {
    Project,
    Group,
    Table,
    Constant,
    Enum,
}

/// A table, constant or enum as the tree sees it.
#[derive(Clone, Debug)]
pub struct TreeNodeItem {
    pub name: String,
    pub deleted: bool,
    /// Never saved yet.
    pub is_new: bool,
    pub dirty: bool,
    /// The name matches the search.
    pub name_hit: bool,
}

/// A group as the tree sees it.
#[derive(Clone, Debug)]
pub struct TreeGroupItem {
    pub name: String,
    pub name_hit: bool,
    pub expanded: bool,
    pub tables: Vec<TreeNodeItem>,
    pub constants: Vec<TreeNodeItem>,
    pub enums: Vec<TreeNodeItem>,
}

/// A project as the tree sees it, in the order the tree lists projects.
#[derive(Clone, Debug)]
pub struct TreeProjectItem {
    pub name: String,
    pub open: bool,
    pub expanded: bool,
    /// The project's name or id matches the search.
    pub name_hit: bool,
    pub groups: Vec<TreeGroupItem>,
}

/// One row of the tree: its depth (0 project, 1 group, 2 node), what it
/// stands for, its name, and whether it is a closed project.
#[derive(Clone, Debug)]
pub struct TreeRow {
    pub indent: u8,
    pub kind: RowKind,
    pub name: String,
    pub closed: bool,
}

pub struct TreeRowView {
    pub indent: int,
    pub kind: RowKind,
    pub name: Seq<char>,
    pub closed: bool,
}

impl View for TreeRow {
    type V = TreeRowView;

    open spec fn view(&self) -> TreeRowView {
        TreeRowView { indent: self.indent as int, kind: self.kind, name: self.name@, closed: self.closed }
    }
}

pub open spec fn rows_view(r: Seq<TreeRow>) -> Seq<TreeRowView> {
    r.map_values(|x: TreeRow| x@)
}

/// Whether an item with these states passes the filter.
pub open spec fn spec_passes_filter(f: TreeFilter, deleted: bool, is_new: bool, dirty: bool) -> bool {
    match f {
        TreeFilter::All => true,
        TreeFilter::New => is_new && !deleted,
        TreeFilter::Modified => dirty && !is_new && !deleted,
        TreeFilter::Deleted => deleted,
        TreeFilter::Changed => deleted || dirty || is_new,
    }
}

pub open spec fn node_passes(f: TreeFilter, n: TreeNodeItem) -> bool {
    spec_passes_filter(f, n.deleted, n.is_new, n.dirty)
}

/// A node passes the filter and its name matches.
pub open spec fn node_hit(f: TreeFilter, n: TreeNodeItem) -> bool {
    node_passes(f, n) && n.name_hit
}

pub open spec fn any_passes(f: TreeFilter, ns: Seq<TreeNodeItem>) -> bool {
    exists|i: int| 0 <= i < ns.len() && node_passes(f, #[trigger] ns[i])
}

pub open spec fn any_hit(f: TreeFilter, ns: Seq<TreeNodeItem>) -> bool {
    exists|i: int| 0 <= i < ns.len() && node_hit(f, #[trigger] ns[i])
}

/// A group is shown: it is hit itself, or some node of it is.
pub open spec fn group_shown(f: TreeFilter, g: TreeGroupItem) -> bool {
    let pass = f == TreeFilter::All || any_passes(f, g.tables@) || any_passes(f, g.constants@) || any_passes(
        f,
        g.enums@,
    );
    (pass && g.name_hit) || any_hit(f, g.tables@) || any_hit(f, g.constants@) || any_hit(f, g.enums@)
}

/// A node of a shown group is listed.
pub open spec fn node_listed(f: TreeFilter, full: bool, n: TreeNodeItem) -> bool {
    if full {
        !n.deleted
    } else {
        node_hit(f, n)
    }
}

pub open spec fn row(indent: int, kind: RowKind, name: Seq<char>, closed: bool) -> TreeRowView {
    TreeRowView { indent, kind, name, closed }
}

/// The rows of the listed nodes of one kind, in order.
pub open spec fn node_rows(f: TreeFilter, full: bool, kind: RowKind, ns: Seq<TreeNodeItem>) -> Seq<TreeRowView>
    decreases ns.len(),
{
    if ns.len() == 0 {
        seq![]
    } else {
        node_rows(f, full, kind, ns.drop_last()) + if node_listed(f, full, ns.last()) {
            seq![row(2, kind, ns.last().name@, false)]
        } else {
            Seq::<TreeRowView>::empty()
        }
    }
}

/// The rows of a group: none when it is not shown; else its own row, then,
/// when it is expanded, its listed tables, constants and enums.
pub open spec fn group_rows(f: TreeFilter, full: bool, g: TreeGroupItem) -> Seq<TreeRowView> {
    if !group_shown(f, g) {
        seq![]
    } else if !g.expanded {
        seq![row(1, RowKind::Group, g.name@, false)]
    } else {
        seq![row(1, RowKind::Group, g.name@, false)] + node_rows(f, full, RowKind::Table, g.tables@) + node_rows(
            f,
            full,
            RowKind::Constant,
            g.constants@,
        ) + node_rows(f, full, RowKind::Enum, g.enums@)
    }
}

pub open spec fn groups_rows(f: TreeFilter, full: bool, gs: Seq<TreeGroupItem>) -> Seq<TreeRowView>
    decreases gs.len(),
{
    if gs.len() == 0 {
        seq![]
    } else {
        groups_rows(f, full, gs.drop_last()) + group_rows(f, full, gs.last())
    }
}

pub open spec fn any_group_shown(f: TreeFilter, gs: Seq<TreeGroupItem>) -> bool {
    exists|i: int| 0 <= i < gs.len() && group_shown(f, #[trigger] gs[i])
}

/// The rows of a project: a closed project is one closed row; an open one
/// is shown when its name matches or a group is shown, with its groups'
/// rows when it is expanded.
pub open spec fn project_rows(f: TreeFilter, full: bool, p: TreeProjectItem) -> Seq<TreeRowView> {
    if !p.open {
        seq![row(0, RowKind::Project, p.name@, true)]
    } else if !(p.name_hit || any_group_shown(f, p.groups@)) {
        seq![]
    } else if !p.expanded {
        seq![row(0, RowKind::Project, p.name@, false)]
    } else {
        seq![row(0, RowKind::Project, p.name@, false)] + groups_rows(f, full, p.groups@)
    }
}

/// The rows of the tree, project after project.
pub open spec fn spec_tree_rows(f: TreeFilter, full: bool, ps: Seq<TreeProjectItem>) -> Seq<TreeRowView>
    decreases ps.len(),
{
    if ps.len() == 0 {
        seq![]
    } else {
        spec_tree_rows(f, full, ps.drop_last()) + project_rows(f, full, ps.last())
    }
}

/// Whether an item with these states passes the filter.
pub fn passes_filter(f: TreeFilter, deleted: bool, is_new: bool, dirty: bool) -> (r: bool)
    ensures
        r == spec_passes_filter(f, deleted, is_new, dirty),
{
    match f {
        TreeFilter::All => true,
        TreeFilter::New => is_new && !deleted,
        TreeFilter::Modified => dirty && !is_new && !deleted,
        TreeFilter::Deleted => deleted,
        TreeFilter::Changed => deleted || dirty || is_new,
    }
}

fn some_passes(f: TreeFilter, ns: &Vec<TreeNodeItem>, hit: bool) -> (r: bool)
    ensures
        r == if hit { any_hit(f, ns@) } else { any_passes(f, ns@) },
{
    let mut i: usize = 0;
    while i < ns.len()
        invariant
            i <= ns@.len(),
            forall|j: int| 0 <= j < i ==> !(if hit { node_hit(f, #[trigger] ns@[j]) } else { node_passes(f, ns@[j]) }),
        decreases ns.len() - i,
    {
        let n = &ns[i];
        let p = passes_filter(f, n.deleted, n.is_new, n.dirty);
        if p && (!hit || n.name_hit) {
            assert(if hit { node_hit(f, ns@[i as int]) } else { node_passes(f, ns@[i as int]) });
            return true;
        }
        i = i + 1;
    }
    false
}

fn is_group_shown(f: TreeFilter, g: &TreeGroupItem) -> (r: bool)
    ensures
        r == group_shown(f, *g),
{
    let pass = f == TreeFilter::All || some_passes(f, &g.tables, false) || some_passes(f, &g.constants, false)
        || some_passes(f, &g.enums, false);
    (pass && g.name_hit) || some_passes(f, &g.tables, true) || some_passes(f, &g.constants, true) || some_passes(
        f,
        &g.enums,
        true,
    )
}

fn push_row(out: &mut Vec<TreeRow>, indent: u8, kind: RowKind, name: &String, closed: bool)
    ensures
        rows_view(final(out)@) == rows_view(old(out)@).push(row(indent as int, kind, name@, closed)),
{
    let ghost before = rows_view(out@);
    out.push(TreeRow { indent, kind, name: copy_str(name), closed });
    assert(rows_view(out@) =~= before.push(row(indent as int, kind, name@, closed)));
}

fn push_node_rows(out: &mut Vec<TreeRow>, f: TreeFilter, full: bool, kind: RowKind, ns: &Vec<TreeNodeItem>)
    ensures
        rows_view(final(out)@) == rows_view(old(out)@) + node_rows(f, full, kind, ns@),
{
    let ghost o = rows_view(out@);
    let mut i: usize = 0;
    assert(ns@.take(0) =~= Seq::<TreeNodeItem>::empty());
    assert(o + node_rows(f, full, kind, ns@.take(0)) =~= o);
    while i < ns.len()
        invariant
            i <= ns@.len(),
            rows_view(out@) == o + node_rows(f, full, kind, ns@.take(i as int)),
        decreases ns.len() - i,
    {
        let n = &ns[i];
        assert(ns@.take(i + 1).drop_last() =~= ns@.take(i as int));
        assert(ns@.take(i + 1).last() == ns@[i as int]);
        let listed = if full {
            !n.deleted
        } else {
            passes_filter(f, n.deleted, n.is_new, n.dirty) && n.name_hit
        };
        if listed {
            push_row(out, 2, kind, &n.name, false);
        }
        assert(rows_view(out@) =~= o + node_rows(f, full, kind, ns@.take(i + 1)));
        i = i + 1;
    }
    assert(ns@.take(i as int) =~= ns@);
}

fn push_group_rows(out: &mut Vec<TreeRow>, f: TreeFilter, full: bool, g: &TreeGroupItem)
    ensures
        rows_view(final(out)@) == rows_view(old(out)@) + group_rows(f, full, *g),
{
    let ghost o = rows_view(out@);
    if is_group_shown(f, g) {
        push_row(out, 1, RowKind::Group, &g.name, false);
        if g.expanded {
            let ghost o1 = rows_view(out@);
            push_node_rows(out, f, full, RowKind::Table, &g.tables);
            push_node_rows(out, f, full, RowKind::Constant, &g.constants);
            push_node_rows(out, f, full, RowKind::Enum, &g.enums);
            assert(rows_view(out@) =~= o + group_rows(f, full, *g));
        } else {
            assert(rows_view(out@) =~= o + group_rows(f, full, *g));
        }
    } else {
        assert(rows_view(out@) =~= o + group_rows(f, full, *g));
    }
}

/// The rows of the project tree (see [`spec_tree_rows`]), projects in the
/// order given.
pub fn tree_rows(projects: &Vec<TreeProjectItem>, filter: TreeFilter, full_group: bool) -> (r: Vec<TreeRow>)
    ensures
        rows_view(r@) == spec_tree_rows(filter, full_group, projects@),
{
    let mut out: Vec<TreeRow> = Vec::new();
    let mut i: usize = 0;
    assert(projects@.take(0) =~= Seq::<TreeProjectItem>::empty());
    assert(rows_view(out@) =~= Seq::<TreeRowView>::empty());
    while i < projects.len()
        invariant
            i <= projects@.len(),
            rows_view(out@) == spec_tree_rows(filter, full_group, projects@.take(i as int)),
        decreases projects.len() - i,
    {
        let p = &projects[i];
        assert(projects@.take(i + 1).drop_last() =~= projects@.take(i as int));
        assert(projects@.take(i + 1).last() == projects@[i as int]);
        let ghost o = rows_view(out@);
        if !p.open {
            push_row(&mut out, 0, RowKind::Project, &p.name, true);
        } else {
            let mut shown = p.name_hit;
            let mut k: usize = 0;
            while k < p.groups.len() && !shown
                invariant
                    k <= p.groups@.len(),
                    shown ==> (p.name_hit || any_group_shown(filter, p.groups@)),
                    !shown ==> !p.name_hit && forall|j: int| 0 <= j < k ==> !group_shown(filter, #[trigger] p.groups@[j]),
                decreases p.groups.len() - k,
            {
                if is_group_shown(filter, &p.groups[k]) {
                    assert(group_shown(filter, p.groups@[k as int]));
                    shown = true;
                }
                k = k + 1;
            }
            if shown {
                push_row(&mut out, 0, RowKind::Project, &p.name, false);
                if p.expanded {
                    let ghost o1 = rows_view(out@);
                    let mut gi: usize = 0;
                    assert(p.groups@.take(0) =~= Seq::<TreeGroupItem>::empty());
                    assert(o1 + groups_rows(filter, full_group, p.groups@.take(0)) =~= o1);
                    while gi < p.groups.len()
                        invariant
                            gi <= p.groups@.len(),
                            rows_view(out@) == o1 + groups_rows(filter, full_group, p.groups@.take(gi as int)),
                        decreases p.groups.len() - gi,
                    {
                        assert(p.groups@.take(gi + 1).drop_last() =~= p.groups@.take(gi as int));
                        assert(p.groups@.take(gi + 1).last() == p.groups@[gi as int]);
                        push_group_rows(&mut out, filter, full_group, &p.groups[gi]);
                        assert(rows_view(out@) =~= o1 + groups_rows(filter, full_group, p.groups@.take(gi + 1)));
                        gi = gi + 1;
                    }
                    assert(p.groups@.take(gi as int) =~= p.groups@);
                }
            }
        }
        assert(rows_view(out@) =~= o + project_rows(filter, full_group, projects@[i as int]));
        assert(rows_view(out@) =~= spec_tree_rows(filter, full_group, projects@.take(i + 1)));
        i = i + 1;
    }
    assert(projects@.take(i as int) =~= projects@);
    out
}

} // verus!
