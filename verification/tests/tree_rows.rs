use tablet_core::tree_rows::{tree_rows, RowKind, TreeFilter, TreeGroupItem, TreeNodeItem, TreeProjectItem, TreeRow};

fn node(name: &str, deleted: bool, is_new: bool, dirty: bool, name_hit: bool) -> TreeNodeItem {
    TreeNodeItem { name: name.into(), deleted, is_new, dirty, name_hit }
}

fn project(open: bool, name_hit: bool) -> TreeProjectItem {
    TreeProjectItem {
        name: "p".into(),
        open,
        expanded: true,
        name_hit,
        groups: vec![
            TreeGroupItem {
                name: "g1".into(),
                name_hit: false,
                expanded: true,
                tables: vec![node("a", false, false, true, true), node("b", false, false, false, true)],
                constants: vec![node("c", true, false, false, true)],
                enums: vec![],
            },
            TreeGroupItem {
                name: "g2".into(),
                name_hit: true,
                expanded: false,
                tables: vec![node("x", false, false, false, false)],
                constants: vec![],
                enums: vec![],
            },
        ],
    }
}

fn names(rows: &[TreeRow]) -> Vec<(u8, RowKind, String)> {
    rows.iter().map(|r| (r.indent, r.kind, r.name.clone())).collect()
}

#[test]
fn all_filter_lists_hit_nodes_and_groups() {
    let rows = tree_rows(&vec![project(true, false)], TreeFilter::All, false);
    assert_eq!(
        names(&rows),
        vec![
            (0, RowKind::Project, "p".to_string()),
            (1, RowKind::Group, "g1".to_string()),
            (2, RowKind::Table, "a".to_string()),
            (2, RowKind::Table, "b".to_string()),
            (2, RowKind::Constant, "c".to_string()),
            (1, RowKind::Group, "g2".to_string()),
        ]
    );
}

#[test]
fn modified_filter_keeps_dirty_nodes_only() {
    let rows = tree_rows(&vec![project(true, false)], TreeFilter::Modified, false);
    assert_eq!(
        names(&rows),
        vec![(0, RowKind::Project, "p".to_string()), (1, RowKind::Group, "g1".to_string()), (2, RowKind::Table, "a".to_string())]
    );
}

#[test]
fn full_group_mode_lists_every_live_node() {
    let rows = tree_rows(&vec![project(true, false)], TreeFilter::Modified, true);
    assert_eq!(
        names(&rows),
        vec![
            (0, RowKind::Project, "p".to_string()),
            (1, RowKind::Group, "g1".to_string()),
            (2, RowKind::Table, "a".to_string()),
            (2, RowKind::Table, "b".to_string()),
        ]
    );
}

#[test]
fn closed_projects_are_one_row_and_unmatched_open_ones_hide() {
    let rows = tree_rows(&vec![project(false, false)], TreeFilter::New, false);
    assert_eq!(rows.len(), 1);
    assert!(rows[0].closed);
    assert!(tree_rows(&vec![project(true, false)], TreeFilter::New, false).is_empty());
    assert_eq!(tree_rows(&vec![project(true, true)], TreeFilter::New, false).len(), 1);
}
