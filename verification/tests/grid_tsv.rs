use tablet_core::grid_tsv::{clear_rect, col_letter, range_label, selection_tsv};

fn grid() -> Vec<Vec<String>> {
    vec![
        vec!["a".into(), "b".into(), "c".into()],
        vec!["d".into(), "".into(), "f".into()],
        vec!["g".into(), "h".into(), "i".into()],
    ]
}

#[test]
fn selection_joins_cells_by_tabs_and_rows_by_line_feeds() {
    assert_eq!(selection_tsv(&grid(), 0, 1, 1, 2), "b\tc\n\tf");
    assert_eq!(selection_tsv(&grid(), 2, 0, 2, 0), "g");
    assert_eq!(selection_tsv(&grid(), 0, 0, 2, 2), "a\tb\tc\nd\t\tf\ng\th\ti");
}

#[test]
fn column_letters_follow_excel() {
    assert_eq!(col_letter(0), "A");
    assert_eq!(col_letter(25), "Z");
    assert_eq!(col_letter(26), "AA");
    assert_eq!(col_letter(27), "AB");
    assert_eq!(col_letter(701), "ZZ");
    assert_eq!(col_letter(702), "AAA");
}

#[test]
fn range_labels_name_one_cell_or_a_rectangle() {
    assert_eq!(range_label(0, 0, 0, 0), "A1");
    assert_eq!(range_label(1, 1, 4, 3), "B2:D5 (4行×3列)");
}

#[test]
fn clearing_a_rectangle_empties_only_its_cells() {
    let mut g = grid();
    clear_rect(&mut g, 0, 1, 1, 2);
    assert_eq!(
        g,
        vec![
            vec!["a".to_string(), "".to_string(), "".to_string()],
            vec!["d".to_string(), "".to_string(), "".to_string()],
            vec!["g".to_string(), "h".to_string(), "i".to_string()],
        ]
    );
}
