use glassui::kinds::SortDirection;
use glassui::table::{apply_sort, GridColumn, RowState};

fn sample_columns() -> Vec<GridColumn> {
    vec![
        GridColumn::new("name", "Name"),
        GridColumn::new("status", "Status").not_sortable(),
        GridColumn::new("progress", "Progress"),
    ]
}

#[test]
fn header_clicks_cycle_direction() {
    let mut cols = sample_columns();
    assert_eq!(apply_sort(&mut cols, "progress"), Some((2, SortDirection::Ascending)));
    assert_eq!(cols[2].sort_direction, SortDirection::Ascending);
    assert_eq!(apply_sort(&mut cols, "progress"), Some((2, SortDirection::Descending)));
    assert_eq!(apply_sort(&mut cols, "progress"), Some((2, SortDirection::Ascending)));
    assert_eq!(apply_sort(&mut cols, "name"), Some((0, SortDirection::Ascending)));
    assert_eq!(cols[2].sort_direction, SortDirection::Unsorted);
    assert_eq!(cols[0].sort_direction, SortDirection::Ascending);
}

#[test]
fn unsortable_or_missing_column_changes_nothing() {
    let mut cols = sample_columns();
    apply_sort(&mut cols, "name");
    assert_eq!(apply_sort(&mut cols, "status"), None);
    assert_eq!(apply_sort(&mut cols, "nope"), None);
    assert_eq!(cols[0].sort_direction, SortDirection::Ascending);
    assert_eq!(cols[1].sort_direction, SortDirection::Unsorted);
    assert!(!cols[1].sortable);
}

#[test]
fn sort_indicators() {
    assert_eq!(SortDirection::Ascending.indicator(), "↑");
    assert_eq!(SortDirection::Descending.indicator(), "↓");
    assert_eq!(SortDirection::Unsorted.indicator(), "");
}

#[test]
fn row_hover_and_choice() {
    let mut rows = RowState::new();
    assert_eq!(rows.click(), None);
    rows.point_at(Some(2), 3);
    assert_eq!(rows.hovered_row, Some(2));
    assert_eq!(rows.click(), Some(2));
    assert_eq!(rows.selected_row, Some(2));
    rows.point_at(Some(3), 3);
    assert_eq!(rows.hovered_row, None);
    assert_eq!(rows.click(), None);
    assert_eq!(rows.selected_row, Some(2));
}
