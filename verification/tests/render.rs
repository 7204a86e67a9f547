use tablefmt::style::{Alignment, TableStyle};
use tablefmt::table::{Cell, Row, Table};

fn user_table() -> Table {
    let mut t = Table::new();
    let mut head = Row::new_head();
    head.add("ID");
    head.add("Username");
    head.add("Active");
    t.add_row(head);
    let mut body = Row::new();
    body.add("1");
    body.add("john_doe");
    body.add("yes");
    t.add_row(body);
    t
}

#[test]
fn empty_table_renders_empty() {
    let t = Table::new();
    assert_eq!(t.render_to_string(), "");
}

#[test]
fn single_cell() {
    let mut t = Table::new();
    let mut r = Row::new();
    r.add("hi");
    t.add_row(r);
    assert_eq!(t.render_to_string(), "+----+\n| hi |\n+----+\n");
}

#[test]
fn head_and_body_rows() {
    let t = user_table();
    let expected = "\
+----+----------+--------+
| ID | Username | Active |
+----+----------+--------+
| 1  | john_doe | yes    |
+----+----------+--------+
";
    assert_eq!(t.render_to_string(), expected);
}

#[test]
fn column_alignment_centers_content() {
    let mut t = user_table();
    let mut extra = Row::new();
    extra.add("2");
    extra.add("ab");
    extra.add("no");
    t.add_row(extra);
    t.column_alignment(1, Alignment::Center);
    let expected = "\
+----+----------+--------+
| ID | Username | Active |
+----+----------+--------+
| 1  | john_doe | yes    |
| 2  |    ab    | no     |
+----+----------+--------+
";
    assert_eq!(t.render_to_string(), expected);
}

#[test]
fn colspan_covers_two_columns() {
    let mut t = Table::new();
    let mut first = Row::new();
    first.add("one");
    first.add("two");
    first.add("three");
    t.add_row(first);
    let mut second = Row::new();
    second.add("x");
    let mut wide = Cell::new("This cell spans two.");
    wide.colspan(2);
    second.add_cell(wide);
    t.add_row(second);
    let expected = "\
+-----+-----------+-----------+
| one | two       | three     |
| x   | This cell spans two.  |
+-----+-----------+-----------+
";
    assert_eq!(t.render_to_string(), expected);
}

#[test]
fn head_separator_brackets_a_late_head_row() {
    let mut t = Table::new();
    t.set_style(TableStyle::full_ascii());
    let mut a = Row::new();
    a.add("a");
    t.add_row(a);
    let mut b = Row::new_head();
    b.add("b");
    t.add_row(b);
    let mut c = Row::new();
    c.add("c");
    t.add_row(c);
    let expected = "\
+---+
| a |
+===+
| b |
+===+
| c |
+---+
";
    assert_eq!(t.render_to_string(), expected);
}

#[test]
fn rendering_twice_gives_identical_bytes() {
    let t = user_table();
    assert_eq!(t.render_to_string(), t.render_to_string());
}

#[test]
fn column_count_is_widest_row() {
    let mut t = Table::new();
    let mut narrow = Row::new();
    narrow.add("a");
    t.add_row(narrow);
    let mut wide = Row::new();
    wide.add("b");
    wide.add("c");
    wide.add("d");
    t.add_row(wide);
    assert_eq!(t.column_widths().len(), 3);
}

#[test]
fn every_line_has_the_same_visual_width() {
    let t = user_table();
    let rendered = t.render_to_string();
    let widths: Vec<usize> = rendered
        .lines()
        .map(console::measure_text_width)
        .collect();
    assert!(widths.len() > 0);
    for w in &widths {
        assert_eq!(*w, widths[0]);
    }
    let cols: usize = t.column_widths().iter().sum();
    // Three visible vertical separators surround and divide three columns.
    assert_eq!(widths[0], cols + 4);
}

#[test]
fn wide_glyphs_measure_two_columns() {
    let mut t = Table::new();
    let mut r = Row::new();
    r.add("日本");
    t.add_row(r);
    // Two wide glyphs need four columns, plus one padding on each side.
    assert_eq!(t.column_widths(), vec![6]);
}

#[test]
fn styled_cells_keep_the_grid_aligned() {
    let mut t = Table::new();
    let mut r = Row::new();
    let mut c = Cell::new("red");
    c.set_style(console::Style::new().red());
    r.add_cell(c);
    r.add("plain");
    t.add_row(r);
    let rendered = t.render_to_string();
    let widths: Vec<usize> = rendered
        .lines()
        .map(console::measure_text_width)
        .collect();
    for w in &widths {
        assert_eq!(*w, widths[0]);
    }
}

#[test]
fn zero_cell_row_renders_as_empty_line() {
    let mut t = Table::new();
    t.add();
    assert_eq!(t.render_to_string(), "++\n\n++\n");
}

#[test]
fn full_unicode_frame() {
    let mut t = Table::new();
    t.set_style(TableStyle::full_unicode());
    let mut r = Row::new();
    r.add("hi");
    t.add_row(r);
    assert_eq!(t.render_to_string(), "┌────┐\n│ hi │\n└────┘\n");
}

#[test]
fn compact_preset_matches_default() {
    let mut styled = Table::new();
    styled.set_style(TableStyle::compact_ascii());
    let mut r = Row::new();
    r.add("hi");
    styled.add_row(r);
    let mut plain = Table::new();
    let mut r2 = Row::new();
    r2.add("hi");
    plain.add_row(r2);
    assert_eq!(styled.render_to_string(), plain.render_to_string());
}

#[test]
fn cell_alignment_override_beats_column_default() {
    let mut t = Table::new();
    let mut first = Row::new();
    first.add("wideband");
    t.add_row(first);
    let mut second = Row::new();
    let mut c = Cell::new("x");
    c.align(Alignment::Right);
    second.add_cell(c);
    t.add_row(second);
    let expected = "\
+----------+
| wideband |
|        x |
+----------+
";
    assert_eq!(t.render_to_string(), expected);
}

#[test]
fn display_writes_without_panicking() {
    let t = user_table();
    t.display();
}

#[test]
fn column_alignment_on_exactly_filled_column() {
    // "Username" and "john_doe" exactly fill their column, so centering
    // them changes nothing.
    let mut t = user_table();
    t.column_alignment(1, Alignment::Center);
    let plain = user_table();
    assert_eq!(t.render_to_string(), plain.render_to_string());
}

#[test]
fn override_past_last_column_has_no_effect() {
    let mut t = user_table();
    t.column_alignment(10, Alignment::Right);
    t.column_style(10, console::Style::new().red());
    let plain = user_table();
    assert_eq!(t.render_to_string(), plain.render_to_string());
}
