use openstory_console::console::{Category, Filter};
use openstory_console::board::{board_cell, board_headers, board_line, fit, fmt_num, BOARD_WIDTHS};

fn display_width(s: &str) -> usize {
    s.chars().map(|c| unicode_width::UnicodeWidthChar::width(c).unwrap_or(0)).sum()
}

fn data_row() -> Vec<String> {
    vec![
        "本地服_100000001".into(),
        "游戏中".into(),
        "Player".into(),
        "69".into(),
        "21".into(),
        "3802/3802".into(),
        "1".into(),
        "射手村集市".into(),
        "关".into(),
        "-".into(),
        "87441479".into(),
    ]
}

#[test]
fn fmt_num_groups() {
    assert_eq!(fmt_num(0), "0");
    assert_eq!(fmt_num(1234), "1,234");
    assert_eq!(fmt_num(12345678), "12,345,678");
    assert_eq!(fmt_num(-5), "-5");
}

#[test]
fn board_cells_pad_by_display_width_not_char_count() {
    assert_eq!(display_width(&board_cell("档案", 8, false)), 8);
    assert_eq!(display_width(&board_cell("本地服_100000001", 22, false)), 22);
    assert_eq!(board_cell("abc", 6, false), "abc   ");
    assert_eq!(board_cell("69", 4, true), "  69");
    assert_eq!(display_width(&board_cell("3802/3802", 11, true)), 11);
    assert_eq!(display_width(&board_cell("本地服_100000001", 6, false)), 6);
    assert_eq!(board_cell("本地服_100000001", 6, false), "本地服");
}

#[test]
fn board_header_and_data_rows_have_identical_width() {
    let header = board_headers();
    let data = data_row();
    let h = board_line(&header);
    let d = board_line(&data);
    assert_eq!(display_width(&h), display_width(&d), "header {h:?} data {d:?}");
    let starts = |cells: &[String]| -> Vec<usize> {
        let mut v = Vec::new();
        let mut col = 1usize;
        for (_c, w) in cells.iter().zip(BOARD_WIDTHS.iter()) {
            v.push(col);
            col += w + 1;
        }
        v
    };
    assert_eq!(starts(&header), starts(&data));
}

#[test]
fn board_line_pads_every_column_to_its_declared_width() {
    let line = board_line(&data_row());
    let mut expected_start = 1usize;
    for (i, w) in BOARD_WIDTHS.iter().enumerate() {
        let mut seg = String::new();
        let mut col = 0usize;
        for ch in line.chars() {
            let cw = unicode_width::UnicodeWidthChar::width(ch).unwrap_or(0);
            if col >= expected_start && col < expected_start + *w {
                seg.push(ch);
            }
            col += cw;
            if col >= expected_start + *w + 1 {
                break;
            }
        }
        assert_eq!(display_width(&seg), *w, "column {i}");
        expected_start += w + 1;
    }
}

// ---- own tests

#[test]
fn fmt_num_edges() {
    assert_eq!(fmt_num(999), "999");
    assert_eq!(fmt_num(1000), "1,000");
    assert_eq!(fmt_num(100000), "100,000");
    assert_eq!(fmt_num(i32::MAX), "2,147,483,647");
    assert_eq!(fmt_num(i32::MIN), "-2147483648");
    assert_eq!(fmt_num(-1234), "-1234");
}

#[test]
fn a_cell_that_fills_its_width_is_not_padded() {
    assert_eq!(board_cell("abcd", 4, true), "abcd");
    assert_eq!(board_cell("abcdef", 4, false), "abcd");
    // a wide character that would overflow is left out, the rest is padding
    assert_eq!(board_cell("a档", 2, false), "a ");
    assert_eq!(board_cell("", 3, true), "   ");
}

#[test]
fn fit_pads_on_the_right() {
    assert_eq!(fit("ab", 4), "ab  ");
    assert_eq!(fit("档案名", 5), "档案 ");
}

#[test]
fn a_short_row_uses_only_its_columns() {
    let line = board_line(&["x".to_string(), "y".to_string()]);
    assert_eq!(display_width(&line), 1 + 22 + 1 + 10 + 1);
    assert!(line.starts_with(" x"));
}

#[test]
fn the_header_has_every_column() {
    let h = board_headers();
    assert_eq!(h.len(), BOARD_WIDTHS.len());
    assert_eq!(h[0], "档案");
    assert_eq!(h[9], "丢弃");
}

#[test]
fn text_rows_wraps_each_piece_between_line_breaks() {
    let rows = openstory_console::board::text_rows;
    assert_eq!(rows("", 10), 1);
    assert_eq!(rows("abc", 10), 1);
    assert_eq!(rows("abcdefghij", 10), 1);
    assert_eq!(rows("abcdefghijk", 10), 2);
    // CJK characters take two columns each.
    assert_eq!(rows("角色信息", 3), 3);
    // Every piece takes at least one row, an empty one too.
    assert_eq!(rows("a\n\nb", 10), 3);
    assert_eq!(rows("abcd\nab", 2), 3);
    assert_eq!(rows("a\n", 10), 2);
}

#[test]
fn a_log_page_shows_its_own_category() {
    assert!(Filter::All.shows(Category::Chat));
    assert!(Filter::Status.shows(Category::Error));
    assert!(Filter::Cat(Category::Chat).shows(Category::Chat));
    assert!(!Filter::Cat(Category::Chat).shows(Category::Npc));
}
