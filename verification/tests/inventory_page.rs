use openstory_console::bag::{bag_counts, bag_heading, bag_item_text, bag_window};

fn inv() -> Vec<(u8, i16, i32, i16)> {
    vec![(1, 1, 1302000, 1), (2, 3, 2000000, 50), (2, 4, 2000001, 7), (4, 12, 4000000, 3), (9, 1, 1, 1)]
}

#[test]
fn bag_counts_per_tab() {
    assert_eq!(bag_counts(&inv()), vec![1, 2, 0, 1, 0]);
    assert_eq!(bag_counts(&Vec::new()), vec![0, 0, 0, 0, 0]);
}

#[test]
fn bag_heading_lines() {
    let (stat, mode) = bag_heading(&inv(), 1234, 2, 2, 0);
    assert_eq!(stat, " 物品 5 件  装备=1  消耗=2  设置=0  其他=1  现金=0  金币 1234");
    assert_eq!(mode, " 面板[消耗]  2件  模式[卖出选中] (m 切换)  Tab/Shift+Tab 切面板 · Enter 卖出 · D 丢弃 · E 穿装");
    let (_, mode) = bag_heading(&inv(), -1, 0, 5, 1);
    assert_eq!(mode, " 面板[全部]  5件  模式[卖出所有] (m 切换)  Tab/Shift+Tab 切面板 · Enter 卖出 · D 丢弃 · E 穿装");
}

#[test]
fn bag_item_cells() {
    assert_eq!(bag_item_text((1, 1, 1302000, 1), "剑"), "slot=1  剑(1302000)");
    assert_eq!(bag_item_text((2, 12, 2000000, 50), "红药水"), "slot=12 红药水(2000000) qty=50");
    assert_eq!(bag_item_text((4, -3, 4000000, 3), "x"), "slot=-3 x(4000000) qty=3");
}

#[test]
fn bag_window_keeps_the_cursor_in_view() {
    // 20 lines, 10 visible: the scroll is kept while the cursor row shows.
    assert_eq!(bag_window(20, 10, 3, 4, 36), (3, 13));
    // The scroll never passes the last full window.
    assert_eq!(bag_window(20, 10, 50, 30, 36), (10, 20));
    // A cursor below the window pulls it down: row 2 + 30 / 2 = 17.
    assert_eq!(bag_window(20, 10, 0, 30, 36), (8, 18));
    // A cursor above the window pulls it up.
    assert_eq!(bag_window(20, 10, 9, 0, 36), (2, 12));
    // Fewer lines than the window.
    assert_eq!(bag_window(3, 10, 0, 0, 0), (0, 3));
}
