//! The inventory page's text: the counts per tab, the two heading lines,
//! one item's cell, and the window of lines that keeps the cursor in view.

use vstd::prelude::*;

use crate::console::{signed_decimal, signed_string};
use crate::text::{copy_str, decimal, decimal_string};

verus! {

/// How many items lie in tab `tab`.
pub open spec fn tab_count(inv: Seq<(u8, i16, i32, i16)>, tab: u8) -> nat
    decreases inv.len(),
{
    if inv.len() == 0 {
        0
    } else {
        tab_count(inv.drop_last(), tab) + if inv.last().0 == tab { 1nat } else { 0nat }
    }
}

proof fn lemma_tab_count_bound(inv: Seq<(u8, i16, i32, i16)>, tab: u8)
    ensures
        tab_count(inv, tab) <= inv.len(),
    decreases inv.len(),
{
    if inv.len() > 0 {
        lemma_tab_count_bound(inv.drop_last(), tab);
    }
}

/// The number of items in each of the five tabs (equipment, use, set-up,
/// etc, cash), in that order; an item of another tab counts nowhere.
pub fn bag_counts(inv: &Vec<(u8, i16, i32, i16)>) -> (r: Vec<usize>)
    ensures
        r@.len() == 5,
        forall|t: int| 0 <= t < 5 ==> #[trigger] r@[t] == tab_count(inv@, (t + 1) as u8),
{
    let mut r: Vec<usize> = vec![0, 0, 0, 0, 0];
    let n = inv.len();
    for i in 0..n
        invariant
            n == inv@.len(),
            r@.len() == 5,
            forall|t: int| 0 <= t < 5 ==> #[trigger] r@[t] == tab_count(inv@.take(i as int), (t + 1) as u8),
    {
        proof {
            assert(inv@.take(i + 1).drop_last() =~= inv@.take(i as int));
            assert forall|t: int| 0 <= t < 5 implies #[trigger] r@[t] <= i by {
                lemma_tab_count_bound(inv@.take(i as int), (t + 1) as u8);
            }
        }
        let tab = inv[i].0;
        if 1 <= tab && tab <= 5 {
            let k = (tab - 1) as usize;
            let c = r[k];
            r.set(k, c + 1);
        }
        proof {
            assert forall|t: int| 0 <= t < 5 implies #[trigger] r@[t] == tab_count(
                inv@.take(i + 1),
                (t + 1) as u8,
            ) by {
                assert(inv@.take(i + 1).last() == inv@[i as int]);
            }
        }
    }
    proof {
        assert(inv@.take(n as int) =~= inv@);
    }
    r
}

/// The name of an inventory page (a page past 5 counts as 5).
pub open spec fn panel_name(panel: usize) -> Seq<char> {
    if panel == 0 {
        "全部"@
    } else if panel == 1 {
        "装备"@
    } else if panel == 2 {
        "消耗"@
    } else if panel == 3 {
        "设置"@
    } else if panel == 4 {
        "其他"@
    } else {
        "现金"@
    }
}

/// The first heading line: the number of items, per tab, and the mesos.
pub open spec fn bag_stat_line(inv: Seq<(u8, i16, i32, i16)>, meso: i64) -> Seq<char> {
    " 物品 "@ + decimal(inv.len()) + " 件"@ + "  装备="@ + decimal(tab_count(inv, 1)) + "  消耗="@ + decimal(
        tab_count(inv, 2),
    ) + "  设置="@ + decimal(tab_count(inv, 3)) + "  其他="@ + decimal(tab_count(inv, 4)) + "  现金="@
        + decimal(tab_count(inv, 5)) + "  金币 "@ + signed_decimal(meso as int)
}

/// The second heading line: the page, how many items it shows, and the
/// selling mode with the keys.
pub open spec fn bag_mode_line(panel: usize, shown: usize, mode: u8) -> Seq<char> {
    " 面板["@ + panel_name(panel) + "]  "@ + decimal(shown as nat) + "件  模式["@ + (if mode == 1 {
        "卖出所有"@
    } else {
        "卖出选中"@
    }) + "] (m 切换)  Tab/Shift+Tab 切面板 · Enter 卖出 · D 丢弃 · E 穿装"@
}

fn push_count(s: &mut String, label: &str, n: usize)
    ensures
        final(s)@ == old(s)@ + label@ + decimal(n as nat),
{
    s.append(label);
    s.append(decimal_string(n as u64).as_str());
}

/// The two heading lines of the inventory page (see [`bag_stat_line`] and
/// [`bag_mode_line`]).
pub fn bag_heading(inv: &Vec<(u8, i16, i32, i16)>, meso: i64, panel: usize, shown: usize, mode: u8) -> (r: (
    String,
    String,
))
    ensures
        r.0@ == bag_stat_line(inv@, meso),
        r.1@ == bag_mode_line(panel, shown, mode),
{
    let c = bag_counts(inv);
    let mut a = copy_str(" 物品 ");
    a.append(decimal_string(inv.len() as u64).as_str());
    a.append(" 件");
    push_count(&mut a, "  装备=", c[0]);
    push_count(&mut a, "  消耗=", c[1]);
    push_count(&mut a, "  设置=", c[2]);
    push_count(&mut a, "  其他=", c[3]);
    push_count(&mut a, "  现金=", c[4]);
    a.append("  金币 ");
    a.append(signed_string(meso).as_str());
    let mut b = copy_str(" 面板[");
    b.append(
        if panel == 0 {
            "全部"
        } else if panel == 1 {
            "装备"
        } else if panel == 2 {
            "消耗"
        } else if panel == 3 {
            "设置"
        } else if panel == 4 {
            "其他"
        } else {
            "现金"
        },
    );
    b.append("]  ");
    b.append(decimal_string(shown as u64).as_str());
    b.append("件  模式[");
    b.append(if mode == 1 { "卖出所有" } else { "卖出选中" });
    b.append("] (m 切换)  Tab/Shift+Tab 切面板 · Enter 卖出 · D 丢弃 · E 穿装");
    proof {
        assert(a@ =~= bag_stat_line(inv@, meso));
        assert(b@ =~= bag_mode_line(panel, shown, mode));
    }
    (a, b)
}

/// The text of one item: `slot=` with the slot left-aligned in two
/// columns, the item's name with its id, and the quantity except for
/// equipment (tab 1).
pub open spec fn bag_item_line(it: (u8, i16, i32, i16), name: Seq<char>) -> Seq<char> {
    let slot = signed_decimal(it.1 as int);
    "slot="@ + slot + (if slot.len() < 2 {
        " "@
    } else {
        Seq::empty()
    }) + " "@ + name + "("@ + signed_decimal(it.2 as int) + ")"@ + (if it.0 == 1 {
        Seq::empty()
    } else {
        " qty="@ + signed_decimal(it.3 as int)
    })
}

/// One item's text (see [`bag_item_line`]); `name` is the item's name.
pub fn bag_item_text(it: (u8, i16, i32, i16), name: &str) -> (r: String)
    ensures
        r@ == bag_item_line(it, name@),
{
    let slot = signed_string(it.1 as i64);
    let mut s = copy_str("slot=");
    s.append(slot.as_str());
    if slot.as_str().unicode_len() < 2 {
        s.append(" ");
    }
    s.append(" ");
    s.append(name);
    s.append("(");
    s.append(signed_string(it.2 as i64).as_str());
    s.append(")");
    if it.0 != 1 {
        s.append(" qty=");
        s.append(signed_string(it.3 as i64).as_str());
    }
    proof {
        assert(s@ =~= bag_item_line(it, name@));
    }
    s
}

/// The row of the cursor's item: two heading lines, then two items a row.
pub open spec fn cursor_row(cursor: usize, items: usize) -> int {
    2 + (if cursor < items - 1 { cursor as int } else { if items == 0 { 0 } else { items - 1 } }) / 2
}

/// The lines shown, `[start, end)`, of `total` lines in a window of `inner`
/// lines: the scroll offset (at most the last full window), moved just
/// enough to keep the cursor's row in view, and the end cut at `total`.
pub open spec fn spec_bag_window(total: usize, inner: usize, scroll: usize, cursor: usize, items: usize) -> (
    int,
    int,
) {
    let max_scroll = if total > inner { total - inner } else { 0 };
    let s0 = if scroll < max_scroll { scroll as int } else { max_scroll as int };
    let row = cursor_row(cursor, items);
    let s1 = if row >= s0 + inner {
        (if row > inner { row - inner } else { 0 }) + 1
    } else {
        s0
    };
    let s2 = if row < s1 { row } else { s1 };
    let end = if s2 + inner < total { s2 + inner } else { total as int };
    (s2, end)
}

/// The window of the inventory page's lines (see [`spec_bag_window`]).
pub fn bag_window(total: usize, inner: usize, scroll: usize, cursor: usize, items: usize) -> (r: (usize, usize))
    requires
        total + inner <= usize::MAX,
    ensures
        r.0 as int == spec_bag_window(total, inner, scroll, cursor, items).0,
        r.1 as int == spec_bag_window(total, inner, scroll, cursor, items).1,
{
    let max_scroll = total.saturating_sub(inner);
    let mut start = if scroll < max_scroll { scroll } else { max_scroll };
    let last = items.saturating_sub(1);
    let c = if cursor < last { cursor } else { last };
    let row = 2 + c / 2;
    if row >= start + inner {
        start = row.saturating_sub(inner) + 1;
    }
    if row < start {
        start = row;
    }
    let end = if start + inner < total { start + inner } else { total };
    (start, end)
}

} // verus!
