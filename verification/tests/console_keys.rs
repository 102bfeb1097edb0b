use openstory_console::board::display_width;
use openstory_console::console::{App, Category, Effect, Filter, SnapView};
use openstory_console::keys::{KeyCode, KeyInput};
use openstory_console::session::{STAGE_RUNNING, STAGE_WIZARD};
use openstory_console::text::{insert_at, remove_at};

fn test_app() -> App {
    App::new(false, "127.0.0.1".into(), 8484, String::new(), String::new(), String::new())
}

fn key(kc: KeyCode) -> KeyInput {
    KeyInput::new(kc)
}

/// The lines handed to the bot's command channel.
fn sent(fx: &[Effect]) -> Vec<String> {
    fx.iter()
        .filter_map(|e| match e {
            Effect::Send(s) => Some(s.clone()),
            _ => None,
        })
        .collect()
}

fn snap_with(f: impl FnOnce(&mut SnapView)) -> SnapView {
    let mut s = SnapView::empty();
    f(&mut s);
    s
}

fn bag_app(inventory: Vec<(u8, i16, i32, i16)>, shop_open: bool) -> App {
    let mut app = test_app();
    app.snap = snap_with(|s| {
        s.inventory = inventory;
        s.shop_open = shop_open;
    });
    app.bag_open = true;
    app
}

#[test]
fn insert_remove_cjk() {
    let mut s = String::from("你好");
    insert_at(&mut s, 1, '中');
    assert_eq!(s, "你中好");
    remove_at(&mut s, 1);
    assert_eq!(s, "你好");
    insert_at(&mut s, 99, '!');
    assert_eq!(s, "你好!");
}

#[test]
fn bag_drop_discards_selected_slot() {
    let mut app = bag_app(vec![(1, 1, 1302000, 0), (2, 3, 2000001, 25), (2, 5, 2000001, 10)], false);
    // cursor 0 = the equipment slot 1: it can be dropped too
    let fx = app.on_key(key(KeyCode::Char('d')), 0);
    assert_eq!(sent(&fx), vec!["drop 1302000 1 slot 1".to_string()]);
    // cursor 1 = slot 3 with 25: the whole slot
    app.bag_cursor = 1;
    let fx = app.on_key(key(KeyCode::Char('d')), 0);
    assert_eq!(sent(&fx), vec!["drop 2000001 25 slot 3".to_string()]);
    // cursor 2 = another slot of the same item: that slot
    app.bag_cursor = 2;
    let fx = app.on_key(key(KeyCode::Char('d')), 0);
    assert_eq!(sent(&fx), vec!["drop 2000001 10 slot 5".to_string()]);
}

#[test]
fn bag_equip_wears_selected_equip() {
    let mut app = bag_app(vec![(1, 1, 1302000, 0), (2, 3, 2000001, 25)], false);
    let fx = app.on_key(key(KeyCode::Char('e')), 0);
    assert_eq!(sent(&fx), vec!["equip 1302000".to_string()]);
    // a consumable: a hint, no command
    app.bag_cursor = 1;
    let fx = app.on_key(key(KeyCode::Char('e')), 0);
    assert!(sent(&fx).is_empty());
}

#[test]
fn bag_enter_sells_selected_slot_or_all_slots() {
    let mut app = bag_app(vec![(1, 1, 1302000, 0), (2, 3, 2000001, 25), (2, 5, 2000001, 10)], true);
    let fx = app.on_key(key(KeyCode::Enter), 0);
    assert_eq!(sent(&fx), vec!["sell 1302000 1 slot 1".to_string()]);
    app.bag_cursor = 1;
    let fx = app.on_key(key(KeyCode::Enter), 0);
    assert_eq!(sent(&fx), vec!["sell 2000001 25 slot 3".to_string()]);
    // the second mode sells every slot of the item under the cursor
    app.bag_mode = 1;
    let fx = app.on_key(key(KeyCode::Enter), 0);
    assert_eq!(sent(&fx), vec!["sell 2000001 0".to_string()]);
    // no shop open: nothing is sent
    app.snap.shop_open = false;
    let fx = app.on_key(key(KeyCode::Enter), 0);
    assert!(sent(&fx).is_empty());
}

#[test]
fn filter_cycles() {
    assert_eq!(Filter::All.next(), Filter::Cat(Category::Chat));
    // the last page is the status page; after it comes All again
    assert_eq!(Filter::Status.next(), Filter::All);
    assert_eq!(Filter::prev(Filter::Status), Filter::Cat(Category::Error));
}

#[test]
fn display_width_cjk() {
    assert_eq!(display_width("ab"), 2);
    assert_eq!(display_width("你好"), 4);
}

// ---- NPC option chooser (npmenu) ----

#[test]
fn npmenu_default_on_and_toggle_off_blocks_popup() {
    let mut app = test_app();
    assert!(app.npmenu);
    app.snap = snap_with(|s| {
        s.npc_options = vec![1, 2];
        s.npc_options_seq = 7;
    });
    app.auto_npc_pick();
    assert!(app.npc_pick_open);
    // switched off by a local command (nothing goes to the bot)
    app.input.push_str("npmenu off");
    let fx = app.submit();
    assert!(sent(&fx).is_empty());
    assert!(!app.npmenu);
    app.snap = snap_with(|s| {
        s.npc_options = vec![3];
        s.npc_options_seq = 8;
    });
    app.auto_npc_pick();
    assert!(!app.npc_pick_open);
}

#[test]
fn automation_suppresses_npc_and_shop_popups() {
    let mut app = test_app();
    app.npmenu = true;
    app.shop_menu = true;
    // a task holds the bot: neither menu pops up
    app.snap = snap_with(|s| {
        s.task_busy = true;
        s.npc_options = vec![1];
        s.npc_options_seq = 5;
        s.shop_items = vec![2000000];
        s.shop_seq = 3;
    });
    app.auto_npc_pick();
    app.auto_shop_pick();
    assert!(!app.npc_pick_open);
    assert!(!app.shop_pick_open);
    // the pages are left to look at later
    assert_eq!(app.npc_seen_seq, 0);
    assert_eq!(app.shop_seen_seq, 0);
    // choosers already open close when a task starts (the quantity too)
    app.npc_pick_open = true;
    app.shop_pick_open = true;
    app.shop_qty.push('5');
    app.auto_npc_pick();
    app.auto_shop_pick();
    assert!(!app.npc_pick_open);
    assert!(!app.shop_pick_open);
    assert!(app.shop_qty.is_empty());
}

#[test]
fn after_automation_shop_popup_shows_only_if_shop_still_open() {
    let mut app = test_app();
    app.npmenu = true;
    app.shop_menu = true;
    // a shop-opening task ended with the shop still open
    app.snap = snap_with(|s| {
        s.shop_items = vec![2000000];
        s.shop_seq = 3;
        s.shop_open = true;
        s.npc_options = Vec::new();
        s.npc_options_seq = 9;
    });
    app.auto_npc_pick();
    app.auto_shop_pick();
    assert!(app.shop_pick_open, "the shop chooser shows after the task");
    assert!(!app.npc_pick_open, "an emptied NPC menu does not pop up");
    // a selling chain left the shop before it ended: nothing shows
    let mut app2 = test_app();
    app2.npmenu = true;
    app2.shop_menu = true;
    app2.snap = snap_with(|s| {
        s.shop_items = Vec::new();
        s.shop_seq = 4;
        s.shop_open = false;
        s.npc_options = Vec::new();
        s.npc_options_seq = 10;
    });
    app2.auto_npc_pick();
    app2.auto_shop_pick();
    assert!(!app2.shop_pick_open);
    assert!(!app2.npc_pick_open);
}

#[test]
fn npc_pick_opens_on_menu_and_closes_on_plain_dialog() {
    let mut app = test_app();
    app.npmenu = true;
    app.snap = snap_with(|s| {
        s.npc_options = vec![203, 204];
        s.npc_options_seq = 3;
    });
    app.auto_npc_pick();
    assert!(app.npc_pick_open);
    assert_eq!(app.npc_pick_cursor, 0);
    assert_eq!(app.npc_seen_seq, 3);
    // the same page does not pop up again
    app.npc_pick_open = false;
    app.auto_npc_pick();
    assert!(!app.npc_pick_open);
    // a dialog without options: nothing pops up
    app.snap = snap_with(|s| {
        s.npc_options = vec![];
        s.npc_options_seq = 4;
    });
    app.auto_npc_pick();
    assert!(!app.npc_pick_open);
    assert_eq!(app.npc_seen_seq, 4);
    // a new menu pops up again, cursor at the top
    app.snap = snap_with(|s| {
        s.npc_options = vec![1];
        s.npc_options_seq = 5;
    });
    app.auto_npc_pick();
    assert!(app.npc_pick_open);
    assert_eq!(app.npc_pick_cursor, 0);
}

#[test]
fn npc_pick_enter_sends_reply_and_closes() {
    let mut app = test_app();
    app.npmenu = true;
    app.snap = snap_with(|s| {
        s.npc_options = vec![203, 204, 205];
        s.npc_options_seq = 9;
    });
    app.auto_npc_pick();
    assert!(app.npc_pick_open);
    let fx = app.on_key(key(KeyCode::Enter), 0);
    assert_eq!(sent(&fx), vec!["npc reply 203".to_string()]);
    assert!(!app.npc_pick_open);
    assert_eq!(app.npc_seen_seq, 9, "the page is marked seen");
    app.auto_npc_pick();
    assert!(!app.npc_pick_open);
}

#[test]
fn npc_pick_esc_closes_without_sending() {
    let mut app = test_app();
    app.npmenu = true;
    app.snap = snap_with(|s| {
        s.npc_options = vec![203];
        s.npc_options_seq = 2;
    });
    app.auto_npc_pick();
    let fx = app.on_key(key(KeyCode::Esc), 0);
    assert!(!app.npc_pick_open);
    assert!(sent(&fx).is_empty(), "Esc sends nothing");
}

#[test]
fn npc_pick_arrows_cycle() {
    let mut app = test_app();
    app.npmenu = true;
    app.snap = snap_with(|s| {
        s.npc_options = vec![203, 204, 205];
        s.npc_options_seq = 6;
    });
    app.auto_npc_pick();
    app.on_key(key(KeyCode::Down), 0);
    assert_eq!(app.npc_pick_cursor, 1);
    app.on_key(key(KeyCode::Down), 0);
    assert_eq!(app.npc_pick_cursor, 2);
    app.on_key(key(KeyCode::Down), 0);
    assert_eq!(app.npc_pick_cursor, 0);
    app.on_key(key(KeyCode::Up), 0);
    assert_eq!(app.npc_pick_cursor, 2);
    // with the chooser open other keys never reach the input line
    app.input.push('z');
    app.on_key(key(KeyCode::Char('x')), 0);
    assert_eq!(app.input, "z", "keys are swallowed while the chooser is open");
}

// ---- shop chooser (shop menu) ----

#[test]
fn shop_menu_default_on_and_toggle_off_blocks_popup() {
    let mut app = test_app();
    assert!(app.shop_menu);
    app.snap = snap_with(|s| {
        s.shop_items = vec![2000001];
        s.shop_seq = 3;
    });
    app.auto_shop_pick();
    assert!(app.shop_pick_open);
    app.input.push_str("shop menu off");
    let fx = app.submit();
    assert!(sent(&fx).is_empty());
    assert!(!app.shop_menu);
    app.snap = snap_with(|s| {
        s.shop_items = vec![2000002];
        s.shop_seq = 4;
    });
    app.auto_shop_pick();
    assert!(!app.shop_pick_open);
}

#[test]
fn shop_pick_opens_on_list_and_closes_when_cleared() {
    let mut app = test_app();
    app.shop_menu = true;
    app.snap = snap_with(|s| {
        s.shop_items = vec![2000001, 2000002];
        s.shop_seq = 1;
    });
    app.auto_shop_pick();
    assert!(app.shop_pick_open);
    assert_eq!(app.shop_pick_cursor, 0);
    assert_eq!(app.shop_seen_seq, 1);
    app.shop_pick_open = false;
    app.auto_shop_pick();
    assert!(!app.shop_pick_open);
    app.snap = snap_with(|s| {
        s.shop_items = vec![2000003];
        s.shop_seq = 2;
    });
    app.auto_shop_pick();
    assert!(app.shop_pick_open);
    assert_eq!(app.shop_pick_cursor, 0);
    // the shop closed: the chooser folds and the quantity goes
    app.snap = snap_with(|s| {
        s.shop_items = vec![];
        s.shop_seq = 3;
    });
    app.auto_shop_pick();
    assert!(!app.shop_pick_open);
    assert!(app.shop_qty.is_empty());
}

#[test]
fn shop_pick_enter_buys_with_qty_and_keeps_qty() {
    let mut app = test_app();
    app.shop_menu = true;
    app.snap = snap_with(|s| {
        s.shop_items = vec![2000001, 2000002];
        s.shop_seq = 5;
    });
    app.auto_shop_pick();
    // no quantity: one
    let fx = app.on_key(key(KeyCode::Enter), 0);
    assert_eq!(sent(&fx), vec!["buy 2000001 1".to_string()]);
    app.shop_qty.push('5');
    app.shop_qty.push('0');
    let fx = app.on_key(key(KeyCode::Enter), 0);
    assert_eq!(sent(&fx), vec!["buy 2000001 50".to_string()]);
    assert_eq!(app.shop_qty, "50", "the quantity stays after buying");
    assert!(app.shop_pick_open);
    app.shop_pick_cursor = 1;
    let fx = app.on_key(key(KeyCode::Enter), 0);
    assert_eq!(sent(&fx), vec!["buy 2000002 50".to_string()]);
}

#[test]
fn shop_pick_keys_digits_backspace_esc() {
    let mut app = test_app();
    app.shop_menu = true;
    app.snap = snap_with(|s| {
        s.shop_items = vec![2000001];
        s.shop_seq = 6;
    });
    app.auto_shop_pick();
    app.on_key(key(KeyCode::Char('1')), 0);
    app.on_key(key(KeyCode::Char('2')), 0);
    assert_eq!(app.shop_qty, "12");
    app.on_key(key(KeyCode::Backspace), 0);
    assert_eq!(app.shop_qty, "1");
    // other keys are swallowed while the chooser is open
    app.input.push('z');
    app.on_key(key(KeyCode::Char('a')), 0);
    assert_eq!(app.input, "z");
    // at most five digits
    for c in ['1', '2', '3', '4', '5', '6'] {
        app.on_key(key(KeyCode::Char(c)), 0);
    }
    assert_eq!(app.shop_qty.len(), 5);
    // Esc clears the quantity first, the chooser stays
    app.on_key(key(KeyCode::Esc), 0);
    assert!(app.shop_pick_open);
    assert!(app.shop_qty.is_empty());
    // then Esc closes it
    app.on_key(key(KeyCode::Esc), 0);
    assert!(!app.shop_pick_open);
}

#[test]
fn shop_pick_arrows_cycle() {
    let mut app = test_app();
    app.shop_menu = true;
    app.snap = snap_with(|s| {
        s.shop_items = vec![2000001, 2000002, 2000003];
        s.shop_seq = 7;
    });
    app.auto_shop_pick();
    app.on_key(key(KeyCode::Down), 0);
    assert_eq!(app.shop_pick_cursor, 1);
    app.on_key(key(KeyCode::Down), 0);
    assert_eq!(app.shop_pick_cursor, 2);
    app.on_key(key(KeyCode::Down), 0);
    assert_eq!(app.shop_pick_cursor, 0, "wraps around");
    app.on_key(key(KeyCode::Up), 0);
    assert_eq!(app.shop_pick_cursor, 2, "wraps around upwards");
}

#[test]
fn reconnect_back_to_wizard_clears_popups() {
    // the connection dropped and the login form comes back: the choosers
    // and the quantity must not survive into the next session
    let mut app = test_app();
    assert_eq!(app.stage, STAGE_RUNNING);
    app.npc_pick_open = true;
    app.shop_pick_open = true;
    app.shop_qty.push('5');
    let reopen = app.on_stage(STAGE_WIZARD);
    assert!(reopen);
    assert_eq!(app.stage, STAGE_WIZARD);
    assert!(!app.npc_pick_open, "the NPC chooser is cleared");
    assert!(!app.shop_pick_open, "the shop chooser is cleared");
    assert!(app.shop_qty.is_empty(), "the quantity is cleared");
}

#[test]
fn a_new_snapshot_is_taken_and_followed_by_the_choosers() {
    let mut app = test_app();
    app.take_snapshot(Some(snap_with(|s| {
        s.npc_options = vec![7];
        s.npc_options_seq = 1;
    })));
    assert_eq!(app.snap.npc_options, vec![7]);
    assert!(app.npc_pick_open);
    // no snapshot: the view stays
    app.take_snapshot(None);
    assert_eq!(app.snap.npc_options_seq, 1);
}

#[test]
fn the_typed_quantity_is_read_as_a_number_within_bounds() {
    let mut app = test_app();
    app.shop_menu = true;
    app.snap = snap_with(|s| {
        s.shop_items = vec![2000001];
        s.shop_seq = 5;
    });
    app.auto_shop_pick();
    for (typed, qty) in [("+12", 12), ("-5", 1), ("99999", 9999), ("2147483648", 1), ("-2147483648", 1), ("2147483647", 9999), ("1x", 1)] {
        app.shop_qty = typed.to_string();
        let fx = app.on_key(key(KeyCode::Enter), 0);
        assert_eq!(sent(&fx), vec![format!("buy 2000001 {qty}")], "{typed}");
    }
}
