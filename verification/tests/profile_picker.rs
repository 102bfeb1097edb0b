use openstory_console::keys::{KeyCode, KeyInput};
use openstory_console::profile::{
    profile_path, validate_profile_name, NewFile, PickAction, PickerState, ProfileEntry,
    MAX_NAME_CHARS,
};

fn key(code: KeyCode) -> KeyInput {
    KeyInput::new(code)
}

fn entry(name: &str) -> ProfileEntry {
    ProfileEntry {
        name: name.into(),
        path: format!("profiles/{name}.json"),
        summary: String::new(),
    }
}

fn marks(st: &PickerState) -> Vec<usize> {
    st.marked.clone()
}

#[test]
fn validate_rejects_separators_and_reserved_prefix() {
    assert!(validate_profile_name("本地服_100000003").is_ok());
    assert!(validate_profile_name("a/b").is_err());
    assert!(validate_profile_name("a\\b").is_err());
    assert!(validate_profile_name("a:b").is_err());
    assert!(validate_profile_name("").is_err());
    assert!(validate_profile_name("   ").is_err());
    assert!(validate_profile_name("_lib").is_err());
    assert_eq!(validate_profile_name("x.json").unwrap(), "x");
}

#[test]
fn validate_names_each_refusal() {
    assert_eq!(validate_profile_name("  ").unwrap_err(), "档案名不能为空");
    assert_eq!(validate_profile_name("a*b").unwrap_err(), "档案名不能包含字符: *");
    assert_eq!(validate_profile_name("a\tb").unwrap_err(), "档案名不能包含控制字符");
    assert_eq!(
        validate_profile_name("_x").unwrap_err(),
        "下划线开头的名字保留为库文件, 请换一个名字"
    );
    assert_eq!(validate_profile_name("  acc_1  ").unwrap(), "acc_1", "outer blanks go");
    let long: String = std::iter::repeat('x').take(MAX_NAME_CHARS + 1).collect();
    assert!(validate_profile_name(&long).is_err());
    let limit: String = std::iter::repeat('x').take(MAX_NAME_CHARS).collect();
    assert!(validate_profile_name(&limit).is_ok());
}

#[test]
fn profile_path_puts_the_stem_under_the_profiles_dir() {
    assert_eq!(profile_path("acc"), "profiles/acc.json");
}

#[test]
fn navigation_and_select() {
    let mut st = PickerState::new(vec![entry("a"), entry("b")]);
    assert_eq!(st.cursor, 0);
    st.on_key(key(KeyCode::Down));
    assert_eq!(st.cursor, 1);
    st.on_key(key(KeyCode::Down));
    assert_eq!(st.cursor, 0);
    st.on_key(key(KeyCode::Up));
    assert_eq!(st.cursor, 1);
    match st.on_key(key(KeyCode::Enter)) {
        PickAction::Select(p) => assert!(p.ends_with("b.json")),
        other => panic!("expected Select, got {other:?}"),
    }
}

#[test]
fn enter_without_marks_still_selects_one() {
    let mut st = PickerState::new(vec![entry("a"), entry("b")]);
    assert!(st.marked.is_empty());
    match st.on_key(key(KeyCode::Enter)) {
        PickAction::Select(p) => assert!(p.ends_with("a.json")),
        other => panic!("{other:?}"),
    }
}

#[test]
fn space_marks_several_and_enter_returns_them_all() {
    let mut st = PickerState::new(vec![entry("a"), entry("b"), entry("c")]);
    st.on_key(key(KeyCode::Char(' ')));
    st.on_key(key(KeyCode::Down));
    st.on_key(key(KeyCode::Down));
    st.on_key(key(KeyCode::Char(' ')));
    assert_eq!(st.marked.len(), 2);
    match st.on_key(key(KeyCode::Enter)) {
        PickAction::SelectMany(v) => {
            assert_eq!(v.len(), 2, "{v:?}");
            assert!(v[0].ends_with("a.json"), "{v:?}");
            assert!(v[1].ends_with("c.json"), "{v:?}");
        }
        other => panic!("{other:?}"),
    }
}

#[test]
fn space_toggles_off_again() {
    let mut st = PickerState::new(vec![entry("a"), entry("b")]);
    st.on_key(key(KeyCode::Char(' ')));
    assert_eq!(st.marked.len(), 1);
    st.on_key(key(KeyCode::Char(' ')));
    assert!(st.marked.is_empty());
    match st.on_key(key(KeyCode::Enter)) {
        PickAction::Select(_) => {}
        other => panic!("{other:?}"),
    }
}

#[test]
fn select_all_toggles_everything() {
    let mut st = PickerState::new(vec![entry("a"), entry("b"), entry("c")]);
    st.on_key(key(KeyCode::Char('a')));
    assert_eq!(st.marked.len(), 3);
    assert_eq!(st.status, "已勾选全部 3 项");
    st.on_key(key(KeyCode::Char('a')));
    assert!(st.marked.is_empty());
}

#[test]
fn navigation_does_not_change_the_marks() {
    let mut st = PickerState::new(vec![entry("a"), entry("b"), entry("c")]);
    st.on_key(key(KeyCode::Char(' ')));
    st.on_key(key(KeyCode::Down));
    st.on_key(key(KeyCode::Down));
    assert_eq!(st.marked.len(), 1);
    assert!(st.marked.contains(&0));
    match st.on_key(key(KeyCode::Enter)) {
        PickAction::SelectMany(v) => assert_eq!(v.len(), 1),
        other => panic!("{other:?}"),
    }
}

#[test]
fn marks_stay_ascending_whatever_the_order_of_marking() {
    let mut st = PickerState::new(vec![entry("a"), entry("b"), entry("c")]);
    st.cursor = 2;
    st.on_key(key(KeyCode::Char(' ')));
    st.cursor = 0;
    st.on_key(key(KeyCode::Char(' ')));
    assert_eq!(marks(&st), vec![0, 2]);
    assert_eq!(st.marked_paths(), vec!["profiles/a.json", "profiles/c.json"]);
}

#[test]
fn deleting_reindexes_the_marks() {
    let mut st = PickerState::new(vec![entry("a"), entry("b"), entry("c")]);
    st.on_key(key(KeyCode::Char(' ')));
    st.on_key(key(KeyCode::Down));
    st.on_key(key(KeyCode::Down));
    st.on_key(key(KeyCode::Char(' ')));
    assert_eq!(marks(&st), vec![0, 2]);
    st.cursor = 1;
    assert!(matches!(st.on_key(key(KeyCode::Char('d'))), PickAction::Nothing));
    match st.on_key(key(KeyCode::Char('d'))) {
        PickAction::Delete { index, path } => {
            assert_eq!(index, 1);
            assert_eq!(path, "profiles/b.json");
            st.finish_delete(index, Ok(()));
        }
        other => panic!("{other:?}"),
    }
    assert_eq!(st.entries.len(), 2);
    assert_eq!(marks(&st), vec![0, 1]);
    match st.on_key(key(KeyCode::Enter)) {
        PickAction::SelectMany(v) => {
            assert!(v[0].ends_with("a.json"), "{v:?}");
            assert!(v[1].ends_with("c.json"), "{v:?}");
        }
        other => panic!("{other:?}"),
    }
}

#[test]
fn esc_cancels_and_delete_needs_double_confirm() {
    let mut st = PickerState::new(vec![entry("a")]);
    assert!(matches!(st.on_key(key(KeyCode::Esc)), PickAction::Cancel));
    assert!(matches!(st.on_key(key(KeyCode::Char('d'))), PickAction::Nothing));
    assert_eq!(st.delete_arm, Some(0));
    st.on_key(key(KeyCode::Down));
    assert_eq!(st.delete_arm, None);
}

#[test]
fn double_d_actually_deletes_the_file() {
    let mut st = PickerState::new(vec![entry("x"), entry("y")]);
    st.on_key(key(KeyCode::Char('d')));
    assert_eq!(st.delete_arm, Some(0));
    match st.on_key(key(KeyCode::Char('d'))) {
        PickAction::Delete { index, path } => {
            assert_eq!((index, path.as_str()), (0, "profiles/x.json"));
            st.finish_delete(index, Ok(()));
        }
        other => panic!("the second D must delete: {other:?}"),
    }
    assert_eq!(st.entries.len(), 1);
    assert_eq!(st.entries[0].name, "y");
    assert_eq!(st.cursor, 0);
    assert_eq!(st.status, "已删除 x");
}

#[test]
fn a_failed_delete_keeps_the_entry() {
    let mut st = PickerState::new(vec![entry("x")]);
    st.on_key(key(KeyCode::Char('d')));
    let idx = match st.on_key(key(KeyCode::Char('d'))) {
        PickAction::Delete { index, .. } => index,
        other => panic!("{other:?}"),
    };
    st.finish_delete(idx, Err("denied".to_string()));
    assert_eq!(st.entries.len(), 1);
    assert_eq!(st.status, "删除失败: denied");
    assert_eq!(st.delete_arm, None);
}

#[test]
fn moving_between_entries_rearms_delete() {
    let mut st = PickerState::new(vec![entry("x"), entry("y")]);
    assert!(matches!(st.on_key(key(KeyCode::Char('d'))), PickAction::Nothing));
    st.on_key(key(KeyCode::Down));
    assert!(matches!(st.on_key(key(KeyCode::Char('d'))), PickAction::Nothing));
    assert_eq!(st.delete_arm, Some(1));
    assert_eq!(st.entries.len(), 2);
}

#[test]
fn legacy_config_json_is_not_deletable() {
    let mut st = PickerState::new(vec![ProfileEntry {
        name: "config.json".into(),
        path: "config.json".into(),
        summary: String::new(),
    }]);
    assert!(matches!(st.on_key(key(KeyCode::Char('d'))), PickAction::Nothing));
    assert!(!st.status.is_empty());
    assert_eq!(st.delete_arm, None);
}

#[test]
fn name_input_flow_n_and_c() {
    let mut st = PickerState::new(vec![entry("srv_acc")]);
    st.on_key(key(KeyCode::Char('n')));
    assert!(st.name_input.is_some());
    assert!(!st.pending_copy);
    st.on_key(key(KeyCode::Esc));
    assert!(st.name_input.is_none());
    st.on_key(key(KeyCode::Char('c')));
    assert_eq!(st.name_input.as_deref(), Some("srv_acc_copy"));
    assert!(st.pending_copy);
    st.name_input = Some("bad/name".into());
    st.pending_copy = false;
    assert!(matches!(st.on_key(key(KeyCode::Enter)), PickAction::Nothing));
    assert!(st.status.contains("不能包含"), "{}", st.status);
}

#[test]
fn a_valid_new_name_asks_for_the_file_and_lists_it() {
    let mut st = PickerState::new(vec![entry("b")]);
    st.on_key(key(KeyCode::Char('n')));
    st.name_input = Some("a".into());
    let (stem, path, source) = match st.on_key(key(KeyCode::Enter)) {
        PickAction::Create { stem, path, source } => (stem, path, source),
        other => panic!("{other:?}"),
    };
    assert_eq!((stem.as_str(), path.as_str()), ("a", "profiles/a.json"));
    assert!(matches!(source, NewFile::FromTemplate));
    let next = st.finish_create(&stem, &path, &source, Ok(()), "login 100");
    match next {
        PickAction::Select(p) => assert_eq!(p, "profiles/a.json"),
        other => panic!("a new profile is entered at once: {other:?}"),
    }
    assert_eq!(st.entries.len(), 2);
    assert_eq!(st.entries[0].name, "a", "the list stays sorted by name");
    assert_eq!(st.cursor, 0, "the cursor is on the new entry");
    assert!(st.name_input.is_none());
}

#[test]
fn a_valid_name_comes_back_from_its_profile_path() {
    for raw in ["serverA_1", " 本地服_100000001.json ", ".hidden", "a.b"] {
        let name = openstory_console::profile::validate_profile_name(raw).unwrap();
        let path = openstory_console::profile::profile_path(&name);
        assert_eq!(path, format!("profiles/{name}.json"));
        assert_eq!(openstory_console::session::BotSession::profile_from_path(&path), name);
    }
}
