use openstory_console::credentials::{Credential, Credentials, Remember, StoreFile, StoreRead};

#[test]
fn remember_defaults_to_no() {
    assert_eq!(Remember::from_args(&[]), Remember::No);
    assert_eq!(Remember::from_args(&["--profiles".into(), "a.json".into()]), Remember::No);
    assert_eq!(Remember::from_args(&["--remember-password".into()]), Remember::Yes);
}

#[test]
fn no_wins_when_both_flags_are_given() {
    let args = vec!["--remember-password".to_string(), "--no-remember-password".to_string()];
    assert_eq!(Remember::from_args(&args), Remember::No);
    let args = vec!["--no-remember-password".to_string(), "--remember-password".to_string()];
    assert_eq!(Remember::from_args(&args), Remember::No);
}

#[test]
fn record_and_read_back() {
    let mut c = Credentials::in_memory(Remember::No);
    assert!(!c.has("acc1"));
    assert_eq!(c.password_for("acc1"), None);
    c.record("acc1", "100000001", "test_password");
    assert!(c.has("acc1"));
    assert_eq!(c.password_for("acc1"), Some("test_password"));
    assert_eq!(c.len(), 1);
    assert_eq!(c.profiles(), vec!["acc1"]);
}

#[test]
fn empty_password_is_treated_as_missing() {
    let mut c = Credentials::in_memory(Remember::No);
    c.record("acc1", "100000001", "");
    assert!(!c.has("acc1"));
    assert_eq!(c.password_for("acc1"), None);
}

#[test]
fn recording_an_empty_profile_name_is_ignored() {
    let mut c = Credentials::in_memory(Remember::No);
    c.record("", "acc", "pw");
    assert!(c.is_empty());
}

#[test]
fn accounts_are_keyed_by_profile_not_by_account() {
    let mut c = Credentials::in_memory(Remember::No);
    c.record("serverA", "100000001", "pw_a");
    c.record("serverB", "100000001", "pw_b");
    assert_eq!(c.password_for("serverA"), Some("pw_a"));
    assert_eq!(c.password_for("serverB"), Some("pw_b"));
}

#[test]
fn save_is_a_noop_when_not_remembering() {
    let mut c = Credentials::from_read("x/.manager.json".to_string(), Remember::No, StoreRead::Missing);
    c.record("acc1", "a", "pw");
    assert!(c.save_plan().is_none());
}

#[test]
fn missing_file_is_not_an_error() {
    let c = Credentials::from_read("nope/.manager.json".to_string(), Remember::Yes, StoreRead::Missing);
    assert!(c.is_empty());
    assert!(c.load_error().is_none());
}

// ---- own tests

#[test]
fn a_corrupt_file_keeps_nothing_and_says_why() {
    let c = Credentials::from_read(
        "p/.manager.json".to_string(),
        Remember::Yes,
        StoreRead::Corrupt("expected value".to_string()),
    );
    assert!(c.is_empty());
    assert_eq!(c.load_error(), Some("p/.manager.json 不是有效的 JSON: expected value"));
}

#[test]
fn an_unreadable_file_keeps_nothing_and_says_why() {
    let c = Credentials::from_read(
        "p/.manager.json".to_string(),
        Remember::Yes,
        StoreRead::Unreadable("permission denied".to_string()),
    );
    assert!(c.is_empty());
    assert_eq!(c.load_error(), Some("无法读取 p/.manager.json: permission denied"));
}

#[test]
fn a_parsed_file_is_read_back_sorted() {
    let file = StoreFile {
        version: 1,
        warning: String::new(),
        profiles: vec![
            ("本地服_100000001".to_string(), Credential { account: "100000001".into(), password: "test_password".into() }),
            ("serverA_1".to_string(), Credential { account: "100000002".into(), password: "hunter2".into() }),
        ],
    };
    let c = Credentials::from_read("p/.manager.json".to_string(), Remember::Yes, StoreRead::Parsed(file));
    assert!(c.load_error().is_none());
    assert_eq!(c.password_for("本地服_100000001"), Some("test_password"));
    assert_eq!(c.password_for("serverA_1"), Some("hunter2"));
    assert_eq!(c.profiles(), vec!["serverA_1", "本地服_100000001"]);
}

#[test]
fn the_save_plan_writes_every_entry_and_the_warning() {
    let mut c = Credentials::from_read("p/.manager.json".to_string(), Remember::Yes, StoreRead::Missing);
    c.record("b", "2", "pw2");
    c.record("a", "1", "pw1");
    let plan = c.save_plan().expect("remembering with a path saves");
    assert!(plan.warning.contains("明文"));
    let names: Vec<&str> = plan.profiles.iter().map(|p| p.0.as_str()).collect();
    assert_eq!(names, vec!["a", "b"]);
    assert_eq!(plan.profiles[1].1.password, "pw2");
}

#[test]
fn recording_again_replaces_the_entry() {
    let mut c = Credentials::in_memory(Remember::No);
    c.record("acc", "1", "old");
    c.record("acc", "1", "new");
    assert_eq!(c.len(), 1);
    assert_eq!(c.password_for("acc"), Some("new"));
}

#[test]
fn clearing_forgets_everything() {
    let mut c = Credentials::in_memory(Remember::Yes);
    c.record("acc", "1", "pw");
    c.clear_entries();
    assert!(c.is_empty());
    assert_eq!(c.password_for("acc"), None);
}

#[test]
fn the_default_path_is_under_profiles() {
    assert_eq!(Credentials::default_path(), "profiles/.manager.json");
}

#[test]
fn what_saving_writes_reads_back_as_the_same_store() {
    let mut c = Credentials::from_read("p/.manager.json".to_string(), Remember::Yes, StoreRead::Missing);
    c.record("本地服_100000001", "100000001", "test_password");
    c.record("serverA_1", "100000002", "hunter2");
    c.record("blank", "3", "");
    let plan = c.save_plan().unwrap();
    let b = Credentials::from_read("p/.manager.json".to_string(), Remember::Yes, StoreRead::Parsed(plan));
    assert_eq!(b.load_error(), None);
    assert_eq!(b.profiles(), c.profiles());
    for p in ["本地服_100000001", "serverA_1", "blank", "none"] {
        assert_eq!(b.password_for(p), c.password_for(p));
    }
}
