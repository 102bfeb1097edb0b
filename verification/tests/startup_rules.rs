use openstory_console::{autostart_from_args, flag_values, needs_login_wizard, restart_enabled_from_args, will_autostart};

#[test]
fn autostart_rules_are_ordered_by_specificity() {
    assert!(will_autostart("a", true, &[]));
    assert!(will_autostart("a", true, &["a".into()]));
    assert!(!will_autostart("b", true, &["a".into()]));
    assert!(!will_autostart("a", false, &["a".into()]));
    assert!(!will_autostart("a", false, &[]));
}

#[test]
fn multi_session_never_opens_the_login_wizard() {
    assert!(!needs_login_wizard(2, true, true));
    assert!(!needs_login_wizard(1, true, true));
    assert!(!needs_login_wizard(2, false, false));
    assert!(needs_login_wizard(0, true, false));
    assert!(needs_login_wizard(0, false, true));
    assert!(!needs_login_wizard(0, false, false));
}

// ---- own tests

fn args(v: &[&str]) -> Vec<String> {
    v.iter().map(|s| s.to_string()).collect()
}

#[test]
fn flag_values_stop_at_the_next_option() {
    let a = args(&["--profiles", "a.json", "b.json", "--no-restart", "c.json"]);
    assert_eq!(flag_values(&a, "--profiles", "--profiles"), vec!["a.json", "b.json"]);
    let s = args(&["x", "--start", "acc1", "acc2"]);
    assert_eq!(flag_values(&s, "--start", "--autostart"), vec!["acc1", "acc2"]);
    let t = args(&["--autostart", "acc3", "--start", "acc4"]);
    assert_eq!(flag_values(&t, "--start", "--autostart"), vec!["acc3"]);
    assert!(flag_values(&args(&["--other"]), "--start", "--autostart").is_empty());
}

#[test]
fn restart_and_autostart_switches() {
    assert!(restart_enabled_from_args(&args(&["--profiles", "a"])));
    assert!(!restart_enabled_from_args(&args(&["--no-restart"])));
    assert!(autostart_from_args(&args(&[])));
    assert!(!autostart_from_args(&args(&["--manual"])));
    assert!(!autostart_from_args(&args(&["x", "--no-autostart"])));
}
