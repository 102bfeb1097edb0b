use openstory_console::keys::{KeyCode, KeyInput};
use openstory_console::wizard::{Field, Wizard};

fn key_char(c: char) -> KeyInput {
    KeyInput::new(KeyCode::Char(c))
}

#[test]
fn typing_and_submit() {
    let mut w = Wizard::new("127.0.0.1".into(), 8484, "acc".into(), "pass".into(), String::new());
    w.focus = Field::Account;
    w.on_key(key_char('1'));
    assert_eq!(w.account, "acc1");
    assert!(w.submit());
    let r = w.result.unwrap();
    assert_eq!(r.account, "acc1");
    assert_eq!(r.port, 8484);
    assert_eq!(r.aes_key, "");
}

#[test]
fn aes_key_field_roundtrips() {
    let mut w = Wizard::new("127.0.0.1".into(), 8484, "acc".into(), "pass".into(), String::new());
    w.focus = Field::AesKey;
    for ch in "130A06B41B0F3352".chars() {
        w.on_key(key_char(ch));
    }
    assert_eq!(w.aes_key, "130A06B41B0F3352");
    assert!(w.submit());
    assert_eq!(w.result.unwrap().aes_key, "130A06B41B0F3352");
}

#[test]
fn tab_wraps_through_aes_key() {
    let mut w = Wizard::new("127.0.0.1".into(), 8484, "acc".into(), "pass".into(), String::new());
    w.focus = Field::Password;
    w.on_key(KeyInput::new(KeyCode::Tab));
    assert_eq!(w.focus, Field::AesKey);
    w.on_key(KeyInput::new(KeyCode::Tab));
    assert_eq!(w.focus, Field::Ip);
}

#[test]
fn bad_port_rejected() {
    let mut w = Wizard::new("127.0.0.1".into(), 0, "acc".into(), "pass".into(), String::new());
    assert!(!w.submit());
    assert!(w.error.is_some());
}

#[test]
fn missing_account_rejected() {
    let mut w = Wizard::new("127.0.0.1".into(), 8484, "".into(), "pass".into(), String::new());
    assert!(!w.submit());
    assert!(w.error.is_some());
}

#[test]
fn port_only_digits() {
    let mut w = Wizard::new("127.0.0.1".into(), 8484, "a".into(), "b".into(), String::new());
    w.focus = Field::Port;
    w.on_key(key_char('x'));
    w.on_key(key_char('9'));
    assert_eq!(w.port, "84849");
}

// ---- own tests

#[test]
fn the_port_keeps_at_most_five_digits() {
    let mut w = Wizard::new("h".into(), 65535, "a".into(), "b".into(), String::new());
    w.focus = Field::Port;
    w.on_key(key_char('1'));
    assert_eq!(w.port, "65535");
}

#[test]
fn submit_errors_name_the_field() {
    let mut w = Wizard::new("  ".into(), 8484, "acc".into(), "pw".into(), String::new());
    assert!(!w.submit());
    assert_eq!(w.error.as_deref(), Some("服务器 IP 不能为空"));
    let mut w = Wizard::new("h".into(), 8484, "acc".into(), "".into(), String::new());
    assert!(!w.submit());
    assert_eq!(w.error.as_deref(), Some("密码不能为空"));
    let mut w = Wizard::new("h".into(), 0, "acc".into(), "pw".into(), String::new());
    assert!(!w.submit());
    assert_eq!(w.error.as_deref(), Some("端口无效 (1-65535)"));
}

#[test]
fn submit_trims_and_ctrl_m_submits() {
    let mut w = Wizard::new(" 10.0.0.1 ".into(), 8484, " acc ".into(), " pw ".into(), " k ".into());
    assert!(w.on_key(KeyInput::with_ctrl(KeyCode::Char('m'))));
    let r = w.result.unwrap();
    assert_eq!(r.ip, "10.0.0.1");
    assert_eq!(r.account, "acc");
    assert_eq!(r.password, " pw ");
    assert_eq!(r.aes_key, "k");
}

#[test]
fn the_focus_starts_where_typing_is_needed() {
    let w = Wizard::new("h".into(), 1, "".into(), "".into(), String::new());
    assert_eq!(w.focus, Field::Account);
    let w = Wizard::new("h".into(), 1, "acc".into(), "".into(), String::new());
    assert_eq!(w.focus, Field::Password);
    let w = Wizard::new("h".into(), 1, "acc".into(), "pw".into(), String::new());
    assert_eq!(w.focus, Field::Ip);
}

#[test]
fn next_and_prev_are_inverse() {
    for f in [Field::Ip, Field::Port, Field::Account, Field::Password, Field::AesKey] {
        assert_eq!(f.next().prev(), f);
        assert_eq!(f.prev().next(), f);
    }
}

#[test]
fn backspace_removes_the_last_character() {
    let mut w = Wizard::new("h".into(), 1, "acc".into(), "pw".into(), String::new());
    w.focus = Field::Account;
    w.on_key(KeyInput::new(KeyCode::Backspace));
    assert_eq!(w.account, "ac");
    assert_eq!(w.value(Field::Account), "ac");
}

#[test]
fn a_field_changed_in_place_is_read_back() {
    let mut w = Wizard::new("127.0.0.1".into(), 8484, "acc".into(), "pass".into(), String::new());
    assert_eq!(w.value_mut(Field::Port).as_str(), "8484");
    w.value_mut(Field::Account).push_str("2");
    assert_eq!(w.value(Field::Account), "acc2");
    assert_eq!(w.value(Field::Password), "pass");
}

#[test]
fn the_port_text_is_read_as_a_number() {
    for (text, ok) in [("+8484", true), ("65535", true), ("65536", false), ("", false), ("84a4", false), ("-1", false), ("00080", true)] {
        let mut w = Wizard::new("127.0.0.1".into(), 8484, "acc".into(), "pass".into(), String::new());
        w.port = text.to_string();
        assert_eq!(w.submit(), ok, "{text}");
    }
    let mut w = Wizard::new("127.0.0.1".into(), 8484, "acc".into(), "pass".into(), String::new());
    w.port = " +080 ".to_string();
    assert!(w.submit());
    assert_eq!(w.result.as_ref().unwrap().port, 80);
}
