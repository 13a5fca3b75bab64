use gitlab_link::config::{resolve_setting, Config};

#[test]
fn nonempty_override_wins() {
    let r = resolve_setting(Some(b"from-env".to_vec()), Some(b"from-table".to_vec()));
    assert_eq!(r, b"from-env".to_vec());
}

#[test]
fn empty_override_falls_through_to_table() {
    let r = resolve_setting(Some(Vec::new()), Some(b"from-table".to_vec()));
    assert_eq!(r, b"from-table".to_vec());
}

#[test]
fn missing_override_falls_through_to_table() {
    let r = resolve_setting(None, Some(b"from-table".to_vec()));
    assert_eq!(r, b"from-table".to_vec());
}

#[test]
fn missing_everywhere_resolves_to_empty() {
    assert_eq!(resolve_setting(None, None), Vec::<u8>::new());
    assert_eq!(resolve_setting(Some(Vec::new()), None), Vec::<u8>::new());
}

#[test]
fn resolve_fills_all_three_settings() {
    let c = Config::resolve(
        Some(b"https://env.example".to_vec()),
        Some(b"https://table.example".to_vec()),
        None,
        Some(b"grp".to_vec()),
        Some(Vec::new()),
        None,
    );
    assert_eq!(c.get_server_url(), &b"https://env.example".to_vec());
    assert_eq!(c.get_current_namespace(), &b"grp".to_vec());
    assert_eq!(c.get_current_project(), &Vec::<u8>::new());
}
