use gwx::config::{config_base, creds_dir, expand_home, remote_host};
use gwx::text::{chars_of, decimal_string, join_strings, lines_of, str_eq, trim_string};

#[test]
fn trim_removes_unicode_white_space_at_both_ends() {
    assert_eq!(trim_string("  \t hello world \n\u{3000}"), "hello world");
    assert_eq!(trim_string(" \r\n "), "");
    assert_eq!(trim_string("x"), "x");
}

#[test]
fn lines_split_like_str_lines() {
    for s in ["a\nb\r\nc", "a\n\nb\n", "", "\n", "x\r", "one\r\ntwo\r\n", "a\rb\nc"] {
        let v = chars_of(s);
        let got = lines_of(&v);
        let want: Vec<String> = s.lines().map(|l| l.to_string()).collect();
        assert_eq!(got, want, "input {s:?}");
    }
}

#[test]
fn decimal_and_join() {
    assert_eq!(decimal_string(0), "0");
    assert_eq!(decimal_string(10), "10");
    assert_eq!(decimal_string(4294967295), "4294967295");
    let parts = vec!["a".to_string(), "b".to_string(), "c".to_string()];
    assert_eq!(join_strings(&parts, ", "), "a, b, c");
    assert_eq!(join_strings(&Vec::new(), ", "), "");
    assert!(str_eq("work", "work"));
    assert!(!str_eq("work", "workx"));
}

#[test]
fn remote_host_needs_more_than_white_space() {
    assert_eq!(remote_host(None), None);
    assert_eq!(remote_host(Some("   ".to_string())), None);
    assert_eq!(remote_host(Some("".to_string())), None);
    assert_eq!(remote_host(Some(" anchor ".to_string())), Some(" anchor ".to_string()));
}

#[test]
fn directories_default_when_unset() {
    assert_eq!(creds_dir(None), "$HOME/gwx-creds");
    assert_eq!(creds_dir(Some("/srv/creds".to_string())), "/srv/creds");
    assert_eq!(config_base(None), "$HOME/.gwx/accounts");
    assert_eq!(config_base(Some("/etc/gwx".to_string())), "/etc/gwx");
}

#[test]
fn expand_home_replaces_only_a_leading_home() {
    assert_eq!(expand_home("$HOME/.gwx/accounts/work", Some("/home/u".to_string())), "/home/u/.gwx/accounts/work");
    assert_eq!(expand_home("$HOME", Some("/root".to_string())), "/root");
    assert_eq!(expand_home("$HOME/x", None), "$HOME/x");
    assert_eq!(expand_home("/abs/$HOME", Some("/h".to_string())), "/abs/$HOME");
    assert_eq!(expand_home("$HOM", Some("/h".to_string())), "$HOM");
}
