use audiod::settings::{connect_name, fifo_path, find_arg, resolve_setting, Arg, SERVER_PORT};

fn args(items: &[&str]) -> Vec<String> {
    items.iter().map(|s| s.to_string()).collect()
}

fn fifo_arg() -> Arg {
    Arg { long: "--fifo".to_string(), short: "-f".to_string() }
}

#[test]
fn find_arg_long_form() {
    let a = args(&["prog", "--fifo", "/tmp/x"]);
    assert_eq!(find_arg(&a, &fifo_arg()), Some("/tmp/x".to_string()));
}

#[test]
fn find_arg_short_form() {
    let a = args(&["prog", "-n", "name", "-f", "/tmp/y"]);
    assert_eq!(find_arg(&a, &fifo_arg()), Some("/tmp/y".to_string()));
}

#[test]
fn find_arg_first_occurrence_wins() {
    let a = args(&["prog", "-f", "/a", "--fifo", "/b"]);
    assert_eq!(find_arg(&a, &fifo_arg()), Some("/a".to_string()));
}

#[test]
fn find_arg_flag_without_value() {
    let a = args(&["prog", "--fifo"]);
    assert_eq!(find_arg(&a, &fifo_arg()), None);
}

#[test]
fn find_arg_ignores_program_name() {
    let a = args(&["--fifo", "/tmp/z"]);
    assert_eq!(find_arg(&a, &fifo_arg()), None);
}

#[test]
fn find_arg_value_may_look_like_flag() {
    let a = args(&["prog", "--fifo", "-f"]);
    assert_eq!(find_arg(&a, &fifo_arg()), Some("-f".to_string()));
}

#[test]
fn resolve_prefers_command_line() {
    assert_eq!(resolve_setting(Some("a".into()), Some("b".into()), "c"), "a");
    assert_eq!(resolve_setting(None, Some("b".into()), "c"), "b");
    assert_eq!(resolve_setting(None, None, "c"), "c");
}

#[test]
fn fifo_path_sources() {
    assert_eq!(fifo_path(&args(&["prog", "-f", "/cli"]), Some("/env".into())), "/cli");
    assert_eq!(fifo_path(&args(&["prog"]), Some("/env".into())), "/env");
    assert_eq!(fifo_path(&args(&["prog"]), None), "/tmp/spotify_fifo");
}

#[test]
fn connect_name_sources() {
    assert_eq!(connect_name(&args(&["prog", "--connect-name", "Kitchen"]), None), "Kitchen");
    assert_eq!(connect_name(&args(&["prog", "-n", "Bath"]), Some("Env".into())), "Bath");
    assert_eq!(connect_name(&args(&["prog", "-f", "x"]), Some("Env".into())), "Env");
    assert_eq!(connect_name(&args(&["prog"]), None), "spotify_connect");
}

#[test]
fn server_port_value() {
    assert_eq!(SERVER_PORT, 8080);
}
