use nrun::tmux::{
    display_pane_pid_argv, display_status_argv, kill_window_argv, new_window_argv, pane_command,
    parse_pane_id, parse_pane_status, parse_pid, pipe_pane_argv, respawn_pane_argv,
    set_remain_on_exit_argv, sh_single_quote, PaneStatus, PLACEHOLDER_COMMAND,
};

#[test]
fn sh_single_quote_wraps_plain_strings() {
    assert_eq!(sh_single_quote("abc"), "'abc'");
    assert_eq!(sh_single_quote("a b c"), "'a b c'");
}

#[test]
fn sh_single_quote_escapes_embedded_quotes() {
    assert_eq!(sh_single_quote("it's"), r#"'it'\''s'"#);
}

#[test]
fn sh_single_quote_handles_edge_cases() {
    assert_eq!(sh_single_quote(""), "''");
    assert_eq!(sh_single_quote("'"), r#"''\'''"#);
    assert_eq!(sh_single_quote("$HOME `x` \"y\""), "'$HOME `x` \"y\"'");
}

#[test]
fn pane_command_execs_bash_with_quoted_script() {
    assert_eq!(
        pane_command("/tmp/run web.sh"),
        "exec bash '/tmp/run web.sh'"
    );
}

#[test]
fn new_window_argv_is_detached_and_prints_pane_id() {
    assert_eq!(
        new_window_argv("web"),
        vec![
            "new-window",
            "-d",
            "-P",
            "-F",
            "#{pane_id}",
            "-n",
            "web",
            "exec sleep 2147483647",
        ]
    );
    assert_eq!(PLACEHOLDER_COMMAND, "exec sleep 2147483647");
}

#[test]
fn respawn_pane_argv_replaces_with_quoted_command() {
    assert_eq!(
        respawn_pane_argv("%3", "/r.sh"),
        vec!["respawn-pane", "-k", "-t", "%3", "exec bash '/r.sh'"]
    );
}

#[test]
fn set_remain_on_exit_argv_targets_pane() {
    assert_eq!(
        set_remain_on_exit_argv("%3"),
        vec!["set-option", "-p", "-t", "%3", "remain-on-exit", "on"]
    );
}

#[test]
fn pipe_pane_argv_appends_to_quoted_log() {
    assert_eq!(
        pipe_pane_argv("%3", "/tmp/x.log"),
        vec!["pipe-pane", "-o", "-t", "%3", "cat >> '/tmp/x.log'"]
    );
}

#[test]
fn pipe_pane_argv_escapes_quotes_in_log_path() {
    assert_eq!(
        pipe_pane_argv("%3", "/tmp/it's.log")[4],
        r#"cat >> '/tmp/it'\''s.log'"#
    );
}

#[test]
fn display_argv_builders() {
    assert_eq!(
        display_pane_pid_argv("%3"),
        vec!["display-message", "-p", "-t", "%3", "#{pane_pid}"]
    );
    assert_eq!(
        display_status_argv("%3"),
        vec![
            "display-message",
            "-p",
            "-t",
            "%3",
            "#{pane_dead}|#{pane_dead_status}"
        ]
    );
}

#[test]
fn kill_window_argv_targets_pane() {
    assert_eq!(kill_window_argv("%3"), vec!["kill-window", "-t", "%3"]);
}

#[test]
fn parse_pane_id_trims_and_rejects_empty() {
    assert_eq!(parse_pane_id("%3\n"), Some("%3".to_string()));
    assert_eq!(parse_pane_id("  %12  \n"), Some("%12".to_string()));
    assert_eq!(parse_pane_id(""), None);
    assert_eq!(parse_pane_id("   \n"), None);
}

#[test]
fn parse_pane_id_trims_unicode_whitespace() {
    assert_eq!(parse_pane_id("\u{a0}%4\u{3000}\r\n"), Some("%4".to_string()));
    assert_eq!(parse_pane_id("\t\u{2028}"), None);
}

#[test]
fn parse_pid_parses_or_rejects() {
    assert_eq!(parse_pid("12345\n"), Some(12345));
    assert_eq!(parse_pid("  42 "), Some(42));
    assert_eq!(parse_pid("notapid"), None);
    assert_eq!(parse_pid(""), None);
}

#[test]
fn parse_pid_follows_i32_parsing() {
    assert_eq!(parse_pid("+7"), Some(7));
    assert_eq!(parse_pid("-7"), Some(-7));
    assert_eq!(parse_pid("+"), None);
    assert_eq!(parse_pid("-"), None);
    assert_eq!(parse_pid("2147483647"), Some(i32::MAX));
    assert_eq!(parse_pid("2147483648"), None);
    assert_eq!(parse_pid("-2147483648"), Some(i32::MIN));
    assert_eq!(parse_pid("-2147483649"), None);
    assert_eq!(parse_pid("99999999999999999999"), None);
    assert_eq!(parse_pid("12 34"), None);
    assert_eq!(parse_pid("007"), Some(7));
}

#[test]
fn parse_pane_status_alive() {
    assert_eq!(parse_pane_status("0|"), PaneStatus::Alive);
    assert_eq!(parse_pane_status("0|\n"), PaneStatus::Alive);
}

#[test]
fn parse_pane_status_dead_with_status() {
    assert_eq!(parse_pane_status("1|0"), PaneStatus::Dead(Some(0)));
    assert_eq!(parse_pane_status("1|137\n"), PaneStatus::Dead(Some(137)));
}

#[test]
fn parse_pane_status_dead_without_status() {
    assert_eq!(parse_pane_status("1|"), PaneStatus::Dead(None));
}

#[test]
fn parse_pane_status_edge_cases() {
    assert_eq!(parse_pane_status("1"), PaneStatus::Dead(None));
    assert_eq!(parse_pane_status(" 1 | 3 \r\n"), PaneStatus::Dead(Some(3)));
    assert_eq!(parse_pane_status("1|2|3"), PaneStatus::Dead(None));
    assert_eq!(parse_pane_status("11|0"), PaneStatus::Alive);
    assert_eq!(parse_pane_status(""), PaneStatus::Alive);
    assert_eq!(parse_pane_status("1|x"), PaneStatus::Dead(None));
}
