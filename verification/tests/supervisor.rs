use nrun::cli::Config;
use nrun::supervisor::{
    status_from_reply, tmux_failure_message, Action, Event, Failure, Phase, Supervisor,
};
use nrun::tmux::PaneStatus;

fn config(log: Option<&str>, docker: Option<&str>) -> Config {
    Config {
        title: "web".to_string(),
        log: log.map(|s| s.to_string()),
        docker_name: docker.map(|s| s.to_string()),
        script: "/r.sh".to_string(),
    }
}

fn ok(stdout: &str) -> Event {
    Event::Tmux { success: true, stdout: stdout.as_bytes().to_vec(), stderr: Vec::new() }
}

fn tmux_argv(a: &Action) -> Vec<String> {
    match a {
        Action::Tmux { argv } => argv.clone(),
        _ => panic!("expected a tmux action"),
    }
}

fn sup_log(cfg: &Config) -> String {
    cfg.log_path(42, "/tmp")
}

/// Drives a supervisor through startup to its first relay, with pane `%3`
/// and pane pid 77.
fn started(cfg: &Config) -> Supervisor {
    let mut sup = Supervisor::new(cfg, 42, "/tmp");
    match sup.step(Event::Begin { in_tmux: true }) {
        Action::CreateLog { path } => assert_eq!(path, sup_log(cfg)),
        _ => panic!("expected CreateLog"),
    }
    let a = sup.step(Event::Done);
    assert_eq!(tmux_argv(&a)[0], "new-window");
    let a = sup.step(ok("%3\n"));
    assert_eq!(tmux_argv(&a), vec!["set-option", "-p", "-t", "%3", "remain-on-exit", "on"]);
    let a = sup.step(Event::Failed);
    assert_eq!(tmux_argv(&a)[0], "pipe-pane");
    let a = sup.step(ok(""));
    assert_eq!(tmux_argv(&a), vec!["respawn-pane", "-k", "-t", "%3", "exec bash '/r.sh'"]);
    let a = sup.step(ok(""));
    assert_eq!(tmux_argv(&a)[4], "#{pane_pid}");
    match sup.step(ok("77\n")) {
        Action::Arm { path } => assert_eq!(path, sup_log(cfg)),
        _ => panic!("expected Arm"),
    }
    assert!(matches!(sup.step(Event::Done), Action::Pump));
    sup
}

#[test]
fn outside_tmux_execs_the_script() {
    let cfg = config(None, None);
    let mut sup = Supervisor::new(&cfg, 1, "/tmp");
    match sup.step(Event::Begin { in_tmux: false }) {
        Action::ExecScript { script } => assert_eq!(script, "/r.sh"),
        _ => panic!("expected ExecScript"),
    }
    assert!(matches!(sup.step(Event::Failed), Action::Fail { failure: Failure::Io }));
    assert_eq!(sup.phase(), Phase::Failed);
}

#[test]
fn signal_forwards_term_and_exits_with_128_plus_signo() {
    let cfg = config(None, Some("pg"));
    let mut sup = started(&cfg);
    assert!(matches!(sup.step(Event::Done), Action::PollSignal));
    assert!(matches!(sup.step(Event::Signal(15)), Action::Sleep { millis: 200 }));
    assert!(matches!(sup.step(Event::Done), Action::Pump));
    assert!(matches!(sup.step(Event::Done), Action::Terminate { pid: 77 }));
    assert!(matches!(sup.step(Event::Failed), Action::Sleep { millis: 300 }));
    match sup.step(Event::Done) {
        Action::Docker { argv } => assert_eq!(argv, vec!["stop", "pg"]),
        _ => panic!("expected docker stop"),
    }
    let a = sup.step(Event::Failed);
    assert_eq!(tmux_argv(&a), vec!["kill-window", "-t", "%3"]);
    match sup.step(Event::Failed) {
        Action::RemoveLog { path } => assert_eq!(path, "/tmp/nrun-web-42.log"),
        _ => panic!("expected RemoveLog"),
    }
    assert!(matches!(sup.step(Event::Done), Action::Exit { code: 143 }));
    assert_eq!(sup.phase(), Phase::Exited);
}

#[test]
fn dead_pane_exit_status_is_propagated() {
    let cfg = config(Some("/x.log"), None);
    let mut sup = started(&cfg);
    assert!(matches!(sup.step(Event::Done), Action::PollSignal));
    let a = sup.step(Event::Signal(0));
    assert_eq!(tmux_argv(&a)[4], "#{pane_dead}|#{pane_dead_status}");
    assert!(matches!(sup.step(ok("0|\n")), Action::Sleep { millis: 150 }));
    assert!(matches!(sup.step(Event::Done), Action::Pump));
    assert!(matches!(sup.step(Event::Done), Action::PollSignal));
    let _ = sup.step(Event::Signal(0));
    assert!(matches!(sup.step(ok("1|7\n")), Action::Sleep { millis: 200 }));
    assert!(matches!(sup.step(Event::Done), Action::Pump));
    let a = sup.step(Event::Done);
    assert_eq!(tmux_argv(&a), vec!["kill-window", "-t", "%3"]);
    // An explicit log is not ours to remove.
    assert!(matches!(sup.step(ok("")), Action::Exit { code: 7 }));
}

#[test]
fn vanished_pane_exits_zero_without_draining() {
    let cfg = config(Some("/x.log"), None);
    let mut sup = started(&cfg);
    let _ = sup.step(Event::Done);
    let _ = sup.step(Event::Signal(0));
    let failed = Event::Tmux { success: false, stdout: Vec::new(), stderr: b"no pane".to_vec() };
    let a = sup.step(failed);
    assert_eq!(tmux_argv(&a)[0], "kill-window");
    assert!(matches!(sup.step(Event::Failed), Action::Exit { code: 0 }));
}

#[test]
fn missing_pane_id_fails_the_run() {
    let cfg = config(None, None);
    let mut sup = Supervisor::new(&cfg, 1, "/tmp");
    let _ = sup.step(Event::Begin { in_tmux: true });
    let _ = sup.step(Event::Done);
    assert!(matches!(sup.step(ok("  \n")), Action::Fail { failure: Failure::NoPaneId }));
}

#[test]
fn failing_capture_reports_tmux_message() {
    let cfg = config(Some("/x.log"), None);
    let mut sup = Supervisor::new(&cfg, 1, "/tmp");
    let _ = sup.step(Event::Begin { in_tmux: true });
    let _ = sup.step(Event::Done);
    let _ = sup.step(ok("%9"));
    let _ = sup.step(Event::Done);
    let failed = Event::Tmux { success: false, stdout: Vec::new(), stderr: b" boom \n".to_vec() };
    // The window is killed before the run fails.
    let a = sup.step(failed);
    assert_eq!(tmux_argv(&a), vec!["kill-window", "-t", "%9"]);
    assert!(sup.is_failing());
    match sup.step(Event::Failed) {
        Action::Fail { failure: Failure::Tmux { message } } => {
            assert_eq!(message, "tmux pipe-pane -o -t %9 cat >> '/x.log' failed: boom")
        },
        _ => panic!("expected a tmux failure"),
    }
    assert_eq!(sup.phase(), Phase::Failed);
}

#[test]
fn failing_arm_stops_container_closes_window_and_removes_owned_log() {
    let cfg = config(None, Some("pg"));
    let mut sup = Supervisor::new(&cfg, 42, "/tmp");
    let _ = sup.step(Event::Begin { in_tmux: true });
    let _ = sup.step(Event::Done);
    let _ = sup.step(ok("%3"));
    let _ = sup.step(ok(""));
    let _ = sup.step(ok(""));
    let _ = sup.step(ok(""));
    assert!(matches!(sup.step(ok("77")), Action::Arm { .. }));
    // The command was started: its container is stopped too.
    match sup.step(Event::Failed) {
        Action::Docker { argv } => assert_eq!(argv, vec!["stop", "pg"]),
        _ => panic!("expected docker stop"),
    }
    let a = sup.step(Event::Failed);
    assert_eq!(tmux_argv(&a), vec!["kill-window", "-t", "%3"]);
    match sup.step(ok("")) {
        Action::RemoveLog { path } => assert_eq!(path, "/tmp/nrun-web-42.log"),
        _ => panic!("expected RemoveLog"),
    }
    assert!(matches!(sup.step(Event::Done), Action::Fail { failure: Failure::Io }));
}

#[test]
fn failing_respawn_closes_window() {
    let cfg = config(Some("/x.log"), None);
    let mut sup = Supervisor::new(&cfg, 1, "/tmp");
    let _ = sup.step(Event::Begin { in_tmux: true });
    let _ = sup.step(Event::Done);
    let _ = sup.step(ok("%5"));
    let _ = sup.step(ok(""));
    let a = sup.step(Event::Failed);
    assert_eq!(tmux_argv(&a), vec!["kill-window", "-t", "%5"]);
    assert!(matches!(sup.step(ok("")), Action::Fail { failure: Failure::Io }));
}

#[test]
fn accepts_only_replies_to_the_pending_action() {
    let cfg = config(None, None);
    let mut sup = Supervisor::new(&cfg, 1, "/tmp");
    assert!(sup.accepts(&Event::Begin { in_tmux: true }));
    assert!(!sup.accepts(&Event::Done));
    let _ = sup.step(Event::Begin { in_tmux: true });
    assert!(sup.accepts(&Event::Done));
    assert!(!sup.accepts(&Event::Signal(1)));
}

#[test]
fn tmux_failure_message_joins_argv_and_trims_stderr() {
    let argv = vec!["kill-window".to_string(), "-t".to_string(), "%3".to_string()];
    assert_eq!(
        tmux_failure_message(&argv, b"\tcan't find pane\n"),
        "tmux kill-window -t %3 failed: can't find pane"
    );
}

#[test]
fn status_from_reply_treats_failures_as_gone() {
    assert_eq!(status_from_reply(&Event::Failed), None);
    assert_eq!(status_from_reply(&ok("1|3")), Some(PaneStatus::Dead(Some(3))));
    let bad = Event::Tmux { success: false, stdout: b"0|".to_vec(), stderr: Vec::new() };
    assert_eq!(status_from_reply(&bad), None);
}
