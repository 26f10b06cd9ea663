use nrun::docker::docker_stop_argv;

#[test]
fn docker_stop_argv_targets_named_container() {
    assert_eq!(docker_stop_argv("pg"), vec!["stop", "pg"]);
}

#[test]
fn docker_stop_argv_keeps_name_verbatim() {
    assert_eq!(docker_stop_argv("my app"), vec!["stop", "my app"]);
}
