use nrun::cli::{default_log_path, sanitize_title, Config};
use std::path::Path;

fn config(title: &str, log: Option<&str>, script: &str) -> Config {
    Config {
        title: title.to_string(),
        log: log.map(|l| l.to_string()),
        docker_name: None,
        script: script.to_string(),
    }
}

#[test]
fn sanitize_title_keeps_safe_chars_and_replaces_others() {
    assert_eq!(sanitize_title("web"), "web");
    assert_eq!(sanitize_title("web-app_2.1"), "web-app_2.1");
    assert_eq!(sanitize_title("web app/2"), "web-app-2");
    // dots are preserved (safe in filenames); slashes become dashes
    assert_eq!(sanitize_title("../etc"), "..-etc");
}

#[test]
fn default_log_path_uses_temp_dir_title_and_pid() {
    let p = default_log_path("web app", 4242, "/tmp");
    let p = Path::new(&p);
    assert_eq!(p.parent().unwrap(), Path::new("/tmp"));
    assert_eq!(
        p.file_name().unwrap().to_str().unwrap(),
        "nrun-web-app-4242.log"
    );
}

#[test]
fn log_path_prefers_explicit_value() {
    let cfg = config("web", Some("/x.log"), "/r.sh");
    assert_eq!(cfg.log_path(1, "/tmp"), "/x.log");
}

#[test]
fn log_path_falls_back_to_default() {
    let cfg = config("web", None, "/r.sh");
    assert_eq!(cfg.log_path(7, "/tmp"), default_log_path("web", 7, "/tmp"));
}

#[test]
fn default_log_path_joins_like_path_join() {
    assert_eq!(default_log_path("web", 7, "/tmp/"), "/tmp/nrun-web-7.log");
    assert_eq!(default_log_path("web", 7, "/var/tmp"), "/var/tmp/nrun-web-7.log");
    assert_eq!(default_log_path("web", 7, ""), "nrun-web-7.log");
    assert_eq!(default_log_path("web", 7, "/"), "/nrun-web-7.log");
    assert_eq!(
        default_log_path("web", 7, "/var/tmp"),
        Path::new("/var/tmp").join("nrun-web-7.log").to_str().unwrap()
    );
}

#[test]
fn default_log_path_differs_per_process() {
    assert_ne!(
        default_log_path("web", 1, "/tmp"),
        default_log_path("web", 10, "/tmp")
    );
    assert_eq!(default_log_path("web", 0, "/tmp"), "/tmp/nrun-web-0.log");
    assert_eq!(
        default_log_path("web", u32::MAX, "/tmp"),
        "/tmp/nrun-web-4294967295.log"
    );
}

#[test]
fn sanitize_title_keeps_length_and_is_idempotent() {
    let once = sanitize_title("päth/ to:x");
    assert_eq!(once, "p-th--to-x");
    assert_eq!(once.chars().count(), "päth/ to:x".chars().count());
    assert_eq!(sanitize_title(&once), once);
    assert_eq!(sanitize_title(""), "");
}

#[test]
fn log_file_name_never_leaves_temp_dir() {
    let p = default_log_path("../../etc/passwd", 3, "/tmp");
    assert_eq!(p, "/tmp/nrun-..-..-etc-passwd-3.log");
    assert_eq!(Path::new(&p).parent().unwrap(), Path::new("/tmp"));
}
