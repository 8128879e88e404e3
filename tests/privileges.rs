use ufwprofile::rootcheck::{
    backtrace_arg, backtrace_value, check_ids, env_args, escalate_if_needed, relaunch_args,
    Escalation, RunningAs,
};
use ufwprofile::text::{remove_white_space, same_text, starts_with};

fn strings(v: &[&str]) -> Vec<String> {
    v.iter().map(|s| s.to_string()).collect()
}

fn pairs(v: &[(&str, &str)]) -> Vec<(String, String)> {
    v.iter().map(|(a, b)| (a.to_string(), b.to_string())).collect()
}

#[test]
fn it_works() {
    let _ = check_ids(1000, 1000);
}

#[test]
fn classification_of_ids() {
    assert_eq!(check_ids(0, 0), RunningAs::Root);
    assert_eq!(check_ids(1000, 0), RunningAs::Suid);
    assert_eq!(check_ids(1000, 1000), RunningAs::User);
    assert_eq!(check_ids(0, 1000), RunningAs::User);
    assert_eq!(check_ids(u32::MAX, 0), RunningAs::Suid);
}

#[test]
fn escalation_steps() {
    assert_eq!(escalate_if_needed(RunningAs::Root), Escalation::AlreadyRoot);
    assert_eq!(escalate_if_needed(RunningAs::Suid), Escalation::ClaimRoot);
    assert_eq!(escalate_if_needed(RunningAs::User), Escalation::Relaunch);
}

#[test]
fn backtrace_levels() {
    assert_eq!(backtrace_value(""), None);
    assert_eq!(backtrace_value("1"), Some("1".to_string()));
    assert_eq!(backtrace_value("true"), Some("1".to_string()));
    assert_eq!(backtrace_value("full"), Some("full".to_string()));
    assert_eq!(backtrace_value("0"), Some("full".to_string()));
    assert_eq!(backtrace_value("TRUE"), Some("full".to_string()));
}

#[test]
fn backtrace_argument_ignores_case() {
    assert_eq!(backtrace_arg(""), None);
    assert_eq!(backtrace_arg("TRUE"), Some("RUST_BACKTRACE=1".to_string()));
    assert_eq!(backtrace_arg("1"), Some("RUST_BACKTRACE=1".to_string()));
    assert_eq!(backtrace_arg("Full"), Some("RUST_BACKTRACE=full".to_string()));
    assert_eq!(backtrace_arg("yes"), Some("RUST_BACKTRACE=full".to_string()));
}

#[test]
fn variables_handed_on_by_prefix() {
    let vars = pairs(&[
        ("APP_MODE", "x"),
        ("HOME", "/root"),
        ("RUST_BACKTRACE", "1"),
        ("RUST_LOG", "debug"),
        ("APP", "y"),
    ]);
    assert_eq!(env_args(&vars, &strings(&[])), Vec::<String>::new());
    assert_eq!(
        env_args(&vars, &strings(&["APP_", "RUST"])),
        strings(&["APP_MODE=x", "RUST_LOG=debug"])
    );
    assert_eq!(
        env_args(&vars, &strings(&[""])),
        strings(&["APP_MODE=x", "HOME=/root", "RUST_LOG=debug", "APP=y"])
    );
}

#[test]
fn relaunch_line_order() {
    let vars = pairs(&[("APP_MODE", "x"), ("HOME", "/root")]);
    let args = strings(&["prog", "--flag", "v"]);
    assert_eq!(
        relaunch_args(
            Some("true".to_string()),
            &vars,
            &strings(&["APP_"]),
            &args,
            Some("/usr/bin/prog".to_string())
        ),
        strings(&["RUST_BACKTRACE=1", "APP_MODE=x", "/usr/bin/prog", "--flag", "v"])
    );
    assert_eq!(
        relaunch_args(None, &vars, &strings(&[]), &args, None),
        strings(&["prog", "--flag", "v"])
    );
    assert_eq!(
        relaunch_args(Some(String::new()), &vars, &strings(&[]), &Vec::new(), Some("p".to_string())),
        Vec::<String>::new()
    );
}

#[test]
fn text_helpers() {
    assert_eq!(remove_white_space(" a b\u{a0}c\r\n"), "abc");
    assert_eq!(remove_white_space(""), "");
    assert!(same_text("tcp", "tcp"));
    assert!(!same_text("tcp", "tc"));
    assert!(!same_text("tcp", "udp"));
    assert!(starts_with("RUST_LOG", "RUST"));
    assert!(starts_with("RUST", ""));
    assert!(!starts_with("RU", "RUST"));
}
