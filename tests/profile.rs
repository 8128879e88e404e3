use ufwprofile::config::{next_invocation, Invocation, ProfileError, UFWConf};
use ufwprofile::rootcheck::{Escalation, RunningAs};

fn text_of(conf: &UFWConf) -> String {
    conf.get_config_string()
}

#[test]
fn init_renders_empty_ports() {
    let conf = UFWConf::init("AppName", "Title", "Description").unwrap();
    assert_eq!(text_of(&conf), "[AppName]\ntitle=Title\ndescription=Description\nports=\n");
}

#[test]
fn three_ports_in_call_order() {
    let mut conf = UFWConf::init("AppName", "Title", "Description").unwrap();
    conf.append_ports("80", "").unwrap();
    conf.append_ports("81:82", "tcp").unwrap();
    let last = conf.append_ports("84", "udp").unwrap();
    let expected = "[AppName]\ntitle=Title\ndescription=Description\nports=80|81:82/tcp|84/udp\n";
    assert_eq!(text_of(&conf), expected);
    assert_eq!(text_of(&last), expected);
}

#[test]
fn chained_appends() {
    let conf = UFWConf::init("AppName", "Title", "Description")
        .unwrap()
        .append_ports("80", "")
        .unwrap()
        .append_ports("81:82", "tcp")
        .unwrap()
        .append_ports("84", "udp")
        .unwrap()
        .append_ports("83", "")
        .unwrap()
        .append_ports("8000", "tcp")
        .unwrap();
    assert!(text_of(&conf).ends_with("\nports=80|81:82/tcp|84/udp|83|8000/tcp\n"));
}

#[test]
fn name_loses_white_space() {
    let conf = UFWConf::init("My App", "T", "D").unwrap();
    assert!(text_of(&conf).starts_with("[MyApp]\n"));
    assert_eq!(conf.profile_path(), "/etc/ufw/applications.d/ufw-MyApp");
    let conf = UFWConf::init(" a\tb\nc\u{3000}d ", "T", "D").unwrap();
    assert!(text_of(&conf).starts_with("[abcd]\n"));
    assert_eq!(conf.profile_path(), "/etc/ufw/applications.d/ufw-abcd");
}

#[test]
fn title_and_description_kept_verbatim() {
    let conf = UFWConf::init("x", " My  Title ", "a b\tc").unwrap();
    assert_eq!(text_of(&conf), "[x]\ntitle= My  Title \ndescription=a b\tc\nports=\n");
}

#[test]
fn bad_protocol_is_refused_and_changes_nothing() {
    let mut conf = UFWConf::init("App", "T", "D").unwrap();
    conf.append_ports("80", "tcp").unwrap();
    let before = text_of(&conf);
    for proto in ["icmp", "TCP", "tcp ", "/tcp", "any"] {
        match conf.append_ports("81", proto) {
            Err(ProfileError::BadProtocol(p)) => assert_eq!(p, proto),
            _ => panic!("protocol {proto:?} accepted"),
        }
        assert_eq!(text_of(&conf), before);
    }
}

#[test]
fn bad_port_is_refused_and_changes_nothing() {
    let mut conf = UFWConf::init("App", "T", "D").unwrap();
    conf.append_ports("81:82", "").unwrap();
    let before = text_of(&conf);
    for port in ["", "abc", "80:", ":80", "1:2:3", "8 0", "-1", "80/tcp", "\u{ff18}\u{ff10}"] {
        match conf.append_ports(port, "udp") {
            Err(ProfileError::BadPortToken(p)) => assert_eq!(p, port),
            _ => panic!("port {port:?} accepted"),
        }
        assert_eq!(text_of(&conf), before);
    }
}

#[test]
fn protocol_is_checked_before_port() {
    let mut conf = UFWConf::init("App", "T", "D").unwrap();
    assert_eq!(
        conf.append_ports("bad", "bad").err(),
        Some(ProfileError::BadProtocol("bad".to_string()))
    );
}

#[test]
fn valid_port_tokens_are_accepted() {
    let mut conf = UFWConf::init("App", "T", "D").unwrap();
    for (port, proto) in [("0", ""), ("65535", "tcp"), ("1:65535", "udp"), ("007:8", "")] {
        assert!(conf.append_ports(port, proto).is_ok());
    }
    assert!(text_of(&conf).ends_with("ports=0|65535/tcp|1:65535/udp|007:8\n"));
}

#[test]
fn rule_command_lines() {
    let conf = UFWConf::init("My App", "T", "D").unwrap();
    assert_eq!(conf.rule_command_line(true, Invocation::Direct), vec!["ufw", "allow", "MyApp"]);
    assert_eq!(
        conf.rule_command_line(false, Invocation::Elevated),
        vec!["sudo", "ufw", "deny", "MyApp"]
    );
}

#[test]
fn elevated_run_follows_only_a_failed_direct_start() {
    assert_eq!(next_invocation(Invocation::Direct, true), Some(Invocation::Elevated));
    assert_eq!(next_invocation(Invocation::Direct, false), None);
    assert_eq!(next_invocation(Invocation::Elevated, true), None);
    assert_eq!(next_invocation(Invocation::Elevated, false), None);
}

#[test]
fn is_root_names_the_escalation_step() {
    assert_eq!(UFWConf::is_root(RunningAs::Root), Escalation::AlreadyRoot);
    assert_eq!(UFWConf::is_root(RunningAs::Suid), Escalation::ClaimRoot);
    assert_eq!(UFWConf::is_root(RunningAs::User), Escalation::Relaunch);
}

#[test]
fn default_profile_is_empty() {
    let conf = UFWConf::default();
    assert_eq!(text_of(&conf), "[]\ntitle=\ndescription=\nports=\n");
    let copy = conf.clone();
    assert_eq!(text_of(&copy), text_of(&conf));
}
