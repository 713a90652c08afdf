use zorg::connection::Connection;
use zorg::ssh::{classify_key_file, exit_code_text, parse_agent_output, parse_assignment, ssh_command_args};

fn conn(user: &str, host: &str, port: Option<i32>, identity: Option<&str>) -> Connection {
    Connection {
        id: Some(1),
        name: "n".to_string(),
        username: user.to_string(),
        hostname: host.to_string(),
        port,
        identity_file: identity.map(|s| s.to_string()),
        note: None,
        is_favorite: false,
    }
}

#[test]
fn plain_ssh_args() {
    assert_eq!(ssh_command_args(&conn("root", "db", None, None), &vec![]), vec!["root@db".to_string()]);
}

#[test]
fn full_ssh_args() {
    let jumps = vec![conn("ops", "bastion", Some(2200), None), conn("me", "edge", None, None)];
    let args = ssh_command_args(&conn("root", "db", Some(22), Some("/k/id")), &jumps);
    assert_eq!(args, vec!["-J", "ops@bastion:2200,me@edge", "-p", "22", "-i", "/k/id", "root@db"]);
}

#[test]
fn exit_codes() {
    assert_eq!(exit_code_text(true, Some(3)), "0");
    assert_eq!(exit_code_text(false, Some(255)), "255");
    assert_eq!(exit_code_text(false, Some(-1)), "-1");
    assert_eq!(exit_code_text(false, None), "unknown");
}

#[test]
fn agent_output() {
    let out = "SSH_AUTH_SOCK=/tmp/ssh-x/agent.1; export SSH_AUTH_SOCK;\r\nSSH_AGENT_PID=42; export SSH_AGENT_PID;\necho Agent pid 42;\n";
    let vars = parse_agent_output(out);
    assert_eq!(
        vars,
        vec![
            ("SSH_AUTH_SOCK".to_string(), "/tmp/ssh-x/agent.1".to_string()),
            ("SSH_AGENT_PID".to_string(), "42".to_string()),
        ]
    );
    assert!(parse_agent_output("").is_empty());
    assert_eq!(parse_agent_output("A=1"), vec![("A".to_string(), "1".to_string())]);
    assert_eq!(parse_agent_output("A=1=2;B=3"), vec![("A".to_string(), "1=2".to_string())]);
    assert_eq!(parse_assignment("no equals"), None);
    assert_eq!(parse_assignment("=v"), Some((String::new(), "v".to_string())));
}

#[test]
fn key_files() {
    assert_eq!(classify_key_file("config", Some(0o600)), None);
    assert_eq!(classify_key_file("known_hosts", Some(0o644)), None);
    assert_eq!(classify_key_file("work.known_hosts", None), None);
    assert_eq!(classify_key_file("id_ed25519.pub", Some(0o644)), None);
    assert_eq!(classify_key_file("id_ed25519", Some(0o100600)), Some((true, true)));
    assert_eq!(classify_key_file("id_rsa", Some(0o100644)), Some((true, false)));
    assert_eq!(classify_key_file("id_rsa", None), Some((true, true)));
}
