use sshost::ssh_config::config_reader::{
    build_entry, delete_host, entries_from_hosts, get_ssh_entries, update_host, AuthMethod,
    HostBlock, HostPattern, SSHConfig,
};
use sshost::ssh_config::known_hosts::{get_known_hosts, remove_known_host};

fn entry_for(alias: &str, address: &str) -> SSHConfig {
    SSHConfig {
        host: alias.to_string(),
        hostname: address.to_string(),
        username: None,
        port: None,
        auth: None,
        proxy_jump: None,
        local_forward: None,
        remote_forward: None,
    }
}

#[test]
fn build_entry_writes_every_set_value() {
    let mut c = entry_for("web", "example.com");
    c.username = Some("alice".to_string());
    c.port = Some(2222);
    c.auth = Some(AuthMethod::Key("~/.ssh/id_ed25519".to_string()));
    c.proxy_jump = Some("bastion".to_string());
    c.local_forward = Some("8080 localhost:80".to_string());
    c.remote_forward = Some("9090 localhost:3000".to_string());
    assert_eq!(
        build_entry(&c),
        "\nHost web\n    Hostname example.com\n    User alice\n    Port 2222\n    IdentityFile ~/.ssh/id_ed25519\n    ProxyJump bastion\n    LocalForward 8080 localhost:80\n    RemoteForward 9090 localhost:3000\n"
    );
}

#[test]
fn build_entry_skips_default_port_and_empty_values() {
    let mut c = entry_for("db", "10.0.0.5");
    c.username = Some(String::new());
    c.port = Some(22);
    c.auth = Some(AuthMethod::Password(String::new()));
    c.proxy_jump = Some(String::new());
    assert_eq!(
        build_entry(&c),
        "\nHost db\n    Hostname 10.0.0.5\n    PasswordAuthentication yes\n"
    );
}

#[test]
fn delete_host_removes_only_its_block() {
    let content = "Host a\n    Hostname a.example\nHost b\n    Hostname b.example\n    User bob\nHost c\n    Hostname c.example";
    let out = delete_host(content, "b");
    assert_eq!(out, "Host a\n    Hostname a.example\nHost c\n    Hostname c.example\n");
}

#[test]
fn delete_host_keeps_text_when_alias_absent() {
    let content = "# comment\nHost a\n    Hostname a.example\n";
    assert_eq!(delete_host(content, "zzz"), content);
}

#[test]
fn delete_host_matches_trimmed_alias_and_crlf() {
    let content = "Host  b  \r\n    Hostname b\r\nHost a\r\n";
    assert_eq!(delete_host(content, "b"), "Host a\n");
}

#[test]
fn deleted_host_is_not_read_back() {
    let content = "Host x\n  Hostname 1\nHost y\n  Hostname 2\nHost x\n  Hostname 3\n";
    let out = delete_host(content, "x");
    assert!(out.lines().all(|l| !(l.starts_with("Host ") && l["Host ".len()..].trim() == "x")));
    assert_eq!(out, "Host y\n  Hostname 2\n");
}

#[test]
fn update_host_replaces_block_at_end() {
    let content = "Host old\n    Hostname o.example\nHost keep\n    Hostname k.example\n";
    let c = entry_for("new", "n.example");
    assert_eq!(
        update_host(content, "old", &c),
        "Host keep\n    Hostname k.example\n\nHost new\n    Hostname n.example\n"
    );
}

fn block(patterns: &[(&str, bool)]) -> HostBlock {
    HostBlock {
        patterns: patterns
            .iter()
            .map(|(p, n)| HostPattern { pattern: p.to_string(), negated: *n })
            .collect(),
        host_name: None,
        user: None,
        port: None,
        identity_files: None,
        proxy_jump: None,
    }
}

#[test]
fn entries_skip_star_and_negated_patterns() {
    let mut b = block(&[("web", false), ("!bad", true), ("www", false)]);
    b.host_name = Some("example.com".to_string());
    b.identity_files = Some(vec!["/home/u/.ssh/id".to_string(), "/other".to_string()]);
    b.proxy_jump = Some(vec!["j1".to_string(), "j2".to_string()]);
    let blocks = vec![block(&[("*", false)]), b, block(&[("!only", true)])];
    let entries = entries_from_hosts(&blocks);
    assert_eq!(entries.len(), 1);
    let e = &entries[0];
    assert_eq!(e.host, "web www");
    assert_eq!(e.hostname, "example.com");
    assert_eq!(e.username.as_deref(), Some(""));
    assert_eq!(e.port, Some(22));
    assert!(matches!(&e.auth, Some(AuthMethod::Key(k)) if k == "/home/u/.ssh/id"));
    assert_eq!(e.proxy_jump.as_deref(), Some("j1,j2"));
}

#[test]
fn entries_default_hostname_and_password_auth() {
    let mut b = block(&[("db", false)]);
    b.user = Some("root".to_string());
    b.port = Some(2200);
    let entries = entries_from_hosts(&vec![b]);
    assert_eq!(entries[0].hostname, "db");
    assert_eq!(entries[0].username.as_deref(), Some("root"));
    assert_eq!(entries[0].port, Some(2200));
    assert!(matches!(&entries[0].auth, Some(AuthMethod::Password(p)) if p.is_empty()));
}

#[test]
fn get_ssh_entries_parses_config_text() {
    let text = "Host web\n    HostName example.com\n    User alice\n    Port 2022\n\nHost *\n    ServerAliveInterval 30\n";
    let entries = get_ssh_entries(text, "/home/test").expect("valid configuration");
    assert_eq!(entries.len(), 1);
    assert_eq!(entries[0].host, "web");
    assert_eq!(entries[0].hostname, "example.com");
    assert_eq!(entries[0].username.as_deref(), Some("alice"));
    assert_eq!(entries[0].port, Some(2022));
}

#[test]
fn get_ssh_entries_reports_parse_error() {
    let text = "Host web\n    Port notanumber\n";
    assert!(get_ssh_entries(text, "/home/test").is_err());
}

#[test]
fn known_hosts_lists_each_host_once() {
    let content = "github.com,140.82.121.4 ssh-ed25519 AAAA\n# comment\n|1|hashed= ssh-rsa BBBB\n[example.com]:2222 ssh-rsa CCCC\ngithub.com ssh-rsa DDDD\n\n";
    assert_eq!(
        get_known_hosts(content),
        vec!["github.com".to_string(), "140.82.121.4".to_string(), "example.com".to_string()]
    );
}

#[test]
fn known_hosts_of_empty_file() {
    assert!(get_known_hosts("").is_empty());
}

#[test]
fn remove_known_host_drops_every_line_of_host() {
    let content = "a.com ssh-rsa X\nb.com,a.com ssh-rsa Y\n# a.com note\nc.com ssh-rsa Z\n";
    let out = remove_known_host(content, "a.com");
    assert_eq!(out, "# a.com note\nc.com ssh-rsa Z\n");
    assert!(!get_known_hosts(&out).contains(&"a.com".to_string()));
}

#[test]
fn remove_known_host_of_bracketed_entry() {
    let content = "[h.example]:2222 ssh-rsa X\nother ssh-rsa Y";
    assert_eq!(remove_known_host(content, "h.example"), "other ssh-rsa Y\n");
}

#[test]
fn remove_last_known_host_leaves_newline() {
    assert_eq!(remove_known_host("only ssh-rsa X\n", "only"), "\n");
}

#[test]
fn blank_configuration_has_no_entries() {
    assert!(get_ssh_entries("", "/home/test").expect("empty text parses").is_empty());
    assert!(get_ssh_entries("  \n\t\n\n", "/home/test").expect("blank text parses").is_empty());
}

#[test]
fn get_ssh_entries_expands_home_in_key_paths() {
    let text = "Host web\n    IdentityFile ~/.ssh/id_web\n";
    let entries = get_ssh_entries(text, "/home/test").expect("valid configuration");
    assert_eq!(entries.len(), 1);
    assert!(matches!(&entries[0].auth, Some(AuthMethod::Key(k)) if k == "/home/test/.ssh/id_web"));
}

#[test]
fn removing_a_known_host_twice_changes_nothing_more() {
    let content = "a.com ssh-rsa X\r\n# note\nb.com,a.com ssh-rsa Y\nc.com ssh-rsa Z";
    let once = remove_known_host(content, "a.com");
    assert_eq!(once, "# note\nc.com ssh-rsa Z\n");
    assert_eq!(remove_known_host(&once, "a.com"), once);
    let none = remove_known_host("x ssh-rsa K\n", "x");
    assert_eq!(remove_known_host(&none, "x"), none);
}
