use sshost::app::{
    command_finished, forward_finished, keygen_finished, transfer_finished, update,
    upload_finished, App,
};
use sshost::commands::{
    askpass_script, code_message, combined_output, copy_id_arguments, copy_id_failure_message,
    forward_arguments, keygen_arguments, remote_command_arguments, scp_arguments, shell_quote,
    ssh_arguments, ssh_failure_message,
};
use sshost::screen::configure_screen::ConfigureScreen;
use sshost::screen::keygen_screen::KeygenRequest;
use sshost::screen::portforward_screen::PortForwardRequest;
use sshost::screen::quick_command_screen::QuickCommandRequest;
use sshost::screen::transfer_screen::TransferRequest;
use sshost::screen::upload_screen::UploadRequest;
use sshost::screen::{Key, Outcome, Request, Screen};
use sshost::ssh_config::config_reader::{AuthMethod, SSHConfig};

fn app_host(alias: &str, address: &str) -> SSHConfig {
    SSHConfig {
        host: alias.to_string(),
        hostname: address.to_string(),
        username: None,
        port: None,
        auth: None,
        proxy_jump: None,
        local_forward: None,
        remote_forward: None,
    }
}

fn full_host() -> SSHConfig {
    let mut c = app_host("web", "example.com");
    c.username = Some("alice".to_string());
    c.port = Some(2222);
    c.auth = Some(AuthMethod::Key("~/.ssh/id".to_string()));
    c.proxy_jump = Some("jump".to_string());
    c
}

#[test]
fn q_quits_outside_text_forms() {
    let mut app = App::new();
    assert!(app.is_consistent());
    assert!(update(&mut app, Key::Char('q')).is_none());
    assert!(app.should_quit);
}

#[test]
fn q_is_typed_into_forms() {
    let mut app = App::new();
    app.current_screen = Screen::Configure(ConfigureScreen::new(vec![]));
    update(&mut app, Key::Char('q'));
    assert!(!app.should_quit);
    match &app.current_screen {
        Screen::Configure(c) => assert_eq!(c.host, "q"),
        _ => panic!("form expected"),
    }
}

#[test]
fn update_switches_and_returns_requests() {
    let mut app = App::new();
    assert!(update(&mut app, Key::Enter).is_none());
    assert!(matches!(app.current_screen, Screen::Connect(_)));
    assert!(update(&mut app, Key::Esc).is_none());
    assert!(matches!(app.current_screen, Screen::Intro(_)));
    update(&mut app, Key::Down);
    assert!(matches!(update(&mut app, Key::Enter), Some(Request::NewHost)));
    assert!(matches!(app.current_screen, Screen::Intro(ref i) if i.selected == 1));
}

#[test]
fn ssh_request_is_kept_for_the_loop() {
    let mut app = App::new();
    update(&mut app, Key::Enter);
    if let Screen::Connect(c) = &mut app.current_screen {
        c.load_connections(vec![app_host("a", "a.example")]);
    }
    assert!(update(&mut app, Key::Enter).is_none());
    assert_eq!(app.current_ssh.as_ref().map(|c| c.host.clone()), Some("a".to_string()));
    app.finish_ssh(Some(255));
    assert!(app.current_ssh.is_none());
    assert_eq!(app.ssh_status.as_deref(), Some("Connection refused or host unreachable"));
    app.finish_ssh(Some(0));
    assert_eq!(app.ssh_status.as_deref(), Some("Connection refused or host unreachable"));
}

#[test]
fn apply_keeps_screen_on_stay() {
    let mut app = App::new();
    assert!(app.apply(Outcome::Stay).is_none());
    assert!(matches!(app.apply(Outcome::Perform(Request::UploadKey)), Some(Request::UploadKey)));
    assert!(matches!(app.current_screen, Screen::Intro(_)));
    app.tick();
    app.quit();
    assert!(app.should_quit);
    let fresh = App::default();
    assert!(!fresh.should_quit && fresh.current_ssh.is_none());
    assert!(matches!(Screen::default(), Screen::Intro(ref i) if i.selected == 0));
}

#[test]
fn execute_screens_ignore_keys() {
    let mut app = App::new();
    app.current_screen = Screen::KeygenExecute(KeygenRequest {
        key_type: "rsa".to_string(),
        bits: None,
        passphrase: String::new(),
        filename: "f".to_string(),
    });
    assert!(update(&mut app, Key::Enter).is_none());
    assert!(matches!(app.current_screen, Screen::KeygenExecute(_)));
}

#[test]
fn finished_commands_choose_next_screen() {
    assert!(matches!(upload_finished(Some(0), vec![]), Screen::Intro(_)));
    match upload_finished(Some(5), vec!["~/.ssh/k.pub".to_string()]) {
        Screen::Upload(u) => {
            assert_eq!(u.error.as_deref(), Some("Invalid password"));
            assert_eq!(u.key_path, "~/.ssh/k.pub");
        }
        _ => panic!("upload form expected"),
    }
    match keygen_finished(None) {
        Screen::Keygen(k) => assert_eq!(k.error.as_deref(), Some("ssh-keygen failed with code -1")),
        _ => panic!("keygen form expected"),
    }
    assert!(matches!(keygen_finished(Some(0)), Screen::Intro(_)));
    match forward_finished(app_host("a", "b"), Some(130)) {
        Screen::PortForward(p) => assert_eq!(p.error.as_deref(), Some("Port forwarding ended or failed")),
        _ => panic!("forward form expected"),
    }
    assert!(matches!(forward_finished(app_host("a", "b"), Some(0)), Screen::Connect(_)));
    match transfer_finished(app_host("a", "b"), Some(1)) {
        Screen::Transfer(t) => assert_eq!(t.error.as_deref(), Some("scp failed with code 1")),
        _ => panic!("transfer form expected"),
    }
    assert!(matches!(transfer_finished(app_host("a", "b"), Some(0)), Screen::Connect(_)));
    match command_finished("out".to_string(), "err") {
        Screen::CommandOutput(c) => assert_eq!(c.output, "out\n--- stderr ---\nerr"),
        _ => panic!("output expected"),
    }
}

#[test]
fn ssh_arguments_for_full_host() {
    assert_eq!(
        ssh_arguments(&full_host()),
        vec!["-l", "alice", "-p", "2222", "-i", "~/.ssh/id", "-J", "jump", "example.com"]
    );
    let mut c = app_host("x", "x.example");
    c.proxy_jump = Some(String::new());
    c.auth = Some(AuthMethod::Password(String::new()));
    c.username = Some(String::new());
    assert_eq!(ssh_arguments(&c), vec!["-l", "", "x.example"]);
}

#[test]
fn remote_command_skips_empty_user() {
    let mut c = full_host();
    c.username = Some(String::new());
    let r = QuickCommandRequest { host: c, command: "uptime".to_string() };
    assert_eq!(
        remote_command_arguments(&r),
        vec!["-p", "2222", "-i", "~/.ssh/id", "example.com", "uptime"]
    );
}

#[test]
fn copy_id_arguments_with_and_without_user() {
    let mut r = UploadRequest {
        key_path: "~/.ssh/k.pub".to_string(),
        hostname: "srv".to_string(),
        port: Some(2200),
        user: Some("bob".to_string()),
        password: Some("pw".to_string()),
    };
    assert_eq!(copy_id_arguments(&r), vec!["-i", "~/.ssh/k.pub", "-p", "2200", "bob@srv"]);
    r.user = None;
    r.port = None;
    assert_eq!(copy_id_arguments(&r), vec!["-i", "~/.ssh/k.pub", "srv"]);
}

#[test]
fn keygen_and_forward_arguments() {
    let k = KeygenRequest {
        key_type: "rsa".to_string(),
        bits: Some("4096".to_string()),
        passphrase: String::new(),
        filename: "~/.ssh/id_rsa".to_string(),
    };
    assert_eq!(keygen_arguments(&k), vec!["-t", "rsa", "-b", "4096", "-f", "~/.ssh/id_rsa", "-N", ""]);
    let f = PortForwardRequest {
        host: full_host(),
        direction: "L".to_string(),
        local_port: "8080".to_string(),
        remote_host: "localhost".to_string(),
        remote_port: "80".to_string(),
    };
    assert_eq!(forward_arguments(&f), vec!["-L", "8080:localhost:80", "-N", "web"]);
}

#[test]
fn scp_arguments_by_direction() {
    let mut t = TransferRequest {
        host: full_host(),
        direction: "upload".to_string(),
        local_path: "./a".to_string(),
        remote_path: "/tmp/a".to_string(),
    };
    assert_eq!(
        scp_arguments(&t),
        vec!["-P", "2222", "-i", "~/.ssh/id", "./a", "alice@example.com:/tmp/a"]
    );
    t.direction = "download".to_string();
    t.host.username = None;
    t.host.port = None;
    t.host.auth = None;
    assert_eq!(scp_arguments(&t), vec!["example.com:/tmp/a", "./a"]);
}

#[test]
fn askpass_quotes_single_quotes() {
    assert_eq!(shell_quote("it's"), "it'\\''s");
    assert_eq!(askpass_script("p'w"), "#!/bin/sh\necho 'p'\\''w'\n");
    assert_eq!(askpass_script(""), "#!/bin/sh\necho ''\n");
}

#[test]
fn failure_messages() {
    assert_eq!(ssh_failure_message(Some(1)), "Authentication failed");
    assert_eq!(ssh_failure_message(Some(-2)), "SSH exited with code -2");
    assert_eq!(ssh_failure_message(None), "SSH was terminated by a signal");
    assert_eq!(copy_id_failure_message(Some(6)), "Host key verification failed");
    assert_eq!(copy_id_failure_message(Some(255)), "Connection refused or host unreachable");
    assert_eq!(copy_id_failure_message(Some(2)), "ssh-copy-id exited with code 2");
    assert_eq!(copy_id_failure_message(None), "ssh-copy-id was terminated by a signal");
    assert_eq!(code_message("scp failed with code ", Some(i32::MIN)), "scp failed with code -2147483648");
}

#[test]
fn combined_output_without_stderr() {
    assert_eq!(combined_output("a\n".to_string(), ""), "a\n");
}
