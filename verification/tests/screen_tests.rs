use sshost::screen::command_output_screen::CommandOutputScreen;
use sshost::screen::configure_screen::{ConfigureScreen, Field as ConfigureField, Step};
use sshost::screen::connect_screen::ConnectScreen;
use sshost::screen::import_screen::ImportScreen;
use sshost::screen::intro_screen::IntroScreen;
use sshost::screen::keygen_screen::{default_filename, expand_tilde, Field as KeygenField, KeygenScreen};
use sshost::screen::known_hosts_screen::KnownHostsScreen;
use sshost::screen::portforward_screen::{Field as ForwardField, PortForwardScreen};
use sshost::screen::quick_command_screen::QuickCommandScreen;
use sshost::screen::transfer_screen::{Field as TransferField, TransferScreen};
use sshost::screen::upload_screen::{Field as UploadField, UploadScreen};
use sshost::screen::{apply_edit, Key, ListCursor, Outcome, Request, Screen, StatusColor};
use sshost::ssh_config::config_reader::{AuthMethod, SSHConfig};

fn screen_host(alias: &str, address: &str) -> SSHConfig {
    SSHConfig {
        host: alias.to_string(),
        hostname: address.to_string(),
        username: None,
        port: None,
        auth: None,
        proxy_jump: None,
        local_forward: None,
        remote_forward: None,
    }
}

fn type_text(keys: &str) -> Vec<Key> {
    keys.chars().map(Key::Char).collect()
}

#[test]
fn list_cursor_follows_ratatui_list_state() {
    let mut c = ListCursor::top();
    assert_eq!(c, ListCursor { selected: Some(0), offset: 0 });
    c.select_next();
    assert_eq!(c.selected, Some(1));
    c.select_previous();
    c.select_previous();
    assert_eq!(c.selected, Some(0));
    c.set_drawn(Some(3), 2);
    c.select(None);
    assert_eq!(c, ListCursor { selected: None, offset: 0 });
    c.select_previous();
    assert_eq!(c.selected, Some(usize::MAX));
    c.select_next();
    assert_eq!(c.selected, Some(usize::MAX));
    let mut d = ListCursor { selected: None, offset: 4 };
    d.select_next();
    assert_eq!(d, ListCursor { selected: Some(0), offset: 4 });
}

#[test]
fn apply_edit_types_and_erases() {
    let mut s = String::from("ab");
    apply_edit(&mut s, Key::Char('c'));
    assert_eq!(s, "abc");
    apply_edit(&mut s, Key::Backspace);
    apply_edit(&mut s, Key::Backspace);
    apply_edit(&mut s, Key::Backspace);
    apply_edit(&mut s, Key::Backspace);
    assert_eq!(s, "");
    apply_edit(&mut s, Key::Tab);
    assert_eq!(s, "");
}

#[test]
fn intro_selection_stays_within_options() {
    let mut s = IntroScreen::new();
    assert!(matches!(s.match_key(Key::Up), Outcome::Stay));
    assert_eq!(s.selected, 0);
    for _ in 0..10 {
        s.match_key(Key::Down);
    }
    assert_eq!(s.selected, 4);
    assert!(matches!(s.match_key(Key::Enter), Outcome::Switch(Screen::KnownHosts(_))));
}

#[test]
fn intro_enter_opens_each_option() {
    let mut s = IntroScreen::new();
    assert!(matches!(s.match_key(Key::Enter), Outcome::Switch(Screen::Connect(_))));
    s.match_key(Key::Down);
    assert!(matches!(s.match_key(Key::Enter), Outcome::Perform(Request::NewHost)));
    s.match_key(Key::Down);
    assert!(matches!(s.match_key(Key::Enter), Outcome::Perform(Request::UploadKey)));
    s.match_key(Key::Down);
    assert!(matches!(s.match_key(Key::Enter), Outcome::Switch(Screen::Keygen(_))));
}

#[test]
fn intro_option_lines_mark_selection() {
    let mut s = IntroScreen::new();
    s.match_key(Key::Down);
    let lines = s.option_lines();
    assert_eq!(
        lines,
        vec![
            "   Connect with existing",
            " > Add new host",
            "   Upload key to server",
            "   Generate SSH key",
            "   Manage known_hosts",
        ]
    );
}

fn connect_with(hosts: Vec<SSHConfig>) -> ConnectScreen {
    let mut s = ConnectScreen::new();
    assert!(s.needs_connections());
    s.load_connections(hosts);
    assert!(!s.needs_connections());
    s
}

#[test]
fn connect_filter_is_case_insensitive_on_alias_and_address() {
    let mut s = connect_with(vec![
        screen_host("Web", "web.example.com"),
        screen_host("db", "10.0.0.2"),
        screen_host("backup", "WEBBACKUP.lan"),
    ]);
    s.match_key(Key::Char('/'));
    for k in type_text("WEB") {
        s.match_key(k);
    }
    assert_eq!(s.filter, "WEB");
    assert_eq!(s.filtered_connections(), vec![0, 2]);
    assert!(s.shows_filter_bar());
    assert_eq!(s.filter_line(), "Filter: WEB\u{2588}");
    s.match_key(Key::Enter);
    assert!(!s.filter_mode);
    assert_eq!(s.filter_line(), "Filter: WEB");
    s.match_key(Key::Down);
    match s.match_key(Key::Enter) {
        Outcome::Perform(Request::Ssh(c)) => assert_eq!(c.host, "backup"),
        _ => panic!("expected an SSH request"),
    }
}

#[test]
fn connect_filter_escape_clears() {
    let mut s = connect_with(vec![screen_host("a", "a"), screen_host("b", "b")]);
    s.match_key(Key::Char('/'));
    s.match_key(Key::Char('z'));
    assert!(s.filtered_connections().is_empty());
    s.match_key(Key::Backspace);
    assert_eq!(s.filtered_connections(), vec![0, 1]);
    s.match_key(Key::Char('x'));
    s.match_key(Key::Esc);
    assert!(!s.filter_mode);
    assert_eq!(s.filter, "");
    assert!(!s.shows_filter_bar());
}

#[test]
fn connect_delete_asks_then_requests() {
    let mut s = connect_with(vec![screen_host("a", "1"), screen_host("b", "2"), screen_host("c", "3")]);
    s.match_key(Key::Down);
    s.match_key(Key::Char('d'));
    assert_eq!(s.confirm_delete, Some(1));
    assert_eq!(s.delete_prompt().as_deref(), Some("Delete 'b'? y/n"));
    match s.match_key(Key::Char('y')) {
        Outcome::Perform(Request::DeleteHost { host, index }) => {
            assert_eq!(host, "b");
            assert_eq!(index, 1);
        }
        _ => panic!("expected a deletion"),
    }
    assert_eq!(s.confirm_delete, None);
    s.after_delete(1, vec![screen_host("a", "1")]);
    assert_eq!(s.list_state.selected, Some(0));
    s.after_delete(0, vec![]);
    assert_eq!(s.list_state, ListCursor { selected: None, offset: 0 });
}

#[test]
fn connect_delete_cancelled() {
    let mut s = connect_with(vec![screen_host("a", "1")]);
    s.match_key(Key::Char('d'));
    assert!(matches!(s.match_key(Key::Char('x')), Outcome::Stay));
    assert_eq!(s.confirm_delete, Some(0));
    s.match_key(Key::Char('n'));
    assert_eq!(s.confirm_delete, None);
    assert_eq!(s.delete_prompt(), None);
}

#[test]
fn connect_keys_open_host_screens() {
    let mut s = connect_with(vec![screen_host("a", "1")]);
    assert!(matches!(s.match_key(Key::Char('e')), Outcome::Perform(Request::EditHost(c)) if c.host == "a"));
    assert!(matches!(s.match_key(Key::Char('s')), Outcome::Switch(Screen::Transfer(t)) if t.host.host == "a"));
    assert!(matches!(s.match_key(Key::Char('r')), Outcome::Switch(Screen::QuickCommand(q)) if q.host.host == "a"));
    assert!(matches!(s.match_key(Key::Char('f')), Outcome::Switch(Screen::PortForward(p)) if p.host.host == "a"));
    assert!(matches!(s.match_key(Key::Char('t')), Outcome::Perform(Request::TestReachability)));
    assert!(matches!(s.match_key(Key::Esc), Outcome::Switch(Screen::Intro(i)) if i.selected == 0));
    s.match_key(Key::Down);
    assert!(matches!(s.match_key(Key::Enter), Outcome::Stay));
}

#[test]
fn connect_reachability_is_recorded_per_host() {
    let mut a = screen_host("a", "a.example");
    a.port = Some(2222);
    let mut s = connect_with(vec![a, screen_host("b", "b.example")]);
    assert_eq!(
        s.reachability_targets(),
        vec![
            ("a.example".to_string(), 2222, "a".to_string()),
            ("b.example".to_string(), 22, "b".to_string()),
        ]
    );
    s.record_reachability("a".to_string(), false);
    s.record_reachability("b".to_string(), true);
    s.record_reachability("a".to_string(), true);
    assert_eq!(s.reachability_of(&"a".to_string()), Some(true));
    assert_eq!(s.reachability_of(&"b".to_string()), Some(true));
    assert_eq!(s.reachability_of(&"c".to_string()), None);
    assert_eq!(s.reachability.len(), 2);
}

#[test]
fn connect_list_lines() {
    let mut c = screen_host("web", "example.com");
    c.username = Some("alice".to_string());
    c.port = Some(22);
    c.auth = Some(AuthMethod::Key("~/.ssh/id".to_string()));
    assert_eq!(sshost::screen::connect_screen::details_line(&c), "  alice | example.com:22 | key: ~/.ssh/id");
    let d = screen_host("db", "10.0.0.1");
    assert_eq!(sshost::screen::connect_screen::details_line(&d), "   | 10.0.0.1: | ");
    assert_eq!(
        sshost::screen::connect_screen::auth_label(&Some(AuthMethod::Password(String::new()))),
        "password"
    );
    assert_eq!(sshost::screen::connect_screen::last_connection_line(None), "  last: never");
    assert_eq!(sshost::screen::connect_screen::last_connection_line(Some(7200)), "  last: 2h ago");
}

#[test]
fn configure_new_form_walks_both_steps() {
    let mut s = ConfigureScreen::new(vec!["~/.ssh/id_a".to_string(), "~/.ssh/id_b".to_string()]);
    assert_eq!(s.identity_file, "~/.ssh/id_a");
    assert_eq!(s.title(), " New Connection (1/2) ");
    assert!(matches!(s.match_key(Key::Enter), Outcome::Stay));
    assert_eq!(s.error.as_deref(), Some("Host and Hostname are required"));
    for k in type_text("web") {
        s.match_key(k);
    }
    s.match_key(Key::Tab);
    for k in type_text("example.com") {
        s.match_key(k);
    }
    s.match_key(Key::Tab);
    for k in type_text("99999") {
        s.match_key(k);
    }
    s.match_key(Key::Enter);
    assert_eq!(s.error.as_deref(), Some("Port must be a number"));
    for _ in 0..5 {
        s.match_key(Key::Backspace);
    }
    for k in type_text("2222") {
        s.match_key(k);
    }
    s.match_key(Key::Tab);
    s.match_key(Key::Tab);
    assert_eq!(s.focused, ConfigureField::IdentityFile);
    s.match_key(Key::Right);
    assert_eq!(s.identity_file, "~/.ssh/id_b");
    s.match_key(Key::Right);
    assert_eq!(s.identity_file, "~/.ssh/id_a");
    s.match_key(Key::Left);
    assert_eq!(s.identity_file, "~/.ssh/id_b");
    s.match_key(Key::Enter);
    assert_eq!(s.step, Step::Tunnel);
    assert_eq!(s.focused, ConfigureField::LocalForward);
    assert_eq!(s.error, None);
    assert_eq!(s.title(), " New Connection (2/2) - Tunnels ");
    for k in type_text("8080 localhost:80") {
        s.match_key(k);
    }
    match s.match_key(Key::Enter) {
        Outcome::Perform(Request::SaveHost { config, editing }) => {
            assert_eq!(config.host, "web");
            assert_eq!(config.hostname, "example.com");
            assert_eq!(config.port, Some(2222));
            assert_eq!(config.username, None);
            assert!(matches!(config.auth, Some(AuthMethod::Key(k)) if k == "~/.ssh/id_b"));
            assert_eq!(config.local_forward.as_deref(), Some("8080 localhost:80"));
            assert_eq!(config.remote_forward, None);
            assert_eq!(editing, None);
        }
        _ => panic!("expected a save request"),
    }
}

#[test]
fn configure_escape_goes_back_a_step() {
    let mut s = ConfigureScreen::with_hostname("h.example".to_string(), vec![]);
    assert_eq!(s.host, "h.example");
    assert_eq!(s.hostname, "h.example");
    assert_eq!(s.identity_file, "~/.ssh/id_rsa");
    s.match_key(Key::Enter);
    assert_eq!(s.step, Step::Tunnel);
    assert!(matches!(s.match_key(Key::Esc), Outcome::Stay));
    assert_eq!(s.step, Step::Basic);
    assert_eq!(s.focused, ConfigureField::Host);
    assert!(matches!(s.match_key(Key::Esc), Outcome::Switch(Screen::Intro(_))));
}

#[test]
fn configure_save_result() {
    let mut s = ConfigureScreen::new(vec![]);
    assert!(matches!(s.on_save_result(Err("disk full".to_string())), Outcome::Stay));
    assert_eq!(s.error.as_deref(), Some("Failed to write: disk full"));
    assert!(matches!(s.on_save_result(Ok(())), Outcome::Switch(Screen::Intro(_))));
}

#[test]
fn edit_then_save_keeps_entry() {
    let mut c = screen_host("web", "example.com");
    c.username = Some("alice".to_string());
    c.port = Some(2022);
    c.auth = Some(AuthMethod::Key("~/.ssh/work".to_string()));
    c.proxy_jump = Some("bastion".to_string());
    c.remote_forward = Some("9090 localhost:3000".to_string());
    let mut s = ConfigureScreen::from_config(&c, vec!["~/.ssh/a".to_string(), "~/.ssh/work".to_string()]);
    assert_eq!(s.key_index, 1);
    assert_eq!(s.port, "2022");
    assert_eq!(s.editing.as_deref(), Some("web"));
    assert_eq!(s.title(), " Edit Connection (1/2) ");
    s.match_key(Key::Enter);
    match s.match_key(Key::Enter) {
        Outcome::Perform(Request::SaveHost { config, editing }) => {
            assert_eq!(editing.as_deref(), Some("web"));
            assert_eq!(config.host, c.host);
            assert_eq!(config.hostname, c.hostname);
            assert_eq!(config.username, c.username);
            assert_eq!(config.port, c.port);
            assert!(matches!(config.auth, Some(AuthMethod::Key(k)) if k == "~/.ssh/work"));
            assert_eq!(config.proxy_jump, c.proxy_jump);
            assert_eq!(config.local_forward, None);
            assert_eq!(config.remote_forward, c.remote_forward);
        }
        _ => panic!("expected a save request"),
    }
}

#[test]
fn configure_password_entry_becomes_key_entry() {
    let mut c = screen_host("pw", "p.example");
    c.auth = Some(AuthMethod::Password(String::new()));
    let s = ConfigureScreen::from_config(&c, vec!["~/.ssh/k".to_string()]);
    assert_eq!(s.identity_file, "~/.ssh/k");
    assert_eq!(s.key_index, 0);
}

#[test]
fn configure_fields_cycle() {
    let mut f = ConfigureField::Host;
    for _ in 0..6 {
        f = f.next(Step::Basic);
    }
    assert_eq!(f, ConfigureField::Host);
    assert_eq!(ConfigureField::Host.prev(Step::Basic), ConfigureField::ProxyJump);
    assert_eq!(ConfigureField::LocalForward.next(Step::Tunnel), ConfigureField::RemoteForward);
    assert_eq!(ConfigureField::Port.next(Step::Tunnel), ConfigureField::LocalForward);
}

#[test]
fn keygen_cycles_types_and_checks_file() {
    let mut s = KeygenScreen::new();
    assert_eq!(s.filename, "~/.ssh/id_ed25519");
    s.handle_key(Key::Left);
    assert_eq!(s.key_type, 2);
    assert_eq!(s.filename, "~/.ssh/id_ecdsa");
    s.handle_key(Key::Right);
    s.handle_key(Key::Right);
    assert_eq!(s.key_type, 1);
    assert_eq!(s.filename, "~/.ssh/id_rsa");
    match s.handle_key(Key::Enter) {
        Outcome::Perform(Request::CheckKeyFile(f)) => assert_eq!(f, "~/.ssh/id_rsa"),
        _ => panic!("expected a file check"),
    }
    match s.after_key_check(false) {
        Outcome::Switch(Screen::KeygenExecute(r)) => {
            assert_eq!(r.key_type, "rsa");
            assert_eq!(r.bits.as_deref(), Some("4096"));
            assert_eq!(r.filename, "~/.ssh/id_rsa");
            assert_eq!(r.passphrase, "");
        }
        _ => panic!("expected a key generation"),
    }
}

#[test]
fn keygen_existing_file_needs_confirmation() {
    let mut s = KeygenScreen::new();
    assert!(matches!(s.after_key_check(true), Outcome::Stay));
    assert!(s.confirm_overwrite);
    assert_eq!(s.error.as_deref(), Some("'~/.ssh/id_ed25519' already exists. Overwrite? y/n"));
    assert!(matches!(s.handle_key(Key::Char('x')), Outcome::Stay));
    match s.handle_key(Key::Char('y')) {
        Outcome::Switch(Screen::KeygenExecute(r)) => {
            assert_eq!(r.key_type, "ed25519");
            assert_eq!(r.bits, None);
        }
        _ => panic!("expected a key generation"),
    }
    assert!(!s.confirm_overwrite);
    s.after_key_check(true);
    assert!(matches!(s.handle_key(Key::Esc), Outcome::Switch(Screen::Intro(_))));
}

#[test]
fn keygen_rejects_bad_rsa_bits() {
    let mut s = KeygenScreen::new();
    s.handle_key(Key::Right);
    s.handle_key(Key::Tab);
    assert_eq!(s.focused, KeygenField::Bits);
    s.handle_key(Key::Char('x'));
    assert_eq!(s.bits, "4096x");
    assert!(matches!(s.after_key_check(false), Outcome::Stay));
}

#[test]
fn keygen_helpers() {
    assert_eq!(default_filename(7), "~/.ssh/id_ed25519");
    assert_eq!(expand_tilde("~/.ssh/id", Some("/home/u")), "/home/u/.ssh/id");
    assert_eq!(expand_tilde("~/.ssh/id", None), "~/.ssh/id");
    assert_eq!(expand_tilde("/etc/x", Some("/home/u")), "/etc/x");
}

#[test]
fn upload_checks_fields_in_order() {
    let mut s = UploadScreen::new(vec![]);
    assert_eq!(s.key_path, "~/.ssh/id_rsa.pub");
    s.handle_key(Key::Enter);
    assert_eq!(s.error.as_deref(), Some("Hostname is required"));
    s.handle_key(Key::Tab);
    for k in type_text("srv") {
        s.handle_key(k);
    }
    s.handle_key(Key::Enter);
    assert_eq!(s.error.as_deref(), Some("Password is required for authentication"));
    s.handle_key(Key::Tab);
    s.handle_key(Key::Char('x'));
    s.handle_key(Key::Tab);
    s.handle_key(Key::Tab);
    for k in type_text("pw'1") {
        s.handle_key(k);
    }
    s.handle_key(Key::Enter);
    assert_eq!(s.error.as_deref(), Some("Port must be a number"));
}

#[test]
fn upload_request_and_key_choice() {
    let mut s = UploadScreen::new(vec!["~/.ssh/a.pub".to_string(), "~/.ssh/b.pub".to_string()]);
    s.handle_key(Key::Left);
    assert_eq!(s.key_path, "~/.ssh/b.pub");
    s.handle_key(Key::Tab);
    for k in type_text("srv") {
        s.handle_key(k);
    }
    s.handle_key(Key::Tab);
    for k in type_text("2200") {
        s.handle_key(k);
    }
    s.handle_key(Key::Tab);
    for k in type_text("bob") {
        s.handle_key(k);
    }
    s.handle_key(Key::Tab);
    for k in type_text("secret") {
        s.handle_key(k);
    }
    match s.handle_key(Key::Enter) {
        Outcome::Switch(Screen::UploadExecute(r)) => {
            assert_eq!(r.key_path, "~/.ssh/b.pub");
            assert_eq!(r.hostname, "srv");
            assert_eq!(r.port, Some(2200));
            assert_eq!(r.user.as_deref(), Some("bob"));
            assert_eq!(r.password.as_deref(), Some("secret"));
        }
        _ => panic!("expected an upload"),
    }
}

#[test]
fn portforward_request() {
    let mut s = PortForwardScreen::new(screen_host("a", "a.example"));
    s.handle_key(Key::Right);
    assert_eq!(s.direction, 1);
    s.handle_key(Key::Enter);
    assert_eq!(s.error.as_deref(), Some("Local port is required"));
    s.handle_key(Key::Tab);
    for k in type_text("80a") {
        s.handle_key(k);
    }
    s.handle_key(Key::Tab);
    for _ in 0..9 {
        s.handle_key(Key::Backspace);
    }
    s.handle_key(Key::Tab);
    for k in type_text("3000") {
        s.handle_key(k);
    }
    s.handle_key(Key::Enter);
    assert_eq!(s.error.as_deref(), Some("Local port must be a valid number"));
    s.handle_key(Key::Up);
    s.handle_key(Key::Up);
    s.handle_key(Key::Backspace);
    match s.handle_key(Key::Enter) {
        Outcome::Switch(Screen::PortForwardExecute(r)) => {
            assert_eq!(r.direction, "R");
            assert_eq!(r.local_port, "80");
            assert_eq!(r.remote_host, "localhost");
            assert_eq!(r.remote_port, "3000");
            assert_eq!(r.host.host, "a");
        }
        _ => panic!("expected a tunnel"),
    }
}

#[test]
fn transfer_request() {
    let mut s = TransferScreen::new(screen_host("a", "a.example"));
    s.handle_key(Key::Enter);
    assert_eq!(s.error.as_deref(), Some("Local path is required"));
    s.handle_key(Key::Tab);
    for k in type_text("./f") {
        s.handle_key(k);
    }
    s.handle_key(Key::Enter);
    assert_eq!(s.error.as_deref(), Some("Remote path is required"));
    s.handle_key(Key::Tab);
    for k in type_text("/tmp/f") {
        s.handle_key(k);
    }
    s.handle_key(Key::Tab);
    s.handle_key(Key::Left);
    assert_eq!(s.direction, 1);
    match s.handle_key(Key::Enter) {
        Outcome::Switch(Screen::TransferExecute(r)) => {
            assert_eq!(r.direction, "download");
            assert_eq!(r.local_path, "./f");
            assert_eq!(r.remote_path, "/tmp/f");
        }
        _ => panic!("expected a transfer"),
    }
}

#[test]
fn quick_command_request() {
    let mut s = QuickCommandScreen::new(screen_host("a", "a.example"));
    s.handle_key(Key::Enter);
    assert_eq!(s.error.as_deref(), Some("Command cannot be empty"));
    for k in type_text("uptime") {
        s.handle_key(k);
    }
    match s.handle_key(Key::Enter) {
        Outcome::Switch(Screen::QuickCommandExecute(r)) => assert_eq!(r.command, "uptime"),
        _ => panic!("expected a command"),
    }
    assert!(matches!(s.handle_key(Key::Esc), Outcome::Switch(Screen::Connect(_))));
}

#[test]
fn command_output_scrolls() {
    let mut s = CommandOutputScreen::new("x\ny".to_string());
    s.handle_key(Key::Up);
    assert_eq!(s.scroll, 0);
    s.handle_key(Key::Char('j'));
    s.handle_key(Key::Down);
    assert_eq!(s.scroll, 2);
    s.handle_key(Key::Char('k'));
    assert_eq!(s.scroll, 1);
    assert!(matches!(s.handle_key(Key::Esc), Outcome::Switch(Screen::Connect(_))));
}

#[test]
fn known_hosts_import_and_remove() {
    let mut s = KnownHostsScreen::new();
    assert!(s.needs_hosts());
    s.load_hosts(
        vec!["a.com".to_string(), "b.com".to_string()],
        vec!["b.com".to_string()],
    );
    assert!(!s.needs_hosts());
    assert!(s.is_configured(&"b.com".to_string()));
    assert!(!s.is_configured(&"a.com".to_string()));
    assert!(matches!(s.match_key(Key::Enter), Outcome::Perform(Request::NewHostFor(h)) if h == "a.com"));
    s.match_key(Key::Down);
    assert!(matches!(s.match_key(Key::Enter), Outcome::Stay));
    assert!(matches!(&s.status, Some((m, StatusColor::Yellow)) if m == "Already configured"));
    s.match_key(Key::Char('d'));
    assert_eq!(s.confirm_delete, Some(1));
    assert_eq!(s.remove_prompt().as_deref(), Some("Remove 'b.com'? y/n"));
    match s.match_key(Key::Char('y')) {
        Outcome::Perform(Request::RemoveKnownHost { host, index }) => {
            assert_eq!(host, "b.com");
            assert_eq!(index, 1);
        }
        _ => panic!("expected a removal"),
    }
    s.after_remove(&"b.com".to_string(), 1, Ok((vec!["a.com".to_string()], vec![])));
    assert!(matches!(&s.status, Some((m, StatusColor::Green)) if m == "Removed 'b.com'"));
    assert_eq!(s.list_state.selected, Some(0));
    s.after_remove(&"a.com".to_string(), 0, Err("permission denied".to_string()));
    assert!(matches!(&s.status, Some((m, StatusColor::Red)) if m == "Error: permission denied"));
    assert_eq!(s.hosts, vec!["a.com".to_string()]);
}

#[test]
fn import_lists_unconfigured_hosts() {
    let mut s = ImportScreen::new();
    assert!(s.needs_hosts());
    s.load_hosts(
        vec!["a".to_string(), "b".to_string(), "c".to_string()],
        vec!["b".to_string(), "z".to_string()],
    );
    assert_eq!(s.hosts, vec!["a".to_string(), "c".to_string()]);
    s.load_hosts(vec!["q".to_string()], vec![]);
    assert_eq!(s.hosts, vec!["a".to_string(), "c".to_string()]);
    s.match_key(Key::Down);
    assert!(matches!(s.match_key(Key::Enter), Outcome::Perform(Request::NewHostFor(h)) if h == "c"));
    s.match_key(Key::Down);
    assert!(matches!(s.match_key(Key::Enter), Outcome::Stay));
    assert!(matches!(s.match_key(Key::Esc), Outcome::Switch(Screen::Intro(_))));
}

#[test]
fn form_fields_cycle_back() {
    let mut k = KeygenField::Bits;
    for _ in 0..4 {
        k = k.next();
    }
    assert_eq!(k, KeygenField::Bits);
    assert_eq!(KeygenField::KeyType.next().prev(), KeygenField::KeyType);
    let mut u = UploadField::Port;
    for _ in 0..5 {
        u = u.next();
    }
    assert_eq!(u, UploadField::Port);
    assert_eq!(UploadField::KeyPath.prev(), UploadField::Password);
    let mut p = ForwardField::RemoteHost;
    for _ in 0..4 {
        p = p.prev();
    }
    assert_eq!(p, ForwardField::RemoteHost);
    let mut t = TransferField::Direction;
    for _ in 0..3 {
        t = t.next();
    }
    assert_eq!(t, TransferField::Direction);
}
