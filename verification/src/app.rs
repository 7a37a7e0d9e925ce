//! The application state and what a key press does to it: it goes to the
//! screen shown, whose outcome replaces the screen, asks for an SSH session,
//! or hands outside work back to the caller.
use vstd::prelude::*;

use crate::screen::command_output_screen::CommandOutputScreen;
use crate::screen::configure_screen::ConfigureScreen;
use crate::screen::connect_screen::ConnectScreen;
use crate::screen::import_screen::ImportScreen;
use crate::screen::intro_screen::IntroScreen;
use crate::screen::keygen_screen::KeygenScreen;
use crate::screen::known_hosts_screen::KnownHostsScreen;
use crate::screen::portforward_screen::PortForwardScreen;
use crate::screen::quick_command_screen::QuickCommandScreen;
use crate::screen::transfer_screen::TransferScreen;
use crate::screen::upload_screen::UploadScreen;
use crate::commands::{
    code_message, code_text, combined_output, combined_text, copy_id_failure_message,
    copy_id_failure_text, ssh_failure_message, ssh_failure_text,
};
use crate::screen::{Key, Outcome, Request, Screen};
use crate::ssh_config::config_reader::SSHConfig;

verus! {

/// The state of the application.
#[derive(Debug)]
pub struct App {
    pub should_quit: bool,
    pub current_screen: Screen,
    /// The host to open an SSH session to, once the screen asked for one.
    pub current_ssh: Option<SSHConfig>,
    /// The message about the last SSH session, when it failed.
    pub ssh_status: Option<String>,
}

/// Whether the forms with a list of keys have their choice inside the list.
pub open spec fn screen_wf(s: Screen) -> bool {
    match s {
        Screen::Configure(c) => c.wf(),
        Screen::Upload(u) => u.wf(),
        Screen::Keygen(k) => k.wf(),
        _ => true,
    }
}

/// Whether `key` quits the application on screen `s`: `q` does, except on
/// the forms that take free text (host form, key upload, key generation).
pub open spec fn quits_on(s: Screen, key: Key) -> bool {
    key == Key::Char('q') && !(s is Configure || s is Upload || s is Keygen)
}

/// How the screen `old_s` reacts to `key`: it becomes `new_s` and the key
/// press leads to `out`.  The screens that stand for a running command do
/// not react.
pub open spec fn screen_step(old_s: Screen, new_s: Screen, key: Key, out: Outcome) -> bool {
    match old_s {
        Screen::Intro(s) => new_s matches Screen::Intro(t) && IntroScreen::key_step(s, t, key, out),
        Screen::Connect(s) => new_s matches Screen::Connect(t) && ConnectScreen::key_step(
            s,
            t,
            key,
            out,
        ),
        Screen::Configure(s) => new_s matches Screen::Configure(t) && ConfigureScreen::key_step(
            s,
            t,
            key,
            out,
        ) && t.wf(),
        Screen::Upload(s) => new_s matches Screen::Upload(t) && UploadScreen::key_step(
            s,
            t,
            key,
            out,
        ) && t.wf(),
        Screen::Keygen(s) => new_s matches Screen::Keygen(t) && KeygenScreen::key_step(
            s,
            t,
            key,
            out,
        ) && t.wf(),
        Screen::KnownHosts(s) => new_s matches Screen::KnownHosts(t) && KnownHostsScreen::key_step(
            s,
            t,
            key,
            out,
        ),
        Screen::PortForward(s) => new_s matches Screen::PortForward(t)
            && PortForwardScreen::key_step(s, t, key, out),
        Screen::Transfer(s) => new_s matches Screen::Transfer(t) && TransferScreen::key_step(
            s,
            t,
            key,
            out,
        ),
        Screen::Import(s) => new_s matches Screen::Import(t) && ImportScreen::key_step(
            s,
            t,
            key,
            out,
        ),
        Screen::QuickCommand(s) => new_s matches Screen::QuickCommand(t)
            && QuickCommandScreen::key_step(s, t, key, out),
        Screen::CommandOutput(s) => new_s matches Screen::CommandOutput(t)
            && CommandOutputScreen::key_step(s, t, key, out),
        _ => new_s == old_s && out is Stay,
    }
}

/// The application after its screen became `mid` with the outcome `out`,
/// and what is handed back: a new screen replaces `mid`, an SSH request is
/// kept in `current_ssh`, other outside work is returned.
pub open spec fn applied(old_a: App, mid: Screen, out: Outcome, new_a: App, r: Option<Request>) -> bool {
    match out {
        Outcome::Stay => new_a == (App { current_screen: mid, ..old_a }) && r is None,
        Outcome::Switch(s) => new_a == (App { current_screen: s, ..old_a }) && r is None,
        Outcome::Perform(req) => match req {
            Request::Ssh(c) => new_a == (App { current_screen: mid, current_ssh: Some(c), ..old_a })
                && r is None,
            _ => new_a == (App { current_screen: mid, ..old_a }) && r == Some(req),
        },
    }
}

impl App {
    /// Whether the screen shown is consistent.
    pub open spec fn wf(&self) -> bool {
        screen_wf(self.current_screen)
    }

    /// The application as it starts: the menu, nothing pending.
    pub fn new() -> (a: App)
        ensures
            a.wf(),
            !a.should_quit,
            a.current_screen matches Screen::Intro(i) && i.selected == 0,
            a.current_ssh is None,
            a.ssh_status is None,
    {
        App {
            should_quit: false,
            current_screen: Screen::Intro(IntroScreen::new()),
            current_ssh: None,
            ssh_status: None,
        }
    }

    /// Whether the screen shown is consistent (see `wf`).
    pub fn is_consistent(&self) -> (r: bool)
        ensures
            r == self.wf(),
    {
        match &self.current_screen {
            Screen::Configure(c) => c.available_keys.len() == 0 || c.key_index
                < c.available_keys.len(),
            Screen::Upload(u) => u.available_keys.len() == 0 || u.key_index
                < u.available_keys.len(),
            Screen::Keygen(k) => k.key_type < crate::screen::keygen_screen::KEY_TYPE_COUNT,
            _ => true,
        }
    }

    /// Applies an outcome: a new screen replaces the current one, an SSH
    /// request is kept in `current_ssh`, other outside work is returned.
    pub fn apply(&mut self, out: Outcome) -> (r: Option<Request>)
        ensures
            applied(*old(self), old(self).current_screen, out, *final(self), r),
            old(self).wf() && (out matches Outcome::Switch(s) ==> screen_wf(s)) ==> final(self).wf(),
    {
        match out {
            Outcome::Stay => None,
            Outcome::Switch(screen) => {
                self.current_screen = screen;
                None
            },
            Outcome::Perform(Request::Ssh(config)) => {
                self.current_ssh = Some(config);
                None
            },
            Outcome::Perform(request) => Some(request),
        }
    }

    /// Takes the end of the SSH session that `current_ssh` asked for, with
    /// the exit code of `ssh` (`None` when a signal ended it): the request
    /// is cleared and a failure is reported in `ssh_status`.
    pub fn finish_ssh(&mut self, code: Option<i32>)
        ensures
            final(self).current_ssh is None,
            final(self).should_quit == old(self).should_quit,
            final(self).current_screen == old(self).current_screen,
            code == Some(0i32) ==> final(self).ssh_status == old(self).ssh_status,
            code != Some(0i32) ==> (final(self).ssh_status matches Some(m) && m@ == ssh_failure_text(
                code,
            )),
    {
        if code != Some(0i32) {
            self.ssh_status = Some(ssh_failure_message(code));
        }
        self.current_ssh = None;
    }

    /// Called on each tick of the event loop; nothing changes.
    pub fn tick(&self) {
    }

    /// Asks the application to end.
    pub fn quit(&mut self)
        ensures
            *final(self) == (App { should_quit: true, ..*old(self) }),
    {
        self.should_quit = true;
    }
}

impl Default for App {
    /// The application as it starts (see `new`).
    fn default() -> (a: App)
        ensures
            a.wf(),
            !a.should_quit,
            a.current_screen matches Screen::Intro(i) && i.selected == 0,
            a.current_ssh is None,
            a.ssh_status is None,
    {
        App::new()
    }
}

impl Default for Screen {
    /// The main menu with its first option selected.
    fn default() -> (s: Screen)
        ensures
            s matches Screen::Intro(i) && i.selected == 0,
    {
        Screen::Intro(IntroScreen::new())
    }
}

/// Handles a key press: `q` quits (except on the forms that take free
/// text); otherwise the key goes to the screen shown.  A new screen replaces
/// it, an SSH session is kept in `current_ssh` for the caller to open, and
/// other outside work is returned for the caller to perform.
pub fn update(app: &mut App, key: Key) -> (r: Option<Request>)
    requires
        old(app).wf(),
    ensures
        final(app).wf(),
        quits_on(old(app).current_screen, key) ==> r is None && *final(app) == (App {
            should_quit: true,
            ..*old(app)
        }),
        !quits_on(old(app).current_screen, key) ==> exists|mid: Screen, out: Outcome|
            #[trigger] screen_step(old(app).current_screen, mid, key, out) && applied(
                *old(app),
                mid,
                out,
                *final(app),
                r,
            ),
{
    let text_form = match &app.current_screen {
        Screen::Configure(_) | Screen::Upload(_) | Screen::Keygen(_) => true,
        _ => false,
    };
    if key == Key::Char('q') && !text_form {
        app.quit();
        return None;
    }
    let ghost before = app.current_screen;
    let out = match &mut app.current_screen {
        Screen::Intro(s) => s.match_key(key),
        Screen::Connect(s) => s.match_key(key),
        Screen::Configure(s) => s.match_key(key),
        Screen::Upload(s) => s.handle_key(key),
        Screen::Keygen(s) => s.handle_key(key),
        Screen::KnownHosts(s) => s.match_key(key),
        Screen::PortForward(s) => s.handle_key(key),
        Screen::Transfer(s) => s.handle_key(key),
        Screen::Import(s) => s.match_key(key),
        Screen::QuickCommand(s) => s.handle_key(key),
        Screen::CommandOutput(s) => s.handle_key(key),
        _ => Outcome::Stay,
    };
    let ghost mid = app.current_screen;
    let ghost o = out;
    assert(screen_step(before, mid, key, o));
    app.apply(out)
}

/// The screen after `ssh-copy-id` ended with `code`: the menu on success;
/// otherwise the upload form, opened with the public keys `keys`, showing
/// what went wrong.
pub fn upload_finished(code: Option<i32>, keys: Vec<String>) -> (s: Screen)
    ensures
        screen_wf(s),
        code == Some(0i32) ==> (s matches Screen::Intro(i) && i.selected == 0),
        code != Some(0i32) ==> (s matches Screen::Upload(u) && (UploadScreen {
            error: None,
            ..u
        }).opened_with(keys) && (u.error matches Some(e) && e@ == copy_id_failure_text(code))),
{
    if code == Some(0i32) {
        Screen::Intro(IntroScreen::new())
    } else {
        let mut screen = UploadScreen::new(keys);
        screen.error = Some(copy_id_failure_message(code));
        Screen::Upload(screen)
    }
}

/// The screen after `ssh-keygen` ended with `code`: the menu on success;
/// otherwise a fresh key generation form showing the exit code.
pub fn keygen_finished(code: Option<i32>) -> (s: Screen)
    ensures
        screen_wf(s),
        code == Some(0i32) ==> (s matches Screen::Intro(i) && i.selected == 0),
        code != Some(0i32) ==> (s matches Screen::Keygen(k) && (KeygenScreen {
            error: None,
            ..k
        }).is_fresh() && (k.error matches Some(e) && e@ == code_text(
            "ssh-keygen failed with code "@,
            code,
        ))),
{
    if code == Some(0i32) {
        Screen::Intro(IntroScreen::new())
    } else {
        let mut screen = KeygenScreen::new();
        screen.error = Some(code_message("ssh-keygen failed with code ", code));
        Screen::Keygen(screen)
    }
}

/// The screen after a tunnel to `host` ended with `code`: the connection
/// list on success; otherwise a fresh forwarding form for `host` saying
/// that forwarding ended or failed.
pub fn forward_finished(host: SSHConfig, code: Option<i32>) -> (s: Screen)
    ensures
        screen_wf(s),
        code == Some(0i32) ==> (s matches Screen::Connect(c) && c.is_fresh()),
        code != Some(0i32) ==> (s matches Screen::PortForward(p) && (PortForwardScreen {
            error: None,
            ..p
        }).is_fresh_for(host) && (p.error matches Some(e) && e@
            == "Port forwarding ended or failed"@)),
{
    if code == Some(0i32) {
        Screen::Connect(ConnectScreen::new())
    } else {
        let mut screen = PortForwardScreen::new(host);
        screen.error = Some(String::from_str("Port forwarding ended or failed"));
        Screen::PortForward(screen)
    }
}

/// The screen after `scp` for `host` ended with `code`: the connection list
/// on success; otherwise a fresh transfer form for `host` showing the exit
/// code.
pub fn transfer_finished(host: SSHConfig, code: Option<i32>) -> (s: Screen)
    ensures
        screen_wf(s),
        code == Some(0i32) ==> (s matches Screen::Connect(c) && c.is_fresh()),
        code != Some(0i32) ==> (s matches Screen::Transfer(t) && (TransferScreen {
            error: None,
            ..t
        }).is_fresh_for(host) && (t.error matches Some(e) && e@ == code_text(
            "scp failed with code "@,
            code,
        ))),
{
    if code == Some(0i32) {
        Screen::Connect(ConnectScreen::new())
    } else {
        let mut screen = TransferScreen::new(host);
        screen.error = Some(code_message("scp failed with code ", code));
        Screen::Transfer(screen)
    }
}

/// The screen after a remote command ran: its output, with its standard
/// error under a separator when there is any.
pub fn command_finished(stdout: String, stderr: &str) -> (s: Screen)
    ensures
        s matches Screen::CommandOutput(c) && c.scroll == 0 && c.output@ == combined_text(
            stdout@,
            stderr@,
        ),
{
    Screen::CommandOutput(CommandOutputScreen::new(combined_output(stdout, stderr)))
}

} // verus!
