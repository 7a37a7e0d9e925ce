//! The command lines of the external programs (`ssh`, `ssh-copy-id`,
//! `ssh-keygen`, `scp`), the askpass script that hands a password to
//! `ssh-copy-id`, and the messages shown when a program fails.
use vstd::prelude::*;

use crate::screen::keygen_screen::KeygenRequest;
use crate::screen::portforward_screen::PortForwardRequest;
use crate::screen::quick_command_screen::QuickCommandRequest;
use crate::screen::transfer_screen::TransferRequest;
use crate::screen::upload_screen::UploadRequest;
use crate::ssh_config::config_reader::{AuthMethod, AuthView, ConfigView, SSHConfig};
use crate::text::{
    chars_eq, chars_of, decimal, decimal_chars, signed_decimal, signed_decimal_chars, string_views,
    to_string,
};

verus! {

/// `flag` followed by the value, or nothing when there is no value.
pub open spec fn flag_arg(flag: Seq<char>, v: Option<Seq<char>>) -> Seq<Seq<char>> {
    match v {
        Some(x) => seq![flag, x],
        None => Seq::empty(),
    }
}

/// The port in decimal, if one is set.
pub open spec fn port_text(p: Option<u16>) -> Option<Seq<char>> {
    match p {
        Some(n) => Some(decimal(n as nat)),
        None => None,
    }
}

/// The key file of a key authentication.
pub open spec fn key_file(auth: Option<AuthView>) -> Option<Seq<char>> {
    match auth {
        Some(AuthView::Key(k)) => Some(k),
        _ => None,
    }
}

/// The value unless it is absent or empty.
pub open spec fn non_empty_opt(v: Option<Seq<char>>) -> Option<Seq<char>> {
    match v {
        Some(x) => if x.len() > 0 {
            Some(x)
        } else {
            None
        },
        None => None,
    }
}

/// The arguments of `ssh` for a session with `c`: `-l` user, `-p` port,
/// `-i` key file, `-J` jump host (when not empty), then the address.
pub open spec fn ssh_args(c: ConfigView) -> Seq<Seq<char>> {
    flag_arg("-l"@, c.username) + flag_arg("-p"@, port_text(c.port)) + flag_arg(
        "-i"@,
        key_file(c.auth),
    ) + flag_arg("-J"@, non_empty_opt(c.proxy_jump)) + seq![c.hostname]
}

/// The arguments of `ssh` that run `command` on `c`: `-l` user (when not
/// empty), `-p` port, `-i` key file, the address and the command.
pub open spec fn remote_command_args(c: ConfigView, command: Seq<char>) -> Seq<Seq<char>> {
    flag_arg("-l"@, non_empty_opt(c.username)) + flag_arg("-p"@, port_text(c.port)) + flag_arg(
        "-i"@,
        key_file(c.auth),
    ) + seq![c.hostname, command]
}

/// `user@hostname`, or the address alone without a user.
pub open spec fn copy_id_target(user: Option<Seq<char>>, hostname: Seq<char>) -> Seq<char> {
    match user {
        Some(u) => u + "@"@ + hostname,
        None => hostname,
    }
}

/// The arguments of `ssh-copy-id`: `-i` key, `-p` port, then the target.
pub open spec fn copy_id_args(
    key_path: Seq<char>,
    port: Option<u16>,
    user: Option<Seq<char>>,
    hostname: Seq<char>,
) -> Seq<Seq<char>> {
    seq!["-i"@, key_path] + flag_arg("-p"@, port_text(port)) + seq![
        copy_id_target(user, hostname),
    ]
}

/// The arguments of `ssh-keygen`: `-t` type, `-b` bits (if given), `-f`
/// file and `-N` passphrase.
pub open spec fn keygen_args(
    key_type: Seq<char>,
    bits: Option<Seq<char>>,
    filename: Seq<char>,
    passphrase: Seq<char>,
) -> Seq<Seq<char>> {
    seq!["-t"@, key_type] + flag_arg("-b"@, bits) + seq!["-f"@, filename, "-N"@, passphrase]
}

/// The arguments of `ssh` for a tunnel: `-L` or `-R` with
/// `local:remote_host:remote_port`, `-N` (no remote command), then the
/// host's alias, so that its configuration applies.
pub open spec fn forward_args(
    direction: Seq<char>,
    local_port: Seq<char>,
    remote_host: Seq<char>,
    remote_port: Seq<char>,
    alias: Seq<char>,
) -> Seq<Seq<char>> {
    seq![
        "-"@ + direction,
        local_port + ":"@ + remote_host + ":"@ + remote_port,
        "-N"@,
        alias,
    ]
}

/// The remote side of a copy: `user@hostname:path`, without `user@` when
/// the user is absent or empty.
pub open spec fn scp_remote(user: Option<Seq<char>>, hostname: Seq<char>, path: Seq<char>) -> Seq<char> {
    match non_empty_opt(user) {
        Some(u) => u + "@"@ + hostname + ":"@ + path,
        None => hostname + ":"@ + path,
    }
}

/// The arguments of `scp`: `-P` port, `-i` key file, then source and
/// destination (the local path first for an upload).
pub open spec fn scp_args(c: ConfigView, upload: bool, local: Seq<char>, remote_path: Seq<char>) -> Seq<
    Seq<char>,
> {
    let remote = scp_remote(c.username, c.hostname, remote_path);
    flag_arg("-P"@, port_text(c.port)) + flag_arg("-i"@, key_file(c.auth)) + if upload {
        seq![local, remote]
    } else {
        seq![remote, local]
    }
}

/// `s` with each `'` written as `'\''`, so that it can stand between single
/// quotes in a shell script.
pub open spec fn shell_quoted(s: Seq<char>) -> Seq<char>
    decreases s.len(),
{
    if s.len() == 0 {
        Seq::empty()
    } else {
        let rest = shell_quoted(s.drop_last());
        if s.last() == '\'' {
            rest + "'\\''"@
        } else {
            rest.push(s.last())
        }
    }
}

/// The askpass script that prints `password`.
pub open spec fn askpass_text(password: Seq<char>) -> Seq<char> {
    "#!/bin/sh\necho '"@ + shell_quoted(password) + "'\n"@
}

/// The output of a remote command: its standard output, followed by its
/// standard error under a separator when there is any.
pub open spec fn combined_text(stdout: Seq<char>, stderr: Seq<char>) -> Seq<char> {
    if stderr.len() == 0 {
        stdout
    } else {
        stdout + "\n--- stderr ---\n"@ + stderr
    }
}

/// The message after an SSH session that failed with exit code `code`
/// (`None` when a signal ended it).
pub open spec fn ssh_failure_text(code: Option<i32>) -> Seq<char> {
    match code {
        Some(c) => if c == 255 {
            "Connection refused or host unreachable"@
        } else if c == 1 {
            "Authentication failed"@
        } else {
            "SSH exited with code "@ + signed_decimal(c as int)
        },
        None => "SSH was terminated by a signal"@,
    }
}

/// The message after `ssh-copy-id` failed with exit code `code`.
pub open spec fn copy_id_failure_text(code: Option<i32>) -> Seq<char> {
    match code {
        Some(c) => if c == 255 {
            "Connection refused or host unreachable"@
        } else if c == 1 {
            "Authentication failed"@
        } else if c == 5 {
            "Invalid password"@
        } else if c == 6 {
            "Host key verification failed"@
        } else {
            "ssh-copy-id exited with code "@ + signed_decimal(c as int)
        },
        None => "ssh-copy-id was terminated by a signal"@,
    }
}

/// `prefix` and the exit code, `-1` standing for an end by signal.
pub open spec fn code_text(prefix: Seq<char>, code: Option<i32>) -> Seq<char> {
    prefix + signed_decimal(
        match code {
            Some(c) => c as int,
            None => -1,
        },
    )
}

/// Appends `flag` and the value, if there is one.
fn push_flag(out: &mut Vec<String>, flag: &str, v: Option<String>)
    ensures
        string_views(final(out)@) == string_views(old(out)@) + flag_arg(
            flag@,
            match v {
                Some(s) => Some(s@),
                None => None,
            },
        ),
{
    let ghost before = string_views(out@);
    match v {
        Some(s) => {
            let ghost sv = s@;
            out.push(String::from_str(flag));
            out.push(s);
            assert(string_views(out@) =~= before + seq![flag@, sv]);
        },
        None => {
            assert(string_views(out@) =~= before + Seq::<Seq<char>>::empty());
        },
    }
}

/// Appends `s`.
fn push_arg(out: &mut Vec<String>, s: String)
    ensures
        string_views(final(out)@) == string_views(old(out)@) + seq![s@],
{
    let ghost before = string_views(out@);
    let ghost sv = s@;
    out.push(s);
    assert(string_views(out@) =~= before + seq![sv]);
}

/// The port in decimal, if one is set.
fn port_string(p: Option<u16>) -> (r: Option<String>)
    ensures
        match r {
            Some(s) => port_text(p) == Some(s@),
            None => port_text(p) is None,
        },
{
    match p {
        Some(n) => Some(to_string(&decimal_chars(n as u64))),
        None => None,
    }
}

/// The key file of a key authentication.
fn key_string(auth: &Option<AuthMethod>) -> (r: Option<String>)
    ensures
        match r {
            Some(s) => key_file(match *auth {
                Some(a) => Some(a@),
                None => None,
            }) == Some(s@),
            None => key_file(match *auth {
                Some(a) => Some(a@),
                None => None,
            }) is None,
        },
{
    match auth {
        Some(AuthMethod::Key(k)) => Some(k.clone()),
        _ => None,
    }
}

/// The value unless it is absent or empty.
fn non_empty_string(v: &Option<String>) -> (r: Option<String>)
    ensures
        match r {
            Some(s) => non_empty_opt(match *v {
                Some(x) => Some(x@),
                None => None,
            }) == Some(s@),
            None => non_empty_opt(match *v {
                Some(x) => Some(x@),
                None => None,
            }) is None,
        },
{
    match v {
        Some(s) => if s.as_str().is_empty() {
            None
        } else {
            Some(s.clone())
        },
        None => None,
    }
}

/// A copy of an optional string.
fn copy_opt(v: &Option<String>) -> (r: Option<String>)
    ensures
        match r {
            Some(s) => *v matches Some(x) && x@ == s@,
            None => v is None,
        },
{
    match v {
        Some(s) => Some(s.clone()),
        None => None,
    }
}

/// The arguments of `ssh` for a session with `host`.
pub fn ssh_arguments(host: &SSHConfig) -> (out: Vec<String>)
    ensures
        string_views(out@) == ssh_args(host@),
{
    let mut out: Vec<String> = Vec::new();
    push_flag(&mut out, "-l", copy_opt(&host.username));
    push_flag(&mut out, "-p", port_string(host.port));
    push_flag(&mut out, "-i", key_string(&host.auth));
    push_flag(&mut out, "-J", non_empty_string(&host.proxy_jump));
    push_arg(&mut out, host.hostname.clone());
    proof {
        reveal_strlit("-l");
        reveal_strlit("-p");
        reveal_strlit("-i");
        reveal_strlit("-J");
    }
    assert(string_views(out@) =~= ssh_args(host@));
    out
}

/// The arguments of `ssh` that run the command of `request`.
pub fn remote_command_arguments(request: &QuickCommandRequest) -> (out: Vec<String>)
    ensures
        string_views(out@) == remote_command_args(request.host@, request.command@),
{
    let host = &request.host;
    let mut out: Vec<String> = Vec::new();
    push_flag(&mut out, "-l", non_empty_string(&host.username));
    push_flag(&mut out, "-p", port_string(host.port));
    push_flag(&mut out, "-i", key_string(&host.auth));
    push_arg(&mut out, host.hostname.clone());
    push_arg(&mut out, request.command.clone());
    assert(string_views(out@) =~= remote_command_args(request.host@, request.command@));
    out
}

/// The arguments of `ssh-copy-id` for `request`.
pub fn copy_id_arguments(request: &UploadRequest) -> (out: Vec<String>)
    ensures
        string_views(out@) == copy_id_args(
            request.key_path@,
            request.port,
            match request.user {
                Some(u) => Some(u@),
                None => None,
            },
            request.hostname@,
        ),
{
    let mut out: Vec<String> = Vec::new();
    push_flag(&mut out, "-i", Some(request.key_path.clone()));
    push_flag(&mut out, "-p", port_string(request.port));
    let target = match &request.user {
        Some(u) => {
            let mut t = u.clone();
            t.append("@");
            t.append(request.hostname.as_str());
            t
        },
        None => request.hostname.clone(),
    };
    push_arg(&mut out, target);
    assert(string_views(out@) =~= copy_id_args(
        request.key_path@,
        request.port,
        match request.user {
            Some(u) => Some(u@),
            None => None,
        },
        request.hostname@,
    ));
    out
}

/// The arguments of `ssh-keygen` for `request`.
pub fn keygen_arguments(request: &KeygenRequest) -> (out: Vec<String>)
    ensures
        string_views(out@) == keygen_args(
            request.key_type@,
            match request.bits {
                Some(b) => Some(b@),
                None => None,
            },
            request.filename@,
            request.passphrase@,
        ),
{
    let mut out: Vec<String> = Vec::new();
    push_arg(&mut out, String::from_str("-t"));
    push_arg(&mut out, request.key_type.clone());
    push_flag(&mut out, "-b", copy_opt(&request.bits));
    push_arg(&mut out, String::from_str("-f"));
    push_arg(&mut out, request.filename.clone());
    push_arg(&mut out, String::from_str("-N"));
    push_arg(&mut out, request.passphrase.clone());
    assert(string_views(out@) =~= keygen_args(
        request.key_type@,
        match request.bits {
            Some(b) => Some(b@),
            None => None,
        },
        request.filename@,
        request.passphrase@,
    ));
    out
}

/// The arguments of `ssh` for the tunnel of `request`.
pub fn forward_arguments(request: &PortForwardRequest) -> (out: Vec<String>)
    ensures
        string_views(out@) == forward_args(
            request.direction@,
            request.local_port@,
            request.remote_host@,
            request.remote_port@,
            request.host.host@,
        ),
{
    let mut out: Vec<String> = Vec::new();
    let mut flag = String::from_str("-");
    flag.append(request.direction.as_str());
    push_arg(&mut out, flag);
    let mut spec = request.local_port.clone();
    spec.append(":");
    spec.append(request.remote_host.as_str());
    spec.append(":");
    spec.append(request.remote_port.as_str());
    push_arg(&mut out, spec);
    push_arg(&mut out, String::from_str("-N"));
    push_arg(&mut out, request.host.host.clone());
    assert(string_views(out@) =~= forward_args(
        request.direction@,
        request.local_port@,
        request.remote_host@,
        request.remote_port@,
        request.host.host@,
    ));
    out
}

/// The arguments of `scp` for `request`.
pub fn scp_arguments(request: &TransferRequest) -> (out: Vec<String>)
    ensures
        string_views(out@) == scp_args(
            request.host@,
            request.direction@ == "upload"@,
            request.local_path@,
            request.remote_path@,
        ),
{
    let host = &request.host;
    let mut out: Vec<String> = Vec::new();
    push_flag(&mut out, "-P", port_string(host.port));
    push_flag(&mut out, "-i", key_string(&host.auth));
    let mut remote = match non_empty_string(&host.username) {
        Some(u) => {
            let mut r = u;
            r.append("@");
            r.append(host.hostname.as_str());
            r
        },
        None => host.hostname.clone(),
    };
    remote.append(":");
    remote.append(request.remote_path.as_str());
    let upload = chars_eq(&chars_of(request.direction.as_str()), &chars_of("upload"));
    if upload {
        push_arg(&mut out, request.local_path.clone());
        push_arg(&mut out, remote);
    } else {
        push_arg(&mut out, remote);
        push_arg(&mut out, request.local_path.clone());
    }
    assert(string_views(out@) =~= scp_args(
        request.host@,
        request.direction@ == "upload"@,
        request.local_path@,
        request.remote_path@,
    ));
    out
}

/// `password` with each `'` written as `'\''`.
pub fn shell_quote(password: &str) -> (out: String)
    ensures
        out@ == shell_quoted(password@),
{
    let mut out = String::new();
    let ghost s = password@;
    for c in it: password.chars()
        invariant
            it.seq() == s,
            out@ == shell_quoted(s.take(it.index() as int)),
    {
        proof {
            assert(s.take(it.index() + 1).drop_last() =~= s.take(it.index() as int));
        }
        if c == '\'' {
            out.append("'\\''");
        } else {
            crate::text::push_char(&mut out, c);
        }
    }
    assert(s.take(s.len() as int) =~= s);
    out
}

/// The askpass script that prints `password`.
pub fn askpass_script(password: &str) -> (out: String)
    ensures
        out@ == askpass_text(password@),
{
    let mut out = String::from_str("#!/bin/sh\necho '");
    let quoted = shell_quote(password);
    out.append(quoted.as_str());
    out.append("'\n");
    out
}

/// The output of a remote command shown to the user.
pub fn combined_output(stdout: String, stderr: &str) -> (out: String)
    ensures
        out@ == combined_text(stdout@, stderr@),
{
    if stderr.is_empty() {
        stdout
    } else {
        let mut out = stdout;
        out.append("\n--- stderr ---\n");
        out.append(stderr);
        out
    }
}

/// `prefix` followed by the decimal `code`.
fn with_code(prefix: &str, code: i32) -> (out: String)
    ensures
        out@ == prefix@ + signed_decimal(code as int),
{
    let mut out = String::from_str(prefix);
    let digits = to_string(&signed_decimal_chars(code as i64));
    out.append(digits.as_str());
    out
}

/// The message after an SSH session failed with exit code `code`.
pub fn ssh_failure_message(code: Option<i32>) -> (out: String)
    ensures
        out@ == ssh_failure_text(code),
{
    match code {
        Some(255) => String::from_str("Connection refused or host unreachable"),
        Some(1) => String::from_str("Authentication failed"),
        Some(c) => with_code("SSH exited with code ", c),
        None => String::from_str("SSH was terminated by a signal"),
    }
}

/// The message after `ssh-copy-id` failed with exit code `code`.
pub fn copy_id_failure_message(code: Option<i32>) -> (out: String)
    ensures
        out@ == copy_id_failure_text(code),
{
    match code {
        Some(255) => String::from_str("Connection refused or host unreachable"),
        Some(1) => String::from_str("Authentication failed"),
        Some(5) => String::from_str("Invalid password"),
        Some(6) => String::from_str("Host key verification failed"),
        Some(c) => with_code("ssh-copy-id exited with code ", c),
        None => String::from_str("ssh-copy-id was terminated by a signal"),
    }
}

/// `prefix` and the exit code, `-1` when a signal ended the program.
pub fn code_message(prefix: &str, code: Option<i32>) -> (out: String)
    ensures
        out@ == code_text(prefix@, code),
{
    let c: i32 = match code {
        Some(c) => c,
        None => -1,
    };
    with_code(prefix, c)
}

/// For every host that authenticates with a key file `k`, the `ssh`
/// arguments hold `-i` immediately followed by `k`, whatever else the
/// entry sets.
pub proof fn lemma_ssh_passes_key_file(c: ConfigView, k: Seq<char>)
    requires
        c.auth == Some(AuthView::Key(k)),
    ensures
        exists|i: int|
            0 <= i && i + 1 < ssh_args(c).len() && #[trigger] ssh_args(c)[i] == "-i"@ && ssh_args(
                c,
            )[i + 1] == k,
{
    let a = flag_arg("-l"@, c.username) + flag_arg("-p"@, port_text(c.port));
    let i = a.len() as int;
    let rest = flag_arg("-J"@, non_empty_opt(c.proxy_jump)) + seq![c.hostname];
    assert(ssh_args(c) =~= a + seq!["-i"@, k] + rest);
    assert(ssh_args(c)[i] == "-i"@);
    assert(ssh_args(c)[i + 1] == k);
}

/// The `scp` arguments of a download are those of an upload with the last
/// two swapped, and the remote operand of a host with a non-empty user is
/// `user@hostname:path`.
pub proof fn lemma_scp_directions(c: ConfigView, local: Seq<char>, path: Seq<char>)
    ensures
        ({
            let up = scp_args(c, true, local, path);
            let down = scp_args(c, false, local, path);
            &&& up.len() >= 2
            &&& down.len() == up.len()
            &&& down.take(down.len() - 2) == up.take(up.len() - 2)
            &&& down[down.len() - 2] == up[up.len() - 1]
            &&& down[down.len() - 1] == up[up.len() - 2]
            &&& up[up.len() - 2] == local
            &&& (c.username matches Some(u) && u.len() > 0) ==> up[up.len() - 1] == c.username->0
                + "@"@ + c.hostname + ":"@ + path
            &&& (c.username matches Some(u) && u.len() > 0) ==> down[down.len() - 2]
                == c.username->0 + "@"@ + c.hostname + ":"@ + path
        }),
{
    let pre = flag_arg("-P"@, port_text(c.port)) + flag_arg("-i"@, key_file(c.auth));
    let remote = scp_remote(c.username, c.hostname, path);
    let up = scp_args(c, true, local, path);
    let down = scp_args(c, false, local, path);
    assert(up =~= pre + seq![local, remote]);
    assert(down =~= pre + seq![remote, local]);
    assert(up.take(up.len() - 2) =~= pre);
    assert(down.take(down.len() - 2) =~= pre);
}

/// Whether `flag` stands in `args` immediately followed by `value`.
pub open spec fn passes(args: Seq<Seq<char>>, flag: Seq<char>, value: Seq<char>) -> bool {
    exists|i: int| 0 <= i && i + 1 < args.len() && #[trigger] args[i] == flag && args[i + 1] == value
}

/// The `ssh` arguments end with the address, and pass the user after
/// `-l`, the port in decimal after `-p` and a non-empty jump host after
/// `-J` whenever the entry sets them.
pub proof fn lemma_ssh_passes_entry(c: ConfigView)
    ensures
        ssh_args(c).len() >= 1,
        ssh_args(c).last() == c.hostname,
        c.username matches Some(u) ==> passes(ssh_args(c), "-l"@, u),
        c.port matches Some(p) ==> passes(ssh_args(c), "-p"@, decimal(p as nat)),
        c.proxy_jump matches Some(j) ==> (j.len() > 0 ==> passes(ssh_args(c), "-J"@, j)),
{
    let l = flag_arg("-l"@, c.username);
    let p = flag_arg("-p"@, port_text(c.port));
    let k = flag_arg("-i"@, key_file(c.auth));
    let j = flag_arg("-J"@, non_empty_opt(c.proxy_jump));
    let a = ssh_args(c);
    assert(a =~= l + p + k + j + seq![c.hostname]);
    if let Some(u) = c.username {
        assert(a[0] == "-l"@ && a[1] == u);
    }
    if let Some(q) = c.port {
        let i = l.len() as int;
        assert(a[i] == "-p"@ && a[i + 1] == decimal(q as nat));
    }
    if let Some(jh) = c.proxy_jump {
        if jh.len() > 0 {
            let i = (l.len() + p.len() + k.len()) as int;
            assert(a[i] == "-J"@ && a[i + 1] == jh);
        }
    }
}

/// The `ssh-keygen` arguments start with `-t` and the key type and pass
/// the file after `-f` and exactly the passphrase after `-N`.
pub proof fn lemma_keygen_passes_request(
    key_type: Seq<char>,
    bits: Option<Seq<char>>,
    filename: Seq<char>,
    passphrase: Seq<char>,
)
    ensures
        ({
            let a = keygen_args(key_type, bits, filename, passphrase);
            &&& a.len() >= 6
            &&& a[0] == "-t"@ && a[1] == key_type
            &&& a[a.len() - 4] == "-f"@ && a[a.len() - 3] == filename
            &&& a[a.len() - 2] == "-N"@ && a[a.len() - 1] == passphrase
            &&& bits matches Some(b) ==> passes(a, "-b"@, b)
        }),
{
    let a = keygen_args(key_type, bits, filename, passphrase);
    let m = flag_arg("-b"@, bits);
    assert(a =~= seq!["-t"@, key_type] + m + seq!["-f"@, filename, "-N"@, passphrase]);
    if let Some(b) = bits {
        assert(a[2] == "-b"@ && a[3] == b);
    }
}

} // verus!
