//! Host entries of `~/.ssh/config`: reading them from the rules the
//! `ssh2_config` parser finds, writing a new `Host` block, and removing or
//! replacing the block of a host.
use ssh2_config::{ParseRule, SshConfig};
use std::io::BufReader;
use vstd::prelude::*;

use crate::text::{
    chars_eq, chars_of, decimal, decimal_chars, has_prefix, join, join_strings, lines,
    is_whitespace, lemma_lines_of_terminated, lemma_lines_single, lemma_trim_drop_last_whitespace,
    single_line, split_lines, starts_with,
    string_views, strip_cr, strip_repeated, terminated, to_string, trim, trimmed, views,
    without_repeated, write_terminated,
};

verus! {

/// How a host authenticates.
#[derive(Debug)]
pub enum AuthMethod {
    Password(String),
    Key(String),
}

/// One host of the SSH configuration.
#[derive(Debug)]
pub struct SSHConfig {
    /// The alias after `Host`.
    pub host: String,
    /// The address connected to (`Hostname`).
    pub hostname: String,
    pub username: Option<String>,
    pub port: Option<u16>,
    pub auth: Option<AuthMethod>,
    pub proxy_jump: Option<String>,
    /// A `LocalForward` tunnel, such as `8080 localhost:80`.
    pub local_forward: Option<String>,
    /// A `RemoteForward` tunnel, such as `9090 localhost:3000`.
    pub remote_forward: Option<String>,
}

impl Clone for AuthMethod {
    fn clone(&self) -> (r: Self)
        ensures
            r == *self,
    {
        match self {
            AuthMethod::Password(p) => AuthMethod::Password(p.clone()),
            AuthMethod::Key(p) => AuthMethod::Key(p.clone()),
        }
    }
}

/// A copy of an optional string.
pub fn clone_opt(o: &Option<String>) -> (r: Option<String>)
    ensures
        r == *o,
{
    match o {
        Some(s) => Some(s.clone()),
        None => None,
    }
}

impl Clone for SSHConfig {
    fn clone(&self) -> (r: Self)
        ensures
            r == *self,
    {
        SSHConfig {
            host: self.host.clone(),
            hostname: self.hostname.clone(),
            username: clone_opt(&self.username),
            port: self.port,
            auth: match &self.auth {
                Some(a) => Some(a.clone()),
                None => None,
            },
            proxy_jump: clone_opt(&self.proxy_jump),
            local_forward: clone_opt(&self.local_forward),
            remote_forward: clone_opt(&self.remote_forward),
        }
    }
}

/// The text of an authentication method.
#[verifier::ext_equal]
pub enum AuthView {
    Password(Seq<char>),
    Key(Seq<char>),
}

/// The text of a host entry.
#[verifier::ext_equal]
pub struct ConfigView {
    pub host: Seq<char>,
    pub hostname: Seq<char>,
    pub username: Option<Seq<char>>,
    pub port: Option<u16>,
    pub auth: Option<AuthView>,
    pub proxy_jump: Option<Seq<char>>,
    pub local_forward: Option<Seq<char>>,
    pub remote_forward: Option<Seq<char>>,
}

/// The text of an optional string.
pub open spec fn opt_view(o: Option<String>) -> Option<Seq<char>> {
    match o {
        Some(s) => Some(s@),
        None => None,
    }
}

impl View for AuthMethod {
    type V = AuthView;

    open spec fn view(&self) -> AuthView {
        match self {
            AuthMethod::Password(p) => AuthView::Password(p@),
            AuthMethod::Key(p) => AuthView::Key(p@),
        }
    }
}

impl View for SSHConfig {
    type V = ConfigView;

    open spec fn view(&self) -> ConfigView {
        ConfigView {
            host: self.host@,
            hostname: self.hostname@,
            username: opt_view(self.username),
            port: self.port,
            auth: match self.auth {
                Some(a) => Some(a@),
                None => None,
            },
            proxy_jump: opt_view(self.proxy_jump),
            local_forward: opt_view(self.local_forward),
            remote_forward: opt_view(self.remote_forward),
        }
    }
}

/// The texts of a sequence of host entries.
pub open spec fn config_views(s: Seq<SSHConfig>) -> Seq<ConfigView> {
    s.map_values(|c: SSHConfig| c@)
}

// ---------------------------------------------------------------------------
// Writing a Host block
// ---------------------------------------------------------------------------

/// `label value\n` when the value is present and not empty, else nothing.
pub open spec fn option_line(label: Seq<char>, value: Option<Seq<char>>) -> Seq<char> {
    match value {
        Some(v) => if v.len() > 0 {
            label + v + "\n"@
        } else {
            Seq::empty()
        },
        None => Seq::empty(),
    }
}

/// The `Port` line: written only for a port other than 22.
pub open spec fn port_line(port: Option<u16>) -> Seq<char> {
    match port {
        Some(p) => if p != 22 {
            "    Port "@ + decimal(p as nat) + "\n"@
        } else {
            Seq::empty()
        },
        None => Seq::empty(),
    }
}

/// The authentication line of a block.
pub open spec fn auth_line(auth: Option<AuthView>) -> Seq<char> {
    match auth {
        Some(AuthView::Password(_)) => "    PasswordAuthentication yes\n"@,
        Some(AuthView::Key(path)) => "    IdentityFile "@ + path + "\n"@,
        None => Seq::empty(),
    }
}

/// The `Host` block written for an entry: a blank line, `Host alias`, then
/// the indented `Hostname`, `User`, `Port`, authentication, `ProxyJump`,
/// `LocalForward` and `RemoteForward` lines, each only when it has a value.
pub open spec fn entry_text(c: ConfigView) -> Seq<char> {
    "\nHost "@ + c.host + "\n"@ + "    Hostname "@ + c.hostname + "\n"@ + option_line(
        "    User "@,
        c.username,
    ) + port_line(c.port) + auth_line(c.auth) + option_line("    ProxyJump "@, c.proxy_jump)
        + option_line("    LocalForward "@, c.local_forward) + option_line(
        "    RemoteForward "@,
        c.remote_forward,
    )
}

fn append_option_line(entry: &mut String, label: &str, value: &Option<String>)
    ensures
        final(entry)@ == old(entry)@ + option_line(label@, opt_view(*value)),
{
    if let Some(v) = value {
        if v.as_str().is_empty() {
            assert(old(entry)@ + option_line(label@, opt_view(*value)) =~= old(entry)@);
        } else {
            entry.append(label);
            entry.append(v.as_str());
            entry.append("\n");
        }
    } else {
        assert(old(entry)@ + option_line(label@, opt_view(*value)) =~= old(entry)@);
    }
}

/// The `Host` block for a new entry, ready to append to the configuration.
pub fn build_entry(host: &SSHConfig) -> (entry: String)
    ensures
        entry@ == entry_text(host@),
{
    let mut entry = String::new();
    entry.append("\nHost ");
    entry.append(host.host.as_str());
    entry.append("\n");
    entry.append("    Hostname ");
    entry.append(host.hostname.as_str());
    entry.append("\n");
    append_option_line(&mut entry, "    User ", &host.username);
    let ghost before_port = entry@;
    if let Some(port) = host.port {
        if port != 22 {
            entry.append("    Port ");
            let digits = to_string(&decimal_chars(port as u64));
            entry.append(digits.as_str());
            entry.append("\n");
        }
    }
    assert(entry@ =~= before_port + port_line(host.port));
    let ghost before_auth = entry@;
    match &host.auth {
        Some(AuthMethod::Password(_)) => {
            entry.append("    PasswordAuthentication yes\n");
        },
        Some(AuthMethod::Key(path)) => {
            entry.append("    IdentityFile ");
            entry.append(path.as_str());
            entry.append("\n");
        },
        None => {},
    }
    assert(entry@ =~= before_auth + auth_line(host@.auth));
    append_option_line(&mut entry, "    ProxyJump ", &host.proxy_jump);
    append_option_line(&mut entry, "    LocalForward ", &host.local_forward);
    append_option_line(&mut entry, "    RemoteForward ", &host.remote_forward);
    assert(entry@ =~= entry_text(host@));
    entry
}

// ---------------------------------------------------------------------------
// Removing a Host block
// ---------------------------------------------------------------------------

/// Whether a line opens a block: it starts with `Host `.
pub open spec fn is_host_line(line: Seq<char>) -> bool {
    starts_with(line, "Host "@)
}

/// The alias a `Host ` line names: the rest of the line after every leading
/// `Host `, trimmed.
pub open spec fn host_line_name(line: Seq<char>) -> Seq<char> {
    trim(strip_repeated(line, "Host "@))
}

/// The lines of `ls` that are kept when the block of `name` is removed;
/// `inside` tells whether the lines before `ls` ended inside that block.  A
/// block runs from its `Host ` line to the next `Host ` line.
pub open spec fn kept_lines(ls: Seq<Seq<char>>, name: Seq<char>, inside: bool) -> Seq<Seq<char>>
    decreases ls.len(),
{
    if ls.len() == 0 {
        Seq::empty()
    } else {
        let l = ls[0];
        let rest = ls.drop_first();
        if is_host_line(l) {
            if host_line_name(l) == name {
                kept_lines(rest, name, true)
            } else {
                seq![l] + kept_lines(rest, name, false)
            }
        } else if inside {
            kept_lines(rest, name, true)
        } else {
            seq![l] + kept_lines(rest, name, false)
        }
    }
}

/// A configuration text without the block of `name`: the kept lines, each
/// followed by `\n`.
pub open spec fn without_host_block(content: Seq<char>, name: Seq<char>) -> Seq<char> {
    terminated(kept_lines(lines(content), name, false))
}

/// Removes the block whose `Host ` line names `host_name` (every block that
/// does, if there are several): its `Host ` line and every line up to the
/// next `Host ` line.  All other lines are kept in order, each followed by
/// `\n`.
pub fn delete_host(content: &str, host_name: &str) -> (out: String)
    ensures
        out@ == without_host_block(content@, host_name@),
{
    let text = chars_of(content);
    let name = chars_of(host_name);
    let prefix = chars_of("Host ");
    let ls = split_lines(&text);
    let ghost all = views(ls@);
    let mut kept: Vec<Vec<char>> = Vec::new();
    let mut inside = false;
    let mut i: usize = 0;
    assert(all.skip(0) =~= all);
    assert(views(kept@) + kept_lines(all, name@, false) =~= kept_lines(all, name@, false));
    while i < ls.len()
        invariant
            0 <= i <= ls.len(),
            all == views(ls@),
            all == lines(content@),
            prefix@ == "Host "@,
            views(kept@) + kept_lines(all.skip(i as int), name@, inside) == kept_lines(
                all,
                name@,
                false,
            ),
        decreases ls.len() - i,
    {
        assert(all.skip(i as int).drop_first() =~= all.skip(i + 1));
        assert(all.skip(i as int)[0] == ls@[i as int]@);
        let line = &ls[i];
        let ghost before = views(kept@);
        if has_prefix(line, &prefix) {
            let stripped = without_repeated(line, &prefix);
            let found = trimmed(&stripped);
            if chars_eq(&found, &name) {
                inside = true;
            } else {
                inside = false;
                kept.push(line.clone());
                assert(views(kept@) =~= before.push(ls@[i as int]@));
                assert(before + kept_lines(all.skip(i as int), name@, !inside) =~= views(kept@)
                    + kept_lines(all.skip(i + 1), name@, false));
            }
        } else if !inside {
            kept.push(line.clone());
            assert(views(kept@) =~= before.push(ls@[i as int]@));
            assert(before + kept_lines(all.skip(i as int), name@, false) =~= views(kept@)
                + kept_lines(all.skip(i + 1), name@, false));
        }
        i += 1;
    }
    assert(kept_lines(all.skip(i as int), name@, inside) =~= Seq::<Seq<char>>::empty());
    assert(views(kept@) =~= kept_lines(all, name@, false));
    to_string(&write_terminated(&kept))
}

/// The configuration text after replacing the block of `old_host_name` by
/// the block of `new_config`: the text without the old block, followed by
/// the new block.
pub fn update_host(content: &str, old_host_name: &str, new_config: &SSHConfig) -> (out: String)
    ensures
        out@ == without_host_block(content@, old_host_name@) + entry_text(new_config@),
{
    let mut out = delete_host(content, old_host_name);
    let entry = build_entry(new_config);
    out.append(entry.as_str());
    out
}

// ---------------------------------------------------------------------------
// Reading host entries
// ---------------------------------------------------------------------------

/// One pattern of a `Host` line; `negated` for a `!pattern`.
#[derive(Debug)]
pub struct HostPattern {
    pub pattern: String,
    pub negated: bool,
}

/// A host rule as the configuration parser reports it: the patterns of its
/// `Host` line and the parameters the entries are built from.
#[derive(Debug)]
pub struct HostBlock {
    pub patterns: Vec<HostPattern>,
    pub host_name: Option<String>,
    pub user: Option<String>,
    pub port: Option<u16>,
    pub identity_files: Option<Vec<String>>,
    pub proxy_jump: Option<Vec<String>>,
}

/// The patterns of `ps` that are not negated, in order.
pub open spec fn positive_patterns(ps: Seq<HostPattern>) -> Seq<Seq<char>>
    decreases ps.len(),
{
    if ps.len() == 0 {
        Seq::empty()
    } else {
        let r = positive_patterns(ps.drop_last());
        if ps.last().negated {
            r
        } else {
            r.push(ps.last().pattern@)
        }
    }
}

/// The alias of a rule: its non-negated patterns joined by spaces.
pub open spec fn block_alias(b: HostBlock) -> Seq<char> {
    join(positive_patterns(b.patterns@), " "@)
}

/// Whether a rule becomes an entry: its alias is neither empty nor `*`.
pub open spec fn is_listed_block(b: HostBlock) -> bool {
    let h = block_alias(b);
    h.len() > 0 && h != "*"@
}

/// The entry a rule becomes: `Hostname` defaults to the alias, the user to
/// the empty text, the port to 22; a rule with an identity file
/// authenticates with the first one and any other rule with a password; the
/// `ProxyJump` hosts are joined by commas.
pub open spec fn block_entry(b: HostBlock) -> ConfigView {
    let host = block_alias(b);
    ConfigView {
        host: host,
        hostname: match b.host_name {
            Some(h) => h@,
            None => host,
        },
        username: Some(
            match b.user {
                Some(u) => u@,
                None => Seq::empty(),
            },
        ),
        port: Some(
            match b.port {
                Some(p) => p,
                None => 22,
            },
        ),
        auth: Some(
            match b.identity_files {
                Some(v) => if v@.len() > 0 {
                    AuthView::Key(v@[0]@)
                } else {
                    AuthView::Password(Seq::empty())
                },
                None => AuthView::Password(Seq::empty()),
            },
        ),
        proxy_jump: match b.proxy_jump {
            Some(v) => Some(join(string_views(v@), ","@)),
            None => None,
        },
        local_forward: None,
        remote_forward: None,
    }
}

/// The entries of a list of rules, in order, skipping the rules that are not
/// listed.
pub open spec fn entries_of(bs: Seq<HostBlock>) -> Seq<ConfigView>
    decreases bs.len(),
{
    if bs.len() == 0 {
        Seq::empty()
    } else {
        let r = entries_of(bs.drop_last());
        if is_listed_block(bs.last()) {
            r.push(block_entry(bs.last()))
        } else {
            r
        }
    }
}

fn alias_of(b: &HostBlock) -> (alias: String)
    ensures
        alias@ == block_alias(*b),
{
    let mut names: Vec<String> = Vec::new();
    let mut i: usize = 0;
    while i < b.patterns.len()
        invariant
            0 <= i <= b.patterns.len(),
            string_views(names@) == positive_patterns(b.patterns@.take(i as int)),
        decreases b.patterns.len() - i,
    {
        assert(b.patterns@.take(i + 1).drop_last() =~= b.patterns@.take(i as int));
        let ghost before = string_views(names@);
        let p = &b.patterns[i];
        if !p.negated {
            names.push(p.pattern.clone());
            assert(string_views(names@) =~= before.push(p.pattern@));
        }
        i += 1;
    }
    assert(b.patterns@.take(i as int) =~= b.patterns@);
    join_strings(&names, " ")
}

fn entry_of(b: &HostBlock, host: String) -> (c: SSHConfig)
    requires
        host@ == block_alias(*b),
    ensures
        c@ == block_entry(*b),
{
    let hostname = match &b.host_name {
        Some(h) => h.clone(),
        None => host.clone(),
    };
    let username = match &b.user {
        Some(u) => u.clone(),
        None => String::new(),
    };
    let port = match b.port {
        Some(p) => p,
        None => 22,
    };
    let auth = match &b.identity_files {
        Some(files) => if files.len() > 0 {
            AuthMethod::Key(files[0].clone())
        } else {
            AuthMethod::Password(String::new())
        },
        None => AuthMethod::Password(String::new()),
    };
    let proxy_jump = match &b.proxy_jump {
        Some(v) => Some(join_strings(v, ",")),
        None => None,
    };
    let c = SSHConfig {
        host,
        hostname,
        username: Some(username),
        port: Some(port),
        auth: Some(auth),
        proxy_jump,
        local_forward: None,
        remote_forward: None,
    };
    assert(c@ =~= block_entry(*b));
    c
}

/// The host entries of a list of rules: every rule whose alias (its
/// non-negated patterns joined by spaces) is neither empty nor `*` becomes
/// an entry, in order.
pub fn entries_from_hosts(blocks: &Vec<HostBlock>) -> (entries: Vec<SSHConfig>)
    ensures
        config_views(entries@) == entries_of(blocks@),
{
    let star = chars_of("*");
    let mut entries: Vec<SSHConfig> = Vec::new();
    let mut i: usize = 0;
    while i < blocks.len()
        invariant
            0 <= i <= blocks.len(),
            star@ == "*"@,
            config_views(entries@) == entries_of(blocks@.take(i as int)),
        decreases blocks.len() - i,
    {
        assert(blocks@.take(i + 1).drop_last() =~= blocks@.take(i as int));
        let b = &blocks[i];
        let alias = alias_of(b);
        let alias_chars = chars_of(alias.as_str());
        if alias_chars.len() > 0 && !chars_eq(&alias_chars, &star) {
            let ghost before = config_views(entries@);
            let e = entry_of(b, alias);
            entries.push(e);
            assert(config_views(entries@) =~= before.push(block_entry(blocks@[i as int])));
        }
        i += 1;
    }
    assert(blocks@.take(i as int) =~= blocks@);
    entries
}

#[verifier::external_type_specification]
#[verifier::external_body]
pub struct ExSshParserError(ssh2_config::SshParserError);

/// Whether `s` spells `include`, in any mix of ASCII case, from index `k`.
pub open spec fn spells_include_at(s: Seq<char>, k: int) -> bool {
    &&& 0 <= k
    &&& k + 7 <= s.len()
    &&& (s[k] == 'i' || s[k] == 'I')
    &&& (s[k + 1] == 'n' || s[k + 1] == 'N')
    &&& (s[k + 2] == 'c' || s[k + 2] == 'C')
    &&& (s[k + 3] == 'l' || s[k + 3] == 'L')
    &&& (s[k + 4] == 'u' || s[k + 4] == 'U')
    &&& (s[k + 5] == 'd' || s[k + 5] == 'D')
    &&& (s[k + 6] == 'e' || s[k + 6] == 'E')
}

/// Whether a configuration text may hold an `Include` directive: the word
/// `include` occurs in it in some ASCII case.  The parser recognises a
/// keyword whose Unicode lower case is `include`, and only ASCII letters
/// have those lower cases, so a text without the word never makes the
/// parser read another file.
pub open spec fn has_include(s: Seq<char>) -> bool {
    exists|k: int| #[trigger] spells_include_at(s, k)
}

/// The host rules that `ssh2_config` (strict rules) finds in a
/// configuration text that includes no other file, with `~` expanded with
/// the home directory `home`; `None` when it rejects the text.
pub uninterp spec fn host_rules(text: Seq<char>, home: Seq<char>) -> Option<Seq<HostBlock>>;

/// The rules of a parse, or `None` for a parse error.
pub open spec fn parsed_rules(parsed: Result<Vec<HostBlock>, ssh2_config::SshParserError>) -> Option<
    Seq<HostBlock>,
> {
    match parsed {
        Ok(rules) => Some(rules@),
        Err(_) => None,
    }
}

/// Runs `ssh2_config`'s `SshConfig::parse` with `ParseRule::STRICT` on the
/// text, with the home directory set to `home` (`SshConfig::home_dir`), and
/// reports every host rule it found, in order (the first is the implicit
/// `*` rule), with the fields the entries are built from; identity file
/// paths are converted lossily to text.  The parser reads nothing of the
/// machine but the files that `Include` directives name, so for a text
/// without one the result is a function of the text and the home
/// directory, named `host_rules`.  The parser starts from the implicit rule
/// `Host *` and skips every line that is empty once trimmed, so a text of
/// white space alone parses to that rule only.  Of a text that includes
/// other files nothing is stated.
#[verifier::external_body]
fn parse_host_rules(text: &str, home: &str) -> (parsed: Result<Vec<HostBlock>, ssh2_config::SshParserError>)
    ensures
        !has_include(text@) ==> parsed_rules(parsed) == host_rules(text@, home@),
        all_whitespace(text@) ==> star_only_parse(parsed),
{
    let mut reader = BufReader::new(text.as_bytes());
    let config = SshConfig::default().home_dir(home).parse(&mut reader, ParseRule::STRICT)?;
    Ok(config.get_hosts().iter().map(|h| HostBlock {
        patterns: h.pattern.iter().map(|p| HostPattern { pattern: p.pattern.clone(), negated: p.negated }).collect(),
        host_name: h.params.host_name.clone(),
        user: h.params.user.clone(),
        port: h.params.port,
        identity_files: h.params.identity_file.as_ref().map(|v| v.iter().map(|p| p.to_string_lossy().to_string()).collect()),
        proxy_jump: h.params.proxy_jump.clone(),
    }).collect())
}

/// Whether every character of a text is white space.
pub open spec fn all_whitespace(text: Seq<char>) -> bool {
    forall|i: int| 0 <= i < text.len() ==> is_whitespace(#[trigger] text[i])
}

/// Whether the rules are the implicit rule `Host *` alone.
pub open spec fn is_star_only(rules: Seq<HostBlock>) -> bool {
    &&& rules.len() == 1
    &&& rules[0].patterns@.len() == 1
    &&& rules[0].patterns@[0].pattern@ == "*"@
    &&& !rules[0].patterns@[0].negated
}

/// Whether a parse succeeded with the implicit rule `Host *` alone.
pub open spec fn star_only_parse(parsed: Result<Vec<HostBlock>, ssh2_config::SshParserError>) -> bool {
    match parsed {
        Ok(rules) => is_star_only(rules@),
        Err(_) => false,
    }
}

/// The rule `Host *` alone gives no entry.
proof fn lemma_star_only_no_entries(rules: Seq<HostBlock>)
    requires
        is_star_only(rules),
    ensures
        entries_of(rules).len() == 0,
{
    let ps = rules[0].patterns@;
    assert(ps.drop_last() =~= Seq::<HostPattern>::empty());
    assert(positive_patterns(ps.drop_last()) == Seq::<Seq<char>>::empty());
    assert(ps.last() == ps[0]);
    assert(positive_patterns(ps) =~= seq![ps[0].pattern@]);
    assert(block_alias(rules[0]) == ps[0].pattern@);
    assert(rules.last() == rules[0]);
    assert(!is_listed_block(rules.last()));
    assert(rules.drop_last() =~= Seq::<HostBlock>::empty());
    assert(entries_of(rules.drop_last()) == Seq::<ConfigView>::empty());
}

/// The message of an `ssh2_config` parse error (its `Display` text).
#[verifier::external_body]
fn parse_error_message(e: &ssh2_config::SshParserError) -> String {
    e.to_string()
}

/// The host entries of a configuration text, with `~` standing for the
/// home directory `home`: the text is parsed by `ssh2_config` (strict
/// rules) and every rule whose alias is neither empty nor `*` becomes an
/// entry, as `entries_from_hosts` states.  A parse error is returned with
/// its message.
pub fn get_ssh_entries(text: &str, home: &str) -> (res: Result<Vec<SSHConfig>, String>)
    ensures
        res matches Ok(entries) ==> exists|rules: Seq<HostBlock>|
            config_views(entries@) == entries_of(rules),
        !has_include(text@) ==> match host_rules(text@, home@) {
            Some(rules) => (res matches Ok(entries) && config_views(entries@) == entries_of(rules)),
            None => res is Err,
        },
        all_whitespace(text@) ==> (res matches Ok(entries) && entries@.len() == 0),
{
    match parse_host_rules(text, home) {
        Ok(rules) => {
            let entries = entries_from_hosts(&rules);
            proof {
                if is_star_only(rules@) {
                    lemma_star_only_no_entries(rules@);
                }
            }
            Ok(entries)
        },
        Err(e) => Err(parse_error_message(&e)),
    }
}

// ---------------------------------------------------------------------------
// Laws of block removal
// ---------------------------------------------------------------------------

/// Every line kept when removing the block of `name` is either not a
/// `Host ` line or a `Host ` line naming another alias.
proof fn lemma_kept_lines_avoid(ls: Seq<Seq<char>>, name: Seq<char>, inside: bool)
    ensures
        forall|i: int|
            0 <= i < kept_lines(ls, name, inside).len() ==> ({
                let l = #[trigger] kept_lines(ls, name, inside)[i];
                &&& is_host_line(l) ==> host_line_name(l) != name
                &&& ls.contains(l)
            }),
    decreases ls.len(),
{
    if ls.len() > 0 {
        let l = ls[0];
        let rest = ls.drop_first();
        lemma_kept_lines_avoid(rest, name, true);
        lemma_kept_lines_avoid(rest, name, false);
        let kept = kept_lines(ls, name, inside);
        assert forall|i: int| 0 <= i < kept.len() implies {
            let k = #[trigger] kept[i];
            &&& is_host_line(k) ==> host_line_name(k) != name
            &&& ls.contains(k)
        } by {
            let drop_l = is_host_line(l) && host_line_name(l) == name || !is_host_line(l)
                && inside;
            let next_inside = if is_host_line(l) {
                host_line_name(l) == name
            } else {
                inside
            };
            let tail = kept_lines(rest, name, next_inside);
            if drop_l {
                assert(kept == tail);
                let j = choose|j: int| 0 <= j < rest.len() && rest[j] == kept[i];
                assert(ls[j + 1] == kept[i]);
            } else if i == 0 {
                assert(kept[0] == l);
                assert(ls[0] == l);
            } else {
                assert(kept[i] == tail[i - 1]);
                let j = choose|j: int| 0 <= j < rest.len() && rest[j] == kept[i];
                assert(ls[j + 1] == kept[i]);
            }
        }
    }
}

/// Stripping leading copies of a pattern that does not end in `\r` commutes
/// with dropping a final `\r`.
proof fn lemma_strip_repeated_drop_cr(s: Seq<char>, p: Seq<char>)
    requires
        s.len() > 0,
        s.last() == '\r',
        p.len() > 0,
        p.last() != '\r',
    ensures
        strip_repeated(s.drop_last(), p) == strip_repeated(s, p).drop_last(),
        strip_repeated(s, p).len() > 0,
        strip_repeated(s, p).last() == '\r',
    decreases s.len(),
{
    if starts_with(s.drop_last(), p) {
        assert(s.take(p.len() as int) =~= s.drop_last().take(p.len() as int));
        assert(starts_with(s, p));
        assert(s.drop_last().skip(p.len() as int) =~= s.skip(p.len() as int).drop_last());
        lemma_strip_repeated_drop_cr(s.skip(p.len() as int), p);
    } else {
        if starts_with(s, p) {
            if p.len() == s.len() {
                assert(s.take(p.len() as int) =~= s);
                assert(p.last() == s.last());
            } else {
                assert(s.drop_last().take(p.len() as int) =~= s.take(p.len() as int));
            }
        }
        assert(!starts_with(s, p));
    }
}

/// Reading back a text from which the block of `name` was removed finds no
/// `Host ` line naming `name`.
pub proof fn lemma_deleted_host_absent(content: Seq<char>, name: Seq<char>)
    ensures
        forall|i: int|
            0 <= i < lines(without_host_block(content, name)).len() ==> ({
                let l = #[trigger] lines(without_host_block(content, name))[i];
                is_host_line(l) ==> host_line_name(l) != name
            }),
{
    reveal_strlit("Host ");
    let ls = lines(content);
    let kept = kept_lines(ls, name, false);
    lemma_kept_lines_avoid(ls, name, false);
    assert(single_line(Seq::<char>::empty()));
    lemma_lines_single(Seq::empty(), content);
    assert forall|i: int| 0 <= i < kept.len() implies single_line(#[trigger] kept[i]) by {
        let j = choose|j: int| 0 <= j < ls.len() && ls[j] == kept[i];
    }
    lemma_lines_of_terminated(kept);
    let out = lines(without_host_block(content, name));
    assert forall|i: int| 0 <= i < out.len() implies {
        let l = #[trigger] out[i];
        is_host_line(l) ==> host_line_name(l) != name
    } by {
        let k = kept[i];
        assert(out[i] == strip_cr(k));
        if k.len() > 0 && k.last() == '\r' && is_host_line(out[i]) {
            let p = "Host "@;
            assert(p.last() == ' ');
            assert(k.take(p.len() as int) =~= k.drop_last().take(p.len() as int));
            assert(is_host_line(k));
            lemma_strip_repeated_drop_cr(k, p);
            lemma_trim_drop_last_whitespace(strip_repeated(k, p));
        }
    }
}

/// Every `Host ` line of `ls` naming another alias than `name` is kept.
proof fn lemma_kept_lines_keep_others(ls: Seq<Seq<char>>, name: Seq<char>, inside: bool)
    ensures
        forall|i: int|
            0 <= i < ls.len() && is_host_line(#[trigger] ls[i]) && host_line_name(ls[i]) != name
                ==> kept_lines(ls, name, inside).contains(ls[i]),
    decreases ls.len(),
{
    if ls.len() > 0 {
        let l = ls[0];
        let rest = ls.drop_first();
        lemma_kept_lines_keep_others(rest, name, true);
        lemma_kept_lines_keep_others(rest, name, false);
        let kept = kept_lines(ls, name, inside);
        assert forall|i: int|
            0 <= i < ls.len() && is_host_line(#[trigger] ls[i]) && host_line_name(ls[i])
                != name implies kept.contains(ls[i]) by {
            if i == 0 {
                assert(kept[0] == l);
            } else {
                assert(ls[i] == rest[i - 1]);
                let next_inside = if is_host_line(l) {
                    host_line_name(l) == name
                } else {
                    inside
                };
                let tail = kept_lines(rest, name, next_inside);
                assert(tail.contains(rest[i - 1]));
                let j = choose|j: int| 0 <= j < tail.len() && tail[j] == rest[i - 1];
                if kept == tail {
                } else {
                    assert(kept =~= seq![l] + tail);
                    assert(kept[j + 1] == tail[j]);
                }
            }
        }
    }
}

/// Removing the block of `name` keeps the blocks of the other hosts: every
/// `Host ` line naming another alias is read back (without a `\r` before
/// its line ending).
pub proof fn lemma_other_hosts_kept(content: Seq<char>, name: Seq<char>)
    ensures
        forall|i: int|
            0 <= i < lines(content).len() && is_host_line(#[trigger] lines(content)[i])
                && host_line_name(lines(content)[i]) != name ==> lines(
                without_host_block(content, name),
            ).contains(strip_cr(lines(content)[i])),
{
    let ls = lines(content);
    let kept = kept_lines(ls, name, false);
    lemma_kept_lines_keep_others(ls, name, false);
    lemma_kept_lines_avoid(ls, name, false);
    assert(single_line(Seq::<char>::empty()));
    lemma_lines_single(Seq::empty(), content);
    assert forall|i: int| 0 <= i < kept.len() implies single_line(#[trigger] kept[i]) by {
        let j = choose|j: int| 0 <= j < ls.len() && ls[j] == kept[i];
    }
    lemma_lines_of_terminated(kept);
    let out = lines(without_host_block(content, name));
    assert forall|i: int|
        0 <= i < ls.len() && is_host_line(#[trigger] ls[i]) && host_line_name(ls[i])
            != name implies out.contains(strip_cr(ls[i])) by {
        let j = choose|j: int| 0 <= j < kept.len() && kept[j] == ls[i];
        assert(out[j] == strip_cr(kept[j]));
    }
}

/// Deleting the block of `n` leaves no line that starts with `Host ` and
/// names exactly `n` after the leading `Host ` (repeated, as
/// `trim_start_matches` strips it) and trimming; every `Host ` line of the
/// text that names another alias is read back (without a `\r` before its
/// line ending).
pub proof fn lemma_delete_host_by_name(content: Seq<char>, n: Seq<char>)
    ensures
        forall|i: int|
            0 <= i < lines(without_host_block(content, n)).len() ==> ({
                let l = #[trigger] lines(without_host_block(content, n))[i];
                starts_with(l, "Host "@) ==> trim(strip_repeated(l, "Host "@)) != n
            }),
        forall|i: int|
            0 <= i < lines(content).len() && starts_with(#[trigger] lines(content)[i], "Host "@)
                && trim(strip_repeated(lines(content)[i], "Host "@)) != n ==> lines(
                without_host_block(content, n),
            ).contains(strip_cr(lines(content)[i])),
{
    lemma_deleted_host_absent(content, n);
    lemma_other_hosts_kept(content, n);
    let out = lines(without_host_block(content, n));
    assert forall|i: int| 0 <= i < out.len() implies ({
        let l = #[trigger] out[i];
        starts_with(l, "Host "@) ==> trim(strip_repeated(l, "Host "@)) != n
    }) by {
        assert(is_host_line(out[i]) ==> host_line_name(out[i]) != n);
    }
    assert forall|i: int|
        0 <= i < lines(content).len() && starts_with(#[trigger] lines(content)[i], "Host "@)
            && trim(strip_repeated(lines(content)[i], "Host "@)) != n implies out.contains(
        strip_cr(lines(content)[i]),
    ) by {
        assert(is_host_line(lines(content)[i]) && host_line_name(lines(content)[i]) != n);
    }
}

} // verus!
