//! Starting a shell inside the terminal: the environment it gets, the launch script
//! that sets it, and the integration files for each shell.
use vstd::prelude::*;
use std::path::PathBuf;
use super::shell_integration::{ShellType, shell_of_path};

verus! {

/// An environment: variable names and values, each name once.
pub type EnvModel = Seq<(Seq<char>, Seq<char>)>;

/// The index of the first variable named `k`.
pub open spec fn key_index(env: EnvModel, k: Seq<char>) -> Option<int>
    decreases env.len(),
{
    if env.len() == 0 {
        None
    } else if env[0].0 == k {
        Some(0)
    } else {
        match key_index(env.drop_first(), k) {
            Some(i) => Some(i + 1),
            None => None,
        }
    }
}

/// `key_index` in terms of the first index holding `k`.
proof fn lemma_key_index(env: EnvModel, k: Seq<char>)
    ensures
        match key_index(env, k) {
            Some(i) => 0 <= i < env.len() && env[i].0 == k && forall|j: int| 0 <= j < i ==> (#[trigger] env[j]).0 != k,
            None => forall|j: int| 0 <= j < env.len() ==> (#[trigger] env[j]).0 != k,
        },
    decreases env.len(),
{
    if env.len() > 0 && env[0].0 != k {
        lemma_key_index(env.drop_first(), k);
        match key_index(env.drop_first(), k) {
            Some(i) => {
                assert forall|j: int| 0 <= j < i + 1 implies (#[trigger] env[j]).0 != k by {
                    if j > 0 {
                        assert(env[j] == env.drop_first()[j - 1]);
                    }
                }
            },
            None => {
                assert forall|j: int| 0 <= j < env.len() implies (#[trigger] env[j]).0 != k by {
                    if j > 0 {
                        assert(env[j] == env.drop_first()[j - 1]);
                    }
                }
            },
        }
    }
}

/// The first index holding `k` determines `key_index`.
proof fn lemma_key_index_unique(env: EnvModel, k: Seq<char>, i: int)
    requires
        0 <= i <= env.len(),
        i < env.len() ==> env[i].0 == k,
        forall|j: int| 0 <= j < i ==> (#[trigger] env[j]).0 != k,
    ensures
        key_index(env, k) == if i < env.len() { Some(i) } else { None::<int> },
{
    lemma_key_index(env, k);
    match key_index(env, k) {
        Some(c) => {
            if c < i {
                assert(env[c].0 != k);
            } else if c > i && i < env.len() {
                assert(env[i].0 == k);
            }
        },
        None => {
            if i < env.len() {
                assert(env[i].0 == k);
            }
        },
    }
}

/// Setting variable `k` to `v`: its value changes in place, or it is appended.
pub open spec fn env_insert(env: EnvModel, k: Seq<char>, v: Seq<char>) -> EnvModel {
    match key_index(env, k) {
        Some(i) => env.update(i, (k, v)),
        None => env.push((k, v)),
    }
}

/// Setting each variable of `vars`, in order.
pub open spec fn env_insert_all(env: EnvModel, vars: EnvModel) -> EnvModel
    decreases vars.len(),
{
    if vars.len() == 0 {
        env
    } else {
        env_insert(env_insert_all(env, vars.drop_last()), vars.last().0, vars.last().1)
    }
}

/// The pairs of a list of string pairs, as text.
pub open spec fn pairs_view(v: Seq<(String, String)>) -> EnvModel {
    Seq::new(v.len(), |i: int| (v[i].0@, v[i].1@))
}

/// Abstract state of a [`ShellBootstrap`] (its path is opaque).
pub struct BootstrapModel {
    pub shell_type: ShellType,
    pub env_vars: EnvModel,
    pub term_program: Seq<char>,
    pub term_features: Seq<Seq<char>>,
}

/// How the terminal starts a shell.
pub struct ShellBootstrap {
    shell_type: ShellType,
    shell_path: PathBuf,
    env_vars: Vec<(String, String)>,
    term_program: String,
    term_features: Vec<String>,
}

impl View for ShellBootstrap {
    type V = BootstrapModel;

    closed spec fn view(&self) -> BootstrapModel {
        BootstrapModel {
            shell_type: self.shell_type,
            env_vars: pairs_view(self.env_vars@),
            term_program: self.term_program@,
            term_features: Seq::new(self.term_features@.len(), |i: int| self.term_features@[i]@),
        }
    }
}

/// The path `PathBuf::from` makes of the text `s`.
pub uninterp spec fn text_path(s: Seq<char>) -> PathBuf;

/// `PathBuf::from`: the path spelled by `s` (see [`text_path`]).
#[verifier::external_body]
fn path_from_text(s: String) -> (p: PathBuf)
    ensures
        p == text_path(s@),
{
    PathBuf::from(s)
}

/// The first terminal feature, which names the `TERM` type (`xterm-256color` when
/// there is none).
pub open spec fn term_name(features: Seq<Seq<char>>) -> Seq<char> {
    if features.len() > 0 {
        features[0]
    } else {
        "xterm-256color"@
    }
}

/// The shell type of a program path: the one its file name denotes (see
/// [`shell_of_path`]), Bash when the name is unknown or cannot be read.
pub open spec fn path_shell_type(p: PathBuf) -> ShellType {
    match shell_of_path(p) {
        Some(t) => t,
        None => ShellType::Bash,
    }
}

impl ShellBootstrap {
    pub closed spec fn path(&self) -> PathBuf {
        self.shell_path
    }

    /// A bootstrap for the shell at `shell_path`, with program name `foxix` and the
    /// features `xterm-256color` and `kitty`.
    pub fn new(shell_path: PathBuf) -> (b: Self)
        ensures
            b@.shell_type == path_shell_type(shell_path),
            b.path() == shell_path,
            b@.env_vars.len() == 0,
            b@.term_program == "foxix"@,
            b@.term_features == seq!["xterm-256color"@, "kitty"@],
    {
        let shell_type = match ShellType::from_path(&shell_path) {
            Some(t) => t,
            None => ShellType::Bash,
        };
        let mut features: Vec<String> = Vec::new();
        features.push("xterm-256color".to_owned());
        features.push("kitty".to_owned());
        let b = ShellBootstrap {
            shell_type,
            shell_path,
            env_vars: Vec::new(),
            term_program: "foxix".to_owned(),
            term_features: features,
        };
        assert(b@.term_features =~= seq!["xterm-256color"@, "kitty"@]);
        assert(b@.env_vars =~= Seq::<(Seq<char>, Seq<char>)>::empty());
        b
    }

    /// A bootstrap for the shell `name`: at `found` (where a search of `PATH` found
    /// it), else at `/bin/<name>`.
    pub fn from_shell_name(name: &str, found: Option<PathBuf>) -> (b: Self)
        ensures
            found matches Some(p) ==> b.path() == p,
            found is None ==> b.path() == text_path("/bin/"@ + name@),
            b@.shell_type == path_shell_type(b.path()),
            b@.env_vars.len() == 0,
            b@.term_program == "foxix"@,
            b@.term_features == seq!["xterm-256color"@, "kitty"@],
    {
        let path = match found {
            Some(p) => p,
            None => {
                let mut s = "/bin/".to_owned();
                s.push_str(name);
                path_from_text(s)
            },
        };
        Self::new(path)
    }

    pub fn shell_type(&self) -> (t: ShellType)
        ensures
            t == self@.shell_type,
    {
        self.shell_type
    }

    pub fn shell_path(&self) -> (p: &PathBuf)
        ensures
            *p == self.path(),
    {
        &self.shell_path
    }

    /// Sets an extra environment variable for the shell.
    pub fn set_env_var(&mut self, key: String, value: String)
        ensures
            final(self)@ == (BootstrapModel {
                env_vars: env_insert(old(self)@.env_vars, key@, value@),
                ..old(self)@
            }),
            final(self).path() == old(self).path(),
    {
        insert_var(&mut self.env_vars, key, value);
    }

    pub fn set_term_program(&mut self, name: String)
        ensures
            final(self)@ == (BootstrapModel { term_program: name@, ..old(self)@ }),
            final(self).path() == old(self).path(),
    {
        self.term_program = name;
    }

    pub fn add_term_feature(&mut self, feature: String)
        ensures
            final(self)@ == (BootstrapModel {
                term_features: old(self)@.term_features.push(feature@),
                ..old(self)@
            }),
            final(self).path() == old(self).path(),
    {
        let ghost f = feature@;
        self.term_features.push(feature);
        assert(self@.term_features =~= old(self)@.term_features.push(f));
    }
}

/// Sets `key` to `value` in `env` (see [`env_insert`]).
fn insert_var(env: &mut Vec<(String, String)>, key: String, value: String)
    ensures
        pairs_view(final(env)@) == env_insert(pairs_view(old(env)@), key@, value@),
{
    let ghost e0 = pairs_view(env@);
    let mut i: usize = 0;
    while i < env.len()
        invariant
            i <= env@.len(),
            env@ == old(env)@,
            e0 == pairs_view(env@),
            forall|j: int| 0 <= j < i ==> (#[trigger] e0[j]).0 != key@,
        decreases env@.len() - i,
    {
        if env[i].0 == key {
            proof {
                lemma_key_index_unique(e0, key@, i as int);
            }
            let ghost kv = key@;
            let ghost vv = value@;
            env.set(i, (key, value));
            assert(pairs_view(env@) =~= e0.update(i as int, (kv, vv)));
            return;
        }
        i = i + 1;
    }
    proof {
        lemma_key_index_unique(e0, key@, i as int);
    }
    let ghost kv = key@;
    let ghost vv = value@;
    env.push((key, value));
    assert(pairs_view(env@) =~= e0.push((kv, vv)));
}

/// Unicode alphabetic or numeric (`char::is_alphanumeric`).
pub uninterp spec fn unicode_alnum(c: char) -> bool;

/// Calls `char::is_alphanumeric`: ASCII letters and digits are, other ASCII
/// characters are not.
#[verifier::external_body]
fn is_alphanumeric(c: char) -> (b: bool)
    ensures
        b == unicode_alnum(c),
        ('a' <= c <= 'z' || 'A' <= c <= 'Z' || '0' <= c <= '9') ==> b,
        (c < '\u{80}' && !('a' <= c <= 'z' || 'A' <= c <= 'Z' || '0' <= c <= '9')) ==> !b,
{
    c.is_alphanumeric()
}

/// A character that needs no quoting in a shell value.
pub open spec fn plain_char(c: char) -> bool {
    unicode_alnum(c) || c == '-' || c == '_' || c == '.' || c == '/'
}

/// `s` with each `"` preceded by a backslash.
pub open spec fn quote_escaped(s: Seq<char>) -> Seq<char>
    decreases s.len(),
{
    if s.len() == 0 {
        s
    } else {
        quote_escaped(s.drop_last()) + if s.last() == '"' { seq!['\\', '"'] } else { seq![s.last()] }
    }
}

/// A value as written in `export NAME=value`: `""` when empty, unchanged when every
/// character is plain, else double-quoted with inner quotes escaped.
pub open spec fn shell_value(s: Seq<char>) -> Seq<char> {
    if s.len() == 0 {
        seq!['"', '"']
    } else if forall|i: int| 0 <= i < s.len() ==> plain_char(#[trigger] s[i]) {
        s
    } else {
        seq!['"'] + quote_escaped(s) + seq!['"']
    }
}

/// Quotes a value for a POSIX shell (see [`shell_value`]).
pub fn escape_shell_value(value: &str) -> (r: String)
    ensures
        r@ == shell_value(value@),
{
    if value.is_empty() {
        let mut r = String::new();
        r.push('"');
        r.push('"');
        assert(r@ =~= seq!['"', '"']);
        return r;
    }
    let mut plain = true;
    for c in it: value.chars()
        invariant
            it.seq() == value@,
            plain == forall|i: int| 0 <= i < it.index() ==> plain_char(#[trigger] value@[i]),
    {
        if !(is_alphanumeric(c) || c == '-' || c == '_' || c == '.' || c == '/') {
            plain = false;
        }
    }
    if plain {
        return value.to_owned();
    }
    let mut r = String::new();
    r.push('"');
    for c in it: value.chars()
        invariant
            it.seq() == value@,
            r@ == seq!['"'] + quote_escaped(value@.take(it.index() as int)),
    {
        proof {
            assert(value@.take(it.index() + 1).drop_last() =~= value@.take(it.index() as int));
        }
        if c == '"' {
            r.push('\\');
            r.push('"');
        } else {
            r.push(c);
        }
        assert(r@ =~= seq!['"'] + quote_escaped(value@.take(it.index() + 1)));
    }
    assert(value@.take(value@.len() as int) =~= value@);
    r.push('"');
    r
}

/// The variables the terminal sets on top of the inherited environment `base`,
/// before the extra variables of the bootstrap.
pub open spec fn terminal_vars(m: BootstrapModel, tpv: Option<Seq<char>>, version: Seq<char>) -> EnvModel {
    let fixed: EnvModel = seq![
        ("TERM"@, term_name(m.term_features)),
        ("TERMINFO"@, "/usr/share/terminfo"@),
        ("COLORTERM"@, "true"@),
        ("TERM_PROGRAM"@, m.term_program),
        ("FOXIX"@, "1"@),
        ("FOXIX_VERSION"@, version),
    ];
    match tpv {
        Some(t) => fixed.push(("FOXIX_TERM_VERSION"@, t)),
        None => fixed,
    }
}

/// The environment of the shell: the inherited one (`base`), then the terminal's
/// variables, then the extra ones, each setting replacing an earlier value.
pub open spec fn built_env(m: BootstrapModel, base: EnvModel, tpv: Option<Seq<char>>, version: Seq<char>) -> EnvModel {
    env_insert_all(env_insert_all(env_insert_all(Seq::empty(), base), terminal_vars(m, tpv, version)), m.env_vars)
}

/// `export NAME=value` lines for each variable, in order.
pub open spec fn export_lines(env: EnvModel) -> Seq<char>
    decreases env.len(),
{
    if env.len() == 0 {
        Seq::empty()
    } else {
        export_lines(env.drop_last()) + "export "@ + env.last().0 + seq!['='] + shell_value(env.last().1) + seq!['\n']
    }
}

/// The launch script: a header, one export per variable, and an empty line.
pub open spec fn launch_script(env: EnvModel) -> Seq<char> {
    "# Foxix Shell Bootstrap\n"@ + "# Generated automatically - do not edit\n\n"@ + export_lines(env) + "\n"@
}

/// Sets every variable of `vars` in `env`, in order.
fn insert_vars(env: &mut Vec<(String, String)>, vars: &Vec<(String, String)>)
    ensures
        pairs_view(final(env)@) == env_insert_all(pairs_view(old(env)@), pairs_view(vars@)),
{
    let mut i: usize = 0;
    let ghost vs = pairs_view(vars@);
    assert(vs.take(0) =~= Seq::<(Seq<char>, Seq<char>)>::empty());
    while i < vars.len()
        invariant
            i <= vars@.len(),
            vs == pairs_view(vars@),
            pairs_view(env@) == env_insert_all(pairs_view(old(env)@), vs.take(i as int)),
        decreases vars@.len() - i,
    {
        let k = vars[i].0.clone();
        let v = vars[i].1.clone();
        insert_var(env, k, v);
        assert(vs.take(i + 1).drop_last() =~= vs.take(i as int));
        i = i + 1;
    }
    assert(vs.take(i as int) =~= vs);
}

/// Sets one variable given as literal name and value.
fn set_var(env: &mut Vec<(String, String)>, key: &str, value: &str)
    ensures
        pairs_view(final(env)@) == env_insert(pairs_view(old(env)@), key@, value@),
{
    insert_var(env, key.to_owned(), value.to_owned());
}

impl ShellBootstrap {
    /// The shell's environment (see [`built_env`]): `base` is the terminal's own
    /// environment, `term_program_version` its `TERM_PROGRAM_VERSION`, and `version`
    /// the terminal's version.
    pub fn build_env(&self, base: &Vec<(String, String)>, term_program_version: Option<String>, version: &str) -> (r: Vec<(String, String)>)
        ensures
            pairs_view(r@) == built_env(self@, pairs_view(base@), match term_program_version {
                Some(t) => Some(t@),
                None => None,
            }, version@),
    {
        let mut env: Vec<(String, String)> = Vec::new();
        assert(pairs_view(env@) =~= Seq::<(Seq<char>, Seq<char>)>::empty());
        insert_vars(&mut env, base);
        let ghost e1 = pairs_view(env@);
        let term: String = if self.term_features.len() > 0 {
            self.term_features[0].clone()
        } else {
            "xterm-256color".to_owned()
        };
        let ghost tv = term@;
        insert_var(&mut env, "TERM".to_owned(), term);
        set_var(&mut env, "TERMINFO", "/usr/share/terminfo");
        set_var(&mut env, "COLORTERM", "true");
        insert_var(&mut env, "TERM_PROGRAM".to_owned(), self.term_program.clone());
        set_var(&mut env, "FOXIX", "1");
        set_var(&mut env, "FOXIX_VERSION", version);
        let ghost tpv = match &term_program_version {
            Some(t) => Some(t@),
            None => None::<Seq<char>>,
        };
        match term_program_version {
            Some(t) => {
                insert_var(&mut env, "FOXIX_TERM_VERSION".to_owned(), t);
            },
            None => {},
        }
        proof {
            let tvars = terminal_vars(self@, tpv, version@);
            assert(tv == term_name(self@.term_features));
            reveal_with_fuel(env_insert_all, 8);
            let fixed: EnvModel = seq![
                ("TERM"@, term_name(self@.term_features)),
                ("TERMINFO"@, "/usr/share/terminfo"@),
                ("COLORTERM"@, "true"@),
                ("TERM_PROGRAM"@, self@.term_program),
                ("FOXIX"@, "1"@),
                ("FOXIX_VERSION"@, version@),
            ];
            assert(fixed.drop_last().drop_last().drop_last().drop_last().drop_last().drop_last() =~= Seq::<(Seq<char>, Seq<char>)>::empty());
            assert(fixed.drop_last().drop_last().drop_last().drop_last().drop_last() =~= seq![fixed[0]]);
            assert(fixed.drop_last().drop_last().drop_last().drop_last() =~= seq![fixed[0], fixed[1]]);
            assert(fixed.drop_last().drop_last().drop_last() =~= seq![fixed[0], fixed[1], fixed[2]]);
            assert(fixed.drop_last().drop_last() =~= seq![fixed[0], fixed[1], fixed[2], fixed[3]]);
            assert(fixed.drop_last() =~= seq![fixed[0], fixed[1], fixed[2], fixed[3], fixed[4]]);
            if tpv is Some {
                assert(tvars.drop_last() =~= fixed);
            }
        }
        insert_vars(&mut env, &self.env_vars);
        env
    }

    /// The script that exports the shell's environment (see [`launch_script`]).
    pub fn generate_launch_script(&self, base: &Vec<(String, String)>, term_program_version: Option<String>, version: &str) -> (s: String)
        ensures
            s@ == launch_script(built_env(self@, pairs_view(base@), match term_program_version {
                Some(t) => Some(t@),
                None => None,
            }, version@)),
    {
        let env = self.build_env(base, term_program_version, version);
        let mut script = String::new();
        script.push_str("# Foxix Shell Bootstrap\n");
        script.push_str("# Generated automatically - do not edit\n\n");
        let ghost head = script@;
        let ghost ev = pairs_view(env@);
        let mut i: usize = 0;
        assert(ev.take(0) =~= Seq::<(Seq<char>, Seq<char>)>::empty());
        assert(script@ =~= head + export_lines(ev.take(0)));
        while i < env.len()
            invariant
                i <= env@.len(),
                ev == pairs_view(env@),
                script@ == head + export_lines(ev.take(i as int)),
            decreases env@.len() - i,
        {
            script.push_str("export ");
            script.push_str(env[i].0.as_str());
            script.push('=');
            let v = escape_shell_value(env[i].1.as_str());
            script.push_str(v.as_str());
            script.push('\n');
            assert(ev.take(i + 1).drop_last() =~= ev.take(i as int));
            assert(script@ =~= head + export_lines(ev.take(i + 1)));
            i = i + 1;
        }
        assert(ev.take(i as int) =~= ev);
        script.push_str("\n");
        script
    }
}

/// The Zsh integration file for TERM type `term`.
pub open spec fn zsh_bootstrap_text(term: Seq<char>) -> Seq<char> {
    "# Foxix shell integration for Zsh\n"@
        + "# Add to ~/.zshrc: source ~/.local/share/foxix/shell-integration/zsh/foxix-integration\n\n"@
        + "# Set terminal variables\n"@
        + "export TERM="@
        + term
        + "\n"@
        + "export COLORTERM=true\n"@
        + "export FOXIX=1\n"@
        + "\n# Enable bracketed paste\n"@
        + "export TERM=xterm-256color\n"@
        + "\n# Foxix terminfo\n"@
        + "export TERMINFO=/usr/share/terminfo\n"@
}

/// The Fish integration file for TERM type `term`.
pub open spec fn fish_conf_text(term: Seq<char>) -> Seq<char> {
    "# Foxix shell integration for Fish\n"@
        + "# Add to ~/.config/fish/config.fish: source ~/.local/share/foxix/shell-integration/fish/foxix-integration.fish\n\n"@
        + "# Set terminal variables\n"@
        + "set -gx TERM "@
        + term
        + "\n"@
        + "set -gx COLORTERM true\n"@
        + "set -gx FOXIX 1\n"@
        + "\n# Enable bracketed paste\n"@
        + "set -gx TERM xterm-256color\n"@
        + "\n# Foxix terminfo\n"@
        + "set -gx TERMINFO /usr/share/terminfo\n"@
}

/// The Bash integration file for TERM type `term`.
pub open spec fn bash_bootstrap_text(term: Seq<char>) -> Seq<char> {
    "# Foxix shell integration for Bash\n"@
        + "# Add to ~/.bashrc: source ~/.local/share/foxix/shell-integration/bash/foxix-integration.bash\n\n"@
        + "# Set terminal variables\n"@
        + "export TERM="@
        + term
        + "\n"@
        + "export COLORTERM=true\n"@
        + "export FOXIX=1\n"@
        + "\n# Enable bracketed paste\n"@
        + "export TERM=xterm-256color\n"@
        + "\n# Foxix terminfo\n"@
        + "export TERMINFO=/usr/share/terminfo\n"@
}

/// The Zsh completion file for the `foxix` command.
pub open spec fn zsh_completion_text() -> Seq<char> {
    "#compdef _foxix foxix\n\n"@
        + "_foxix() {\n"@
        + "    local -a commands\n"@
        + "    commands=(\n"@
        + "        'launch:Launch a new Foxix instance'\n"@
        + "        'remote:Remote control Foxix'\n"@
        + "        'diff:Show diff of two files'\n"@
        + "        'ssh:SSH with Foxix as remote terminal'\n"@
        + "    )\n"@
        + "    _describe 'command' commands\n"@
        + "}\n\n"@
        + "_foxix \"$@\"\n"@
}

/// The TERM type of the integration files: the first feature, else `xterm-256color`.
fn first_feature(features: &Vec<String>) -> (t: String)
    ensures
        t@ == term_name(Seq::new(features@.len(), |i: int| features@[i]@)),
{
    if features.len() > 0 {
        features[0].clone()
    } else {
        "xterm-256color".to_owned()
    }
}

impl ShellBootstrap {
    /// The integration file for this shell kind (see [`zsh_bootstrap_text`]).
    pub fn generate_zsh_bootstrap(&self) -> (s: String)
        ensures
            s@ == zsh_bootstrap_text(term_name(self@.term_features)),
    {
        let term = first_feature(&self.term_features);
        let mut s = String::new();
        s.push_str("# Foxix shell integration for Zsh\n");
        s.push_str("# Add to ~/.zshrc: source ~/.local/share/foxix/shell-integration/zsh/foxix-integration\n\n");
        s.push_str("# Set terminal variables\n");
        s.push_str("export TERM=");
        s.push_str(term.as_str());
        s.push_str("\n");
        s.push_str("export COLORTERM=true\n");
        s.push_str("export FOXIX=1\n");
        s.push_str("\n# Enable bracketed paste\n");
        s.push_str("export TERM=xterm-256color\n");
        s.push_str("\n# Foxix terminfo\n");
        s.push_str("export TERMINFO=/usr/share/terminfo\n");
        assert(s@ =~= zsh_bootstrap_text(term_name(self@.term_features)));
        s
    }

    /// The integration file for this shell kind (see [`fish_conf_text`]).
    pub fn generate_fish_conf(&self) -> (s: String)
        ensures
            s@ == fish_conf_text(term_name(self@.term_features)),
    {
        let term = first_feature(&self.term_features);
        let mut s = String::new();
        s.push_str("# Foxix shell integration for Fish\n");
        s.push_str("# Add to ~/.config/fish/config.fish: source ~/.local/share/foxix/shell-integration/fish/foxix-integration.fish\n\n");
        s.push_str("# Set terminal variables\n");
        s.push_str("set -gx TERM ");
        s.push_str(term.as_str());
        s.push_str("\n");
        s.push_str("set -gx COLORTERM true\n");
        s.push_str("set -gx FOXIX 1\n");
        s.push_str("\n# Enable bracketed paste\n");
        s.push_str("set -gx TERM xterm-256color\n");
        s.push_str("\n# Foxix terminfo\n");
        s.push_str("set -gx TERMINFO /usr/share/terminfo\n");
        assert(s@ =~= fish_conf_text(term_name(self@.term_features)));
        s
    }

    /// The integration file for this shell kind (see [`bash_bootstrap_text`]).
    pub fn generate_bash_bootstrap(&self) -> (s: String)
        ensures
            s@ == bash_bootstrap_text(term_name(self@.term_features)),
    {
        let term = first_feature(&self.term_features);
        let mut s = String::new();
        s.push_str("# Foxix shell integration for Bash\n");
        s.push_str("# Add to ~/.bashrc: source ~/.local/share/foxix/shell-integration/bash/foxix-integration.bash\n\n");
        s.push_str("# Set terminal variables\n");
        s.push_str("export TERM=");
        s.push_str(term.as_str());
        s.push_str("\n");
        s.push_str("export COLORTERM=true\n");
        s.push_str("export FOXIX=1\n");
        s.push_str("\n# Enable bracketed paste\n");
        s.push_str("export TERM=xterm-256color\n");
        s.push_str("\n# Foxix terminfo\n");
        s.push_str("export TERMINFO=/usr/share/terminfo\n");
        assert(s@ =~= bash_bootstrap_text(term_name(self@.term_features)));
        s
    }

    /// The Zsh completion file (see [`zsh_completion_text`]).
    pub fn generate_zsh_completion(&self) -> (s: String)
        ensures
            s@ == zsh_completion_text(),
    {
        let mut s = String::new();
        s.push_str("#compdef _foxix foxix\n\n");
        s.push_str("_foxix() {\n");
        s.push_str("    local -a commands\n");
        s.push_str("    commands=(\n");
        s.push_str("        'launch:Launch a new Foxix instance'\n");
        s.push_str("        'remote:Remote control Foxix'\n");
        s.push_str("        'diff:Show diff of two files'\n");
        s.push_str("        'ssh:SSH with Foxix as remote terminal'\n");
        s.push_str("    )\n");
        s.push_str("    _describe 'command' commands\n");
        s.push_str("}\n\n");
        s.push_str("_foxix \"$@\"\n");
        assert(s@ =~= zsh_completion_text());
        s
    }
}

/// After setting `k`, its first occurrence is where the setting put it.
proof fn lemma_key_index_after_insert(env: EnvModel, k: Seq<char>, v: Seq<char>)
    ensures
        key_index(env_insert(env, k, v), k) == Some(match key_index(env, k) {
            Some(i) => i,
            None => env.len() as int,
        }),
{
    lemma_key_index(env, k);
    let e2 = env_insert(env, k, v);
    match key_index(env, k) {
        Some(i) => {
            assert forall|j: int| 0 <= j < i implies (#[trigger] e2[j]).0 != k by {
                assert(e2[j] == env[j]);
            }
            lemma_key_index_unique(e2, k, i);
        },
        None => {
            let n = env.len() as int;
            assert forall|j: int| 0 <= j < n implies (#[trigger] e2[j]).0 != k by {
                assert(e2[j] == env[j]);
            }
            lemma_key_index_unique(e2, k, n);
        },
    }
}

/// Law: setting a variable twice keeps only the second value, in the place of the
/// first setting.
pub proof fn law_env_last_setting_wins(env: EnvModel, k: Seq<char>, v1: Seq<char>, v2: Seq<char>)
    ensures
        env_insert(env_insert(env, k, v1), k, v2) == env_insert(env, k, v2),
{
    lemma_key_index(env, k);
    lemma_key_index_after_insert(env, k, v1);
    match key_index(env, k) {
        Some(i) => {
            let e1 = env_insert(env, k, v1);
            assert(e1 == env.update(i, (k, v1)));
            assert(key_index(e1, k) == Some(i));
            assert(env_insert(e1, k, v2) == e1.update(i, (k, v2)));
            assert(e1.update(i, (k, v2)) =~= env.update(i, (k, v2)));
        },
        None => {
            let e1 = env_insert(env, k, v1);
            assert(e1 == env.push((k, v1)));
            assert(key_index(e1, k) == Some(env.len() as int));
            assert(env_insert(e1, k, v2) == e1.update(env.len() as int, (k, v2)));
            assert(e1.update(env.len() as int, (k, v2)) =~= env.push((k, v2)));
        },
    }
}
} // verus!
