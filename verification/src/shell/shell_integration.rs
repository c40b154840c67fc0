//! Shell kinds, their files, and the environment script the terminal gives them.
use vstd::prelude::*;
use vstd::utf8::is_ascii_chars;
use std::path::PathBuf;

verus! {

#[verifier::external_type_specification]
#[verifier::external_body]
pub struct ExPathBuf(PathBuf);

#[derive(Debug, Clone, Copy, PartialEq, Eq, Structural)]
pub enum ShellType {
    Bash,
    Zsh,
    Fish,
    Dash,
    Sh,
}

/// The lowercase form of `s` per Unicode (`str::to_lowercase`).
pub uninterp spec fn unicode_lowercase(s: Seq<char>) -> Seq<char>;

/// `s` with the ASCII capitals turned into small letters.
pub open spec fn ascii_lowercase(s: Seq<char>) -> Seq<char> {
    s.map_values(|c: char| if 'A' <= c <= 'Z' { ((c as u32) + 32) as char } else { c })
}

/// Calls `str::to_lowercase`; for ASCII text that is the ASCII lowercase.
#[verifier::external_body]
pub(crate) fn to_lowercase(s: &str) -> (r: String)
    ensures
        r@ == unicode_lowercase(s@),
        is_ascii_chars(s@) ==> r@ == ascii_lowercase(s@),
{
    s.to_lowercase()
}

/// What `Path::file_name` then `OsStr::to_str` give for `path`: the text of its
/// final component, `None` when it has none (it ends in `..`, or is a root or
/// empty) or that component is not UTF-8.
pub uninterp spec fn path_file_name(path: PathBuf) -> Option<Seq<char>>;

/// The file name of `path` as text (`Path::file_name` then `OsStr::to_str`; see
/// [`path_file_name`]).
#[verifier::external_body]
fn file_name_text(path: &PathBuf) -> (r: Option<String>)
    ensures
        match r {
            Some(s) => path_file_name(*path) == Some(s@),
            None => path_file_name(*path) is None,
        },
{
    path.file_name().and_then(|n| n.to_str()).map(|s| s.to_owned())
}

/// The shell a (lowercase) program name denotes.
pub open spec fn shell_named(n: Seq<char>) -> Option<ShellType> {
    if n == "bash"@ {
        Some(ShellType::Bash)
    } else if n == "zsh"@ {
        Some(ShellType::Zsh)
    } else if n == "fish"@ || n == "fishshell"@ {
        Some(ShellType::Fish)
    } else if n == "dash"@ {
        Some(ShellType::Dash)
    } else if n == "sh"@ || n == "ash"@ {
        Some(ShellType::Sh)
    } else {
        None
    }
}

/// The shell a program path denotes: its file name lowercased (twice, as
/// `from_path` then `from_str` do) and matched by [`shell_named`].
pub open spec fn shell_of_path(path: PathBuf) -> Option<ShellType> {
    match path_file_name(path) {
        Some(n) => shell_named(unicode_lowercase(unicode_lowercase(n))),
        None => None,
    }
}

/// `a` and `b` hold the same text.
pub fn same_text(a: &str, b: &str) -> (r: bool)
    ensures
        r == (a@ == b@),
{
    a.to_owned() == b.to_owned()
}

/// The shell named by an already lowercase name.
pub fn shell_from_lowercase(n: &str) -> (r: Option<ShellType>)
    ensures
        r == shell_named(n@),
{
    if same_text(n, "bash") {
        Some(ShellType::Bash)
    } else if same_text(n, "zsh") {
        Some(ShellType::Zsh)
    } else if same_text(n, "fish") || same_text(n, "fishshell") {
        Some(ShellType::Fish)
    } else if same_text(n, "dash") {
        Some(ShellType::Dash)
    } else if same_text(n, "sh") || same_text(n, "ash") {
        Some(ShellType::Sh)
    } else {
        None
    }
}

impl ShellType {
    /// The shell a name denotes, ignoring case.
    pub fn from_str(s: &str) -> (r: Option<Self>)
        ensures
            r == shell_named(unicode_lowercase(s@)),
    {
        let lower = to_lowercase(s);
        shell_from_lowercase(lower.as_str())
    }

    /// The shell a program's file name denotes, ignoring case (the name is
    /// lowercased, then matched as [`ShellType::from_str`] does); `None` for a
    /// path without a text file name.
    pub fn from_file_name(name: Option<&str>) -> (r: Option<Self>)
        ensures
            r == match name {
                Some(n) => shell_named(unicode_lowercase(unicode_lowercase(n@))),
                None => None,
            },
    {
        match name {
            Some(n) => {
                let lower = to_lowercase(n);
                Self::from_str(lower.as_str())
            },
            None => None,
        }
    }

    /// The shell a program path denotes by its file name, ignoring case (see
    /// [`shell_of_path`]).
    pub fn from_path(path: &PathBuf) -> (r: Option<Self>)
        ensures
            r == shell_of_path(*path),
    {
        let name = file_name_text(path);
        match name {
            Some(n) => Self::from_file_name(Some(n.as_str())),
            None => Self::from_file_name(None),
        }
    }

    pub fn name(&self) -> (r: &'static str)
        ensures
            r@ == (match *self {
                ShellType::Bash => "bash"@,
                ShellType::Zsh => "zsh"@,
                ShellType::Fish => "fish"@,
                ShellType::Dash => "dash"@,
                ShellType::Sh => "sh"@,
            }),
    {
        match self {
            ShellType::Bash => "bash",
            ShellType::Zsh => "zsh",
            ShellType::Fish => "fish",
            ShellType::Dash => "dash",
            ShellType::Sh => "sh",
        }
    }

    /// The shell's startup file.
    pub fn config_file(&self) -> (r: &'static str)
        ensures
            r@ == (match *self {
                ShellType::Bash => ".bashrc"@,
                ShellType::Zsh => ".zshrc"@,
                ShellType::Fish => "config.fish"@,
                ShellType::Dash => ".dashrc"@,
                ShellType::Sh => ".shrc"@,
            }),
    {
        match self {
            ShellType::Bash => ".bashrc",
            ShellType::Zsh => ".zshrc",
            ShellType::Fish => "config.fish",
            ShellType::Dash => ".dashrc",
            ShellType::Sh => ".shrc",
        }
    }

    /// Where the shell's completions are installed (empty when unknown).
    pub fn completion_dir(&self) -> (r: &'static str)
        ensures
            r@ == (match *self {
                ShellType::Bash => "/usr/share/bash-completion/completions"@,
                ShellType::Zsh => "/usr/share/zsh/site-functions"@,
                ShellType::Fish => "/usr/share/fish/completions"@,
                _ => ""@,
            }),
    {
        match self {
            ShellType::Bash => "/usr/share/bash-completion/completions",
            ShellType::Zsh => "/usr/share/zsh/site-functions",
            ShellType::Fish => "/usr/share/fish/completions",
            _ => "",
        }
    }
}

impl Default for ShellType {
    fn default() -> (r: Self)
        ensures
            r == ShellType::Bash,
    {
        ShellType::Bash
    }
}

/// The init script for Zsh.
pub open spec fn zsh_init() -> Seq<char> {
    "# Foxix Zsh Integration\nexport FOXIX=1\nexport TERM=xterm-256color\nexport COLORTERM=true\n"@
}

/// The init script for Fish.
pub open spec fn fish_init() -> Seq<char> {
    "# Foxix Fish Integration\nset -gx FOXIX 1\nset -gx TERM xterm-256color\nset -gx COLORTERM true\n"@
}

/// The init script for Bash.
pub open spec fn bash_init() -> Seq<char> {
    "# Foxix Bash Integration\nexport FOXIX=1\nexport TERM=xterm-256color\nexport COLORTERM=true\n"@
}

/// Shell integration for one shell kind.
pub struct ShellIntegration {
    shell_type: ShellType,
}

impl ShellIntegration {
    pub fn new(shell_type: ShellType) -> (s: Self)
        ensures
            s.kind() == shell_type,
    {
        ShellIntegration { shell_type }
    }

    pub closed spec fn kind(&self) -> ShellType {
        self.shell_type
    }

    pub fn shell_type(&self) -> (t: ShellType)
        ensures
            t == self.kind(),
    {
        self.shell_type
    }

    /// The environment script for the shell (empty for Dash and Sh).
    pub fn generate_init_script(&self) -> (s: String)
        ensures
            s@ == (match self.kind() {
                ShellType::Zsh => zsh_init(),
                ShellType::Fish => fish_init(),
                ShellType::Bash => bash_init(),
                _ => Seq::empty(),
            }),
    {
        match self.shell_type {
            ShellType::Zsh => self.generate_zsh_init(),
            ShellType::Fish => self.generate_fish_init(),
            ShellType::Bash => self.generate_bash_init(),
            _ => String::new(),
        }
    }

    fn generate_zsh_init(&self) -> (s: String)
        ensures
            s@ == zsh_init(),
    {
        "# Foxix Zsh Integration\nexport FOXIX=1\nexport TERM=xterm-256color\nexport COLORTERM=true\n".to_owned()
    }

    fn generate_fish_init(&self) -> (s: String)
        ensures
            s@ == fish_init(),
    {
        "# Foxix Fish Integration\nset -gx FOXIX 1\nset -gx TERM xterm-256color\nset -gx COLORTERM true\n".to_owned()
    }

    fn generate_bash_init(&self) -> (s: String)
        ensures
            s@ == bash_init(),
    {
        "# Foxix Bash Integration\nexport FOXIX=1\nexport TERM=xterm-256color\nexport COLORTERM=true\n".to_owned()
    }
}

} // verus!
