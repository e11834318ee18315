//! The platforms the tool runs on and their conventions.

use vstd::prelude::*;

use crate::error::AgentError;
use crate::paths::{join, join_spec};
use crate::text::same_text;

verus! {

/// Supported platforms.
#[derive(Debug, Clone, Copy, PartialEq, Eq, Structural)]
pub enum Platform {
    Windows,
    MacOS,
    Linux,
    Unknown,
}

/// The platform that an operating system's name (as `std::env::consts::OS`
/// gives it) stands for.
pub open spec fn platform_of(os: Seq<char>) -> Platform {
    if os == "windows"@ {
        Platform::Windows
    } else if os == "macos"@ {
        Platform::MacOS
    } else if os == "linux"@ {
        Platform::Linux
    } else {
        Platform::Unknown
    }
}

/// `components` placed one under the next.
pub open spec fn joined_path(components: Seq<&str>) -> Seq<char>
    decreases components.len(),
{
    if components.len() == 0 {
        Seq::empty()
    } else {
        join_spec(joined_path(components.drop_last()), components.last()@)
    }
}

/// `p` with each `/` written as `\`.
pub open spec fn backslashed(p: Seq<char>) -> Seq<char> {
    p.map_values(|c: char| if c == '/' { '\\' } else { c })
}

/// Relies on `which::which`: whether an executable of that name is found
/// on the search path now. Nothing is promised of the answer.
#[verifier::external_body]
fn executable_found(command: &str) -> bool {
    which::which(command).is_ok()
}

/// Relies on `atty::is` for standard output: whether it is a terminal now.
/// Nothing is promised of the answer.
#[verifier::external_body]
fn stdout_is_terminal() -> bool {
    atty::is(atty::Stream::Stdout)
}

/// Relies on `terminal_size::terminal_size`: the terminal's width in
/// columns, where there is a terminal.
#[verifier::external_body]
fn terminal_columns() -> Option<u16> {
    terminal_size::terminal_size().map(|(w, _)| w.0)
}

#[verifier::external_type_specification]
#[verifier::external_body]
pub struct ExProjectDirs(directories::ProjectDirs);

/// Relies on `directories::ProjectDirs::from`: the directories of a project,
/// where the user's home directory can be found. Nothing is promised of
/// which.
#[verifier::external_body]
fn project_dirs(qualifier: &str, organization: &str, application: &str) -> Option<
    directories::ProjectDirs,
> {
    directories::ProjectDirs::from(qualifier, organization, application)
}

/// Relies on `ProjectDirs::config_dir`, as text.
#[verifier::external_body]
fn config_dir_of(dirs: &directories::ProjectDirs) -> String {
    dirs.config_dir().to_string_lossy().into_owned()
}

/// Relies on `ProjectDirs::data_dir`, as text.
#[verifier::external_body]
fn data_dir_of(dirs: &directories::ProjectDirs) -> String {
    dirs.data_dir().to_string_lossy().into_owned()
}

/// Relies on `ProjectDirs::cache_dir`, as text.
#[verifier::external_body]
fn cache_dir_of(dirs: &directories::ProjectDirs) -> String {
    dirs.cache_dir().to_string_lossy().into_owned()
}

/// The directories of this tool: qualifier, organization and application.
fn tool_dirs() -> Option<directories::ProjectDirs> {
    project_dirs("com", "truenine", "agents-cli")
}

impl Platform {
    /// The tool's configuration directory; fails where the user's
    /// directories cannot be found.
    pub fn config_dir(&self) -> (r: Result<String, AgentError>)
        ensures
            r matches Err(e) ==> (e matches AgentError::Platform(m) && m@
                == "Failed to get config directory"@),
    {
        match tool_dirs() {
            Some(d) => Ok(config_dir_of(&d)),
            None => Err(AgentError::Platform(String::from_str("Failed to get config directory"))),
        }
    }

    /// The tool's data directory; fails where the user's directories
    /// cannot be found.
    pub fn data_dir(&self) -> (r: Result<String, AgentError>)
        ensures
            r matches Err(e) ==> (e matches AgentError::Platform(m) && m@
                == "Failed to get data directory"@),
    {
        match tool_dirs() {
            Some(d) => Ok(data_dir_of(&d)),
            None => Err(AgentError::Platform(String::from_str("Failed to get data directory"))),
        }
    }

    /// The tool's cache directory; fails where the user's directories
    /// cannot be found.
    pub fn cache_dir(&self) -> (r: Result<String, AgentError>)
        ensures
            r matches Err(e) ==> (e matches AgentError::Platform(m) && m@
                == "Failed to get cache directory"@),
    {
        match tool_dirs() {
            Some(d) => Ok(cache_dir_of(&d)),
            None => Err(AgentError::Platform(String::from_str("Failed to get cache directory"))),
        }
    }

    /// The platform of the operating system named `os`, as
    /// `std::env::consts::OS` names it. Never fails.
    pub fn detect(os: &str) -> (r: Result<Platform, AgentError>)
        ensures
            r == Ok::<Platform, AgentError>(platform_of(os@)),
    {
        if same_text(os, "windows") {
            Ok(Platform::Windows)
        } else if same_text(os, "macos") {
            Ok(Platform::MacOS)
        } else if same_text(os, "linux") {
            Ok(Platform::Linux)
        } else {
            Ok(Platform::Unknown)
        }
    }

    /// The path separator.
    pub fn path_separator(&self) -> (r: &'static str)
        ensures
            r@ == if *self == Platform::Windows {
                "\\"@
            } else {
                "/"@
            },
    {
        match self {
            Platform::Windows => "\\",
            _ => "/",
        }
    }

    /// The extension of executable files.
    pub fn executable_extension(&self) -> (r: &'static str)
        ensures
            r@ == if *self == Platform::Windows {
                ".exe"@
            } else {
                ""@
            },
    {
        match self {
            Platform::Windows => ".exe",
            _ => "",
        }
    }

    /// The usual shell.
    pub fn default_shell(&self) -> (r: &'static str)
        ensures
            r@ == match *self {
                Platform::Windows => "cmd"@,
                Platform::MacOS => "zsh"@,
                Platform::Linux => "bash"@,
                Platform::Unknown => "sh"@,
            },
    {
        match self {
            Platform::Windows => "cmd",
            Platform::MacOS => "zsh",
            Platform::Linux => "bash",
            Platform::Unknown => "sh",
        }
    }

    /// The usual editor.
    pub fn default_editor(&self) -> (r: &'static str)
        ensures
            r@ == match *self {
                Platform::Windows => "notepad"@,
                Platform::MacOS => "nano"@,
                Platform::Linux => "nano"@,
                Platform::Unknown => "vi"@,
            },
    {
        match self {
            Platform::Windows => "notepad",
            Platform::MacOS => "nano",
            Platform::Linux => "nano",
            Platform::Unknown => "vi",
        }
    }

    /// Whether `command` is found on the search path now.
    pub fn command_exists(&self, command: &str) -> bool {
        executable_found(command)
    }

    /// The environment variable that holds the home directory.
    pub fn env_var_home(&self) -> (r: &'static str)
        ensures
            r@ == if *self == Platform::Windows {
                "USERPROFILE"@
            } else {
                "HOME"@
            },
    {
        match self {
            Platform::Windows => "USERPROFILE",
            _ => "HOME",
        }
    }

    /// The environment variable that holds the search path.
    pub fn env_var_path(&self) -> (r: &'static str)
        ensures
            r@ == "PATH"@,
    {
        "PATH"
    }

    /// Whether standard output is a terminal now.
    pub fn is_terminal(&self) -> bool {
        stdout_is_terminal()
    }

    /// The terminal's width in columns; `None` where standard output is not
    /// a terminal or its size is unknown.
    pub fn terminal_width(&self) -> Option<usize> {
        if !self.is_terminal() {
            return None;
        }
        match terminal_columns() {
            Some(w) => Some(w as usize),
            None => None,
        }
    }

    /// A command line: the command, then its arguments.
    pub fn format_command(&self, command: &str, args: &[&str]) -> (r: Vec<String>)
        ensures
            r@.len() == args@.len() + 1,
            r@[0]@ == command@,
            forall|i: int| 0 <= i < args@.len() ==> r@[i + 1]@ == args@[i]@,
    {
        let mut cmd: Vec<String> = Vec::new();
        cmd.push(String::from_str(command));
        let mut i: usize = 0;
        while i < args.len()
            invariant
                i <= args@.len(),
                cmd@.len() == i + 1,
                cmd@[0]@ == command@,
                forall|j: int| 0 <= j < i ==> cmd@[j + 1]@ == args@[j]@,
            decreases args@.len() - i,
        {
            cmd.push(String::from_str(args[i]));
            i = i + 1;
        }
        cmd
    }

    /// `components` placed one under the next; an absolute component starts
    /// the path afresh.
    pub fn join_paths(&self, components: &[&str]) -> (r: String)
        ensures
            r@ == joined_path(components@),
    {
        let mut path = String::new();
        let mut i: usize = 0;
        while i < components.len()
            invariant
                i <= components@.len(),
                path@ == joined_path(components@.subrange(0, i as int)),
            decreases components@.len() - i,
        {
            let ghost pre = components@.subrange(0, i + 1);
            assert(pre.drop_last() =~= components@.subrange(0, i as int));
            path = join(path.as_str(), components[i]);
            i = i + 1;
        }
        assert(components@.subrange(0, i as int) =~= components@);
        path
    }

    /// Whether `path` is absolute: it starts at the root.
    pub fn is_absolute_path(&self, path: &str) -> (r: bool)
        ensures
            r == (path@.len() > 0 && path@[0] == '/'),
    {
        let cs = crate::text::chars_of(path);
        cs.len() > 0 && cs[0] == '/'
    }

    /// `path` in this platform's form: on Windows each `/` becomes `\`.
    pub fn normalize_path(&self, path: &str) -> (r: String)
        ensures
            *self == Platform::Windows ==> r@ == backslashed(path@),
            *self != Platform::Windows ==> r@ == path@,
    {
        if *self != Platform::Windows {
            return String::from_str(path);
        }
        let cs = crate::text::chars_of(path);
        let mut out = String::new();
        let mut i: usize = 0;
        while i < cs.len()
            invariant
                i <= cs@.len(),
                cs@ == path@,
                out@ == backslashed(cs@.subrange(0, i as int)),
            decreases cs@.len() - i,
        {
            let c = cs[i];
            out.push(if c == '/' { '\\' } else { c });
            i = i + 1;
            assert(out@ =~= backslashed(cs@.subrange(0, i as int)));
        }
        assert(cs@.subrange(0, i as int) =~= cs@);
        out
    }

    /// The platform's name as it is shown to a user.
    pub fn to_string(&self) -> (r: String)
        ensures
            r@ == match *self {
                Platform::Windows => "Windows"@,
                Platform::MacOS => "macOS"@,
                Platform::Linux => "Linux"@,
                Platform::Unknown => "Unknown"@,
            },
    {
        match self {
            Platform::Windows => String::from_str("Windows"),
            Platform::MacOS => String::from_str("macOS"),
            Platform::Linux => String::from_str("Linux"),
            Platform::Unknown => String::from_str("Unknown"),
        }
    }
}

/// Platform-wide helpers.
pub struct PlatformUtils;

impl PlatformUtils {
    /// The platform of the operating system named `os`.
    pub fn current(os: &str) -> (r: Result<Platform, AgentError>)
        ensures
            r == Ok::<Platform, AgentError>(platform_of(os@)),
    {
        Platform::detect(os)
    }

    /// Whether symbolic links can be made: on every supported platform
    /// they can, though making one may still fail.
    pub fn supports_symlinks() -> (r: bool)
        ensures
            r,
    {
        true
    }

    /// The line ending of `platform`.
    pub fn newline(platform: Platform) -> (r: &'static str)
        ensures
            r@ == if platform == Platform::Windows {
                "\r\n"@
            } else {
                "\n"@
            },
    {
        match platform {
            Platform::Windows => "\r\n",
            _ => "\n",
        }
    }

    /// `text` with every line ending, `\r\n` or `\n`, written as
    /// `platform`'s.
    pub fn normalize_line_endings(text: &str, platform: Platform) -> (r: String)
        ensures
            r@ == with_line_endings(text@, platform == Platform::Windows),
    {
        let cs = crate::text::chars_of(text);
        let windows = platform == Platform::Windows;
        let mut out = String::new();
        let mut i: usize = 0;
        assert(cs@.subrange(0, cs@.len() as int) =~= cs@);
        assert(out@ + with_line_endings(cs@, windows) =~= with_line_endings(cs@, windows));
        while i < cs.len()
            invariant
                i <= cs@.len(),
                cs@ == text@,
                out@ + with_line_endings(cs@.subrange(i as int, cs@.len() as int), windows)
                    == with_line_endings(cs@, windows),
            decreases cs@.len() - i,
        {
            let ghost rest = cs@.subrange(i as int, cs@.len() as int);
            if cs[i] == '\r' && i + 1 < cs.len() && cs[i + 1] == '\n' {
                assert(rest.subrange(2, rest.len() as int) =~= cs@.subrange(i + 2, cs@.len() as int));
                if windows {
                    out.push('\r');
                }
                out.push('\n');
                assert(out@ + with_line_endings(cs@.subrange(i + 2, cs@.len() as int), windows)
                    =~= with_line_endings(cs@, windows));
                i = i + 2;
            } else if cs[i] == '\n' {
                assert(rest.subrange(1, rest.len() as int) =~= cs@.subrange(i + 1, cs@.len() as int));
                if windows {
                    out.push('\r');
                }
                out.push('\n');
                assert(out@ + with_line_endings(cs@.subrange(i + 1, cs@.len() as int), windows)
                    =~= with_line_endings(cs@, windows));
                i = i + 1;
            } else {
                assert(rest.subrange(1, rest.len() as int) =~= cs@.subrange(i + 1, cs@.len() as int));
                out.push(cs[i]);
                assert(out@ + with_line_endings(cs@.subrange(i + 1, cs@.len() as int), windows)
                    =~= with_line_endings(cs@, windows));
                i = i + 1;
            }
        }
        assert(with_line_endings(cs@.subrange(i as int, cs@.len() as int), windows) =~= Seq::empty());
        assert(out@ =~= out@ + Seq::<char>::empty());
        out
    }
}

/// `text` with each `\r\n` and each lone `\n` written as `\r\n` (where
/// `crlf`) or `\n`.
pub open spec fn with_line_endings(text: Seq<char>, crlf: bool) -> Seq<char>
    decreases text.len(),
{
    let nl = if crlf {
        seq!['\r', '\n']
    } else {
        seq!['\n']
    };
    if text.len() == 0 {
        Seq::empty()
    } else if text.len() >= 2 && text[0] == '\r' && text[1] == '\n' {
        nl + with_line_endings(text.subrange(2, text.len() as int), crlf)
    } else if text[0] == '\n' {
        nl + with_line_endings(text.subrange(1, text.len() as int), crlf)
    } else {
        seq![text[0]] + with_line_endings(text.subrange(1, text.len() as int), crlf)
    }
}

} // verus!
