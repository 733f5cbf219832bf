//! The shells, the five inspection tools and what a tool run yields.

use vstd::prelude::*;
use crate::text::{chars_of, is_str, same};

verus! {

/// `str::to_lowercase` gives the lowercase form of a string.
pub assume_specification[ str::to_lowercase ](s: &str) -> (r: String)
    ensures
        r@ == lowercased(s@),
;

/// The lowercase form of a string, as `str::to_lowercase` gives it.
pub uninterp spec fn lowercased(s: Seq<char>) -> Seq<char>;

/// How long a tool's command may run, in milliseconds, unless set otherwise.
pub const DEFAULT_TIMEOUT_MS: u64 = 500;

/// How long a cached result stays valid, in milliseconds, unless set otherwise.
pub const DEFAULT_CACHE_TTL_MS: u64 = 60000;

/// How many lines of help are kept.
pub const MAX_HELP_LINES: usize = 30;

/// How many similar commands are listed.
pub const MAX_SIMILAR: usize = 20;

/// How many lines of a synopsis are kept.
pub const MAX_SYNOPSIS_LINES: usize = 10;

/// The shells the library knows.
#[derive(Debug, Clone, Copy, PartialEq, Eq, Hash, Structural)]
pub enum Shell {
    Bash,
    Zsh,
    Fish,
    PowerShell,
    Cmd,
}

/// The shell that a lowercase name stands for.
pub open spec fn shell_named(name: Seq<char>) -> Option<Shell> {
    if name == "bash"@ {
        Some(Shell::Bash)
    } else if name == "zsh"@ {
        Some(Shell::Zsh)
    } else if name == "fish"@ {
        Some(Shell::Fish)
    } else if name == "powershell"@ || name == "pwsh"@ {
        Some(Shell::PowerShell)
    } else if name == "cmd"@ || name == "cmd.exe"@ {
        Some(Shell::Cmd)
    } else {
        None
    }
}

/// The name a shell is written with.
pub open spec fn shell_name(shell: Shell) -> Seq<char> {
    match shell {
        Shell::Bash => "bash"@,
        Shell::Zsh => "zsh"@,
        Shell::Fish => "fish"@,
        Shell::PowerShell => "powershell"@,
        Shell::Cmd => "cmd"@,
    }
}

impl Shell {
    /// The shell that a lowercase name stands for.
    pub fn from_lowercase(name: &str) -> (r: Option<Shell>)
        ensures
            r == shell_named(name@),
    {
        let n = chars_of(name);
        if is_str(&n, "bash") {
            Some(Shell::Bash)
        } else if is_str(&n, "zsh") {
            Some(Shell::Zsh)
        } else if is_str(&n, "fish") {
            Some(Shell::Fish)
        } else if is_str(&n, "powershell") || is_str(&n, "pwsh") {
            Some(Shell::PowerShell)
        } else if is_str(&n, "cmd") || is_str(&n, "cmd.exe") {
            Some(Shell::Cmd)
        } else {
            None
        }
    }

    /// The shell that a name stands for, whatever its case.
    pub fn parse(s: &str) -> (r: Option<Shell>)
        ensures
            r == shell_named(lowercased(s@)),
    {
        let lower = s.to_lowercase();
        Shell::from_lowercase(lower.as_str())
    }

    /// Whether the shell is one of Unix: bash, zsh or fish.
    pub fn is_unix_like(&self) -> (b: bool)
        ensures
            b == (*self == Shell::Bash || *self == Shell::Zsh || *self == Shell::Fish),
    {
        matches!(self, Shell::Bash | Shell::Zsh | Shell::Fish)
    }

    /// Whether the shell is one of Windows: cmd or PowerShell.
    pub fn is_windows_native(&self) -> (b: bool)
        ensures
            b == (*self == Shell::Cmd || *self == Shell::PowerShell),
            b == !(*self == Shell::Bash || *self == Shell::Zsh || *self == Shell::Fish),
    {
        matches!(self, Shell::Cmd | Shell::PowerShell)
    }

    /// The name the shell is written with.
    pub fn as_str(&self) -> (r: &'static str)
        ensures
            r@ == shell_name(*self),
    {
        match self {
            Shell::Bash => "bash",
            Shell::Zsh => "zsh",
            Shell::Fish => "fish",
            Shell::PowerShell => "powershell",
            Shell::Cmd => "cmd",
        }
    }

    /// The name the shell is written with, as a string of its own.
    pub fn to_string(&self) -> (r: String)
        ensures
            r@ == shell_name(*self),
    {
        self.as_str().to_owned()
    }
}

/// A shell's name stands for that shell.
pub proof fn law_shell_name_round_trip(shell: Shell)
    ensures
        shell_named(shell_name(shell)) == Some(shell),
{
    reveal_strlit("bash");
    reveal_strlit("zsh");
    reveal_strlit("fish");
    reveal_strlit("powershell");
    reveal_strlit("pwsh");
    reveal_strlit("cmd");
    reveal_strlit("cmd.exe");
    match shell {
        Shell::Bash => {},
        Shell::Zsh => {
            assert("zsh"@.len() != "bash"@.len());
        },
        Shell::Fish => {
            assert("fish"@[0] != "bash"@[0]);
            assert("fish"@.len() != "zsh"@.len());
        },
        Shell::PowerShell => {
            assert("powershell"@.len() != "bash"@.len());
            assert("powershell"@.len() != "zsh"@.len());
            assert("powershell"@.len() != "fish"@.len());
        },
        Shell::Cmd => {
            assert("cmd"@.len() != "bash"@.len());
            assert("cmd"@[0] != "zsh"@[0]);
            assert("cmd"@.len() != "fish"@.len());
            assert("cmd"@.len() != "powershell"@.len());
            assert("cmd"@.len() != "pwsh"@.len());
        },
    }
}

/// One of the five read-only inspection tools, with what it is asked about.
#[derive(Debug, PartialEq, Eq, Hash)]
pub enum Tool {
    /// The help text of a command.
    HelpOutput { command: String },
    /// Where the binary of a command lies.
    WhichBinary { command: String },
    /// The commands whose names begin with a prefix.
    ListSimilar { prefix: String },
    /// The value of an environment variable.
    GetEnvVar { name: String },
    /// The synopsis of a command's manual page.
    ManPage { command: String },
}

/// A tool, as sequences of characters.
pub enum ToolView {
    HelpOutput { command: Seq<char> },
    WhichBinary { command: Seq<char> },
    ListSimilar { prefix: Seq<char> },
    GetEnvVar { name: Seq<char> },
    ManPage { command: Seq<char> },
}

impl View for Tool {
    type V = ToolView;

    open spec fn view(&self) -> ToolView {
        match self {
            Tool::HelpOutput { command } => ToolView::HelpOutput { command: command@ },
            Tool::WhichBinary { command } => ToolView::WhichBinary { command: command@ },
            Tool::ListSimilar { prefix } => ToolView::ListSimilar { prefix: prefix@ },
            Tool::GetEnvVar { name } => ToolView::GetEnvVar { name: name@ },
            Tool::ManPage { command } => ToolView::ManPage { command: command@ },
        }
    }
}

/// The name of a tool's kind.
pub open spec fn tool_name(tool: ToolView) -> Seq<char> {
    match tool {
        ToolView::HelpOutput { .. } => "help_output"@,
        ToolView::WhichBinary { .. } => "which_binary"@,
        ToolView::ListSimilar { .. } => "list_similar"@,
        ToolView::GetEnvVar { .. } => "get_env_var"@,
        ToolView::ManPage { .. } => "man_page"@,
    }
}

/// What a tool is asked about: a command, a prefix or a variable's name.
pub open spec fn tool_subject(tool: ToolView) -> Seq<char> {
    match tool {
        ToolView::HelpOutput { command } => command,
        ToolView::WhichBinary { command } => command,
        ToolView::ListSimilar { prefix } => prefix,
        ToolView::GetEnvVar { name } => name,
        ToolView::ManPage { command } => command,
    }
}

impl Clone for Tool {
    fn clone(&self) -> (r: Self)
        ensures
            r@ == self@,
    {
        match self {
            Tool::HelpOutput { command } => Tool::HelpOutput { command: command.clone() },
            Tool::WhichBinary { command } => Tool::WhichBinary { command: command.clone() },
            Tool::ListSimilar { prefix } => Tool::ListSimilar { prefix: prefix.clone() },
            Tool::GetEnvVar { name } => Tool::GetEnvVar { name: name.clone() },
            Tool::ManPage { command } => Tool::ManPage { command: command.clone() },
        }
    }
}

impl Tool {
    /// The name of the tool's kind.
    pub fn name(&self) -> (r: &'static str)
        ensures
            r@ == tool_name(self@),
    {
        match self {
            Tool::HelpOutput { .. } => "help_output",
            Tool::WhichBinary { .. } => "which_binary",
            Tool::ListSimilar { .. } => "list_similar",
            Tool::GetEnvVar { .. } => "get_env_var",
            Tool::ManPage { .. } => "man_page",
        }
    }

    /// What the tool is asked about.
    pub fn subject(&self) -> (r: &String)
        ensures
            r@ == tool_subject(self@),
    {
        match self {
            Tool::HelpOutput { command } => command,
            Tool::WhichBinary { command } => command,
            Tool::ListSimilar { prefix } => prefix,
            Tool::GetEnvVar { name } => name,
            Tool::ManPage { command } => command,
        }
    }

    /// Whether two tools are of the same kind and ask about the same thing.
    pub fn same_as(&self, other: &Tool) -> (b: bool)
        ensures
            b == (self@ == other@),
    {
        let kinds = match (self, other) {
            (Tool::HelpOutput { .. }, Tool::HelpOutput { .. }) => true,
            (Tool::WhichBinary { .. }, Tool::WhichBinary { .. }) => true,
            (Tool::ListSimilar { .. }, Tool::ListSimilar { .. }) => true,
            (Tool::GetEnvVar { .. }, Tool::GetEnvVar { .. }) => true,
            (Tool::ManPage { .. }, Tool::ManPage { .. }) => true,
            _ => false,
        };
        if !kinds {
            return false;
        }
        let a = chars_of(self.subject().as_str());
        let b = chars_of(other.subject().as_str());
        same(&a, &b)
    }
}

/// What a tool run yields.
#[derive(Debug, PartialEq, Eq)]
pub struct ToolResult {
    /// Whether the tool ran and found what it was asked for.
    pub success: bool,
    /// What the tool found; empty on failure.
    pub output: String,
    /// Why the tool failed.
    pub error: Option<String>,
}

/// A tool's result, as sequences of characters.
pub struct ToolResultView {
    pub success: bool,
    pub output: Seq<char>,
    pub error: Option<Seq<char>>,
}

/// The result of a run that succeeded with `output`.
pub open spec fn succeeded(output: Seq<char>) -> ToolResultView {
    ToolResultView { success: true, output, error: None }
}

/// The result of a run that failed for the reason `error`.
pub open spec fn failed(error: Seq<char>) -> ToolResultView {
    ToolResultView { success: false, output: Seq::empty(), error: Some(error) }
}

impl View for ToolResult {
    type V = ToolResultView;

    open spec fn view(&self) -> ToolResultView {
        ToolResultView {
            success: self.success,
            output: self.output@,
            error: match self.error {
                Some(e) => Some(e@),
                None => None,
            },
        }
    }
}

impl Clone for ToolResult {
    fn clone(&self) -> (r: Self)
        ensures
            r@ == self@,
    {
        ToolResult {
            success: self.success,
            output: self.output.clone(),
            error: match &self.error {
                Some(e) => Some(e.clone()),
                None => None,
            },
        }
    }
}

impl ToolResult {
    /// The result of a run that succeeded with `output`.
    pub fn success(output: String) -> (r: Self)
        ensures
            r@ == succeeded(output@),
    {
        ToolResult { success: true, output, error: None }
    }

    /// The result of a run that failed for the reason `error`.
    pub fn failure(error: String) -> (r: Self)
        ensures
            r@ == failed(error@),
    {
        ToolResult { success: false, output: String::new(), error: Some(error) }
    }
}

} // verus!
