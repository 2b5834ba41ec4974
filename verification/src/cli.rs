//! Values that come from the command line: the shells for which completions
//! are written, and text that is compared without regard to case.

use crate::text::ends_with;
use crate::text::join;
use crate::text::lowercase;
use crate::text::same_text;
use crate::text::starts_with_char;
use crate::text::to_lowercase;
use clap_generate::generators::Bash;
use clap_generate::generators::Elvish;
use clap_generate::generators::Fish;
use clap_generate::generators::PowerShell;
use clap_generate::generators::Zsh;
use clap_generate::Generator;
use std::path::PathBuf;
use vstd::prelude::*;
use vstd::string::*;

verus! {

/// `std::path::PathBuf`: a path of the file system, handed on as it is.
#[verifier::external_type_specification]
#[verifier::external_body]
pub struct ExPathBuf(PathBuf);

/// The path that `PathBuf::from` makes of a text.
pub uninterp spec fn path_of(text: Seq<char>) -> PathBuf;

/// The path that `Path::join` makes of a base path and a text.
pub uninterp spec fn joined_path(base: PathBuf, tail: Seq<char>) -> PathBuf;

/// Calls `PathBuf::from` on a string slice. The path holds the text as it
/// is; the contract gives it its name.
#[verifier::external_body]
fn path_from(text: &str) -> (r: PathBuf)
    ensures
        r == path_of(text@),
{
    PathBuf::from(text)
}

/// Calls `Path::join`, which puts `tail` behind `base`, or in its place
/// where `tail` is absolute. The contract gives the result its name.
#[verifier::external_body]
fn path_join(base: &PathBuf, tail: &str) -> (r: PathBuf)
    ensures
        r == joined_path(*base, tail@),
{
    base.join(tail)
}

/// Calls `<Bash as Generator>::file_name`, which writes the name and then
/// `.bash`.
#[verifier::external_body]
fn bash_file_name(name: &str) -> (r: String)
    ensures
        r@ == name@ + ".bash"@,
{
    Bash::file_name(name)
}

/// Calls `<Elvish as Generator>::file_name`, which writes the name and then
/// `.elv`.
#[verifier::external_body]
fn elvish_file_name(name: &str) -> (r: String)
    ensures
        r@ == name@ + ".elv"@,
{
    Elvish::file_name(name)
}

/// Calls `<Fish as Generator>::file_name`, which writes the name and then
/// `.fish`.
#[verifier::external_body]
fn fish_file_name(name: &str) -> (r: String)
    ensures
        r@ == name@ + ".fish"@,
{
    Fish::file_name(name)
}

/// Calls `<PowerShell as Generator>::file_name`, which writes an
/// underscore, the name and then `.ps1`.
#[verifier::external_body]
fn powershell_file_name(name: &str) -> (r: String)
    ensures
        r@ == "_"@ + name@ + ".ps1"@,
{
    PowerShell::file_name(name)
}

/// Calls `<Zsh as Generator>::file_name`, which writes an underscore and
/// then the name.
#[verifier::external_body]
fn zsh_file_name(name: &str) -> (r: String)
    ensures
        r@ == "_"@ + name@,
{
    Zsh::file_name(name)
}

/// The subcommands that `help` can be asked about.
pub const HELP_TOPICS: &'static str = "completions games server servers";

/// The line that lets fish complete the subcommands behind `help`.
pub open spec fn fish_help_line() -> Seq<char> {
    "complete -c dgs -n \"__fish_seen_subcommand_from help; and not __fish_seen_subcommand_from "@
        + HELP_TOPICS@ + "\" -f -a \""@ + HELP_TOPICS@ + "\" -r"@
}

/// A shell for which a completion file can be written.
#[derive(Clone, Copy, Debug, PartialEq, Eq, Structural)]
pub enum ShellType {
    Bash,
    Elvish,
    Fish,
    PowerShell,
    Zsh,
}

impl ShellType {
    /// The name of the completion file for a program or file called
    /// `name`: the name itself where it already has the shell's form, else
    /// the name in that form.
    pub open spec fn completion_file_name(self, name: Seq<char>) -> Seq<char> {
        match self {
            ShellType::Bash => if ".bash"@.is_suffix_of(name) {
                name
            } else {
                name + ".bash"@
            },
            ShellType::Elvish => if ".elv"@.is_suffix_of(name) {
                name
            } else {
                name + ".elv"@
            },
            ShellType::Fish => if ".fish"@.is_suffix_of(name) {
                name
            } else {
                name + ".fish"@
            },
            ShellType::PowerShell => if name.len() > 0 && name[0] == '_' && "ps1"@.is_suffix_of(
                name,
            ) {
                name
            } else {
                "_"@ + name + ".ps1"@
            },
            ShellType::Zsh => if name.len() > 0 && name[0] == '_' {
                name
            } else {
                "_"@ + name
            },
        }
    }

    /// Whether a system-wide completions directory is known for the shell.
    pub open spec fn has_system_path(self) -> bool {
        self is Bash || self is Fish || self is Zsh
    }

    /// Whether a per-user completions directory is known for the shell.
    pub open spec fn has_user_path(self) -> bool {
        self is Bash || self is Fish
    }

    /// The system-wide completions directory of the shell, as text.
    pub open spec fn system_dir(self) -> Seq<char> {
        match self {
            ShellType::Bash => "/usr/share/bash-completion/completions/"@,
            ShellType::Fish => "/usr/share/fish/completions/"@,
            _ => "/usr/local/share/zsh/site-functions/"@,
        }
    }

    /// The shell's completions directory below the user's data directory.
    pub open spec fn user_subdir(self) -> Seq<char> {
        match self {
            ShellType::Bash => "bash-completion/completions/"@,
            _ => "fish/generated_completions/"@,
        }
    }

    /// The per-user completions directory: for bash the directory that the
    /// user has configured, if any; else the shell's directory below the
    /// user's data directory.
    pub open spec fn user_dir(self, data_dir: PathBuf, configured: Option<PathBuf>) -> PathBuf {
        match (self, configured) {
            (ShellType::Bash, Some(dir)) => dir,
            _ => joined_path(data_dir, self.user_subdir()),
        }
    }

    /// The name of the shell's completion file for a program or file called
    /// `name`.
    pub fn file_name(&self, name: &str) -> (r: String)
        ensures
            r@ == self.completion_file_name(name@),
    {
        match self {
            ShellType::Bash => {
                if !ends_with(name, ".bash") {
                    bash_file_name(name)
                } else {
                    name.to_owned()
                }
            },
            ShellType::Elvish => {
                if !ends_with(name, ".elv") {
                    elvish_file_name(name)
                } else {
                    name.to_owned()
                }
            },
            ShellType::Fish => {
                if !ends_with(name, ".fish") {
                    fish_file_name(name)
                } else {
                    name.to_owned()
                }
            },
            ShellType::PowerShell => {
                if !starts_with_char(name, '_') || !ends_with(name, "ps1") {
                    powershell_file_name(name)
                } else {
                    name.to_owned()
                }
            },
            ShellType::Zsh => {
                if !starts_with_char(name, '_') {
                    zsh_file_name(name)
                } else {
                    name.to_owned()
                }
            },
        }
    }

    /// What is written behind the completions that are generated for the
    /// shell: for fish a line that completes the subcommands behind
    /// `help`, for the others nothing.
    pub fn extra_completions(&self) -> (r: Option<String>)
        ensures
            r is Some <==> self is Fish,
            r matches Some(line) ==> line@ == fish_help_line(),
    {
        match self {
            ShellType::Fish => {
                let mut line = join(
                    "complete -c dgs -n \"__fish_seen_subcommand_from help; and not __fish_seen_subcommand_from ",
                    HELP_TOPICS,
                );
                line.append("\" -f -a \"");
                line.append(HELP_TOPICS);
                line.append("\" -r");
                Some(line)
            },
            _ => None,
        }
    }

    /// Whether `system_path` may be called for the shell.
    pub fn knows_system_path(&self) -> (r: bool)
        ensures
            r == self.has_system_path(),
    {
        match self {
            ShellType::Bash | ShellType::Fish | ShellType::Zsh => true,
            _ => false,
        }
    }

    /// Whether `user_path` may be called for the shell.
    pub fn knows_user_path(&self) -> (r: bool)
        ensures
            r == self.has_user_path(),
    {
        match self {
            ShellType::Bash | ShellType::Fish => true,
            _ => false,
        }
    }

    /// The directory for the user's own completions, given the user's data
    /// directory and the directory that the user has configured for bash.
    /// Known for bash and fish only.
    pub fn user_path(&self, data_dir: PathBuf, configured: Option<PathBuf>) -> (r: PathBuf)
        requires
            self.has_user_path(),
        ensures
            r == self.user_dir(data_dir, configured),
    {
        match self {
            ShellType::Bash => {
                match configured {
                    Some(dir) => dir,
                    None => path_join(&data_dir, "bash-completion/completions/"),
                }
            },
            _ => path_join(&data_dir, "fish/generated_completions/"),
        }
    }

    /// The directory for completions that every user gets. Known for bash,
    /// fish and zsh only.
    pub fn system_path(&self) -> (r: PathBuf)
        requires
            self.has_system_path(),
        ensures
            r == path_of(self.system_dir()),
    {
        match self {
            ShellType::Bash => path_from("/usr/share/bash-completion/completions/"),
            ShellType::Fish => path_from("/usr/share/fish/completions/"),
            _ => path_from("/usr/local/share/zsh/site-functions/"),
        }
    }
}

/// A text in lower case: whatever text it is made from is lower-cased first.
#[derive(Clone, Debug, PartialEq, Eq)]
pub struct LowerCaseString(String);

impl View for LowerCaseString {
    type V = Seq<char>;

    /// The text.
    closed spec fn view(&self) -> Seq<char> {
        self.0@
    }
}

impl std::str::FromStr for LowerCaseString {
    type Err = std::convert::Infallible;

    /// Never fails: gives `s` in lower case.
    fn from_str(s: &str) -> (r: Result<Self, Self::Err>)
        ensures
            r matches Ok(lowered) && lowered@ == lowercase(s@),
    {
        Ok(LowerCaseString(to_lowercase(s)))
    }
}

impl std::ops::Deref for LowerCaseString {
    type Target = str;

    fn deref(&self) -> (r: &str)
        ensures
            r@ == self@,
    {
        self.0.as_str()
    }
}

impl LowerCaseString {
    /// The text `s` in lower case.
    pub fn new(s: &str) -> (r: Self)
        ensures
            r@ == lowercase(s@),
    {
        LowerCaseString(to_lowercase(s))
    }

    /// The text as a string slice.
    pub fn as_str(&self) -> (r: &str)
        ensures
            r@ == self@,
    {
        self.0.as_str()
    }

    /// The text as a string of its own.
    pub fn into_string(self) -> (r: String)
        ensures
            r@ == self@,
    {
        self.0
    }

    /// Whether the text equals `other`, character for character.
    pub fn eq_str(&self, other: &str) -> (r: bool)
        ensures
            r == (self@ == other@),
    {
        same_text(self.0.as_str(), other)
    }
}

} // verus!
