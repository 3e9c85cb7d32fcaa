//! The options of the command-line tool and what follows from them: where
//! the input and the output are, and what the user is told afterwards.

use vstd::prelude::*;
use vstd::string::*;
use crate::text::texts;

verus! {

/// The folder, under the home directory, that holds the tool's files.
pub const FOLDER_DIR: &'static str = ".eashy";

/// The options of one run.
#[derive(Debug, Clone)]
pub struct Cli {
    /// The document to read.
    pub file: Option<String>,
    /// The script to write; `-` for standard output.
    pub output: Option<String>,
    /// Whether to say nothing after writing.
    pub quiet: bool,
}

/// Where a file is.
#[derive(Debug, Clone)]
pub enum Location {
    /// At this path, as it stands.
    At(String),
    /// At this path below the user's home directory.
    UnderHome(String),
    /// Under this name in the tool's folder, which lies in the home
    /// directory, or in the current directory where no home is known.
    InFolder(String),
}

/// Whether `whole` begins with `~/`.
pub open spec fn begins_with_tilde(whole: Seq<char>) -> bool {
    whole.len() >= 2 && whole[0] == '~' && whole[1] == '/'
}

/// A location as plain text.
pub enum LocationView {
    At(Seq<char>),
    UnderHome(Seq<char>),
    InFolder(Seq<char>),
}

impl View for Location {
    type V = LocationView;

    open spec fn view(&self) -> LocationView {
        match self {
            Location::At(p) => LocationView::At(p@),
            Location::UnderHome(p) => LocationView::UnderHome(p@),
            Location::InFolder(p) => LocationView::InFolder(p@),
        }
    }
}

/// Where a path leads once a leading `~/` is read as the home directory,
/// which takes a known home directory.
pub open spec fn tilde_expanded(path: Seq<char>, home_known: bool) -> LocationView {
    if begins_with_tilde(path) && home_known {
        LocationView::UnderHome(path.skip(2))
    } else {
        LocationView::At(path)
    }
}

/// Reads a leading `~/` as the home directory, where one is known.
pub fn expand_tilde(path: &str, home_known: bool) -> (res: Location)
    ensures
        res@ == tilde_expanded(path@, home_known),
{
    let n: usize = path.unicode_len();
    if home_known && n >= 2 && path.get_char(0) == '~' && path.get_char(1) == '/' {
        Location::UnderHome(String::from_str(path.substring_char(2, n)))
    } else {
        Location::At(String::from_str(path))
    }
}

/// `dirs::home_dir`: the home directory of the user who runs the tool, if
/// the system knows one. It depends on the user and the machine, so nothing
/// is said of it.
#[verifier::external_body]
fn home_directory() -> (res: Option<String>)
{
    dirs::home_dir().map(|p| p.to_string_lossy().into_owned())
}

/// `Path::join` of the standard library: the path `rest` as seen from the
/// directory `base`. How the two are put together is the platform's matter,
/// so nothing is said of it.
#[verifier::external_body]
fn join_path(base: &str, rest: &str) -> (res: String)
{
    std::path::Path::new(base).join(rest).to_string_lossy().into_owned()
}

/// The path that a location stands for, given the home directory. The
/// tool's folder lies in the home directory, or in the current directory
/// where no home is known; a path below an unknown home directory keeps its
/// `~/`.
pub fn resolve(location: &Location, home: &Option<String>) -> (res: String)
    ensures
        location@ matches LocationView::At(p) ==> res@ == p,
        location@ matches LocationView::UnderHome(rest) ==> (home is None ==> res@ == "~/"@ + rest),
{
    match location {
        Location::At(path) => path.clone(),
        Location::UnderHome(rest) => match home {
            Some(h) => join_path(h.as_str(), rest.as_str()),
            None => {
                let mut path = String::from_str("~/");
                path.append(rest.as_str());
                path
            },
        },
        Location::InFolder(name) => {
            let folder = match home {
                Some(h) => join_path(h.as_str(), FOLDER_DIR),
                None => join_path(".", FOLDER_DIR),
            };
            join_path(folder.as_str(), name.as_str())
        },
    }
}

/// Whether `needle` occurs in `hay` as a run of neighbouring characters.
pub open spec fn has_subtext(hay: Seq<char>, needle: Seq<char>) -> bool {
    exists|i: int|
        0 <= i && i + needle.len() <= hay.len() && #[trigger] hay.subrange(
            i,
            i + needle.len(),
        ) == needle
}

/// `str::contains` of the standard library with a string as the pattern:
/// whether the pattern matches a part of the text.
#[verifier::external_body]
fn contains_text(hay: &str, needle: &str) -> (res: bool)
    ensures
        res == has_subtext(hay@, needle@),
{
    hay.contains(needle)
}

/// The shells whose start-up file the tool knows.
#[derive(Debug, Clone, Copy, PartialEq, Eq, Structural)]
pub enum Shell {
    Zsh,
    Bash,
    Fish,
    Other,
}

/// The shell that a path to a shell program names: the first of zsh, bash
/// and fish that occurs in it.
pub open spec fn shell_named(shell: Seq<char>) -> Shell {
    if has_subtext(shell, "zsh"@) {
        Shell::Zsh
    } else if has_subtext(shell, "bash"@) {
        Shell::Bash
    } else if has_subtext(shell, "fish"@) {
        Shell::Fish
    } else {
        Shell::Other
    }
}

/// Tells the shell from the path of its program.
pub fn detect_shell(shell: &str) -> (res: Shell)
    ensures
        res == shell_named(shell@),
{
    if contains_text(shell, "zsh") {
        Shell::Zsh
    } else if contains_text(shell, "bash") {
        Shell::Bash
    } else if contains_text(shell, "fish") {
        Shell::Fish
    } else {
        Shell::Other
    }
}

/// The start-up file of a shell, as a path below the home directory.
pub open spec fn rc_path(shell: Shell) -> Option<Seq<char>> {
    match shell {
        Shell::Zsh => Some(".zshrc"@),
        Shell::Bash => Some(".bashrc"@),
        Shell::Fish => Some(".config/fish/config.fish"@),
        Shell::Other => None,
    }
}

/// How the user is told of a shell's start-up file.
pub open spec fn rc_hint(shell: Shell) -> Seq<char> {
    match shell {
        Shell::Zsh => "~/.zshrc"@,
        Shell::Bash => "~/.bashrc"@,
        Shell::Fish => "~/.config/fish/config.fish"@,
        Shell::Other => "your shell's configuration file"@,
    }
}

/// The line of a start-up file that loads the script.
pub open spec fn source_line(output_file: Seq<char>) -> Seq<char> {
    "source "@ + output_file
}

/// What the user is told after the script was written, line by line,
/// unless the start-up file loads the script already.
pub open spec fn instructions(output_file: Seq<char>, shell: Shell) -> Seq<Seq<char>> {
    seq![
        Seq::empty(),
        "📋 To use the generated commands, you need to source this file:"@,
        "   source "@ + output_file,
        Seq::empty(),
        "🔧 To make it permanent, add this line to your shell's RC file, or run:"@,
        "   echo 'source "@ + output_file + "' >> "@ + rc_hint(shell),
        Seq::empty(),
    ]
}

impl Cli {
    /// Whether the script goes to standard output.
    pub open spec fn to_stdout(&self) -> bool {
        self.output matches Some(o) && o@ == "-"@
    }

    /// Check if output should go to stdout
    pub fn is_stdout_output(&self) -> (res: bool)
        ensures
            res == self.to_stdout(),
    {
        match &self.output {
            Some(o) => {
                let dash = String::from_str("-");
                *o == dash
            },
            None => false,
        }
    }

    /// Where the document is: at the given path with a leading `~/`
    /// expanded, or under the name `default.kdl` in the tool's folder.
    pub fn input_location(&self, home_known: bool) -> (res: Location)
        ensures
            res@ == (match self.file {
                Some(f) => tilde_expanded(f@, home_known),
                None => LocationView::InFolder("default.kdl"@),
            }),
    {
        match &self.file {
            Some(f) => expand_tilde(f.as_str(), home_known),
            None => Location::InFolder(String::from_str("default.kdl")),
        }
    }

    /// Where the script goes: nowhere on disk for standard output, else to
    /// the given path with a leading `~/` expanded, or under the name
    /// `eashy.sh` into the tool's folder.
    pub fn output_location(&self, home_known: bool) -> (res: Option<Location>)
        ensures
            self.to_stdout() <==> res is None,
            res matches Some(l) ==> l@ == (match self.output {
                Some(o) => tilde_expanded(o@, home_known),
                None => LocationView::InFolder("eashy.sh"@),
            }),
    {
        if self.is_stdout_output() {
            None
        } else {
            match &self.output {
                Some(o) => Some(expand_tilde(o.as_str(), home_known)),
                None => Some(Location::InFolder(String::from_str("eashy.sh"))),
            }
        }
    }

    /// Get the resolved input file path. A given path without a leading
    /// `~/` is the result as it stands; any other result depends on the
    /// home directory of the user who runs the tool.
    pub fn get_input_file(&self) -> (res: String)
        ensures
            self.file matches Some(f) ==> (!begins_with_tilde(f@) ==> res@ == f@),
    {
        let home = home_directory();
        let location = self.input_location(home.is_some());
        let found = resolve(&location, &home);
        match &self.file {
            Some(_) => found,
            None => {
                let again = expand_tilde(found.as_str(), home.is_some());
                resolve(&again, &home)
            },
        }
    }

    /// Get the resolved output file path (None if stdout). A given path
    /// without a leading `~/` is the result as it stands; any other result
    /// depends on the home directory of the user who runs the tool.
    pub fn get_output_file(&self) -> (res: Option<String>)
        ensures
            self.to_stdout() <==> res is None,
            self.output matches Some(o) ==> (!self.to_stdout() && !begins_with_tilde(o@) ==> (
            res matches Some(p) && p@ == o@)),
    {
        let home = home_directory();
        match self.output_location(home.is_some()) {
            Some(location) => Some(resolve(&location, &home)),
            None => None,
        }
    }

    /// The start-up file of the shell, below the home directory, if the
    /// shell is one that the tool knows.
    pub fn rc_file(shell: &str) -> (res: Option<String>)
        ensures
            res is Some <==> rc_path(shell_named(shell@)) is Some,
            res matches Some(p) ==> Some(p@) == rc_path(shell_named(shell@)),
    {
        match detect_shell(shell) {
            Shell::Zsh => Some(String::from_str(".zshrc")),
            Shell::Bash => Some(String::from_str(".bashrc")),
            Shell::Fish => Some(String::from_str(".config/fish/config.fish")),
            Shell::Other => None,
        }
    }

    /// Whether a start-up file with this content loads the script already.
    pub fn already_sourced(content: &str, output_file: &str) -> (res: bool)
        ensures
            res == has_subtext(content@, source_line(output_file@)),
    {
        let mut line = String::from_str("source ");
        line.append(output_file);
        contains_text(content, line.as_str())
    }

    /// Whether a start-up file loads the script already, given its content
    /// where it exists and could be read.
    pub open spec fn loaded_by(rc_content: Option<String>, output_file: Seq<char>) -> bool {
        rc_content matches Some(c) && has_subtext(c@, source_line(output_file))
    }

    /// The first thing the user is told after the script was written;
    /// nothing under the quiet option.
    pub fn success_message(&self, output_file: &str) -> (res: Option<String>)
        ensures
            self.quiet <==> res is None,
            res matches Some(line) ==> line@ == "✅ Shell script generated successfully at: "@
                + output_file@,
    {
        if self.quiet {
            None
        } else {
            Some(Cli::success_line(output_file))
        }
    }

    /// What the user is told about loading the script: nothing under the
    /// quiet option or where the start-up file loads it already, else the
    /// instructions for the shell. `rc_content` is the content of the
    /// shell's start-up file, where it exists and could be read.
    pub fn sourcing_message(
        &self,
        output_file: &str,
        shell: &str,
        rc_content: &Option<String>,
    ) -> (res: Vec<String>)
        ensures
            texts(res@) == (if self.quiet || Cli::loaded_by(*rc_content, output_file@) {
                Seq::<Seq<char>>::empty()
            } else {
                instructions(output_file@, shell_named(shell@))
            }),
    {
        let loaded = match rc_content {
            Some(content) => Cli::already_sourced(content.as_str(), output_file),
            None => false,
        };
        if self.quiet || loaded {
            let none: Vec<String> = Vec::new();
            assert(texts(none@) =~= Seq::<Seq<char>>::empty());
            none
        } else {
            Cli::sourcing_instructions(output_file, shell)
        }
    }

    /// The first thing the user is told after the script was written.
    pub fn success_line(output_file: &str) -> (res: String)
        ensures
            res@ == "✅ Shell script generated successfully at: "@ + output_file@,
    {
        let mut line = String::from_str("✅ Shell script generated successfully at: ");
        line.append(output_file);
        line
    }

    /// How to load the script, for a user whose start-up file does not.
    pub fn sourcing_instructions(output_file: &str, shell: &str) -> (res: Vec<String>)
        ensures
            texts(res@) == instructions(output_file@, shell_named(shell@)),
    {
        let mut source = String::from_str("   source ");
        source.append(output_file);
        let mut echo = String::from_str("   echo 'source ");
        echo.append(output_file);
        echo.append("' >> ");
        match detect_shell(shell) {
            Shell::Zsh => echo.append("~/.zshrc"),
            Shell::Bash => echo.append("~/.bashrc"),
            Shell::Fish => echo.append("~/.config/fish/config.fish"),
            Shell::Other => echo.append("your shell's configuration file"),
        }
        let mut lines: Vec<String> = Vec::new();
        lines.push(String::new());
        lines.push(
            String::from_str("📋 To use the generated commands, you need to source this file:"),
        );
        lines.push(source);
        lines.push(String::new());
        lines.push(
            String::from_str(
                "🔧 To make it permanent, add this line to your shell's RC file, or run:",
            ),
        );
        lines.push(echo);
        lines.push(String::new());
        assert(texts(lines@) =~= instructions(output_file@, shell_named(shell@)));
        lines
    }
}

} // verus!
