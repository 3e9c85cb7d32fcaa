//! The command tree: commands, their arguments, and the names and paths by
//! which the generated program refers to them.

use vstd::prelude::*;
use vstd::string::*;
use vstd::utf8::encode_utf8;
use crate::document::{Entry, Node};
use crate::names::lemma_parsed_paths_consistent;
use crate::text::{
    join, joined, lemma_texts_push, texts, trim_quotes, trimmed, uppercase, uppercased,
};

verus! {

/// Bold green, for section titles.
pub const TITLE: &'static str = "\\033[1;32m";

/// Bold cyan, for command names and labels.
pub const COMMAND: &'static str = "\\033[1;36m";

/// Plain cyan, for the argument part of a usage line.
pub const OPTIONS: &'static str = "\\033[0;36m";

/// Bold red, for error messages.
pub const ERROR: &'static str = "\\033[1;31m";

/// Back to the terminal's own style.
pub const RESET: &'static str = "\\033[0m";

/// How many values a positional argument takes.
#[derive(Debug, Clone, PartialEq, Eq, Structural)]
pub enum ArgPrefix {
    /// Any number of values, written `*name`.
    ZeroMore,
    /// At least one value, written `+name`.
    OneMore,
    /// At most one value, written `?name`.
    ZeroOne,
    /// Exactly one value, written without a mark.
    ExactlyOne,
}

impl ArgPrefix {
    /// The arity that the first character of a declared name stands for.
    pub open spec fn of(name: Seq<char>) -> ArgPrefix {
        if name.len() > 0 && name[0] == '*' {
            ArgPrefix::ZeroMore
        } else if name.len() > 0 && name[0] == '+' {
            ArgPrefix::OneMore
        } else if name.len() > 0 && name[0] == '?' {
            ArgPrefix::ZeroOne
        } else {
            ArgPrefix::ExactlyOne
        }
    }

    /// The declared name without its arity mark, if it has one.
    pub open spec fn bare(name: Seq<char>) -> Seq<char> {
        if ArgPrefix::of(name) == ArgPrefix::ExactlyOne {
            name
        } else {
            name.skip(1)
        }
    }

    /// Splits a declared argument name into its arity and its bare name.
    pub fn extract(name: &str) -> (res: (Self, String))
        ensures
            res.0 == ArgPrefix::of(name@),
            res.1@ == ArgPrefix::bare(name@),
    {
        let n: usize = name.unicode_len();
        if n > 0 {
            let first = name.get_char(0);
            if first == '*' {
                (ArgPrefix::ZeroMore, String::from_str(name.substring_char(1, n)))
            } else if first == '+' {
                (ArgPrefix::OneMore, String::from_str(name.substring_char(1, n)))
            } else if first == '?' {
                (ArgPrefix::ZeroOne, String::from_str(name.substring_char(1, n)))
            } else {
                (ArgPrefix::ExactlyOne, String::from_str(name))
            }
        } else {
            (ArgPrefix::ExactlyOne, String::from_str(name))
        }
    }
}

/// How the lines of a command's body are chained.
#[derive(Debug, Clone, PartialEq, Eq, Structural)]
pub enum CmdPrefix {
    /// Stop at the first line that fails, written `&name`.
    UntilError,
    /// Stop at the first line that succeeds, written `|name`.
    UntilSuccess,
    /// Run every line, written without a mark.
    RunAll,
}

impl CmdPrefix {
    /// The chaining that the first character of a declared name stands for.
    pub open spec fn of(name: Seq<char>) -> CmdPrefix {
        if name.len() > 0 && name[0] == '&' {
            CmdPrefix::UntilError
        } else if name.len() > 0 && name[0] == '|' {
            CmdPrefix::UntilSuccess
        } else {
            CmdPrefix::RunAll
        }
    }

    /// The declared name without its chaining mark, if it has one.
    pub open spec fn bare(name: Seq<char>) -> Seq<char> {
        if CmdPrefix::of(name) == CmdPrefix::RunAll {
            name
        } else {
            name.skip(1)
        }
    }

    /// Splits a declared command name into its chaining and its bare name.
    pub fn extract(name: &str) -> (res: (Self, String))
        ensures
            res.0 == CmdPrefix::of(name@),
            res.1@ == CmdPrefix::bare(name@),
    {
        let n: usize = name.unicode_len();
        if n > 0 {
            let first = name.get_char(0);
            if first == '&' {
                (CmdPrefix::UntilError, String::from_str(name.substring_char(1, n)))
            } else if first == '|' {
                (CmdPrefix::UntilSuccess, String::from_str(name.substring_char(1, n)))
            } else {
                (CmdPrefix::RunAll, String::from_str(name))
            }
        } else {
            (CmdPrefix::RunAll, String::from_str(name))
        }
    }
}

/// The value that a flag has when the command line does not give it.
#[derive(Debug, Clone)]
pub enum DefaultValue {
    /// A switch, off or on.
    Bool(bool),
    /// No value.
    Null,
    /// Any other value, held as the document writes it.
    Literal(String),
}

/// One declared argument of a command.
#[derive(Debug, Clone)]
pub struct Argument {
    pub name: String,
    pub help: String,
    pub prefix: ArgPrefix,
    /// `Some` for a flag, `None` for a positional argument.
    pub option: Option<DefaultValue>,
}

/// What a command holds below itself.
#[derive(Debug)]
pub enum Children {
    /// A dispatcher and its subcommands.
    Subcmds(Vec<Command>),
    /// A leaf and the shell lines that it runs.
    Body(Vec<String>),
}

/// One command or subcommand.
#[derive(Debug)]
pub struct Command {
    pub name: String,
    pub prefix: CmdPrefix,
    pub description: Option<String>,
    pub arguments: Vec<Argument>,
    pub children: Children,
    /// The names from the top-level command down to this one.
    pub path: Vec<String>,
}

impl Clone for Children {
    fn clone(&self) -> (res: Self)
        decreases self,
    {
        match self {
            Children::Subcmds(subs) => {
                let mut out: Vec<Command> = Vec::new();
                let mut i: usize = 0;
                while i < subs.len()
                    invariant
                        i <= subs.len(),
                        *self == Children::Subcmds(*subs),
                    decreases subs.len() - i,
                {
                    proof {
                        vstd::std_specs::vec::axiom_vec_index_decreases(*subs, i as int);
                        assert(decreases_to!(*self => self->Subcmds_0));
                    }
                    out.push(subs[i].clone());
                    i += 1;
                }
                Children::Subcmds(out)
            },
            Children::Body(lines) => Children::Body(lines.clone()),
        }
    }
}

impl Clone for Command {
    fn clone(&self) -> (res: Self)
        decreases self,
    {
        Command {
            name: self.name.clone(),
            prefix: self.prefix.clone(),
            description: self.description.clone(),
            arguments: self.arguments.clone(),
            children: self.children.clone(),
            path: self.path.clone(),
        }
    }
}

/// The number of bytes that a text takes as a string.
pub open spec fn byte_len(s: Seq<char>) -> nat {
    encode_utf8(s).len()
}

/// The name of the shell function generated for the command at `path`.
pub open spec fn mangled(path: Seq<Seq<char>>) -> Seq<char> {
    if path.len() == 1 {
        path[0]
    } else {
        "_"@ + joined(path, "_"@) + "_"@
    }
}

/// The positional arguments among `args`, in declaration order.
pub open spec fn positional(args: Seq<Argument>) -> Seq<Argument> {
    args.filter(|a: Argument| a.option is None)
}

/// The flags among `args`, in declaration order.
pub open spec fn optional(args: Seq<Argument>) -> Seq<Argument> {
    args.filter(|a: Argument| a.option is Some)
}

/// The arguments that a vector of references points to.
pub open spec fn referred(v: Seq<&Argument>) -> Seq<Argument> {
    Seq::new(v.len(), |i: int| *v[i])
}

/// A column width grown to hold a label of `len` bytes, and never beyond 40.
pub open spec fn widened(width: nat, len: nat) -> nat {
    let larger = if width >= len { width } else { len };
    if larger <= 40 { larger } else { 40 }
}

/// The bytes that an argument's label takes in a help column.
pub open spec fn label_len(name: Seq<char>) -> nat {
    if byte_len(name) == 1 {
        2
    } else {
        byte_len(name) + 2
    }
}

/// `width` grown by the names of `subs`, one after another.
pub open spec fn width_over_commands(width: nat, subs: Seq<Command>) -> nat
    decreases subs.len(),
{
    if subs.len() == 0 {
        width
    } else {
        widened(width_over_commands(width, subs.drop_last()), byte_len(subs.last().name@))
    }
}

/// `width` grown by the labels of `args`, one after another.
pub open spec fn width_over_arguments(width: nat, args: Seq<Argument>) -> nat
    decreases args.len(),
{
    if args.len() == 0 {
        width
    } else {
        widened(width_over_arguments(width, args.drop_last()), label_len(args.last().name@))
    }
}

impl Command {
    /// The subcommands of a dispatcher; none for a leaf.
    pub open spec fn subcommands(&self) -> Seq<Command> {
        match self.children {
            Children::Subcmds(subs) => subs@,
            Children::Body(_) => Seq::empty(),
        }
    }

    /// The command as it is typed: its path with blanks between the names.
    pub open spec fn path_text(&self) -> Seq<char> {
        joined(texts(self.path@), " "@)
    }

    /// The width of the first column of the command's help listings.
    pub open spec fn max_width(&self) -> nat {
        width_over_arguments(width_over_commands(10, self.subcommands()), self.arguments@)
    }

    /// The name of the command's shell function: the bare name at the top
    /// level, else the path between underscores.
    pub fn get_mangled_function_name(&self) -> (res: String)
        ensures
            res@ == mangled(texts(self.path@)),
    {
        if self.path.len() == 1 {
            self.path[0].clone()
        } else {
            let mut out = String::from_str("_");
            let inner = join(&self.path, "_");
            out.append(inner.as_str());
            out.append("_");
            out
        }
    }

    /// The command as it is typed.
    pub fn get_command_path_string(&self) -> (res: String)
        ensures
            res@ == self.path_text(),
    {
        join(&self.path, " ")
    }

    /// The positional arguments, in declaration order.
    pub fn get_positional_arguments(&self) -> (res: Vec<&Argument>)
        ensures
            referred(res@) == positional(self.arguments@),
    {
        let mut out: Vec<&Argument> = Vec::new();
        let mut i: usize = 0;
        while i < self.arguments.len()
            invariant
                i <= self.arguments.len(),
                referred(out@) == positional(self.arguments@.take(i as int)),
            decreases self.arguments.len() - i,
        {
            proof {
                reveal(Seq::filter);
                assert(self.arguments@.take(i + 1).drop_last() =~= self.arguments@.take(i as int));
            }
            let ghost before = referred(out@);
            if self.arguments[i].option.is_none() {
                out.push(&self.arguments[i]);
                assert(referred(out@) =~= before.push(self.arguments@[i as int]));
            }
            i += 1;
        }
        proof {
            assert(self.arguments@.take(self.arguments.len() as int) =~= self.arguments@);
        }
        out
    }

    /// The flags, in declaration order.
    pub fn get_optional_arguments(&self) -> (res: Vec<&Argument>)
        ensures
            referred(res@) == optional(self.arguments@),
    {
        let mut out: Vec<&Argument> = Vec::new();
        let mut i: usize = 0;
        while i < self.arguments.len()
            invariant
                i <= self.arguments.len(),
                referred(out@) == optional(self.arguments@.take(i as int)),
            decreases self.arguments.len() - i,
        {
            proof {
                reveal(Seq::filter);
                assert(self.arguments@.take(i + 1).drop_last() =~= self.arguments@.take(i as int));
            }
            let ghost before = referred(out@);
            if self.arguments[i].option.is_some() {
                out.push(&self.arguments[i]);
                assert(referred(out@) =~= before.push(self.arguments@[i as int]));
            }
            i += 1;
        }
        proof {
            assert(self.arguments@.take(self.arguments.len() as int) =~= self.arguments@);
        }
        out
    }

    /// The width of the first column of the command's help listings: that
    /// of the longest label, at least 10 and at most 40.
    pub fn get_max_width(&self) -> (res: usize)
        ensures
            res == self.max_width(),
            10 <= res <= 40,
    {
        let mut width: usize = 10;
        if let Children::Subcmds(subs) = &self.children {
            let mut i: usize = 0;
            while i < subs.len()
                invariant
                    i <= subs.len(),
                    10 <= width <= 40,
                    width == width_over_commands(10, subs@.take(i as int)),
                decreases subs.len() - i,
            {
                proof {
                    assert(subs@.take(i + 1).drop_last() =~= subs@.take(i as int));
                }
                width = widen(width, subs[i].name.as_str().as_bytes().len());
                i += 1;
            }
            proof {
                assert(subs@.take(subs.len() as int) =~= subs@);
            }
        }
        let ghost base = width;
        let mut j: usize = 0;
        while j < self.arguments.len()
            invariant
                j <= self.arguments.len(),
                10 <= width <= 40,
                width == width_over_arguments(base as nat, self.arguments@.take(j as int)),
            decreases self.arguments.len() - j,
        {
            proof {
                assert(self.arguments@.take(j + 1).drop_last() =~= self.arguments@.take(j as int));
            }
            let n: usize = self.arguments[j].name.as_str().as_bytes().len();
            let len: usize = if n == 1 {
                2
            } else if n >= 38 {
                40
            } else {
                n + 2
            };
            width = widen(width, len);
            j += 1;
        }
        proof {
            assert(self.arguments@.take(self.arguments.len() as int) =~= self.arguments@);
        }
        width
    }
}

/// A length, or 40 where it is more.
pub open spec fn capped(len: nat) -> nat {
    if len <= 40 {
        len
    } else {
        40
    }
}

proof fn lemma_width_over_commands(width: nat, subs: Seq<Command>)
    requires
        width <= 40,
    ensures
        width <= width_over_commands(width, subs) <= 40,
        forall|i: int|
            0 <= i < subs.len() ==> width_over_commands(width, subs) >= capped(
                byte_len((#[trigger] subs[i]).name@),
            ),
        width_over_commands(width, subs) == width || exists|i: int|
            0 <= i < subs.len() && width_over_commands(width, subs) == capped(
                byte_len((#[trigger] subs[i]).name@),
            ),
    decreases subs.len(),
{
    if subs.len() > 0 {
        let rest = subs.drop_last();
        lemma_width_over_commands(width, rest);
        let before = width_over_commands(width, rest);
        let after = width_over_commands(width, subs);
        assert forall|i: int| 0 <= i < subs.len() implies after >= capped(
            byte_len((#[trigger] subs[i]).name@),
        ) by {
            if i < rest.len() {
                assert(rest[i] == subs[i]);
            }
        }
        if after != width {
            if after == before {
                let i = choose|i: int|
                    0 <= i < rest.len() && before == capped(byte_len((#[trigger] rest[i]).name@));
                assert(rest[i] == subs[i]);
            } else {
                assert(after == capped(byte_len(subs[subs.len() - 1].name@)));
            }
        }
    }
}

proof fn lemma_width_over_arguments(width: nat, args: Seq<Argument>)
    requires
        width <= 40,
    ensures
        width <= width_over_arguments(width, args) <= 40,
        forall|i: int|
            0 <= i < args.len() ==> width_over_arguments(width, args) >= capped(
                label_len((#[trigger] args[i]).name@),
            ),
        width_over_arguments(width, args) == width || exists|i: int|
            0 <= i < args.len() && width_over_arguments(width, args) == capped(
                label_len((#[trigger] args[i]).name@),
            ),
    decreases args.len(),
{
    if args.len() > 0 {
        let rest = args.drop_last();
        lemma_width_over_arguments(width, rest);
        let before = width_over_arguments(width, rest);
        let after = width_over_arguments(width, args);
        assert forall|i: int| 0 <= i < args.len() implies after >= capped(
            label_len((#[trigger] args[i]).name@),
        ) by {
            if i < rest.len() {
                assert(rest[i] == args[i]);
            }
        }
        if after != width {
            if after == before {
                let i = choose|i: int|
                    0 <= i < rest.len() && before == capped(label_len((#[trigger] rest[i]).name@));
                assert(rest[i] == args[i]);
            } else {
                assert(after == capped(label_len(args[args.len() - 1].name@)));
            }
        }
    }
}

/// The column of a command's help listings is as wide as the widest of
/// its labels, each taken as at most 40 wide: the help flag's label of 10,
/// the names of the subcommands, and the labels of the arguments.
pub proof fn lemma_max_width_is_the_widest_label(cmd: Command)
    ensures
        10 <= cmd.max_width() <= 40,
        forall|i: int|
            0 <= i < cmd.subcommands().len() ==> cmd.max_width() >= capped(
                byte_len((#[trigger] cmd.subcommands()[i]).name@),
            ),
        forall|i: int|
            0 <= i < cmd.arguments@.len() ==> cmd.max_width() >= capped(
                label_len((#[trigger] cmd.arguments@[i]).name@),
            ),
        cmd.max_width() == 10 || (exists|i: int|
            0 <= i < cmd.subcommands().len() && cmd.max_width() == capped(
                byte_len((#[trigger] cmd.subcommands()[i]).name@),
            )) || (exists|i: int|
            0 <= i < cmd.arguments@.len() && cmd.max_width() == capped(
                label_len((#[trigger] cmd.arguments@[i]).name@),
            )),
{
    lemma_width_over_commands(10, cmd.subcommands());
    lemma_width_over_arguments(width_over_commands(10, cmd.subcommands()), cmd.arguments@);
}

fn widen(width: usize, len: usize) -> (res: usize)
    ensures
        res == widened(width as nat, len as nat),
{
    let larger: usize = if width >= len { width } else { len };
    if larger <= 40 { larger } else { 40 }
}

/// Whether an optional string and another hold the same text, or both none.
pub open spec fn same_text(a: Option<String>, b: Option<String>) -> bool {
    match (a, b) {
        (Some(x), Some(y)) => x@ == y@,
        (None, None) => true,
        _ => false,
    }
}

impl DefaultValue {
    /// A copy of the value.
    pub fn copy(&self) -> (res: DefaultValue)
        ensures
            res == *self,
    {
        match self {
            DefaultValue::Bool(b) => DefaultValue::Bool(*b),
            DefaultValue::Null => DefaultValue::Null,
            DefaultValue::Literal(t) => DefaultValue::Literal(t.clone()),
        }
    }
}

impl Argument {
    /// The name that an entry declares, with its arity mark: the name of a
    /// property, or the value of an argument as KDL writes it.
    pub open spec fn declared(entry: Entry) -> Seq<char> {
        match entry.name {
            Some(n) => n@,
            None => entry.text@,
        }
    }

    /// The arity of the argument that an entry declares: a property takes
    /// at most one value unless it is marked to take any number.
    pub open spec fn arity(entry: Entry) -> ArgPrefix {
        let marked = ArgPrefix::of(Argument::declared(entry));
        if entry.name is Some && marked != ArgPrefix::ZeroMore {
            ArgPrefix::ZeroOne
        } else {
            marked
        }
    }

    /// Whether this is the argument that the entry declares. A property
    /// declares a flag with the property's value as its default, an
    /// argument declares a positional argument. The help text is the
    /// entry's type annotation, or else the name in upper case, in both
    /// cases without quotes around it.
    pub open spec fn parsed_from(&self, entry: Entry) -> bool {
        &&& self.name@ == ArgPrefix::bare(Argument::declared(entry))
        &&& self.prefix == Argument::arity(entry)
        &&& self.option == (if entry.name is Some {
            Some(entry.value)
        } else {
            None
        })
        &&& self.help@ == (match entry.ty {
            Some(t) => trimmed(t@),
            None => trimmed(uppercased(self.name@)),
        })
    }

    /// Reads an argument from the entry that declares it.
    pub fn parse(entry: &Entry) -> (res: Argument)
        ensures
            res.parsed_from(*entry),
    {
        let (option, declared) = match &entry.name {
            Some(n) => (Some(entry.value.copy()), n.clone()),
            None => (None, entry.text.clone()),
        };
        let (marked, name) = ArgPrefix::extract(declared.as_str());
        let help = match &entry.ty {
            Some(t) => trim_quotes(t.as_str()),
            None => trim_quotes(uppercase(name.as_str()).as_str()),
        };
        let prefix = match (&option, &marked) {
            (Some(_), ArgPrefix::ZeroMore) => marked,
            (Some(_), _) => ArgPrefix::ZeroOne,
            (None, _) => marked,
        };
        Argument { name, help, prefix, option }
    }
}

/// Whether the arguments are, one by one, those that the entries declare.
pub open spec fn arguments_parsed(args: Seq<Argument>, entries: Seq<Entry>) -> bool {
    &&& args.len() == entries.len()
    &&& forall|i: int| 0 <= i < args.len() ==> (#[trigger] args[i]).parsed_from(entries[i])
}

/// The values of the given entries as KDL writes them.
pub open spec fn entry_texts(entries: Seq<Entry>) -> Seq<Seq<char>> {
    Seq::new(entries.len(), |i: int| entries[i].text@)
}

/// The shell line that a node of a command's body stands for: its name and
/// the values of its entries, with single blanks between them.
pub open spec fn body_line_of(node: Node) -> Seq<char> {
    joined(seq![node.name@] + entry_texts(node.entries@), " "@)
}

/// The shell lines that the nodes of a command's body stand for.
pub open spec fn body_of(nodes: Seq<Node>) -> Seq<Seq<char>> {
    Seq::new(nodes.len(), |i: int| body_line_of(nodes[i]))
}

/// Whether one of the nodes has a children block of its own.
pub open spec fn has_nested(nodes: Seq<Node>) -> bool {
    exists|i: int| 0 <= i < nodes.len() && (#[trigger] nodes[i]).children is Some
}

/// The path that a command is parsed under, as texts; empty at the top.
pub open spec fn parent_path(path: Option<Vec<String>>) -> Seq<Seq<char>> {
    match path {
        Some(p) => texts(p@),
        None => Seq::empty(),
    }
}

fn copy_path(path: &Vec<String>) -> (res: Vec<String>)
    ensures
        texts(res@) == texts(path@),
{
    let mut out: Vec<String> = Vec::new();
    let mut i: usize = 0;
    while i < path.len()
        invariant
            i <= path.len(),
            texts(out@) == texts(path@).take(i as int),
        decreases path.len() - i,
    {
        proof {
            lemma_texts_push(out@, path@[i as int]);
        }
        out.push(path[i].clone());
        assert(texts(out@) =~= texts(path@).take(i + 1));
        i += 1;
    }
    assert(texts(path@).take(path.len() as int) =~= texts(path@));
    out
}

fn any_nested(nodes: &Vec<Node>) -> (res: bool)
    ensures
        res == has_nested(nodes@),
{
    let mut i: usize = 0;
    while i < nodes.len()
        invariant
            i <= nodes.len(),
            forall|k: int| 0 <= k < i ==> (#[trigger] nodes@[k]).children is None,
        decreases nodes.len() - i,
    {
        if nodes[i].children.is_some() {
            return true;
        }
        i += 1;
    }
    false
}

impl Command {
    /// Whether this is the command that the node declares, below the
    /// commands named by `parent`. The node's name gives the chaining and
    /// the name, its type annotation the description, its entries the
    /// arguments. A node one of whose children has children of its own
    /// declares a dispatcher, and each child a subcommand; any other node
    /// declares a leaf, and each child a line of its body.
    pub open spec fn parsed_from(&self, node: Node, parent: Seq<Seq<char>>) -> bool
        decreases self,
    {
        &&& self.name@ == CmdPrefix::bare(node.name@)
        &&& self.prefix == CmdPrefix::of(node.name@)
        &&& same_text(self.description, node.ty)
        &&& texts(self.path@) == parent.push(self.name@)
        &&& arguments_parsed(self.arguments@, node.entries@)
        &&& match self.children {
            Children::Subcmds(subs) => {
                &&& node.children matches Some(kids)
                &&& has_nested(kids@)
                &&& subs@.len() == kids@.len()
                &&& forall|i: int|
                    0 <= i < subs@.len() ==> (#[trigger] subs@[i]).parsed_from(
                        kids@[i],
                        texts(self.path@),
                    )
            },
            Children::Body(lines) => match node.children {
                Some(kids) => !has_nested(kids@) && texts(lines@) == body_of(kids@),
                None => lines@.len() == 0,
            },
        }
    }

    /// Reads a command from the node that declares it, with everything
    /// below it. `path` names the commands above it, from the top.
    pub fn parse(node: &Node, path: Option<Vec<String>>) -> (res: Command)
        ensures
            res.parsed_from(*node, parent_path(path)),
            res.paths_consistent(),
        decreases node,
    {
        let (prefix, name) = CmdPrefix::extract(node.name.as_str());
        let ghost parent = parent_path(path);
        let mut path = match path {
            Some(p) => p,
            None => Vec::new(),
        };
        path.push(name.clone());
        assert(texts(path@) =~= parent.push(name@));
        let description = match &node.ty {
            Some(t) => Some(t.clone()),
            None => None,
        };
        let mut arguments: Vec<Argument> = Vec::new();
        let mut i: usize = 0;
        while i < node.entries.len()
            invariant
                i <= node.entries.len(),
                arguments_parsed(arguments@, node.entries@.take(i as int)),
            decreases node.entries.len() - i,
        {
            arguments.push(Argument::parse(&node.entries[i]));
            i += 1;
        }
        assert(node.entries@.take(node.entries.len() as int) =~= node.entries@);
        let children = match &node.children {
            Some(kids) => {
                if any_nested(kids) {
                    let mut subs: Vec<Command> = Vec::new();
                    let mut k: usize = 0;
                    while k < kids.len()
                        invariant
                            k <= kids.len(),
                            node.children == Some(*kids),
                            subs@.len() == k,
                            forall|j: int|
                                0 <= j < k ==> (#[trigger] subs@[j]).parsed_from(
                                    kids@[j],
                                    texts(path@),
                                ),
                        decreases kids.len() - k,
                    {
                        proof {
                            vstd::std_specs::vec::axiom_vec_index_decreases(*kids, k as int);
                            assert(decreases_to!(node.children => node.children->Some_0));
                        }
                        subs.push(Command::parse(&kids[k], Some(copy_path(&path))));
                        k += 1;
                    }
                    Children::Subcmds(subs)
                } else {
                    Children::Body(Command::parse_command_body(kids))
                }
            },
            None => Children::Body(Vec::new()),
        };
        let res = Command { name, prefix, description, arguments, children, path };
        proof {
            lemma_parsed_paths_consistent(res, *node, parent);
        }
        res
    }

    /// The shell lines that the nodes of a command's body stand for.
    pub fn parse_command_body(children: &Vec<Node>) -> (res: Vec<String>)
        ensures
            texts(res@) == body_of(children@),
    {
        let mut command_lines: Vec<String> = Vec::new();
        let mut i: usize = 0;
        while i < children.len()
            invariant
                i <= children.len(),
                texts(command_lines@) == body_of(children@).take(i as int),
            decreases children.len() - i,
        {
            let node = &children[i];
            let mut parts: Vec<String> = Vec::new();
            proof {
                lemma_texts_push(parts@, node.name);
            }
            parts.push(node.name.clone());
            assert(texts(parts@) =~= seq![node.name@] + entry_texts(node.entries@).take(0));
            let mut j: usize = 0;
            while j < node.entries.len()
                invariant
                    j <= node.entries.len(),
                    texts(parts@) == seq![node.name@] + entry_texts(node.entries@).take(j as int),
                decreases node.entries.len() - j,
            {
                proof {
                    lemma_texts_push(parts@, node.entries@[j as int].text);
                }
                parts.push(node.entries[j].text.clone());
                assert(texts(parts@) =~= seq![node.name@] + entry_texts(node.entries@).take(
                    j + 1,
                ));
                j += 1;
            }
            assert(entry_texts(node.entries@).take(node.entries.len() as int) =~= entry_texts(
                node.entries@,
            ));
            let line = join(&parts, " ");
            proof {
                lemma_texts_push(command_lines@, line);
            }
            command_lines.push(line);
            assert(texts(command_lines@) =~= body_of(children@).take(i + 1));
            i += 1;
        }
        assert(body_of(children@).take(children.len() as int) =~= body_of(children@));
        command_lines
    }
}

} // verus!
