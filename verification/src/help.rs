//! Usage lines and help blocks, derived from a command.

use vstd::prelude::*;
use vstd::string::*;
use crate::parser::{
    byte_len, optional, positional, referred, ArgPrefix, Argument, Children, Command,
    DefaultValue, COMMAND, OPTIONS, RESET, TITLE,
};
use crate::text::{join, joined, pad, padded, texts};

verus! {

/// A flag as it is typed: one dash before a one-byte name, two before a
/// longer one.
pub open spec fn flag(name: Seq<char>) -> Seq<char> {
    if byte_len(name) == 1 {
        "-"@ + name
    } else {
        "--"@ + name
    }
}

/// How a positional argument appears in a usage line.
pub open spec fn positional_form(a: Argument) -> Seq<char> {
    match a.prefix {
        ArgPrefix::ExactlyOne => "<"@ + a.name@ + ">"@,
        ArgPrefix::ZeroMore => "[<"@ + a.name@ + "> ...]"@,
        ArgPrefix::OneMore => "<"@ + a.name@ + "> [<"@ + a.name@ + "> ...]"@,
        ArgPrefix::ZeroOne => "[<"@ + a.name@ + ">]"@,
    }
}

/// Whether the argument is a switch: a flag whose default is a truth value.
pub open spec fn is_switch(a: Argument) -> bool {
    a.option matches Some(DefaultValue::Bool(_))
}

/// How a flag appears in a usage line.
pub open spec fn flag_form(a: Argument) -> Seq<char> {
    if is_switch(a) {
        "["@ + flag(a.name@) + "]"@
    } else {
        "["@ + flag(a.name@) + " <"@ + a.name@ + ">]"@
    }
}

/// The last piece of a usage line: a dispatcher asks for a subcommand, a
/// leaf offers the help flag.
pub open spec fn usage_end(cmd: Command) -> Seq<char> {
    if cmd.children is Subcmds {
        "<subcommand>"@
    } else {
        "[-h|--help]"@
    }
}

/// The pieces of a usage line after the command path: the positional
/// arguments, then the flags, each in declaration order, then the last
/// piece.
pub open spec fn usage_parts(cmd: Command) -> Seq<Seq<char>> {
    positional(cmd.arguments@).map_values(|a: Argument| positional_form(a)) + optional(
        cmd.arguments@,
    ).map_values(|a: Argument| flag_form(a)) + seq![usage_end(cmd)]
}

/// The usage line of a command.
pub open spec fn usage_text(cmd: Command) -> Seq<char> {
    COMMAND@ + cmd.path_text() + " "@ + OPTIONS@ + joined(usage_parts(cmd), " "@) + RESET@
}

/// One line of a help listing: the label in its column, then the text.
pub open spec fn row(label: Seq<char>, width: nat, text: Seq<char>) -> Seq<char> {
    "  "@ + COMMAND@ + padded(label, width) + RESET@ + "  "@ + text + "\n"@
}

/// The description of a command; empty where it has none.
pub open spec fn description_text(cmd: Command) -> Seq<char> {
    match cmd.description {
        Some(d) => d@,
        None => Seq::empty(),
    }
}

/// The listing of subcommands: one row each, name and description.
pub open spec fn command_rows(subs: Seq<Command>, width: nat) -> Seq<char>
    decreases subs.len(),
{
    if subs.len() == 0 {
        Seq::empty()
    } else {
        command_rows(subs.drop_last(), width) + row(
            subs.last().name@,
            width,
            description_text(subs.last()),
        )
    }
}

/// The listing of positional arguments: one row each, name and help text.
pub open spec fn positional_rows(args: Seq<Argument>, width: nat) -> Seq<char>
    decreases args.len(),
{
    if args.len() == 0 {
        Seq::empty()
    } else {
        positional_rows(args.drop_last(), width) + row(args.last().name@, width, args.last().help@)
    }
}

/// The listing of flags: one row each, the flag as typed and its help text.
pub open spec fn flag_rows(args: Seq<Argument>, width: nat) -> Seq<char>
    decreases args.len(),
{
    if args.len() == 0 {
        Seq::empty()
    } else {
        flag_rows(args.drop_last(), width) + row(
            flag(args.last().name@),
            width,
            args.last().help@,
        )
    }
}

/// The description paragraph that opens a help block, if there is one.
pub open spec fn help_intro(cmd: Command) -> Seq<char> {
    match cmd.description {
        Some(d) => d@ + "\n\n"@,
        None => Seq::empty(),
    }
}

/// The "Commands" section of a dispatcher's help block.
pub open spec fn help_commands(cmd: Command) -> Seq<char> {
    match cmd.children {
        Children::Subcmds(subs) => "\n"@ + TITLE@ + "Commands:"@ + RESET@ + "\n"@ + command_rows(
            subs@,
            cmd.max_width(),
        ),
        Children::Body(_) => Seq::empty(),
    }
}

/// The "Positional arguments" section, left out where there are none.
pub open spec fn help_positional(cmd: Command) -> Seq<char> {
    if positional(cmd.arguments@).len() == 0 {
        Seq::empty()
    } else {
        "\n"@ + TITLE@ + "Positional arguments:"@ + RESET@ + "\n"@ + positional_rows(
            positional(cmd.arguments@),
            cmd.max_width(),
        )
    }
}

/// The "Options" section, which always ends with the help flag.
pub open spec fn help_options(cmd: Command) -> Seq<char> {
    "\n"@ + TITLE@ + "Options:"@ + RESET@ + "\n"@ + flag_rows(
        optional(cmd.arguments@),
        cmd.max_width(),
    ) + row("-h, --help"@, cmd.max_width(), "Show help information"@)
}

/// The help block of a command.
pub open spec fn help_text(cmd: Command) -> Seq<char> {
    help_intro(cmd) + TITLE@ + "Usage:"@ + RESET@ + " "@ + usage_text(cmd) + "\n"@
        + help_commands(cmd) + help_positional(cmd) + help_options(cmd)
}

fn push_row(out: &mut String, label: &str, width: usize, text: &str)
    ensures
        final(out)@ == old(out)@ + row(label@, width as nat, text@),
{
    out.append("  ");
    out.append(COMMAND);
    out.append(pad(label, width).as_str());
    out.append(RESET);
    out.append("  ");
    out.append(text);
    out.append("\n");
    assert(out@ =~= old(out)@ + row(label@, width as nat, text@));
}

fn push_title(out: &mut String, title: &str)
    ensures
        final(out)@ == old(out)@ + ("\n"@ + TITLE@ + title@ + RESET@ + "\n"@),
{
    out.append("\n");
    out.append(TITLE);
    out.append(title);
    out.append(RESET);
    out.append("\n");
    assert(out@ =~= old(out)@ + ("\n"@ + TITLE@ + title@ + RESET@ + "\n"@));
}

/// Writes a flag as it is typed.
pub fn flag_name(name: &str) -> (res: String)
    ensures
        res@ == flag(name@),
{
    let mut out = if name.as_bytes().len() == 1 {
        String::from_str("-")
    } else {
        String::from_str("--")
    };
    out.append(name);
    out
}

/// Tells a switch from a flag that takes a value.
pub fn is_switch_argument(arg: &Argument) -> (res: bool)
    ensures
        res == is_switch(*arg),
{
    match &arg.option {
        Some(DefaultValue::Bool(_)) => true,
        _ => false,
    }
}

fn positional_usage(arg: &Argument) -> (res: String)
    ensures
        res@ == positional_form(*arg),
{
    let name = arg.name.as_str();
    match arg.prefix {
        ArgPrefix::ExactlyOne => {
            let mut out = String::from_str("<");
            out.append(name);
            out.append(">");
            out
        },
        ArgPrefix::ZeroMore => {
            let mut out = String::from_str("[<");
            out.append(name);
            out.append("> ...]");
            out
        },
        ArgPrefix::OneMore => {
            let mut out = String::from_str("<");
            out.append(name);
            out.append("> [<");
            out.append(name);
            out.append("> ...]");
            out
        },
        ArgPrefix::ZeroOne => {
            let mut out = String::from_str("[<");
            out.append(name);
            out.append(">]");
            out
        },
    }
}

fn flag_usage(arg: &Argument) -> (res: String)
    ensures
        res@ == flag_form(*arg),
{
    let label = flag_name(arg.name.as_str());
    let mut out = String::from_str("[");
    out.append(label.as_str());
    if is_switch_argument(arg) {
        out.append("]");
    } else {
        out.append(" <");
        out.append(arg.name.as_str());
        out.append(">]");
    }
    out
}

impl Command {
    /// The usage line: the command path, the positional arguments, the
    /// flags, and at the end the help flag or, for a dispatcher, the
    /// placeholder for a subcommand.
    pub fn get_usage_string(&self) -> (res: String)
        ensures
            res@ == usage_text(*self),
    {
        let mut args: Vec<String> = Vec::new();
        let ghost pos_form = |a: Argument| positional_form(a);
        let ghost opt_form = |a: Argument| flag_form(a);
        let mut i: usize = 0;
        while i < self.arguments.len()
            invariant
                i <= self.arguments.len(),
                pos_form == |a: Argument| positional_form(a),
                texts(args@) == positional(self.arguments@.take(i as int)).map_values(pos_form),
            decreases self.arguments.len() - i,
        {
            proof {
                reveal(Seq::filter);
                assert(self.arguments@.take(i + 1).drop_last() =~= self.arguments@.take(i as int));
            }
            let ghost before = texts(args@);
            if self.arguments[i].option.is_none() {
                args.push(positional_usage(&self.arguments[i]));
                assert(texts(args@) =~= before.push(positional_form(self.arguments@[i as int])));
                assert(texts(args@) =~= positional(self.arguments@.take(i + 1)).map_values(
                    pos_form,
                ));
            }
            i += 1;
        }
        proof {
            assert(self.arguments@.take(self.arguments.len() as int) =~= self.arguments@);
        }
        let ghost middle = texts(args@);
        let mut j: usize = 0;
        while j < self.arguments.len()
            invariant
                j <= self.arguments.len(),
                opt_form == |a: Argument| flag_form(a),
                texts(args@) == middle + optional(self.arguments@.take(j as int)).map_values(
                    opt_form,
                ),
            decreases self.arguments.len() - j,
        {
            proof {
                reveal(Seq::filter);
                assert(self.arguments@.take(j + 1).drop_last() =~= self.arguments@.take(j as int));
            }
            let ghost before = texts(args@);
            if self.arguments[j].option.is_some() {
                args.push(flag_usage(&self.arguments[j]));
                assert(texts(args@) =~= before.push(flag_form(self.arguments@[j as int])));
                assert(texts(args@) =~= middle + optional(
                    self.arguments@.take(j + 1),
                ).map_values(opt_form));
            }
            j += 1;
        }
        proof {
            assert(self.arguments@.take(self.arguments.len() as int) =~= self.arguments@);
        }
        let ghost before = texts(args@);
        match &self.children {
            Children::Subcmds(_) => args.push(String::from_str("<subcommand>")),
            Children::Body(_) => args.push(String::from_str("[-h|--help]")),
        }
        assert(texts(args@) =~= before + seq![usage_end(*self)]);
        assert(texts(args@) =~= usage_parts(*self));

        let mut out = String::from_str(COMMAND);
        out.append(self.get_command_path_string().as_str());
        out.append(" ");
        out.append(OPTIONS);
        out.append(join(&args, " ").as_str());
        out.append(RESET);
        out
    }

    /// The help block: description, usage line, and the listings of
    /// subcommands, positional arguments and options.
    pub fn get_help_string(&self) -> (res: String)
        ensures
            res@ == help_text(*self),
    {
        let width = self.get_max_width();
        let mut out = String::new();
        if let Some(desc) = &self.description {
            out.append(desc.as_str());
            out.append("\n\n");
        }
        assert(out@ =~= help_intro(*self));
        out.append(TITLE);
        out.append("Usage:");
        out.append(RESET);
        out.append(" ");
        out.append(self.get_usage_string().as_str());
        out.append("\n");
        self.push_help_commands(&mut out, width);
        self.push_help_positional(&mut out, width);
        self.push_help_options(&mut out, width);
        out
    }

    fn push_help_commands(&self, out: &mut String, width: usize)
        requires
            width == self.max_width(),
        ensures
            final(out)@ == old(out)@ + help_commands(*self),
    {
        if let Children::Subcmds(subs) = &self.children {
            push_title(out, "Commands:");
            let ghost start = out@;
            let mut i: usize = 0;
            while i < subs.len()
                invariant
                    i <= subs.len(),
                    out@ == start + command_rows(subs@.take(i as int), width as nat),
                decreases subs.len() - i,
            {
                proof {
                    assert(subs@.take(i + 1).drop_last() =~= subs@.take(i as int));
                }
                let ghost before = out@;
                match &subs[i].description {
                    Some(d) => push_row(out, subs[i].name.as_str(), width, d.as_str()),
                    None => {
                        proof {
                            reveal_strlit("");
                            assert(""@ =~= Seq::<char>::empty());
                        }
                        push_row(out, subs[i].name.as_str(), width, "")
                    },
                }
                assert(out@ == before + row(
                    subs@[i as int].name@,
                    width as nat,
                    description_text(subs@[i as int]),
                ));
                assert(out@ =~= start + command_rows(subs@.take(i + 1), width as nat));
                i += 1;
            }
            proof {
                assert(subs@.take(subs.len() as int) =~= subs@);
                assert(out@ =~= old(out)@ + help_commands(*self));
            }
        } else {
            assert(out@ =~= old(out)@ + help_commands(*self));
        }
    }

    fn push_help_positional(&self, out: &mut String, width: usize)
        requires
            width == self.max_width(),
        ensures
            final(out)@ == old(out)@ + help_positional(*self),
    {
        let pos_args = self.get_positional_arguments();
        if pos_args.len() > 0 {
            push_title(out, "Positional arguments:");
            let ghost start = out@;
            let ghost all = referred(pos_args@);
            let mut i: usize = 0;
            while i < pos_args.len()
                invariant
                    i <= pos_args.len(),
                    all == referred(pos_args@),
                    out@ == start + positional_rows(all.take(i as int), width as nat),
                decreases pos_args.len() - i,
            {
                proof {
                    assert(all.take(i + 1).drop_last() =~= all.take(i as int));
                    assert(all.take(i + 1).last() == *pos_args@[i as int]);
                }
                push_row(out, pos_args[i].name.as_str(), width, pos_args[i].help.as_str());
                assert(out@ =~= start + positional_rows(all.take(i + 1), width as nat));
                i += 1;
            }
            proof {
                assert(all.take(pos_args.len() as int) =~= all);
                assert(out@ =~= old(out)@ + help_positional(*self));
            }
        } else {
            assert(out@ =~= old(out)@ + help_positional(*self));
        }
    }

    fn push_help_options(&self, out: &mut String, width: usize)
        requires
            width == self.max_width(),
        ensures
            final(out)@ == old(out)@ + help_options(*self),
    {
        let opt_args = self.get_optional_arguments();
        push_title(out, "Options:");
        let ghost start = out@;
        let ghost all = referred(opt_args@);
        let mut i: usize = 0;
        while i < opt_args.len()
            invariant
                i <= opt_args.len(),
                all == referred(opt_args@),
                out@ == start + flag_rows(all.take(i as int), width as nat),
            decreases opt_args.len() - i,
        {
            proof {
                assert(all.take(i + 1).drop_last() =~= all.take(i as int));
                assert(all.take(i + 1).last() == *opt_args@[i as int]);
            }
            let label = flag_name(opt_args[i].name.as_str());
            push_row(out, label.as_str(), width, opt_args[i].help.as_str());
            assert(out@ =~= start + flag_rows(all.take(i + 1), width as nat));
            i += 1;
        }
        proof {
            assert(all.take(opt_args.len() as int) =~= all);
        }
        push_row(out, "-h, --help", width, "Show help information");
        assert(out@ =~= old(out)@ + help_options(*self));
    }
}

} // verus!
