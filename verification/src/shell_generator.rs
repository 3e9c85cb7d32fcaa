//! The shell functions that parse a command line: one per command, a
//! dispatcher for a command with subcommands and an argument loop for a leaf.

use vstd::prelude::*;
use vstd::string::*;
use crate::completion::{completion_function, generate_autocompletion};
use crate::help::{flag, flag_name, help_text, usage_text};
use crate::parser::{
    mangled, optional, positional, referred, ArgPrefix, Argument, Children, CmdPrefix, Command,
    DefaultValue, ERROR, RESET, TITLE,
};
use crate::text::{decimal, escape_printf, escaped, number_text, texts, truth, truth_text};

verus! {

/// The three lines that report an error of the generated program: the
/// message, the usage line and a hint, each written to standard error.
pub open spec fn error_message(msg: Seq<char>, cmd: Command, indent: Seq<char>) -> Seq<char> {
    indent + "printf \""@ + ERROR@ + "Error:"@ + RESET@ + " "@ + msg + "\\n\\n\" >&2\n"@ + indent
        + "printf \""@ + TITLE@ + "Usage:"@ + RESET@ + " "@ + escaped(usage_text(cmd))
        + "\\n\\n\" >&2\n"@ + indent + "printf \"Try '"@ + cmd.path_text()
        + " --help' for more information.\\n\" >&2\n"@
}

/// Writes the lines that report an error, each beginning with `indent`.
pub fn generate_error_message(error_msg: &str, command: &Command, indent: &str) -> (res: String)
    ensures
        res@ == error_message(error_msg@, *command, indent@),
{
    let mut out = String::new();
    out.append(indent);
    out.append("printf \"");
    out.append(ERROR);
    out.append("Error:");
    out.append(RESET);
    out.append(" ");
    out.append(error_msg);
    out.append("\\n\\n\" >&2\n");
    out.append(indent);
    out.append("printf \"");
    out.append(TITLE);
    out.append("Usage:");
    out.append(RESET);
    out.append(" ");
    out.append(escape_printf(command.get_usage_string().as_str()).as_str());
    out.append("\\n\\n\" >&2\n");
    out.append(indent);
    out.append("printf \"Try '");
    out.append(command.get_command_path_string().as_str());
    out.append(" --help' for more information.\\n\" >&2\n");
    out
}

/// A failure branch: the error report, then a return with status 1. The
/// `return` stands `indent` deep, like the report.
pub open spec fn failure(msg: Seq<char>, cmd: Command, indent: Seq<char>) -> Seq<char> {
    error_message(msg, cmd, indent) + indent + "return 1\n"@
}

fn push_failure(out: &mut String, msg: &str, command: &Command, indent: &str)
    ensures
        final(out)@ == old(out)@ + failure(msg@, *command, indent@),
{
    let mut part = generate_error_message(msg, command, indent);
    part.append(indent);
    part.append("return 1\n");
    out.append(part.as_str());
}

/// The branch that answers `-h` and `--help`: it prints the command's help
/// block and returns successfully. `indent` is the depth of the case label.
pub open spec fn help_case(cmd: Command, indent: Seq<char>) -> Seq<char> {
    indent + "-h|--help)\n"@ + indent + "    printf \""@ + escaped(help_text(cmd)) + "\"\n"@
        + indent + "    return\n"@ + indent + "    ;;\n"@
}

fn push_help_case(out: &mut String, command: &Command, indent: &str)
    ensures
        final(out)@ == old(out)@ + help_case(*command, indent@),
{
    let mut part = String::from_str(indent);
    part.append("-h|--help)\n");
    part.append(indent);
    part.append("    printf \"");
    part.append(escape_printf(command.get_help_string().as_str()).as_str());
    part.append("\"\n");
    part.append(indent);
    part.append("    return\n");
    part.append(indent);
    part.append("    ;;\n");
    out.append(part.as_str());
}

/// How a flag's default is written on the right of a shell assignment.
pub open spec fn default_text(value: DefaultValue) -> Seq<char> {
    match value {
        DefaultValue::Bool(b) => truth(b),
        DefaultValue::Null => "\"\""@,
        DefaultValue::Literal(t) => "\""@ + t@ + "\""@,
    }
}

/// Writes a flag's default for the right of a shell assignment.
pub fn format_default_value(value: &DefaultValue) -> (res: String)
    ensures
        res@ == default_text(*value),
{
    match value {
        DefaultValue::Bool(b) => truth_text(*b),
        DefaultValue::Null => String::from_str("\"\""),
        DefaultValue::Literal(t) => {
            let mut out = String::from_str("\"");
            out.append(t.as_str());
            out.append("\"");
            out
        },
    }
}

/// The line that gives an argument's variable its first value: a flag gets
/// its default, a positional argument the empty string.
pub open spec fn variable_init(a: Argument) -> Seq<char> {
    match a.option {
        Some(v) => "    "@ + a.name@ + "="@ + default_text(v) + "\n"@,
        None => "    "@ + a.name@ + "=\"\"\n"@,
    }
}

/// The first values of all arguments, in declaration order.
pub open spec fn variable_inits(args: Seq<Argument>) -> Seq<char>
    decreases args.len(),
{
    if args.len() == 0 {
        Seq::empty()
    } else {
        variable_inits(args.drop_last()) + variable_init(args.last())
    }
}

fn push_variable_inits(out: &mut String, args: &Vec<Argument>)
    ensures
        final(out)@ == old(out)@ + variable_inits(args@),
{
    let mut i: usize = 0;
    assert(out@ =~= old(out)@ + variable_inits(args@.take(0)));
    while i < args.len()
        invariant
            i <= args.len(),
            out@ == old(out)@ + variable_inits(args@.take(i as int)),
        decreases args.len() - i,
    {
        proof {
            assert(args@.take(i + 1).drop_last() =~= args@.take(i as int));
        }
        let ghost before = out@;
        let arg = &args[i];
        out.append("    ");
        out.append(arg.name.as_str());
        match &arg.option {
            Some(v) => {
                out.append("=");
                out.append(format_default_value(v).as_str());
                out.append("\n");
            },
            None => {
                out.append("=\"\"\n");
            },
        }
        assert(out@ =~= before + variable_init(*arg));
        assert(out@ =~= old(out)@ + variable_inits(args@.take(i + 1)));
        i += 1;
    }
    proof {
        assert(args@.take(args.len() as int) =~= args@);
    }
}

/// The branch of the argument loop that takes one flag. A switch is set to
/// the opposite of its declared default; any other flag takes the next token
/// as its value and fails where there is none.
pub open spec fn flag_case(a: Argument, cmd: Command) -> Seq<char> {
    match a.option {
        Some(DefaultValue::Bool(b)) => "            "@ + flag(a.name@) + ")\n"@
            + "                "@ + a.name@ + "="@ + truth(!b) + "\n"@ + "                shift\n"@
            + "                ;;\n"@,
        _ => "            "@ + flag(a.name@) + ")\n"@ + "                if [ $# -lt 2 ]; then\n"@
            + failure(flag(a.name@) + " requires a value"@, cmd, "                    "@)
            + "                fi\n"@ + "                "@ + a.name@ + "=\"$2\"\n"@
            + "                shift 2\n"@ + "                ;;\n"@,
    }
}

/// The branches for the given flags, in order.
pub open spec fn flag_cases(flags: Seq<Argument>, cmd: Command) -> Seq<char>
    decreases flags.len(),
{
    if flags.len() == 0 {
        Seq::empty()
    } else {
        flag_cases(flags.drop_last(), cmd) + flag_case(flags.last(), cmd)
    }
}

fn push_flag_case(out: &mut String, arg: &Argument, command: &Command)
    ensures
        final(out)@ == old(out)@ + flag_case(*arg, *command),
{
    let label = flag_name(arg.name.as_str());
    let mut part = String::from_str("            ");
    part.append(label.as_str());
    part.append(")\n");
    match &arg.option {
        Some(DefaultValue::Bool(b)) => {
            part.append("                ");
            part.append(arg.name.as_str());
            part.append("=");
            part.append(truth_text(!*b).as_str());
            part.append("\n");
            part.append("                shift\n");
            part.append("                ;;\n");
        },
        _ => {
            part.append("                if [ $# -lt 2 ]; then\n");
            let mut msg = label.clone();
            msg.append(" requires a value");
            push_failure(&mut part, msg.as_str(), command, "                    ");
            part.append("                fi\n");
            part.append("                ");
            part.append(arg.name.as_str());
            part.append("=\"$2\"\n");
            part.append("                shift 2\n");
            part.append("                ;;\n");
        },
    }
    out.append(part.as_str());
}

fn push_flag_cases(out: &mut String, flags: &Vec<&Argument>, command: &Command)
    ensures
        final(out)@ == old(out)@ + flag_cases(referred(flags@), *command),
{
    let ghost all = referred(flags@);
    let mut i: usize = 0;
    assert(out@ =~= old(out)@ + flag_cases(all.take(0), *command));
    while i < flags.len()
        invariant
            i <= flags.len(),
            all == referred(flags@),
            out@ == old(out)@ + flag_cases(all.take(i as int), *command),
        decreases flags.len() - i,
    {
        proof {
            assert(all.take(i + 1).drop_last() =~= all.take(i as int));
            assert(all.take(i + 1).last() == *flags@[i as int]);
        }
        push_flag_case(out, flags[i], command);
        assert(out@ =~= old(out)@ + flag_cases(all.take(i + 1), *command));
        i += 1;
    }
    proof {
        assert(all.take(flags.len() as int) =~= all);
    }
}

/// Whether a positional argument must get at least one value.
pub open spec fn is_required(a: Argument) -> bool {
    a.prefix == ArgPrefix::ExactlyOne || a.prefix == ArgPrefix::OneMore
}

/// How many of `args` must get at least one value.
pub open spec fn required_count(args: Seq<Argument>) -> nat {
    args.filter(|a: Argument| is_required(a)).len()
}

/// How many tokens the positional arguments after the one at `index` are
/// sure to need: the number that an optional or repeated argument at `index`
/// has to leave on the command line. None where nothing comes after.
pub open spec fn remaining_required(pos: Seq<Argument>, index: int) -> nat {
    if 0 <= index && index + 1 < pos.len() {
        required_count(pos.skip(index + 1))
    } else {
        0
    }
}

/// Counts the tokens that the positional arguments after `index` are sure
/// to need.
pub fn count_remaining_required(positional_args: &Vec<&Argument>, index: usize) -> (res: usize)
    ensures
        res == remaining_required(referred(positional_args@), index as int),
{
    if index >= positional_args.len() || index + 1 >= positional_args.len() {
        return 0;
    }
    let ghost all = referred(positional_args@);
    let ghost required = |a: Argument| is_required(a);
    let mut count: usize = 0;
    let mut j: usize = index + 1;
    proof {
        reveal(Seq::filter);
        assert(all.subrange(index + 1, j as int) =~= Seq::<Argument>::empty());
    }
    while j < positional_args.len()
        invariant
            index < j <= positional_args.len(),
            all == referred(positional_args@),
            required == |a: Argument| is_required(a),
            count <= j - index - 1,
            count == all.subrange(index + 1, j as int).filter(required).len(),
        decreases positional_args.len() - j,
    {
        proof {
            reveal(Seq::filter);
            assert(all.subrange(index + 1, j + 1).drop_last() =~= all.subrange(
                index + 1,
                j as int,
            ));
            assert(all.subrange(index + 1, j + 1).last() == *positional_args@[j as int]);
        }
        match positional_args[j].prefix {
            ArgPrefix::ExactlyOne | ArgPrefix::OneMore => {
                count += 1;
            },
            _ => {},
        }
        j += 1;
    }
    proof {
        assert(all.subrange(index + 1, positional_args.len() as int) =~= all.skip(index + 1));
    }
    count
}

/// The end of a branch that took one token for a positional argument: the
/// next token belongs to the next argument.
pub open spec fn advance_and_shift() -> Seq<char> {
    "                        _pos_count=$((_pos_count + 1))\n"@ + "                        shift\n"@
        + "                        ;;\n"@
}

/// Appends the end of a branch that took one token.
pub fn advance_position_and_shift(output: &mut String)
    ensures
        final(output)@ == old(output)@ + advance_and_shift(),
{
    let mut part = String::from_str("                        _pos_count=$((_pos_count + 1))\n");
    part.append("                        shift\n");
    part.append("                        ;;\n");
    output.append(part.as_str());
}

/// The branch for an argument that takes exactly one token.
pub open spec fn single_case(index: nat, a: Argument) -> Seq<char> {
    "                    "@ + decimal(index) + ")\n"@ + "                        "@ + a.name@
        + "=\"$1\"\n"@ + advance_and_shift()
}

/// The branch for an argument that takes a token only while more tokens are
/// left than the arguments after it need.
pub open spec fn optional_case(index: nat, a: Argument, remaining: nat) -> Seq<char> {
    "                    "@ + decimal(index) + ")\n"@ + "                        if [ $# -gt "@
        + decimal(remaining) + " ]; then\n"@ + "                            "@ + a.name@
        + "=\"$1\"\n"@ + "                            shift\n"@ + "                        fi\n"@
        + "                        _pos_count=$((_pos_count + 1))\n"@
        + "                        ;;\n"@
}

/// The branch for an argument that takes tokens, joined by single blanks,
/// while more are left than the arguments after it need and the next one
/// does not begin with a dash.
pub open spec fn variadic_case(index: nat, a: Argument, remaining: nat) -> Seq<char> {
    "                    "@ + decimal(index) + ")\n"@ + "                        while [ $# -gt "@
        + decimal(remaining) + " ] && [ \"${1#-}\" = \"$1\" ]; do\n"@
        + "                            if [ -z \"$"@ + a.name@ + "\" ]; then\n"@
        + "                                "@ + a.name@ + "=\"$1\"\n"@
        + "                            else\n"@ + "                                "@ + a.name@
        + "=\"$"@ + a.name@ + " $1\"\n"@ + "                            fi\n"@
        + "                            shift\n"@ + "                        done\n"@
        + "                        _pos_count=$((_pos_count + 1))\n"@
        + "                        ;;\n"@
}

/// The branch for the positional argument at `index`, by its arity.
pub open spec fn positional_case(pos: Seq<Argument>, index: int) -> Seq<char>
    recommends
        0 <= index < pos.len(),
{
    match pos[index].prefix {
        ArgPrefix::ExactlyOne => single_case(index as nat, pos[index]),
        ArgPrefix::ZeroOne => optional_case(
            index as nat,
            pos[index],
            remaining_required(pos, index),
        ),
        ArgPrefix::ZeroMore | ArgPrefix::OneMore => variadic_case(
            index as nat,
            pos[index],
            remaining_required(pos, index),
        ),
    }
}

/// The branches for the first `n` positional arguments.
pub open spec fn positional_cases(pos: Seq<Argument>, n: nat) -> Seq<char>
    decreases n,
{
    if n == 0 {
        Seq::empty()
    } else {
        positional_cases(pos, (n - 1) as nat) + positional_case(pos, n - 1)
    }
}

/// The dispatch on the number of positional arguments already filled, with
/// a failure once all are.
pub open spec fn positional_parsing(pos: Seq<Argument>, cmd: Command) -> Seq<char> {
    "                case \"$_pos_count\" in\n"@ + positional_cases(pos, pos.len())
        + "                    *)\n"@ + failure(
        "Too many arguments"@,
        cmd,
        "                        "@,
    ) + "                        ;;\n"@ + "                esac\n"@
}

/// Appends the branch for an argument that takes exactly one token.
pub fn generate_single_arg_case(output: &mut String, index: usize, arg: &Argument)
    ensures
        final(output)@ == old(output)@ + single_case(index as nat, *arg),
{
    let mut part = String::from_str("                    ");
    part.append(number_text(index).as_str());
    part.append(")\n");
    part.append("                        ");
    part.append(arg.name.as_str());
    part.append("=\"$1\"\n");
    advance_position_and_shift(&mut part);
    output.append(part.as_str());
}

/// Appends the branch for an argument that takes at most one token.
pub fn generate_optional_arg_case(
    output: &mut String,
    index: usize,
    arg: &Argument,
    positional_args: &Vec<&Argument>,
)
    ensures
        final(output)@ == old(output)@ + optional_case(
            index as nat,
            *arg,
            remaining_required(referred(positional_args@), index as int),
        ),
{
    let remaining = count_remaining_required(positional_args, index);
    let mut part = String::from_str("                    ");
    part.append(number_text(index).as_str());
    part.append(")\n");
    part.append("                        if [ $# -gt ");
    part.append(number_text(remaining).as_str());
    part.append(" ]; then\n");
    part.append("                            ");
    part.append(arg.name.as_str());
    part.append("=\"$1\"\n");
    part.append("                            shift\n");
    part.append("                        fi\n");
    part.append("                        _pos_count=$((_pos_count + 1))\n");
    part.append("                        ;;\n");
    output.append(part.as_str());
}

/// Appends the branch for an argument that takes any number of tokens.
pub fn generate_variadic_arg_case(
    output: &mut String,
    index: usize,
    arg: &Argument,
    positional_args: &Vec<&Argument>,
)
    ensures
        final(output)@ == old(output)@ + variadic_case(
            index as nat,
            *arg,
            remaining_required(referred(positional_args@), index as int),
        ),
{
    let remaining = count_remaining_required(positional_args, index);
    let name = arg.name.as_str();
    let mut part = String::from_str("                    ");
    part.append(number_text(index).as_str());
    part.append(")\n");
    part.append("                        while [ $# -gt ");
    part.append(number_text(remaining).as_str());
    part.append(" ] && [ \"${1#-}\" = \"$1\" ]; do\n");
    part.append("                            if [ -z \"$");
    part.append(name);
    part.append("\" ]; then\n");
    part.append("                                ");
    part.append(name);
    part.append("=\"$1\"\n");
    part.append("                            else\n");
    part.append("                                ");
    part.append(name);
    part.append("=\"$");
    part.append(name);
    part.append(" $1\"\n");
    part.append("                            fi\n");
    part.append("                            shift\n");
    part.append("                        done\n");
    part.append("                        _pos_count=$((_pos_count + 1))\n");
    part.append("                        ;;\n");
    output.append(part.as_str());
}

/// Appends the dispatch on the number of positional arguments already
/// filled.
pub fn generate_positional_parsing(
    output: &mut String,
    positional_args: &Vec<&Argument>,
    command: &Command,
)
    ensures
        final(output)@ == old(output)@ + positional_parsing(referred(positional_args@), *command),
{
    let ghost all = referred(positional_args@);
    let mut part = String::from_str("                case \"$_pos_count\" in\n");
    let mut cases = String::new();
    let mut index: usize = 0;
    while index < positional_args.len()
        invariant
            index <= positional_args.len(),
            all == referred(positional_args@),
            cases@ == positional_cases(all, index as nat),
        decreases positional_args.len() - index,
    {
        let arg = positional_args[index];
        match arg.prefix {
            ArgPrefix::ExactlyOne => {
                generate_single_arg_case(&mut cases, index, arg);
            },
            ArgPrefix::ZeroOne => {
                generate_optional_arg_case(&mut cases, index, arg, positional_args);
            },
            ArgPrefix::ZeroMore | ArgPrefix::OneMore => {
                generate_variadic_arg_case(&mut cases, index, arg, positional_args);
            },
        }
        index += 1;
    }
    part.append(cases.as_str());
    part.append("                    *)\n");
    push_failure(&mut part, "Too many arguments", command, "                        ");
    part.append("                        ;;\n");
    part.append("                esac\n");
    output.append(part.as_str());
}

/// The test, after the argument loop, that an argument has a value.
pub open spec fn required_validation(a: Argument, cmd: Command, message: Seq<char>) -> Seq<
    char,
> {
    "    if [ -z \"$"@ + a.name@ + "\" ]; then\n"@ + failure(
        a.name@ + " "@ + message,
        cmd,
        "        "@,
    ) + "    fi\n"@
}

/// The test that follows the argument loop for one positional argument:
/// none for an argument that may stay empty.
pub open spec fn validation(a: Argument, cmd: Command) -> Seq<char> {
    match a.prefix {
        ArgPrefix::ExactlyOne => required_validation(a, cmd, "is required"@),
        ArgPrefix::OneMore => required_validation(a, cmd, "is required at least once"@),
        ArgPrefix::ZeroOne | ArgPrefix::ZeroMore => Seq::empty(),
    }
}

/// The tests for the given positional arguments, in order.
pub open spec fn validations(pos: Seq<Argument>, cmd: Command) -> Seq<char>
    decreases pos.len(),
{
    if pos.len() == 0 {
        Seq::empty()
    } else {
        validations(pos.drop_last(), cmd) + validation(pos.last(), cmd)
    }
}

/// Writes the test that an argument has a value, with the message for
/// the case that it has none.
pub fn generate_required_validation(arg: &Argument, command: &Command, message: &str) -> (res:
    String)
    ensures
        res@ == required_validation(*arg, *command, message@),
{
    let mut output = String::from_str("    if [ -z \"$");
    output.append(arg.name.as_str());
    output.append("\" ]; then\n");
    let mut msg = arg.name.clone();
    msg.append(" ");
    msg.append(message);
    push_failure(&mut output, msg.as_str(), command, "        ");
    output.append("    fi\n");
    output
}

/// Appends the tests on the positional arguments that must get a value.
pub fn generate_positional_validation(
    output: &mut String,
    positional_args: &Vec<&Argument>,
    command: &Command,
)
    ensures
        final(output)@ == old(output)@ + validations(referred(positional_args@), *command),
{
    let ghost all = referred(positional_args@);
    let mut i: usize = 0;
    assert(output@ =~= old(output)@ + validations(all.take(0), *command));
    while i < positional_args.len()
        invariant
            i <= positional_args.len(),
            all == referred(positional_args@),
            output@ == old(output)@ + validations(all.take(i as int), *command),
        decreases positional_args.len() - i,
    {
        proof {
            assert(all.take(i + 1).drop_last() =~= all.take(i as int));
            assert(all.take(i + 1).last() == *positional_args@[i as int]);
        }
        let arg = positional_args[i];
        let ghost before = output@;
        match arg.prefix {
            ArgPrefix::ExactlyOne => {
                output.append(generate_required_validation(arg, command, "is required").as_str());
            },
            ArgPrefix::OneMore => {
                output.append(
                    generate_required_validation(
                        arg,
                        command,
                        "is required at least once",
                    ).as_str(),
                );
            },
            ArgPrefix::ZeroOne | ArgPrefix::ZeroMore => {},
        }
        assert(output@ =~= before + validation(*arg, *command));
        assert(output@ =~= old(output)@ + validations(all.take(i + 1), *command));
        i += 1;
    }
    proof {
        assert(all.take(positional_args.len() as int) =~= all);
    }
}

/// What follows a line of a command's body, by the command's chaining.
pub open spec fn line_suffix(prefix: CmdPrefix) -> Seq<char> {
    match prefix {
        CmdPrefix::UntilError => " || return $?"@,
        CmdPrefix::UntilSuccess => " && return 0"@,
        CmdPrefix::RunAll => Seq::empty(),
    }
}

/// The lines of a command's body as they stand in its function.
pub open spec fn body_lines(lines: Seq<Seq<char>>, prefix: CmdPrefix) -> Seq<char>
    decreases lines.len(),
{
    if lines.len() == 0 {
        Seq::empty()
    } else {
        body_lines(lines.drop_last(), prefix) + "    "@ + lines.last() + line_suffix(prefix)
            + "\n"@
    }
}

fn push_body_lines(out: &mut String, lines: &Vec<String>, prefix: &CmdPrefix)
    ensures
        final(out)@ == old(out)@ + body_lines(texts(lines@), *prefix),
{
    let ghost all = texts(lines@);
    let mut i: usize = 0;
    assert(out@ =~= old(out)@ + body_lines(all.take(0), *prefix));
    while i < lines.len()
        invariant
            i <= lines.len(),
            all == texts(lines@),
            out@ == old(out)@ + body_lines(all.take(i as int), *prefix),
        decreases lines.len() - i,
    {
        proof {
            assert(all.take(i + 1).drop_last() =~= all.take(i as int));
            assert(all.take(i + 1).last() == lines@[i as int]@);
        }
        let ghost before = out@;
        out.append("    ");
        out.append(lines[i].as_str());
        match prefix {
            CmdPrefix::UntilError => {
                out.append(" || return $?");
            },
            CmdPrefix::UntilSuccess => {
                out.append(" && return 0");
            },
            CmdPrefix::RunAll => {},
        }
        out.append("\n");
        assert(out@ =~= before + "    "@ + lines@[i as int]@ + line_suffix(*prefix) + "\n"@);
        assert(out@ =~= old(out)@ + body_lines(all.take(i + 1), *prefix));
        i += 1;
    }
    proof {
        assert(all.take(lines.len() as int) =~= all);
    }
}

/// The branch of a leaf's argument loop for a token that is no flag: it
/// fills the positional arguments, or fails where the command has none.
pub open spec fn positional_branch(cmd: Command) -> Seq<char> {
    "            *)\n"@ + (if positional(cmd.arguments@).len() == 0 {
        failure("Too many arguments"@, cmd, "                "@)
    } else {
        positional_parsing(positional(cmd.arguments@), cmd)
    }) + "                ;;\n"@
}

/// The loop of a leaf that takes the command line token by token: help
/// first, then the declared flags, then any other dash token as an unknown
/// option, then the positional arguments.
pub open spec fn argument_loop(cmd: Command) -> Seq<char> {
    "    while [ $# -gt 0 ]; do\n"@ + "        case \"$1\" in\n"@ + help_case(
        cmd,
        "            "@,
    ) + flag_cases(optional(cmd.arguments@), cmd) + "            -*)\n"@ + failure(
        "Unknown option: $1"@,
        cmd,
        "                "@,
    ) + "                ;;\n"@ + positional_branch(cmd) + "        esac\n"@ + "    done\n\n"@
}

/// The body of a leaf's function: first values, the argument loop, the
/// checks on required arguments, then the command's own lines.
pub open spec fn leaf_body(cmd: Command, lines: Seq<Seq<char>>) -> Seq<char> {
    variable_inits(cmd.arguments@) + (if positional(cmd.arguments@).len() == 0 {
        Seq::empty()
    } else {
        "    _pos_count=0\n\n"@
    }) + argument_loop(cmd) + validations(positional(cmd.arguments@), cmd)
        + "    # Execute command\n"@ + body_lines(lines, cmd.prefix)
}

fn push_positional_branch(out: &mut String, command: &Command, positional_args: &Vec<&Argument>)
    requires
        referred(positional_args@) == positional(command.arguments@),
    ensures
        final(out)@ == old(out)@ + positional_branch(*command),
{
    let mut part = String::from_str("            *)\n");
    if positional_args.len() == 0 {
        push_failure(&mut part, "Too many arguments", command, "                ");
    } else {
        generate_positional_parsing(&mut part, positional_args, command);
    }
    part.append("                ;;\n");
    out.append(part.as_str());
}

fn push_argument_loop(
    out: &mut String,
    command: &Command,
    positional_args: &Vec<&Argument>,
    optional_args: &Vec<&Argument>,
)
    requires
        referred(positional_args@) == positional(command.arguments@),
        referred(optional_args@) == optional(command.arguments@),
    ensures
        final(out)@ == old(out)@ + argument_loop(*command),
{
    let mut part = String::from_str("    while [ $# -gt 0 ]; do\n");
    part.append("        case \"$1\" in\n");
    push_help_case(&mut part, command, "            ");
    push_flag_cases(&mut part, optional_args, command);
    part.append("            -*)\n");
    push_failure(&mut part, "Unknown option: $1", command, "                ");
    part.append("                ;;\n");
    push_positional_branch(&mut part, command, positional_args);
    part.append("        esac\n");
    part.append("    done\n\n");
    out.append(part.as_str());
}

/// Appends the body of a leaf's function.
pub fn generate_leaf_func_body(output: &mut String, command: &Command, command_lines: &Vec<String>)
    ensures
        final(output)@ == old(output)@ + leaf_body(*command, texts(command_lines@)),
{
    let positional_args = command.get_positional_arguments();
    let optional_args = command.get_optional_arguments();
    let mut part = String::new();
    push_variable_inits(&mut part, &command.arguments);
    if positional_args.len() > 0 {
        part.append("    _pos_count=0\n\n");
    }
    push_argument_loop(&mut part, command, &positional_args, &optional_args);
    generate_positional_validation(&mut part, &positional_args, command);
    part.append("    # Execute command\n");
    push_body_lines(&mut part, command_lines, &command.prefix);
    output.append(part.as_str());
}

/// The branch of a dispatcher that hands the remaining tokens to the
/// function of one subcommand.
pub open spec fn dispatch_case(sub: Command) -> Seq<char> {
    "        "@ + sub.name@ + ") "@ + mangled(texts(sub.path@)) + " \"$@\";;\n"@
}

/// The branches for the given subcommands, in order.
pub open spec fn dispatch_cases(subs: Seq<Command>) -> Seq<char>
    decreases subs.len(),
{
    if subs.len() == 0 {
        Seq::empty()
    } else {
        dispatch_cases(subs.drop_last()) + dispatch_case(subs.last())
    }
}

/// The body of a dispatcher's function: it takes the first token as the
/// subcommand's name and matches it exactly, help first, then the declared
/// subcommands, then any other dash token as an unknown option, then
/// anything else as an unknown subcommand.
pub open spec fn subcommand_body(cmd: Command, subs: Seq<Command>) -> Seq<char> {
    "    local subcmd=\"$1\"\n"@ + "    if [ $# -gt 0 ]; then shift; fi\n"@
        + "    case \"$subcmd\" in\n"@ + help_case(cmd, "        "@) + dispatch_cases(subs)
        + "        -*)\n"@ + failure("Unknown option: $subcmd"@, cmd, "            "@)
        + "            ;;\n"@ + "        *)\n"@ + failure(
        "Unknown subcommand: $subcmd"@,
        cmd,
        "            "@,
    ) + "            ;;\n"@ + "    esac\n"@
}

fn push_dispatch_cases(out: &mut String, subcommands: &Vec<Command>)
    ensures
        final(out)@ == old(out)@ + dispatch_cases(subcommands@),
{
    let mut part = String::new();
    let mut i: usize = 0;
    while i < subcommands.len()
        invariant
            i <= subcommands.len(),
            part@ == dispatch_cases(subcommands@.take(i as int)),
        decreases subcommands.len() - i,
    {
        proof {
            assert(subcommands@.take(i + 1).drop_last() =~= subcommands@.take(i as int));
        }
        let sub = &subcommands[i];
        let mut case = String::from_str("        ");
        case.append(sub.name.as_str());
        case.append(") ");
        case.append(sub.get_mangled_function_name().as_str());
        case.append(" \"$@\";;\n");
        part.append(case.as_str());
        i += 1;
    }
    proof {
        assert(subcommands@.take(subcommands.len() as int) =~= subcommands@);
    }
    out.append(part.as_str());
}

/// Appends the body of a dispatcher's function.
pub fn generate_subcommand_func_body(
    output: &mut String,
    command: &Command,
    subcommands: &Vec<Command>,
)
    ensures
        final(output)@ == old(output)@ + subcommand_body(*command, subcommands@),
{
    let mut part = String::from_str("    local subcmd=\"$1\"\n");
    part.append("    if [ $# -gt 0 ]; then shift; fi\n");
    part.append("    case \"$subcmd\" in\n");
    push_help_case(&mut part, command, "        ");
    push_dispatch_cases(&mut part, subcommands);
    part.append("        -*)\n");
    push_failure(&mut part, "Unknown option: $subcmd", command, "            ");
    part.append("            ;;\n");
    part.append("        *)\n");
    push_failure(&mut part, "Unknown subcommand: $subcmd", command, "            ");
    part.append("            ;;\n");
    part.append("    esac\n");
    output.append(part.as_str());
}

/// The line that opens the function of a top-level command only: it makes
/// zsh split words as other shells do.
pub open spec fn word_split_line(cmd: Command) -> Seq<char> {
    if cmd.path@.len() == 1 {
        "    setopt localoptions sh_word_split 2>/dev/null || true\n"@
    } else {
        Seq::empty()
    }
}

/// The body of a command's function: a dispatcher's or a leaf's.
pub open spec fn function_body(cmd: Command) -> Seq<char> {
    match cmd.children {
        Children::Subcmds(subs) => subcommand_body(cmd, subs@),
        Children::Body(lines) => leaf_body(cmd, texts(lines@)),
    }
}

/// The function of a command, followed by the functions of everything
/// below it, depth first and in declaration order.
pub open spec fn function_text(cmd: Command) -> Seq<char>
    decreases cmd, 0nat,
{
    mangled(texts(cmd.path@)) + "() {\n"@ + word_split_line(cmd) + function_body(cmd) + "}\n\n"@
        + (match cmd.children {
        Children::Subcmds(subs) => functions_text(subs@, subs@.len()),
        Children::Body(_) => Seq::empty(),
    })
}

/// The functions of the first `n` commands of `cmds`, each with everything
/// below it.
pub open spec fn functions_text(cmds: Seq<Command>, n: nat) -> Seq<char>
    decreases cmds, n,
{
    if n == 0 || n > cmds.len() {
        Seq::empty()
    } else {
        functions_text(cmds, (n - 1) as nat) + function_text(cmds[n - 1])
    }
}

/// Writes the function of a command and, after it, the functions of
/// everything below it.
pub fn generate_function(command: &Command) -> (res: String)
    ensures
        res@ == function_text(*command),
    decreases command,
{
    let mut output = command.get_mangled_function_name();
    output.append("() {\n");
    if command.path.len() == 1 {
        output.append("    setopt localoptions sh_word_split 2>/dev/null || true\n");
    }
    match &command.children {
        Children::Subcmds(subcommands) => {
            generate_subcommand_func_body(&mut output, command, subcommands);
        },
        Children::Body(command_lines) => {
            generate_leaf_func_body(&mut output, command, command_lines);
        },
    }
    output.append("}\n\n");
    if let Children::Subcmds(subcommands) = &command.children {
        let mut nested = String::new();
        let mut i: usize = 0;
        while i < subcommands.len()
            invariant
                i <= subcommands.len(),
                command.children == Children::Subcmds(*subcommands),
                nested@ == functions_text(subcommands@, i as nat),
            decreases subcommands.len() - i,
        {
            proof {
                vstd::std_specs::vec::axiom_vec_index_decreases(*subcommands, i as int);
                assert(decreases_to!(command.children => command.children->Subcmds_0));
            }
            nested.append(generate_function(&subcommands[i]).as_str());
            i += 1;
        }
        output.append(nested.as_str());
    }
    output
}

/// The lines that register the first `n` commands with zsh.
pub open spec fn zsh_registrations(cmds: Seq<Command>, n: nat) -> Seq<char>
    decreases n,
{
    if n == 0 || n > cmds.len() {
        Seq::empty()
    } else {
        zsh_registrations(cmds, (n - 1) as nat) + "    compdef _complete_zsh "@ + cmds[n - 1].name@
            + "\n"@
    }
}

/// The lines that register the first `n` commands with bash.
pub open spec fn bash_registrations(cmds: Seq<Command>, n: nat) -> Seq<char>
    decreases n,
{
    if n == 0 || n > cmds.len() {
        Seq::empty()
    } else {
        bash_registrations(cmds, (n - 1) as nat)
            + "    complete -o default $no_sort -F _complete_bash "@ + cmds[n - 1].name@ + "\n"@
    }
}

/// The end of a script: the completion driver as it was handed in, then the
/// registration of every top-level command with whichever of the two shells
/// runs the script.
pub open spec fn script_end(cmds: Seq<Command>, driver: Seq<char>) -> Seq<char> {
    driver + "if [ -n \"${ZSH_VERSION:-}\" ]; then autoload -Uz compinit; compinit\n"@
        + zsh_registrations(cmds, cmds.len())
        + "elif [ -n \"${BASH_VERSION:-}\" ]; then [ \"${BASH_VERSINFO[0]}\" -lt 4 ] && no_sort=\"\" || no_sort=\"-o nosort\"\n"@
        + bash_registrations(cmds, cmds.len()) + "fi\n"@
}

/// What a script holds for one top-level command: its function with
/// everything below it, then its completion function.
#[verifier::opaque]
pub open spec fn script_unit(cmd: Command) -> Seq<char> {
    function_text(cmd) + completion_function(cmd)
}

/// What a script holds for the first `n` top-level commands.
pub open spec fn script_units(cmds: Seq<Command>, n: nat) -> Seq<char>
    decreases n,
{
    if n == 0 || n > cmds.len() {
        Seq::empty()
    } else {
        script_units(cmds, (n - 1) as nat) + script_unit(cmds[n - 1])
    }
}

/// The comment that opens every script.
pub open spec fn script_header() -> Seq<char> {
    "\n# Auto-generated CLI shell functions\n# All modifications will be lost when terminal is reloaded\n\n"@
}

/// The whole script for the given top-level commands.
pub open spec fn script(cmds: Seq<Command>, driver: Seq<char>) -> Seq<char> {
    script_header() + script_units(cmds, cmds.len()) + script_end(cmds, driver)
}

/// Writes the end of a script: the driver and the registrations.
pub fn generate_script_end(commands: &[Command], driver: &str) -> (res: String)
    ensures
        res@ == script_end(commands@, driver@),
{
    let mut zsh = String::new();
    let mut i: usize = 0;
    while i < commands.len()
        invariant
            i <= commands.len(),
            zsh@ == zsh_registrations(commands@, i as nat),
        decreases commands.len() - i,
    {
        zsh.append("    compdef _complete_zsh ");
        zsh.append(commands[i].name.as_str());
        zsh.append("\n");
        i += 1;
    }
    let mut bash = String::new();
    let mut j: usize = 0;
    while j < commands.len()
        invariant
            j <= commands.len(),
            bash@ == bash_registrations(commands@, j as nat),
        decreases commands.len() - j,
    {
        bash.append("    complete -o default $no_sort -F _complete_bash ");
        bash.append(commands[j].name.as_str());
        bash.append("\n");
        j += 1;
    }
    let mut output = String::from_str(driver);
    output.append("if [ -n \"${ZSH_VERSION:-}\" ]; then autoload -Uz compinit; compinit\n");
    output.append(zsh.as_str());
    output.append(
        "elif [ -n \"${BASH_VERSION:-}\" ]; then [ \"${BASH_VERSINFO[0]}\" -lt 4 ] && no_sort=\"\" || no_sort=\"-o nosort\"\n",
    );
    output.append(bash.as_str());
    output.append("fi\n");
    output
}

fn generate_unit(command: &Command) -> (res: String)
    ensures
        res@ == script_unit(*command),
{
    reveal(script_unit);
    let mut unit = generate_function(command);
    unit.append(generate_autocompletion(command).as_str());
    unit
}

/// Writes the script for the given top-level commands. `driver` is the
/// completion driver, a piece of shell text that is copied into the script
/// as it stands.
pub fn generate_script(commands: &[Command], driver: &str) -> (res: String)
    ensures
        res@ == script(commands@, driver@),
{
    let mut units = String::new();
    let mut i: usize = 0;
    while i < commands.len()
        invariant
            i <= commands.len(),
            units@ == script_units(commands@, i as nat),
        decreases commands.len() - i,
    {
        units.append(generate_unit(&commands[i]).as_str());
        i += 1;
    }
    let mut output = String::from_str(
        "\n# Auto-generated CLI shell functions\n# All modifications will be lost when terminal is reloaded\n\n",
    );
    output.append(units.as_str());
    output.append(generate_script_end(commands, driver).as_str());
    output
}

} // verus!
