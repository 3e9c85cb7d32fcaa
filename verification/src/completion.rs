//! The functions that offer completion candidates: for each top-level
//! command one function that knows, for every command path below it, the
//! subcommands and flags that may follow.

use vstd::prelude::*;
use vstd::string::*;
use crate::help::{description_text, flag, flag_name, is_switch, is_switch_argument};
use crate::parser::{optional, referred, Argument, Children, Command};
use crate::text::{pad, padded};

verus! {

/// One candidate: its label in a column, then its description.
pub open spec fn candidate_line(label: Seq<char>, width: nat, desc: Seq<char>) -> Seq<char> {
    "            \""@ + padded(label, width) + " "@ + desc + "\"\n"@
}

/// The candidates for the given subcommands: each name with a colon, then
/// its description.
pub open spec fn subcommand_candidates(subs: Seq<Command>, width: nat) -> Seq<char>
    decreases subs.len(),
{
    if subs.len() == 0 {
        Seq::empty()
    } else {
        subcommand_candidates(subs.drop_last(), width) + candidate_line(
            subs.last().name@ + ":"@,
            width,
            description_text(subs.last()),
        )
    }
}

/// What a flag's candidate says: its help text, after the name of its value
/// unless it is a switch.
pub open spec fn flag_description(a: Argument) -> Seq<char> {
    if is_switch(a) {
        a.help@
    } else {
        "<"@ + a.name@ + "> "@ + a.help@
    }
}

/// The candidates for the given flags: each as typed, with a colon, then
/// its description.
pub open spec fn flag_candidates(flags: Seq<Argument>, width: nat) -> Seq<char>
    decreases flags.len(),
{
    if flags.len() == 0 {
        Seq::empty()
    } else {
        flag_candidates(flags.drop_last(), width) + candidate_line(
            flag(flags.last().name@) + ":"@,
            width,
            flag_description(flags.last()),
        )
    }
}

/// The width of the label column of a command's candidates.
pub open spec fn candidate_width(cmd: Command) -> nat {
    cmd.max_width() + 2
}

/// The branches that list the candidates of a command and of everything
/// below it, keyed by command path, depth first. A command with neither
/// subcommands nor flags has no branch.
pub open spec fn completion_case(cmd: Command) -> Seq<char>
    decreases cmd, 0nat,
{
    if cmd.subcommands().len() == 0 && optional(cmd.arguments@).len() == 0 {
        Seq::empty()
    } else {
        "        \""@ + cmd.path_text() + "\") array=(\n"@ + subcommand_candidates(
            cmd.subcommands(),
            candidate_width(cmd),
        ) + flag_candidates(optional(cmd.arguments@), candidate_width(cmd)) + "            );;\n"@
            + (match cmd.children {
            Children::Subcmds(subs) => completion_cases(subs@, subs@.len()),
            Children::Body(_) => Seq::empty(),
        })
    }
}

/// The branches of the first `n` commands of `cmds`, each with everything
/// below it.
pub open spec fn completion_cases(cmds: Seq<Command>, n: nat) -> Seq<char>
    decreases cmds, n,
{
    if n == 0 || n > cmds.len() {
        Seq::empty()
    } else {
        completion_cases(cmds, (n - 1) as nat) + completion_case(cmds[n - 1])
    }
}

/// The completion function of a top-level command: it looks up the
/// candidates for the words typed so far, adds the help flags, and prints
/// every candidate that begins with the word being typed.
pub open spec fn completion_function(cmd: Command) -> Seq<char> {
    "_completions_"@ + cmd.name@ + "_() {\n"@ + "    local -a array\n"@
        + "    local current=$1; shift\n"@ + "    local previous=($@)\n"@
        + "    case \"${previous[@]}\" in\n"@ + completion_case(cmd) + "        *) ;;\n"@
        + "    esac\n"@ + "    array+=(\""@ + padded("-h:"@, candidate_width(cmd))
        + " Show help information\" \""@ + padded("--help:"@, candidate_width(cmd))
        + " Show help information\")\n"@ + "    for elem in \"${array[@]}\"; do\n"@
        + "        if [[ $elem == \"$current\"* ]]; then echo \"$elem\"; fi\n"@ + "    done\n"@
        + "}\n\n"@
}

fn push_candidate(out: &mut String, label: &str, width: usize, desc: &str)
    ensures
        final(out)@ == old(out)@ + candidate_line(label@, width as nat, desc@),
{
    let mut part = String::from_str("            \"");
    part.append(pad(label, width).as_str());
    part.append(" ");
    part.append(desc);
    part.append("\"\n");
    out.append(part.as_str());
}

fn push_subcommand_candidates(out: &mut String, subs: &Vec<Command>, width: usize)
    ensures
        final(out)@ == old(out)@ + subcommand_candidates(subs@, width as nat),
{
    let mut part = String::new();
    let mut i: usize = 0;
    while i < subs.len()
        invariant
            i <= subs.len(),
            part@ == subcommand_candidates(subs@.take(i as int), width as nat),
        decreases subs.len() - i,
    {
        proof {
            assert(subs@.take(i + 1).drop_last() =~= subs@.take(i as int));
        }
        let mut label = subs[i].name.clone();
        label.append(":");
        match &subs[i].description {
            Some(d) => push_candidate(&mut part, label.as_str(), width, d.as_str()),
            None => {
                let blank = String::new();
                push_candidate(&mut part, label.as_str(), width, blank.as_str())
            },
        }
        i += 1;
    }
    proof {
        assert(subs@.take(subs.len() as int) =~= subs@);
    }
    out.append(part.as_str());
}

fn push_flag_candidates(out: &mut String, flags: &Vec<&Argument>, width: usize)
    ensures
        final(out)@ == old(out)@ + flag_candidates(referred(flags@), width as nat),
{
    let ghost all = referred(flags@);
    let mut part = String::new();
    let mut i: usize = 0;
    while i < flags.len()
        invariant
            i <= flags.len(),
            all == referred(flags@),
            part@ == flag_candidates(all.take(i as int), width as nat),
        decreases flags.len() - i,
    {
        proof {
            assert(all.take(i + 1).drop_last() =~= all.take(i as int));
            assert(all.take(i + 1).last() == *flags@[i as int]);
        }
        let arg = flags[i];
        let mut label = flag_name(arg.name.as_str());
        label.append(":");
        if is_switch_argument(arg) {
            push_candidate(&mut part, label.as_str(), width, arg.help.as_str());
        } else {
            let mut desc = String::from_str("<");
            desc.append(arg.name.as_str());
            desc.append("> ");
            desc.append(arg.help.as_str());
            push_candidate(&mut part, label.as_str(), width, desc.as_str());
        }
        i += 1;
    }
    proof {
        assert(all.take(flags.len() as int) =~= all);
    }
    out.append(part.as_str());
}

/// Appends the branches that list the candidates of a command and of
/// everything below it.
pub fn generate_autocompletion_case(output: &mut String, command: &Command)
    ensures
        final(output)@ == old(output)@ + completion_case(*command),
    decreases command,
{
    let flags = command.get_optional_arguments();
    let no_subcommands = match &command.children {
        Children::Subcmds(subs) => subs.len() == 0,
        Children::Body(_) => true,
    };
    if no_subcommands && flags.len() == 0 {
        assert(output@ =~= old(output)@ + completion_case(*command));
        return ;
    }
    let width = command.get_max_width() + 2;
    let mut part = String::from_str("        \"");
    part.append(command.get_command_path_string().as_str());
    part.append("\") array=(\n");
    if let Children::Subcmds(subs) = &command.children {
        push_subcommand_candidates(&mut part, subs, width);
    }
    push_flag_candidates(&mut part, &flags, width);
    part.append("            );;\n");
    if let Children::Subcmds(subs) = &command.children {
        let mut nested = String::new();
        let mut i: usize = 0;
        while i < subs.len()
            invariant
                i <= subs.len(),
                command.children == Children::Subcmds(*subs),
                nested@ == completion_cases(subs@, i as nat),
            decreases subs.len() - i,
        {
            proof {
                vstd::std_specs::vec::axiom_vec_index_decreases(*subs, i as int);
                assert(decreases_to!(command.children => command.children->Subcmds_0));
            }
            generate_autocompletion_case(&mut nested, &subs[i]);
            i += 1;
        }
        part.append(nested.as_str());
    }
    output.append(part.as_str());
}

/// Writes the completion function of a top-level command.
pub fn generate_autocompletion(command: &Command) -> (res: String)
    ensures
        res@ == completion_function(*command),
{
    let width = command.get_max_width() + 2;
    let mut output = String::from_str("_completions_");
    output.append(command.name.as_str());
    output.append("_() {\n");
    output.append("    local -a array\n");
    output.append("    local current=$1; shift\n");
    output.append("    local previous=($@)\n");
    output.append("    case \"${previous[@]}\" in\n");
    generate_autocompletion_case(&mut output, command);
    output.append("        *) ;;\n");
    output.append("    esac\n");
    output.append("    array+=(\"");
    output.append(pad("-h:", width).as_str());
    output.append(" Show help information\" \"");
    output.append(pad("--help:", width).as_str());
    output.append(" Show help information\")\n");
    output.append("    for elem in \"${array[@]}\"; do\n");
    output.append("        if [[ $elem == \"$current\"* ]]; then echo \"$elem\"; fi\n");
    output.append("    done\n");
    output.append("}\n\n");
    output
}

} // verus!
