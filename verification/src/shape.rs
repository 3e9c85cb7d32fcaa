//! What the text of a leaf's function is sure to hold, stated for the
//! arities and flags that decide it.

use vstd::prelude::*;
use crate::help::{flag, help_text};
use crate::parser::{positional, ArgPrefix, Argument, Command, DefaultValue};
use crate::shell_generator::{
    flag_case, help_case, is_required, positional_case, remaining_required, required_validation,
    single_case, validation, variadic_case,
};
use crate::text::{escaped, truth};

verus! {

/// The last positional argument has to leave no token to others.
pub proof fn lemma_nothing_remains_after_the_last(pos: Seq<Argument>)
    requires
        pos.len() > 0,
    ensures
        remaining_required(pos, pos.len() - 1) == 0,
{
}

/// The tokens to leave after one positional argument are those to leave
/// after the next, and one more where the next must get a value.
pub proof fn lemma_remaining_required_step(pos: Seq<Argument>, index: int)
    requires
        0 <= index,
        index + 1 < pos.len(),
    ensures
        remaining_required(pos, index) == remaining_required(pos, index + 1) + (if is_required(
            pos[index + 1],
        ) {
            1nat
        } else {
            0nat
        }),
{
    let required = |a: Argument| is_required(a);
    let tail = pos.skip(index + 1);
    assert(tail =~= seq![pos[index + 1]] + pos.skip(index + 2));
    Seq::filter_distributes_over_add(seq![pos[index + 1]], pos.skip(index + 2), required);
    reveal_with_fuel(Seq::filter, 2);
    let one = seq![pos[index + 1]];
    assert(one.drop_last() =~= Seq::<Argument>::empty());
    assert(one.drop_last().filter(required) =~= Seq::<Argument>::empty());
    assert(one.last() == pos[index + 1]);
    assert(one.filter(required).len() == if is_required(pos[index + 1]) {
        1nat
    } else {
        0nat
    });
}

/// Where every positional argument takes exactly one value, the token in
/// place `index` goes to the argument in place `index`, and that argument
/// is tested after the loop with the message that it is required.
pub proof fn lemma_exactly_one_in_declaration_order(cmd: Command, index: int)
    requires
        0 <= index < positional(cmd.arguments@).len(),
        forall|i: int|
            0 <= i < positional(cmd.arguments@).len() ==> (#[trigger] positional(
                cmd.arguments@,
            )[i]).prefix == ArgPrefix::ExactlyOne,
    ensures
        positional_case(positional(cmd.arguments@), index) == single_case(
            index as nat,
            positional(cmd.arguments@)[index],
        ),
        validation(positional(cmd.arguments@)[index], cmd) == required_validation(
            positional(cmd.arguments@)[index],
            cmd,
            "is required"@,
        ),
{
}

/// An argument that takes any number of values, followed by one that takes
/// exactly one, leaves exactly one token to it; the second takes that token
/// and is required.
pub proof fn lemma_variadic_reserves_for_trailing_required(cmd: Command)
    requires
        positional(cmd.arguments@).len() == 2,
        positional(cmd.arguments@)[0].prefix == ArgPrefix::ZeroMore,
        positional(cmd.arguments@)[1].prefix == ArgPrefix::ExactlyOne,
    ensures
        positional_case(positional(cmd.arguments@), 0) == variadic_case(
            0,
            positional(cmd.arguments@)[0],
            1,
        ),
        positional_case(positional(cmd.arguments@), 1) == single_case(
            1,
            positional(cmd.arguments@)[1],
        ),
        validation(positional(cmd.arguments@)[0], cmd) == Seq::<char>::empty(),
        validation(positional(cmd.arguments@)[1], cmd) == required_validation(
            positional(cmd.arguments@)[1],
            cmd,
            "is required"@,
        ),
{
    let pos = positional(cmd.arguments@);
    lemma_remaining_required_step(pos, 0);
    lemma_nothing_remains_after_the_last(pos);
}

/// A single positional argument that takes one or more values takes every
/// token that is no flag, and is tested after the loop with the message
/// that it is required at least once.
pub proof fn lemma_one_or_more_alone(cmd: Command)
    requires
        positional(cmd.arguments@).len() == 1,
        positional(cmd.arguments@)[0].prefix == ArgPrefix::OneMore,
    ensures
        positional_case(positional(cmd.arguments@), 0) == variadic_case(
            0,
            positional(cmd.arguments@)[0],
            0,
        ),
        validation(positional(cmd.arguments@)[0], cmd) == required_validation(
            positional(cmd.arguments@)[0],
            cmd,
            "is required at least once"@,
        ),
{
    lemma_nothing_remains_after_the_last(positional(cmd.arguments@));
}

/// The branch of a switch assigns the opposite of the declared default, a
/// fixed text: giving the switch twice assigns the same value twice.
pub proof fn lemma_switch_assigns_the_opposite_of_its_default(a: Argument, cmd: Command, b: bool)
    requires
        a.option == Some(DefaultValue::Bool(b)),
    ensures
        flag_case(a, cmd) == "            "@ + flag(a.name@) + ")\n"@ + "                "@ + a.name@
            + "="@ + truth(!b) + "\n"@ + "                shift\n"@ + "                ;;\n"@,
        b == false ==> truth(!b) == "true"@,
{
}

/// The help branch prints the command's help block, escaped for `printf`,
/// and returns at once.
pub proof fn lemma_help_case_prints_the_help_block(cmd: Command, indent: Seq<char>)
    ensures
        help_case(cmd, indent) == indent + "-h|--help)\n"@ + indent + "    printf \""@ + escaped(
            help_text(cmd),
        ) + "\"\n"@ + indent + "    return\n"@ + indent + "    ;;\n"@,
{
}

} // verus!
