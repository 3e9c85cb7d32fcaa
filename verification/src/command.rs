//! The marks that a declared name may begin with.

use vstd::prelude::*;
use vstd::string::*;

verus! {

/// What the first character of a declared name says about the command or
/// argument that it names.
#[derive(Debug, Clone, PartialEq, Eq, Structural)]
pub enum Prefix {
    /// `&`: stop at the first line that fails.
    UntilError,
    /// `|`: stop at the first line that succeeds.
    UntilSuccess,
    /// `*`: any number of values.
    ZeroMore,
    /// `+`: at least one value.
    OneMore,
    /// `?`: at most one value.
    ZeroOne,
    /// No mark.
    Plain,
}

impl Prefix {
    /// The mark that a declared name begins with.
    pub open spec fn of(name: Seq<char>) -> Prefix {
        if name.len() == 0 {
            Prefix::Plain
        } else if name[0] == '&' {
            Prefix::UntilError
        } else if name[0] == '|' {
            Prefix::UntilSuccess
        } else if name[0] == '*' {
            Prefix::ZeroMore
        } else if name[0] == '+' {
            Prefix::OneMore
        } else if name[0] == '?' {
            Prefix::ZeroOne
        } else {
            Prefix::Plain
        }
    }

    /// The declared name without its mark, if it has one.
    pub open spec fn bare(name: Seq<char>) -> Seq<char> {
        if Prefix::of(name) == Prefix::Plain {
            name
        } else {
            name.skip(1)
        }
    }

    /// Splits a declared name into its mark and the name proper.
    pub fn extract(name: &str) -> (res: (Self, String))
        ensures
            res.0 == Prefix::of(name@),
            res.1@ == Prefix::bare(name@),
    {
        let n: usize = name.unicode_len();
        if n == 0 {
            return (Prefix::Plain, String::from_str(name));
        }
        let first = name.get_char(0);
        let prefix = if first == '&' {
            Prefix::UntilError
        } else if first == '|' {
            Prefix::UntilSuccess
        } else if first == '*' {
            Prefix::ZeroMore
        } else if first == '+' {
            Prefix::OneMore
        } else if first == '?' {
            Prefix::ZeroOne
        } else {
            return (Prefix::Plain, String::from_str(name));
        };
        (prefix, String::from_str(name.substring_char(1, n)))
    }
}

} // verus!
