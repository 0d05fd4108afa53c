//! Command-grouping key for tracked invocations.
//!
//! The key is `<basename(argv[0])> <argv[1]>` when `argv[1]` exists and does not
//! start with `-`, otherwise just `<basename(argv[0])>`. It groups cosmetically
//! different invocations of the same command; it is not a stable wire format.

use vstd::prelude::*;

use crate::text::{basename, basename_of, push_char, starts_with_char, strs_view};

verus! {

/// The grouping key of `argv` (empty for an empty argv).
pub open spec fn normalized(argv: Seq<Seq<char>>) -> Seq<char> {
    if argv.len() == 0 {
        Seq::empty()
    } else if argv.len() > 1 && !(argv[1].len() > 0 && argv[1][0] == '-') {
        basename(argv[0]) + seq![' '] + argv[1]
    } else {
        basename(argv[0])
    }
}

/// Derives the command-grouping key from `argv`.
pub fn normalize(argv: &[String]) -> (r: String)
    ensures
        r@ == normalized(strs_view(argv@)),
{
    if argv.len() == 0 {
        return String::new();
    }
    let mut out = basename_of(argv[0].as_str());
    if argv.len() > 1 && !starts_with_char(argv[1].as_str(), '-') {
        push_char(&mut out, ' ');
        out.append(argv[1].as_str());
    }
    out
}

/// The grouping key looks at the command and its first argument only: it is
/// the command's basename, followed by one space and the first argument when
/// that argument does not start with `-`; later arguments never change it.
pub proof fn law_key_is_command_and_first_argument(argv: Seq<Seq<char>>)
    ensures
        argv.len() == 0 ==> normalized(argv).len() == 0,
        argv.len() == 1 ==> normalized(argv) == basename(argv[0]),
        argv.len() >= 2 ==> normalized(argv) == normalized(argv.take(2)),
        argv.len() >= 2 && argv[1].len() > 0 && argv[1][0] == '-' ==> normalized(argv) == basename(argv[0]),
        argv.len() >= 2 && !(argv[1].len() > 0 && argv[1][0] == '-') ==> normalized(argv) == basename(argv[0])
            + seq![' '] + argv[1],
{
    if argv.len() >= 2 {
        assert(argv.take(2)[0] == argv[0] && argv.take(2)[1] == argv[1]);
    }
}

} // verus!
