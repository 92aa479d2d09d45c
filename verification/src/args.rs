//! Filtering of compiler-style arguments: include paths and the arguments
//! they take are removed, so that a caller probing the compiler for its
//! default search paths does not promote the caller's own include
//! directories to system ones.

use vstd::prelude::*;

use crate::deriver::names_view;
use crate::strutil::{str_eq, str_starts_with};

verus! {

/// The arguments kept from `args[j..]`: an include-directory flag is
/// dropped together with the argument it takes (`skip_next` says the
/// previous argument was such a flag); a fused include-directory argument is
/// dropped alone; everything else is kept, in order.
pub open spec fn spec_sysargs(args: Seq<Seq<char>>, j: int, skip_next: bool) -> Seq<Seq<char>>
    decreases args.len() - j,
{
    if !(0 <= j < args.len()) {
        Seq::empty()
    } else if skip_next {
        spec_sysargs(args, j + 1, false)
    } else {
        let a = args[j];
        if a == "-I"@ || a == "--include-directory"@ {
            spec_sysargs(args, j + 1, true)
        } else if (a.len() >= "-I"@.len() && a.subrange(0, "-I"@.len() as int) == "-I"@) || (
        a.len() >= "--include-directory="@.len() && a.subrange(
            0,
            "--include-directory="@.len() as int,
        ) == "--include-directory="@) {
            spec_sysargs(args, j + 1, false)
        } else {
            seq![a] + spec_sysargs(args, j + 1, false)
        }
    }
}

/// Drop every include-path argument, and the path an include flag takes,
/// keeping all other arguments in order.
pub fn filter_include_args(args: &Vec<String>) -> (r: Vec<String>)
    ensures
        names_view(r@) == spec_sysargs(names_view(args@), 0, false),
{
    let ghost sargs = names_view(args@);
    let mut out: Vec<String> = Vec::new();
    let mut skip_next = false;
    let n = args.len();
    let mut j: usize = 0;
    while j < n
        invariant
            n == args@.len(),
            sargs == names_view(args@),
            sargs.len() == n,
            j <= n,
            spec_sysargs(sargs, 0, false) == names_view(out@) + spec_sysargs(
                sargs,
                j as int,
                skip_next,
            ),
        decreases n - j,
    {
        let a = &args[j];
        proof {
            assert(sargs[j as int] == a@);
        }
        if skip_next {
            skip_next = false;
        } else if str_eq(a.as_str(), "-I") || str_eq(a.as_str(), "--include-directory") {
            skip_next = true;
        } else if str_starts_with(a.as_str(), "-I") || str_starts_with(
            a.as_str(),
            "--include-directory=",
        ) {
            // dropped: a fused include path
        } else {
            let ghost before = out@;
            out.push(a.clone());
            proof {
                assert(names_view(out@) =~= names_view(before).push(a@));
                assert(names_view(before).push(a@) + spec_sysargs(sargs, j + 1, false)
                    =~= names_view(before) + (seq![a@] + spec_sysargs(sargs, j + 1, false)));
            }
        }
        j = j + 1;
    }
    proof {
        assert(names_view(out@) + Seq::<Seq<char>>::empty() =~= names_view(out@));
    }
    out
}

} // verus!
