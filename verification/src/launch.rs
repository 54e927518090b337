//! How the process was started.

use vstd::prelude::*;

verus! {

/// The arguments that follow the program's own name in `argv`, in order.
pub fn cli_args(argv: Vec<String>) -> (args: Vec<String>)
    ensures
        args@ == if argv@.len() == 0 {
            argv@
        } else {
            argv@.drop_first()
        },
{
    let mut args = argv;
    if args.len() > 0 {
        args.remove(0);
        assert(args@ =~= argv@.drop_first());
    }
    args
}

} // verus!
