//! The one command-line decision: which configuration file path to use.
//! The caller collects the process arguments and hands them in as plain
//! strings.

use vstd::prelude::*;

verus! {

/// The path selected by scanning the arguments from position `i` with
/// `cur` chosen so far: each usable `-c` takes the argument after it (a
/// later `-c` wins); a trailing `-c` with nothing after it changes
/// nothing.
pub open spec fn config_path_from(args: Seq<Seq<char>>, i: int, cur: Seq<char>) -> Seq<char>
    decreases args.len() - i
        when 0 <= i
{
    if i >= args.len() {
        cur
    } else if args[i] == "-c"@ && i + 1 < args.len() {
        config_path_from(args, i + 2, args[i + 1])
    } else {
        config_path_from(args, i + 1, cur)
    }
}

/// The configuration path an argument list selects: the argument after
/// the last usable `-c` flag, or "config.json" when none is given.
pub open spec fn config_path_model(args: Seq<Seq<char>>) -> Seq<char> {
    config_path_from(args, 0, "config.json"@)
}

/// Scans the arguments for `-c <path>` and returns the selected
/// configuration path.
pub fn config_path_from_args(args: &Vec<String>) -> (r: String)
    ensures
        r@ == config_path_model(args.deep_view()),
{
    let ghost dv = args.deep_view();
    let flag: String = "-c".to_owned();
    let mut cur: String = "config.json".to_owned();
    let mut i: usize = 0;
    while i < args.len()
        invariant
            i <= args.len(),
            flag@ == "-c"@,
            config_path_from(dv, i as int, cur@) == config_path_model(dv),
            dv == args.deep_view(),
        decreases args.len() - i,
    {
        proof {
            assert(dv[i as int] == args@[i as int]@);
        }
        if args[i] == flag && i + 1 < args.len() {
            proof {
                assert(dv[i as int + 1] == args@[i as int + 1]@);
                assert(config_path_from(dv, i as int, cur@) == config_path_from(
                    dv,
                    i as int + 2,
                    dv[i as int + 1],
                ));
            }
            cur = args[i + 1].clone();
            i = i + 2;
        } else {
            proof {
                assert(config_path_from(dv, i as int, cur@) == config_path_from(
                    dv,
                    i as int + 1,
                    cur@,
                ));
            }
            i = i + 1;
        }
    }
    cur
}

} // verus!
