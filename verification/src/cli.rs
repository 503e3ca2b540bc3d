//! Command-line argument rules: which verbosity the flags select, and which
//! environment file they name. Reading the arguments themselves is the
//! caller's business.

use vstd::prelude::*;

use crate::messages::LogLevel;

verus! {

/// The verbosity the first matching flag selects, scanning left to right;
/// no flag means silence.
pub open spec fn verbosity_of(args: Seq<String>) -> LogLevel
    decreases args.len(),
{
    if args.len() == 0 {
        LogLevel::Off
    } else if args[0]@ == "-v"@ {
        LogLevel::Info
    } else if args[0]@ == "-vv"@ {
        LogLevel::Debug
    } else if args[0]@ == "-vvv"@ {
        LogLevel::Trace
    } else {
        verbosity_of(args.drop_first())
    }
}

/// The value following the first `--env` flag, if one follows it.
pub open spec fn env_file_of(args: Seq<String>) -> Option<Seq<char>>
    decreases args.len(),
{
    if args.len() == 0 {
        Option::None
    } else if args[0]@ == "--env"@ && args.len() > 1 {
        Option::Some(args[1]@)
    } else {
        env_file_of(args.drop_first())
    }
}

/// The verbosity the command-line flags select.
pub fn get_verbosity(args: &[String]) -> (r: LogLevel)
    ensures
        r == verbosity_of(args@),
{
    proof {
        assert(args@.skip(0) =~= args@);
    }
    let info = String::from_str("-v");
    let debug = String::from_str("-vv");
    let trace = String::from_str("-vvv");
    let mut i: usize = 0;
    while i < args.len()
        invariant
            i <= args@.len(),
            info@ == "-v"@,
            debug@ == "-vv"@,
            trace@ == "-vvv"@,
            verbosity_of(args@) == verbosity_of(args@.skip(i as int)),
        decreases args@.len() - i,
    {
        proof {
            assert(args@.skip(i as int)[0] == args@[i as int]);
            assert(args@.skip(i as int).drop_first() =~= args@.skip(i + 1));
        }
        if args[i] == info {
            return LogLevel::Info;
        }
        if args[i] == debug {
            return LogLevel::Debug;
        }
        if args[i] == trace {
            return LogLevel::Trace;
        }
        i = i + 1;
    }
    proof {
        assert(args@.skip(args@.len() as int).len() == 0);
    }
    LogLevel::Off
}

/// The environment file the command-line flags name, if any.
pub fn get_env_file(args: &[String]) -> (r: Option<String>)
    ensures
        r.deep_view() == env_file_of(args@),
{
    proof {
        assert(args@.skip(0) =~= args@);
    }
    let flag = String::from_str("--env");
    let mut i: usize = 0;
    while i < args.len()
        invariant
            i <= args@.len(),
            flag@ == "--env"@,
            env_file_of(args@) == env_file_of(args@.skip(i as int)),
        decreases args@.len() - i,
    {
        proof {
            assert(args@.skip(i as int)[0] == args@[i as int]);
            assert(args@.skip(i as int).drop_first() =~= args@.skip(i + 1));
        }
        if args[i] == flag && i + 1 < args.len() {
            proof {
                assert(args@.skip(i as int)[1] == args@[i + 1]);
            }
            return Some(args[i + 1].clone());
        }
        i = i + 1;
    }
    proof {
        assert(args@.skip(args@.len() as int).len() == 0);
    }
    None
}

} // verus!
