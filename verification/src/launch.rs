//! The command line a launch is asked to send a file with: `--send <path>`
//! names the file; `--send-pending` says the path waits in a file written
//! by the shell extension.
use vstd::prelude::*;

use crate::text::{spec_trim, str_eq, trim_text};

verus! {

/// The position of the first argument equal to `flag` among the first `k`.
pub open spec fn first_index_before(args: Seq<Seq<char>>, flag: Seq<char>, k: int) -> Option<int>
    decreases k,
{
    if k <= 0 {
        None
    } else {
        match first_index_before(args, flag, k - 1) {
            Some(i) => Some(i),
            None => if args[k - 1] == flag {
                Some(k - 1)
            } else {
                None
            },
        }
    }
}

/// The arguments as texts.
pub open spec fn arg_views(args: Seq<String>) -> Seq<Seq<char>> {
    args.map_values(|a: String| a@)
}

/// The path given after the first `--send`, if there is one.
pub open spec fn spec_send_arg(args: Seq<String>) -> Option<String> {
    match first_index_before(arg_views(args), "--send"@, args.len() as int) {
        Some(i) => if i + 1 < args.len() {
            Some(args[i + 1])
        } else {
            None
        },
        None => None,
    }
}

/// Where the first argument equal to `flag` stands, if any.
fn find_arg(args: &Vec<String>, flag: &str) -> (res: Option<usize>)
    ensures
        match res {
            Some(i) => first_index_before(arg_views(args@), flag@, args@.len() as int) == Some(
                i as int,
            ) && i < args@.len(),
            None => first_index_before(arg_views(args@), flag@, args@.len() as int) is None,
        },
{
    let mut i: usize = 0;
    while i < args.len()
        invariant
            0 <= i <= args@.len(),
            first_index_before(arg_views(args@), flag@, i as int) is None,
        decreases args@.len() - i,
    {
        if str_eq(args[i].as_str(), flag) {
            proof {
                assert(arg_views(args@)[i as int] == args@[i as int]@);
                lemma_first_index_stays(arg_views(args@), flag@, i as int + 1, args@.len() as int);
            }
            return Some(i);
        }
        proof {
            assert(arg_views(args@)[i as int] == args@[i as int]@);
        }
        i = i + 1;
    }
    None
}

/// Once found among the first `j` arguments, the first match stays the
/// first among more.
proof fn lemma_first_index_stays(args: Seq<Seq<char>>, flag: Seq<char>, j: int, k: int)
    requires
        0 <= j <= k,
        first_index_before(args, flag, j) is Some,
    ensures
        first_index_before(args, flag, k) == first_index_before(args, flag, j),
    decreases k - j,
{
    if j < k {
        lemma_first_index_stays(args, flag, j, k - 1);
    }
}

/// The path that `--send <path>` names: the argument after the first
/// `--send`, if it has one.
pub fn send_arg(args: &Vec<String>) -> (res: Option<String>)
    ensures
        res == spec_send_arg(args@),
{
    match find_arg(args, "--send") {
        Some(i) => {
            if i < args.len() - 1 {
                Some(args[i + 1].clone())
            } else {
                None
            }
        },
        None => None,
    }
}

/// Whether some argument is `flag`.
pub fn has_flag(args: &Vec<String>, flag: &str) -> (res: bool)
    ensures
        res == (first_index_before(arg_views(args@), flag@, args@.len() as int) is Some),
{
    find_arg(args, flag).is_some()
}

/// The path a launch is asked to send: the text the shell extension left
/// (`pending`), without its leading and trailing white space, when that is
/// not empty; else the path given after `--send`.
pub fn pick_send_path(from_args: Option<String>, pending: Option<String>) -> (res: Option<String>)
    ensures
        match pending {
            Some(p) => if spec_trim(p@).len() > 0 {
                res matches Some(r) && r@ == spec_trim(p@)
            } else {
                res == from_args
            },
            None => res == from_args,
        },
{
    match pending {
        Some(p) => {
            let t = trim_text(p.as_str());
            if t.as_str().unicode_len() > 0 {
                Some(t)
            } else {
                from_args
            }
        },
        None => from_args,
    }
}

} // verus!
