//! What the outcome of an external command means to its caller.

use vstd::prelude::*;
use crate::text::{trim, trimmed};

verus! {

/// What a finished command printed, and whether it exited with success.
#[derive(Debug)]
pub struct CommandOutput {
    pub success: bool,
    pub stdout: String,
    pub stderr: String,
}

/// The texts of `args`.
pub open spec fn arg_views(args: Seq<&str>) -> Seq<Seq<char>> {
    args.map_values(|a: &str| a@)
}

/// `words` with one space between each two.
pub open spec fn spaced(words: Seq<Seq<char>>) -> Seq<char>
    decreases words.len(),
{
    if words.len() == 0 {
        Seq::empty()
    } else if words.len() == 1 {
        words[0]
    } else {
        spaced(words.drop_last()) + " "@ + words.last()
    }
}

/// The arguments of a command, separated by spaces.
pub fn join_args(args: &[&str]) -> (r: String)
    ensures
        r@ == spaced(arg_views(args@)),
{
    let mut out = String::new();
    let mut i: usize = 0;
    while i < args.len()
        invariant
            i <= args@.len(),
            out@ == spaced(arg_views(args@.take(i as int))),
        decreases args@.len() - i,
    {
        let ghost before = arg_views(args@.take(i as int));
        assert(arg_views(args@.take(i + 1)) =~= before.push(args@[i as int]@));
        assert(before.push(args@[i as int]@).drop_last() =~= before);
        if i > 0 {
            out.append(" ");
        }
        out.append(args[i]);
        i += 1;
    }
    assert(args@.take(i as int) =~= args@);
    out
}

/// The message of a command that exited with failure.
pub open spec fn failure_message(program: Seq<char>, args: Seq<Seq<char>>, stderr: Seq<char>) -> Seq<char> {
    program + " "@ + spaced(args) + " failed: "@ + trimmed(stderr)
}

/// The standard output of a command that succeeded; for one that failed, an
/// error that names the command line and holds its trimmed error output.
pub fn run_cmd(program: &str, args: &[&str], output: CommandOutput) -> (r: Result<String, String>)
    ensures
        output.success ==> r is Ok && r->Ok_0@ == output.stdout@,
        !output.success ==> r is Err && r->Err_0@ == failure_message(
            program@,
            arg_views(args@),
            output.stderr@,
        ),
{
    if output.success {
        return Ok(output.stdout);
    }
    let line = join_args(args);
    let msg = String::from_str(program).concat(" ").concat(line.as_str()).concat(" failed: ").concat(
        trim(output.stderr.as_str()),
    );
    Err(msg)
}

/// The standard output of a command and whether it succeeded; a failure is
/// no error here.
pub fn run_cmd_status(output: CommandOutput) -> (r: (String, bool))
    ensures
        r.0@ == output.stdout@,
        r.1 == output.success,
{
    (output.stdout, output.success)
}

} // verus!
