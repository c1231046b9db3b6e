//! The process spawner's decisions: what the child's argument vector
//! looks like, how environment entries are formatted, whether the
//! parent waits, and how the wait loop and the final result are shaped.
//! The OS primitives themselves (fork, exec, wait) live at the caller's
//! unverified edge; every value they are handed, and every decision made
//! on what they return, is computed here.

use vstd::prelude::*;

use crate::bytes::clone_bytes;
use crate::EXIT_SUCCESS;

verus! {

/// What a completed spawn reports: the exit status to record and the
/// child's process id.
#[derive(Clone, Copy, Debug, PartialEq, Eq, Structural)]
pub struct SpawnResult {
    /// The child's exit code, or the synthetic success of a background
    /// spawn.
    pub exit_status: i32,
    /// The child's process id.
    pub pid: i32,
}

/// Index just past the last `/` of `p`, or `0` if there is none.
pub open spec fn basename_start(p: Seq<u8>) -> int
    decreases p.len(),
{
    if p.len() == 0 {
        0
    } else if p.last() == 47u8 {
        p.len() as int
    } else {
        basename_start(p.drop_last())
    }
}

/// The program's base name: everything after the last `/`.
pub open spec fn basename_spec(p: Seq<u8>) -> Seq<u8> {
    p.subrange(basename_start(p), p.len() as int)
}

proof fn lemma_basename_start_bounds(p: Seq<u8>)
    ensures
        0 <= basename_start(p) <= p.len(),
    decreases p.len(),
{
    if p.len() > 0 && p.last() != 47u8 {
        lemma_basename_start_bounds(p.drop_last());
    }
}

/// The base name of a program path: the part after the last `/`, or the
/// whole path if it holds none. By convention this becomes the child's
/// argument zero.
pub fn prog_name(path: &Vec<u8>) -> (r: Vec<u8>)
    ensures
        r@ == basename_spec(path@),
{
    proof {
        lemma_basename_start_bounds(path@);
    }
    let mut start: usize = 0;
    let mut i: usize = 0;
    proof {
        assert(path@.take(0) =~= Seq::<u8>::empty());
    }
    while i < path.len()
        invariant
            i <= path@.len(),
            start == basename_start(path@.take(i as int)),
            0 <= start <= i,
        decreases path@.len() - i,
    {
        proof {
            assert(path@.take(i + 1).drop_last() =~= path@.take(i as int));
            assert(path@.take(i + 1).last() == path@[i as int]);
        }
        if path[i] == 47u8 {
            start = i + 1;
        }
        i = i + 1;
    }
    proof {
        assert(path@.take(path@.len() as int) =~= path@);
    }
    let mut r: Vec<u8> = Vec::new();
    let n = path.len();
    crate::bytes::push_range(&mut r, path, start, n);
    proof {
        assert(Seq::<u8>::empty() + path@.subrange(start as int, path@.len() as int)
            =~= basename_spec(path@));
    }
    r
}

/// The argument vector handed to the program image: the path's base
/// name as argument zero, then the given arguments.
pub fn child_argv(path: &Vec<u8>, args: &Vec<Vec<u8>>) -> (argv: Vec<Vec<u8>>)
    ensures
        argv.deep_view() == seq![basename_spec(path@)] + args.deep_view(),
{
    let mut argv: Vec<Vec<u8>> = Vec::new();
    argv.push(prog_name(path));
    let mut i: usize = 0;
    while i < args.len()
        invariant
            i <= args@.len(),
            argv.deep_view().len() == 1 + i,
            argv.deep_view()[0] == basename_spec(path@),
            forall|t: int| 0 <= t < i ==> argv.deep_view()[t + 1] == #[trigger] args.deep_view()[t],
        decreases args@.len() - i,
    {
        argv.push(clone_bytes(&args[i]));
        i = i + 1;
    }
    proof {
        assert(argv.deep_view() =~= seq![basename_spec(path@)] + args.deep_view());
    }
    argv
}

/// One `KEY=VALUE` environment entry.
pub fn env_assignment(key: &Vec<u8>, value: &Vec<u8>) -> (r: Vec<u8>)
    ensures
        r@ == key@ + seq![61u8] + value@,
{
    let mut r = clone_bytes(key);
    r.push(61u8);
    crate::bytes::push_all(&mut r, value);
    proof {
        assert(key@.push(61u8) =~= key@ + seq![61u8]);
    }
    r
}

/// The `KEY=VALUE` entries for a whole environment overlay, in order.
pub fn env_assignments(pairs: &Vec<(Vec<u8>, Vec<u8>)>) -> (r: Vec<Vec<u8>>)
    ensures
        r.deep_view().len() == pairs@.len(),
        forall|i: int|
            0 <= i < pairs@.len() ==> r.deep_view()[i] == #[trigger] pairs@[i].0@ + seq![61u8]
                + pairs@[i].1@,
{
    let mut r: Vec<Vec<u8>> = Vec::new();
    let mut i: usize = 0;
    while i < pairs.len()
        invariant
            i <= pairs@.len(),
            r.deep_view().len() == i,
            forall|t: int|
                0 <= t < i ==> r.deep_view()[t] == #[trigger] pairs@[t].0@ + seq![61u8]
                    + pairs@[t].1@,
        decreases pairs@.len() - i,
    {
        let entry = env_assignment(&pairs[i].0, &pairs[i].1);
        r.push(entry);
        i = i + 1;
    }
    r
}

/// Which child, if any, the parent must block on: a foreground spawn
/// waits for exactly the child it created; a background spawn waits for
/// nobody and returns control at once.
pub fn wait_policy(background: bool, child_pid: i32) -> (r: Option<i32>)
    ensures
        r == if background {
            None::<i32>
        } else {
            Some(child_pid)
        },
{
    if background {
        None
    } else {
        Some(child_pid)
    }
}

/// One round of the parent's wait loop: a termination notice for the
/// tracked child ends the loop with its exit code; a notice for any
/// other process is consumed and ignored.
pub fn wait_step(child_pid: i32, waited_pid: i32, exit_code: i32) -> (r: Option<i32>)
    ensures
        r == if waited_pid == child_pid {
            Some(exit_code)
        } else {
            None::<i32>
        },
{
    if waited_pid == child_pid {
        Some(exit_code)
    } else {
        None
    }
}

/// The result of a background spawn: a synthetic success status and the
/// real child pid to track, produced without any wait.
pub fn background_result(child_pid: i32) -> (r: SpawnResult)
    ensures
        r == (SpawnResult { exit_status: EXIT_SUCCESS, pid: child_pid }),
{
    SpawnResult { exit_status: EXIT_SUCCESS, pid: child_pid }
}

/// The result of a foreground spawn, once the child's exit code is
/// known.
pub fn foreground_result(child_pid: i32, exit_code: i32) -> (r: SpawnResult)
    ensures
        r == (SpawnResult { exit_status: exit_code, pid: child_pid }),
{
    SpawnResult { exit_status: exit_code, pid: child_pid }
}

} // verus!
