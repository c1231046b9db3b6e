//! The command dispatcher's decisions: whether a name is looked up as a
//! builtin, how an executable path is resolved (absolute, relative, or
//! a `PATH` search, lazy and ordered), how a script's interpreter line
//! rewrites the argument vector, and what a command that cannot run
//! exits with. The filesystem checks and the spawn itself stay at the
//! caller's unverified edge.

use vstd::prelude::*;

use crate::bytes::{clone_bytes, push_all, push_range};
use crate::editor::{trim_bytes, trim_spec};
use crate::{EXIT_CMD_NOT_FOUND, EXIT_FAILURE};

verus! {

broadcast use crate::bytes::lemma_bytes_deep_view;

/// How a typed command name is resolved to an executable.
#[derive(Clone, Copy, Debug, PartialEq, Eq, Structural)]
pub enum CommandForm {
    /// Starts with `/`: taken as it stands.
    Absolute,
    /// Starts with `.`: joined to the working directory.
    Relative,
    /// Anything else: searched in each `PATH` directory, first match
    /// winning.
    Search,
}

/// Which resolution rule a command name falls under. Absolute and
/// relative forms never consult `PATH`.
pub open spec fn classify_spec(cmd: Seq<u8>) -> CommandForm {
    if cmd.len() > 0 && cmd[0] == 47 {
        CommandForm::Absolute
    } else if cmd.len() > 0 && cmd[0] == 46 {
        CommandForm::Relative
    } else {
        CommandForm::Search
    }
}

/// Classify a command name.
pub fn classify_command(cmd: &Vec<u8>) -> (f: CommandForm)
    ensures
        f == classify_spec(cmd@),
{
    if cmd.len() > 0 && cmd[0] == 47u8 {
        CommandForm::Absolute
    } else if cmd.len() > 0 && cmd[0] == 46u8 {
        CommandForm::Relative
    } else {
        CommandForm::Search
    }
}

/// First position at or after `j` holding a colon, or the end.
pub open spec fn colon_end(s: Seq<u8>, j: int) -> int
    decreases s.len() - j,
{
    if j < s.len() && s[j] != 58 {
        colon_end(s, j + 1)
    } else {
        j
    }
}

proof fn lemma_colon_end_bounds(s: Seq<u8>, j: int)
    requires
        j <= s.len(),
    ensures
        j <= colon_end(s, j) <= s.len(),
    decreases s.len() - j,
{
    if j < s.len() && s[j] != 58 {
        lemma_colon_end_bounds(s, j + 1);
    }
}

/// The pieces of `s[j..]` split on colons.
pub open spec fn split_colon_from(s: Seq<u8>, j: int) -> Seq<Seq<u8>>
    decreases s.len() - j,
    via split_colon_decreases
{
    let e = colon_end(s, j);
    if e >= s.len() {
        seq![s.subrange(j, s.len() as int)]
    } else {
        seq![s.subrange(j, e)] + split_colon_from(s, e + 1)
    }
}

#[via_fn]
proof fn split_colon_decreases(s: Seq<u8>, j: int) {
    if j <= s.len() {
        lemma_colon_end_bounds(s, j);
    }
}

/// `s` split on colons, as a colon-separated search list is read.
pub open spec fn split_colon(s: Seq<u8>) -> Seq<Seq<u8>> {
    split_colon_from(s, 0)
}

/// Split a colon-separated byte string into its pieces.
pub fn split_colon_list(s: &Vec<u8>) -> (parts: Vec<Vec<u8>>)
    ensures
        parts.deep_view() == split_colon(s@),
{
    let mut parts: Vec<Vec<u8>> = Vec::new();
    let mut j: usize = 0;
    loop
        invariant
            j <= s@.len(),
            split_colon(s@) == parts.deep_view() + split_colon_from(s@, j as int),
        decreases s@.len() - j,
    {
        let ghost parts0 = parts.deep_view();
        proof {
            lemma_colon_end_bounds(s@, j as int);
        }
        let mut e: usize = j;
        while e < s.len() && s[e] != 58u8
            invariant
                j <= e <= s@.len(),
                colon_end(s@, j as int) == colon_end(s@, e as int),
            decreases s@.len() - e,
        {
            e = e + 1;
        }
        let mut piece: Vec<u8> = Vec::new();
        push_range(&mut piece, s, j, e);
        proof {
            assert(piece@ =~= s@.subrange(j as int, e as int));
        }
        parts.push(piece);
        proof {
            assert(parts.deep_view() =~= parts0 + seq![s@.subrange(j as int, e as int)]);
        }
        if e >= s.len() {
            proof {
                assert(parts0 + seq![s@.subrange(j as int, s@.len() as int)] =~= parts.deep_view());
                assert(parts.deep_view() + Seq::<Seq<u8>>::empty() =~= parts.deep_view());
                assert(split_colon(s@) =~= parts.deep_view());
            }
            return parts;
        }
        proof {
            assert((parts0 + seq![s@.subrange(j as int, e as int)]) + split_colon_from(
                s@,
                e + 1,
            ) =~= parts0 + (seq![s@.subrange(j as int, e as int)] + split_colon_from(s@, e + 1)));
        }
        j = e + 1;
    }
}

/// A directory joined with a file name, as paths are joined: a
/// separator is added unless the directory is empty or already ends
/// with one.
pub open spec fn join_spec(dir: Seq<u8>, name: Seq<u8>) -> Seq<u8> {
    if dir.len() == 0 {
        name
    } else if dir.last() == 47 {
        dir + name
    } else {
        dir + seq![47u8] + name
    }
}

/// Join a directory and a file name.
pub fn join_path(dir: &Vec<u8>, name: &Vec<u8>) -> (r: Vec<u8>)
    ensures
        r@ == join_spec(dir@, name@),
{
    let mut r = clone_bytes(dir);
    if dir.len() > 0 && dir[dir.len() - 1] != 47u8 {
        r.push(47u8);
        proof {
            assert(r@ =~= dir@ + seq![47u8]);
        }
    }
    push_all(&mut r, name);
    r
}

/// The ordered candidate paths for a command name: the name itself when
/// absolute, the working directory join when relative, and otherwise
/// one candidate per `PATH` directory, in `PATH` order.
pub open spec fn candidates_spec(cmd: Seq<u8>, pwd: Seq<u8>, path_var: Seq<u8>) -> Seq<Seq<u8>> {
    match classify_spec(cmd) {
        CommandForm::Absolute => seq![cmd],
        CommandForm::Relative => seq![join_spec(pwd, cmd)],
        CommandForm::Search => split_colon(path_var).map_values(|dir: Seq<u8>| join_spec(dir, cmd)),
    }
}

/// The candidate executable paths for a command name, in the order they
/// are to be probed.
pub fn command_candidates(cmd: &Vec<u8>, pwd: &Vec<u8>, path_var: &Vec<u8>) -> (c: Vec<Vec<u8>>)
    ensures
        c.deep_view() == candidates_spec(cmd@, pwd@, path_var@),
{
    match classify_command(cmd) {
        CommandForm::Absolute => {
            let mut c: Vec<Vec<u8>> = Vec::new();
            c.push(clone_bytes(cmd));
            proof {
                assert(c.deep_view() =~= seq![cmd@]);
            }
            c
        },
        CommandForm::Relative => {
            let mut c: Vec<Vec<u8>> = Vec::new();
            c.push(join_path(pwd, cmd));
            proof {
                assert(c.deep_view() =~= seq![join_spec(pwd@, cmd@)]);
            }
            c
        },
        CommandForm::Search => {
            let dirs = split_colon_list(path_var);
            let mut c: Vec<Vec<u8>> = Vec::new();
            let mut i: usize = 0;
            while i < dirs.len()
                invariant
                    i <= dirs@.len(),
                    dirs.deep_view() == split_colon(path_var@),
                    c.deep_view().len() == i,
                    forall|t: int|
                        0 <= t < i ==> c.deep_view()[t] == join_spec(
                            #[trigger] dirs.deep_view()[t],
                            cmd@,
                        ),
                decreases dirs@.len() - i,
            {
                proof {
                    assert(dirs.deep_view()[i as int] == dirs@[i as int]@);
                }
                let joined = join_path(&dirs[i], cmd);
                c.push(joined);
                i = i + 1;
            }
            proof {
                assert(c.deep_view() =~= split_colon(path_var@).map_values(
                    |dir: Seq<u8>| join_spec(dir, cmd@),
                ));
            }
            c
        },
    }
}

/// The first candidate that exists, probed lazily in order: `exists[t]`
/// answers the probe for `candidates[t]`, and no candidate past the
/// winner needs probing.
pub fn first_existing(candidates: &Vec<Vec<u8>>, exists: &Vec<bool>) -> (r: Option<usize>)
    requires
        exists@.len() == candidates@.len(),
    ensures
        match r {
            Some(k) => k < candidates@.len() && exists@[k as int] && forall|t: int|
                0 <= t < k ==> !exists@[t],
            None => forall|t: int| 0 <= t < candidates@.len() ==> !exists@[t],
        },
{
    let mut i: usize = 0;
    while i < candidates.len()
        invariant
            i <= candidates@.len(),
            exists@.len() == candidates@.len(),
            forall|t: int| 0 <= t < i ==> !exists@[t],
        decreases candidates@.len() - i,
    {
        if exists[i] {
            return Some(i);
        }
        i = i + 1;
    }
    None
}

/// The interpreter a script's first line names: the text after `#!`,
/// trimmed; a first line without the marker falls back to the given
/// shell.
pub open spec fn interpreter_spec(first_line: Seq<u8>, shell_fallback: Seq<u8>) -> Seq<u8> {
    if first_line.len() >= 2 && first_line[0] == 35 && first_line[1] == 33 {
        trim_spec(first_line.subrange(2, first_line.len() as int))
    } else {
        shell_fallback
    }
}

/// The argument vector a resolved file is spawned with: a file whose
/// first line is readable text is a script, run by its interpreter with
/// the script path prepended; a file without one is the program itself.
pub open spec fn script_argv_spec(
    path: Seq<u8>,
    first_line: Option<Seq<u8>>,
    shell_fallback: Seq<u8>,
    args: Seq<Seq<u8>>,
) -> Seq<Seq<u8>> {
    match first_line {
        Some(l) => seq![interpreter_spec(l, shell_fallback), path] + args,
        None => seq![path] + args,
    }
}

/// Build the spawn vector for a resolved file, given its first line if
/// it had a readable one.
pub fn script_argv(
    path: &Vec<u8>,
    first_line: &Option<Vec<u8>>,
    shell_fallback: &Vec<u8>,
    args: &Vec<Vec<u8>>,
) -> (argv: Vec<Vec<u8>>)
    ensures
        argv.deep_view() == script_argv_spec(
            path@,
            first_line.deep_view(),
            shell_fallback@,
            args.deep_view(),
        ),
{
    let mut argv: Vec<Vec<u8>> = Vec::new();
    match first_line {
        Some(l) => {
            if l.len() >= 2 && l[0] == 35u8 && l[1] == 33u8 {
                let n = l.len();
                let mut rest: Vec<u8> = Vec::new();
                push_range(&mut rest, l, 2, n);
                let interp = trim_bytes(&rest);
                argv.push(interp);
            } else {
                argv.push(clone_bytes(shell_fallback));
            }
            argv.push(clone_bytes(path));
        },
        None => {
            argv.push(clone_bytes(path));
        },
    }
    let mut i: usize = 0;
    let ghost base = argv.deep_view();
    while i < args.len()
        invariant
            i <= args@.len(),
            argv.deep_view().len() == base.len() + i,
            forall|t: int| 0 <= t < base.len() ==> argv.deep_view()[t] == #[trigger] base[t],
            forall|t: int|
                0 <= t < i ==> argv.deep_view()[base.len() + t] == #[trigger] args.deep_view()[t],
        decreases args@.len() - i,
    {
        argv.push(clone_bytes(&args[i]));
        i = i + 1;
    }
    proof {
        assert(argv.deep_view() =~= base + args.deep_view());
        match first_line {
            Some(l) => {
                assert(base =~= seq![
                    interpreter_spec(l@, shell_fallback@),
                    path@,
                ]);
            },
            None => {
                assert(base =~= seq![path@]);
            },
        }
    }
    argv
}

/// What the dispatcher does with a typed command.
#[derive(Clone, Copy, Debug, PartialEq, Eq, Structural)]
pub enum DispatchDecision {
    /// The redirect list failed resolution: report it, exit status 1,
    /// and never spawn.
    FailRedirect,
    /// The name is a builtin: invoke it in-process, no spawn.
    RunBuiltin,
    /// No executable was found for the name.
    CommandNotFound,
    /// Spawn the resolved program.
    SpawnProgram,
}

/// The dispatcher's rule, in order: a failed redirect list ends the
/// command; a builtin name runs in-process; a name with no executable
/// fails; otherwise the resolved program is spawned.
pub open spec fn dispatch_spec(redirects_ok: bool, is_builtin: bool, found: bool) -> DispatchDecision {
    if !redirects_ok {
        DispatchDecision::FailRedirect
    } else if is_builtin {
        DispatchDecision::RunBuiltin
    } else if !found {
        DispatchDecision::CommandNotFound
    } else {
        DispatchDecision::SpawnProgram
    }
}

/// Decide what a typed command does. A command whose redirect list
/// failed resolution is never spawned.
pub fn dispatch_decision(redirects_ok: bool, is_builtin: bool, found: bool) -> (d: DispatchDecision)
    ensures
        d == dispatch_spec(redirects_ok, is_builtin, found),
        !redirects_ok ==> d == DispatchDecision::FailRedirect,
{
    if !redirects_ok {
        DispatchDecision::FailRedirect
    } else if is_builtin {
        DispatchDecision::RunBuiltin
    } else if !found {
        DispatchDecision::CommandNotFound
    } else {
        DispatchDecision::SpawnProgram
    }
}

/// The exit status of a command that never ran: an unresolvable name
/// exits with the command-not-found code, every other dispatch failure
/// with plain failure.
pub fn failed_dispatch_status(d: DispatchDecision) -> (s: i32)
    requires
        d == DispatchDecision::FailRedirect || d == DispatchDecision::CommandNotFound,
    ensures
        s == if d == DispatchDecision::CommandNotFound {
            EXIT_CMD_NOT_FOUND
        } else {
            EXIT_FAILURE
        },
{
    match d {
        DispatchDecision::CommandNotFound => EXIT_CMD_NOT_FOUND,
        _ => EXIT_FAILURE,
    }
}

} // verus!
