use wash::dispatch::{
    classify_command, command_candidates, dispatch_decision, failed_dispatch_status,
    first_existing, join_path, script_argv, split_colon_list, CommandForm, DispatchDecision,
};
use wash::spawn::{
    background_result, child_argv, env_assignment, env_assignments, foreground_result, prog_name,
    wait_policy, wait_step, SpawnResult,
};
use wash::{EXIT_CMD_NOT_FOUND, EXIT_FAILURE, EXIT_SUCCESS};

fn v(s: &str) -> Vec<u8> {
    s.as_bytes().to_vec()
}

#[test]
fn classify_by_leading_byte() {
    assert_eq!(classify_command(&v("/bin/ls")), CommandForm::Absolute);
    assert_eq!(classify_command(&v("./run.sh")), CommandForm::Relative);
    assert_eq!(classify_command(&v(".hidden")), CommandForm::Relative);
    assert_eq!(classify_command(&v("ls")), CommandForm::Search);
    assert_eq!(classify_command(&v("")), CommandForm::Search);
}

#[test]
fn split_path_variable_on_colons() {
    let parts = split_colon_list(&v("/bin:/usr/bin:"));
    assert_eq!(parts, vec![v("/bin"), v("/usr/bin"), v("")]);
    assert_eq!(split_colon_list(&v("")), vec![v("")]);
    assert_eq!(split_colon_list(&v("/sbin")), vec![v("/sbin")]);
}

#[test]
fn join_path_inserts_separator_when_needed() {
    assert_eq!(join_path(&v("/bin"), &v("ls")), v("/bin/ls"));
    assert_eq!(join_path(&v("/bin/"), &v("ls")), v("/bin/ls"));
    assert_eq!(join_path(&v(""), &v("ls")), v("ls"));
}

#[test]
fn absolute_command_has_one_candidate() {
    let c = command_candidates(&v("/bin/ls"), &v("/home"), &v("/bin:/usr/bin"));
    assert_eq!(c, vec![v("/bin/ls")]);
}

#[test]
fn relative_command_joins_working_directory() {
    let c = command_candidates(&v("./run.sh"), &v("/home/me"), &v("/bin"));
    assert_eq!(c, vec![v("/home/me/./run.sh")]);
}

#[test]
fn search_command_walks_path_in_order() {
    let c = command_candidates(&v("ls"), &v("/home"), &v("/bin:/usr/bin"));
    assert_eq!(c, vec![v("/bin/ls"), v("/usr/bin/ls")]);
}

#[test]
fn first_existing_takes_the_first_match() {
    let c = vec![v("/bin/ls"), v("/usr/bin/ls"), v("/sbin/ls")];
    assert_eq!(first_existing(&c, &vec![false, true, true]), Some(1));
    assert_eq!(first_existing(&c, &vec![false, false, false]), None);
    assert_eq!(first_existing(&Vec::new(), &Vec::new()), None);
}

#[test]
fn script_with_marker_runs_its_interpreter() {
    let argv = script_argv(
        &v("/home/run.sh"),
        &Some(v("#!/bin/sh ")),
        &v("/bin/wash"),
        &vec![v("-x")],
    );
    assert_eq!(argv, vec![v("/bin/sh"), v("/home/run.sh"), v("-x")]);
}

#[test]
fn script_without_marker_falls_back_to_shell() {
    let argv = script_argv(
        &v("/home/run.sh"),
        &Some(v("echo hi")),
        &v("/bin/wash"),
        &Vec::new(),
    );
    assert_eq!(argv, vec![v("/bin/wash"), v("/home/run.sh")]);
}

#[test]
fn binary_runs_directly() {
    let argv = script_argv(&v("/bin/true"), &None, &v("/bin/wash"), &vec![v("a")]);
    assert_eq!(argv, vec![v("/bin/true"), v("a")]);
}

#[test]
fn dispatch_order_builtin_then_search() {
    assert_eq!(dispatch_decision(true, true, false), DispatchDecision::RunBuiltin);
    assert_eq!(dispatch_decision(true, false, true), DispatchDecision::SpawnProgram);
    assert_eq!(dispatch_decision(true, false, false), DispatchDecision::CommandNotFound);
    assert_eq!(dispatch_decision(false, true, true), DispatchDecision::FailRedirect);
}

#[test]
fn failed_dispatch_statuses() {
    assert_eq!(
        failed_dispatch_status(DispatchDecision::CommandNotFound),
        EXIT_CMD_NOT_FOUND
    );
    assert_eq!(failed_dispatch_status(DispatchDecision::FailRedirect), EXIT_FAILURE);
}

#[test]
fn prog_name_is_the_basename() {
    assert_eq!(prog_name(&v("/usr/bin/ls")), v("ls"));
    assert_eq!(prog_name(&v("ls")), v("ls"));
    assert_eq!(prog_name(&v("/usr/bin/")), v(""));
}

#[test]
fn child_argv_rewrites_argument_zero() {
    let argv = child_argv(&v("/bin/cat"), &vec![v("-n"), v("f.txt")]);
    assert_eq!(argv, vec![v("cat"), v("-n"), v("f.txt")]);
}

#[test]
fn env_entries_are_key_equals_value() {
    assert_eq!(env_assignment(&v("HOME"), &v("/root")), v("HOME=/root"));
    let all = env_assignments(&vec![(v("A"), v("1")), (v("B"), v(""))]);
    assert_eq!(all, vec![v("A=1"), v("B=")]);
}

#[test]
fn background_spawn_returns_without_waiting() {
    // No child to wait for, and a synthetic success status at once.
    assert_eq!(wait_policy(true, 42), None);
    assert_eq!(
        background_result(42),
        SpawnResult { exit_status: EXIT_SUCCESS, pid: 42 }
    );
    // The same spawn in the foreground waits for exactly its child.
    assert_eq!(wait_policy(false, 42), Some(42));
    assert_eq!(
        foreground_result(42, 3),
        SpawnResult { exit_status: 3, pid: 42 }
    );
}

#[test]
fn wait_loop_skips_unrelated_children() {
    assert_eq!(wait_step(42, 17, 0), None);
    assert_eq!(wait_step(42, 42, 7), Some(7));
}
