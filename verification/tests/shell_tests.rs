use wash::shell::{history_path_for, LineDisposition, Shell};
use wash::{EXIT_CRITICAL_FAILURE, EXIT_INTERRUPTED, EXIT_SUCCESS};

fn v(s: &str) -> Vec<u8> {
    s.as_bytes().to_vec()
}

fn fresh_shell() -> Shell {
    Shell::new(true, v("/home/me"), Vec::new(), v("/home/me/.wash_history"))
}

#[test]
fn new_shell_starts_clean() {
    let sh = fresh_shell();
    assert_eq!(sh.pwd, v("/home/me"));
    assert!(sh.vars.is_empty());
    assert!(sh.args.is_empty());
    assert_eq!(sh.last_exit_status, EXIT_SUCCESS);
    assert_eq!(sh.last_job_pid, None);
    assert!(sh.history.is_empty());
    assert_eq!(sh.history_path, v("/home/me/.wash_history"));
    assert!(sh.should_echo);
}

#[test]
fn history_path_under_base_directory() {
    assert_eq!(history_path_for(&v("/root")), v("/root/.wash_history"));
}

#[test]
fn plain_line_is_executed_and_persisted() {
    let mut sh = fresh_shell();
    match sh.accept_line(&v("ls")) {
        LineDisposition::Execute(appended) => assert!(appended),
        _ => panic!("expected execution"),
    }
    assert_eq!(sh.history, vec![v("ls")]);
}

#[test]
fn repeated_line_is_executed_but_not_persisted_twice() {
    let mut sh = fresh_shell();
    let _ = sh.accept_line(&v("ls"));
    match sh.accept_line(&v("ls")) {
        LineDisposition::Execute(appended) => assert!(!appended),
        _ => panic!("expected execution"),
    }
    assert_eq!(sh.history, vec![v("ls")]);
}

#[test]
fn expanded_line_is_reoffered_not_persisted() {
    let mut sh = fresh_shell();
    let _ = sh.accept_line(&v("pwd"));
    match sh.accept_line(&v("!!")) {
        LineDisposition::Reoffer(t) => assert_eq!(t, v("pwd")),
        _ => panic!("expected a reoffer"),
    }
    // Only the original line is in the log; the reoffered text is
    // persisted when it comes back unchanged.
    assert_eq!(sh.history, vec![v("pwd")]);
}

#[test]
fn unresolved_event_is_reported_and_not_persisted() {
    let mut sh = fresh_shell();
    let _ = sh.accept_line(&v("pwd"));
    match sh.accept_line(&v("!zz")) {
        LineDisposition::NotFound(t) => assert_eq!(t, v("!zz")),
        _ => panic!("expected event not found"),
    }
    assert_eq!(sh.history, vec![v("pwd")]);
}

#[test]
fn reoffered_line_executes_on_second_pass() {
    let mut sh = fresh_shell();
    let _ = sh.accept_line(&v("pwd"));
    let reoffered = match sh.accept_line(&v("!!")) {
        LineDisposition::Reoffer(t) => t,
        _ => panic!("expected a reoffer"),
    };
    match sh.accept_line(&reoffered) {
        LineDisposition::Execute(appended) => assert!(!appended),
        _ => panic!("expected execution"),
    }
    assert_eq!(sh.history, vec![v("pwd")]);
}

#[test]
fn interruption_sets_conventional_status() {
    let mut sh = fresh_shell();
    sh.mark_interrupted();
    assert_eq!(sh.last_exit_status, EXIT_INTERRUPTED);
    assert_eq!(sh.last_exit_status, 130);
}

#[test]
fn finished_command_status_is_recorded() {
    let mut sh = fresh_shell();
    sh.finish_command(true, 7);
    assert_eq!(sh.last_exit_status, 7);
    sh.finish_command(false, 0);
    assert_eq!(sh.last_exit_status, EXIT_CRITICAL_FAILURE);
}

#[test]
fn background_job_pid_is_tracked() {
    let mut sh = fresh_shell();
    sh.record_background_job(4242);
    assert_eq!(sh.last_job_pid, Some(4242));
}
