use wash::commit::{commit_plan, FdAction, OpenMode};
use wash::dispatch::{dispatch_decision, failed_dispatch_status, DispatchDecision};
use wash::redirect::{preprocess_redirects, DescriptorState, Redirect, RedirectError};

fn v(s: &str) -> Vec<u8> {
    s.as_bytes().to_vec()
}

#[test]
fn duplicate_shares_pending_target() {
    // A Duplicate after an earlier redirect on its source inherits that
    // same redirect, not a separate duplicate of the raw descriptor.
    let redirects = vec![
        Redirect::Write(1, v("out.txt")),
        Redirect::Duplicate { fd_src: 1, fd_dst: 2 },
    ];
    let probes = vec![false, true];
    let t = preprocess_redirects(&redirects, &probes).unwrap();
    assert_eq!(t.table.get_state(1), Some(DescriptorState::Redirected(0)));
    assert_eq!(t.table.get_state(2), Some(DescriptorState::Redirected(0)));
    assert!(t.out_redirected);
    assert!(t.err_redirected);
}

#[test]
fn duplicate_chain_shares_target() {
    let redirects = vec![
        Redirect::Append(5, v("log.txt")),
        Redirect::Duplicate { fd_src: 5, fd_dst: 6 },
        Redirect::Duplicate { fd_src: 6, fd_dst: 7 },
    ];
    let probes = vec![false, true, true];
    let t = preprocess_redirects(&redirects, &probes).unwrap();
    assert_eq!(t.table.get_state(5), Some(DescriptorState::Redirected(0)));
    assert_eq!(t.table.get_state(6), Some(DescriptorState::Redirected(0)));
    assert_eq!(t.table.get_state(7), Some(DescriptorState::Redirected(0)));
}

#[test]
fn close_then_close_is_bad_descriptor() {
    let redirects = vec![Redirect::Close(5), Redirect::Close(5)];
    let probes = vec![true, true];
    let r = preprocess_redirects(&redirects, &probes);
    assert_eq!(r.err().unwrap(), RedirectError::BadFileDescriptor(5));
}

#[test]
fn close_then_duplicate_is_bad_descriptor() {
    let redirects = vec![
        Redirect::Close(1),
        Redirect::Duplicate { fd_src: 1, fd_dst: 4 },
    ];
    let probes = vec![true, true];
    let r = preprocess_redirects(&redirects, &probes);
    assert_eq!(r.err().unwrap(), RedirectError::BadFileDescriptor(1));
}

#[test]
fn write_to_directory_fails_and_never_spawns() {
    let redirects = vec![Redirect::Write(1, v("somedir"))];
    // The probe answers: the path is an existing directory.
    let probes = vec![true];
    let r = preprocess_redirects(&redirects, &probes);
    assert_eq!(r.err().unwrap(), RedirectError::IsADirectory(0));
    // The dispatcher never spawns a command whose redirects failed.
    let d = dispatch_decision(false, false, true);
    assert_eq!(d, DispatchDecision::FailRedirect);
    assert_eq!(failed_dispatch_status(d), 1);
}

#[test]
fn read_from_missing_path_fails() {
    let redirects = vec![Redirect::Read(0, v("nope"))];
    let probes = vec![false];
    let r = preprocess_redirects(&redirects, &probes);
    assert_eq!(r.err().unwrap(), RedirectError::NotFound(0));
}

#[test]
fn read_from_existing_path_resolves() {
    let redirects = vec![Redirect::Read(0, v("input.txt"))];
    let probes = vec![true];
    let t = preprocess_redirects(&redirects, &probes).unwrap();
    assert_eq!(t.table.get_state(0), Some(DescriptorState::Redirected(0)));
    assert!(!t.out_redirected);
    assert!(!t.err_redirected);
}

#[test]
fn pipes_resolve_before_descriptor_redirects() {
    // The pipe claims slot 1 first; the later file redirect on slot 1
    // then overwrites it, whatever the list order was.
    let redirects = vec![Redirect::Write(1, v("f")), Redirect::PipeOut(5)];
    let probes = vec![false, false];
    let t = preprocess_redirects(&redirects, &probes).unwrap();
    assert_eq!(t.table.get_state(1), Some(DescriptorState::Redirected(0)));
    assert!(t.out_redirected);
}

#[test]
fn pipe_in_claims_stdin() {
    let redirects = vec![Redirect::PipeIn(6)];
    let probes = vec![false];
    let t = preprocess_redirects(&redirects, &probes).unwrap();
    assert_eq!(t.table.get_state(0), Some(DescriptorState::Redirected(0)));
    assert!(!t.out_redirected);
}

#[test]
fn duplicate_untracked_probes_the_descriptor() {
    let redirects = vec![Redirect::Duplicate { fd_src: 7, fd_dst: 8 }];
    let t = preprocess_redirects(&redirects, &vec![true]).unwrap();
    assert_eq!(t.table.get_state(7), Some(DescriptorState::Opened));
    assert_eq!(t.table.get_state(8), Some(DescriptorState::Redirected(0)));
    let r = preprocess_redirects(&redirects, &vec![false]);
    assert_eq!(r.err().unwrap(), RedirectError::BadFileDescriptor(7));
}

#[test]
fn close_untracked_invalid_fd_fails() {
    let redirects = vec![Redirect::Close(9)];
    let r = preprocess_redirects(&redirects, &vec![false]);
    assert_eq!(r.err().unwrap(), RedirectError::BadFileDescriptor(9));
}

#[test]
fn close_standard_stream_is_tracked() {
    let redirects = vec![Redirect::Close(1)];
    // Slot 1 is pre-seeded as inherited open: no probe consulted.
    let probes = vec![false];
    let t = preprocess_redirects(&redirects, &probes).unwrap();
    assert_eq!(t.table.get_state(1), Some(DescriptorState::Closed));
    assert!(t.out_redirected);
}

#[test]
fn first_error_wins() {
    let redirects = vec![
        Redirect::Read(0, v("missing")),
        Redirect::Close(5),
        Redirect::Close(5),
    ];
    let probes = vec![false, true, true];
    let r = preprocess_redirects(&redirects, &probes);
    assert_eq!(r.err().unwrap(), RedirectError::NotFound(0));
}

#[test]
fn commit_plan_maps_each_request() {
    let redirects = vec![
        Redirect::Read(0, v("in")),
        Redirect::Write(1, v("out")),
        Redirect::Append(2, v("log")),
        Redirect::ReadWrite(3, v("rw")),
        Redirect::PipeIn(5),
        Redirect::PipeOut(6),
        Redirect::Duplicate { fd_src: 1, fd_dst: 2 },
        Redirect::Close(4),
    ];
    let plan = commit_plan(&redirects);
    assert_eq!(plan.len(), 8);
    match &plan[0] {
        FdAction::OpenAndDup { path, mode, target } => {
            assert_eq!(path, &v("in"));
            assert_eq!(*mode, OpenMode::ReadOnly);
            assert_eq!(*target, 0);
        }
        _ => panic!("expected an open"),
    }
    match &plan[1] {
        FdAction::OpenAndDup { path, mode, target } => {
            assert_eq!(path, &v("out"));
            assert_eq!(*mode, OpenMode::WriteTruncate);
            assert_eq!(*target, 1);
        }
        _ => panic!("expected an open"),
    }
    match &plan[2] {
        FdAction::OpenAndDup { mode, target, .. } => {
            assert_eq!(*mode, OpenMode::Append);
            assert_eq!(*target, 2);
        }
        _ => panic!("expected an open"),
    }
    match &plan[3] {
        FdAction::OpenAndDup { mode, target, .. } => {
            assert_eq!(*mode, OpenMode::ReadWriteCreate);
            assert_eq!(*target, 3);
        }
        _ => panic!("expected an open"),
    }
    assert!(matches!(plan[4], FdAction::DupClose { src: 5, dst: 0 }));
    assert!(matches!(plan[5], FdAction::DupClose { src: 6, dst: 1 }));
    assert!(matches!(plan[6], FdAction::DupKeep { src: 1, dst: 2 }));
    assert!(matches!(plan[7], FdAction::CloseFd { fd: 4 }));
}
