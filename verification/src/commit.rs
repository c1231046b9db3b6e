//! The redirect committer's plan: the exact ordered list of descriptor
//! operations that applying a redirect list requires. Executing the
//! operations (open, dup2, close) is the caller's unverified edge; the
//! plan itself — which operation, on which path and slots, in which
//! order — is verified.

use vstd::prelude::*;

use crate::bytes::clone_bytes;
use crate::redirect::{Redirect, RedirectModel};
use crate::{STDIN, STDOUT};

verus! {

/// The access mode a file redirect opens its path with.
#[derive(Clone, Copy, Debug, PartialEq, Eq, Structural)]
pub enum OpenMode {
    /// Read-only.
    ReadOnly,
    /// Write, truncating, creating if absent.
    WriteTruncate,
    /// Write, appending, creating if absent.
    Append,
    /// Read and write, creating if absent.
    ReadWriteCreate,
}

/// One descriptor operation of the committed plan.
pub enum FdAction {
    /// Open `path` with `mode`, duplicate the new descriptor onto
    /// `target`, then close the new descriptor.
    OpenAndDup { path: Vec<u8>, mode: OpenMode, target: u32 },
    /// Duplicate `src` onto `dst`, then close `src` (pipe ends).
    DupClose { src: u32, dst: u32 },
    /// Duplicate `src` onto `dst` and keep `src` open: the shell may
    /// still need the source of an explicit `Duplicate`.
    DupKeep { src: u32, dst: u32 },
    /// Close `fd`.
    CloseFd { fd: u32 },
}

/// The mathematical image of an [`FdAction`].
pub ghost enum ActionModel {
    OpenAndDup { path: Seq<u8>, mode: OpenMode, target: u32 },
    DupClose { src: u32, dst: u32 },
    DupKeep { src: u32, dst: u32 },
    CloseFd { fd: u32 },
}

impl DeepView for FdAction {
    type V = ActionModel;

    open spec fn deep_view(&self) -> ActionModel {
        match self {
            FdAction::OpenAndDup { path, mode, target } => ActionModel::OpenAndDup {
                path: path@,
                mode: *mode,
                target: *target,
            },
            FdAction::DupClose { src, dst } => ActionModel::DupClose { src: *src, dst: *dst },
            FdAction::DupKeep { src, dst } => ActionModel::DupKeep { src: *src, dst: *dst },
            FdAction::CloseFd { fd } => ActionModel::CloseFd { fd: *fd },
        }
    }
}

/// The operation a single redirect request commits to.
pub open spec fn action_of(r: RedirectModel) -> ActionModel {
    match r {
        RedirectModel::Read(fd, p) => ActionModel::OpenAndDup {
            path: p,
            mode: OpenMode::ReadOnly,
            target: fd,
        },
        RedirectModel::Write(fd, p) => ActionModel::OpenAndDup {
            path: p,
            mode: OpenMode::WriteTruncate,
            target: fd,
        },
        RedirectModel::Append(fd, p) => ActionModel::OpenAndDup {
            path: p,
            mode: OpenMode::Append,
            target: fd,
        },
        RedirectModel::ReadWrite(fd, p) => ActionModel::OpenAndDup {
            path: p,
            mode: OpenMode::ReadWriteCreate,
            target: fd,
        },
        RedirectModel::PipeIn(fd) => ActionModel::DupClose { src: fd, dst: STDIN },
        RedirectModel::PipeOut(fd) => ActionModel::DupClose { src: fd, dst: STDOUT },
        RedirectModel::Duplicate { fd_src, fd_dst } => ActionModel::DupKeep {
            src: fd_src,
            dst: fd_dst,
        },
        RedirectModel::Close(fd) => ActionModel::CloseFd { fd },
    }
}

/// The committed plan of a redirect list: one operation per request, in
/// the request order. Duplicating onto a target happens in the same
/// operation that opens it, before any temporary descriptor is closed,
/// and only an explicit `Duplicate` keeps its source open.
pub fn commit_plan(redirects: &Vec<Redirect>) -> (plan: Vec<FdAction>)
    ensures
        plan.deep_view().len() == redirects.deep_view().len(),
        forall|i: int|
            0 <= i < redirects.deep_view().len() ==> plan.deep_view()[i] == action_of(
                #[trigger] redirects.deep_view()[i],
            ),
{
    let mut plan: Vec<FdAction> = Vec::new();
    let mut i: usize = 0;
    while i < redirects.len()
        invariant
            i <= redirects@.len(),
            plan.deep_view().len() == i,
            forall|t: int|
                0 <= t < i ==> plan.deep_view()[t] == action_of(
                    #[trigger] redirects.deep_view()[t],
                ),
        decreases redirects@.len() - i,
    {
        proof {
            assert(redirects.deep_view()[i as int] == redirects@[i as int].deep_view());
        }
        let action = match &redirects[i] {
            Redirect::Read(fd, path) => FdAction::OpenAndDup {
                path: clone_bytes(path),
                mode: OpenMode::ReadOnly,
                target: *fd,
            },
            Redirect::Write(fd, path) => FdAction::OpenAndDup {
                path: clone_bytes(path),
                mode: OpenMode::WriteTruncate,
                target: *fd,
            },
            Redirect::Append(fd, path) => FdAction::OpenAndDup {
                path: clone_bytes(path),
                mode: OpenMode::Append,
                target: *fd,
            },
            Redirect::ReadWrite(fd, path) => FdAction::OpenAndDup {
                path: clone_bytes(path),
                mode: OpenMode::ReadWriteCreate,
                target: *fd,
            },
            Redirect::PipeIn(fd) => FdAction::DupClose { src: *fd, dst: STDIN },
            Redirect::PipeOut(fd) => FdAction::DupClose { src: *fd, dst: STDOUT },
            Redirect::Duplicate { fd_src, fd_dst } => FdAction::DupKeep {
                src: *fd_src,
                dst: *fd_dst,
            },
            Redirect::Close(fd) => FdAction::CloseFd { fd: *fd },
        };
        plan.push(action);
        i = i + 1;
    }
    plan
}

} // verus!
