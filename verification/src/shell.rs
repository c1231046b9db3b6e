//! The shell's state and the read-eval loop's decisions: how a finished
//! line is expanded, executed and persisted, and how spawn results and
//! interruptions update the state.

use vstd::prelude::*;

use crate::history::{
    append_model, expand_model, history_append, history_expansion, ExpansionModel,
    HistoryExpansion,
};
use crate::{EXIT_CRITICAL_FAILURE, EXIT_INTERRUPTED, EXIT_SUCCESS};

verus! {

/// The state a running shell owns for its whole lifetime.
pub struct Shell {
    /// The working directory.
    pub pwd: Vec<u8>,
    /// The shell-variable overlay, distinct from the exported
    /// environment.
    pub vars: Vec<(Vec<u8>, Vec<u8>)>,
    /// The positional arguments.
    pub args: Vec<Vec<u8>>,
    /// The exit status of the last command.
    pub last_exit_status: i32,
    /// The pid of the last background job, if any was spawned.
    pub last_job_pid: Option<u32>,
    /// The ordered log of accepted input lines.
    pub history: Vec<Vec<u8>>,
    /// Where the history log is persisted.
    pub history_path: Vec<u8>,
    /// Whether the editor echoes its redraw bytes.
    pub should_echo: bool,
}

/// What the read-eval loop does with a finished line.
pub enum LineDisposition {
    /// The line was rewritten by history expansion: offer the new text
    /// back to the editor instead of running anything.
    Reoffer(Vec<u8>),
    /// This token named no history entry: report
    /// `<token>: event not found` and run nothing.
    NotFound(Vec<u8>),
    /// Run the line; the flag says whether it was appended to the
    /// history log (and so is owed to the backing file).
    Execute(bool),
}

impl Shell {
    /// A fresh shell: no history, no variables, success status, no
    /// background job.
    pub fn new(should_echo: bool, pwd: Vec<u8>, args: Vec<Vec<u8>>, history_path: Vec<u8>) -> (r:
        Shell)
        ensures
            r.pwd == pwd,
            r.vars@.len() == 0,
            r.args == args,
            r.last_exit_status == EXIT_SUCCESS,
            r.last_job_pid is None,
            r.history@.len() == 0,
            r.history_path == history_path,
            r.should_echo == should_echo,
    {
        Shell {
            pwd,
            vars: Vec::new(),
            args,
            last_exit_status: EXIT_SUCCESS,
            last_job_pid: None,
            history: Vec::new(),
            history_path,
            should_echo,
        }
    }

    /// Take a finished line: expand it against the history, and when
    /// nothing changed, append it to the log and have it run.
    ///
    /// The persistence point is pinned here: only a line that expansion
    /// left unchanged is offered to the log; an expanded line is
    /// re-offered to the editor first, and a line that resolved to
    /// `EventNotFound` is never persisted.
    pub fn accept_line(&mut self, input: &Vec<u8>) -> (d: LineDisposition)
        ensures
            match expand_model(input@, old(self).history.deep_view()) {
                ExpansionModel::Expanded(x) => {
                    &&& d matches LineDisposition::Reoffer(t) && t@ == x
                    &&& *final(self) == *old(self)
                },
                ExpansionModel::EventNotFound(e) => {
                    &&& d matches LineDisposition::NotFound(t) && t@ == e
                    &&& *final(self) == *old(self)
                },
                ExpansionModel::Unchanged => {
                    &&& d matches LineDisposition::Execute(appended) && appended == (input@.len()
                        > 0 && (old(self).history@.len() == 0 || old(
                        self,
                    ).history.deep_view().last() != input@))
                    &&& final(self).history.deep_view() == append_model(
                        old(self).history.deep_view(),
                        input@,
                    )
                    &&& final(self).pwd == old(self).pwd
                    &&& final(self).vars == old(self).vars
                    &&& final(self).args == old(self).args
                    &&& final(self).last_exit_status == old(self).last_exit_status
                    &&& final(self).last_job_pid == old(self).last_job_pid
                    &&& final(self).history_path == old(self).history_path
                    &&& final(self).should_echo == old(self).should_echo
                },
            },
    {
        let expansion = history_expansion(&self.history, input);
        match expansion {
            HistoryExpansion::Expanded(x) => LineDisposition::Reoffer(x),
            HistoryExpansion::EventNotFound(t) => LineDisposition::NotFound(t),
            HistoryExpansion::Unchanged => {
                let appended = history_append(&mut self.history, input);
                LineDisposition::Execute(appended)
            },
        }
    }

    /// Record that the line reader was interrupted: the conventional
    /// interrupted status, nothing else touched.
    pub fn mark_interrupted(&mut self)
        ensures
            final(self).last_exit_status == EXIT_INTERRUPTED,
            final(self).pwd == old(self).pwd,
            final(self).vars == old(self).vars,
            final(self).args == old(self).args,
            final(self).last_job_pid == old(self).last_job_pid,
            final(self).history == old(self).history,
            final(self).history_path == old(self).history_path,
            final(self).should_echo == old(self).should_echo,
    {
        self.last_exit_status = EXIT_INTERRUPTED;
    }

    /// Feed a finished command's result into the state: its exit status
    /// as reported, or the critical-failure status when the dispatcher
    /// itself failed.
    pub fn finish_command(&mut self, ok: bool, code: i32)
        ensures
            final(self).last_exit_status == if ok {
                code
            } else {
                EXIT_CRITICAL_FAILURE
            },
            final(self).pwd == old(self).pwd,
            final(self).vars == old(self).vars,
            final(self).args == old(self).args,
            final(self).last_job_pid == old(self).last_job_pid,
            final(self).history == old(self).history,
            final(self).history_path == old(self).history_path,
            final(self).should_echo == old(self).should_echo,
    {
        self.last_exit_status = if ok {
            code
        } else {
            EXIT_CRITICAL_FAILURE
        };
    }

    /// Track the pid of a spawn that went to the background.
    pub fn record_background_job(&mut self, pid: u32)
        ensures
            final(self).last_job_pid == Some(pid),
            final(self).pwd == old(self).pwd,
            final(self).vars == old(self).vars,
            final(self).args == old(self).args,
            final(self).last_exit_status == old(self).last_exit_status,
            final(self).history == old(self).history,
            final(self).history_path == old(self).history_path,
            final(self).should_echo == old(self).should_echo,
    {
        self.last_job_pid = Some(pid);
    }
}

/// The suffix of the per-user history file: `/.wash_history`.
pub open spec fn history_suffix() -> Seq<u8> {
    seq![47u8, 46u8, 119u8, 97u8, 115u8, 104u8, 95u8, 104u8, 105u8, 115u8, 116u8, 111u8, 114u8, 121u8]
}

/// The history file path under a base directory (the home directory
/// when it exists, the working directory otherwise).
pub fn history_path_for(base: &Vec<u8>) -> (r: Vec<u8>)
    ensures
        r@ == base@ + history_suffix(),
{
    let mut r = crate::bytes::clone_bytes(base);
    r.push(47u8);
    r.push(46u8);
    r.push(119u8);
    r.push(97u8);
    r.push(115u8);
    r.push(104u8);
    r.push(95u8);
    r.push(104u8);
    r.push(105u8);
    r.push(115u8);
    r.push(116u8);
    r.push(111u8);
    r.push(114u8);
    r.push(121u8);
    proof {
        assert(r@ =~= base@ + history_suffix());
    }
    r
}

} // verus!
