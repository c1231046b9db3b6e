//! Redirect resolution: turning an ordered list of redirect requests into
//! a descriptor table, or the first error.
//!
//! Resolution is a pure function of the request list plus one probe answer
//! per request (does the path exist, is it a directory, is the descriptor
//! open), so the caller performs the filesystem checks and resolution
//! itself is verified end to end against `resolve_model`.

use vstd::prelude::*;

use crate::{STDERR, STDIN, STDOUT};

verus! {

/// A declarative request to change what a descriptor slot refers to
/// before a program runs.
pub enum Redirect {
    /// Open `path` read-only on slot `fd`.
    Read(u32, Vec<u8>),
    /// Open `path` write+truncate+create on slot `fd`.
    Write(u32, Vec<u8>),
    /// Open `path` write+append+create on slot `fd`.
    Append(u32, Vec<u8>),
    /// Open `path` read+write+create on slot `fd`.
    ReadWrite(u32, Vec<u8>),
    /// Wire a pipe's read end (descriptor `fd`) onto standard input.
    PipeIn(u32),
    /// Wire a pipe's write end (descriptor `fd`) onto standard output.
    PipeOut(u32),
    /// Make `fd_dst` refer to whatever `fd_src` refers to.
    Duplicate { fd_src: u32, fd_dst: u32 },
    /// Close the slot `fd`.
    Close(u32),
}

/// The mathematical image of a [`Redirect`], with paths as byte sequences.
pub ghost enum RedirectModel {
    Read(u32, Seq<u8>),
    Write(u32, Seq<u8>),
    Append(u32, Seq<u8>),
    ReadWrite(u32, Seq<u8>),
    PipeIn(u32),
    PipeOut(u32),
    Duplicate { fd_src: u32, fd_dst: u32 },
    Close(u32),
}

impl DeepView for Redirect {
    type V = RedirectModel;

    open spec fn deep_view(&self) -> RedirectModel {
        match self {
            Redirect::Read(fd, p) => RedirectModel::Read(*fd, p@),
            Redirect::Write(fd, p) => RedirectModel::Write(*fd, p@),
            Redirect::Append(fd, p) => RedirectModel::Append(*fd, p@),
            Redirect::ReadWrite(fd, p) => RedirectModel::ReadWrite(*fd, p@),
            Redirect::PipeIn(fd) => RedirectModel::PipeIn(*fd),
            Redirect::PipeOut(fd) => RedirectModel::PipeOut(*fd),
            Redirect::Duplicate { fd_src, fd_dst } => RedirectModel::Duplicate {
                fd_src: *fd_src,
                fd_dst: *fd_dst,
            },
            Redirect::Close(fd) => RedirectModel::Close(*fd),
        }
    }
}

/// What a descriptor slot refers to after resolution.
///
/// `Redirected(i)` points at request `i` of the resolved list: slots that
/// share a target share the index, so a `Duplicate` of a pending redirect
/// inherits exactly that redirect rather than duplicating a raw
/// descriptor.
#[derive(Clone, Copy, Debug, PartialEq, Eq, Structural)]
pub enum DescriptorState {
    /// The slot will be produced by the redirect request with this index.
    Redirected(usize),
    /// The slot is an open descriptor inherited from the parent.
    Opened,
    /// The slot is closed.
    Closed,
}

/// The first error found while resolving a redirect list.
///
/// `NotFound` and `IsADirectory` carry the index of the offending request
/// (whose path names the missing file or the directory);
/// `BadFileDescriptor` carries the offending descriptor.
#[derive(Clone, Copy, Debug, PartialEq, Eq, Structural)]
pub enum RedirectError {
    /// The path of the read redirect at this index does not exist.
    NotFound(usize),
    /// The path of the write redirect at this index is a directory.
    IsADirectory(usize),
    /// A `Duplicate` or `Close` referenced this invalid or closed descriptor.
    BadFileDescriptor(u32),
}

/// The mathematical descriptor table: per-slot states plus the
/// notification flags for the output boundary.
pub ghost struct TableModel {
    /// What each tracked descriptor slot refers to.
    pub fds: Map<u32, DescriptorState>,
    /// Whether standard output ended up affected by some redirect.
    pub out_redirected: bool,
    /// Whether standard error ended up affected by some redirect.
    pub err_redirected: bool,
}

/// The table before any request is processed: the three standard streams
/// are inherited open, nothing is redirected yet.
pub open spec fn init_table() -> TableModel {
    TableModel {
        fds: Map::empty()
            .insert(STDIN, DescriptorState::Opened)
            .insert(STDOUT, DescriptorState::Opened)
            .insert(STDERR, DescriptorState::Opened),
        out_redirected: false,
        err_redirected: false,
    }
}

/// Record that a request affected slot `fd`, for the output boundary.
pub open spec fn mark_affected(m: TableModel, fd: u32) -> TableModel {
    TableModel {
        out_redirected: m.out_redirected || fd == STDOUT,
        err_redirected: m.err_redirected || fd == STDERR,
        ..m
    }
}

/// Update one slot of the table.
pub open spec fn set_fd(m: TableModel, fd: u32, st: DescriptorState) -> TableModel {
    TableModel { fds: m.fds.insert(fd, st), ..m }
}

/// The state of slot `fd`, or `None` if it is untracked.
pub open spec fn fd_state(m: TableModel, fd: u32) -> Option<DescriptorState> {
    if m.fds.contains_key(fd) {
        Some(m.fds[fd])
    } else {
        None
    }
}

/// First pass: a pipe request occupies its standard-stream slot.
pub open spec fn apply_pipe(m: TableModel, r: RedirectModel, i: int) -> TableModel {
    match r {
        RedirectModel::PipeIn(_) => mark_affected(
            set_fd(m, STDIN, DescriptorState::Redirected(i as usize)),
            STDIN,
        ),
        RedirectModel::PipeOut(_) => mark_affected(
            set_fd(m, STDOUT, DescriptorState::Redirected(i as usize)),
            STDOUT,
        ),
        _ => m,
    }
}

/// Second pass: one non-pipe request against the current table.
///
/// `probe` is the caller's answer to the one filesystem question the
/// request raises: for `Read`, whether the path exists; for the write
/// family, whether the path is an existing directory; for `Duplicate`
/// and `Close`, whether the named descriptor is open in the process.
pub open spec fn apply_other(m: TableModel, r: RedirectModel, probe: bool, i: int) -> Result<
    TableModel,
    RedirectError,
> {
    match r {
        RedirectModel::Read(fd, _path) => if !probe {
            Err(RedirectError::NotFound(i as usize))
        } else {
            Ok(mark_affected(set_fd(m, fd, DescriptorState::Redirected(i as usize)), fd))
        },
        RedirectModel::Write(fd, _path) => if probe {
            Err(RedirectError::IsADirectory(i as usize))
        } else {
            Ok(mark_affected(set_fd(m, fd, DescriptorState::Redirected(i as usize)), fd))
        },
        RedirectModel::Append(fd, _path) => if probe {
            Err(RedirectError::IsADirectory(i as usize))
        } else {
            Ok(mark_affected(set_fd(m, fd, DescriptorState::Redirected(i as usize)), fd))
        },
        RedirectModel::ReadWrite(fd, _path) => if probe {
            Err(RedirectError::IsADirectory(i as usize))
        } else {
            Ok(mark_affected(set_fd(m, fd, DescriptorState::Redirected(i as usize)), fd))
        },
        RedirectModel::PipeIn(_) => Ok(m),
        RedirectModel::PipeOut(_) => Ok(m),
        RedirectModel::Duplicate { fd_src, fd_dst } => match fd_state(m, fd_src) {
            Some(DescriptorState::Redirected(j)) => Ok(
                mark_affected(set_fd(m, fd_dst, DescriptorState::Redirected(j)), fd_dst),
            ),
            Some(DescriptorState::Opened) => if probe {
                Ok(
                    mark_affected(
                        set_fd(m, fd_dst, DescriptorState::Redirected(i as usize)),
                        fd_dst,
                    ),
                )
            } else {
                Err(RedirectError::BadFileDescriptor(fd_src))
            },
            Some(DescriptorState::Closed) => Err(RedirectError::BadFileDescriptor(fd_src)),
            None => if probe {
                Ok(
                    mark_affected(
                        set_fd(
                            set_fd(m, fd_src, DescriptorState::Opened),
                            fd_dst,
                            DescriptorState::Redirected(i as usize),
                        ),
                        fd_dst,
                    ),
                )
            } else {
                Err(RedirectError::BadFileDescriptor(fd_src))
            },
        },
        RedirectModel::Close(fd) => match fd_state(m, fd) {
            Some(DescriptorState::Redirected(_)) | Some(DescriptorState::Opened) => Ok(
                mark_affected(set_fd(m, fd, DescriptorState::Closed), fd),
            ),
            Some(DescriptorState::Closed) => Err(RedirectError::BadFileDescriptor(fd)),
            None => if probe {
                Ok(mark_affected(set_fd(m, fd, DescriptorState::Closed), fd))
            } else {
                Err(RedirectError::BadFileDescriptor(fd))
            },
        },
    }
}

/// Fold the pipe pass over requests `i..`.
pub open spec fn resolve_pipes(reds: Seq<RedirectModel>, i: int, m: TableModel) -> TableModel
    decreases reds.len() - i,
{
    if i < 0 || i >= reds.len() {
        m
    } else {
        resolve_pipes(reds, i + 1, apply_pipe(m, reds[i], i))
    }
}

/// Fold the second pass over requests `i..k`, stopping at the first error.
pub open spec fn resolve_upto(
    reds: Seq<RedirectModel>,
    probes: Seq<bool>,
    i: int,
    k: int,
    m: TableModel,
) -> Result<TableModel, RedirectError>
    decreases k - i,
{
    if i < 0 || i >= k || k > reds.len() {
        Ok(m)
    } else {
        match apply_other(m, reds[i], probes[i], i) {
            Ok(m2) => resolve_upto(reds, probes, i + 1, k, m2),
            Err(e) => Err(e),
        }
    }
}

/// The resolver's full specification: pipes first, then the remaining
/// requests in order, over the initial table.
pub open spec fn resolve_model(reds: Seq<RedirectModel>, probes: Seq<bool>) -> Result<
    TableModel,
    RedirectError,
> {
    resolve_upto(
        reds,
        probes,
        0,
        reds.len() as int,
        resolve_pipes(reds, 0, init_table()),
    )
}

/// Whether resolving request `r` in the second pass may change what
/// slot `fd` refers to. Pipe requests never do: they are handled in the
/// first pass.
pub open spec fn retargets(r: RedirectModel, fd: u32) -> bool {
    match r {
        RedirectModel::Read(f, _) => f == fd,
        RedirectModel::Write(f, _) => f == fd,
        RedirectModel::Append(f, _) => f == fd,
        RedirectModel::ReadWrite(f, _) => f == fd,
        RedirectModel::PipeIn(_) => false,
        RedirectModel::PipeOut(_) => false,
        RedirectModel::Duplicate { fd_src, fd_dst } => fd_dst == fd || fd_src == fd,
        RedirectModel::Close(f) => f == fd,
    }
}

/// A request that does not retarget `fd` leaves `fd`'s slot unchanged.
pub proof fn lemma_apply_other_preserves(
    m: TableModel,
    r: RedirectModel,
    probe: bool,
    i: int,
    fd: u32,
)
    requires
        !retargets(r, fd),
    ensures
        apply_other(m, r, probe, i) matches Ok(m2) ==> fd_state(m2, fd) == fd_state(m, fd),
{
}

/// Folding requests `i..k`, none of which retargets `fd`, leaves `fd`'s
/// slot unchanged when it succeeds.
pub proof fn lemma_resolve_upto_preserves(
    reds: Seq<RedirectModel>,
    probes: Seq<bool>,
    i: int,
    k: int,
    m: TableModel,
    fd: u32,
)
    requires
        0 <= i <= k <= reds.len(),
        forall|t: int| i <= t < k ==> !retargets(#[trigger] reds[t], fd),
    ensures
        resolve_upto(reds, probes, i, k, m) matches Ok(m2) ==> fd_state(m2, fd) == fd_state(
            m,
            fd,
        ),
    decreases k - i,
{
    if i < k {
        match apply_other(m, reds[i], probes[i], i) {
            Ok(m2) => {
                lemma_apply_other_preserves(m, reds[i], probes[i], i, fd);
                lemma_resolve_upto_preserves(reds, probes, i + 1, k, m2, fd);
            },
            Err(_) => {},
        }
    }
}

/// Folding `i..k` is folding `i..j` and then `j..k`.
pub proof fn lemma_resolve_upto_decompose(
    reds: Seq<RedirectModel>,
    probes: Seq<bool>,
    i: int,
    j: int,
    k: int,
    m: TableModel,
)
    requires
        0 <= i <= j <= k <= reds.len(),
    ensures
        resolve_upto(reds, probes, i, k, m) == match resolve_upto(reds, probes, i, j, m) {
            Ok(m2) => resolve_upto(reds, probes, j, k, m2),
            Err(e) => Err(e),
        },
    decreases j - i,
{
    if i < j {
        match apply_other(m, reds[i], probes[i], i) {
            Ok(m2) => {
                lemma_resolve_upto_decompose(reds, probes, i + 1, j, k, m2);
            },
            Err(_) => {},
        }
    }
}

/// A successful `Close` leaves the slot `Closed`.
pub proof fn lemma_close_marks_closed(m: TableModel, probe: bool, i: int, fd: u32)
    ensures
        apply_other(m, RedirectModel::Close(fd), probe, i) matches Ok(m2) ==> fd_state(m2, fd)
            == Some(DescriptorState::Closed),
{
}

/// LAW: a `Duplicate` whose source has a pending redirect gives the
/// destination that same pending redirect — the same effective target,
/// never a separate duplicate of the raw descriptor.
pub proof fn lemma_duplicate_shares_target(
    m: TableModel,
    probe: bool,
    i: int,
    src: u32,
    dst: u32,
    j: usize,
)
    requires
        fd_state(m, src) == Some(DescriptorState::Redirected(j)),
    ensures
        apply_other(m, RedirectModel::Duplicate { fd_src: src, fd_dst: dst }, probe, i) == Ok::<
            TableModel,
            RedirectError,
        >(mark_affected(set_fd(m, dst, DescriptorState::Redirected(j)), dst)),
        apply_other(m, RedirectModel::Duplicate { fd_src: src, fd_dst: dst }, probe, i) matches Ok(
            m2,
        ) ==> fd_state(m2, dst) == fd_state(m, src),
{
}

/// LAW: a `Duplicate` at position `k` whose source slot was left as
/// `Redirected(j)` by an earlier request, with nothing in between
/// retargeting the source, resolves its destination to that same
/// pending redirect `j`.
pub proof fn lemma_duplicate_follows_redirect(
    reds: Seq<RedirectModel>,
    probes: Seq<bool>,
    m1: TableModel,
    i1: int,
    k: int,
    src: u32,
    dst: u32,
    j: usize,
    mk: TableModel,
)
    requires
        0 <= i1 <= k < reds.len(),
        probes.len() == reds.len(),
        fd_state(m1, src) == Some(DescriptorState::Redirected(j)),
        forall|t: int| i1 <= t < k ==> !retargets(#[trigger] reds[t], src),
        reds[k] == (RedirectModel::Duplicate { fd_src: src, fd_dst: dst }),
        resolve_upto(reds, probes, i1, k, m1) == Ok::<TableModel, RedirectError>(mk),
    ensures
        apply_other(mk, reds[k], probes[k], k) == Ok::<TableModel, RedirectError>(
            mark_affected(set_fd(mk, dst, DescriptorState::Redirected(j)), dst),
        ),
        apply_other(mk, reds[k], probes[k], k) matches Ok(m2) ==> fd_state(m2, dst) == fd_state(
            m1,
            src,
        ),
{
    lemma_resolve_upto_preserves(reds, probes, i1, k, m1, src);
    lemma_duplicate_shares_target(mk, probes[k], k, src, dst, j);
}

/// LAW: once a request leaves a descriptor `Closed`, any later
/// `Duplicate` from it or `Close` of it — with nothing in between
/// retargeting it — makes the whole resolution fail with
/// `BadFileDescriptor` on that descriptor.
pub proof fn lemma_closed_fd_rejected(
    reds: Seq<RedirectModel>,
    probes: Seq<bool>,
    m1: TableModel,
    i1: int,
    k: int,
    fd: u32,
    mk: TableModel,
)
    requires
        0 <= i1 <= k < reds.len(),
        probes.len() == reds.len(),
        fd_state(m1, fd) == Some(DescriptorState::Closed),
        forall|t: int| i1 <= t < k ==> !retargets(#[trigger] reds[t], fd),
        (reds[k] matches RedirectModel::Duplicate { fd_src, fd_dst } && fd_src == fd) || reds[k]
            == RedirectModel::Close(fd),
        resolve_upto(reds, probes, i1, k, m1) == Ok::<TableModel, RedirectError>(mk),
    ensures
        resolve_upto(reds, probes, i1, reds.len() as int, m1) == Err::<TableModel, RedirectError>(
            RedirectError::BadFileDescriptor(fd),
        ),
{
    lemma_resolve_upto_preserves(reds, probes, i1, k, m1, fd);
    lemma_resolve_upto_decompose(reds, probes, i1, k, reds.len() as int, m1);
    assert(apply_other(mk, reds[k], probes[k], k) == Err::<TableModel, RedirectError>(
        RedirectError::BadFileDescriptor(fd),
    ));
}

/// The descriptor-slot map, as an association list where the latest
/// entry for a descriptor wins.
pub struct FdTable {
    entries: Vec<(u32, DescriptorState)>,
}

/// The map described by an association list, latest entry winning.
pub open spec fn map_of(s: Seq<(u32, DescriptorState)>) -> Map<u32, DescriptorState>
    decreases s.len(),
{
    if s.len() == 0 {
        Map::empty()
    } else {
        map_of(s.drop_last()).insert(s.last().0, s.last().1)
    }
}

impl View for FdTable {
    type V = Map<u32, DescriptorState>;

    closed spec fn view(&self) -> Map<u32, DescriptorState> {
        map_of(self.entries@)
    }
}

impl FdTable {
    /// An empty table.
    pub fn new() -> (r: FdTable)
        ensures
            r@ == Map::<u32, DescriptorState>::empty(),
    {
        FdTable { entries: Vec::new() }
    }

    /// Update (or add) the state of slot `fd`.
    pub fn set_state(&mut self, fd: u32, st: DescriptorState)
        ensures
            final(self)@ == old(self)@.insert(fd, st),
    {
        self.entries.push((fd, st));
        proof {
            assert(self.entries@.drop_last() =~= old(self).entries@);
        }
    }

    /// The state of slot `fd`, or `None` if untracked.
    pub fn get_state(&self, fd: u32) -> (r: Option<DescriptorState>)
        ensures
            r == fd_state(
                TableModel { fds: self@, out_redirected: false, err_redirected: false },
                fd,
            ),
    {
        let mut i: usize = self.entries.len();
        proof {
            assert(self.entries@.take(i as int) =~= self.entries@);
        }
        while i > 0
            invariant
                i <= self.entries@.len(),
                map_of(self.entries@).contains_key(fd) == map_of(
                    self.entries@.take(i as int),
                ).contains_key(fd),
                map_of(self.entries@).contains_key(fd) ==> map_of(self.entries@)[fd] == map_of(
                    self.entries@.take(i as int),
                )[fd],
            decreases i,
        {
            i = i - 1;
            proof {
                assert(self.entries@.take(i + 1).drop_last() =~= self.entries@.take(i as int));
                assert(self.entries@.take(i + 1).last() == self.entries@[i as int]);
            }
            if self.entries[i].0 == fd {
                return Some(self.entries[i].1);
            }
        }
        proof {
            assert(self.entries@.take(0) =~= Seq::<(u32, DescriptorState)>::empty());
        }
        None
    }
}

/// A successfully resolved redirect list: the descriptor table plus the
/// two notification flags owed to the output boundary.
pub struct ResolvedTable {
    /// The resolved descriptor-slot map.
    pub table: FdTable,
    /// Standard output carries an active redirect.
    pub out_redirected: bool,
    /// Standard error carries an active redirect.
    pub err_redirected: bool,
}

impl View for ResolvedTable {
    type V = TableModel;

    open spec fn view(&self) -> TableModel {
        TableModel {
            fds: self.table@,
            out_redirected: self.out_redirected,
            err_redirected: self.err_redirected,
        }
    }
}

impl ResolvedTable {
    fn mark(&mut self, fd: u32)
        ensures
            final(self)@ == mark_affected(old(self)@, fd),
    {
        if fd == STDOUT {
            self.out_redirected = true;
        }
        if fd == STDERR {
            self.err_redirected = true;
        }
    }

    fn set_state(&mut self, fd: u32, st: DescriptorState)
        ensures
            final(self)@ == set_fd(old(self)@, fd, st),
    {
        self.table.set_state(fd, st);
    }
}

/// Resolve an ordered redirect list into a descriptor table, or the
/// first error.
///
/// `probes[i]` answers the filesystem question raised by `redirects[i]`:
/// for `Read`, whether the path exists; for `Write`/`Append`/`ReadWrite`,
/// whether the path is an existing directory; for `Duplicate` and
/// `Close`, whether the descriptor they name is open in this process.
/// Pipe requests need no answer and ignore theirs.
///
/// The result is exactly `resolve_model`: pipe requests are resolved
/// first onto the standard stream slots, then the remaining requests in
/// the given order, and the caller is told whether standard output or
/// standard error ended up redirected.
pub fn preprocess_redirects(redirects: &Vec<Redirect>, probes: &Vec<bool>) -> (r: Result<
    ResolvedTable,
    RedirectError,
>)
    requires
        probes@.len() == redirects@.len(),
    ensures
        match r {
            Ok(t) => resolve_model(redirects.deep_view(), probes@) == Ok::<
                TableModel,
                RedirectError,
            >(t@),
            Err(e) => resolve_model(redirects.deep_view(), probes@) == Err::<
                TableModel,
                RedirectError,
            >(e),
        },
{
    let ghost reds = redirects.deep_view();
    let mut acc = ResolvedTable {
        table: FdTable::new(),
        out_redirected: false,
        err_redirected: false,
    };
    acc.set_state(STDIN, DescriptorState::Opened);
    acc.set_state(STDOUT, DescriptorState::Opened);
    acc.set_state(STDERR, DescriptorState::Opened);
    proof {
        assert(acc@ == init_table());
    }

    let mut i: usize = 0;
    while i < redirects.len()
        invariant
            i <= redirects@.len(),
            probes@.len() == redirects@.len(),
            reds == redirects.deep_view(),
            resolve_pipes(reds, 0, init_table()) == resolve_pipes(reds, i as int, acc@),
        decreases redirects@.len() - i,
    {
        proof {
            assert(reds[i as int] == redirects@[i as int].deep_view());
        }
        match &redirects[i] {
            Redirect::PipeIn(_fd) => {
                acc.set_state(STDIN, DescriptorState::Redirected(i));
                acc.mark(STDIN);
            },
            Redirect::PipeOut(_fd) => {
                acc.set_state(STDOUT, DescriptorState::Redirected(i));
                acc.mark(STDOUT);
            },
            _ => {},
        }
        i = i + 1;
    }

    let ghost m0 = resolve_pipes(reds, 0, init_table());
    proof {
        assert(m0 == acc@);
    }

    let mut i: usize = 0;
    while i < redirects.len()
        invariant
            i <= redirects@.len(),
            probes@.len() == redirects@.len(),
            reds == redirects.deep_view(),
            m0 == resolve_pipes(reds, 0, init_table()),
            resolve_upto(reds, probes@, 0, reds.len() as int, m0) == resolve_upto(
                reds,
                probes@,
                i as int,
                reds.len() as int,
                acc@,
            ),
        decreases redirects@.len() - i,
    {
        proof {
            assert(reds[i as int] == redirects@[i as int].deep_view());
        }
        let probe = probes[i];
        match &redirects[i] {
            Redirect::Read(fd, _path) => {
                if !probe {
                    return Err(RedirectError::NotFound(i));
                }
                acc.set_state(*fd, DescriptorState::Redirected(i));
                acc.mark(*fd);
            },
            Redirect::Write(fd, _path) => {
                if probe {
                    return Err(RedirectError::IsADirectory(i));
                }
                acc.set_state(*fd, DescriptorState::Redirected(i));
                acc.mark(*fd);
            },
            Redirect::Append(fd, _path) => {
                if probe {
                    return Err(RedirectError::IsADirectory(i));
                }
                acc.set_state(*fd, DescriptorState::Redirected(i));
                acc.mark(*fd);
            },
            Redirect::ReadWrite(fd, _path) => {
                if probe {
                    return Err(RedirectError::IsADirectory(i));
                }
                acc.set_state(*fd, DescriptorState::Redirected(i));
                acc.mark(*fd);
            },
            Redirect::PipeIn(_fd) => {},
            Redirect::PipeOut(_fd) => {},
            Redirect::Duplicate { fd_src, fd_dst } => {
                match acc.table.get_state(*fd_src) {
                    Some(DescriptorState::Redirected(j)) => {
                        acc.set_state(*fd_dst, DescriptorState::Redirected(j));
                        acc.mark(*fd_dst);
                    },
                    Some(DescriptorState::Opened) => {
                        if !probe {
                            return Err(RedirectError::BadFileDescriptor(*fd_src));
                        }
                        acc.set_state(*fd_dst, DescriptorState::Redirected(i));
                        acc.mark(*fd_dst);
                    },
                    Some(DescriptorState::Closed) => {
                        return Err(RedirectError::BadFileDescriptor(*fd_src));
                    },
                    None => {
                        if !probe {
                            return Err(RedirectError::BadFileDescriptor(*fd_src));
                        }
                        acc.set_state(*fd_src, DescriptorState::Opened);
                        acc.set_state(*fd_dst, DescriptorState::Redirected(i));
                        acc.mark(*fd_dst);
                    },
                }
            },
            Redirect::Close(fd) => {
                match acc.table.get_state(*fd) {
                    Some(DescriptorState::Redirected(_)) | Some(DescriptorState::Opened) => {
                        acc.set_state(*fd, DescriptorState::Closed);
                        acc.mark(*fd);
                    },
                    Some(DescriptorState::Closed) => {
                        return Err(RedirectError::BadFileDescriptor(*fd));
                    },
                    None => {
                        if !probe {
                            return Err(RedirectError::BadFileDescriptor(*fd));
                        }
                        acc.set_state(*fd, DescriptorState::Closed);
                        acc.mark(*fd);
                    },
                }
            },
        }
        i = i + 1;
    }
    Ok(acc)
}

} // verus!
