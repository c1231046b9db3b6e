//! The interactive line editor: a byte-level state machine over the
//! terminal input stream, with cursor motion, insert/overwrite editing,
//! history recall, and the exact redraw byte sequences owed to the
//! terminal.
//!
//! The whole machine is specified by [`editor_step`]: one incoming byte
//! maps the editor state to its successor, the bytes to echo, and
//! whether the line is complete. The executable [`LineEditor::on_byte`]
//! is proved to implement that table; the caller only reads one byte at
//! a time and writes the echo out.

use vstd::prelude::*;

use crate::bytes::{clone_bytes, push_all, push_range, push_repeat};

verus! {

/// Where the escape-sequence scanner stands.
#[derive(Clone, Copy, Debug, PartialEq, Eq, Structural)]
pub enum EscState {
    /// Ordinary editing.
    Normal,
    /// Saw ESC.
    Escape,
    /// Saw ESC `[`.
    Bracket,
    /// Saw ESC `[` and one of the digit codes that announce a
    /// three-byte sequence.
    BracketDigit(u8),
}

/// One in-progress input line and its editing state.
pub struct LineEditor {
    /// The line as typed so far.
    pub buffer: Vec<u8>,
    /// Position of the cursor inside `buffer` (0 ..= len).
    pub cursor: usize,
    /// Toggled by the Insert key: when set, a typed byte overwrites the
    /// character under an interior cursor instead of shifting the tail.
    pub insert_mode: bool,
    /// Escape-sequence scanner state.
    pub esc: EscState,
    /// Which history entry is being displayed, newest navigation first;
    /// `None` while editing the in-progress line.
    pub hist_index: Option<usize>,
    /// The in-progress line, captured when the user first leaves it for
    /// history recall and restored when they navigate back past the
    /// newest entry.
    pub stash: Vec<u8>,
}

/// The mathematical image of a [`LineEditor`].
#[verifier::ext_equal]
pub ghost struct EditorModel {
    pub buffer: Seq<u8>,
    pub cursor: int,
    pub insert_mode: bool,
    pub esc: EscState,
    pub hist_index: Option<int>,
    pub stash: Seq<u8>,
}

impl View for LineEditor {
    type V = EditorModel;

    open spec fn view(&self) -> EditorModel {
        EditorModel {
            buffer: self.buffer@,
            cursor: self.cursor as int,
            insert_mode: self.insert_mode,
            esc: self.esc,
            hist_index: match self.hist_index {
                Some(i) => Some(i as int),
                None => None,
            },
            stash: self.stash@,
        }
    }
}

/// What one byte does: the next state, the bytes owed to the terminal,
/// and whether the line is complete.
#[verifier::ext_equal]
pub ghost struct StepResult {
    pub post: EditorModel,
    pub echo: Seq<u8>,
    pub done: bool,
}

/// A well-formed editor state: the cursor stays inside the line and any
/// displayed history index stays inside the history.
pub open spec fn editor_wf(m: EditorModel, hlen: int) -> bool {
    &&& 0 <= m.cursor <= m.buffer.len()
    &&& match m.hist_index {
        Some(j) => 0 <= j < hlen,
        None => true,
    }
}

/// `n` copies of byte `b`.
pub open spec fn rep(b: u8, n: int) -> Seq<u8> {
    if n <= 0 {
        Seq::empty()
    } else {
        Seq::new(n as nat, |i: int| b)
    }
}

/// The part of `s` from position `i` to its end.
pub open spec fn tail_from(s: Seq<u8>, i: int) -> Seq<u8> {
    s.subrange(i, s.len() as int)
}

/// `n` repetitions of backspace, space, backspace: the redraw sequence
/// that erases `n` stale characters left of the terminal cursor.
pub open spec fn erase_echo(n: int) -> Seq<u8>
    decreases n,
{
    if n <= 0 {
        Seq::empty()
    } else {
        erase_echo(n - 1) + seq![8u8, 32u8, 8u8]
    }
}

/// The redraw that brings the terminal cursor to the end of the line
/// and blanks it: echo the tail, then erase the whole width.
pub open spec fn cursor_to_end_echo(buf: Seq<u8>, cur: int) -> Seq<u8> {
    tail_from(buf, cur) + erase_echo(buf.len() as int)
}

/// ASCII whitespace, as trimmed from a finished line.
pub open spec fn is_space(b: u8) -> bool {
    b == 32 || (9 <= b && b <= 13)
}

/// `s` without leading whitespace.
pub open spec fn trim_front(s: Seq<u8>) -> Seq<u8>
    decreases s.len(),
{
    if s.len() > 0 && is_space(s.first()) {
        trim_front(s.drop_first())
    } else {
        s
    }
}

/// `s` without trailing whitespace.
pub open spec fn trim_back(s: Seq<u8>) -> Seq<u8>
    decreases s.len(),
{
    if s.len() > 0 && is_space(s.last()) {
        trim_back(s.drop_last())
    } else {
        s
    }
}

/// `s` without surrounding whitespace.
pub open spec fn trim_spec(s: Seq<u8>) -> Seq<u8> {
    trim_back(trim_front(s))
}

/// The machine's table for ordinary bytes (scanner in `Normal`).
pub open spec fn step_normal(m: EditorModel, b: u8, hist: Seq<Seq<u8>>) -> StepResult {
    let m1 = if b != 0x1bu8 {
        EditorModel { hist_index: None, ..m }
    } else {
        m
    };
    let n = m.buffer.len() as int;
    let cur = m.cursor;
    if b == 10u8 {
        // Newline finalizes the line, trimmed of surrounding whitespace.
        StepResult {
            post: EditorModel { buffer: trim_spec(m.buffer), cursor: 0, ..m1 },
            echo: seq![10u8],
            done: true,
        }
    } else if b == 127u8 {
        // Backspace deletes left of the cursor and redraws the tail.
        if n > 0 && cur > 0 {
            let buf2 = m.buffer.subrange(0, cur - 1) + tail_from(m.buffer, cur);
            StepResult {
                post: EditorModel { buffer: buf2, cursor: cur - 1, ..m1 },
                echo: seq![8u8] + rep(32u8, n - cur + 1) + rep(8u8, n - cur + 1) + tail_from(
                    buf2,
                    cur - 1,
                ) + rep(8u8, n - cur),
                done: false,
            }
        } else {
            StepResult { post: m1, echo: Seq::empty(), done: false }
        }
    } else if b == 0x1bu8 {
        StepResult {
            post: EditorModel { esc: EscState::Escape, ..m },
            echo: Seq::empty(),
            done: false,
        }
    } else if b < 32u8 {
        // Other control bytes are ignored.
        StepResult { post: m1, echo: Seq::empty(), done: false }
    } else {
        // A printable byte is inserted at the cursor; in overwrite mode
        // with an interior cursor it replaces in place.
        let buf2 = if !m.insert_mode {
            m.buffer.insert(cur, b)
        } else if cur != n {
            m.buffer.update(cur, b)
        } else {
            m.buffer.push(b)
        };
        StepResult {
            post: EditorModel { buffer: buf2, cursor: cur + 1, ..m1 },
            echo: tail_from(buf2, cur) + rep(8u8, buf2.len() - cur - 1),
            done: false,
        }
    }
}

/// The machine's table after ESC `[`.
pub open spec fn step_bracket(m: EditorModel, b: u8, hist: Seq<Seq<u8>>) -> StepResult {
    let back = EditorModel { esc: EscState::Normal, ..m };
    let n = m.buffer.len() as int;
    let cur = m.cursor;
    if b == 0x32u8 || b == 0x33u8 || b == 0x35u8 || b == 0x36u8 {
        StepResult {
            post: EditorModel { esc: EscState::BracketDigit(b), ..m },
            echo: Seq::empty(),
            done: false,
        }
    } else if b == 0x41u8 {
        // Up arrow: recall the previous history entry, stashing the
        // in-progress line on first leaving it.
        if hist.len() > 0 && m.hist_index != Some(0int) {
            let idx = match m.hist_index {
                None => hist.len() as int - 1,
                Some(j) => j - 1,
            };
            let stash2 = if m.hist_index is None {
                m.buffer
            } else {
                m.stash
            };
            StepResult {
                post: EditorModel {
                    buffer: hist[idx],
                    cursor: hist[idx].len() as int,
                    hist_index: Some(idx),
                    stash: stash2,
                    ..back
                },
                echo: cursor_to_end_echo(m.buffer, cur) + hist[idx],
                done: false,
            }
        } else {
            StepResult { post: back, echo: Seq::empty(), done: false }
        }
    } else if b == 0x42u8 {
        // Down arrow: move towards the newest entry, restoring the
        // stashed line past it.
        match m.hist_index {
            Some(j) => {
                let (buf2, hi2): (Seq<u8>, Option<int>) = if hist.len() - 1 > j {
                    (hist[j + 1], Some(j + 1))
                } else {
                    (m.stash, None)
                };
                StepResult {
                    post: EditorModel {
                        buffer: buf2,
                        cursor: buf2.len() as int,
                        hist_index: hi2,
                        ..back
                    },
                    echo: cursor_to_end_echo(m.buffer, cur) + buf2,
                    done: false,
                }
            },
            None => StepResult { post: back, echo: Seq::empty(), done: false },
        }
    } else if b == 0x43u8 {
        // Right arrow.
        if cur < n {
            StepResult {
                post: EditorModel { cursor: cur + 1, ..back },
                echo: seq![m.buffer[cur]],
                done: false,
            }
        } else {
            StepResult { post: back, echo: Seq::empty(), done: false }
        }
    } else if b == 0x44u8 {
        // Left arrow.
        if cur > 0 {
            StepResult {
                post: EditorModel { cursor: cur - 1, ..back },
                echo: seq![8u8],
                done: false,
            }
        } else {
            StepResult { post: back, echo: Seq::empty(), done: false }
        }
    } else if b == 0x46u8 {
        // End key.
        StepResult {
            post: EditorModel { cursor: n, ..back },
            echo: tail_from(m.buffer, cur),
            done: false,
        }
    } else if b == 0x48u8 {
        // Home key.
        StepResult { post: EditorModel { cursor: 0, ..back }, echo: rep(8u8, cur), done: false }
    } else {
        // Unhandled sequence: dropped.
        StepResult { post: back, echo: Seq::empty(), done: false }
    }
}

/// The machine's table for the third byte of ESC `[` digit sequences.
pub open spec fn step_bracket_digit(m: EditorModel, c2: u8, b: u8, hist: Seq<Seq<u8>>) -> StepResult {
    let back = EditorModel { esc: EscState::Normal, ..m };
    let n = m.buffer.len() as int;
    let cur = m.cursor;
    if c2 == 0x35u8 && b == 0x7eu8 {
        // Page up: jump to the oldest history entry.
        if hist.len() > 0 && m.hist_index != Some(0int) {
            let stash2 = if m.hist_index is None {
                m.buffer
            } else {
                m.stash
            };
            StepResult {
                post: EditorModel {
                    buffer: hist[0],
                    cursor: hist[0].len() as int,
                    hist_index: Some(0),
                    stash: stash2,
                    ..back
                },
                echo: cursor_to_end_echo(m.buffer, cur) + hist[0],
                done: false,
            }
        } else {
            StepResult { post: back, echo: Seq::empty(), done: false }
        }
    } else if c2 == 0x36u8 && b == 0x7eu8 {
        // Page down: jump back to the in-progress line.
        if m.hist_index is Some {
            StepResult {
                post: EditorModel {
                    buffer: m.stash,
                    cursor: m.stash.len() as int,
                    hist_index: None,
                    ..back
                },
                echo: cursor_to_end_echo(m.buffer, cur) + m.stash,
                done: false,
            }
        } else {
            StepResult { post: back, echo: Seq::empty(), done: false }
        }
    } else if c2 == 0x32u8 && b == 0x7eu8 {
        // Insert key: toggle overwrite.
        StepResult {
            post: EditorModel { insert_mode: !m.insert_mode, ..back },
            echo: Seq::empty(),
            done: false,
        }
    } else if c2 == 0x33u8 && b == 0x7eu8 {
        // Delete key: remove the character under the cursor.
        if n - cur > 0 {
            let buf2 = m.buffer.subrange(0, cur) + tail_from(m.buffer, cur + 1);
            StepResult {
                post: EditorModel { buffer: buf2, ..back },
                echo: rep(32u8, n - cur + 1) + rep(8u8, n - cur + 1) + tail_from(buf2, cur) + rep(
                    8u8,
                    n - cur - 1,
                ),
                done: false,
            }
        } else {
            StepResult { post: back, echo: Seq::empty(), done: false }
        }
    } else {
        // Unhandled sequence: dropped.
        StepResult { post: back, echo: Seq::empty(), done: false }
    }
}

/// The full state-machine table: state times byte to state and action.
pub open spec fn editor_step(m: EditorModel, b: u8, hist: Seq<Seq<u8>>) -> StepResult {
    match m.esc {
        EscState::Normal => step_normal(m, b, hist),
        EscState::Escape => StepResult {
            post: EditorModel {
                esc: if b == 0x5bu8 {
                    EscState::Bracket
                } else {
                    EscState::Normal
                },
                ..m
            },
            echo: Seq::empty(),
            done: false,
        },
        EscState::Bracket => step_bracket(m, b, hist),
        EscState::BracketDigit(c2) => step_bracket_digit(m, c2, b, hist),
    }
}

/// LAW: with overwrite mode on and the cursor strictly inside the line,
/// a printable byte replaces the character under the cursor in place —
/// the length is unchanged and the tail does not shift.
pub proof fn lemma_overwrite_replaces_in_place(m: EditorModel, b: u8, hist: Seq<Seq<u8>>)
    requires
        m.esc == EscState::Normal,
        m.insert_mode,
        0 <= m.cursor < m.buffer.len(),
        b >= 32u8,
        b != 127u8,
    ensures
        editor_step(m, b, hist).post.buffer == m.buffer.update(m.cursor, b),
        editor_step(m, b, hist).post.buffer.len() == m.buffer.len(),
        editor_step(m, b, hist).post.cursor == m.cursor + 1,
        !editor_step(m, b, hist).done,
{
}

/// Append `n` repetitions of backspace, space, backspace to `out`.
fn push_erase(out: &mut Vec<u8>, n: usize)
    ensures
        final(out)@ == old(out)@ + erase_echo(n as int),
{
    let mut i: usize = 0;
    proof {
        assert(old(out)@ + erase_echo(0) =~= old(out)@);
    }
    while i < n
        invariant
            i <= n,
            out@ == old(out)@ + erase_echo(i as int),
        decreases n - i,
    {
        out.push(8u8);
        out.push(32u8);
        out.push(8u8);
        i = i + 1;
        proof {
            assert(out@ =~= old(out)@ + erase_echo(i as int));
        }
    }
}

/// Append the cursor-to-end redraw for `buf` with the cursor at `cur`.
fn push_cursor_to_end(out: &mut Vec<u8>, buf: &Vec<u8>, cur: usize)
    requires
        cur <= buf@.len(),
    ensures
        final(out)@ == old(out)@ + cursor_to_end_echo(buf@, cur as int),
{
    let n = buf.len();
    push_range(out, buf, cur, n);
    push_erase(out, n);
    proof {
        assert(out@ =~= old(out)@ + cursor_to_end_echo(buf@, cur as int));
    }
}

/// Whether `b` is ASCII whitespace.
pub fn is_space_byte(b: u8) -> (r: bool)
    ensures
        r == is_space(b),
{
    b == 32u8 || (9u8 <= b && b <= 13u8)
}

/// Trim ASCII whitespace from both ends of a byte string.
pub fn trim_bytes(v: &Vec<u8>) -> (r: Vec<u8>)
    ensures
        r@ == trim_spec(v@),
{
    let mut lo: usize = 0;
    proof {
        assert(tail_from(v@, 0) =~= v@);
    }
    while lo < v.len() && is_space_byte(v[lo])
        invariant
            lo <= v@.len(),
            trim_front(v@) == trim_front(tail_from(v@, lo as int)),
        decreases v@.len() - lo,
    {
        proof {
            assert(tail_from(v@, lo as int).first() == v@[lo as int]);
            assert(tail_from(v@, lo as int).drop_first() =~= tail_from(v@, lo + 1));
        }
        lo = lo + 1;
    }
    proof {
        if lo < v@.len() {
            assert(tail_from(v@, lo as int).first() == v@[lo as int]);
            assert(trim_front(v@) =~= tail_from(v@, lo as int));
        } else {
            assert(tail_from(v@, lo as int) =~= Seq::<u8>::empty());
        }
    }
    let mut hi: usize = v.len();
    proof {
        assert(v@.subrange(lo as int, hi as int) =~= tail_from(v@, lo as int));
    }
    while hi > lo && is_space_byte(v[hi - 1])
        invariant
            lo <= hi <= v@.len(),
            trim_front(v@) == trim_front(tail_from(v@, lo as int)),
            trim_back(tail_from(v@, lo as int)) == trim_back(v@.subrange(lo as int, hi as int)),
        decreases hi,
    {
        proof {
            assert(v@.subrange(lo as int, hi as int).last() == v@[hi - 1]);
            assert(v@.subrange(lo as int, hi as int).drop_last() =~= v@.subrange(
                lo as int,
                hi - 1,
            ));
        }
        hi = hi - 1;
    }
    proof {
        if hi > lo {
            assert(v@.subrange(lo as int, hi as int).last() == v@[hi - 1]);
        } else {
            assert(v@.subrange(lo as int, hi as int) =~= Seq::<u8>::empty());
        }
        assert(trim_spec(v@) == v@.subrange(lo as int, hi as int));
    }
    let mut r: Vec<u8> = Vec::new();
    push_range(&mut r, v, lo, hi);
    proof {
        assert(r@ =~= v@.subrange(lo as int, hi as int));
    }
    r
}

impl LineEditor {
    /// A fresh editing session over `initial`, with the cursor at its
    /// end, overwrite off, and no history entry displayed.
    pub fn new(initial: Vec<u8>) -> (r: LineEditor)
        ensures
            r@ == (EditorModel {
                buffer: initial@,
                cursor: initial@.len() as int,
                insert_mode: false,
                esc: EscState::Normal,
                hist_index: None,
                stash: Seq::empty(),
            }),
    {
        let cursor = initial.len();
        let r = LineEditor {
            buffer: initial,
            cursor,
            insert_mode: false,
            esc: EscState::Normal,
            hist_index: None,
            stash: Vec::new(),
        };
        proof {
            assert(r@ =~= (EditorModel {
                buffer: r.buffer@,
                cursor: r.buffer@.len() as int,
                insert_mode: false,
                esc: EscState::Normal,
                hist_index: None,
                stash: Seq::empty(),
            }));
        }
        r
    }

    /// Feed one byte to the machine. Returns the bytes to echo to the
    /// terminal and whether the line is complete; the effect is exactly
    /// [`editor_step`] on the editor's state.
    pub fn on_byte(&mut self, b: u8, history: &Vec<Vec<u8>>) -> (r: (Vec<u8>, bool))
        requires
            editor_wf(old(self)@, history@.len() as int),
        ensures
            ({
                let step = editor_step(old(self)@, b, history.deep_view());
                &&& final(self)@ == step.post
                &&& r.0@ == step.echo
                &&& r.1 == step.done
            }),
            editor_wf(final(self)@, history@.len() as int),
    {
        match self.esc {
            EscState::Normal => self.on_byte_normal(b, history),
            EscState::Escape => {
                self.esc = if b == 0x5bu8 {
                    EscState::Bracket
                } else {
                    EscState::Normal
                };
                proof {
                    assert(self@ =~= editor_step(old(self)@, b, history.deep_view()).post);
                }
                (Vec::new(), false)
            },
            EscState::Bracket => self.on_byte_bracket(b, history),
            EscState::BracketDigit(c2) => self.on_byte_bracket_digit(c2, b, history),
        }
    }

    fn on_byte_normal(&mut self, b: u8, history: &Vec<Vec<u8>>) -> (r: (Vec<u8>, bool))
        requires
            old(self)@.esc == EscState::Normal,
            editor_wf(old(self)@, history@.len() as int),
        ensures
            ({
                let step = step_normal(old(self)@, b, history.deep_view());
                &&& final(self)@ == step.post
                &&& r.0@ == step.echo
                &&& r.1 == step.done
            }),
            editor_wf(final(self)@, history@.len() as int),
    {
        let ghost m = self@;
        let ghost hist = history.deep_view();
        if b == 10u8 {
            self.hist_index = None;
            let trimmed = trim_bytes(&self.buffer);
            self.buffer = trimmed;
            self.cursor = 0;
            let mut echo: Vec<u8> = Vec::new();
            echo.push(10u8);
            proof {
                assert(self@ =~= step_normal(m, b, hist).post);
                assert(echo@ =~= step_normal(m, b, hist).echo);
            }
            (echo, true)
        } else if b == 127u8 {
            self.hist_index = None;
            if self.buffer.len() > 0 && self.cursor > 0 {
                let n = self.buffer.len();
                let cur = self.cursor;
                let mut echo: Vec<u8> = Vec::new();
                echo.push(8u8);
                push_repeat(&mut echo, 32u8, n - cur + 1);
                push_repeat(&mut echo, 8u8, n - cur + 1);
                self.buffer.remove(cur - 1);
                self.cursor = cur - 1;
                let n2 = self.buffer.len();
                push_range(&mut echo, &self.buffer, cur - 1, n2);
                push_repeat(&mut echo, 8u8, n - cur);
                proof {
                    assert(self.buffer@ =~= m.buffer.subrange(0, m.cursor - 1) + tail_from(
                        m.buffer,
                        m.cursor,
                    ));
                    assert(self@ =~= step_normal(m, b, hist).post);
                    assert(echo@ =~= step_normal(m, b, hist).echo);
                }
                (echo, false)
            } else {
                proof {
                    assert(self@ =~= step_normal(m, b, hist).post);
                }
                (Vec::new(), false)
            }
        } else if b == 0x1bu8 {
            self.esc = EscState::Escape;
            proof {
                assert(self@ =~= step_normal(m, b, hist).post);
            }
            (Vec::new(), false)
        } else if b < 32u8 {
            self.hist_index = None;
            proof {
                assert(self@ =~= step_normal(m, b, hist).post);
            }
            (Vec::new(), false)
        } else {
            self.hist_index = None;
            let cur = self.cursor;
            if !self.insert_mode {
                self.buffer.insert(cur, b);
            } else if cur != self.buffer.len() {
                self.buffer.set(cur, b);
            } else {
                self.buffer.push(b);
            }
            let n2 = self.buffer.len();
            let mut echo: Vec<u8> = Vec::new();
            push_range(&mut echo, &self.buffer, cur, n2);
            push_repeat(&mut echo, 8u8, n2 - cur - 1);
            self.cursor = cur + 1;
            proof {
                assert(self@ =~= step_normal(m, b, hist).post);
                assert(echo@ =~= step_normal(m, b, hist).echo);
            }
            (echo, false)
        }
    }

    fn on_byte_bracket(&mut self, b: u8, history: &Vec<Vec<u8>>) -> (r: (Vec<u8>, bool))
        requires
            old(self)@.esc == EscState::Bracket,
            editor_wf(old(self)@, history@.len() as int),
        ensures
            ({
                let step = step_bracket(old(self)@, b, history.deep_view());
                &&& final(self)@ == step.post
                &&& r.0@ == step.echo
                &&& r.1 == step.done
            }),
            editor_wf(final(self)@, history@.len() as int),
    {
        let ghost m = self@;
        let ghost hist = history.deep_view();
        if b == 0x32u8 || b == 0x33u8 || b == 0x35u8 || b == 0x36u8 {
            self.esc = EscState::BracketDigit(b);
            proof {
                assert(self@ =~= step_bracket(m, b, hist).post);
            }
            (Vec::new(), false)
        } else if b == 0x41u8 {
            self.esc = EscState::Normal;
            let at_top = match self.hist_index {
                Some(j) => j == 0,
                None => false,
            };
            if history.len() > 0 && !at_top {
                let idx = match self.hist_index {
                    None => history.len() - 1,
                    Some(j) => j - 1,
                };
                if self.hist_index.is_none() {
                    let stash = clone_bytes(&self.buffer);
                    self.stash = stash;
                }
                let mut echo: Vec<u8> = Vec::new();
                push_cursor_to_end(&mut echo, &self.buffer, self.cursor);
                proof {
                    assert(hist[idx as int] == history@[idx as int]@);
                }
                self.buffer = clone_bytes(&history[idx]);
                self.cursor = self.buffer.len();
                self.hist_index = Some(idx);
                push_all(&mut echo, &self.buffer);
                proof {
                    assert(self@ =~= step_bracket(m, b, hist).post);
                    assert(echo@ =~= step_bracket(m, b, hist).echo);
                }
                (echo, false)
            } else {
                proof {
                    assert(self@ =~= step_bracket(m, b, hist).post);
                }
                (Vec::new(), false)
            }
        } else if b == 0x42u8 {
            self.esc = EscState::Normal;
            match self.hist_index {
                Some(j) => {
                    let mut echo: Vec<u8> = Vec::new();
                    push_cursor_to_end(&mut echo, &self.buffer, self.cursor);
                    if history.len() - 1 > j {
                        proof {
                            assert(hist[j + 1] == history@[j + 1]@);
                        }
                        self.buffer = clone_bytes(&history[j + 1]);
                        self.hist_index = Some(j + 1);
                    } else {
                        let restored = clone_bytes(&self.stash);
                        self.buffer = restored;
                        self.hist_index = None;
                    }
                    self.cursor = self.buffer.len();
                    push_all(&mut echo, &self.buffer);
                    proof {
                        assert(self@ =~= step_bracket(m, b, hist).post);
                        assert(echo@ =~= step_bracket(m, b, hist).echo);
                    }
                    (echo, false)
                },
                None => {
                    proof {
                        assert(self@ =~= step_bracket(m, b, hist).post);
                    }
                    (Vec::new(), false)
                },
            }
        } else if b == 0x43u8 {
            self.esc = EscState::Normal;
            if self.cursor < self.buffer.len() {
                let mut echo: Vec<u8> = Vec::new();
                echo.push(self.buffer[self.cursor]);
                self.cursor = self.cursor + 1;
                proof {
                    assert(self@ =~= step_bracket(m, b, hist).post);
                    assert(echo@ =~= step_bracket(m, b, hist).echo);
                }
                (echo, false)
            } else {
                proof {
                    assert(self@ =~= step_bracket(m, b, hist).post);
                }
                (Vec::new(), false)
            }
        } else if b == 0x44u8 {
            self.esc = EscState::Normal;
            if self.cursor > 0 {
                let mut echo: Vec<u8> = Vec::new();
                echo.push(8u8);
                self.cursor = self.cursor - 1;
                proof {
                    assert(self@ =~= step_bracket(m, b, hist).post);
                    assert(echo@ =~= step_bracket(m, b, hist).echo);
                }
                (echo, false)
            } else {
                proof {
                    assert(self@ =~= step_bracket(m, b, hist).post);
                }
                (Vec::new(), false)
            }
        } else if b == 0x46u8 {
            self.esc = EscState::Normal;
            let n = self.buffer.len();
            let mut echo: Vec<u8> = Vec::new();
            push_range(&mut echo, &self.buffer, self.cursor, n);
            self.cursor = n;
            proof {
                assert(self@ =~= step_bracket(m, b, hist).post);
                assert(echo@ =~= step_bracket(m, b, hist).echo);
            }
            (echo, false)
        } else if b == 0x48u8 {
            self.esc = EscState::Normal;
            let mut echo: Vec<u8> = Vec::new();
            push_repeat(&mut echo, 8u8, self.cursor);
            self.cursor = 0;
            proof {
                assert(self@ =~= step_bracket(m, b, hist).post);
                assert(echo@ =~= step_bracket(m, b, hist).echo);
            }
            (echo, false)
        } else {
            self.esc = EscState::Normal;
            proof {
                assert(self@ =~= step_bracket(m, b, hist).post);
            }
            (Vec::new(), false)
        }
    }

    fn on_byte_bracket_digit(&mut self, c2: u8, b: u8, history: &Vec<Vec<u8>>) -> (r: (
        Vec<u8>,
        bool,
    ))
        requires
            old(self)@.esc == EscState::BracketDigit(c2),
            editor_wf(old(self)@, history@.len() as int),
        ensures
            ({
                let step = step_bracket_digit(old(self)@, c2, b, history.deep_view());
                &&& final(self)@ == step.post
                &&& r.0@ == step.echo
                &&& r.1 == step.done
            }),
            editor_wf(final(self)@, history@.len() as int),
    {
        let ghost m = self@;
        let ghost hist = history.deep_view();
        self.esc = EscState::Normal;
        if c2 == 0x35u8 && b == 0x7eu8 {
            let at_top = match self.hist_index {
                Some(j) => j == 0,
                None => false,
            };
            if history.len() > 0 && !at_top {
                if self.hist_index.is_none() {
                    let stash = clone_bytes(&self.buffer);
                    self.stash = stash;
                }
                let mut echo: Vec<u8> = Vec::new();
                push_cursor_to_end(&mut echo, &self.buffer, self.cursor);
                proof {
                    assert(hist[0] == history@[0]@);
                }
                self.buffer = clone_bytes(&history[0]);
                self.cursor = self.buffer.len();
                self.hist_index = Some(0);
                push_all(&mut echo, &self.buffer);
                proof {
                    assert(self@ =~= step_bracket_digit(m, c2, b, hist).post);
                    assert(echo@ =~= step_bracket_digit(m, c2, b, hist).echo);
                }
                (echo, false)
            } else {
                proof {
                    assert(self@ =~= step_bracket_digit(m, c2, b, hist).post);
                }
                (Vec::new(), false)
            }
        } else if c2 == 0x36u8 && b == 0x7eu8 {
            if self.hist_index.is_some() {
                let mut echo: Vec<u8> = Vec::new();
                push_cursor_to_end(&mut echo, &self.buffer, self.cursor);
                let restored = clone_bytes(&self.stash);
                self.buffer = restored;
                self.hist_index = None;
                self.cursor = self.buffer.len();
                push_all(&mut echo, &self.buffer);
                proof {
                    assert(self@ =~= step_bracket_digit(m, c2, b, hist).post);
                    assert(echo@ =~= step_bracket_digit(m, c2, b, hist).echo);
                }
                (echo, false)
            } else {
                proof {
                    assert(self@ =~= step_bracket_digit(m, c2, b, hist).post);
                }
                (Vec::new(), false)
            }
        } else if c2 == 0x32u8 && b == 0x7eu8 {
            self.insert_mode = !self.insert_mode;
            proof {
                assert(self@ =~= step_bracket_digit(m, c2, b, hist).post);
            }
            (Vec::new(), false)
        } else if c2 == 0x33u8 && b == 0x7eu8 {
            if self.buffer.len() - self.cursor > 0 {
                let n = self.buffer.len();
                let cur = self.cursor;
                let mut echo: Vec<u8> = Vec::new();
                push_repeat(&mut echo, 32u8, n - cur);
                echo.push(32u8);
                push_repeat(&mut echo, 8u8, n - cur);
                echo.push(8u8);
                self.buffer.remove(cur);
                let n2 = self.buffer.len();
                push_range(&mut echo, &self.buffer, cur, n2);
                push_repeat(&mut echo, 8u8, n - cur - 1);
                proof {
                    assert(self.buffer@ =~= m.buffer.subrange(0, m.cursor) + tail_from(
                        m.buffer,
                        m.cursor + 1,
                    ));
                    assert(self@ =~= step_bracket_digit(m, c2, b, hist).post);
                    assert(rep(32u8, n - cur) + seq![32u8] =~= rep(32u8, n - cur + 1));
                    assert(rep(8u8, n - cur) + seq![8u8] =~= rep(8u8, n - cur + 1));
                    assert(echo@ =~= step_bracket_digit(m, c2, b, hist).echo);
                }
                (echo, false)
            } else {
                proof {
                    assert(self@ =~= step_bracket_digit(m, c2, b, hist).post);
                }
                (Vec::new(), false)
            }
        } else {
            proof {
                assert(self@ =~= step_bracket_digit(m, c2, b, hist).post);
            }
            (Vec::new(), false)
        }
    }
}

/// LAW: with overwrite mode off, a printable byte is inserted at the
/// cursor and the tail shifts right by one.
pub proof fn lemma_insert_shifts_tail(m: EditorModel, b: u8, hist: Seq<Seq<u8>>)
    requires
        m.esc == EscState::Normal,
        !m.insert_mode,
        0 <= m.cursor <= m.buffer.len(),
        b >= 32u8,
        b != 127u8,
    ensures
        editor_step(m, b, hist).post.buffer == m.buffer.insert(m.cursor, b),
        editor_step(m, b, hist).post.buffer.len() == m.buffer.len() + 1,
        editor_step(m, b, hist).post.cursor == m.cursor + 1,
{
}

} // verus!
