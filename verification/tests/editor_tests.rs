use wash::editor::{trim_bytes, LineEditor};

fn v(s: &str) -> Vec<u8> {
    s.as_bytes().to_vec()
}

/// Feed a byte string to the editor, discarding echoes; returns whether
/// the last byte completed the line.
fn feed(ed: &mut LineEditor, history: &Vec<Vec<u8>>, bytes: &[u8]) -> bool {
    let mut done = false;
    for &b in bytes {
        let (_echo, d) = ed.on_byte(b, history);
        done = d;
    }
    done
}

#[test]
fn typing_appends_at_end() {
    let mut ed = LineEditor::new(Vec::new());
    let history = Vec::new();
    feed(&mut ed, &history, b"hello");
    assert_eq!(ed.buffer, v("hello"));
    assert_eq!(ed.cursor, 5);
}

#[test]
fn newline_completes_and_trims() {
    let mut ed = LineEditor::new(Vec::new());
    let history = Vec::new();
    let done = feed(&mut ed, &history, b"  ls -la \n");
    assert!(done);
    assert_eq!(ed.buffer, v("ls -la"));
    assert_eq!(ed.cursor, 0);
}

#[test]
fn backspace_removes_left_of_cursor() {
    let mut ed = LineEditor::new(v("abc"));
    let history = Vec::new();
    feed(&mut ed, &history, &[127]);
    assert_eq!(ed.buffer, v("ab"));
    assert_eq!(ed.cursor, 2);
}

#[test]
fn backspace_on_empty_line_does_nothing() {
    let mut ed = LineEditor::new(Vec::new());
    let history = Vec::new();
    feed(&mut ed, &history, &[127]);
    assert_eq!(ed.buffer, v(""));
    assert_eq!(ed.cursor, 0);
}

#[test]
fn overwrite_mode_replaces_under_cursor() {
    // Cursor left twice, toggle overwrite with the Insert key, type X:
    // the character under the cursor is replaced, the tail not shifted.
    let mut ed = LineEditor::new(v("abcd"));
    let history = Vec::new();
    feed(&mut ed, &history, &[0x1b, 0x5b, 0x44, 0x1b, 0x5b, 0x44]);
    assert_eq!(ed.cursor, 2);
    feed(&mut ed, &history, &[0x1b, 0x5b, 0x32, 0x7e]);
    assert!(ed.insert_mode);
    feed(&mut ed, &history, b"X");
    assert_eq!(ed.buffer, v("abXd"));
    assert_eq!(ed.cursor, 3);
}

#[test]
fn insert_mode_shifts_tail() {
    let mut ed = LineEditor::new(v("abcd"));
    let history = Vec::new();
    feed(&mut ed, &history, &[0x1b, 0x5b, 0x44, 0x1b, 0x5b, 0x44]);
    feed(&mut ed, &history, b"X");
    assert_eq!(ed.buffer, v("abXcd"));
    assert_eq!(ed.cursor, 3);
}

#[test]
fn overwrite_at_end_appends() {
    let mut ed = LineEditor::new(v("ab"));
    let history = Vec::new();
    feed(&mut ed, &history, &[0x1b, 0x5b, 0x32, 0x7e]);
    feed(&mut ed, &history, b"X");
    assert_eq!(ed.buffer, v("abX"));
}

#[test]
fn delete_removes_under_cursor() {
    let mut ed = LineEditor::new(v("abcd"));
    let history = Vec::new();
    // Home, then Delete.
    feed(&mut ed, &history, &[0x1b, 0x5b, 0x48]);
    assert_eq!(ed.cursor, 0);
    feed(&mut ed, &history, &[0x1b, 0x5b, 0x33, 0x7e]);
    assert_eq!(ed.buffer, v("bcd"));
    assert_eq!(ed.cursor, 0);
}

#[test]
fn delete_at_end_does_nothing() {
    let mut ed = LineEditor::new(v("ab"));
    let history = Vec::new();
    feed(&mut ed, &history, &[0x1b, 0x5b, 0x33, 0x7e]);
    assert_eq!(ed.buffer, v("ab"));
}

#[test]
fn home_and_end_move_cursor() {
    let mut ed = LineEditor::new(v("abc"));
    let history = Vec::new();
    let (echo, _) = ed.on_byte(0x1b, &history);
    assert!(echo.is_empty());
    feed(&mut ed, &history, &[0x5b, 0x48]);
    assert_eq!(ed.cursor, 0);
    feed(&mut ed, &history, &[0x1b, 0x5b, 0x46]);
    assert_eq!(ed.cursor, 3);
}

#[test]
fn arrows_stop_at_line_ends() {
    let mut ed = LineEditor::new(v("a"));
    let history = Vec::new();
    feed(&mut ed, &history, &[0x1b, 0x5b, 0x43]);
    assert_eq!(ed.cursor, 1);
    feed(&mut ed, &history, &[0x1b, 0x5b, 0x44, 0x1b, 0x5b, 0x44]);
    assert_eq!(ed.cursor, 0);
}

#[test]
fn up_arrow_recalls_newest_and_stashes() {
    let history = vec![v("first"), v("second")];
    let mut ed = LineEditor::new(v("draft"));
    feed(&mut ed, &history, &[0x1b, 0x5b, 0x41]);
    assert_eq!(ed.buffer, v("second"));
    assert_eq!(ed.cursor, 6);
    feed(&mut ed, &history, &[0x1b, 0x5b, 0x41]);
    assert_eq!(ed.buffer, v("first"));
    // Past the oldest entry nothing changes.
    feed(&mut ed, &history, &[0x1b, 0x5b, 0x41]);
    assert_eq!(ed.buffer, v("first"));
    // Down past the newest restores the stashed draft.
    feed(&mut ed, &history, &[0x1b, 0x5b, 0x42, 0x1b, 0x5b, 0x42]);
    assert_eq!(ed.buffer, v("draft"));
    feed(&mut ed, &history, &[0x1b, 0x5b, 0x42]);
    assert_eq!(ed.buffer, v("draft"));
}

#[test]
fn page_up_jumps_to_oldest_page_down_restores() {
    let history = vec![v("first"), v("second")];
    let mut ed = LineEditor::new(v("draft"));
    feed(&mut ed, &history, &[0x1b, 0x5b, 0x35, 0x7e]);
    assert_eq!(ed.buffer, v("first"));
    feed(&mut ed, &history, &[0x1b, 0x5b, 0x36, 0x7e]);
    assert_eq!(ed.buffer, v("draft"));
}

#[test]
fn typing_resets_history_navigation() {
    let history = vec![v("first"), v("second")];
    let mut ed = LineEditor::new(Vec::new());
    feed(&mut ed, &history, &[0x1b, 0x5b, 0x41]);
    assert_eq!(ed.buffer, v("second"));
    // An ordinary byte leaves recall; the next up starts from the newest.
    feed(&mut ed, &history, b"x");
    feed(&mut ed, &history, &[0x1b, 0x5b, 0x41]);
    assert_eq!(ed.buffer, v("second"));
}

#[test]
fn unknown_escape_sequence_is_dropped() {
    let mut ed = LineEditor::new(v("abc"));
    let history = Vec::new();
    feed(&mut ed, &history, &[0x1b, 0x5b, 0x5a]);
    assert_eq!(ed.buffer, v("abc"));
    assert_eq!(ed.cursor, 3);
    // ESC followed by something other than a bracket is dropped too.
    feed(&mut ed, &history, &[0x1b, 0x41]);
    assert_eq!(ed.buffer, v("abc"));
}

#[test]
fn other_control_bytes_are_ignored() {
    let mut ed = LineEditor::new(Vec::new());
    let history = Vec::new();
    feed(&mut ed, &history, &[1, 2, 7, 9]);
    assert_eq!(ed.buffer, v(""));
}

#[test]
fn echo_of_typing_at_end_is_the_byte() {
    let mut ed = LineEditor::new(Vec::new());
    let history = Vec::new();
    let (echo, done) = ed.on_byte(b'a', &history);
    assert_eq!(echo, v("a"));
    assert!(!done);
}

#[test]
fn echo_of_interior_insert_redraws_tail() {
    let mut ed = LineEditor::new(v("bc"));
    let history = Vec::new();
    feed(&mut ed, &history, &[0x1b, 0x5b, 0x44, 0x1b, 0x5b, 0x44]);
    let (echo, _) = ed.on_byte(b'a', &history);
    // The new tail is echoed, then the cursor is backed up over it.
    assert_eq!(echo, vec![b'a', b'b', b'c', 8, 8]);
}

#[test]
fn echo_of_cursor_left_is_backspace() {
    let mut ed = LineEditor::new(v("ab"));
    let history = Vec::new();
    let _ = ed.on_byte(0x1b, &history);
    let _ = ed.on_byte(0x5b, &history);
    let (echo, _) = ed.on_byte(0x44, &history);
    assert_eq!(echo, vec![8]);
}

#[test]
fn echo_of_backspace_erases_and_redraws() {
    let mut ed = LineEditor::new(v("ab"));
    let history = Vec::new();
    let (echo, _) = ed.on_byte(127, &history);
    // One backspace, blank the stale tail, back up, redraw the (empty)
    // tail, back up over it.
    assert_eq!(echo, vec![8, 32, 8]);
    assert_eq!(ed.buffer, v("a"));
}

#[test]
fn trim_bytes_trims_both_ends() {
    assert_eq!(trim_bytes(&v("  x y\t")), v("x y"));
    assert_eq!(trim_bytes(&v("\t \n")), v(""));
    assert_eq!(trim_bytes(&v("plain")), v("plain"));
}
