//! The history store and its bang-expansion grammar.
//!
//! A finished, non-empty line is appended to the ordered log unless it
//! repeats the immediately preceding entry. Before a line runs, the
//! expansion grammar rewrites it left to right: `!!` is the most recent
//! entry, `!N` the entry at 1-based position `N`, `!-N` the `N`th from
//! the last, and `!word` the most recent entry starting with `word`.
//! The first reference that resolves to nothing stops everything with
//! the offending token.

use vstd::prelude::*;

use crate::bytes::{bytes_eq, clone_bytes, push_all, push_range, starts_with};

verus! {

/// ASCII decimal digit.
pub open spec fn is_digit(b: u8) -> bool {
    48 <= b && b <= 57
}

/// A byte that may stand in a `!word` reference: letters, digits and
/// underscore.
pub open spec fn is_word_byte(b: u8) -> bool {
    is_digit(b) || (65 <= b && b <= 90) || (97 <= b && b <= 122) || b == 95
}

fn is_digit_byte(b: u8) -> (r: bool)
    ensures
        r == is_digit(b),
{
    48 <= b && b <= 57
}

fn is_word_byte_exec(b: u8) -> (r: bool)
    ensures
        r == is_word_byte(b),
{
    (48 <= b && b <= 57) || (65 <= b && b <= 90) || (97 <= b && b <= 122) || b == 95
}

/// First position at or after `j` that does not hold a digit.
pub open spec fn digits_end(inp: Seq<u8>, j: int) -> int
    decreases inp.len() - j,
{
    if j < inp.len() && is_digit(inp[j]) {
        digits_end(inp, j + 1)
    } else {
        j
    }
}

/// First position at or after `j` that does not hold a word byte.
pub open spec fn word_end(inp: Seq<u8>, j: int) -> int
    decreases inp.len() - j,
{
    if j < inp.len() && is_word_byte(inp[j]) {
        word_end(inp, j + 1)
    } else {
        j
    }
}

proof fn lemma_digits_end_bounds(inp: Seq<u8>, j: int)
    requires
        j <= inp.len(),
    ensures
        j <= digits_end(inp, j) <= inp.len(),
    decreases inp.len() - j,
{
    if j < inp.len() && is_digit(inp[j]) {
        lemma_digits_end_bounds(inp, j + 1);
    }
}

proof fn lemma_word_end_bounds(inp: Seq<u8>, j: int)
    requires
        j <= inp.len(),
    ensures
        j <= word_end(inp, j) <= inp.len(),
    decreases inp.len() - j,
{
    if j < inp.len() && is_word_byte(inp[j]) {
        lemma_word_end_bounds(inp, j + 1);
    }
}

/// The number written by the digits `inp[j..end]`.
pub open spec fn digits_val(inp: Seq<u8>, j: int, end: int) -> int
    decreases end - j,
{
    if j >= end {
        0
    } else {
        digits_val(inp, j, end - 1) * 10 + (inp[end - 1] - 48)
    }
}

proof fn lemma_digits_val_nonneg(inp: Seq<u8>, j: int, end: int)
    requires
        forall|t: int| j <= t < end ==> is_digit(#[trigger] inp[t]),
    ensures
        digits_val(inp, j, end) >= 0,
    decreases end - j,
{
    if j < end {
        lemma_digits_val_nonneg(inp, j, end - 1);
    }
}

/// The most recent history entry, searching newest first, whose text
/// starts with `w`.
pub open spec fn find_prefix(hist: Seq<Seq<u8>>, w: Seq<u8>) -> Option<Seq<u8>>
    decreases hist.len(),
{
    if hist.len() == 0 {
        None
    } else if w.is_prefix_of(hist.last()) {
        Some(hist.last())
    } else {
        find_prefix(hist.drop_last(), w)
    }
}

/// Where the bang token starting at `i` ends, if `inp[i]` is `!` and a
/// token follows: `!!`, `!-N`, `!N` or `!word`.
pub open spec fn token_end(inp: Seq<u8>, i: int) -> Option<int> {
    if i + 1 < inp.len() && inp[i + 1] == 33 {
        Some(i + 2)
    } else if i + 1 < inp.len() && inp[i + 1] == 45 && i + 2 < inp.len() && is_digit(inp[i + 2]) {
        Some(digits_end(inp, i + 2))
    } else if i + 1 < inp.len() && is_digit(inp[i + 1]) {
        Some(digits_end(inp, i + 1))
    } else if i + 1 < inp.len() && is_word_byte(inp[i + 1]) {
        Some(word_end(inp, i + 1))
    } else {
        None
    }
}

/// What the token `inp[i..end]` refers to, or `None` if the reference
/// names no history entry.
pub open spec fn resolve_token(inp: Seq<u8>, i: int, end: int, hist: Seq<Seq<u8>>) -> Option<
    Seq<u8>,
> {
    if inp[i + 1] == 33 {
        if hist.len() > 0 {
            Some(hist.last())
        } else {
            None
        }
    } else if inp[i + 1] == 45 {
        let v = digits_val(inp, i + 2, end);
        if 1 <= v && v <= hist.len() {
            Some(hist[hist.len() - v])
        } else {
            None
        }
    } else if is_digit(inp[i + 1]) {
        let v = digits_val(inp, i + 1, end);
        if 1 <= v && v <= hist.len() {
            Some(hist[v - 1])
        } else {
            None
        }
    } else {
        find_prefix(hist, inp.subrange(i + 1, end))
    }
}

/// Expansion of `inp[i..]`: the rewritten text, or the first token that
/// resolves to nothing.
pub open spec fn expand_from(inp: Seq<u8>, i: int, hist: Seq<Seq<u8>>) -> Result<Seq<u8>, Seq<u8>>
    decreases inp.len() - i,
    via expand_from_decreases
{
    if i >= inp.len() {
        Ok(Seq::empty())
    } else if inp[i] == 33 {
        match token_end(inp, i) {
            Some(end) => match resolve_token(inp, i, end, hist) {
                Some(text) => match expand_from(inp, end, hist) {
                    Ok(rest) => Ok(text + rest),
                    Err(e) => Err(e),
                },
                None => Err(inp.subrange(i, end)),
            },
            None => match expand_from(inp, i + 1, hist) {
                Ok(rest) => Ok(seq![inp[i]] + rest),
                Err(e) => Err(e),
            },
        }
    } else {
        match expand_from(inp, i + 1, hist) {
            Ok(rest) => Ok(seq![inp[i]] + rest),
            Err(e) => Err(e),
        }
    }
}

#[via_fn]
proof fn expand_from_decreases(inp: Seq<u8>, i: int, hist: Seq<Seq<u8>>) {
    if i < inp.len() && inp[i] == 33 {
        lemma_digits_end_bounds(inp, i + 1);
        lemma_word_end_bounds(inp, i + 1);
        if i + 2 <= inp.len() {
            lemma_digits_end_bounds(inp, i + 2);
        }
    }
}

/// The three outcomes of expanding a line.
pub ghost enum ExpansionModel {
    /// Some reference was rewritten and the result differs: the new
    /// text becomes the candidate input.
    Expanded(Seq<u8>),
    /// This token named no history entry; nothing runs.
    EventNotFound(Seq<u8>),
    /// No reference changed anything: the line is used as typed.
    Unchanged,
}

/// The full expansion of `inp` against the history.
pub open spec fn expand_model(inp: Seq<u8>, hist: Seq<Seq<u8>>) -> ExpansionModel {
    match expand_from(inp, 0, hist) {
        Err(tok) => ExpansionModel::EventNotFound(tok),
        Ok(out) => if out == inp {
            ExpansionModel::Unchanged
        } else {
            ExpansionModel::Expanded(out)
        },
    }
}

/// The outcome of expanding one input line.
pub enum HistoryExpansion {
    /// The rewritten text, different from the input.
    Expanded(Vec<u8>),
    /// The token that named no history entry.
    EventNotFound(Vec<u8>),
    /// Nothing was rewritten.
    Unchanged,
}

impl DeepView for HistoryExpansion {
    type V = ExpansionModel;

    open spec fn deep_view(&self) -> ExpansionModel {
        match self {
            HistoryExpansion::Expanded(t) => ExpansionModel::Expanded(t@),
            HistoryExpansion::EventNotFound(t) => ExpansionModel::EventNotFound(t@),
            HistoryExpansion::Unchanged => ExpansionModel::Unchanged,
        }
    }
}

/// Prepend an already-expanded prefix to the outcome of the rest.
pub open spec fn compose_expand(pre: Seq<u8>, r: Result<Seq<u8>, Seq<u8>>) -> Result<
    Seq<u8>,
    Seq<u8>,
> {
    match r {
        Ok(rest) => Ok(pre + rest),
        Err(e) => Err(e),
    }
}

proof fn lemma_compose_empty(r: Result<Seq<u8>, Seq<u8>>)
    ensures
        compose_expand(Seq::empty(), r) == r,
{
    match r {
        Ok(rest) => {
            assert(Seq::empty() + rest =~= rest);
        },
        Err(_) => {},
    }
}

proof fn lemma_compose_assoc(a: Seq<u8>, b: Seq<u8>, r: Result<Seq<u8>, Seq<u8>>)
    ensures
        compose_expand(a, compose_expand(b, r)) == compose_expand(a + b, r),
{
    match r {
        Ok(rest) => {
            assert(a + (b + rest) =~= (a + b) + rest);
        },
        Err(_) => {},
    }
}

/// Copy `v[from..to]` into a fresh vector.
fn subvec(v: &Vec<u8>, from: usize, to: usize) -> (r: Vec<u8>)
    requires
        from <= to,
        to <= v@.len(),
    ensures
        r@ == v@.subrange(from as int, to as int),
{
    let mut r: Vec<u8> = Vec::new();
    push_range(&mut r, v, from, to);
    proof {
        assert(r@ =~= v@.subrange(from as int, to as int));
    }
    r
}

/// Scan the digit span starting at `from`; returns its end and the
/// number it writes, or `None` when that number exceeds `u64::MAX`.
fn scan_digits(input: &Vec<u8>, from: usize) -> (r: (usize, Option<u64>))
    requires
        from <= input@.len(),
    ensures
        r.0 == digits_end(input@, from as int),
        from <= r.0 <= input@.len(),
        match r.1 {
            Some(v) => v as int == digits_val(input@, from as int, r.0 as int),
            None => digits_val(input@, from as int, r.0 as int) > u64::MAX,
        },
{
    let mut j: usize = from;
    let mut acc: u64 = 0;
    let mut overflowed = false;
    while j < input.len() && is_digit_byte(input[j])
        invariant
            from <= j <= input@.len(),
            digits_end(input@, from as int) == digits_end(input@, j as int),
            forall|t: int| from <= t < j ==> is_digit(#[trigger] input@[t]),
            !overflowed ==> acc as int == digits_val(input@, from as int, j as int),
            overflowed ==> digits_val(input@, from as int, j as int) > u64::MAX,
        decreases input@.len() - j,
    {
        let d = input[j] - 48;
        proof {
            lemma_digits_val_nonneg(input@, from as int, j as int);
            let a = digits_val(input@, from as int, j as int);
            let dd = d as int;
            if !overflowed {
                if acc > (u64::MAX - d as u64) / 10 {
                    assert(a * 10 + dd > u64::MAX) by (nonlinear_arith)
                        requires
                            a > (u64::MAX - dd) / 10,
                            0 <= dd <= 9,
                            a >= 0,
                    ;
                } else {
                    assert(a * 10 + dd <= u64::MAX) by (nonlinear_arith)
                        requires
                            a <= (u64::MAX - dd) / 10,
                            0 <= dd <= 9,
                            a >= 0,
                    ;
                }
            } else {
                assert(a * 10 + dd > u64::MAX) by (nonlinear_arith)
                    requires
                        a > u64::MAX,
                        0 <= dd,
                ;
            }
        }
        if !overflowed {
            if acc > (u64::MAX - d as u64) / 10 {
                overflowed = true;
            } else {
                acc = acc * 10 + d as u64;
            }
        }
        j = j + 1;
    }
    (j, if overflowed {
        None
    } else {
        Some(acc)
    })
}

/// Scan the word span starting at `from`; returns its end.
fn scan_word(input: &Vec<u8>, from: usize) -> (r: usize)
    requires
        from <= input@.len(),
    ensures
        r == word_end(input@, from as int),
        from <= r <= input@.len(),
{
    let mut j: usize = from;
    while j < input.len() && is_word_byte_exec(input[j])
        invariant
            from <= j <= input@.len(),
            word_end(input@, from as int) == word_end(input@, j as int),
        decreases input@.len() - j,
    {
        j = j + 1;
    }
    j
}

/// Search the history newest-first for an entry starting with `w`;
/// returns its index.
fn find_prefix_index(history: &Vec<Vec<u8>>, w: &Vec<u8>) -> (r: Option<usize>)
    ensures
        match r {
            Some(k) => k < history@.len() && find_prefix(history.deep_view(), w@) == Some(
                history.deep_view()[k as int],
            ),
            None => find_prefix(history.deep_view(), w@) == None::<Seq<u8>>,
        },
{
    let ghost hist = history.deep_view();
    let mut k: usize = history.len();
    proof {
        assert(hist.take(k as int) =~= hist);
    }
    while k > 0
        invariant
            k <= history@.len(),
            hist == history.deep_view(),
            find_prefix(hist, w@) == find_prefix(hist.take(k as int), w@),
        decreases k,
    {
        k = k - 1;
        proof {
            assert(hist.take(k + 1).drop_last() =~= hist.take(k as int));
            assert(hist.take(k + 1).last() == hist[k as int]);
            assert(hist[k as int] == history@[k as int]@);
        }
        if starts_with(&history[k], w) {
            return Some(k);
        }
    }
    proof {
        assert(hist.take(0) =~= Seq::<Seq<u8>>::empty());
    }
    None
}

/// Expand one input line against the history, left to right: the
/// rewritten text if any reference changed it, `EventNotFound` with the
/// first token that named no entry, or `Unchanged`.
pub fn history_expansion(history: &Vec<Vec<u8>>, input: &Vec<u8>) -> (r: HistoryExpansion)
    ensures
        r.deep_view() == expand_model(input@, history.deep_view()),
{
    let ghost hist = history.deep_view();
    let ghost inp = input@;
    let mut out: Vec<u8> = Vec::new();
    let mut i: usize = 0;
    proof {
        lemma_compose_empty(expand_from(inp, 0, hist));
        assert(out@ =~= Seq::<u8>::empty());
    }
    while i < input.len()
        invariant
            i <= input@.len(),
            hist == history.deep_view(),
            inp == input@,
            expand_from(inp, 0, hist) == compose_expand(out@, expand_from(inp, i as int, hist)),
        decreases input@.len() - i,
    {
        let ghost out0 = out@;
        let n = input.len();
        let b = input[i];
        if b == 33u8 && i + 1 < n && input[i + 1] == 33u8 {
            // `!!`: the most recent entry.
            let end = i + 2;
            if history.len() > 0 {
                proof {
                    assert(hist.last() == history@[history@.len() - 1]@);
                }
                let text = clone_bytes(&history[history.len() - 1]);
                push_all(&mut out, &text);
                proof {
                    lemma_compose_assoc(out0, text@, expand_from(inp, end as int, hist));
                }
                i = end;
            } else {
                let tok = subvec(input, i, end);
                return HistoryExpansion::EventNotFound(tok);
            }
        } else if b == 33u8 && i + 1 < n && input[i + 1] == 45u8 && i + 2 < n && is_digit_byte(
            input[i + 2],
        ) {
            // `!-N`: the Nth entry from the last.
            let (end, vopt) = scan_digits(input, i + 2);
            let hlen = history.len();
            proof {
                assert((hlen as u64) as int == hlen as int);
            }
            let mut resolved: Option<usize> = None;
            match vopt {
                Some(v) => {
                    if 1 <= v && v <= hlen as u64 {
                        resolved = Some(hlen - (v as usize));
                    }
                },
                None => {},
            }
            match resolved {
                Some(k) => {
                    proof {
                        assert(hist[k as int] == history@[k as int]@);
                    }
                    let text = clone_bytes(&history[k]);
                    push_all(&mut out, &text);
                    proof {
                        lemma_compose_assoc(out0, text@, expand_from(inp, end as int, hist));
                    }
                    i = end;
                },
                None => {
                    let tok = subvec(input, i, end);
                    return HistoryExpansion::EventNotFound(tok);
                },
            }
        } else if b == 33u8 && i + 1 < n && is_digit_byte(input[i + 1]) {
            // `!N`: the entry at 1-based position N.
            let (end, vopt) = scan_digits(input, i + 1);
            let hlen = history.len();
            proof {
                assert((hlen as u64) as int == hlen as int);
            }
            let mut resolved: Option<usize> = None;
            match vopt {
                Some(v) => {
                    if 1 <= v && v <= hlen as u64 {
                        resolved = Some((v as usize) - 1);
                    }
                },
                None => {},
            }
            match resolved {
                Some(k) => {
                    proof {
                        assert(hist[k as int] == history@[k as int]@);
                    }
                    let text = clone_bytes(&history[k]);
                    push_all(&mut out, &text);
                    proof {
                        lemma_compose_assoc(out0, text@, expand_from(inp, end as int, hist));
                    }
                    i = end;
                },
                None => {
                    let tok = subvec(input, i, end);
                    return HistoryExpansion::EventNotFound(tok);
                },
            }
        } else if b == 33u8 && i + 1 < n && is_word_byte_exec(input[i + 1]) {
            // `!word`: the most recent entry starting with the word.
            let end = scan_word(input, i + 1);
            let w = subvec(input, i + 1, end);
            match find_prefix_index(history, &w) {
                Some(k) => {
                    let text = clone_bytes(&history[k]);
                    push_all(&mut out, &text);
                    proof {
                        assert(hist[k as int] == history@[k as int]@);
                        lemma_compose_assoc(out0, text@, expand_from(inp, end as int, hist));
                    }
                    i = end;
                },
                None => {
                    let tok = subvec(input, i, end);
                    return HistoryExpansion::EventNotFound(tok);
                },
            }
        } else {
            // An ordinary byte, or a `!` that starts no token.
            out.push(b);
            proof {
                assert(out@ =~= out0 + seq![b]);
                lemma_compose_assoc(out0, seq![b], expand_from(inp, i + 1, hist));
            }
            i = i + 1;
        }
    }
    proof {
        assert(out@ + Seq::<u8>::empty() =~= out@);
    }
    if bytes_eq(&out, input) {
        HistoryExpansion::Unchanged
    } else {
        HistoryExpansion::Expanded(out)
    }
}

/// The history after offering it a finished line: appended unless it is
/// empty or repeats the last entry.
pub open spec fn append_model(h: Seq<Seq<u8>>, l: Seq<u8>) -> Seq<Seq<u8>> {
    if l.len() > 0 && (h.len() == 0 || h.last() != l) {
        h.push(l)
    } else {
        h
    }
}

/// Append a finished line to the history log unless it is empty or
/// identical to the immediately preceding entry. Returns whether an
/// entry was added (and so whether the caller owes a line to the
/// backing file).
pub fn history_append(history: &mut Vec<Vec<u8>>, line: &Vec<u8>) -> (appended: bool)
    ensures
        final(history).deep_view() == append_model(old(history).deep_view(), line@),
        appended == (line@.len() > 0 && (old(history)@.len() == 0 || old(
            history,
        ).deep_view().last() != line@)),
{
    let ghost h0 = history.deep_view();
    if line.len() == 0 {
        return false;
    }
    if history.len() > 0 {
        proof {
            assert(h0.last() == history@[history@.len() - 1]@);
        }
        if bytes_eq(&history[history.len() - 1], line) {
            return false;
        }
    }
    let entry = clone_bytes(line);
    history.push(entry);
    proof {
        let hnew = history.deep_view();
        assert forall|t: int| 0 <= t < hnew.len() implies hnew[t] == h0.push(line@)[t] by {
            assert(hnew[t] == history@[t].deep_view());
            if t < h0.len() {
                assert(h0[t] == old(history)@[t].deep_view());
            } else {
                assert(history@[t]@ =~= line@);
            }
        }
        assert(hnew =~= h0.push(line@));
    }
    true
}

/// LAW: offering the same line twice in a row creates only one entry.
pub proof fn lemma_append_dedup(h: Seq<Seq<u8>>, l: Seq<u8>)
    ensures
        append_model(append_model(h, l), l) == append_model(h, l),
{
}

/// LAW: offering a line, a different line, then the first line again
/// creates three entries: deduplication applies only to consecutive
/// repeats.
pub proof fn lemma_append_distinct(h: Seq<Seq<u8>>, l1: Seq<u8>, l2: Seq<u8>)
    requires
        l1.len() > 0,
        l2.len() > 0,
        l1 != l2,
    ensures
        append_model(append_model(h, l1), l2).len() == append_model(h, l1).len() + 1,
        append_model(append_model(append_model(h, l1), l2), l1).len() == append_model(
            h,
            l1,
        ).len() + 2,
{
    let h1 = append_model(h, l1);
    assert(h1.len() > 0 && h1.last() == l1);
    let h2 = append_model(h1, l2);
    assert(h2.last() == l2);
}

} // verus!
