//! Compilation progress: `[N of M] Compiling Module ...` lines are shown as a single-line
//! progress indicator instead of being passed through; other lines are forwarded unchanged, and
//! clear the indicator first.
use vstd::prelude::*;

use super::parse::ghc_message::compiling::{compiling_at, scan_compiling, CompilingProgressView};
use super::parse::ghc_message::{strip_ansi_escapes, strip_str};
use super::parse::eval::byte_offset;
use super::parse::scan::Step;
use crate::text::{chars_of, push_char, push_decimal, push_str, decimal_seq};

verus! {

/// The longest prefix of `s` whose UTF-8 encoding takes at most `max_cols` bytes: the length in
/// characters.
pub open spec fn fitting_prefix(s: Seq<char>, max_cols: int) -> int
    decreases s.len(),
{
    if s.len() == 0 || byte_offset(s, s.len() as int) <= max_cols {
        s.len() as int
    } else {
        fitting_prefix(s.drop_last(), max_cols)
    }
}

/// Truncate `s` to at most `max_cols` bytes without splitting a character; see
/// [`fitting_prefix`].
pub fn truncate_to_terminal_width(s: &str, max_cols: usize) -> (r: &str)
    ensures
        r@ == s@.subrange(0, fitting_prefix(s@, max_cols as int)),
{
    let c = chars_of(s);
    let mut bytes: usize = 0;
    let mut k: usize = 0;
    let mut done = false;
    proof {
        lemma_fitting_prefix(c@, max_cols as int);
    }
    while k < c.len() && !done
        invariant
            k <= c.len(),
            c@ == s@,
            bytes == byte_offset(c@, k as int),
            bytes <= max_cols,
            k <= fitting_prefix(c@, max_cols as int) <= c.len(),
            byte_offset(c@, fitting_prefix(c@, max_cols as int)) <= max_cols,
            done ==> k < c.len() && byte_offset(c@, k + 1) > max_cols,
        decreases c.len() - k + (if done { 0int } else { 1int }),
    {
        let ch = c[k];
        let w: usize = if (ch as u32) < 0x80 {
            1
        } else if (ch as u32) < 0x800 {
            2
        } else if (ch as u32) < 0x10000 {
            3
        } else {
            4
        };
        assert(byte_offset(c@, k + 1) == bytes + w);
        if w > max_cols - bytes {
            done = true;
        } else {
            bytes = bytes + w;
            k += 1;
            proof {
                lemma_fitting_prefix(c@, max_cols as int);
            }
        }
    }
    proof {
        if done {
            lemma_byte_offset_monotone(c@, k as int + 1);
        }
    }
    s.substring_char(0, k)
}

proof fn lemma_byte_offset_monotone(s: Seq<char>, j: int)
    requires
        0 <= j <= s.len(),
    ensures
        forall|i: int| j <= i <= s.len() ==> byte_offset(s, j) <= byte_offset(s, i),
    decreases s.len() - j,
{
    if j < s.len() {
        lemma_byte_offset_monotone(s, j + 1);
    }
}

proof fn lemma_byte_offset_prefix(s: Seq<char>, j: int)
    requires
        0 <= j <= s.len(),
    ensures
        byte_offset(s.drop_last(), j) == byte_offset(s, j) || j == s.len(),
    decreases j,
{
    if 0 < j < s.len() {
        lemma_byte_offset_prefix(s, j - 1);
        assert(s.drop_last()[j - 1] == s[j - 1]);
    }
}

proof fn lemma_fitting_prefix(s: Seq<char>, max_cols: int)
    requires
        max_cols >= 0,
    ensures
        0 <= fitting_prefix(s, max_cols) <= s.len(),
        byte_offset(s, fitting_prefix(s, max_cols)) <= max_cols,
        forall|j: int| 0 <= j <= s.len() && byte_offset(s, j) <= max_cols ==> j <= fitting_prefix(
            s,
            max_cols,
        ),
    decreases s.len(),
{
    if byte_offset(s, s.len() as int) > max_cols {
        let t = s.drop_last();
        lemma_fitting_prefix(t, max_cols);
        let f = fitting_prefix(t, max_cols);
        lemma_byte_offset_prefix(s, f);
        assert forall|j: int| 0 <= j <= s.len() && byte_offset(s, j) <= max_cols implies j <= f by {
            lemma_byte_offset_prefix(s, j);
            lemma_byte_offset_monotone(s, j);
        }
    }
}

} // verus!

verus! {

/// What `String::from_utf8_lossy` gives for some bytes: their UTF-8 decoding, with each invalid
/// sequence replaced by `U+FFFD`.
pub uninterp spec fn utf8_lossy(bytes: Seq<u8>) -> Seq<char>;

/// `String::from_utf8_lossy`: decodes UTF-8, replacing invalid sequences. Its result is claimed
/// to be [`utf8_lossy`] of the bytes, a function of the bytes alone.
#[verifier::external_body]
fn decode_lossy(bytes: &[u8]) -> (r: String)
    ensures
        r@ == utf8_lossy(bytes@),
{
    String::from_utf8_lossy(bytes).into_owned()
}

/// The progress a complete output line reports, if it is a `[N of M] Compiling ...` line once
/// decoded and stripped of ANSI escapes.
pub open spec fn line_progress(line: Seq<u8>) -> Option<CompilingProgressView> {
    let text = strip_ansi_escapes(utf8_lossy(line));
    match compiling_at(text, 0) {
        Step::Done(e, p) => if e == text.len() {
            Some(p)
        } else {
            None
        },
        _ => None,
    }
}

/// The index of the first newline byte in `b`, if any.
pub open spec fn first_newline(b: Seq<u8>) -> Option<int> {
    if exists|k: int| 0 <= k < b.len() && b[k] == 10u8 {
        Some(choose|k: int| 0 <= k < b.len() && b[k] == 10u8 && forall|j: int| 0 <= j < k ==> b[j] != 10u8)
    } else {
        None
    }
}

/// What to do on the terminal.
#[derive(Debug, Clone, PartialEq, Eq)]
pub enum ProgressAction {
    /// Replace the current line with `[current/total] Compiling module`.
    Render { current: usize, total: usize, module: String },
    /// Clear the progress indicator.
    Clear,
}

/// The contents of a [`ProgressAction`].
pub enum ProgressActionView {
    Render { current: usize, total: usize, module: Seq<char> },
    Clear,
}

impl View for ProgressAction {
    type V = ProgressActionView;

    open spec fn view(&self) -> ProgressActionView {
        match self {
            ProgressAction::Render { current, total, module } => ProgressActionView::Render {
                current: *current,
                total: *total,
                module: module@,
            },
            ProgressAction::Clear => ProgressActionView::Clear,
        }
    }
}

/// The views of a sequence of actions.
pub open spec fn action_views(v: Seq<ProgressAction>) -> Seq<ProgressActionView> {
    v.map_values(|a: ProgressAction| a@)
}

/// The contents of a [`ProgressState`].
pub struct ProgressStateView {
    pub line_buffer: Seq<u8>,
    pub pending_output: Seq<u8>,
    pub progress_active: bool,
    pub render_progress: bool,
}

/// One complete line: a progress line is rendered (when rendering is on, which makes the
/// indicator active); any other line clears an active indicator and is queued for output.
pub open spec fn line_step(st: ProgressStateView, line: Seq<u8>) -> (ProgressStateView, Seq<ProgressActionView>) {
    match line_progress(line) {
        Some(pr) => if st.render_progress {
            (
                ProgressStateView { progress_active: true, ..st },
                seq![
                    ProgressActionView::Render {
                        current: pr.current,
                        total: pr.total,
                        module: pr.module.name,
                    },
                ],
            )
        } else {
            (st, Seq::empty())
        },
        None => {
            let queued = ProgressStateView { pending_output: st.pending_output + line, ..st };
            if st.render_progress && st.progress_active {
                (ProgressStateView { progress_active: false, ..queued }, seq![ProgressActionView::Clear])
            } else {
                (queued, Seq::empty())
            }
        },
    }
}

/// Process the complete lines of the line buffer, in order (see [`line_step`]); what follows the
/// last newline stays buffered.
pub open spec fn process_lines(st: ProgressStateView) -> (ProgressStateView, Seq<ProgressActionView>)
    decreases st.line_buffer.len(),
{
    match first_newline(st.line_buffer) {
        None => (st, Seq::empty()),
        Some(p) => if !(0 <= p < st.line_buffer.len()) {
            (st, Seq::empty())
        } else {
            let line = st.line_buffer.subrange(0, p + 1);
            let rest = st.line_buffer.subrange(p + 1, st.line_buffer.len() as int);
            let (st2, acts) = line_step(ProgressStateView { line_buffer: rest, ..st }, line);
            if st2.line_buffer.len() < st.line_buffer.len() {
                let next = process_lines(st2);
                (next.0, acts + next.1)
            } else {
                (st2, acts)
            }
        },
    }
}

/// The state of the progress indicator: the partial line not yet processed, the output not yet
/// forwarded, and whether an indicator is on the terminal.
#[derive(Debug)]
pub struct ProgressState {
    line_buffer: Vec<u8>,
    pending_output: Vec<u8>,
    progress_active: bool,
    render_progress: bool,
}

impl View for ProgressState {
    type V = ProgressStateView;

    closed spec fn view(&self) -> ProgressStateView {
        ProgressStateView {
            line_buffer: self.line_buffer@,
            pending_output: self.pending_output@,
            progress_active: self.progress_active,
            render_progress: self.render_progress,
        }
    }
}

/// The text of the progress indicator.
pub open spec fn progress_text(current: usize, total: usize, module: Seq<char>) -> Seq<char> {
    seq!['['] + decimal_seq(current as nat) + seq!['/'] + decimal_seq(total as nat) + "] Compiling "@
        + module
}

/// The text of the progress indicator: `[current/total] Compiling module`.
pub fn progress_line(current: usize, total: usize, module: &str) -> (r: String)
    ensures
        r@ == progress_text(current, total, module@),
{
    let mut r = String::new();
    push_char(&mut r, '[');
    push_decimal(&mut r, current);
    push_char(&mut r, '/');
    push_decimal(&mut r, total);
    push_str(&mut r, "] Compiling ");
    push_str(&mut r, module);
    r
}

fn find_newline(b: &Vec<u8>) -> (r: Option<usize>)
    ensures
        match r {
            Some(p) => first_newline(b@) == Some(p as int) && p < b.len(),
            None => first_newline(b@) is None,
        },
{
    let mut k: usize = 0;
    while k < b.len()
        invariant
            0 <= k <= b.len(),
            forall|j: int| 0 <= j < k ==> b@[j] != 10u8,
        decreases b.len() - k,
    {
        if b[k] == 10u8 {
            proof {
                let c = choose|c: int| 0 <= c < b.len() && b@[c] == 10u8 && forall|j: int|
                    0 <= j < c ==> b@[j] != 10u8;
                assert(c == k) by {
                    if c < k {
                    } else if c > k {
                        assert(b@[k as int] != 10u8);
                    }
                }
            }
            return Some(k);
        }
        k += 1;
    }
    None
}

fn split_vec(v: Vec<u8>, at: usize) -> (r: (Vec<u8>, Vec<u8>))
    requires
        at <= v.len(),
    ensures
        r.0@ == v@.subrange(0, at as int),
        r.1@ == v@.subrange(at as int, v.len() as int),
{
    let mut head: Vec<u8> = Vec::new();
    let mut tail: Vec<u8> = Vec::new();
    let mut k: usize = 0;
    while k < v.len()
        invariant
            0 <= k <= v.len(),
            at <= v.len(),
            head@ == v@.subrange(0, if k < at { k as int } else { at as int }),
            tail@ == if k < at { Seq::<u8>::empty() } else { v@.subrange(at as int, k as int) },
        decreases v.len() - k,
    {
        if k < at {
            head.push(v[k]);
            assert(head@ =~= v@.subrange(0, (k + 1) as int));
        } else {
            tail.push(v[k]);
            assert(tail@ =~= v@.subrange(at as int, (k + 1) as int));
        }
        k += 1;
    }
    proof {
        if at == v.len() {
            assert(tail@ =~= v@.subrange(at as int, v.len() as int));
        }
    }
    (head, tail)
}

impl ProgressState {
    /// A fresh state: nothing buffered, no indicator.
    pub fn new(render_progress: bool) -> (r: Self)
        ensures
            r@ == (ProgressStateView {
                line_buffer: Seq::empty(),
                pending_output: Seq::empty(),
                progress_active: false,
                render_progress,
            }),
    {
        let r = ProgressState {
            line_buffer: Vec::new(),
            pending_output: Vec::new(),
            progress_active: false,
            render_progress,
        };
        assert(r@.line_buffer =~= Seq::<u8>::empty());
        assert(r@.pending_output =~= Seq::<u8>::empty());
        r
    }

    /// A fresh state with the same configuration.
    pub fn clone_fresh(&self) -> (r: Self)
        ensures
            r@ == (ProgressStateView {
                line_buffer: Seq::empty(),
                pending_output: Seq::empty(),
                progress_active: false,
                render_progress: self@.render_progress,
            }),
    {
        ProgressState::new(self.render_progress)
    }

    /// Whether progress is rendered at all.
    pub fn render_progress(&self) -> (r: bool)
        ensures
            r == self@.render_progress,
    {
        self.render_progress
    }

    /// The output not yet forwarded.
    pub fn pending_output(&self) -> (r: &Vec<u8>)
        ensures
            r@ == self@.pending_output,
    {
        &self.pending_output
    }

    /// Forget the first `n` bytes of the pending output, once they are written.
    pub fn consume_pending(&mut self, n: usize)
        requires
            n <= old(self)@.pending_output.len(),
        ensures
            final(self)@ == (ProgressStateView {
                pending_output: old(self)@.pending_output.subrange(n as int, old(self)@.pending_output.len() as int),
                ..old(self)@
            }),
    {
        let mut pending: Vec<u8> = Vec::new();
        std::mem::swap(&mut pending, &mut self.pending_output);
        let (_, rest) = split_vec(pending, n);
        self.pending_output = rest;
    }

    fn handle_line(&mut self, line: Vec<u8>) -> (r: Vec<ProgressAction>)
        ensures
            (final(self)@, action_views(r@)) == line_step(old(self)@, line@),
    {
        let text = decode_lossy(line.as_slice());
        let stripped = strip_str(text.as_str());
        let s = chars_of(stripped.as_str());
        let mut acts: Vec<ProgressAction> = Vec::new();
        let progress = match scan_compiling(&s, 0) {
            Step::Done(e, pr) => if e == s.len() {
                Some(pr)
            } else {
                None
            },
            _ => None,
        };
        match progress {
            Some(pr) => {
                if self.render_progress {
                    acts.push(ProgressAction::Render {
                        current: pr.current,
                        total: pr.total,
                        module: pr.module.name,
                    });
                    self.progress_active = true;
                }
            },
            None => {
                if self.render_progress && self.progress_active {
                    acts.push(ProgressAction::Clear);
                    self.progress_active = false;
                }
                let mut line = line;
                self.pending_output.append(&mut line);
            },
        }
        assert(action_views(acts@) =~= line_step(old(self)@, line@).1);
        acts
    }

    /// Process the complete lines in the line buffer; see [`process_lines`].
    pub fn process_complete_lines(&mut self) -> (r: Vec<ProgressAction>)
        ensures
            (final(self)@, action_views(r@)) == process_lines(old(self)@),
        decreases old(self)@.line_buffer.len(),
    {
        let p = match find_newline(&self.line_buffer) {
            Some(p) => p,
            None => {
                let none: Vec<ProgressAction> = Vec::new();
                assert(action_views(none@) =~= Seq::<ProgressActionView>::empty());
                return none;
            },
        };
        let ghost st0 = self@;
        let mut buffer: Vec<u8> = Vec::new();
        std::mem::swap(&mut buffer, &mut self.line_buffer);
        let (line, rest) = split_vec(buffer, p + 1);
        self.line_buffer = rest;
        let ghost st1 = self@;
        assert(st1 == (ProgressStateView {
            line_buffer: st0.line_buffer.subrange(p + 1, st0.line_buffer.len() as int),
            ..st0
        }));
        let ghost l = line@;
        let mut acts = self.handle_line(line);
        let ghost st2 = self@;
        let ghost first = action_views(acts@);
        assert((st2, first) == line_step(st1, l));
        assert(st2.line_buffer == st1.line_buffer);
        assert(process_lines(st0) == (process_lines(st2).0, first + process_lines(st2).1));
        let mut more = self.process_complete_lines();
        let ghost later = action_views(more@);
        acts.append(&mut more);
        assert(action_views(acts@) =~= first + later);
        acts
    }

    /// Accept bytes written to the progress writer: when progress is not rendered they go straight
    /// through (`true`); otherwise they are buffered and the complete lines processed.
    pub fn accept(&mut self, buf: &[u8]) -> (r: (bool, Vec<ProgressAction>))
        ensures
            !old(self)@.render_progress ==> r.0 && r.1@.len() == 0 && final(self)@ == old(self)@,
            old(self)@.render_progress ==> !r.0 && (final(self)@, action_views(r.1@)) == process_lines(
                ProgressStateView { line_buffer: old(self)@.line_buffer + buf@, ..old(self)@ },
            ),
    {
        if !self.render_progress {
            return (true, Vec::new());
        }
        let mut k: usize = 0;
        let ghost start = self@;
        while k < buf.len()
            invariant
                0 <= k <= buf.len(),
                self@ == (ProgressStateView {
                    line_buffer: start.line_buffer + buf@.subrange(0, k as int),
                    ..start
                }),
            decreases buf.len() - k,
        {
            self.line_buffer.push(buf[k]);
            assert(self@.line_buffer =~= start.line_buffer + buf@.subrange(0, k + 1));
            k += 1;
        }
        assert(buf@.subrange(0, buf.len() as int) =~= buf@);
        (false, self.process_complete_lines())
    }

    /// Shut down: clear an active indicator (`true` when there is one to clear, when rendering),
    /// and queue whatever partial line is buffered for output.
    pub fn shutdown(&mut self) -> (r: bool)
        ensures
            r == (old(self)@.render_progress && old(self)@.progress_active),
            final(self)@ == (ProgressStateView {
                line_buffer: Seq::empty(),
                pending_output: old(self)@.pending_output + old(self)@.line_buffer,
                progress_active: if r {
                    false
                } else {
                    old(self)@.progress_active
                },
                render_progress: old(self)@.render_progress,
            }),
    {
        let clear = self.render_progress && self.progress_active;
        if clear {
            self.progress_active = false;
        }
        let mut buffer: Vec<u8> = Vec::new();
        std::mem::swap(&mut buffer, &mut self.line_buffer);
        self.pending_output.append(&mut buffer);
        clear
    }
}

} // verus!
