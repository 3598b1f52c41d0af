//! The line editor: a state machine from key events to an edited line and
//! the text that keeps the display row in step with it.

use vstd::prelude::*;
use crate::bounded::{
    line_as_slice, line_chars, line_clear, line_extend, line_new, line_pop, line_push,
    LINE_CAPACITY,
};
use crate::completion::{complete, completion_context, lemma_completion_plain, matching, Completion};
use crate::history::{after_newer, after_older, all_plain, at_depth, older_target, HistoryRing, Recall};
use crate::registry::{join_strs, joined, name_views};
use crate::screen::{
    erase_one, erase_seq, lemma_erase, lemma_erase_one, lemma_new_row, lemma_render_concat,
    lemma_write_plain, render, shows, Screen, BACKSPACE,
};
use crate::text::{chars_equal, is_control, is_control_char, plain, push_chars};

verus! {

/// Microseconds to wait before polling again when no key is pending.
pub const IDLE_BACKOFF_US: usize = 1000;

/// Microseconds to wait before polling again after the input device failed.
pub const ERROR_BACKOFF_US: usize = 2000;

/// The non-character keys a console reports.
#[derive(Clone, Copy, Debug, PartialEq, Eq, Structural)]
pub enum ScanCode {
    Escape,
    Up,
    Down,
    Left,
    Right,
    Other,
}

/// One key press.
#[derive(Clone, Copy, Debug, PartialEq, Eq, Structural)]
pub enum KeyEvent {
    Printable(char),
    Special(ScanCode),
}

/// What one key press produced: the text to send to the console, and
/// whether the line is finished.
#[derive(Debug)]
pub struct Step {
    pub out: Vec<char>,
    pub done: bool,
}

/// Enter: a carriage return or a line feed.
pub open spec fn is_enter(key: KeyEvent) -> bool {
    key matches KeyEvent::Printable(c) && (c == '\r' || c == '\n')
}

/// The line after typing `c`: backspace removes the last character, other
/// control characters do nothing, and any other character is appended
/// while the line is below capacity (at capacity it is dropped).
pub open spec fn after_char(line: Seq<char>, c: char) -> Seq<char> {
    if c == BACKSPACE {
        if line.len() > 0 {
            line.drop_last()
        } else {
            line
        }
    } else if is_control(c) {
        line
    } else if line.len() < LINE_CAPACITY {
        line.push(c)
    } else {
        line
    }
}

/// What typing `c` sends to the console.
pub open spec fn echo_of_char(line: Seq<char>, c: char) -> Seq<char> {
    if c == BACKSPACE {
        if line.len() > 0 {
            erase_one()
        } else {
            Seq::empty()
        }
    } else if is_control(c) {
        Seq::empty()
    } else if line.len() < LINE_CAPACITY {
        seq![c]
    } else {
        Seq::empty()
    }
}

/// The line after a completion request: a unique match replaces it.
pub open spec fn completed_line(line: Seq<char>) -> Seq<char> {
    match completion_context(line) {
        None => line,
        Some(ctx) => {
            let m = matching(ctx.0, ctx.1);
            if m.len() == 1 {
                ctx.2 + m[0]
            } else {
                line
            }
        },
    }
}

/// What a completion request sends: the line erased and rewritten for a
/// unique match; for several, the matches on a row of their own, then the
/// prompt and the unchanged line on a new row.
pub open spec fn completion_echo(prompt: Seq<char>, line: Seq<char>) -> Seq<char> {
    match completion_context(line) {
        None => Seq::empty(),
        Some(ctx) => {
            let m = matching(ctx.0, ctx.1);
            if m.len() == 0 {
                Seq::empty()
            } else if m.len() == 1 {
                erase_seq(line.len()) + (ctx.2 + m[0])
            } else {
                seq!['\n'] + joined(m, " "@) + seq!['\n'] + prompt + line
            }
        },
    }
}

/// The line after `key`, in shell mode (with completion and history) or
/// not; `depth` is the history cursor and `h` the stored lines.
pub open spec fn next_line(
    shell: bool,
    line: Seq<char>,
    depth: Option<int>,
    h: Seq<Seq<char>>,
    key: KeyEvent,
) -> Seq<char> {
    match key {
        KeyEvent::Printable(c) => if c == '\r' || c == '\n' {
            line
        } else if c == '\t' && shell {
            completed_line(line)
        } else {
            after_char(line, c)
        },
        KeyEvent::Special(code) => if !shell {
            line
        } else {
            match code {
                ScanCode::Up => if older_target(depth) < h.len() {
                    at_depth(h, older_target(depth))
                } else {
                    line
                },
                ScanCode::Down => match depth {
                    None => line,
                    Some(d) => if d == 0 {
                        Seq::empty()
                    } else {
                        at_depth(h, d - 1)
                    },
                },
                _ => line,
            }
        },
    }
}

/// The history cursor after `key`: a printable key that changes the line
/// ends browsing; Up and Down move it in shell mode.
pub open spec fn next_depth(
    shell: bool,
    line: Seq<char>,
    depth: Option<int>,
    h: Seq<Seq<char>>,
    key: KeyEvent,
) -> Option<int> {
    match key {
        KeyEvent::Printable(c) => if c == '\r' || c == '\n' {
            depth
        } else if next_line(shell, line, depth, h, key) != line {
            None
        } else {
            depth
        },
        KeyEvent::Special(code) => if !shell {
            depth
        } else {
            match code {
                ScanCode::Up => after_older(depth, h.len() as int),
                ScanCode::Down => after_newer(depth),
                _ => depth,
            }
        },
    }
}

/// The text that `key` sends to the console.
pub open spec fn next_out(
    shell: bool,
    prompt: Seq<char>,
    line: Seq<char>,
    depth: Option<int>,
    h: Seq<Seq<char>>,
    key: KeyEvent,
) -> Seq<char> {
    match key {
        KeyEvent::Printable(c) => if c == '\r' || c == '\n' {
            seq!['\n']
        } else if c == '\t' && shell {
            completion_echo(prompt, line)
        } else {
            echo_of_char(line, c)
        },
        KeyEvent::Special(code) => if !shell {
            Seq::empty()
        } else {
            match code {
                ScanCode::Up => if older_target(depth) < h.len() {
                    erase_seq(line.len()) + at_depth(h, older_target(depth))
                } else {
                    Seq::empty()
                },
                ScanCode::Down => match depth {
                    None => Seq::empty(),
                    Some(d) => if d == 0 {
                        erase_seq(line.len())
                    } else {
                        erase_seq(line.len()) + at_depth(h, d - 1)
                    },
                },
                _ => Seq::empty(),
            }
        },
    }
}

/// The text that erases `n` characters.
pub fn erase_text(n: usize) -> (r: Vec<char>)
    ensures
        r@ == erase_seq(n as nat),
{
    let mut r: Vec<char> = Vec::new();
    let mut i: usize = 0;
    while i < n
        invariant
            0 <= i <= n,
            r@ == erase_seq(i as nat),
        decreases n - i,
    {
        r.push(BACKSPACE);
        r.push(' ');
        r.push(BACKSPACE);
        i = i + 1;
        assert(r@ =~= erase_seq(i as nat));
    }
    r
}

/// The edit buffer of one line, with the prompt it is shown after.
pub struct LineEditor {
    prompt: Vec<char>,
    line: heapless::Vec<char, 256>,
    shell: bool,
}

impl LineEditor {
    /// The characters of the line.
    pub closed spec fn line(&self) -> Seq<char> {
        line_chars(self.line)
    }

    /// The prompt shown before the line.
    pub closed spec fn prompt(&self) -> Seq<char> {
        self.prompt@
    }

    /// Shell mode: Tab completes and Up/Down browse the history. Otherwise
    /// those keys do nothing.
    pub closed spec fn is_shell(&self) -> bool {
        self.shell
    }

    /// An editor with an empty line.
    pub fn new(prompt: &[char], shell: bool) -> (r: LineEditor)
        ensures
            r.line() == Seq::<char>::empty(),
            r.prompt() == prompt@,
            r.is_shell() == shell,
    {
        LineEditor { prompt: vstd::slice::slice_to_vec(prompt), line: line_new(), shell }
    }

    /// A copy of the line.
    pub fn line_text(&self) -> (r: Vec<char>)
        ensures
            r@ == self.line(),
            r@.len() <= LINE_CAPACITY,
    {
        vstd::slice::slice_to_vec(line_as_slice(&self.line))
    }

    /// A copy of the prompt.
    pub fn prompt_text(&self) -> (r: Vec<char>)
        ensures
            r@ == self.prompt(),
    {
        self.prompt.clone()
    }

    /// Starts a new, empty line.
    pub fn clear(&mut self)
        ensures
            final(self).line() == Seq::<char>::empty(),
            final(self).prompt() == old(self).prompt(),
            final(self).is_shell() == old(self).is_shell(),
    {
        line_clear(&mut self.line);
    }

    /// Replaces the line by `text`; returns what erases the old line and
    /// writes the new one.
    fn replace_line(&mut self, text: &[char]) -> (out: Vec<char>)
        requires
            text@.len() <= LINE_CAPACITY,
        ensures
            final(self).line() == text@,
            final(self).prompt() == old(self).prompt(),
            final(self).is_shell() == old(self).is_shell(),
            out@ == erase_seq(old(self).line().len()) + text@,
    {
        let n = line_as_slice(&self.line).len();
        let mut out = erase_text(n);
        line_clear(&mut self.line);
        let _ = line_extend(&mut self.line, text);
        push_chars(&mut out, text);
        out
    }

    /// Applies one key press. Enter finishes the line; backspace removes
    /// the last character; another printable, non-control character is
    /// appended while the line is below capacity. In shell mode Tab
    /// completes, and Up and Down recall older and newer history lines.
    /// The returned text keeps the display row showing prompt and line.
    pub fn step(&mut self, history: &mut HistoryRing, key: KeyEvent) -> (r: Step)
        requires
            old(history).wf(),
        ensures
            final(history).wf(),
            final(history).lines() == old(history).lines(),
            final(history).depth() == next_depth(
                old(self).is_shell(),
                old(self).line(),
                old(history).depth(),
                old(history).lines(),
                key,
            ),
            final(self).line() == next_line(
                old(self).is_shell(),
                old(self).line(),
                old(history).depth(),
                old(history).lines(),
                key,
            ),
            r.out@ == next_out(
                old(self).is_shell(),
                old(self).prompt(),
                old(self).line(),
                old(history).depth(),
                old(history).lines(),
                key,
            ),
            r.done == is_enter(key),
            final(self).prompt() == old(self).prompt(),
            final(self).is_shell() == old(self).is_shell(),
            final(self).line().len() <= LINE_CAPACITY,
            key matches KeyEvent::Printable(c) && !is_control(c) && old(self).line().len()
                == LINE_CAPACITY ==> final(self).line() == old(self).line() && r.out@.len() == 0,
    {
        let ghost line0 = self.line();
        let before = self.line_text();
        let n = before.len();
        let r = match key {
            KeyEvent::Printable(c) => {
                if c == '\r' || c == '\n' {
                    let mut out: Vec<char> = Vec::new();
                    out.push('\n');
                    assert(out@ =~= seq!['\n']);
                    Step { out, done: true }
                } else if c == BACKSPACE {
                    let popped = line_pop(&mut self.line);
                    let out = if popped.is_some() {
                        erase_text(1)
                    } else {
                        Vec::new()
                    };
                    proof {
                        assert(erase_seq(1) =~= erase_one()) by {
                            assert(erase_seq(0) =~= Seq::<char>::empty());
                        }
                    }
                    Step { out, done: false }
                } else if c == '\t' && self.shell {
                    let current = vstd::slice::slice_to_vec(line_as_slice(&self.line));
                    let outcome = complete(current.as_slice());
                    proof {
                        lemma_completion_plain(line0);
                    }
                    match outcome {
                        Completion::NoMatch => Step { out: Vec::new(), done: false },
                        Completion::Unique(t) => {
                            let out = self.replace_line(t.as_slice());
                            Step { out, done: false }
                        },
                        Completion::Ambiguous(names) => {
                            let mut out: Vec<char> = Vec::new();
                            out.push('\n');
                            let listed = join_strs(names.as_slice(), " ");
                            push_chars(&mut out, listed.as_slice());
                            out.push('\n');
                            push_chars(&mut out, self.prompt.as_slice());
                            push_chars(&mut out, current.as_slice());
                            assert(out@ =~= seq!['\n'] + joined(name_views(names@), " "@) + seq!['\n'] + self.prompt@ + line0);
                            Step { out, done: false }
                        },
                    }
                } else if is_control_char(c) {
                    Step { out: Vec::new(), done: false }
                } else {
                    let pushed = line_push(&mut self.line, c);
                    let mut out: Vec<char> = Vec::new();
                    if pushed.is_ok() {
                        out.push(c);
                    }
                    assert(pushed.is_ok() ==> out@ =~= seq![c]);
                    Step { out, done: false }
                }
            },
            KeyEvent::Special(code) => {
                if !self.shell {
                    Step { out: Vec::new(), done: false }
                } else {
                    match code {
                        ScanCode::Up => {
                            match history.recall_older() {
                                Some(l) => {
                                    let out = self.replace_line(l.as_slice());
                                    Step { out, done: false }
                                },
                                None => Step { out: Vec::new(), done: false },
                            }
                        },
                        ScanCode::Down => {
                            match history.recall_newer() {
                                Recall::Stay => Step { out: Vec::new(), done: false },
                                Recall::Clear => {
                                    let out = erase_text(n);
                                    line_clear(&mut self.line);
                                    Step { out, done: false }
                                },
                                Recall::Line(l) => {
                                    let out = self.replace_line(l.as_slice());
                                    Step { out, done: false }
                                },
                            }
                        },
                        _ => Step { out: Vec::new(), done: false },
                    }
                }
            },
        };
        let after = line_as_slice(&self.line);
        if let KeyEvent::Printable(c) = key {
            if c != '\r' && c != '\n' && !chars_equal(before.as_slice(), after) {
                history.reset_cursor();
            }
        }
        r
    }
}

/// Every key press other than Enter keeps the display row showing the
/// prompt followed by the line, with no stale glyphs, provided the prompt,
/// the line and the stored history are plain text.
pub proof fn lemma_step_display(
    shell: bool,
    prompt: Seq<char>,
    line: Seq<char>,
    depth: Option<int>,
    h: Seq<Seq<char>>,
    key: KeyEvent,
    s: Screen,
)
    requires
        plain(prompt),
        plain(line),
        all_plain(h),
        depth matches Some(d) ==> 0 <= d < h.len(),
        !is_enter(key),
        shows(s, prompt + line),
    ensures
        plain(next_line(shell, line, depth, h, key)),
        shows(render(s, next_out(shell, prompt, line, depth, h, key)), prompt + next_line(shell, line, depth, h, key)),
{
    let nl = next_line(shell, line, depth, h, key);
    let out = next_out(shell, prompt, line, depth, h, key);
    let text = prompt + line;
    if out.len() == 0 && nl == line {
        assert(render(s, out) == s);
    } else {
        match key {
            KeyEvent::Printable(c) => {
                if c == '\t' && shell {
                    lemma_completion_plain(line);
                    let ctx = completion_context(line)->Some_0;
                    let m = matching(ctx.0, ctx.1);
                    if m.len() == 1 {
                        assert(plain(m[0]));
                        crate::text::lemma_plain_concat(ctx.2, m[0]);
                        lemma_replace_display(s, prompt, line, ctx.2 + m[0]);
                    } else {
                        let a = seq!['\n'] + joined(m, " "@);
                        crate::text::lemma_plain_concat(prompt, line);
                        lemma_new_row(s, a, prompt + line);
                        assert(out =~= a + seq!['\n'] + (prompt + line));
                    }
                } else if c == BACKSPACE {
                    lemma_erase_one(s, text);
                    assert(text.drop_last() =~= prompt + line.drop_last());
                    assert forall|i: int| 0 <= i < nl.len() implies !is_control(#[trigger] nl[i]) by {
                        assert(nl[i] == line[i]);
                    }
                } else {
                    assert(!is_control(c));
                    assert(plain(seq![c]));
                    lemma_write_plain(s, text, seq![c]);
                    assert(text + seq![c] =~= prompt + line.push(c));
                    crate::text::lemma_plain_concat(line, seq![c]);
                    assert(line + seq![c] =~= line.push(c));
                }
            },
            KeyEvent::Special(code) => {
                match code {
                    ScanCode::Up => {
                        let d = older_target(depth);
                        assert(plain(h[h.len() - 1 - d]));
                        lemma_replace_display(s, prompt, line, at_depth(h, d));
                    },
                    ScanCode::Down => {
                        let d = depth->Some_0;
                        if d == 0 {
                            lemma_erase(s, text, line.len());
                            assert(text.take(text.len() - line.len()) =~= prompt + Seq::<char>::empty());
                        } else {
                            assert(plain(h[h.len() - 1 - (d - 1)]));
                            lemma_replace_display(s, prompt, line, at_depth(h, d - 1));
                        }
                    },
                    _ => {},
                }
            },
        }
    }
}

/// In shell mode, Down at depth 0 ends browsing and empties the line,
/// sending what erases it.
pub proof fn lemma_down_from_newest(line: Seq<char>, h: Seq<Seq<char>>)
    ensures
        next_depth(true, line, Some(0), h, KeyEvent::Special(ScanCode::Down)) is None,
        next_line(true, line, Some(0), h, KeyEvent::Special(ScanCode::Down)) == Seq::<char>::empty(),
        next_out(true, Seq::empty(), line, Some(0), h, KeyEvent::Special(ScanCode::Down)) == erase_seq(line.len()),
{
}

/// The line that typing `keys` should leave: each character appended in
/// order, each backspace removing the last one left.
pub open spec fn typed(keys: Seq<char>) -> Seq<char>
    decreases keys.len(),
{
    if keys.len() == 0 {
        Seq::empty()
    } else {
        let p = typed(keys.drop_last());
        if keys.last() == BACKSPACE {
            if p.len() > 0 {
                p.drop_last()
            } else {
                p
            }
        } else {
            p.push(keys.last())
        }
    }
}

/// Keys that are backspaces or printable non-control characters, none of
/// them typed when the line is already at capacity.
pub open spec fn within_capacity(keys: Seq<char>) -> bool {
    forall|i: int|
        0 <= i < keys.len() ==> (#[trigger] keys[i] == BACKSPACE || (!is_control(keys[i])
            && typed(keys.take(i)).len() < LINE_CAPACITY))
}

/// The editor's line after the key presses `keys`, from an empty line with
/// no history.
pub open spec fn line_after_keys(shell: bool, keys: Seq<char>) -> Seq<char>
    decreases keys.len(),
{
    if keys.len() == 0 {
        Seq::empty()
    } else {
        next_line(
            shell,
            line_after_keys(shell, keys.drop_last()),
            None,
            Seq::empty(),
            KeyEvent::Printable(keys.last()),
        )
    }
}

/// All the text the editor sends for the key presses `keys`.
pub open spec fn out_after_keys(shell: bool, prompt: Seq<char>, keys: Seq<char>) -> Seq<char>
    decreases keys.len(),
{
    if keys.len() == 0 {
        Seq::empty()
    } else {
        out_after_keys(shell, prompt, keys.drop_last()) + next_out(
            shell,
            prompt,
            line_after_keys(shell, keys.drop_last()),
            None,
            Seq::empty(),
            KeyEvent::Printable(keys.last()),
        )
    }
}

/// Typing characters and backspaces within capacity leaves exactly the
/// typed characters less those backspaced, and the display row, which
/// showed the prompt, then shows the prompt followed by that line. As this
/// holds of every such sequence, it holds after every key of one.
pub proof fn lemma_typing(shell: bool, prompt: Seq<char>, keys: Seq<char>, s: Screen)
    requires
        plain(prompt),
        within_capacity(keys),
        shows(s, prompt),
    ensures
        line_after_keys(shell, keys) == typed(keys),
        plain(typed(keys)),
        shows(render(s, out_after_keys(shell, prompt, keys)), prompt + typed(keys)),
    decreases keys.len(),
{
    if keys.len() == 0 {
        assert(prompt + Seq::<char>::empty() =~= prompt);
        assert(render(s, Seq::<char>::empty()) == s);
    } else {
        let k0 = keys.drop_last();
        let c = keys.last();
        assert forall|i: int| 0 <= i < k0.len() implies (#[trigger] k0[i] == BACKSPACE || (!is_control(k0[i])
            && typed(k0.take(i)).len() < LINE_CAPACITY)) by {
            assert(k0[i] == keys[i]);
            assert(k0.take(i) =~= keys.take(i));
        }
        lemma_typing(shell, prompt, k0, s);
        assert(keys.take(keys.len() - 1) =~= k0);
        assert(c == keys[keys.len() - 1]);
        let line = typed(k0);
        let key = KeyEvent::Printable(c);
        let h = Seq::<Seq<char>>::empty();
        let s1 = render(s, out_after_keys(shell, prompt, k0));
        lemma_step_display(shell, prompt, line, None, h, key, s1);
        lemma_render_concat(s, out_after_keys(shell, prompt, k0), next_out(shell, prompt, line, None, h, key));
    }
}

/// Erasing the line and writing plain `t` leaves the row showing the
/// prompt followed by `t`.
proof fn lemma_replace_display(s: Screen, prompt: Seq<char>, line: Seq<char>, t: Seq<char>)
    requires
        shows(s, prompt + line),
        plain(t),
    ensures
        shows(render(s, erase_seq(line.len()) + t), prompt + t),
{
    let text = prompt + line;
    lemma_erase(s, text, line.len());
    assert(text.take(text.len() - line.len()) =~= prompt);
    lemma_write_plain(render(s, erase_seq(line.len())), prompt, t);
    lemma_render_concat(s, erase_seq(line.len()), t);
}

} // verus!
