//! The shell session: the prompt, the editor, the history, and the
//! resolution of each finished line to a command.

use vstd::prelude::*;
use crate::editor::{is_enter, next_depth, next_line, next_out, KeyEvent, LineEditor, Step};
use crate::history::{all_plain, lemma_record_keeps_no_repeats, no_repeats, recorded, HistoryRing};
use crate::registry::{command_name, lookup, Command};
use crate::text::{
    find_space, head_of, lemma_space_index, plain, push_chars, push_str, space_index,
    str_equals, tail_of, trim, trimmed, chars_of, is_white,
};

verus! {

/// Put between the working directory and the line.
pub const PROMPT_SEPARATOR: &'static str = "$ ";

/// What a finished line asks for.
#[derive(Debug)]
pub enum Dispatch {
    /// The line is blank: nothing to do.
    Skip,
    /// `help`: list every command with its help text.
    Help,
    /// A command of the registry, with the text after the first space.
    Invoke(Command, Vec<char>),
    /// A first word that names no command.
    Unknown(Vec<char>),
}

/// The argument text of a trimmed line: what follows the first space.
pub open spec fn args_of(s: Seq<char>) -> Seq<char> {
    match tail_of(s) {
        Some(t) => t,
        None => Seq::empty(),
    }
}

/// `r` is what the line `line` asks for: after trimming, a blank line is
/// skipped, a first word `help` lists the help, a first word that names a
/// command invokes it with the rest of the line, any other is unknown.
pub open spec fn dispatches_to(r: Dispatch, line: Seq<char>) -> bool {
    let s = trimmed(line);
    if s.len() == 0 {
        r is Skip
    } else if head_of(s) == "help"@ {
        r is Help
    } else if exists|c: Command| command_name(c) == head_of(s) {
        r matches Dispatch::Invoke(c, a) && command_name(c) == head_of(s) && a@ == args_of(s)
    } else {
        r matches Dispatch::Unknown(n) && n@ == head_of(s)
    }
}

/// Whether submitting `line` stores it in the history: every non-blank
/// line but `help`.
pub open spec fn is_recorded(line: Seq<char>) -> bool {
    trimmed(line).len() > 0 && head_of(trimmed(line)) != "help"@
}

/// The prompt for the working directory `cwd`.
pub open spec fn prompt_of(cwd: Seq<char>) -> Seq<char> {
    cwd + PROMPT_SEPARATOR@
}

/// The prompt for the working directory `cwd`.
pub fn prompt_for(cwd: &[char]) -> (r: Vec<char>)
    ensures
        r@ == prompt_of(cwd@),
{
    let mut r = vstd::slice::slice_to_vec(cwd);
    push_str(&mut r, PROMPT_SEPARATOR);
    r
}

/// The message for a first word that names no command.
pub fn unknown_command_message(name: &[char]) -> (r: Vec<char>)
    ensures
        r@ == "Unknown: "@ + name@ + " (try 'help')"@,
{
    let mut r = chars_of("Unknown: ");
    push_chars(&mut r, name);
    push_str(&mut r, " (try 'help')");
    r
}

/// Trimming never lengthens.
proof fn lemma_trim_len(s: Seq<char>)
    ensures
        trimmed(s).len() <= s.len(),
{
    lemma_trim_start_len(s);
    lemma_trim_end_len(crate::text::trim_start(s));
}

proof fn lemma_trim_start_len(s: Seq<char>)
    ensures
        crate::text::trim_start(s).len() <= s.len(),
        plain(s) ==> plain(crate::text::trim_start(s)),
    decreases s.len(),
{
    if s.len() > 0 && is_white(s[0]) {
        lemma_trim_start_len(s.drop_first());
        assert(plain(s) ==> plain(s.drop_first())) by {
            if plain(s) {
                assert forall|i: int| 0 <= i < s.drop_first().len() implies !crate::text::is_control(#[trigger] s.drop_first()[i]) by {
                    assert(s.drop_first()[i] == s[i + 1]);
                }
            }
        }
    }
}

proof fn lemma_trim_end_len(s: Seq<char>)
    ensures
        crate::text::trim_end(s).len() <= s.len(),
        plain(s) ==> plain(crate::text::trim_end(s)),
    decreases s.len(),
{
    if s.len() > 0 && is_white(s.last()) {
        lemma_trim_end_len(s.drop_last());
        assert(plain(s) ==> plain(s.drop_last())) by {
            if plain(s) {
                assert forall|i: int| 0 <= i < s.drop_last().len() implies !crate::text::is_control(#[trigger] s.drop_last()[i]) by {
                    assert(s.drop_last()[i] == s[i]);
                }
            }
        }
    }
}

/// Resolves a finished line to what it asks for.
pub fn parse_line(line: &[char]) -> (r: Dispatch)
    ensures
        dispatches_to(r, line@),
{
    let s = trim(line);
    if s.len() == 0 {
        return Dispatch::Skip;
    }
    proof {
        lemma_space_index(s@);
    }
    let pos = find_space(s.as_slice());
    let name = vstd::slice::slice_subrange(s.as_slice(), 0, pos);
    assert(name@ =~= head_of(s@));
    let args: Vec<char> = if pos < s.len() {
        let t = vstd::slice::slice_subrange(s.as_slice(), pos + 1, s.len());
        assert(t@ =~= s@.skip(space_index(s@) + 1));
        vstd::slice::slice_to_vec(t)
    } else {
        Vec::new()
    };
    assert(args@ == args_of(s@));
    if str_equals("help", name) {
        return Dispatch::Help;
    }
    match lookup(name) {
        Some(c) => Dispatch::Invoke(c, args),
        None => Dispatch::Unknown(vstd::slice::slice_to_vec(name)),
    }
}

/// A shell session: its editor (in shell mode) and its history.
pub struct Shell {
    editor: LineEditor,
    history: HistoryRing,
}

impl Shell {
    pub closed spec fn editor(&self) -> LineEditor {
        self.editor
    }

    pub closed spec fn ring(&self) -> HistoryRing {
        self.history
    }

    pub open spec fn wf(&self) -> bool {
        &&& self.ring().wf()
        &&& self.editor().is_shell()
        &&& no_repeats(self.ring().lines())
    }

    /// The prompt, line and history are all plain text, so the display row
    /// can follow the line exactly.
    pub open spec fn plain_text(&self) -> bool {
        &&& plain(self.editor().prompt())
        &&& plain(self.editor().line())
        &&& all_plain(self.ring().lines())
    }

    /// A session in the working directory `cwd`, with an empty line and no
    /// history.
    pub fn new(cwd: &[char]) -> (r: Shell)
        ensures
            r.wf(),
            r.editor().prompt() == prompt_of(cwd@),
            r.editor().line() == Seq::<char>::empty(),
            r.ring().lines() == Seq::<Seq<char>>::empty(),
            r.ring().depth() is None,
            plain(cwd@) ==> r.plain_text(),
    {
        let p = prompt_for(cwd);
        let r = Shell { editor: LineEditor::new(p.as_slice(), true), history: HistoryRing::new() };
        proof {
            reveal_strlit("$ ");
            if plain(cwd@) {
                crate::text::lemma_plain_concat(cwd@, PROMPT_SEPARATOR@);
            }
        }
        r
    }

    /// The prompt.
    pub fn prompt(&self) -> (r: Vec<char>)
        ensures
            r@ == self.editor().prompt(),
    {
        self.editor.prompt_text()
    }

    /// The line being edited.
    pub fn line(&self) -> (r: Vec<char>)
        ensures
            r@ == self.editor().line(),
    {
        self.editor.line_text()
    }

    /// The history of the session.
    pub fn history(&self) -> (r: &HistoryRing)
        ensures
            *r == self.ring(),
    {
        &self.history
    }

    /// Applies one key press to the line being edited.
    pub fn key(&mut self, key: KeyEvent) -> (r: Step)
        requires
            old(self).wf(),
        ensures
            final(self).wf(),
            final(self).ring().lines() == old(self).ring().lines(),
            final(self).ring().depth() == next_depth(
                true,
                old(self).editor().line(),
                old(self).ring().depth(),
                old(self).ring().lines(),
                key,
            ),
            final(self).editor().line() == next_line(
                true,
                old(self).editor().line(),
                old(self).ring().depth(),
                old(self).ring().lines(),
                key,
            ),
            final(self).editor().prompt() == old(self).editor().prompt(),
            r.out@ == next_out(
                true,
                old(self).editor().prompt(),
                old(self).editor().line(),
                old(self).ring().depth(),
                old(self).ring().lines(),
                key,
            ),
            r.done == is_enter(key),
            old(self).plain_text() ==> final(self).plain_text(),
    {
        let r = self.editor.step(&mut self.history, key);
        proof {
            if old(self).plain_text() && !is_enter(key) {
                old(self).ring().lemma_depth_in_range();
                crate::text::lemma_plain_concat(old(self).editor().prompt(), old(self).editor().line());
                crate::screen::lemma_fresh_shows_nothing();
                crate::screen::lemma_write_plain(
                    crate::screen::fresh_row(),
                    Seq::empty(),
                    old(self).editor().prompt() + old(self).editor().line(),
                );
                assert(Seq::<char>::empty() + (old(self).editor().prompt() + old(self).editor().line())
                    =~= old(self).editor().prompt() + old(self).editor().line());
                crate::editor::lemma_step_display(
                    true,
                    old(self).editor().prompt(),
                    old(self).editor().line(),
                    old(self).ring().depth(),
                    old(self).ring().lines(),
                    key,
                    crate::screen::render(crate::screen::fresh_row(), old(self).editor().prompt() + old(self).editor().line()),
                );
            }
        }
        r
    }

    /// Submits the line being edited: resolves it, stores it in the history
    /// unless it is blank or `help`, ends history browsing and starts a new
    /// empty line.
    pub fn submit(&mut self) -> (r: Dispatch)
        requires
            old(self).wf(),
        ensures
            final(self).wf(),
            dispatches_to(r, old(self).editor().line()),
            final(self).ring().lines() == if is_recorded(old(self).editor().line()) {
                recorded(old(self).ring().lines(), trimmed(old(self).editor().line()))
            } else {
                old(self).ring().lines()
            },
            final(self).ring().depth() is None,
            final(self).editor().line() == Seq::<char>::empty(),
            final(self).editor().prompt() == old(self).editor().prompt(),
            old(self).plain_text() ==> final(self).plain_text(),
    {
        let line = self.editor.line_text();
        let r = parse_line(line.as_slice());
        let record = match &r {
            Dispatch::Invoke(_, _) => true,
            Dispatch::Unknown(_) => true,
            _ => false,
        };
        if record {
            let s = trim(line.as_slice());
            proof {
                lemma_trim_len(line@);
                lemma_trim_start_len(line@);
                lemma_trim_end_len(crate::text::trim_start(line@));
                lemma_record_keeps_no_repeats(self.history.lines(), s@);
            }
            self.history.record(s.as_slice());
            proof {
                let h = old(self).ring().lines();
                let nh = self.history.lines();
                if old(self).plain_text() {
                    assert forall|i: int| 0 <= i < nh.len() implies plain(#[trigger] nh[i]) by {
                        if nh[i] != s@ {
                            if h.len() >= crate::bounded::HISTORY_CAPACITY && !(h.len() > 0 && h.last() == s@) {
                                assert(nh[i] == h[i + 1]);
                            } else {
                                assert(nh[i] == h[i]);
                            }
                        }
                    }
                }
            }
        }
        self.history.reset_cursor();
        self.editor.clear();
        r
    }
}

} // verus!
