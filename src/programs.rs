//! The decisions of the commands and sub-programs that take arguments or
//! read lines of their own.

use vstd::prelude::*;
use crate::editor::{KeyEvent, ScanCode};
use crate::registry::{find_program, program_name, Program};
use crate::text::{str_equals, trim, trimmed};

verus! {

/// What `run <name>` comes to.
#[derive(Debug)]
pub enum RunTarget {
    /// No name was given.
    Usage,
    /// The named sub-program.
    Launch(Program),
    /// No sub-program has that name.
    Missing(Vec<char>),
}

/// Resolves the argument text of `run`: it is trimmed, and must name a
/// sub-program.
pub fn run_target(args: &[char]) -> (r: RunTarget)
    ensures
        trimmed(args@).len() == 0 ==> r is Usage,
        trimmed(args@).len() > 0 && (exists|p: Program| program_name(p) == trimmed(args@)) ==> (r matches RunTarget::Launch(p) && program_name(p) == trimmed(args@)),
        trimmed(args@).len() > 0 && (forall|p: Program| program_name(p) != trimmed(args@)) ==> (r matches RunTarget::Missing(n) && n@ == trimmed(args@)),
{
    let name = trim(args);
    if name.len() == 0 {
        return RunTarget::Usage;
    }
    match find_program(name.as_slice()) {
        Some(p) => RunTarget::Launch(p),
        None => RunTarget::Missing(name),
    }
}

/// The file name that `cat` reads: its trimmed argument text, if not blank.
pub fn cat_target(args: &[char]) -> (r: Option<Vec<char>>)
    ensures
        trimmed(args@).len() == 0 ==> r is None,
        trimmed(args@).len() > 0 ==> (r matches Some(n) && n@ == trimmed(args@)),
{
    let name = trim(args);
    if name.len() == 0 {
        None
    } else {
        Some(name)
    }
}

/// What one byte of a file shows as: carriage returns and bytes that are
/// neither graphic ASCII nor a space are dropped; line feeds and the rest
/// stay.
pub open spec fn shown_byte(b: u8) -> Seq<char> {
    if b == 10 {
        seq!['\n']
    } else if 0x20 <= b && b <= 0x7e {
        seq![b as char]
    } else {
        Seq::empty()
    }
}

/// What the bytes `bs` show as.
pub open spec fn shown_bytes(bs: Seq<u8>) -> Seq<char>
    decreases bs.len(),
{
    if bs.len() == 0 {
        Seq::empty()
    } else {
        shown_bytes(bs.drop_last()) + shown_byte(bs.last())
    }
}

/// The text that `cat` prints for a file's bytes.
pub fn cat_text(bytes: &[u8]) -> (r: Vec<char>)
    ensures
        r@ == shown_bytes(bytes@),
{
    let mut r: Vec<char> = Vec::new();
    let mut i: usize = 0;
    while i < bytes.len()
        invariant
            0 <= i <= bytes@.len(),
            r@ == shown_bytes(bytes@.take(i as int)),
        decreases bytes@.len() - i,
    {
        let b = bytes[i];
        if b == 10u8 {
            r.push('\n');
        } else if 0x20u8 <= b && b <= 0x7eu8 {
            r.push(b as char);
        }
        i = i + 1;
        proof {
            assert(bytes@.take(i as int).drop_last() =~= bytes@.take(i - 1));
            assert(r@ =~= shown_bytes(bytes@.take(i as int)));
        }
    }
    assert(bytes@.take(bytes@.len() as int) =~= bytes@);
    r
}

/// What the echo program does with a line: `exit` (after trimming) ends
/// it, anything else is printed back trimmed.
pub fn echo_reply(line: &[char]) -> (r: Option<Vec<char>>)
    ensures
        trimmed(line@) == "exit"@ ==> r is None,
        trimmed(line@) != "exit"@ ==> (r matches Some(t) && t@ == trimmed(line@)),
{
    let s = trim(line);
    if str_equals("exit", s.as_slice()) {
        None
    } else {
        Some(s)
    }
}

/// What the glow editor does with a line.
#[derive(Debug)]
pub enum GlowReply {
    /// `:q` or `:quit`: leave.
    Quit,
    /// Another `:` command, by its trimmed name.
    Unknown(Vec<char>),
    /// Plain text, printed back as it is.
    Echo(Vec<char>),
}

/// Reads a line of the glow editor: one that starts with `:` is a command,
/// named by the rest of the line trimmed; any other is echoed.
pub fn glow_reply(line: &[char]) -> (r: GlowReply)
    ensures
        line@.len() > 0 && line@[0] == ':' ==> {
            let cmd = trimmed(line@.drop_first());
            if cmd == "q"@ || cmd == "quit"@ {
                r is Quit
            } else {
                r matches GlowReply::Unknown(n) && n@ == cmd
            }
        },
        !(line@.len() > 0 && line@[0] == ':') ==> (r matches GlowReply::Echo(t) && t@ == line@),
{
    if line.len() > 0 && line[0] == ':' {
        let rest = vstd::slice::slice_subrange(line, 1, line.len());
        assert(rest@ =~= line@.drop_first());
        let cmd = trim(rest);
        if str_equals("q", cmd.as_slice()) || str_equals("quit", cmd.as_slice()) {
            GlowReply::Quit
        } else {
            GlowReply::Unknown(cmd)
        }
    } else {
        GlowReply::Echo(vstd::slice::slice_to_vec(line))
    }
}

/// Whether a directory entry is listed: all but `.` and `..`.
pub fn is_listed(name: &[char]) -> (r: bool)
    ensures
        r == (name@ != "."@ && name@ != ".."@),
{
    !(str_equals(".", name) || str_equals("..", name))
}

/// The escape key, as a scan code or as the ESC character: it leaves the
/// key viewer and the windowed terminal.
pub fn is_escape(key: KeyEvent) -> (r: bool)
    ensures
        r == (key == KeyEvent::Special(ScanCode::Escape) || key == KeyEvent::Printable('\u{1b}')),
{
    match key {
        KeyEvent::Special(ScanCode::Escape) => true,
        KeyEvent::Printable(c) => c == '\u{1b}',
        _ => false,
    }
}

} // verus!
