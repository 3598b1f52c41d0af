//! The fixed command registry and the table of launchable sub-programs.
//! Both are ordered lists known at build time; lookup is a linear scan by
//! exact name.

use vstd::prelude::*;
use crate::text::{chars_of, plain, push_str, str_equals};

verus! {

/// A command of the shell, in registration order.
#[derive(Clone, Copy, Debug, PartialEq, Eq, Structural)]
pub enum Command {
    Help,
    Clear,
    Programs,
    Run,
    Ls,
    Pwd,
    FsHandles,
    Cat,
    DebugPanic,
}

/// A sub-program that `run` can launch.
#[derive(Clone, Copy, Debug, PartialEq, Eq, Structural)]
pub enum Program {
    Echo,
    Keys,
    Glow,
    Zam,
}

pub open spec fn command_name(c: Command) -> Seq<char> {
    match c {
        Command::Help => "help"@,
        Command::Clear => "clear"@,
        Command::Programs => "programs"@,
        Command::Run => "run"@,
        Command::Ls => "ls"@,
        Command::Pwd => "pwd"@,
        Command::FsHandles => "fs-handles"@,
        Command::Cat => "cat"@,
        Command::DebugPanic => "x:debug-panic"@,
    }
}

pub open spec fn command_help(c: Command) -> Seq<char> {
    match c {
        Command::Help => "Show this help"@,
        Command::Clear => "Clear screen"@,
        Command::Programs => "List programs"@,
        Command::Run => "Run a program: run <name>"@,
        Command::Ls => "List root directory"@,
        Command::Pwd => "Print current directory"@,
        Command::FsHandles => "Count available filesystems"@,
        Command::Cat => "Show file contents: cat <name>"@,
        Command::DebugPanic => "For debugging: test panics"@,
    }
}

pub open spec fn program_name(p: Program) -> Seq<char> {
    match p {
        Program::Echo => "echo"@,
        Program::Keys => "keys"@,
        Program::Glow => "glow"@,
        Program::Zam => "zam"@,
    }
}

/// The registry, in registration order.
pub open spec fn registry() -> Seq<Command> {
    seq![
        Command::Help,
        Command::Clear,
        Command::Programs,
        Command::Run,
        Command::Ls,
        Command::Pwd,
        Command::FsHandles,
        Command::Cat,
        Command::DebugPanic,
    ]
}

/// The sub-programs, in listing order.
pub open spec fn program_table() -> Seq<Program> {
    seq![Program::Echo, Program::Keys, Program::Glow, Program::Zam]
}

/// The names of the registry's commands, in order.
pub open spec fn command_names() -> Seq<Seq<char>> {
    registry().map_values(|c: Command| command_name(c))
}

/// The names of the sub-programs, in order.
pub open spec fn program_names() -> Seq<Seq<char>> {
    program_table().map_values(|p: Program| program_name(p))
}

/// The views of a list of names.
pub open spec fn name_views(v: Seq<&str>) -> Seq<Seq<char>> {
    v.map_values(|s: &str| s@)
}

/// `items` joined with `sep` between each two.
pub open spec fn joined(items: Seq<Seq<char>>, sep: Seq<char>) -> Seq<char>
    decreases items.len(),
{
    if items.len() == 0 {
        Seq::empty()
    } else if items.len() == 1 {
        items[0]
    } else {
        joined(items.drop_last(), sep) + sep + items.last()
    }
}

/// `s` padded with spaces on the right to at least `w` characters.
pub open spec fn pad_right(s: Seq<char>, w: nat) -> Seq<char> {
    if s.len() < w {
        s + Seq::new((w - s.len()) as nat, |i: int| ' ')
    } else {
        s
    }
}

/// Width of the name column in the help listing.
pub const HELP_NAME_WIDTH: usize = 12;

/// One line of the help listing: indent, padded name, help text.
pub open spec fn help_line(c: Command) -> Seq<char> {
    "  "@ + pad_right(command_name(c), HELP_NAME_WIDTH as nat) + " "@ + command_help(c)
}

/// Every command and sub-program name is free of control characters and at
/// most thirteen characters long.
pub proof fn lemma_names_plain()
    ensures
        forall|c: Command| plain(#[trigger] command_name(c)) && command_name(c).len() <= 13,
        forall|p: Program| plain(#[trigger] program_name(p)) && program_name(p).len() <= 13,
{
    reveal_strlit("help");
    reveal_strlit("clear");
    reveal_strlit("programs");
    reveal_strlit("run");
    reveal_strlit("ls");
    reveal_strlit("pwd");
    reveal_strlit("fs-handles");
    reveal_strlit("cat");
    reveal_strlit("x:debug-panic");
    reveal_strlit("echo");
    reveal_strlit("keys");
    reveal_strlit("glow");
    reveal_strlit("zam");
}

/// The views of a list grown by one name.
pub proof fn lemma_name_views_push(v: Seq<&str>, x: &str)
    ensures
        name_views(v.push(x)) == name_views(v).push(x@),
        name_views(v).len() == v.len(),
{
    assert(name_views(v.push(x)) =~= name_views(v).push(x@));
}

impl Command {
    pub fn name(&self) -> (r: &'static str)
        ensures
            r@ == command_name(*self),
    {
        match self {
            Command::Help => "help",
            Command::Clear => "clear",
            Command::Programs => "programs",
            Command::Run => "run",
            Command::Ls => "ls",
            Command::Pwd => "pwd",
            Command::FsHandles => "fs-handles",
            Command::Cat => "cat",
            Command::DebugPanic => "x:debug-panic",
        }
    }

    pub fn help(&self) -> (r: &'static str)
        ensures
            r@ == command_help(*self),
    {
        match self {
            Command::Help => "Show this help",
            Command::Clear => "Clear screen",
            Command::Programs => "List programs",
            Command::Run => "Run a program: run <name>",
            Command::Ls => "List root directory",
            Command::Pwd => "Print current directory",
            Command::FsHandles => "Count available filesystems",
            Command::Cat => "Show file contents: cat <name>",
            Command::DebugPanic => "For debugging: test panics",
        }
    }
}

impl Program {
    pub fn name(&self) -> (r: &'static str)
        ensures
            r@ == program_name(*self),
    {
        match self {
            Program::Echo => "echo",
            Program::Keys => "keys",
            Program::Glow => "glow",
            Program::Zam => "zam",
        }
    }
}

/// The registry, in registration order.
pub fn commands() -> (r: Vec<Command>)
    ensures
        r@ == registry(),
{
    let mut r: Vec<Command> = Vec::new();
    r.push(Command::Help);
    r.push(Command::Clear);
    r.push(Command::Programs);
    r.push(Command::Run);
    r.push(Command::Ls);
    r.push(Command::Pwd);
    r.push(Command::FsHandles);
    r.push(Command::Cat);
    r.push(Command::DebugPanic);
    assert(r@ =~= registry());
    r
}

/// The sub-programs, in listing order.
pub fn programs() -> (r: Vec<Program>)
    ensures
        r@ == program_table(),
{
    let mut r: Vec<Program> = Vec::new();
    r.push(Program::Echo);
    r.push(Program::Keys);
    r.push(Program::Glow);
    r.push(Program::Zam);
    assert(r@ =~= program_table());
    r
}

/// Finds the command named `name`.
pub fn lookup(name: &[char]) -> (r: Option<Command>)
    ensures
        match r {
            Some(c) => command_name(c) == name@,
            None => forall|c: Command| command_name(c) != name@,
        },
{
    let cs = commands();
    let mut i: usize = 0;
    while i < cs.len()
        invariant
            cs@ == registry(),
            0 <= i <= cs@.len(),
            forall|j: int| 0 <= j < i ==> command_name(#[trigger] registry()[j]) != name@,
        decreases cs@.len() - i,
    {
        if str_equals(cs[i].name(), name) {
            return Some(cs[i]);
        }
        i = i + 1;
    }
    assert forall|c: Command| command_name(c) != name@ by {
        match c {
            Command::Help => assert(registry()[0] == c),
            Command::Clear => assert(registry()[1] == c),
            Command::Programs => assert(registry()[2] == c),
            Command::Run => assert(registry()[3] == c),
            Command::Ls => assert(registry()[4] == c),
            Command::Pwd => assert(registry()[5] == c),
            Command::FsHandles => assert(registry()[6] == c),
            Command::Cat => assert(registry()[7] == c),
            Command::DebugPanic => assert(registry()[8] == c),
        }
    }
    None
}

/// Finds the sub-program named `name`.
pub fn find_program(name: &[char]) -> (r: Option<Program>)
    ensures
        match r {
            Some(p) => program_name(p) == name@,
            None => forall|p: Program| program_name(p) != name@,
        },
{
    let ps = programs();
    let mut i: usize = 0;
    while i < ps.len()
        invariant
            ps@ == program_table(),
            0 <= i <= ps@.len(),
            forall|j: int| 0 <= j < i ==> program_name(#[trigger] program_table()[j]) != name@,
        decreases ps@.len() - i,
    {
        if str_equals(ps[i].name(), name) {
            return Some(ps[i]);
        }
        i = i + 1;
    }
    assert forall|p: Program| program_name(p) != name@ by {
        match p {
            Program::Echo => assert(program_table()[0] == p),
            Program::Keys => assert(program_table()[1] == p),
            Program::Glow => assert(program_table()[2] == p),
            Program::Zam => assert(program_table()[3] == p),
        }
    }
    None
}

/// The names of all commands followed by those of all sub-programs: what a
/// first word completes against.
pub fn top_level_names() -> (r: Vec<&'static str>)
    ensures
        name_views(r@) == command_names() + program_names(),
{
    let cs = commands();
    let ps = programs();
    let mut r: Vec<&'static str> = Vec::new();
    let mut i: usize = 0;
    while i < cs.len()
        invariant
            cs@ == registry(),
            0 <= i <= cs@.len(),
            name_views(r@) == command_names().take(i as int),
        decreases cs@.len() - i,
    {
        let nm = cs[i].name();
        proof {
            lemma_name_views_push(r@, nm);
        }
        r.push(nm);
        i = i + 1;
        assert(name_views(r@) =~= command_names().take(i as int));
    }
    let mut k: usize = 0;
    while k < ps.len()
        invariant
            ps@ == program_table(),
            0 <= k <= ps@.len(),
            name_views(r@) == command_names() + program_names().take(k as int),
        decreases ps@.len() - k,
    {
        let nm = ps[k].name();
        proof {
            lemma_name_views_push(r@, nm);
        }
        r.push(nm);
        k = k + 1;
        assert(name_views(r@) =~= command_names() + program_names().take(k as int));
    }
    assert(command_names().take(9) =~= command_names());
    assert(program_names().take(4) =~= program_names());
    r
}

/// The names of all sub-programs: what the argument of `run` completes against.
pub fn program_name_list() -> (r: Vec<&'static str>)
    ensures
        name_views(r@) == program_names(),
{
    let ps = programs();
    let mut r: Vec<&'static str> = Vec::new();
    let mut k: usize = 0;
    while k < ps.len()
        invariant
            ps@ == program_table(),
            0 <= k <= ps@.len(),
            name_views(r@) == program_names().take(k as int),
        decreases ps@.len() - k,
    {
        let nm = ps[k].name();
        proof {
            lemma_name_views_push(r@, nm);
        }
        r.push(nm);
        k = k + 1;
        assert(name_views(r@) =~= program_names().take(k as int));
    }
    assert(program_names().take(4) =~= program_names());
    r
}

/// The sub-program names joined by ", ", as `programs` prints them.
pub fn list_programs() -> (r: Vec<char>)
    ensures
        r@ == joined(program_names(), ", "@),
{
    let ps = programs();
    let mut r: Vec<char> = Vec::new();
    let mut k: usize = 0;
    while k < ps.len()
        invariant
            ps@ == program_table(),
            0 <= k <= ps@.len(),
            r@ == joined(program_names().take(k as int), ", "@),
        decreases ps@.len() - k,
    {
        if k > 0 {
            push_str(&mut r, ", ");
        }
        push_str(&mut r, ps[k].name());
        k = k + 1;
        proof {
            let t = program_names().take(k as int);
            assert(t.drop_last() =~= program_names().take(k - 1));
            if k == 1 {
                assert(joined(program_names().take(0), ", "@) =~= Seq::<char>::empty());
            }
        }
    }
    assert(program_names().take(4) =~= program_names());
    r
}

/// `items` joined with `sep` between each two.
pub fn join_strs(items: &[&str], sep: &str) -> (r: Vec<char>)
    ensures
        r@ == joined(name_views(items@), sep@),
{
    let mut r: Vec<char> = Vec::new();
    let mut k: usize = 0;
    while k < items.len()
        invariant
            0 <= k <= items@.len(),
            r@ == joined(name_views(items@).take(k as int), sep@),
        decreases items@.len() - k,
    {
        if k > 0 {
            push_str(&mut r, sep);
        }
        push_str(&mut r, items[k]);
        k = k + 1;
        proof {
            let t = name_views(items@).take(k as int);
            assert(t.drop_last() =~= name_views(items@).take(k - 1));
            assert(t.last() == items@[k - 1]@);
            if k == 1 {
                assert(joined(name_views(items@).take(0), sep@) =~= Seq::<char>::empty());
            }
        }
    }
    assert(name_views(items@).take(items@.len() as int) =~= name_views(items@));
    r
}

/// One line of the help listing for `c`.
pub fn help_line_of(c: Command) -> (r: Vec<char>)
    ensures
        r@ == help_line(c),
{
    let mut r: Vec<char> = Vec::new();
    push_str(&mut r, "  ");
    let name = c.name();
    push_str(&mut r, name);
    let n = name.unicode_len();
    let mut k: usize = n;
    while k < HELP_NAME_WIDTH
        invariant
            n == command_name(c).len(),
            n <= k,
            k <= HELP_NAME_WIDTH || k == n,
            r@ == "  "@ + command_name(c) + Seq::new((k - n) as nat, |i: int| ' '),
        decreases HELP_NAME_WIDTH - k,
    {
        r.push(' ');
        k = k + 1;
        assert(r@ =~= "  "@ + command_name(c) + Seq::new((k - n) as nat, |i: int| ' '));
    }
    assert(r@ =~= "  "@ + pad_right(command_name(c), HELP_NAME_WIDTH as nat));
    push_str(&mut r, " ");
    push_str(&mut r, c.help());
    r
}

/// The help listing: a heading, then one line per command in registration order.
pub fn help_listing() -> (r: Vec<Vec<char>>)
    ensures
        r@.len() == registry().len() + 1,
        r@[0]@ == "Commands:"@,
        forall|i: int| 0 <= i < registry().len() ==> #[trigger] r@[i + 1]@ == help_line(registry()[i]),
{
    let cs = commands();
    let mut r: Vec<Vec<char>> = Vec::new();
    r.push(chars_of("Commands:"));
    let mut i: usize = 0;
    while i < cs.len()
        invariant
            cs@ == registry(),
            0 <= i <= cs@.len(),
            r@.len() == i + 1,
            r@[0]@ == "Commands:"@,
            forall|j: int| 0 <= j < i ==> #[trigger] r@[j + 1]@ == help_line(registry()[j]),
        decreases cs@.len() - i,
    {
        r.push(help_line_of(cs[i]));
        i = i + 1;
    }
    r
}

} // verus!
