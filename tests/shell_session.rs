use mochi::color::{to_color, Color, ColorCode};
use mochi::completion::{complete, complete_from_set, Completion};
use mochi::editor::KeyEvent;
use mochi::editor::ScanCode;
use mochi::history::{HistoryRing, Recall};
use mochi::programs::{cat_target, cat_text, echo_reply, glow_reply, is_escape, run_target, GlowReply, RunTarget};
use mochi::registry::{commands, find_program, help_line_of, help_listing, list_programs, lookup, Command, Program};
use mochi::shell::{parse_line, prompt_for, unknown_command_message, Dispatch, Shell};
use mochi::text::trim;

fn chars(s: &str) -> Vec<char> {
    s.chars().collect()
}

fn text(v: &[char]) -> String {
    v.iter().collect()
}

fn lines(h: &HistoryRing) -> Vec<String> {
    h.snapshot().iter().map(|l| text(l)).collect()
}

#[test]
fn record_twice_stores_once() {
    let mut h = HistoryRing::new();
    h.record(&chars("ls"));
    h.record(&chars("ls"));
    assert_eq!(lines(&h), vec!["ls"]);
    h.record(&chars("pwd"));
    h.record(&chars("ls"));
    assert_eq!(lines(&h), vec!["ls", "pwd", "ls"]);
}

#[test]
fn record_evicts_oldest_when_full() {
    let mut h = HistoryRing::new();
    for i in 0..33 {
        h.record(&chars(&format!("cmd{}", i)));
    }
    let l = lines(&h);
    assert_eq!(l.len(), 32);
    assert_eq!(l[0], "cmd1");
    assert_eq!(l[31], "cmd32");
}

#[test]
fn recall_older_stops_at_oldest() {
    let mut h = HistoryRing::new();
    assert_eq!(h.recall_older(), None);
    h.record(&chars("a"));
    h.record(&chars("b"));
    h.record(&chars("c"));
    assert_eq!(h.recall_older(), Some(chars("c")));
    assert_eq!(h.recall_older(), Some(chars("b")));
    assert_eq!(h.recall_older(), Some(chars("a")));
    assert_eq!(h.recall_older(), None);
    assert_eq!(h.recall_older(), None);
    assert_eq!(h.cursor(), Some(2));
}

#[test]
fn recall_newer_from_newest_clears() {
    let mut h = HistoryRing::new();
    h.record(&chars("a"));
    h.record(&chars("b"));
    assert!(matches!(h.recall_newer(), Recall::Stay));
    h.recall_older();
    h.recall_older();
    match h.recall_newer() {
        Recall::Line(l) => assert_eq!(text(&l), "b"),
        other => panic!("unexpected {:?}", other),
    }
    assert!(matches!(h.recall_newer(), Recall::Clear));
    assert_eq!(h.cursor(), None);
    h.recall_older();
    h.reset_cursor();
    assert_eq!(h.cursor(), None);
}

fn unique(c: Completion) -> String {
    match c {
        Completion::Unique(t) => text(&t),
        other => panic!("not unique: {:?}", other),
    }
}

#[test]
fn completion_against_given_sets() {
    let set = ["help", "programs", "run"];
    assert_eq!(unique(complete_from_set(&chars("pr"), &set, "")), "programs");
    let set2 = ["help", "run", "ls", "cat"];
    assert_eq!(unique(complete_from_set(&chars("h"), &set2, "")), "help");
    match complete_from_set(&chars(""), &set, "") {
        Completion::Ambiguous(v) => assert_eq!(v, vec!["help", "programs", "run"]),
        other => panic!("not ambiguous: {:?}", other),
    }
    assert!(matches!(complete_from_set(&chars("zz"), &set, ""), Completion::NoMatch));
    assert_eq!(unique(complete_from_set(&chars("e"), &["echo", "keys"], "run ")), "run echo");
}

#[test]
fn completion_in_context() {
    assert_eq!(unique(complete(&chars("pr"))), "programs");
    assert_eq!(unique(complete(&chars("z"))), "zam");
    assert_eq!(unique(complete(&chars("run e"))), "run echo");
    assert!(matches!(complete(&chars("cat x")), Completion::NoMatch));
    match complete(&chars("run ")) {
        Completion::Ambiguous(v) => assert_eq!(v, vec!["echo", "keys", "glow", "zam"]),
        other => panic!("not ambiguous: {:?}", other),
    }
    match complete(&chars("p")) {
        Completion::Ambiguous(v) => assert_eq!(v, vec!["programs", "pwd"]),
        other => panic!("not ambiguous: {:?}", other),
    }
}

#[test]
fn dispatch_resolves_run_with_argument() {
    match parse_line(&chars("run echo")) {
        Dispatch::Invoke(c, a) => {
            assert_eq!(c, Command::Run);
            assert_eq!(text(&a), "echo");
        }
        other => panic!("unexpected {:?}", other),
    }
    match parse_line(&chars("  ls  ")) {
        Dispatch::Invoke(c, a) => {
            assert_eq!(c, Command::Ls);
            assert!(a.is_empty());
        }
        other => panic!("unexpected {:?}", other),
    }
    assert!(matches!(parse_line(&chars("   ")), Dispatch::Skip));
    assert!(matches!(parse_line(&chars("help me")), Dispatch::Help));
}

#[test]
fn dispatch_of_unknown_command() {
    match parse_line(&chars("bogus")) {
        Dispatch::Unknown(n) => {
            assert_eq!(text(&n), "bogus");
            assert_eq!(text(&unknown_command_message(&n)), "Unknown: bogus (try 'help')");
        }
        other => panic!("unexpected {:?}", other),
    }
    let mut sh = Shell::new(&chars("~"));
    for c in "bogus".chars() {
        sh.key(KeyEvent::Printable(c));
    }
    sh.key(KeyEvent::Printable('\r'));
    assert!(matches!(sh.submit(), Dispatch::Unknown(_)));
    for c in "bogus".chars() {
        sh.key(KeyEvent::Printable(c));
    }
    sh.key(KeyEvent::Printable('\r'));
    sh.submit();
    assert_eq!(lines(sh.history()), vec!["bogus"]);
}

#[test]
fn typing_help_lists_commands_without_recording() {
    let mut sh = Shell::new(&chars("~"));
    assert_eq!(text(&sh.prompt()), "~$ ");
    for c in ['h', 'e', 'l', 'p'] {
        let st = sh.key(KeyEvent::Printable(c));
        assert_eq!(st.out, vec![c]);
    }
    let st = sh.key(KeyEvent::Printable('\r'));
    assert!(st.done);
    assert!(matches!(sh.submit(), Dispatch::Help));
    assert!(sh.history().snapshot().is_empty());
    assert!(sh.line().is_empty());
    let listing: Vec<String> = help_listing().iter().map(|l| text(l)).collect();
    let names: Vec<&str> = commands().iter().map(|c| c.name()).collect();
    assert_eq!(names, vec!["help", "clear", "programs", "run", "ls", "pwd", "fs-handles", "cat", "x:debug-panic"]);
    assert_eq!(listing.len(), 10);
    assert_eq!(listing[0], "Commands:");
    for (i, c) in commands().iter().enumerate() {
        assert_eq!(listing[i + 1], format!("  {:<12} {}", c.name(), c.help()));
    }
    assert_eq!(listing[1], "  help         Show this help");
    assert_eq!(listing[9], "  x:debug-panic For debugging: test panics");
}

#[test]
fn submitted_lines_are_trimmed_and_recorded() {
    let mut sh = Shell::new(&chars("~"));
    for c in " pwd ".chars() {
        sh.key(KeyEvent::Printable(c));
    }
    sh.key(KeyEvent::Special(ScanCode::Up));
    match sh.submit() {
        Dispatch::Invoke(c, _) => assert_eq!(c, Command::Pwd),
        other => panic!("unexpected {:?}", other),
    }
    assert_eq!(lines(sh.history()), vec!["pwd"]);
    assert_eq!(sh.history().cursor(), None);
    sh.key(KeyEvent::Special(ScanCode::Up));
    assert_eq!(text(&sh.line()), "pwd");
}

#[test]
fn registry_lookup() {
    assert_eq!(lookup(&chars("cat")), Some(Command::Cat));
    assert_eq!(lookup(&chars("fs-handles")), Some(Command::FsHandles));
    assert_eq!(lookup(&chars("ca")), None);
    assert_eq!(find_program(&chars("zam")), Some(Program::Zam));
    assert_eq!(find_program(&chars("vim")), None);
    assert_eq!(text(&list_programs()), "echo, keys, glow, zam");
    assert_eq!(text(&help_line_of(Command::Run)), "  run          Run a program: run <name>");
    assert_eq!(text(&prompt_for(&chars("/efi"))), "/efi$ ");
}

#[test]
fn run_and_cat_arguments() {
    assert!(matches!(run_target(&chars("  ")), RunTarget::Usage));
    assert!(matches!(run_target(&chars(" glow ")), RunTarget::Launch(Program::Glow)));
    match run_target(&chars("vim")) {
        RunTarget::Missing(n) => assert_eq!(text(&n), "vim"),
        other => panic!("unexpected {:?}", other),
    }
    assert_eq!(cat_target(&chars(" ")), None);
    assert_eq!(cat_target(&chars(" a.txt ")), Some(chars("a.txt")));
}

#[test]
fn cat_text_drops_unprintable_bytes() {
    let out = cat_text(b"ab\r\ncd\x01\x7f e~\n");
    assert_eq!(text(&out), "ab\ncd e~\n");
    assert!(cat_text(b"").is_empty());
}

#[test]
fn echo_and_glow_replies() {
    assert_eq!(echo_reply(&chars("  exit ")), None);
    assert_eq!(echo_reply(&chars(" hi there ")), Some(chars("hi there")));
    assert!(matches!(glow_reply(&chars(":q")), GlowReply::Quit));
    assert!(matches!(glow_reply(&chars(": quit ")), GlowReply::Quit));
    match glow_reply(&chars(":w ")) {
        GlowReply::Unknown(n) => assert_eq!(text(&n), "w"),
        other => panic!("unexpected {:?}", other),
    }
    match glow_reply(&chars(" text :q")) {
        GlowReply::Echo(t) => assert_eq!(text(&t), " text :q"),
        other => panic!("unexpected {:?}", other),
    }
}

#[test]
fn escape_keys() {
    assert!(is_escape(KeyEvent::Special(ScanCode::Escape)));
    assert!(is_escape(KeyEvent::Printable('\u{1b}')));
    assert!(!is_escape(KeyEvent::Printable('q')));
    assert!(!is_escape(KeyEvent::Special(ScanCode::Up)));
}

#[test]
fn trim_removes_unicode_whitespace() {
    assert_eq!(text(&trim(&chars("\u{3000}\t ab c \u{a0}"))), "ab c");
    assert!(trim(&chars(" \n ")).is_empty());
}

#[test]
fn colors_pack_exactly() {
    assert_eq!(to_color(48, 25, 52), 0x30_19_34);
    assert_eq!(to_color(255, 255, 255), 0xff_ff_ff);
    assert_eq!(ColorCode::new(Color::LightGray, Color::Black).0, 0x07);
    assert_eq!(ColorCode::new(Color::Yellow, Color::Blue).0, 0x1e);
    assert_eq!(Color::White.number(), 15);
}
