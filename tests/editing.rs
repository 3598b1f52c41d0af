use mochi::editor::{KeyEvent, LineEditor, ScanCode, Step};
use mochi::history::HistoryRing;

fn chars(s: &str) -> Vec<char> {
    s.chars().collect()
}

fn text(v: &[char]) -> String {
    v.iter().collect()
}

/// A single console row: glyph cells and a cursor, fed one character at a time.
struct Row {
    cells: Vec<char>,
    cursor: usize,
}

impl Row {
    fn new() -> Row {
        Row { cells: Vec::new(), cursor: 0 }
    }

    fn feed(&mut self, out: &[char]) {
        for &c in out {
            match c {
                '\n' => {
                    self.cells.clear();
                    self.cursor = 0;
                }
                '\r' => self.cursor = 0,
                '\u{8}' => {
                    if self.cursor > 0 {
                        self.cursor -= 1;
                    }
                }
                _ => {
                    if self.cursor < self.cells.len() {
                        self.cells[self.cursor] = c;
                    } else {
                        self.cells.push(c);
                    }
                    self.cursor += 1;
                }
            }
        }
    }

    fn visible(&self) -> String {
        let s: String = self.cells.iter().collect();
        s.trim_end().to_string()
    }
}

fn press(ed: &mut LineEditor, h: &mut HistoryRing, row: &mut Row, key: KeyEvent) -> Step {
    let st = ed.step(h, key);
    row.feed(&st.out);
    st
}

fn check_row(ed: &LineEditor, row: &Row) {
    let want: String = text(&ed.prompt_text()) + &text(&ed.line_text());
    assert_eq!(row.visible(), want.trim_end());
    assert_eq!(row.cursor, want.chars().count());
}

#[test]
fn typing_and_backspace_keep_display_in_step() {
    let mut ed = LineEditor::new(&chars("~$ "), true);
    let mut h = HistoryRing::new();
    let mut row = Row::new();
    row.feed(&chars("~$ "));
    let keys = ['a', 'b', 'c', '\u{8}', 'd', '\u{8}', '\u{8}', 'x', 'y'];
    let mut expected: Vec<char> = Vec::new();
    for &k in keys.iter() {
        let st = press(&mut ed, &mut h, &mut row, KeyEvent::Printable(k));
        assert!(!st.done);
        if k == '\u{8}' {
            expected.pop();
        } else {
            expected.push(k);
        }
        assert_eq!(ed.line_text(), expected);
        check_row(&ed, &row);
    }
    assert_eq!(text(&ed.line_text()), "axy");
}

#[test]
fn backspace_on_empty_line_does_nothing() {
    let mut ed = LineEditor::new(&chars("> "), false);
    let mut h = HistoryRing::new();
    let st = ed.step(&mut h, KeyEvent::Printable('\u{8}'));
    assert!(st.out.is_empty());
    assert!(ed.line_text().is_empty());
}

#[test]
fn enter_finishes_line() {
    let mut ed = LineEditor::new(&chars("> "), false);
    let mut h = HistoryRing::new();
    ed.step(&mut h, KeyEvent::Printable('o'));
    ed.step(&mut h, KeyEvent::Printable('k'));
    let st = ed.step(&mut h, KeyEvent::Printable('\r'));
    assert!(st.done);
    assert_eq!(st.out, vec!['\n']);
    assert_eq!(text(&ed.line_text()), "ok");
    let st = ed.step(&mut h, KeyEvent::Printable('\n'));
    assert!(st.done);
}

#[test]
fn push_at_capacity_is_dropped() {
    let mut ed = LineEditor::new(&chars("> "), false);
    let mut h = HistoryRing::new();
    for i in 0..256 {
        let c = (b'a' + (i % 26) as u8) as char;
        let st = ed.step(&mut h, KeyEvent::Printable(c));
        assert_eq!(st.out, vec![c]);
    }
    let full = ed.line_text();
    assert_eq!(full.len(), 256);
    let st = ed.step(&mut h, KeyEvent::Printable('z'));
    assert!(st.out.is_empty());
    assert!(!st.done);
    assert_eq!(ed.line_text(), full);
}

#[test]
fn control_characters_are_ignored() {
    let mut ed = LineEditor::new(&chars("> "), false);
    let mut h = HistoryRing::new();
    let st = ed.step(&mut h, KeyEvent::Printable('\t'));
    assert!(st.out.is_empty());
    let st = ed.step(&mut h, KeyEvent::Printable('\u{1b}'));
    assert!(st.out.is_empty());
    assert!(ed.line_text().is_empty());
}

#[test]
fn special_keys_other_than_arrows_do_nothing() {
    let mut ed = LineEditor::new(&chars("> "), true);
    let mut h = HistoryRing::new();
    h.record(&chars("ls"));
    ed.step(&mut h, KeyEvent::Printable('q'));
    for code in [ScanCode::Escape, ScanCode::Left, ScanCode::Right, ScanCode::Other] {
        let st = ed.step(&mut h, KeyEvent::Special(code));
        assert!(st.out.is_empty());
        assert_eq!(text(&ed.line_text()), "q");
    }
}

#[test]
fn simple_mode_ignores_history_keys() {
    let mut ed = LineEditor::new(&chars("> "), false);
    let mut h = HistoryRing::new();
    h.record(&chars("ls"));
    let st = ed.step(&mut h, KeyEvent::Special(ScanCode::Up));
    assert!(st.out.is_empty());
    assert!(ed.line_text().is_empty());
    assert_eq!(h.cursor(), None);
}

#[test]
fn up_and_down_recall_history_with_display() {
    let mut ed = LineEditor::new(&chars("~$ "), true);
    let mut h = HistoryRing::new();
    h.record(&chars("ls"));
    h.record(&chars("cat notes"));
    let mut row = Row::new();
    row.feed(&chars("~$ "));
    press(&mut ed, &mut h, &mut row, KeyEvent::Printable('x'));
    press(&mut ed, &mut h, &mut row, KeyEvent::Special(ScanCode::Up));
    assert_eq!(text(&ed.line_text()), "cat notes");
    check_row(&ed, &row);
    press(&mut ed, &mut h, &mut row, KeyEvent::Special(ScanCode::Up));
    assert_eq!(text(&ed.line_text()), "ls");
    check_row(&ed, &row);
    let st = press(&mut ed, &mut h, &mut row, KeyEvent::Special(ScanCode::Up));
    assert!(st.out.is_empty());
    assert_eq!(text(&ed.line_text()), "ls");
    assert_eq!(h.cursor(), Some(1));
    press(&mut ed, &mut h, &mut row, KeyEvent::Special(ScanCode::Down));
    assert_eq!(text(&ed.line_text()), "cat notes");
    check_row(&ed, &row);
    press(&mut ed, &mut h, &mut row, KeyEvent::Special(ScanCode::Down));
    assert!(ed.line_text().is_empty());
    assert_eq!(h.cursor(), None);
    check_row(&ed, &row);
    let st = press(&mut ed, &mut h, &mut row, KeyEvent::Special(ScanCode::Down));
    assert!(st.out.is_empty());
}

#[test]
fn typing_while_browsing_ends_browsing() {
    let mut ed = LineEditor::new(&chars("~$ "), true);
    let mut h = HistoryRing::new();
    h.record(&chars("ls"));
    h.record(&chars("pwd"));
    ed.step(&mut h, KeyEvent::Special(ScanCode::Up));
    assert_eq!(h.cursor(), Some(0));
    ed.step(&mut h, KeyEvent::Printable('!'));
    assert_eq!(h.cursor(), None);
    assert_eq!(text(&ed.line_text()), "pwd!");
}

#[test]
fn tab_completes_unique_command() {
    let mut ed = LineEditor::new(&chars("~$ "), true);
    let mut h = HistoryRing::new();
    let mut row = Row::new();
    row.feed(&chars("~$ "));
    press(&mut ed, &mut h, &mut row, KeyEvent::Printable('p'));
    press(&mut ed, &mut h, &mut row, KeyEvent::Printable('r'));
    press(&mut ed, &mut h, &mut row, KeyEvent::Printable('\t'));
    assert_eq!(text(&ed.line_text()), "programs");
    check_row(&ed, &row);
}

#[test]
fn tab_completes_run_argument() {
    let mut ed = LineEditor::new(&chars("~$ "), true);
    let mut h = HistoryRing::new();
    let mut row = Row::new();
    row.feed(&chars("~$ "));
    for c in "run g".chars() {
        press(&mut ed, &mut h, &mut row, KeyEvent::Printable(c));
    }
    press(&mut ed, &mut h, &mut row, KeyEvent::Printable('\t'));
    assert_eq!(text(&ed.line_text()), "run glow");
    check_row(&ed, &row);
}

#[test]
fn tab_with_several_matches_lists_them() {
    let mut ed = LineEditor::new(&chars("~$ "), true);
    let mut h = HistoryRing::new();
    let mut row = Row::new();
    row.feed(&chars("~$ "));
    press(&mut ed, &mut h, &mut row, KeyEvent::Printable('c'));
    let st = press(&mut ed, &mut h, &mut row, KeyEvent::Printable('\t'));
    assert_eq!(text(&st.out), "\nclear cat\n~$ c");
    assert_eq!(text(&ed.line_text()), "c");
    check_row(&ed, &row);
}

#[test]
fn tab_without_match_does_nothing() {
    let mut ed = LineEditor::new(&chars("~$ "), true);
    let mut h = HistoryRing::new();
    ed.step(&mut h, KeyEvent::Printable('q'));
    let st = ed.step(&mut h, KeyEvent::Printable('\t'));
    assert!(st.out.is_empty());
    assert_eq!(text(&ed.line_text()), "q");
}
