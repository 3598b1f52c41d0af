//! A model of the character-cell row that the line is edited on: the glyphs
//! in its cells and the cursor column. Output text is applied to it one
//! character at a time, as a console applies it.

use vstd::prelude::*;
use crate::text::{is_control, plain};

verus! {

/// The backspace character: moves the cursor one cell left.
pub const BACKSPACE: char = '\u{8}';

/// One display row: the glyphs written so far and the cursor column.
pub struct Screen {
    pub cells: Seq<char>,
    pub cursor: nat,
}

/// A new, blank row with the cursor at its start.
pub open spec fn fresh_row() -> Screen {
    Screen { cells: Seq::empty(), cursor: 0 }
}

/// The row after the console receives `c`: a line feed starts a new row, a
/// carriage return goes to column 0, a backspace moves one cell left, and
/// any other character is written at the cursor, which moves right.
pub open spec fn emit(s: Screen, c: char) -> Screen {
    if c == '\n' {
        fresh_row()
    } else if c == '\r' {
        Screen { cells: s.cells, cursor: 0 }
    } else if c == BACKSPACE {
        Screen { cells: s.cells, cursor: if s.cursor > 0 { (s.cursor - 1) as nat } else { 0 } }
    } else if s.cursor < s.cells.len() {
        Screen { cells: s.cells.update(s.cursor as int, c), cursor: s.cursor + 1 }
    } else {
        Screen { cells: s.cells.push(c), cursor: s.cursor + 1 }
    }
}

/// The row after the console receives all of `out`, in order.
pub open spec fn render(s: Screen, out: Seq<char>) -> Screen
    decreases out.len(),
{
    if out.len() == 0 {
        s
    } else {
        emit(render(s, out.drop_last()), out.last())
    }
}

/// The row shows exactly `text`: those glyphs from its start, blanks after
/// them, and the cursor just past them.
pub open spec fn shows(s: Screen, text: Seq<char>) -> bool {
    &&& s.cursor == text.len()
    &&& text.len() <= s.cells.len()
    &&& s.cells.take(text.len() as int) == text
    &&& forall|i: int| text.len() <= i < s.cells.len() ==> #[trigger] s.cells[i] == ' '
}

/// What erases one character: back, blank, back.
pub open spec fn erase_one() -> Seq<char> {
    seq![BACKSPACE, ' ', BACKSPACE]
}

/// What erases `n` characters.
pub open spec fn erase_seq(n: nat) -> Seq<char>
    decreases n,
{
    if n == 0 {
        Seq::empty()
    } else {
        erase_seq((n - 1) as nat) + erase_one()
    }
}

/// Sending `a` then `b` is sending `a + b`.
pub proof fn lemma_render_concat(s: Screen, a: Seq<char>, b: Seq<char>)
    ensures
        render(s, a + b) == render(render(s, a), b),
    decreases b.len(),
{
    if b.len() == 0 {
        assert(a + b =~= a);
    } else {
        assert((a + b).drop_last() =~= a + b.drop_last());
        assert((a + b).last() == b.last());
        lemma_render_concat(s, a, b.drop_last());
    }
}

/// A fresh row shows nothing.
pub proof fn lemma_fresh_shows_nothing()
    ensures
        shows(fresh_row(), Seq::empty()),
{
    assert(fresh_row().cells.take(0) =~= Seq::<char>::empty());
}

/// Writing plain text on a row that shows `text` makes it show `text + w`.
pub proof fn lemma_write_plain(s: Screen, text: Seq<char>, w: Seq<char>)
    requires
        shows(s, text),
        plain(w),
    ensures
        shows(render(s, w), text + w),
    decreases w.len(),
{
    if w.len() == 0 {
        assert(text + w =~= text);
    } else {
        let w0 = w.drop_last();
        let c = w.last();
        assert(plain(w0));
        assert(!is_control(w[w.len() - 1]));
        lemma_write_plain(s, text, w0);
        let p = render(s, w0);
        let t0 = text + w0;
        let q = emit(p, c);
        assert(render(s, w) == q);
        assert(c != '\n' && c != '\r' && c != BACKSPACE);
        assert(text + w =~= t0.push(c));
        assert(q.cells.take(t0.len() + 1 as int) =~= t0.push(c));
    }
}

/// Erasing one character of a row that shows non-empty `text` makes it
/// show `text` without its last character.
pub proof fn lemma_erase_one(s: Screen, text: Seq<char>)
    requires
        shows(s, text),
        text.len() > 0,
    ensures
        shows(render(s, erase_one()), text.drop_last()),
{
    let e = erase_one();
    assert(e.drop_last().drop_last().drop_last() =~= Seq::<char>::empty());
    assert(e.drop_last().drop_last().last() == BACKSPACE);
    assert(e.drop_last().last() == ' ');
    assert(e.last() == BACKSPACE);
    let s1 = emit(s, BACKSPACE);
    let s2 = emit(s1, ' ');
    let s3 = emit(s2, BACKSPACE);
    assert(render(s, e.drop_last().drop_last().drop_last()) == s);
    assert(render(s, e.drop_last().drop_last()) == s1);
    assert(render(s, e.drop_last()) == s2);
    assert(render(s, e) == s3);
    let t = text.drop_last();
    assert(s3.cells =~= s.cells.update(t.len() as int, ' '));
    assert(s3.cells.take(t.len() as int) =~= t);
}

/// Erasing `n` characters of a row that shows `text` makes it show `text`
/// without its last `n` characters.
pub proof fn lemma_erase(s: Screen, text: Seq<char>, n: nat)
    requires
        shows(s, text),
        n <= text.len(),
    ensures
        shows(render(s, erase_seq(n)), text.take(text.len() - n)),
    decreases n,
{
    if n == 0 {
        assert(text.take(text.len() as int) =~= text);
    } else {
        lemma_erase(s, text, (n - 1) as nat);
        let t = text.take(text.len() - (n - 1));
        lemma_erase_one(render(s, erase_seq((n - 1) as nat)), t);
        lemma_render_concat(s, erase_seq((n - 1) as nat), erase_one());
        assert(t.drop_last() =~= text.take(text.len() - n));
    }
}

/// Whatever a row showed, sending `a`, a line feed and then plain `b` makes
/// it show `b`.
pub proof fn lemma_new_row(s: Screen, a: Seq<char>, b: Seq<char>)
    requires
        plain(b),
    ensures
        shows(render(s, a + seq!['\n'] + b), b),
{
    let nl = seq!['\n'];
    lemma_render_concat(s, a + nl, b);
    lemma_render_concat(s, a, nl);
    assert(nl.drop_last() =~= Seq::<char>::empty());
    assert(render(render(s, a), nl) == fresh_row());
    lemma_fresh_shows_nothing();
    lemma_write_plain(fresh_row(), Seq::empty(), b);
    assert(Seq::<char>::empty() + b =~= b);
}

} // verus!
