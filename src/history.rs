//! The bounded history ring: past lines in insertion order, with a cursor
//! for browsing them from the newest backwards.

use vstd::prelude::*;
use crate::bounded::{
    history_as_slice, history_new, history_push, history_remove, line_as_slice, line_chars,
    line_extend, line_new, stored_lines, HISTORY_CAPACITY, LINE_CAPACITY,
};
use crate::text::chars_equal;

verus! {

/// The lines after recording `l` into `h`: a repeat of the newest line is
/// dropped; otherwise `l` is appended, evicting the oldest line when the
/// ring is full.
pub open spec fn recorded(h: Seq<Seq<char>>, l: Seq<char>) -> Seq<Seq<char>> {
    if h.len() > 0 && h.last() == l {
        h
    } else if h.len() >= HISTORY_CAPACITY {
        h.drop_first().push(l)
    } else {
        h.push(l)
    }
}

/// The depth that one step into the past aims at.
pub open spec fn older_target(d: Option<int>) -> int {
    match d {
        None => 0,
        Some(i) => i + 1,
    }
}

/// The cursor after one step into the past over `n` lines: it moves when
/// the target depth exists, and stays otherwise.
pub open spec fn after_older(d: Option<int>, n: int) -> Option<int> {
    if older_target(d) < n {
        Some(older_target(d))
    } else {
        d
    }
}

/// The cursor after one step toward the present: depth 0 leaves browsing.
pub open spec fn after_newer(d: Option<int>) -> Option<int> {
    match d {
        None => None,
        Some(i) => if i == 0 {
            None
        } else {
            Some(i - 1)
        },
    }
}

/// The cursor after `k` steps into the past from `d`.
pub open spec fn older_times(d: Option<int>, n: int, k: nat) -> Option<int>
    decreases k,
{
    if k == 0 {
        d
    } else {
        after_older(older_times(d, n, (k - 1) as nat), n)
    }
}

/// The line at depth `d`, counted back from the newest.
pub open spec fn at_depth(h: Seq<Seq<char>>, d: int) -> Seq<char> {
    h[h.len() - 1 - d]
}

/// Every line of `h` is free of control characters.
pub open spec fn all_plain(h: Seq<Seq<char>>) -> bool {
    forall|i: int| 0 <= i < h.len() ==> crate::text::plain(#[trigger] h[i])
}

/// What stepping toward the present yields.
#[derive(Debug)]
pub enum Recall {
    /// Nothing was being browsed: nothing changes.
    Stay,
    /// Browsing ended: the line is to be cleared.
    Clear,
    /// The line now selected.
    Line(Vec<char>),
}

pub struct HistoryRing {
    entries: heapless::Vec<heapless::Vec<char, 256>, 32>,
    cursor: Option<usize>,
}

impl HistoryRing {
    /// The stored lines, oldest first.
    pub closed spec fn lines(&self) -> Seq<Seq<char>> {
        stored_lines(self.entries)
    }

    /// The browsing cursor: `None`, or the depth back from the newest line.
    pub closed spec fn depth(&self) -> Option<int> {
        match self.cursor {
            None => None,
            Some(i) => Some(i as int),
        }
    }

    pub closed spec fn wf(&self) -> bool {
        &&& self.lines().len() <= HISTORY_CAPACITY
        &&& forall|i: int| 0 <= i < self.lines().len() ==> (#[trigger] self.lines()[i]).len() <= LINE_CAPACITY
        &&& match self.cursor {
            None => true,
            Some(i) => i < self.lines().len(),
        }
    }

    /// A well-formed cursor points at a stored line.
    pub proof fn lemma_depth_in_range(&self)
        requires
            self.wf(),
        ensures
            self.depth() matches Some(d) ==> 0 <= d < self.lines().len(),
            self.lines().len() <= HISTORY_CAPACITY,
    {
    }

    pub fn new() -> (r: HistoryRing)
        ensures
            r.wf(),
            r.lines() == Seq::<Seq<char>>::empty(),
            r.depth() is None,
    {
        HistoryRing { entries: history_new(), cursor: None }
    }

    /// Number of stored lines.
    pub fn len(&self) -> (r: usize)
        ensures
            r == self.lines().len(),
    {
        history_as_slice(&self.entries).len()
    }

    /// The browsing cursor.
    pub fn cursor(&self) -> (r: Option<usize>)
        ensures
            match r {
                None => self.depth() is None,
                Some(i) => self.depth() == Some(i as int),
            },
    {
        self.cursor
    }

    /// A copy of the stored lines, oldest first.
    pub fn snapshot(&self) -> (r: Vec<Vec<char>>)
        ensures
            r@.len() == self.lines().len(),
            forall|i: int| 0 <= i < r@.len() ==> #[trigger] r@[i]@ == self.lines()[i],
    {
        let s = history_as_slice(&self.entries);
        let mut r: Vec<Vec<char>> = Vec::new();
        let mut i: usize = 0;
        while i < s.len()
            invariant
                s@.len() == self.lines().len(),
                forall|j: int| 0 <= j < s@.len() ==> #[trigger] line_chars(s@[j]) == self.lines()[j],
                0 <= i <= s@.len(),
                r@.len() == i,
                forall|j: int| 0 <= j < i ==> #[trigger] r@[j]@ == self.lines()[j],
            decreases s@.len() - i,
        {
            r.push(vstd::slice::slice_to_vec(line_as_slice(&s[i])));
            i = i + 1;
        }
        r
    }

    /// A copy of the line at depth `d`.
    fn copy_at_depth(&self, d: usize) -> (r: Vec<char>)
        requires
            self.wf(),
            d < self.lines().len(),
        ensures
            r@ == at_depth(self.lines(), d as int),
            r@.len() <= LINE_CAPACITY,
    {
        let s = history_as_slice(&self.entries);
        let k = s.len() - 1 - d;
        vstd::slice::slice_to_vec(line_as_slice(&s[k]))
    }

    /// Stores `line` as the newest entry, unless it repeats the newest one;
    /// when full, the oldest entry makes room.
    pub fn record(&mut self, line: &[char])
        requires
            old(self).wf(),
            line@.len() <= LINE_CAPACITY,
        ensures
            final(self).wf(),
            final(self).lines() == recorded(old(self).lines(), line@),
            final(self).depth() == old(self).depth(),
    {
        let s = history_as_slice(&self.entries);
        let n = s.len();
        if n > 0 {
            let newest = line_as_slice(&s[n - 1]);
            if chars_equal(newest, line) {
                return;
            }
        }
        if n == HISTORY_CAPACITY {
            history_remove(&mut self.entries, 0);
        }
        let mut item = line_new();
        let fits = line_extend(&mut item, line);
        let pushed = history_push(&mut self.entries, item);
        proof {
            let h = old(self).lines();
            if h.len() >= HISTORY_CAPACITY {
                assert(h.remove(0) =~= h.drop_first());
            }
            let nl = self.lines();
            assert(nl =~= recorded(h, line@));
            assert forall|i: int| 0 <= i < nl.len() implies (#[trigger] nl[i]).len() <= LINE_CAPACITY by {
                if i < nl.len() - 1 {
                    if h.len() >= HISTORY_CAPACITY {
                        assert(nl[i] == h[i + 1]);
                    } else {
                        assert(nl[i] == h[i]);
                    }
                }
            }
        }
    }

    /// Steps one line into the past and returns it; at the oldest line, or
    /// on an empty ring, nothing changes and `None` comes back.
    pub fn recall_older(&mut self) -> (r: Option<Vec<char>>)
        requires
            old(self).wf(),
        ensures
            final(self).wf(),
            final(self).lines() == old(self).lines(),
            final(self).depth() == after_older(old(self).depth(), old(self).lines().len() as int),
            match r {
                Some(l) => older_target(old(self).depth()) < old(self).lines().len()
                    && l@ == at_depth(old(self).lines(), older_target(old(self).depth())),
                None => older_target(old(self).depth()) >= old(self).lines().len(),
            },
            r matches Some(l) ==> l@.len() <= LINE_CAPACITY,
    {
        let n = self.len();
        let target: usize = match self.cursor {
            None => 0,
            Some(i) => i + 1,
        };
        if target >= n {
            return None;
        }
        self.cursor = Some(target);
        Some(self.copy_at_depth(target))
    }

    /// Steps one line toward the present. From depth 0 browsing ends and the
    /// caller is told to clear the line; when not browsing nothing changes.
    pub fn recall_newer(&mut self) -> (r: Recall)
        requires
            old(self).wf(),
        ensures
            final(self).wf(),
            final(self).lines() == old(self).lines(),
            final(self).depth() == after_newer(old(self).depth()),
            match old(self).depth() {
                None => r is Stay,
                Some(d) => if d == 0 {
                    r is Clear
                } else {
                    r matches Recall::Line(l) && l@ == at_depth(old(self).lines(), d - 1)
                },
            },
            r matches Recall::Line(l) ==> l@.len() <= LINE_CAPACITY,
    {
        match self.cursor {
            None => Recall::Stay,
            Some(i) => {
                if i == 0 {
                    self.cursor = None;
                    Recall::Clear
                } else {
                    self.cursor = Some(i - 1);
                    Recall::Line(self.copy_at_depth(i - 1))
                }
            },
        }
    }

    /// Ends browsing.
    pub fn reset_cursor(&mut self)
        requires
            old(self).wf(),
        ensures
            final(self).wf(),
            final(self).lines() == old(self).lines(),
            final(self).depth() is None,
    {
        self.cursor = None;
    }
}

/// Recording the same line twice in a row stores it once: the second
/// record changes nothing, and the newest entry is that line.
pub proof fn lemma_record_twice(h: Seq<Seq<char>>, l: Seq<char>)
    ensures
        recorded(recorded(h, l), l) == recorded(h, l),
        recorded(h, l).last() == l,
        recorded(h, l).len() > 0,
{
}

/// No line is stored twice in a row.
pub open spec fn no_repeats(h: Seq<Seq<char>>) -> bool {
    forall|i: int| 0 < i < h.len() ==> #[trigger] h[i] != h[i - 1]
}

/// Recording keeps the ring free of consecutive repeats.
pub proof fn lemma_record_keeps_no_repeats(h: Seq<Seq<char>>, l: Seq<char>)
    requires
        no_repeats(h),
    ensures
        no_repeats(recorded(h, l)),
{
    let r = recorded(h, l);
    if !(h.len() > 0 && h.last() == l) {
        if h.len() >= HISTORY_CAPACITY {
            assert forall|i: int| 0 < i < r.len() implies #[trigger] r[i] != r[i - 1] by {
                if i < r.len() - 1 {
                    assert(r[i] == h[i + 1] && r[i - 1] == h[i]);
                } else {
                    assert(r[i - 1] == h.last());
                }
            }
        } else {
            assert forall|i: int| 0 < i < r.len() implies #[trigger] r[i] != r[i - 1] by {
                if i < r.len() - 1 {
                    assert(r[i] == h[i] && r[i - 1] == h[i - 1]);
                }
            }
        }
    }
}

/// Stepping into the past `k >= 1` times from no selection, over a ring of
/// `n >= 1` lines, reaches depth `min(k, n) - 1`: it never goes past the
/// oldest line, depth `n - 1`.
pub proof fn lemma_recall_older_stops(n: int, k: nat)
    requires
        n >= 1,
        k >= 1,
    ensures
        older_times(None, n, k) == Some(if k <= n { k - 1 } else { n - 1 }),
    decreases k,
{
    assert(older_times(None, n, k) == after_older(older_times(None, n, (k - 1) as nat), n));
    if k > 1 {
        lemma_recall_older_stops(n, (k - 1) as nat);
    } else {
        assert(older_times(None, n, 0) is None);
    }
}

} // verus!
