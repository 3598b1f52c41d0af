//! Prefix completion of the line being edited.

use vstd::prelude::*;
use crate::registry::{
    command_names, lemma_name_views_push, lemma_names_plain, name_views, program_name_list,
    program_names, top_level_names, registry, program_table,
};
use crate::text::{
    find_space, has_prefix, lemma_plain_concat, head_of, lemma_space_index, plain, space_index, str_equals,
    str_has_prefix, tail_of, chars_of,
};

verus! {

/// What completing a fragment comes to.
#[derive(Debug)]
pub enum Completion {
    /// No candidate starts with the fragment: the line stays as it is.
    NoMatch,
    /// Exactly one candidate matches: the whole line becomes this text.
    Unique(Vec<char>),
    /// Several candidates match, in candidate order: they are listed and the
    /// line stays as it is.
    Ambiguous(Vec<&'static str>),
}

/// The candidates of `set` that start with `frag`, in order.
pub open spec fn matching(set: Seq<Seq<char>>, frag: Seq<char>) -> Seq<Seq<char>>
    decreases set.len(),
{
    if set.len() == 0 {
        Seq::empty()
    } else if has_prefix(set.last(), frag) {
        matching(set.drop_last(), frag).push(set.last())
    } else {
        matching(set.drop_last(), frag)
    }
}

/// `r` is the completion that the matches `m` give, with `pre` put before a
/// unique match.
pub open spec fn completes_to(r: Completion, m: Seq<Seq<char>>, pre: Seq<char>) -> bool {
    if m.len() == 0 {
        r is NoMatch
    } else if m.len() == 1 {
        r matches Completion::Unique(t) && t@ == pre + m[0]
    } else {
        r matches Completion::Ambiguous(v) && name_views(v@) == m
    }
}

/// The candidates, the fragment and the text put before a unique match, for
/// completing `line`; `None` where no completion is defined.
pub open spec fn completion_context(line: Seq<char>) -> Option<(Seq<Seq<char>>, Seq<char>, Seq<char>)> {
    match tail_of(line) {
        None => Some((command_names() + program_names(), line, Seq::empty())),
        Some(t) => if head_of(line) == "run"@ {
            Some((program_names(), t, "run "@))
        } else {
            None
        },
    }
}

/// Short names free of control characters: what a completion may write.
pub open spec fn short_plain(s: Seq<Seq<char>>) -> bool {
    forall|i: int| 0 <= i < s.len() ==> plain(#[trigger] s[i]) && s[i].len() <= 13
}

proof fn lemma_matching_short_plain(set: Seq<Seq<char>>, frag: Seq<char>)
    requires
        short_plain(set),
    ensures
        short_plain(matching(set, frag)),
    decreases set.len(),
{
    if set.len() > 0 {
        lemma_matching_short_plain(set.drop_last(), frag);
    }
}

proof fn lemma_candidates_short_plain()
    ensures
        short_plain(command_names() + program_names()),
        short_plain(program_names()),
{
    lemma_names_plain();
    let s = command_names() + program_names();
    assert forall|i: int| 0 <= i < s.len() implies plain(#[trigger] s[i]) && s[i].len() <= 13 by {
        if i < 9 {
            assert(s[i] == crate::registry::command_name(registry()[i]));
        } else {
            assert(s[i] == crate::registry::program_name(program_table()[i - 9]));
        }
    }
    assert forall|i: int| 0 <= i < program_names().len() implies plain(#[trigger] program_names()[i]) && program_names()[i].len() <= 13 by {
        assert(program_names()[i] == crate::registry::program_name(program_table()[i]));
    }
}

/// A unique completion of plain text is plain and at most seventeen
/// characters long: the put-before text is short and every candidate is.
pub proof fn lemma_completion_plain(line: Seq<char>)
    ensures
        completion_context(line) matches Some(ctx) ==> short_plain(matching(ctx.0, ctx.1)) && plain(ctx.2) && ctx.2.len() <= 4,
{
    lemma_candidates_short_plain();
    reveal_strlit("run ");
    reveal_strlit("");
    match completion_context(line) {
        Some(ctx) => {
            lemma_matching_short_plain(ctx.0, ctx.1);
            assert(plain(ctx.2));
        },
        None => {},
    }
}

/// Completes `fragment` against `set`: no match, the one match (after
/// `prefix`), or all matches in set order.
pub fn complete_from_set(fragment: &[char], set: &[&'static str], prefix: &str) -> (r: Completion)
    ensures
        completes_to(r, matching(name_views(set@), fragment@), prefix@),
{
    let mut found: Vec<&'static str> = Vec::new();
    let mut i: usize = 0;
    while i < set.len()
        invariant
            0 <= i <= set@.len(),
            name_views(found@) == matching(name_views(set@).take(i as int), fragment@),
        decreases set@.len() - i,
    {
        let name = set[i];
        proof {
            lemma_name_views_push(set@.take(i as int), name);
            assert(set@.take(i + 1) =~= set@.take(i as int).push(name));
            assert(name_views(set@).take(i + 1) =~= name_views(set@.take(i + 1)));
            assert(name_views(set@).take(i as int) =~= name_views(set@.take(i as int)));
            assert(name_views(set@).take(i + 1).drop_last() =~= name_views(set@).take(i as int));
        }
        if str_has_prefix(name, fragment) {
            proof {
                lemma_name_views_push(found@, name);
            }
            found.push(name);
        }
        i = i + 1;
    }
    assert(name_views(set@).take(set@.len() as int) =~= name_views(set@));
    if found.len() == 0 {
        Completion::NoMatch
    } else if found.len() == 1 {
        let mut t = chars_of(prefix);
        crate::text::push_str(&mut t, found[0]);
        Completion::Unique(t)
    } else {
        Completion::Ambiguous(found)
    }
}

/// Completes the line being edited. Without a space the first word
/// completes against every command and sub-program name; after `run ` the
/// argument completes against the sub-program names, and a unique match
/// becomes `run <name>`; any other line with a space has no completion.
pub fn complete(line: &[char]) -> (r: Completion)
    ensures
        match completion_context(line@) {
            None => r is NoMatch,
            Some(ctx) => completes_to(r, matching(ctx.0, ctx.1), ctx.2),
        },
        r matches Completion::Unique(t) ==> plain(t@) && t@.len() <= 17,
{
    proof {
        lemma_space_index(line@);
        lemma_candidates_short_plain();
        lemma_matching_short_plain(command_names() + program_names(), line@);
        reveal_strlit("run ");
    }
    let pos = find_space(line);
    if pos == line.len() {
        assert(line@.take(pos as int) =~= line@);
        let set = top_level_names();
        let r = complete_from_set(line, set.as_slice(), "");
        proof {
            reveal_strlit("");
            let m = matching(command_names() + program_names(), line@);
            if r is Unique {
                let t = r->Unique_0;
                assert(plain(m[0]) && m[0].len() <= 13);
                assert(t@ =~= m[0]);
            }
        }
        r
    } else {
        let head = vstd::slice::slice_subrange(line, 0, pos);
        let tail = vstd::slice::slice_subrange(line, pos + 1, line.len());
        assert(head@ =~= head_of(line@));
        assert(tail@ =~= line@.skip(space_index(line@) + 1));
        proof {
            lemma_matching_short_plain(program_names(), tail@);
        }
        if str_equals("run", head) {
            let set = program_name_list();
            let r = complete_from_set(tail, set.as_slice(), "run ");
            proof {
                let m = matching(program_names(), tail@);
                if r is Unique {
                let t = r->Unique_0;
                    assert(plain(m[0]) && m[0].len() <= 13);
                    assert(plain("run "@));
                    lemma_plain_concat("run "@, m[0]);
                }
            }
            r
        } else {
            Completion::NoMatch
        }
    }
}

} // verus!
