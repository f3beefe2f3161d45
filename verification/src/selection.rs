//! Which of the discovered backends are built in: a selection by name patterns.
//!
//! Patterns are separated by commas or line ends. `*` stands for any run of
//! characters, a leading `!` excludes, and `#` starts a comment. An exclusion wins
//! over everything else, and a selection that includes nothing includes all.

use vstd::prelude::*;
use vstd::slice::slice_subrange;

use crate::text;
use crate::text::{chars_of, find_char, split_at, split_lines, trimmed};

verus! {

/// Whether a pattern matches a name.
pub open spec fn matches(pattern: Seq<char>, name: Seq<char>) -> bool
    decreases pattern.len() + name.len(),
{
    if pattern.len() == 0 {
        name.len() == 0
    } else if pattern[0] == '*' {
        matches(pattern.skip(1), name) || (name.len() > 0 && matches(pattern, name.skip(1)))
    } else {
        name.len() > 0 && pattern[0] == name[0] && matches(pattern.skip(1), name.skip(1))
    }
}

/// Decides [`matches`].
pub fn pattern_matches(pattern: &[char], name: &[char]) -> (r: bool)
    ensures
        r == matches(pattern@, name@),
    decreases pattern@.len() + name@.len(),
{
    if pattern.len() == 0 {
        return name.len() == 0;
    }
    let rest = slice_subrange(pattern, 1, pattern.len());
    assert(rest@ =~= pattern@.skip(1));
    if pattern[0] == '*' {
        if pattern_matches(rest, name) {
            return true;
        }
        if name.len() == 0 {
            return false;
        }
        let shorter = slice_subrange(name, 1, name.len());
        assert(shorter@ =~= name@.skip(1));
        return pattern_matches(pattern, shorter);
    }
    if name.len() == 0 || pattern[0] != name[0] {
        return false;
    }
    let shorter = slice_subrange(name, 1, name.len());
    assert(shorter@ =~= name@.skip(1));
    pattern_matches(rest, shorter)
}

/// What one part of a selection says of a name.
pub enum Vote {
    Silent,
    Includes,
    Misses,
    Excludes,
}

/// What a part of a selection between two separators says of a name. The white
/// space around a pattern does not count.
pub open spec fn vote(part: Seq<char>, name: Seq<char>) -> Vote {
    let pattern = text::trim(part);
    if pattern.len() == 0 {
        Vote::Silent
    } else if pattern[0] == '!' {
        if matches(text::trim(pattern.skip(1)), name) {
            Vote::Excludes
        } else {
            Vote::Silent
        }
    } else if matches(pattern, name) {
        Vote::Includes
    } else {
        Vote::Misses
    }
}

/// The parts of a selection: of each line, up to a comment, what stands between
/// commas.
pub open spec fn selection_parts(lines: Seq<Seq<char>>) -> Seq<Seq<char>>
    decreases lines.len(),
{
    if lines.len() == 0 {
        Seq::empty()
    } else {
        let line = lines.last();
        selection_parts(lines.drop_last()) + text::split(
            line.take(text::find(line, '#') as int),
            ',',
        )
    }
}

/// Whether some part votes so.
pub open spec fn some_votes(parts: Seq<Seq<char>>, name: Seq<char>, ballot: Vote) -> bool {
    exists|i: int| 0 <= i < parts.len() && #[trigger] vote(parts[i], name) == ballot
}

/// Whether a selection takes a backend.
pub open spec fn takes(selection: Seq<char>, name: Seq<char>) -> bool {
    let parts = selection_parts(text::lines(selection));
    &&& !some_votes(parts, name, Vote::Excludes)
    &&& some_votes(parts, name, Vote::Includes) || !some_votes(parts, name, Vote::Misses)
}

fn cast_vote(part: &[char], name: &[char]) -> (r: Vote)
    ensures
        r == vote(part@, name@),
{
    let pattern = trimmed(part);
    if pattern.len() == 0 {
        return Vote::Silent;
    }
    if pattern[0] == '!' {
        let rest = slice_subrange(pattern, 1, pattern.len());
        assert(rest@ =~= pattern@.skip(1));
        let excluded = trimmed(rest);
        return if pattern_matches(excluded, name) {
            Vote::Excludes
        } else {
            Vote::Silent
        };
    }
    if pattern_matches(pattern, name) {
        Vote::Includes
    } else {
        Vote::Misses
    }
}

/// Which votes were cast by the parts so far.
struct Tally {
    excluded: bool,
    included: bool,
    missed: bool,
}

impl Tally {
    spec fn counts(self, parts: Seq<Seq<char>>, name: Seq<char>) -> bool {
        &&& self.excluded == some_votes(parts, name, Vote::Excludes)
        &&& self.included == some_votes(parts, name, Vote::Includes)
        &&& self.missed == some_votes(parts, name, Vote::Misses)
    }
}

proof fn lemma_one_more(parts: Seq<Seq<char>>, part: Seq<char>, name: Seq<char>, ballot: Vote)
    ensures
        some_votes(parts.push(part), name, ballot) == (some_votes(parts, name, ballot) || vote(
            part,
            name,
        ) == ballot),
{
    let more = parts.push(part);
    if some_votes(parts, name, ballot) {
        let i = choose|i: int| 0 <= i < parts.len() && #[trigger] vote(parts[i], name) == ballot;
        assert(more[i] == parts[i]);
        assert(vote(more[i], name) == ballot);
    }
    if vote(part, name) == ballot {
        assert(more[parts.len() as int] == part);
        assert(vote(more[parts.len() as int], name) == ballot);
    }
    if some_votes(more, name, ballot) {
        let i = choose|i: int| 0 <= i < more.len() && #[trigger] vote(more[i], name) == ballot;
        if i < parts.len() {
            assert(more[i] == parts[i]);
            assert(vote(parts[i], name) == ballot);
        }
    }
}

fn tally_line(tally: Tally, line: &[char], name: &[char], Ghost(before): Ghost<Seq<Seq<char>>>) -> (r:
    Tally)
    requires
        tally.counts(before, name@),
    ensures
        r.counts(
            before + text::split(line@.take(text::find(line@, '#') as int), ','),
            name@,
        ),
{
    let end: usize = find_char(line, '#');
    let kept = slice_subrange(line, 0, end);
    assert(kept@ =~= line@.take(text::find(line@, '#') as int));
    let parts = split_at(kept, ',');
    let ghost all = text::pieces(parts@);
    let mut tally = tally;
    let mut i: usize = 0;
    assert(before + all.take(0) =~= before);
    while i < parts.len()
        invariant
            i <= parts@.len(),
            all == text::pieces(parts@),
            tally.counts(before + all.take(i as int), name@),
        decreases parts@.len() - i,
    {
        proof {
            let so_far = before + all.take(i as int);
            assert(all[i as int] == parts@[i as int]@);
            assert(before + all.take(i + 1) =~= so_far.push(all[i as int]));
            lemma_one_more(so_far, all[i as int], name@, Vote::Excludes);
            lemma_one_more(so_far, all[i as int], name@, Vote::Includes);
            lemma_one_more(so_far, all[i as int], name@, Vote::Misses);
        }
        match cast_vote(parts[i], name) {
            Vote::Silent => {},
            Vote::Excludes => {
                tally = Tally { excluded: true, ..tally };
            },
            Vote::Includes => {
                tally = Tally { included: true, ..tally };
            },
            Vote::Misses => {
                tally = Tally { missed: true, ..tally };
            },
        }
        i = i + 1;
    }
    assert(all.take(i as int) =~= all);
    tally
}

/// Decides whether a selection takes a backend.
pub fn selects(selection: &str, name: &str) -> (r: bool)
    ensures
        r == takes(selection@, name@),
{
    let chars = chars_of(selection);
    let wanted = chars_of(name);
    let lines = split_lines(chars.as_slice());
    let ghost all = text::pieces(lines@);
    let mut tally = Tally { excluded: false, included: false, missed: false };
    let mut i: usize = 0;
    assert(all.take(0) =~= Seq::empty());
    while i < lines.len()
        invariant
            i <= lines@.len(),
            all == text::pieces(lines@),
            wanted@ == name@,
            tally.counts(selection_parts(all.take(i as int)), name@),
        decreases lines@.len() - i,
    {
        let ghost before = selection_parts(all.take(i as int));
        proof {
            assert(all.take(i + 1).drop_last() =~= all.take(i as int));
            assert(all.take(i + 1).last() == lines@[i as int]@);
        }
        tally = tally_line(tally, lines[i], wanted.as_slice(), Ghost(before));
        i = i + 1;
    }
    assert(all.take(i as int) =~= all);
    !tally.excluded && (tally.included || !tally.missed)
}

/// A selection without patterns takes every backend.
pub proof fn law_empty_selection_takes_all(selection: Seq<char>, name: Seq<char>)
    requires
        forall|i: int|
            0 <= i < selection_parts(text::lines(selection)).len() ==> text::trim(
                #[trigger] selection_parts(text::lines(selection))[i],
            ).len() == 0,
    ensures
        takes(selection, name),
{
    let parts = selection_parts(text::lines(selection));
    assert forall|i: int| 0 <= i < parts.len() implies #[trigger] vote(parts[i], name)
        == Vote::Silent by {
        assert(text::trim(parts[i]).len() == 0);
    }
}

/// A backend that a pattern excludes is not taken, whatever else the selection
/// holds.
pub proof fn law_exclusion_wins(selection: Seq<char>, name: Seq<char>, i: int)
    requires
        0 <= i < selection_parts(text::lines(selection)).len(),
        vote(selection_parts(text::lines(selection))[i], name) == Vote::Excludes,
    ensures
        !takes(selection, name),
{
}

/// A pattern without `*` matches its own name and no other.
pub proof fn law_plain_pattern_names_one(pattern: Seq<char>, name: Seq<char>)
    requires
        !pattern.contains('*'),
    ensures
        matches(pattern, name) <==> pattern == name,
    decreases pattern.len(),
{
    if pattern.len() > 0 {
        assert(pattern.contains(pattern[0]));
        assert forall|k: int| 0 <= k < pattern.skip(1).len() implies #[trigger] pattern.skip(1)[k]
            != '*' by {
            assert(pattern.contains(pattern[k + 1]));
        }
        if name.len() > 0 {
            law_plain_pattern_names_one(pattern.skip(1), name.skip(1));
            assert(pattern =~= seq![pattern[0]] + pattern.skip(1));
            assert(name =~= seq![name[0]] + name.skip(1));
        }
    } else {
        assert(name.len() == 0 ==> pattern =~= name);
    }
}

/// The pattern `*` after a beginning matches exactly the names with that beginning.
pub proof fn law_star_matches_any_run(head: Seq<char>, name: Seq<char>)
    requires
        !head.contains('*'),
    ensures
        matches(head.push('*'), name) <==> head.len() <= name.len() && name.take(
            head.len() as int,
        ) == head,
    decreases head.len(),
{
    let pattern = head.push('*');
    if head.len() == 0 {
        assert(name.take(0) =~= head);
        lemma_star(pattern, name);
    } else {
        assert(head.contains(head[0]));
        assert(pattern.skip(1) =~= head.skip(1).push('*'));
        assert forall|k: int| 0 <= k < head.skip(1).len() implies #[trigger] head.skip(1)[k]
            != '*' by {
            assert(head.contains(head[k + 1]));
        }
        if name.len() > 0 {
            law_star_matches_any_run(head.skip(1), name.skip(1));
            if head.len() <= name.len() {
                assert(name.take(head.len() as int) =~= seq![name[0]] + name.skip(1).take(
                    head.len() - 1,
                ));
                assert(head =~= seq![head[0]] + head.skip(1));
                if name.take(head.len() as int) == head {
                    assert(name.skip(1).take(head.len() - 1) =~= head.skip(1));
                    assert(name[0] == name.take(head.len() as int)[0]);
                }
            }
        }
    }
}

proof fn lemma_star(pattern: Seq<char>, name: Seq<char>)
    requires
        pattern.len() == 1,
        pattern[0] == '*',
    ensures
        matches(pattern, name),
    decreases name.len(),
{
    reveal_with_fuel(matches, 2);
    assert(pattern.skip(1).len() == 0);
    if name.len() > 0 {
        lemma_star(pattern, name.skip(1));
    }
}

} // verus!
