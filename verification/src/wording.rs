//! What the readers of plain text find in it, in terms of the text's own characters:
//! where trimmed text begins and ends, which pieces and lines a text is made of, and
//! which number its digits write.

use vstd::prelude::*;

use crate::number;
use crate::number::IntFault;
use crate::text;

verus! {

/// Whether `part` is what stands in `s` from `from` up to `to`, with nothing but
/// white space around it and none at its own ends.
pub open spec fn trims_to(s: Seq<char>, part: Seq<char>, from: int, to: int) -> bool {
    &&& 0 <= from <= to <= s.len()
    &&& part == s.subrange(from, to)
    &&& forall|i: int| 0 <= i < from ==> text::is_white(#[trigger] s[i])
    &&& forall|i: int| to <= i < s.len() ==> text::is_white(#[trigger] s[i])
    &&& part.len() > 0 ==> !text::is_white(part[0]) && !text::is_white(part.last())
}

/// Among the characters of ASCII the space and those from the tab to the carriage
/// return are white, and no others.
pub proof fn law_white_space(c: char)
    requires
        (c as u32) < 128,
    ensures
        text::is_white(c) <==> c == ' ' || '\t' <= c <= '\r',
{
}

proof fn lemma_trim_start_at(s: Seq<char>) -> (from: int)
    ensures
        0 <= from <= s.len(),
        text::trim_start(s) == s.subrange(from, s.len() as int),
        forall|i: int| 0 <= i < from ==> text::is_white(#[trigger] s[i]),
        from < s.len() ==> !text::is_white(s[from]),
    decreases s.len(),
{
    if s.len() > 0 && text::is_white(s[0]) {
        let rest = s.skip(1);
        let from = lemma_trim_start_at(rest) + 1;
        assert(rest.subrange(from - 1, rest.len() as int) =~= s.subrange(from, s.len() as int));
        assert forall|i: int| 0 <= i < from implies text::is_white(#[trigger] s[i]) by {
            if i > 0 {
                assert(text::is_white(rest[i - 1]));
            }
        }
        from
    } else {
        assert(s.subrange(0, s.len() as int) =~= s);
        0
    }
}

proof fn lemma_trim_end_at(s: Seq<char>) -> (to: int)
    ensures
        0 <= to <= s.len(),
        text::trim_end(s) == s.subrange(0, to),
        forall|i: int| to <= i < s.len() ==> text::is_white(#[trigger] s[i]),
        to > 0 ==> !text::is_white(s[to - 1]),
    decreases s.len(),
{
    if s.len() > 0 && text::is_white(s.last()) {
        let rest = s.drop_last();
        let to = lemma_trim_end_at(rest);
        assert(rest.subrange(0, to) =~= s.subrange(0, to));
        assert forall|i: int| to <= i < s.len() implies text::is_white(#[trigger] s[i]) by {
            if i < rest.len() {
                assert(text::is_white(rest[i]));
            }
        }
        to
    } else {
        assert(s.subrange(0, s.len() as int) =~= s);
        s.len() as int
    }
}

/// Trimmed text is a part of the text, with nothing but white space around it and
/// none at its own ends.
pub proof fn law_trimmed(s: Seq<char>)
    ensures
        exists|from: int, to: int| #[trigger] trims_to(s, text::trim(s), from, to),
{
    let from = lemma_trim_start_at(s);
    let t = text::trim_start(s);
    let to = lemma_trim_end_at(t);
    assert(t.subrange(0, to) =~= s.subrange(from, from + to));
    assert forall|i: int| from + to <= i < s.len() implies text::is_white(#[trigger] s[i]) by {
        assert(text::is_white(t[i - from]));
    }
    if to > 0 {
        assert(t[0] == s[from]);
        assert(t[to - 1] == s[from + to - 1]);
    }
    assert(trims_to(s, text::trim(s), from, from + to));
}

/// There is one way to trim a text.
pub proof fn law_trimmed_once(s: Seq<char>, part: Seq<char>, from: int, to: int)
    requires
        trims_to(s, part, from, to),
    ensures
        text::trim(s) == part,
{
    law_trimmed(s);
    let (a, b) = choose|a: int, b: int| #[trigger] trims_to(s, text::trim(s), a, b);
    let t = text::trim(s);
    if from < to && a < b {
        assert(part[0] == s[from]);
        assert(part.last() == s[to - 1]);
        assert(t[0] == s[a]);
        assert(t.last() == s[b - 1]);
        if from < a {
            assert(text::is_white(s[from]));
        }
        if a < from {
            assert(text::is_white(s[a]));
        }
        if to > b {
            assert(text::is_white(s[to - 1]));
        }
        if b > to {
            assert(text::is_white(s[b - 1]));
        }
    } else if from < to {
        assert(part[0] == s[from]);
        if from < a {
            assert(text::is_white(s[from]));
        } else {
            assert(text::is_white(s[from]));
        }
    } else if a < b {
        assert(t[0] == s[a]);
        if a < from {
            assert(text::is_white(s[a]));
        } else {
            assert(text::is_white(s[a]));
        }
    } else {
        assert(part =~= t);
    }
}

/// Pieces with a separator between each two neighbours.
pub open spec fn strung(parts: Seq<Seq<char>>, c: char) -> Seq<char>
    decreases parts.len(),
{
    if parts.len() == 0 {
        Seq::empty()
    } else if parts.len() == 1 {
        parts[0]
    } else {
        parts[0].push(c) + strung(parts.skip(1), c)
    }
}

/// Whether a character stands nowhere in a text.
pub open spec fn lacks(s: Seq<char>, c: char) -> bool {
    forall|i: int| 0 <= i < s.len() ==> #[trigger] s[i] != c
}

/// The pieces of a text hold no separator, and with a separator between each two of
/// them they are the text.
pub proof fn law_split(s: Seq<char>, c: char)
    ensures
        text::split(s, c).len() > 0,
        strung(text::split(s, c), c) == s,
        forall|i: int| 0 <= i < text::split(s, c).len() ==> lacks(#[trigger] text::split(s, c)[i], c),
    decreases s.len(),
{
    text::lemma_find(s, c);
    let i = text::find(s, c) as int;
    let all = text::split(s, c);
    if i < s.len() {
        let rest = s.skip(i + 1);
        law_split(rest, c);
        let below = text::split(rest, c);
        assert(all.skip(1) =~= below);
        assert(all[0] == s.take(i));
        assert(s.take(i).push(c) + rest =~= s);
        assert forall|k: int| 0 <= k < all.len() implies lacks(#[trigger] all[k], c) by {
            if k > 0 {
                assert(all[k] == below[k - 1]);
            }
        }
    }
}

/// Lines, each with the ending that it has: a carriage return and a line feed where
/// the flag is set, else a line feed.
pub open spec fn written(lines: Seq<(Seq<char>, bool)>) -> Seq<char>
    decreases lines.len(),
{
    if lines.len() == 0 {
        Seq::empty()
    } else {
        let ending = if lines[0].1 {
            seq!['\r', '\n']
        } else {
            seq!['\n']
        };
        lines[0].0 + ending + written(lines.skip(1))
    }
}

/// Whether a line can be told from its ending: it holds no line feed, and where a
/// line feed alone ends it, no carriage return stands before that.
pub open spec fn tellable(line: (Seq<char>, bool)) -> bool {
    &&& lacks(line.0, '\n')
    &&& !line.1 && line.0.len() > 0 ==> line.0.last() != '\r'
}

/// The lines of a text are read as they were written, with either ending, and with a
/// last one that has none.
pub proof fn law_lines_read_back(lines: Seq<(Seq<char>, bool)>, last: Seq<char>)
    requires
        forall|i: int| 0 <= i < lines.len() ==> tellable(#[trigger] lines[i]),
        lacks(last, '\n'),
    ensures
        text::lines(written(lines) + last) == Seq::new(lines.len(), |i: int| lines[i].0)
            + if last.len() > 0 {
            seq![last]
        } else {
            Seq::empty()
        },
    decreases lines.len(),
{
    let whole = written(lines) + last;
    let expected = Seq::new(lines.len(), |i: int| lines[i].0) + if last.len() > 0 {
        seq![last]
    } else {
        Seq::empty()
    };
    if lines.len() == 0 {
        assert(whole =~= last);
        if last.len() > 0 {
            text::lemma_find(last, '\n');
        }
        assert(text::lines(whole) =~= expected);
    } else {
        let (line, both) = lines[0];
        assert(tellable(lines[0]));
        let rest = lines.skip(1);
        assert forall|i: int| 0 <= i < rest.len() implies tellable(#[trigger] rest[i]) by {
            assert(rest[i] == lines[i + 1]);
        }
        law_lines_read_back(rest, last);
        let ended: int = line.len() + if both {
            1int
        } else {
            0
        };
        assert(whole[ended] == '\n');
        assert forall|k: int| 0 <= k < ended implies whole[k] != '\n' by {
            if k < line.len() {
                assert(whole[k] == line[k]);
            }
        }
        text::lemma_find_is(whole, '\n', ended as nat);
        assert(whole.skip(ended + 1) =~= written(rest) + last);
        let head = whole.take(ended);
        if both {
            assert(head.last() == '\r');
            assert(head.drop_last() =~= line);
        } else {
            assert(head =~= line);
        }
        assert(text::strip_return(head) == line);
        assert(text::lines(whole) =~= seq![line] + text::lines(written(rest) + last));
        assert(text::lines(whole) =~= expected);
    }
}

/// Whether `part` is what stands in `s` from `from` up to `to`, with nothing but
/// quotes around it and none at its own ends.
pub open spec fn unquotes_to(s: Seq<char>, part: Seq<char>, from: int, to: int) -> bool {
    &&& 0 <= from <= to <= s.len()
    &&& part == s.subrange(from, to)
    &&& forall|i: int| 0 <= i < from ==> #[trigger] s[i] == '"'
    &&& forall|i: int| to <= i < s.len() ==> #[trigger] s[i] == '"'
    &&& part.len() > 0 ==> part[0] != '"' && part.last() != '"'
}

proof fn lemma_quotes_start_at(s: Seq<char>) -> (from: int)
    ensures
        0 <= from <= s.len(),
        text::strip_quotes_start(s) == s.subrange(from, s.len() as int),
        forall|i: int| 0 <= i < from ==> #[trigger] s[i] == '"',
        from < s.len() ==> s[from] != '"',
    decreases s.len(),
{
    if s.len() > 0 && s[0] == '"' {
        let rest = s.skip(1);
        let from = lemma_quotes_start_at(rest) + 1;
        assert(rest.subrange(from - 1, rest.len() as int) =~= s.subrange(from, s.len() as int));
        assert forall|i: int| 0 <= i < from implies #[trigger] s[i] == '"' by {
            if i > 0 {
                assert(rest[i - 1] == '"');
            }
        }
        from
    } else {
        assert(s.subrange(0, s.len() as int) =~= s);
        0
    }
}

proof fn lemma_quotes_end_at(s: Seq<char>) -> (to: int)
    ensures
        0 <= to <= s.len(),
        text::strip_quotes_end(s) == s.subrange(0, to),
        forall|i: int| to <= i < s.len() ==> #[trigger] s[i] == '"',
        to > 0 ==> s[to - 1] != '"',
    decreases s.len(),
{
    if s.len() > 0 && s.last() == '"' {
        let rest = s.drop_last();
        let to = lemma_quotes_end_at(rest);
        assert(rest.subrange(0, to) =~= s.subrange(0, to));
        assert forall|i: int| to <= i < s.len() implies #[trigger] s[i] == '"' by {
            if i < rest.len() {
                assert(rest[i] == '"');
            }
        }
        to
    } else {
        assert(s.subrange(0, s.len() as int) =~= s);
        s.len() as int
    }
}

/// Text without its quotes is a part of the text, with nothing but quotes around it
/// and none at its own ends.
pub proof fn law_unquoted(s: Seq<char>)
    ensures
        exists|from: int, to: int| #[trigger] unquotes_to(s, text::unquote(s), from, to),
{
    let from = lemma_quotes_start_at(s);
    let t = text::strip_quotes_start(s);
    let to = lemma_quotes_end_at(t);
    assert(t.subrange(0, to) =~= s.subrange(from, from + to));
    assert forall|i: int| from + to <= i < s.len() implies #[trigger] s[i] == '"' by {
        assert(t[i - from] == '"');
    }
    if to > 0 {
        assert(t[0] == s[from]);
        assert(t[to - 1] == s[from + to - 1]);
    }
    assert(unquotes_to(s, text::unquote(s), from, from + to));
}

/// A name in quotes is the name without them.
pub proof fn law_quoted_read_back(name: Seq<char>)
    requires
        name.len() > 0 ==> name[0] != '"' && name.last() != '"',
    ensures
        text::unquote(seq!['"'] + name + seq!['"']) == name,
        text::unquote(name) == name,
{
    let s = seq!['"'] + name + seq!['"'];
    let t = name + seq!['"'];
    reveal_with_fuel(text::strip_quotes_start, 3);
    reveal_with_fuel(text::strip_quotes_end, 3);
    assert(s.skip(1) =~= t);
    if name.len() > 0 {
        assert(t[0] == name[0]);
        assert(t.drop_last() =~= name);
    } else {
        assert(t.skip(1) =~= name);
    }
}

/// Whether a text is one or more decimal digits.
pub open spec fn is_digits(s: Seq<char>) -> bool {
    &&& s.len() > 0
    &&& forall|i: int| 0 <= i < s.len() ==> '0' <= #[trigger] s[i] <= '9'
}

/// The number that decimal digits write.
pub open spec fn value(s: Seq<char>) -> int
    decreases s.len(),
{
    if s.len() == 0 {
        0
    } else {
        10 * value(s.drop_last()) + (s.last() as int - '0' as int)
    }
}

/// Whether a text writes a number: in digits, behind a plus or a minus or neither.
pub open spec fn writes(s: Seq<char>, n: int) -> bool {
    ||| is_digits(s) && n == value(s)
    ||| s.len() > 0 && s[0] == '+' && is_digits(s.skip(1)) && n == value(s.skip(1))
    ||| s.len() > 0 && s[0] == '-' && is_digits(s.skip(1)) && n == -value(s.skip(1))
}

proof fn lemma_value_first(s: Seq<char>, n: int)
    requires
        s.len() > 0,
        forall|i: int| 0 <= i < s.len() ==> '0' <= #[trigger] s[i] <= '9',
    ensures
        value_on(s, n) == value_on(s.skip(1), 10 * n + (s[0] as int - '0' as int)),
    decreases s.len(),
{
    if s.len() == 1 {
        reveal_with_fuel(value_on, 2);
        assert(s.drop_last() =~= Seq::empty());
        assert(s.skip(1) =~= Seq::empty());
    } else {
        let front = s.drop_last();
        assert forall|i: int| 0 <= i < front.len() implies '0' <= #[trigger] front[i] <= '9' by {
            assert('0' <= s[i] <= '9');
        }
        lemma_value_first(front, n);
        assert(front.skip(1) =~= s.skip(1).drop_last());
        assert(s.skip(1).last() == s.last());
    }
}

spec fn value_on(s: Seq<char>, n: int) -> int
    decreases s.len(),
{
    if s.len() == 0 {
        n
    } else {
        10 * value_on(s.drop_last(), n) + (s.last() as int - '0' as int)
    }
}

proof fn lemma_value_on(s: Seq<char>)
    ensures
        value_on(s, 0) == value(s),
    decreases s.len(),
{
    if s.len() > 0 {
        lemma_value_on(s.drop_last());
    }
}

proof fn lemma_value_grows(s: Seq<char>, n: int)
    requires
        n >= 0,
        forall|i: int| 0 <= i < s.len() ==> '0' <= #[trigger] s[i] <= '9',
    ensures
        value_on(s, n) >= n,
    decreases s.len(),
{
    if s.len() > 0 {
        let front = s.drop_last();
        assert forall|i: int| 0 <= i < front.len() implies '0' <= #[trigger] front[i] <= '9' by {
            assert('0' <= s[i] <= '9');
        }
        lemma_value_grows(front, n);
    }
}

proof fn lemma_read(s: Seq<char>, acc: int, negative: bool, lo: int, hi: int)
    requires
        lo <= 0 <= hi,
        lo <= acc <= hi,
        negative ==> acc <= 0,
        !negative ==> acc >= 0,
    ensures
        ({
            let size = if negative {
                -acc
            } else {
                acc
            };
            let total = if negative {
                -value_on(s, size)
            } else {
                value_on(s, size)
            };
            let good = (s.len() > 0 ==> is_digits(s)) && lo <= total <= hi;
            &&& number::read_digits(s, acc, negative, lo, hi) is Ok <==> good
            &&& good ==> number::read_digits(s, acc, negative, lo, hi) == Ok::<int, IntFault>(
                total,
            )
        }),
    decreases s.len(),
{
    let size = if negative {
        -acc
    } else {
        acc
    };
    if s.len() > 0 {
        let rest = s.skip(1);
        if number::is_digit(s[0]) {
            let next = if negative {
                acc * 10 - number::digit_value(s[0])
            } else {
                acc * 10 + number::digit_value(s[0])
            };
            let next_size = if negative {
                -next
            } else {
                next
            };
            assert(is_digits(s) <==> rest.len() == 0 || is_digits(rest)) by {
                if is_digits(s) {
                    assert forall|i: int| 0 <= i < rest.len() implies '0' <= #[trigger] rest[i]
                        <= '9' by {
                        assert('0' <= s[i + 1] <= '9');
                    }
                }
                if rest.len() == 0 || is_digits(rest) {
                    assert forall|i: int| 0 <= i < s.len() implies '0' <= #[trigger] s[i] <= '9' by {
                        if i > 0 {
                            assert('0' <= rest[i - 1] <= '9');
                        }
                    }
                }
            }
            if is_digits(s) {
                lemma_value_first(s, size);
                lemma_value_grows(rest, next_size);
            }
            if lo <= next <= hi {
                lemma_read(rest, next, negative, lo, hi);
            }
        } else if is_digits(s) {
            assert('0' <= s[0] <= '9');
        }
    }
}

/// A text is read as a number within bounds exactly if it writes that number.
pub proof fn law_numbers(s: Seq<char>, lo: int, hi: int, n: int)
    requires
        lo < 0 <= hi,
    ensures
        number::parse_int(s, lo, hi) == Ok::<int, IntFault>(n) <==> writes(s, n) && lo <= n <= hi,
{
    if s.len() > 0 {
        let rest = s.skip(1);
        lemma_value_on(s);
        lemma_value_on(rest);
        lemma_read(s, 0, false, lo, hi);
        lemma_read(rest, 0, false, lo, hi);
        lemma_read(rest, 0, true, lo, hi);
        if is_digits(s) {
            assert('0' <= s[0] <= '9');
        }
    }
}

/// A text is read as a number that cannot be negative exactly if it writes that
/// number without a minus.
pub proof fn law_counts(s: Seq<char>, hi: int, n: int)
    requires
        0 <= hi,
    ensures
        number::parse_int(s, 0, hi) == Ok::<int, IntFault>(n) <==> writes(s, n) && n <= hi && s[0]
            != '-',
{
    if s.len() > 0 {
        let rest = s.skip(1);
        lemma_value_on(s);
        lemma_value_on(rest);
        lemma_read(s, 0, false, 0, hi);
        lemma_read(rest, 0, false, 0, hi);
        if is_digits(s) {
            assert('0' <= s[0] <= '9');
        }
        if is_digits(s) {
            lemma_value_grows(s, 0);
        }
        if is_digits(rest) {
            lemma_value_grows(rest, 0);
        }
        if s[0] == '-' {
            assert(!number::is_digit(s[0]));
        }
    }
}

/// The words of a text: each as long as it goes without white space, with nothing but
/// white space between them.
pub open spec fn words_at(s: Seq<char>, words: Seq<Seq<char>>, places: Seq<int>) -> bool {
    &&& places.len() == words.len()
    &&& forall|i: int|
        0 <= i < words.len() ==> {
            let from = #[trigger] places[i];
            let to = from + words[i].len();
            &&& 0 <= from < to <= s.len()
            &&& words[i] == s.subrange(from, to)
            &&& forall|k: int| from <= k < to ==> !text::is_white(#[trigger] s[k])
            &&& from > 0 ==> text::is_white(s[from - 1])
            &&& to < s.len() ==> text::is_white(s[to])
        }
    &&& forall|i: int, j: int| 0 <= i < j < places.len() ==> #[trigger] places[i] < #[trigger] places[j]
    &&& forall|k: int|
        0 <= k < s.len() && !text::is_white(#[trigger] s[k]) ==> exists|i: int|
            0 <= i < words.len() && #[trigger] places[i] <= k < places[i] + words[i].len()
}

proof fn lemma_word_ends(s: Seq<char>)
    ensures
        text::word_len(s) <= s.len(),
        forall|k: int| 0 <= k < text::word_len(s) ==> !text::is_white(#[trigger] s[k]),
        text::word_len(s) < s.len() ==> text::is_white(s[text::word_len(s) as int]),
    decreases s.len(),
{
    if s.len() > 0 && !text::is_white(s[0]) {
        let rest = s.skip(1);
        lemma_word_ends(rest);
        assert forall|k: int| 0 <= k < text::word_len(s) implies !text::is_white(#[trigger] s[k]) by {
            if k > 0 {
                assert(!text::is_white(rest[k - 1]));
            }
        }
    }
}

proof fn lemma_words_at(s: Seq<char>) -> (places: Seq<int>)
    ensures
        words_at(s, text::words(s), places),
    decreases s.len(),
{
    let from = lemma_trim_start_at(s);
    let t = text::trim_start(s);
    let all = text::words(s);
    if t.len() == 0 {
        assert forall|k: int| 0 <= k < s.len() && !text::is_white(#[trigger] s[k]) implies exists|
            i: int,
        |
            0 <= i < all.len() && #[trigger] Seq::<int>::empty()[i] <= k < Seq::<int>::empty()[i]
                + all[i].len() by {
            assert(text::is_white(s[k]));
        }
        Seq::empty()
    } else {
        let n = text::word_len(t) as int;
        lemma_word_ends(t);
        text::lemma_trim_start(s);
        text::lemma_word_len(t);
        let rest = t.skip(n);
        assert(rest =~= s.skip(from + n));
        let below = lemma_words_at(rest);
        let others = text::words(rest);
        assert(all =~= seq![t.take(n)] + others);
        let places = Seq::new(
            all.len(),
            |i: int|
                if i == 0 {
                    from
                } else {
                    below[i - 1] + from + n
                },
        );
        assert forall|i: int| 0 <= i < all.len() implies ({
            let at = #[trigger] places[i];
            let to = at + all[i].len();
            &&& 0 <= at < to <= s.len()
            &&& all[i] == s.subrange(at, to)
            &&& forall|k: int| at <= k < to ==> !text::is_white(#[trigger] s[k])
            &&& at > 0 ==> text::is_white(s[at - 1])
            &&& to < s.len() ==> text::is_white(s[to])
        }) by {
            if i == 0 {
                assert(all[0] =~= s.subrange(from, from + n));
                assert forall|k: int| from <= k < from + n implies !text::is_white(
                    #[trigger] s[k],
                ) by {
                    assert(!text::is_white(t[k - from]));
                }
                if from + n < s.len() {
                    assert(s[from + n] == t[n]);
                }
            } else {
                let at = below[i - 1];
                let to = at + others[i - 1].len();
                assert(all[i] == others[i - 1]);
                assert(rest.subrange(at, to) =~= s.subrange(at + from + n, to + from + n));
                assert forall|k: int|
                    at + from + n <= k < to + from + n implies !text::is_white(#[trigger] s[k]) by {
                    assert(!text::is_white(rest[k - from - n]));
                }
                if at > 0 {
                    assert(s[at + from + n - 1] == rest[at - 1]);
                } else {
                    assert(s[from + n] == rest[0]);
                    assert(t[n] == rest[0]);
                    assert(!text::is_white(s[at + from + n]));
                }
                if to + from + n < s.len() {
                    assert(s[to + from + n] == rest[to]);
                }
            }
        }
        assert forall|i: int, j: int| 0 <= i < j < places.len() implies #[trigger] places[i]
            < #[trigger] places[j] by {
            if i > 0 {
                assert(below[i - 1] < below[j - 1]);
            } else {
                assert(below[j - 1] >= 0);
            }
        }
        assert forall|k: int| 0 <= k < s.len() && !text::is_white(#[trigger] s[k]) implies exists|
            i: int,
        |
            0 <= i < all.len() && #[trigger] places[i] <= k < places[i] + all[i].len() by {
            if k < from {
                assert(text::is_white(s[k]));
            } else if k < from + n {
                assert(places[0] <= k < places[0] + all[0].len());
            } else {
                assert(!text::is_white(rest[k - from - n]));
                let i = choose|i: int|
                    0 <= i < others.len() && #[trigger] below[i] <= k - from - n < below[i]
                        + others[i].len();
                assert(all[i + 1] == others[i]);
                assert(places[i + 1] <= k < places[i + 1] + all[i + 1].len());
            }
        }
        places
    }
}

/// The words of a text are found in it in their order, each at its own place: as long
/// as it goes without white space, and with nothing but white space between them.
pub proof fn law_words(s: Seq<char>)
    ensures
        exists|places: Seq<int>| #[trigger] words_at(s, text::words(s), places),
{
    let places = lemma_words_at(s);
    assert(words_at(s, text::words(s), places));
}

proof fn lemma_digits_form(n: nat)
    ensures
        is_digits(number::digits(n)),
        value(number::digits(n)) == n,
        n > 0 ==> number::digits(n)[0] != '0',
        n == 0 ==> number::digits(n).len() == 1,
    decreases n,
{
    reveal_with_fuel(value, 2);
    let s = number::digits(n);
    if n >= 10 {
        let front = number::digits(n / 10);
        lemma_digits_form(n / 10);
        assert(s.drop_last() =~= front);
        assert forall|i: int| 0 <= i < s.len() implies '0' <= #[trigger] s[i] <= '9' by {
            if i < front.len() {
                assert('0' <= front[i] <= '9');
            }
        }
        assert(s[0] == front[0]);
    } else {
        assert(s.drop_last() =~= Seq::empty());
    }
}

/// A number is written in decimal digits, with no zero before them but for zero itself,
/// and behind a minus exactly if it is negative.
pub proof fn law_decimal_form(n: int)
    ensures
        writes(number::decimal(n), n),
        n >= 0 ==> is_digits(number::decimal(n)),
        n > 0 ==> number::decimal(n)[0] != '0',
        n == 0 ==> number::decimal(n).len() == 1,
        n < 0 ==> number::decimal(n) == seq!['-'] + number::decimal(-n),
{
    if n < 0 {
        lemma_digits_form((-n) as nat);
        assert(number::decimal(n).skip(1) =~= number::digits((-n) as nat));
    } else {
        lemma_digits_form(n as nat);
    }
}

/// Joined parts are the first part, the separator and the rest joined; one part is
/// itself, and none are nothing.
pub proof fn law_joined(parts: Seq<Seq<char>>, sep: Seq<char>)
    ensures
        parts.len() == 0 ==> text::join(parts, sep).len() == 0,
        parts.len() == 1 ==> text::join(parts, sep) == parts[0],
        parts.len() >= 2 ==> text::join(parts, sep) == parts[0] + sep + text::join(
            parts.skip(1),
            sep,
        ),
    decreases parts.len(),
{
    if parts.len() >= 2 {
        let front = parts.drop_last();
        law_joined(front, sep);
        let rest = parts.skip(1);
        assert(rest.last() == parts.last());
        if parts.len() == 2 {
            assert(text::join(front, sep) == front[0]);
            assert(text::join(rest, sep) == rest[0]);
        } else {
            assert(front.skip(1) =~= rest.drop_last());
            let middle = text::join(rest.drop_last(), sep);
            assert(parts[0] + sep + middle + sep + parts.last() =~= parts[0] + sep + (middle + sep
                + parts.last()));
        }
    }
}

} // verus!
