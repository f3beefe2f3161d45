//! What does not count in a file that declares a contract: blank lines, and
//! comments on lines of their own or behind a field.

use vstd::prelude::*;

use crate::text;
use crate::textproto;
use crate::textproto::{BlockView, TextFile};

verus! {

/// The lines that count, each without its comment and the white space around it.
pub open spec fn counting(all: Seq<Seq<char>>) -> Seq<Seq<char>>
    decreases all.len(),
{
    if all.len() == 0 {
        Seq::empty()
    } else {
        let before = counting(all.drop_last());
        let line = textproto::content(all.last());
        if line.len() == 0 {
            before
        } else {
            before.push(line)
        }
    }
}

proof fn lemma_counting_concat(a: Seq<Seq<char>>, b: Seq<Seq<char>>)
    ensures
        counting(a + b) == counting(a) + counting(b),
    decreases b.len(),
{
    if b.len() == 0 {
        assert(a + b =~= a);
        assert(counting(a) + counting(b) =~= counting(a));
    } else {
        assert((a + b).drop_last() =~= a + b.drop_last());
        assert((a + b).last() == b.last());
        lemma_counting_concat(a, b.drop_last());
        assert(counting(a + b) =~= counting(a) + counting(b));
    }
}

proof fn lemma_counting_one(line: Seq<char>)
    ensures
        counting(seq![line]) == if textproto::content(line).len() == 0 {
            Seq::empty()
        } else {
            seq![textproto::content(line)]
        },
{
    let one = seq![line];
    assert(one.drop_last() =~= Seq::empty());
    assert(counting(one.drop_last()).len() == 0);
    assert(counting(one) =~= if textproto::content(line).len() == 0 {
        Seq::empty()
    } else {
        seq![textproto::content(line)]
    });
}

spec fn all_white(s: Seq<char>) -> bool {
    forall|k: int| 0 <= k < s.len() ==> text::is_white(#[trigger] s[k])
}

proof fn lemma_trim_start_white(s: Seq<char>)
    ensures
        text::trim_start(s).len() == 0 <==> all_white(s),
    decreases s.len(),
{
    if s.len() > 0 && text::is_white(s[0]) {
        lemma_trim_start_white(s.skip(1));
        if all_white(s.skip(1)) {
            assert forall|k: int| 0 <= k < s.len() implies text::is_white(#[trigger] s[k]) by {
                if k > 0 {
                    assert(s[k] == s.skip(1)[k - 1]);
                }
            }
        }
        if all_white(s) {
            assert forall|k: int| 0 <= k < s.skip(1).len() implies text::is_white(
                #[trigger] s.skip(1)[k],
            ) by {
                assert(s.skip(1)[k] == s[k + 1]);
            }
        }
    } else if s.len() > 0 {
        assert(!text::is_white(s[0]));
    }
}

proof fn lemma_trim_start_append(x: Seq<char>, w: Seq<char>)
    requires
        !all_white(x),
    ensures
        text::trim_start(x + w) == text::trim_start(x) + w,
    decreases x.len(),
{
    assert(x.len() > 0);
    assert((x + w)[0] == x[0]);
    if text::is_white(x[0]) {
        assert((x + w).skip(1) =~= x.skip(1) + w);
        let k = choose|k: int| 0 <= k < x.len() && !text::is_white(#[trigger] x[k]);
        assert(x.skip(1)[k - 1] == x[k]);
        lemma_trim_start_append(x.skip(1), w);
    }
}

proof fn lemma_trim_end_append(x: Seq<char>, w: Seq<char>)
    requires
        all_white(w),
    ensures
        text::trim_end(x + w) == text::trim_end(x),
    decreases w.len(),
{
    if w.len() == 0 {
        assert(x + w =~= x);
    } else {
        assert((x + w).last() == w.last());
        assert(text::is_white(w[w.len() - 1]));
        assert((x + w).drop_last() =~= x + w.drop_last());
        lemma_trim_end_append(x, w.drop_last());
    }
}

proof fn lemma_trim_empty(s: Seq<char>)
    requires
        text::trim(s).len() == 0,
    ensures
        all_white(s),
{
    let t = text::trim_start(s);
    text::lemma_trim_start(s);
    if t.len() > 0 {
        lemma_trim_end_keeps(t);
    }
    lemma_trim_start_white(s);
}

proof fn lemma_trim_end_keeps(s: Seq<char>)
    requires
        s.len() > 0,
        !text::is_white(s[0]),
    ensures
        text::trim_end(s).len() > 0,
    decreases s.len(),
{
    if text::is_white(s.last()) {
        assert(s.len() > 1);
        lemma_trim_end_keeps(s.drop_last());
    }
}

proof fn lemma_trim_append(x: Seq<char>, w: Seq<char>)
    requires
        all_white(w),
    ensures
        text::trim(x + w) == text::trim(x),
{
    lemma_trim_start_white(x);
    lemma_trim_start_white(x + w);
    if all_white(x) {
        assert(all_white(x + w));
        assert(text::trim_start(x + w) =~= text::trim_start(x));
    } else {
        lemma_trim_start_append(x, w);
        lemma_trim_end_append(text::trim_start(x), w);
    }
}

/// What is put behind a line without counting leaves what counts in it.
proof fn lemma_content_append(x: Seq<char>, blank: Seq<char>)
    requires
        textproto::content(blank).len() == 0,
    ensures
        textproto::content(x + blank) == textproto::content(x),
{
    let i = text::find(x, '#');
    let n = text::find(blank, '#');
    text::lemma_find(x, '#');
    text::lemma_find(blank, '#');
    if i < x.len() {
        text::lemma_find_is(x + blank, '#', i);
        assert((x + blank).take(i as int) =~= x.take(i as int));
    } else {
        let w = blank.take(n as int);
        assert forall|k: int| 0 <= k < x.len() + n implies (x + blank)[k] != '#' by {
            if k >= x.len() {
                assert((x + blank)[k] == blank[k - x.len()]);
            }
        }
        text::lemma_find_is(x + blank, '#', x.len() + n);
        assert((x + blank).take((x.len() + n) as int) =~= x + w);
        assert(x.take(i as int) =~= x);
        lemma_trim_empty(w);
        lemma_trim_append(x, w);
    }
}

proof fn lemma_return_is_blank()
    ensures
        textproto::content(seq!['\r']).len() == 0,
{
    let r = seq!['\r'];
    text::lemma_find_is(r, '#', 1);
    assert(r.take(1) =~= r);
    assert(all_white(r));
    lemma_trim_start_white(r);
}

proof fn lemma_content_strip(x: Seq<char>)
    ensures
        textproto::content(text::strip_return(x)) == textproto::content(x),
{
    if text::strip_return(x) != x {
        assert(x =~= x.drop_last() + seq!['\r']);
        lemma_return_is_blank();
        lemma_content_append(x.drop_last(), seq!['\r']);
    }
}

proof fn lemma_lines_concat(head: Seq<char>, tail: Seq<char>)
    requires
        head.len() == 0 || head.last() == '\n',
    ensures
        text::lines(head + tail) == text::lines(head) + text::lines(tail),
    decreases head.len(),
{
    if head.len() == 0 {
        assert(head + tail =~= tail);
        assert(text::lines(head) + text::lines(tail) =~= text::lines(tail));
    } else {
        let i = text::find(head, '\n');
        text::lemma_find(head, '\n');
        if i >= head.len() {
            assert(head[head.len() - 1] == '\n');
        }
        text::lemma_find_is(head + tail, '\n', i);
        assert((head + tail).take(i as int) =~= head.take(i as int));
        let rest = head.skip(i as int + 1);
        assert((head + tail).skip(i as int + 1) =~= rest + tail);
        if rest.len() > 0 {
            assert(rest.last() == head.last());
        }
        lemma_lines_concat(rest, tail);
        assert(text::lines(head + tail) =~= text::lines(head) + text::lines(tail));
    }
}

/// What follows the line feed that a text begins with.
spec fn after_feed(rest: Seq<char>) -> Seq<char> {
    if rest.len() == 0 {
        rest
    } else {
        rest.skip(1)
    }
}

/// The lines that count of a text whose first line is `line`, which ends where
/// `rest` begins.
proof fn lemma_counting_first(line: Seq<char>, rest: Seq<char>)
    requires
        !line.contains('\n'),
        rest.len() == 0 || rest[0] == '\n',
    ensures
        counting(text::lines(line + rest)) == counting(seq![line]) + counting(
            text::lines(after_feed(rest)),
        ),
{
    assert forall|k: int| 0 <= k < line.len() implies #[trigger] line[k] != '\n' by {
        assert(line.contains(line[k]));
    }
    lemma_counting_one(line);
    if rest.len() == 0 {
        assert(line + rest =~= line);
        assert(counting(text::lines(after_feed(rest))).len() == 0);
        if line.len() == 0 {
            lemma_blank_is_empty();
            assert(line =~= Seq::empty());
            assert(counting(text::lines(line)) =~= counting(seq![line]) + counting(
                text::lines(after_feed(rest)),
            ));
        } else {
            text::lemma_find_is(line, '\n', line.len());
            assert(counting(seq![line]) + counting(text::lines(after_feed(rest))) =~= counting(
                seq![line],
            ));
        }
    } else {
        let s = line + rest;
        text::lemma_find_is(s, '\n', line.len());
        assert(s.take(line.len() as int) =~= line);
        assert(s.skip(line.len() as int + 1) =~= after_feed(rest));
        let stripped = text::strip_return(line);
        lemma_content_strip(line);
        lemma_counting_one(stripped);
        lemma_counting_concat(seq![stripped], text::lines(after_feed(rest)));
    }
}

proof fn lemma_blank_is_empty()
    ensures
        textproto::content(Seq::empty()).len() == 0,
{
    let none = Seq::<char>::empty();
    assert(none.take(0) =~= none);
}

proof fn lemma_flat_same(
    a: Seq<Seq<char>>,
    b: Seq<Seq<char>>,
    path: Seq<char>,
    other: Seq<char>,
    typed: bool,
)
    requires
        counting(a) == counting(b),
        textproto::flat_lines(a, path, typed) is Ok,
    ensures
        textproto::flat_lines(b, other, typed) == textproto::flat_lines(a, path, typed),
    decreases a.len() + b.len(),
{
    if a.len() > 0 && textproto::content(a.last()).len() == 0 {
        lemma_flat_same(a.drop_last(), b, path, other, typed);
    } else if b.len() > 0 && textproto::content(b.last()).len() == 0 {
        lemma_flat_same(a, b.drop_last(), path, other, typed);
    } else if a.len() > 0 {
        lemma_same_last(a, b);
        lemma_flat_same(a.drop_last(), b.drop_last(), path, other, typed);
    } else if b.len() > 0 {
        assert(counting(b).len() > 0);
    }
}

/// Lists whose last lines count have the same last line that counts, and the same
/// before it.
proof fn lemma_same_last(a: Seq<Seq<char>>, b: Seq<Seq<char>>)
    requires
        counting(a) == counting(b),
        a.len() > 0,
        textproto::content(a.last()).len() > 0,
        b.len() > 0 ==> textproto::content(b.last()).len() > 0,
    ensures
        b.len() > 0,
        textproto::content(a.last()) == textproto::content(b.last()),
        counting(a.drop_last()) == counting(b.drop_last()),
{
    assert(counting(a).len() > 0);
    assert(counting(a).last() == textproto::content(a.last()));
    assert(counting(b).last() == textproto::content(b.last()));
    assert(counting(a).drop_last() =~= counting(a.drop_last()));
    assert(counting(b).drop_last() =~= counting(b.drop_last()));
}

proof fn lemma_inline_same(before: BlockView, body: Seq<char>, raw: Seq<char>, other: Seq<char>)
    ensures
        textproto::block_inline(before, body, other) == textproto::block_inline(before, body, raw),
    decreases body.len(),
{
    let rest = text::trim_start(body);
    let colon = text::find(rest, ':');
    text::lemma_trim_start(body);
    text::lemma_find(rest, ':');
    if rest.len() > 0 && rest[0] != '}' && colon < rest.len() {
        let after = text::trim_start(rest.skip(colon as int + 1));
        let n = textproto::value_len(after);
        text::lemma_trim_start(rest.skip(colon as int + 1));
        textproto::lemma_value_len(after);
        let field = text::trim(rest.take(colon as int));
        if let Ok(next) = textproto::block_field(before, field, after.take(n as int), raw) {
            lemma_inline_same(next, after.skip(n as int), raw, other);
        }
    }
}

proof fn lemma_block_same(a: Seq<Seq<char>>, b: Seq<Seq<char>>)
    requires
        counting(a) == counting(b),
        textproto::block_lines(a) is Ok,
    ensures
        textproto::block_lines(b) == textproto::block_lines(a),
    decreases a.len() + b.len(),
{
    if a.len() > 0 && textproto::content(a.last()).len() == 0 {
        lemma_block_same(a.drop_last(), b);
    } else if b.len() > 0 && textproto::content(b.last()).len() == 0 {
        lemma_block_same(a, b.drop_last());
    } else if a.len() > 0 {
        lemma_same_last(a, b);
        lemma_block_same(a.drop_last(), b.drop_last());
        let before = textproto::block_lines(a.drop_last())->Ok_0;
        if let Some((is_input, body)) = textproto::opening(textproto::content(a.last())) {
            lemma_inline_same(
                textproto::block_opened(before, is_input),
                body,
                a.last(),
                b.last(),
            );
        }
    } else if b.len() > 0 {
        assert(counting(b).len() > 0);
    }
}

proof fn lemma_opening_counts(all: Seq<Seq<char>>)
    ensures
        (exists|i: int|
            0 <= i < all.len() && textproto::opening(
                textproto::content(#[trigger] all[i]),
            ) is Some) <==> (exists|k: int|
            0 <= k < counting(all).len() && textproto::opening(
                #[trigger] counting(all)[k],
            ) is Some),
    decreases all.len(),
{
    reveal_strlit("input");
    reveal_strlit("output");
    if all.len() > 0 {
        let before = all.drop_last();
        let line = textproto::content(all.last());
        lemma_opening_counts(before);
        if exists|i: int|
            0 <= i < all.len() && textproto::opening(
                textproto::content(#[trigger] all[i]),
            ) is Some {
            let i = choose|i: int|
                0 <= i < all.len() && textproto::opening(
                    textproto::content(#[trigger] all[i]),
                ) is Some;
            if i < before.len() {
                assert(before[i] == all[i]);
                let k = choose|k: int|
                    0 <= k < counting(before).len() && textproto::opening(
                        #[trigger] counting(before)[k],
                    ) is Some;
                assert(counting(all)[k] == counting(before)[k]);
            } else {
                assert(line.len() > 0);
                assert(counting(all)[counting(before).len() as int] == line);
            }
        }
        if exists|k: int|
            0 <= k < counting(all).len() && textproto::opening(#[trigger] counting(all)[k]) is Some {
            let k = choose|k: int|
                0 <= k < counting(all).len() && textproto::opening(
                    #[trigger] counting(all)[k],
                ) is Some;
            if k < counting(before).len() {
                assert(counting(before)[k] == counting(all)[k]);
                let i = choose|i: int|
                    0 <= i < before.len() && textproto::opening(
                        textproto::content(#[trigger] before[i]),
                    ) is Some;
                assert(all[i] == before[i]);
            } else {
                assert(all[all.len() - 1] == all.last());
            }
        }
    }
}

/// A file declares what its lines that count declare: another file with the same
/// lines that count declares the same contract.
pub proof fn law_only_counting_lines_declare(file: TextFile, other: TextFile)
    requires
        file.contents is Ok,
        other.contents is Ok,
        counting(text::lines(file.contents->Ok_0@)) == counting(
            text::lines(other.contents->Ok_0@),
        ),
        file.declares() is Ok,
    ensures
        other.declares() == file.declares(),
{
    let a = text::lines(file.contents->Ok_0@);
    let b = text::lines(other.contents->Ok_0@);
    lemma_opening_counts(a);
    lemma_opening_counts(b);
    if textproto::is_block_form(file.contents->Ok_0@) {
        lemma_block_same(a, b);
    } else {
        lemma_flat_same(a, b, file.path@, other.path@, true);
    }
}

/// A blank line, or a line with only a comment, that is put between two lines of
/// a file leaves the lines that count, and with them the contract that the file
/// declares.
pub proof fn law_comment_lines_do_not_count(
    file: TextFile,
    other: TextFile,
    above: Seq<char>,
    blank: Seq<char>,
    below: Seq<char>,
)
    requires
        above.len() == 0 || above.last() == '\n',
        !blank.contains('\n'),
        textproto::content(blank).len() == 0,
        file.contents matches Ok(text) && text@ == above + below,
        other.contents matches Ok(text) && text@ == above + blank + seq!['\n'] + below,
    ensures
        counting(text::lines(other.contents->Ok_0@)) == counting(
            text::lines(file.contents->Ok_0@),
        ),
        file.declares() matches Ok(contract) ==> other.declares() == file.declares(),
{
    let rest = seq!['\n'] + below;
    let with = above + blank + seq!['\n'] + below;
    assert(with =~= above + (blank + rest));
    lemma_lines_concat(above, below);
    lemma_lines_concat(above, blank + rest);
    lemma_counting_concat(text::lines(above), text::lines(below));
    lemma_counting_concat(text::lines(above), text::lines(blank + rest));
    lemma_counting_first(blank, rest);
    lemma_counting_one(blank);
    assert(after_feed(rest) =~= below);
    assert(counting(seq![blank]) + counting(text::lines(below)) =~= counting(text::lines(below)));
    if file.declares() is Ok {
        law_only_counting_lines_declare(file, other);
    }
}

/// Whether a text begins with the end of a line: it is at its own end, or there is
/// a line feed, with or without a carriage return before it.
pub open spec fn at_line_end(s: Seq<char>) -> bool {
    ||| s.len() == 0
    ||| s[0] == '\n'
    ||| s.len() > 1 && s[0] == '\r' && s[1] == '\n'
}

/// How many characters stand before the last line of a text, which has no line
/// feed.
spec fn last_line(s: Seq<char>) -> int
    decreases s.len(),
{
    if s.len() == 0 || s.last() == '\n' {
        s.len() as int
    } else {
        last_line(s.drop_last())
    }
}

proof fn lemma_last_line(s: Seq<char>)
    ensures
        0 <= last_line(s) <= s.len(),
        last_line(s) > 0 ==> s[last_line(s) - 1] == '\n',
        forall|k: int| last_line(s) <= k < s.len() ==> s[k] != '\n',
    decreases s.len(),
{
    if s.len() > 0 && s.last() != '\n' {
        lemma_last_line(s.drop_last());
        assert forall|k: int| last_line(s) <= k < s.len() implies s[k] != '\n' by {
            if k < s.len() - 1 {
                assert(s[k] == s.drop_last()[k]);
            }
        }
    }
}

/// The lines that count of a text with a line at a known place.
proof fn lemma_counting_at(above: Seq<char>, line: Seq<char>, rest: Seq<char>)
    requires
        above.len() == 0 || above.last() == '\n',
        !line.contains('\n'),
        rest.len() == 0 || rest[0] == '\n',
    ensures
        counting(text::lines(above + (line + rest))) == counting(text::lines(above)) + (counting(
            seq![line],
        ) + counting(text::lines(after_feed(rest)))),
{
    lemma_counting_first(line, rest);
    lemma_lines_concat(above, line + rest);
    lemma_counting_concat(text::lines(above), text::lines(line + rest));
}

proof fn lemma_same_count(a: Seq<char>, b: Seq<char>)
    requires
        textproto::content(a) == textproto::content(b),
    ensures
        counting(seq![a]) == counting(seq![b]),
{
    lemma_counting_one(a);
    lemma_counting_one(b);
}

proof fn lemma_no_feed(line: Seq<char>, comment: Seq<char>, end: Seq<char>)
    requires
        !line.contains('\n'),
        !comment.contains('\n'),
        !end.contains('\n'),
    ensures
        !(line + end).contains('\n'),
        !(line + comment + end).contains('\n'),
{
    let plain = line + end;
    let commented = line + comment + end;
    assert forall|k: int| 0 <= k < plain.len() implies #[trigger] plain[k] != '\n' by {
        if k < line.len() {
            assert(line.contains(line[k]));
        } else {
            assert(end.contains(end[k - line.len()]));
        }
    }
    assert forall|k: int| 0 <= k < commented.len() implies #[trigger] commented[k] != '\n' by {
        if k < line.len() {
            assert(line.contains(line[k]));
        } else if k < line.len() + comment.len() {
            assert(comment.contains(comment[k - line.len()]));
        } else {
            assert(end.contains(end[k - line.len() - comment.len()]));
        }
    }
}

proof fn lemma_counting_commented(before: Seq<char>, comment: Seq<char>, after: Seq<char>)
    requires
        at_line_end(after),
        !comment.contains('\n'),
        textproto::content(comment).len() == 0,
    ensures
        counting(text::lines(before + comment + after)) == counting(text::lines(before + after)),
{
    let n = last_line(before);
    lemma_last_line(before);
    let above = before.take(n);
    let line = before.skip(n);
    assert(!line.contains('\n')) by {
        assert forall|k: int| 0 <= k < line.len() implies #[trigger] line[k] != '\n' by {
            assert(line[k] == before[n + k]);
        }
    }
    assert(above.len() == 0 || above.last() == '\n') by {
        if n > 0 {
            assert(above.last() == before[n - 1]);
        }
    }
    let returned = after.len() > 0 && after[0] == '\r';
    let end = if returned {
        seq!['\r']
    } else {
        Seq::empty()
    };
    let rest = if returned {
        after.skip(1)
    } else {
        after
    };
    assert(before + after =~= above + ((line + end) + rest));
    assert(before + comment + after =~= above + ((line + comment + end) + rest));
    lemma_no_feed(line, comment, end);
    lemma_return_is_blank();
    lemma_blank_is_empty();
    lemma_content_append(line, end);
    lemma_content_append(line, comment);
    lemma_content_append(line + comment, end);
    lemma_same_count(line + end, line + comment + end);
    lemma_counting_at(above, line + end, rest);
    lemma_counting_at(above, line + comment + end, rest);
}

/// A comment, with white space before it or not, that is put behind a line of a
/// file leaves the lines that count, and with them the contract that the file
/// declares.
pub proof fn law_comments_behind_fields_do_not_count(
    file: TextFile,
    other: TextFile,
    before: Seq<char>,
    comment: Seq<char>,
    after: Seq<char>,
)
    requires
        at_line_end(after),
        !comment.contains('\n'),
        textproto::content(comment).len() == 0,
        file.contents matches Ok(text) && text@ == before + after,
        other.contents matches Ok(text) && text@ == before + comment + after,
    ensures
        counting(text::lines(other.contents->Ok_0@)) == counting(
            text::lines(file.contents->Ok_0@),
        ),
        file.declares() matches Ok(contract) ==> other.declares() == file.declares(),
{
    lemma_counting_commented(before, comment, after);
    if file.declares() is Ok {
        law_only_counting_lines_declare(file, other);
    }
}

/// Whether the second list of lines is the first with any number of blank lines
/// and comment lines put in, and comments put behind any of its lines.
pub open spec fn commented(plain: Seq<Seq<char>>, all: Seq<Seq<char>>) -> bool
    decreases all.len(),
{
    if all.len() == 0 {
        plain.len() == 0
    } else {
        ||| textproto::content(all.last()).len() == 0 && commented(plain, all.drop_last())
        ||| {
            &&& plain.len() > 0
            &&& text::begins_with(all.last(), plain.last())
            &&& textproto::content(all.last().skip(plain.last().len() as int)).len() == 0
            &&& commented(plain.drop_last(), all.drop_last())
        }
    }
}

proof fn lemma_commented(plain: Seq<Seq<char>>, all: Seq<Seq<char>>)
    requires
        commented(plain, all),
    ensures
        counting(all) == counting(plain),
    decreases all.len(),
{
    if all.len() > 0 {
        if textproto::content(all.last()).len() == 0 && commented(plain, all.drop_last()) {
            lemma_commented(plain, all.drop_last());
        } else {
            lemma_commented(plain.drop_last(), all.drop_last());
            let line = plain.last();
            let comment = all.last().skip(line.len() as int);
            assert(all.last() =~= line + comment);
            lemma_content_append(line, comment);
        }
    }
}

/// Comments and blank lines never change a contract: a file that declares one
/// still declares it with any number of blank lines and comment lines put between
/// its lines, and comments put behind them.
pub proof fn law_comments_never_change_a_contract(file: TextFile, other: TextFile)
    requires
        file.contents is Ok,
        other.contents is Ok,
        commented(text::lines(file.contents->Ok_0@), text::lines(other.contents->Ok_0@)),
        file.declares() is Ok,
    ensures
        other.declares() == file.declares(),
{
    lemma_commented(text::lines(file.contents->Ok_0@), text::lines(other.contents->Ok_0@));
    law_only_counting_lines_declare(file, other);
}

} // verus!
