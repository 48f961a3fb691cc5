//! The lines of a log.
use vstd::prelude::*;
use crate::text::{chars_of, text_of};

verus! {

/// The place of the first line feed at or after `from`; the length where there is none.
pub open spec fn line_end(text: Seq<char>, from: int) -> int
    decreases text.len() - from,
{
    if 0 <= from < text.len() && text[from] != '\n' {
        line_end(text, from + 1)
    } else {
        from
    }
}

/// A line without the carriage return that may stand before its line feed.
pub open spec fn without_carriage_return(line: Seq<char>) -> Seq<char> {
    if line.len() > 0 && line.last() == '\r' {
        line.drop_last()
    } else {
        line
    }
}

/// What `line_end` finds: a line feed or the end of the text, with no line feed on the way.
proof fn lemma_line_end(text: Seq<char>, from: int)
    requires
        0 <= from <= text.len(),
    ensures
        from <= line_end(text, from) <= text.len(),
        forall|i: int| from <= i < line_end(text, from) ==> text[i] != '\n',
        line_end(text, from) < text.len() ==> text[line_end(text, from)] == '\n',
    decreases text.len() - from,
{
    if from < text.len() && text[from] != '\n' {
        lemma_line_end(text, from + 1);
    }
}

/// The lines of `text` from place `from` on. A line ends at a line feed, which does not
/// belong to it, nor does a carriage return right before it; the last line may lack its
/// line feed, and then keeps every character.
pub open spec fn lines_from(text: Seq<char>, from: int) -> Seq<Seq<char>>
    decreases text.len() - from,
{
    if 0 <= from < text.len() {
        let end = line_end(text, from);
        if from <= end < text.len() {
            seq![without_carriage_return(text.subrange(from, end))] + lines_from(text, end + 1)
        } else {
            seq![text.subrange(from, text.len() as int)]
        }
    } else {
        Seq::empty()
    }
}

/// The lines of `text`.
pub open spec fn lines(text: Seq<char>) -> Seq<Seq<char>> {
    lines_from(text, 0)
}

/// The texts of a list.
pub open spec fn texts(list: Seq<String>) -> Seq<Seq<char>> {
    list.map_values(|s: String| s@)
}

/// Splits a text into its lines.
pub fn split_lines(text: &str) -> (r: Vec<String>)
    ensures
        texts(r@) == lines(text@),
{
    let chars = chars_of(text);
    let mut r: Vec<String> = Vec::new();
    let mut from: usize = 0;
    let mut i: usize = 0;
    assert(texts(r@) + lines_from(text@, 0) =~= lines(text@));
    while i < chars.len()
        invariant
            chars@ == text@,
            from <= i <= chars@.len(),
            line_end(text@, from as int) == line_end(text@, i as int),
            texts(r@) + lines_from(text@, from as int) == lines(text@),
        decreases chars@.len() - i,
    {
        if chars[i] == '\n' {
            let ghost before = texts(r@);
            let mut end: usize = i;
            if from < i && chars[i - 1] == '\r' {
                end = i - 1;
            }
            let line = text_of(&chars, from, end);
            proof {
                assert(line_end(text@, i as int) == i);
                assert(line@ =~= without_carriage_return(text@.subrange(from as int, i as int)));
            }
            r.push(line);
            proof {
                assert(texts(r@) =~= before.push(line@));
                assert(texts(r@) + lines_from(text@, i + 1) =~= before + (seq![line@] + lines_from(
                    text@,
                    i + 1,
                )));
            }
            from = i + 1;
        }
        i += 1;
    }
    if from < chars.len() {
        let ghost before = texts(r@);
        let line = text_of(&chars, from, chars.len());
        r.push(line);
        proof {
            assert(line_end(text@, i as int) == text@.len());
            assert(texts(r@) =~= before + seq![line@]);
        }
    } else {
        assert(texts(r@) + Seq::<Seq<char>>::empty() =~= texts(r@));
    }
    r
}

/// How many of `len` lines `n` of them are: `n`, or all where there are fewer.
pub open spec fn at_most(n: int, len: int) -> int {
    if n < len {
        n
    } else {
        len
    }
}

/// The first `n` lines of a log, or all of them where it has fewer.
pub fn log_head(contents: &str, n: usize) -> (r: Vec<String>)
    ensures
        texts(r@) == lines(contents@).take(at_most(n as int, lines(contents@).len() as int)),
{
    let mut all = split_lines(contents);
    proof {
        assert(texts(all@).len() == all@.len());
    }
    let ghost whole = all@;
    if n < all.len() {
        all.truncate(n);
        assert(texts(all@) =~= texts(whole).take(n as int));
    } else {
        assert(texts(all@) =~= texts(whole).take(whole.len() as int));
    }
    all
}

/// The last `n` lines of a log, or all of them where it has fewer.
pub fn log_tail(contents: &str, n: usize) -> (r: Vec<String>)
    ensures
        texts(r@) == lines(contents@).skip(
            lines(contents@).len() - at_most(n as int, lines(contents@).len() as int),
        ),
{
    let mut all = split_lines(contents);
    let ghost whole = all@;
    assert(texts(whole).len() == whole.len());
    let start: usize = all.len().saturating_sub(n);
    let r = all.split_off(start);
    assert(texts(r@) =~= texts(whole).skip(start as int));
    r
}

/// What is appended to a log for one entry: the line and a line feed.
pub open spec fn entry(line: Seq<char>) -> Seq<char> {
    line.push('\n')
}

/// What is appended to a log for one entry.
pub fn log_entry(line: &str) -> (r: String)
    ensures
        r@ == entry(line@),
{
    let mut r = line.to_owned();
    r.push('\n');
    r
}

/// A log that holds whole entries only: it is empty or ends in a line feed.
pub open spec fn whole_entries(text: Seq<char>) -> bool {
    text.len() > 0 ==> text.last() == '\n'
}

/// A line that the log gives back as it was written: it holds no line feed and does not
/// end in a carriage return.
pub open spec fn plain_line(line: Seq<char>) -> bool {
    &&& forall|i: int| 0 <= i < line.len() ==> line[i] != '\n'
    &&& line.len() > 0 ==> line.last() != '\r'
}

/// `line_end` depends on the characters up to what it finds alone.
proof fn lemma_line_end_is(text: Seq<char>, from: int, end: int)
    requires
        0 <= from <= end < text.len(),
        forall|i: int| from <= i < end ==> text[i] != '\n',
        text[end] == '\n',
    ensures
        line_end(text, from) == end,
    decreases end - from,
{
    if from < end {
        lemma_line_end_is(text, from + 1, end);
    }
}

proof fn lemma_lines_from_appended(text: Seq<char>, line: Seq<char>, from: int)
    requires
        whole_entries(text),
        plain_line(line),
        0 <= from <= text.len(),
    ensures
        lines_from(text + entry(line), from) == lines_from(text, from).push(line),
    decreases text.len() - from,
{
    let longer = text + entry(line);
    if from == text.len() {
        let end = from + line.len();
        assert(longer[end] == '\n');
        assert forall|i: int| from <= i < end implies longer[i] != '\n' by {
            assert(longer[i] == line[i - from]);
        }
        lemma_line_end_is(longer, from, end);
        assert(longer.subrange(from, end) =~= line);
        assert(lines_from(longer, end + 1) =~= Seq::<Seq<char>>::empty());
        assert(lines_from(longer, from) =~= seq![line]);
        assert(lines_from(text, from).push(line) =~= seq![line]);
    } else {
        lemma_line_end(text, from);
        let end = line_end(text, from);
        if end == text.len() {
            assert(text[text.len() - 1] != '\n');
        }
        lemma_line_end_is(longer, from, end);
        assert(longer.subrange(from, end) =~= text.subrange(from, end));
        lemma_lines_from_appended(text, line, end + 1);
        let first = seq![without_carriage_return(text.subrange(from, end))];
        assert(lines_from(longer, from) =~= first + lines_from(text, end + 1).push(line));
        assert(lines_from(text, from).push(line) =~= first + lines_from(text, end + 1).push(line));
    }
}

/// A log to which an entry was appended has the lines it had before, and the entry's line
/// behind them; and it holds whole entries again.
pub proof fn appended_entry_is_read_back(text: Seq<char>, line: Seq<char>)
    requires
        whole_entries(text),
        plain_line(line),
    ensures
        lines(text + entry(line)) == lines(text).push(line),
        whole_entries(text + entry(line)),
{
    lemma_lines_from_appended(text, line, 0);
    assert((text + entry(line)).last() == '\n');
}

/// The first `n` lines and the last lines that remain make up the whole log.
pub proof fn head_and_tail_make_the_log(text: Seq<char>, n: int)
    requires
        0 <= n <= lines(text).len(),
    ensures
        ({
            let all = lines(text);
            let rest = all.len() - n;
            all.take(at_most(n, all.len() as int)) + all.skip(
                all.len() - at_most(rest, all.len() as int),
            ) == all
        }),
{
    let all = lines(text);
    assert(all.take(n) + all.skip(n) =~= all);
}

/// The lines of a text do not depend on what stands before it.
proof fn lemma_lines_from_shifted(front: Seq<char>, text: Seq<char>, from: int)
    requires
        0 <= from <= text.len(),
    ensures
        lines_from(front + text, front.len() + from) == lines_from(text, from),
    decreases text.len() - from,
{
    let whole = front + text;
    if from < text.len() {
        lemma_line_end(text, from);
        let end = line_end(text, from);
        if end < text.len() {
            assert forall|i: int| front.len() + from <= i < front.len() + end implies whole[i]
                != '\n' by {
                assert(whole[i] == text[i - front.len()]);
            }
            assert(whole[front.len() + end] == text[end]);
            lemma_line_end_is(whole, front.len() + from, front.len() + end);
            assert(whole.subrange(front.len() + from, front.len() + end) =~= text.subrange(
                from,
                end,
            ));
            lemma_lines_from_shifted(front, text, end + 1);
        } else {
            lemma_line_end(whole, front.len() + from);
            let found = line_end(whole, front.len() + from);
            if found < whole.len() {
                assert(whole[found] == text[found - front.len()]);
            }
            assert(whole.subrange(front.len() + from, whole.len() as int) =~= text.subrange(
                from,
                text.len() as int,
            ));
        }
    }
}

/// A text is cut at its line feeds: what stands before the first of them is the first line,
/// without a carriage return at its end, and the lines of what follows come next. A text
/// without a line feed is one line, just as it is, and an empty one has none.
pub proof fn text_is_cut_at_line_feeds(line: Seq<char>, rest: Seq<char>)
    requires
        forall|i: int| 0 <= i < line.len() ==> line[i] != '\n',
    ensures
        lines(line.push('\n') + rest) == seq![
            if line.len() > 0 && line.last() == '\r' {
                line.drop_last()
            } else {
                line
            },
        ] + lines(rest),
        line.len() > 0 ==> lines(line) == seq![line],
        lines(Seq::<char>::empty()) == Seq::<Seq<char>>::empty(),
{
    let text = line.push('\n') + rest;
    let end = line.len() as int;
    assert forall|i: int| 0 <= i < end implies text[i] != '\n' by {
        assert(text[i] == line[i]);
    }
    assert(text[end] == '\n');
    lemma_line_end_is(text, 0, end);
    assert(text.subrange(0, end) =~= line);
    lemma_lines_from_shifted(line.push('\n'), rest, 0);
    if line.len() > 0 {
        lemma_line_end(line, 0);
        assert(line.subrange(0, line.len() as int) =~= line);
    }
}

/// What is shown of a log: `head` as many lines as were asked for, or all where there are
/// fewer, and they are the first ones; of `tail` the same, and they are the last ones.
pub proof fn head_and_tail_are_the_ends_of_the_log(
    contents: &str,
    n: usize,
    head: Vec<String>,
    tail: Vec<String>,
)
    requires
        call_ensures(log_head, (contents, n), head),
        call_ensures(log_tail, (contents, n), tail),
    ensures
        ({
            let all = lines(contents@);
            let count = if n <= all.len() {
                n as int
            } else {
                all.len() as int
            };
            &&& head@.len() == count
            &&& tail@.len() == count
            &&& forall|i: int| 0 <= i < count ==> (#[trigger] head@[i])@ == all[i]
            &&& forall|i: int|
                0 <= i < count ==> (#[trigger] tail@[i])@ == all[all.len() - count + i]
        }),
{
    let all = lines(contents@);
    assert(texts(head@).len() == head@.len());
    assert(texts(tail@).len() == tail@.len());
    assert forall|i: int| 0 <= i < head@.len() implies (#[trigger] head@[i])@ == texts(head@)[i] by {}
    assert forall|i: int| 0 <= i < tail@.len() implies (#[trigger] tail@[i])@ == texts(tail@)[i] by {}
}

/// What is appended to a log for a line is the line and a line feed, whatever the line.
pub proof fn appended_text_is_the_line_and_a_line_feed(line: &str, r: String)
    requires
        call_ensures(log_entry, (line,), r),
    ensures
        r@ == line@ + seq!['\n'],
{
    assert(line@ + seq!['\n'] =~= line@.push('\n'));
}

} // verus!
