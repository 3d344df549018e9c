//! Texts as sequences of characters: lines, joining, replacing, numbers.

use vstd::prelude::*;

verus! {

/// `String::push` of std: appends one character to the end of the string.
pub assume_specification[ String::push ](s: &mut String, c: char)
    ensures
        final(s)@ == old(s)@.push(c),
;

/// The characters of a text.
pub fn chars_of(text: &str) -> (chars: Vec<char>)
    ensures
        chars@ == text@,
{
    let mut chars: Vec<char> = Vec::new();
    for c in it: text.chars()
        invariant
            it.seq() == text@,
            chars@ == it.seq().take(it.index()),
    {
        chars.push(c);
        assert(chars@ =~= it.seq().take(it.index() + 1));
    }
    assert(chars@ =~= text@);
    chars
}

/// The text made of some characters.
pub fn string_of(chars: &Vec<char>) -> (text: String)
    ensures
        text@ == chars@,
{
    let mut text = String::new();
    let mut i: usize = 0;
    while i < chars.len()
        invariant
            i <= chars.len(),
            text@ == chars@.take(i as int),
        decreases chars.len() - i,
    {
        text.push(chars[i]);
        i = i + 1;
        assert(text@ =~= chars@.take(i as int));
    }
    assert(text@ =~= chars@);
    text
}

/// Appends the characters of `tail` to `out`.
pub fn extend(out: &mut Vec<char>, tail: &Vec<char>)
    ensures
        final(out)@ == old(out)@ + tail@,
{
    let mut i: usize = 0;
    assert(out@ =~= old(out)@ + tail@.take(0));
    while i < tail.len()
        invariant
            i <= tail.len(),
            out@ == old(out)@ + tail@.take(i as int),
        decreases tail.len() - i,
    {
        out.push(tail[i]);
        i = i + 1;
        assert(out@ =~= old(out)@ + tail@.take(i as int));
    }
    assert(tail@.take(i as int) =~= tail@);
}

/// What a list of texts stands for.
pub open spec fn texts(list: Seq<Vec<char>>) -> Seq<Seq<char>> {
    Seq::new(list.len(), |i: int| list[i]@)
}

/// A text cut at every line feed: one piece more than there are line feeds.
pub open spec fn pieces(text: Seq<char>) -> Seq<Seq<char>>
    decreases text.len(),
{
    if text.len() == 0 {
        seq![Seq::empty()]
    } else {
        let before = pieces(text.drop_last());
        if text.last() == '\n' {
            before.push(Seq::empty())
        } else {
            before.drop_last().push(before.last().push(text.last()))
        }
    }
}

/// A piece without the carriage return at its end, if it has one.
pub open spec fn strip_return(piece: Seq<char>) -> Seq<char> {
    if piece.len() > 0 && piece.last() == '\r' {
        piece.drop_last()
    } else {
        piece
    }
}

/// The pieces of a text that a line feed ends, each without the carriage
/// return before that line feed.
pub open spec fn ended_lines(text: Seq<char>) -> Seq<Seq<char>> {
    Seq::new((pieces(text).len() - 1) as nat, |i: int| strip_return(pieces(text)[i]))
}

/// The lines of a text. A line ends with a line feed, or with a carriage
/// return and a line feed; the last line need not end at all, and what
/// follows the last line feed is a line only if it is not empty.
pub open spec fn lines_of(text: Seq<char>) -> Seq<Seq<char>> {
    if pieces(text).last().len() == 0 {
        ended_lines(text)
    } else {
        ended_lines(text).push(pieces(text).last())
    }
}

/// Lines put together again, with one line feed between each two.
pub open spec fn joined(lines: Seq<Seq<char>>) -> Seq<char>
    decreases lines.len(),
{
    if lines.len() == 0 {
        Seq::empty()
    } else if lines.len() == 1 {
        lines[0]
    } else {
        joined(lines.drop_last()) + seq!['\n'] + lines.last()
    }
}

/// Each line of `left` followed by the line of `right` at the same place, as
/// far as both have lines.
pub open spec fn zipped(left: Seq<Seq<char>>, right: Seq<Seq<char>>) -> Seq<Seq<char>> {
    Seq::new(
        if left.len() <= right.len() {
            left.len()
        } else {
            right.len()
        },
        |i: int| left[i] + right[i],
    )
}

/// Two texts set side by side, line by line.
pub open spec fn appended(left: Seq<char>, right: Seq<char>) -> Seq<char> {
    joined(zipped(lines_of(left), lines_of(right)))
}

/// There is always a piece.
pub proof fn lemma_pieces_nonempty(text: Seq<char>)
    ensures
        pieces(text).len() >= 1,
    decreases text.len(),
{
    if text.len() > 0 {
        lemma_pieces_nonempty(text.drop_last());
    }
}

/// The lines of a text.
pub fn lines(text: &Vec<char>) -> (list: Vec<Vec<char>>)
    ensures
        texts(list@) == lines_of(text@),
{
    let mut list: Vec<Vec<char>> = Vec::new();
    let mut current: Vec<char> = Vec::new();
    let mut i: usize = 0;
    assert(texts(list@) =~= ended_lines(text@.take(0)));
    while i < text.len()
        invariant
            i <= text.len(),
            texts(list@) == ended_lines(text@.take(i as int)),
            current@ == pieces(text@.take(i as int)).last(),
        decreases text.len() - i,
    {
        let ghost seen = text@.take(i as int);
        let ghost longer = text@.take(i + 1);
        proof {
            lemma_pieces_nonempty(seen);
            assert(longer.drop_last() =~= seen);
            assert(texts(list@).len() == ended_lines(seen).len());
        }
        let c = text[i];
        if c == '\n' {
            let n: usize = current.len();
            if n > 0 && current[n - 1] == '\r' {
                current.pop();
            }
            assert(current@ =~= strip_return(pieces(seen).last()));
            let ghost earlier = list@;
            let ghost line = current@;
            list.push(current);
            current = Vec::new();
            assert(pieces(longer) == pieces(seen).push(Seq::empty()));
            assert forall|k: int| 0 <= k < list.len() implies texts(list@)[k] == ended_lines(
                longer,
            )[k] by {
                if k < earlier.len() {
                    assert(texts(earlier)[k] == earlier[k]@);
                    assert(ended_lines(seen)[k] == strip_return(pieces(seen)[k]));
                } else {
                    assert(list[k]@ == line);
                }
            }
            assert(texts(list@) =~~= ended_lines(longer));
        } else {
            current.push(c);
            assert(pieces(longer) == pieces(seen).drop_last().push(pieces(seen).last().push(c)));
            assert(texts(list@) =~~= ended_lines(longer));
        }
        i = i + 1;
    }
    assert(text@.take(i as int) =~= text@);
    if current.len() > 0 {
        list.push(current);
        assert(texts(list@) =~= lines_of(text@));
    }
    list
}

/// Puts lines together, with one line feed between each two.
pub fn join(lines: &Vec<Vec<char>>) -> (text: Vec<char>)
    ensures
        text@ == joined(texts(lines@)),
{
    let mut text: Vec<char> = Vec::new();
    let mut i: usize = 0;
    while i < lines.len()
        invariant
            i <= lines.len(),
            text@ == joined(texts(lines@).take(i as int)),
        decreases lines.len() - i,
    {
        let ghost before = texts(lines@).take(i as int);
        let ghost after = texts(lines@).take(i + 1);
        proof {
            assert(after.drop_last() =~= before);
            assert(after.last() == lines[i as int]@);
        }
        if i > 0 {
            text.push('\n');
        }
        extend(&mut text, &lines[i]);
        i = i + 1;
        assert(text@ =~= joined(after));
    }
    assert(texts(lines@).take(i as int) =~= texts(lines@));
    text
}

/// Sets two texts side by side: each line of `left` followed by the line of
/// `right` at the same place, as far as both have lines.
pub fn append_lines(left: &Vec<char>, right: &Vec<char>) -> (text: Vec<char>)
    ensures
        text@ == appended(left@, right@),
{
    let left_lines = lines(left);
    let right_lines = lines(right);
    let count: usize = if left_lines.len() <= right_lines.len() {
        left_lines.len()
    } else {
        right_lines.len()
    };
    let mut pairs: Vec<Vec<char>> = Vec::new();
    let mut i: usize = 0;
    while i < count
        invariant
            i <= count,
            count <= left_lines.len(),
            count <= right_lines.len(),
            texts(pairs@) == zipped(texts(left_lines@), texts(right_lines@)).take(i as int),
        decreases count - i,
    {
        let mut pair: Vec<char> = Vec::new();
        extend(&mut pair, &left_lines[i]);
        extend(&mut pair, &right_lines[i]);
        let ghost both = pair@;
        let ghost whole = zipped(texts(left_lines@), texts(right_lines@));
        assert(both =~= whole[i as int]);
        pairs.push(pair);
        i = i + 1;
        assert(texts(pairs@) =~~= whole.take(i - 1).push(both));
        assert(texts(pairs@) =~~= whole.take(i as int));
    }
    assert(texts(pairs@) =~= zipped(texts(left_lines@), texts(right_lines@)));
    join(&pairs)
}

/// A text in which each occurrence of `from` has given way to `to`. The
/// occurrences are found from the left and do not overlap; an empty `from`
/// occurs nowhere.
pub open spec fn replaced(text: Seq<char>, from: Seq<char>, to: Seq<char>) -> Seq<char>
    decreases text.len(),
{
    if from.len() == 0 || text.len() < from.len() {
        text
    } else if text.take(from.len() as int) == from {
        to + replaced(text.skip(from.len() as int), from, to)
    } else {
        seq![text[0]] + replaced(text.skip(1), from, to)
    }
}

/// Whether `from` stands in `text` at position `at`.
pub fn starts_at(text: &Vec<char>, at: usize, from: &Vec<char>) -> (found: bool)
    requires
        at <= text.len(),
    ensures
        found == (text.len() - at >= from.len() && text@.skip(at as int).take(from.len() as int)
            == from@),
{
    if text.len() - at < from.len() {
        return false;
    }
    let ghost window = text@.skip(at as int).take(from.len() as int);
    let mut k: usize = 0;
    while k < from.len()
        invariant
            at + from.len() <= text.len(),
            k <= from.len(),
            window == text@.skip(at as int).take(from.len() as int),
            window.take(k as int) == from@.take(k as int),
        decreases from.len() - k,
    {
        if text[at + k] != from[k] {
            assert(window[k as int] != from@[k as int]);
            return false;
        }
        k = k + 1;
        assert(window.take(k as int) =~= window.take(k - 1).push(window[k - 1]));
        assert(from@.take(k as int) =~= from@.take(k - 1).push(from@[k - 1]));
    }
    assert(window.take(k as int) =~= window);
    assert(from@.take(k as int) =~= from@);
    true
}

/// Replaces each occurrence of `from` in `text` by `to`.
pub fn replace(text: &Vec<char>, from: &Vec<char>, to: &Vec<char>) -> (out: Vec<char>)
    ensures
        out@ == replaced(text@, from@, to@),
{
    let mut out: Vec<char> = Vec::new();
    if from.len() == 0 {
        extend(&mut out, text);
        return out;
    }
    let mut i: usize = 0;
    assert(text@.skip(0) =~= text@);
    while i < text.len()
        invariant
            i <= text.len(),
            from.len() > 0,
            replaced(text@, from@, to@) == out@ + replaced(text@.skip(i as int), from@, to@),
        decreases text.len() - i,
    {
        let ghost rest = text@.skip(i as int);
        let ghost done = out@;
        if starts_at(text, i, from) {
            extend(&mut out, to);
            i = i + from.len();
            assert(rest.skip(from.len() as int) =~= text@.skip(i as int));
            assert(out@ + replaced(text@.skip(i as int), from@, to@) =~= done + replaced(
                rest,
                from@,
                to@,
            ));
        } else {
            out.push(text[i]);
            i = i + 1;
            assert(rest.skip(1) =~= text@.skip(i as int));
            proof {
                if rest.len() < from@.len() {
                    assert(replaced(rest, from@, to@) == rest);
                assert(replaced(rest.skip(1), from@, to@) == rest.skip(1));
                    assert(rest =~= seq![rest[0]] + rest.skip(1));
                }
            }
            assert(out@ + replaced(text@.skip(i as int), from@, to@) =~= done + replaced(
                rest,
                from@,
                to@,
            ));
        }
    }
    assert(out@ + replaced(text@.skip(i as int), from@, to@) =~= out@);
    out
}

/// The character of a decimal digit.
pub open spec fn digit(d: nat) -> char {
    if d == 0 {
        '0'
    } else if d == 1 {
        '1'
    } else if d == 2 {
        '2'
    } else if d == 3 {
        '3'
    } else if d == 4 {
        '4'
    } else if d == 5 {
        '5'
    } else if d == 6 {
        '6'
    } else if d == 7 {
        '7'
    } else if d == 8 {
        '8'
    } else {
        '9'
    }
}

/// A number in decimal digits, without leading zeros.
pub open spec fn decimal(n: nat) -> Seq<char>
    decreases n,
{
    if n < 10 {
        seq![digit(n)]
    } else {
        decimal(n / 10).push(digit(n % 10))
    }
}

/// A number in at least two decimal digits, with a leading zero if need be.
pub open spec fn two_digits(n: nat) -> Seq<char> {
    if n < 10 {
        seq!['0', digit(n)]
    } else {
        decimal(n)
    }
}

/// The character of the decimal digit `d`.
pub fn digit_char(d: usize) -> (c: char)
    requires
        d < 10,
    ensures
        c == digit(d as nat),
{
    if d == 0 {
        '0'
    } else if d == 1 {
        '1'
    } else if d == 2 {
        '2'
    } else if d == 3 {
        '3'
    } else if d == 4 {
        '4'
    } else if d == 5 {
        '5'
    } else if d == 6 {
        '6'
    } else if d == 7 {
        '7'
    } else if d == 8 {
        '8'
    } else {
        '9'
    }
}

/// Appends a number in decimal digits.
pub fn push_decimal(out: &mut Vec<char>, n: usize)
    ensures
        final(out)@ == old(out)@ + decimal(n as nat),
    decreases n,
{
    if n >= 10 {
        push_decimal(out, n / 10);
    }
    out.push(digit_char(n % 10));
    assert(out@ =~= old(out)@ + decimal(n as nat));
}

/// Appends a number in at least two decimal digits.
pub fn push_two_digits(out: &mut Vec<char>, n: usize)
    ensures
        final(out)@ == old(out)@ + two_digits(n as nat),
{
    if n < 10 {
        out.push('0');
    }
    push_decimal(out, n);
    assert(out@ =~= old(out)@ + two_digits(n as nat));
}

} // verus!
