//! What holds of the operations on texts, for every text.

use crate::text;
use crate::text::Text;
use vstd::prelude::*;

verus! {

// ─── Numbers ─────────────────────────────────────────────────────────────────

/// The number that a row of decimal digits stands for.
pub open spec fn number(digits: Text) -> int
    decreases digits.len(),
{
    if digits.len() == 0 {
        0
    } else {
        10 * number(digits.drop_last()) + (digits.last() as int - '0' as int)
    }
}

/// A number in decimal is a row of digits that stands for the number, with no zero in front.
pub proof fn law_decimal_stands_for_the_number(n: nat)
    ensures
        number(text::decimal(n)) == n,
        text::decimal(n).len() > 0,
        forall|i: int| 0 <= i < text::decimal(n).len() ==> '0' <= #[trigger] text::decimal(n)[i]
            <= '9',
        text::decimal(n)[0] == '0' ==> n == 0 && text::decimal(n).len() == 1,
    decreases n,
{
    let s = text::decimal(n);
    let empty = Seq::<char>::empty();
    let d = n % 10;
    assert(0 <= d < 10);
    assert(text::digit(d) as int == 48 + d);
    if n < 10 {
        assert(s.drop_last() =~= empty);
        assert(number(empty) == 0);
    } else {
        law_decimal_stands_for_the_number(n / 10);
        let front = text::decimal(n / 10);
        assert(s.drop_last() =~= front);
        assert(s[0] == front[0]);
    }
}

// ─── White space ─────────────────────────────────────────────────────────────

/// A text of nothing but white space.
pub open spec fn blank(s: Text) -> bool {
    forall|i: int| 0 <= i < s.len() ==> text::is_white_space(#[trigger] s[i])
}

proof fn lemma_trim_start(s: Text) -> (a: Text)
    ensures
        s == a + text::trim_start(s),
        blank(a),
        text::trim_start(s).len() > 0 ==> !text::is_white_space(text::trim_start(s)[0]),
    decreases s.len(),
{
    if s.len() > 0 && text::is_white_space(s[0]) {
        let rest = lemma_trim_start(s.skip(1));
        let a = seq![s[0]] + rest;
        assert forall|i: int| 0 <= i < a.len() implies text::is_white_space(#[trigger] a[i]) by {
            if i > 0 {
                assert(a[i] == rest[i - 1]);
            }
        }
        assert(s =~= seq![s[0]] + s.skip(1));
        assert(s =~= a + text::trim_start(s));
        a
    } else {
        let a = Seq::<char>::empty();
        assert(s =~= a + s);
        a
    }
}

proof fn lemma_trim_end(s: Text) -> (b: Text)
    ensures
        s == text::trim_end(s) + b,
        blank(b),
        text::trim_end(s).len() > 0 ==> !text::is_white_space(text::trim_end(s).last())
            && text::trim_end(s)[0] == s[0],
    decreases s.len(),
{
    if s.len() > 0 && text::is_white_space(s.last()) {
        let rest = lemma_trim_end(s.drop_last());
        let b = rest.push(s.last());
        assert forall|i: int| 0 <= i < b.len() implies text::is_white_space(#[trigger] b[i]) by {
            if i < rest.len() {
                assert(b[i] == rest[i]);
            }
        }
        assert(s =~= s.drop_last().push(s.last()));
        assert(s =~= text::trim_end(s) + b);
        b
    } else {
        let b = Seq::<char>::empty();
        assert(s =~= s + b);
        b
    }
}

/// Trimming takes white space away on both sides, and all of it, and nothing else.
pub proof fn law_trimming_takes_white_space_away(s: Text)
    ensures
        exists|a: Text, b: Text|
            #![trigger blank(a), blank(b)]
            blank(a) && blank(b) && s == a + text::trim(s) + b,
        text::trim(s).len() > 0 ==> !text::is_white_space(text::trim(s)[0])
            && !text::is_white_space(text::trim(s).last()),
{
    let a = lemma_trim_start(s);
    let b = lemma_trim_end(text::trim_start(s));
    assert(s =~= a + text::trim(s) + b);
    assert(blank(a) && blank(b));
}

/// White space is what Unicode calls so.
pub proof fn law_white_space(c: char)
    ensures
        text::is_white_space(c) <==> c == ' ' || c == '\t' || c == '\n' || c == '\u{b}' || c
            == '\u{c}' || c == '\r' || c == '\u{85}' || c == '\u{a0}' || c == '\u{1680}'
            || '\u{2000}' <= c <= '\u{200a}' || c == '\u{2028}' || c == '\u{2029}' || c == '\u{202f}'
            || c == '\u{205f}' || c == '\u{3000}',
{
}

// ─── Lines ───────────────────────────────────────────────────────────────────

/// A text without a line feed.
pub open spec fn one_line(s: Text) -> bool {
    forall|i: int| 0 <= i < s.len() ==> #[trigger] s[i] != '\n'
}

proof fn lemma_lines_from(line: Text, rest: Text, i: int)
    requires
        0 <= i <= line.len(),
        one_line(line),
    ensures
        text::lines_from(line + seq!['\n'] + rest, i) == seq![text::without_cr(line)]
            + text::lines(rest),
    decreases line.len() - i,
{
    let s = line + seq!['\n'] + rest;
    if i < line.len() {
        assert(s[i] == line[i]);
        lemma_lines_from(line, rest, i + 1);
    } else {
        assert(s[i] == '\n');
        assert(s.take(i) =~= line);
        assert(s.skip(i + 1) =~= rest);
    }
}

proof fn lemma_last_line(line: Text, i: int)
    requires
        0 <= i <= line.len(),
        one_line(line),
        line.len() > 0,
    ensures
        text::lines_from(line, i) == seq![line],
    decreases line.len() - i,
{
    if i < line.len() {
        lemma_last_line(line, i + 1);
    }
}

/// The lines of a text are its first line, without a carriage return before the line feed, and then
/// the lines of the rest.
pub proof fn law_lines_end_at_line_feeds(line: Text, rest: Text)
    requires
        one_line(line),
    ensures
        text::lines(line + seq!['\n'] + rest) == seq![
            if line.len() > 0 && line.last() == '\r' {
                line.drop_last()
            } else {
                line
            },
        ] + text::lines(rest),
{
    lemma_lines_from(line, rest, 0);
}

/// A text without a line feed is one line, and the empty text none.
pub proof fn law_last_line_needs_no_line_feed(line: Text)
    requires
        one_line(line),
    ensures
        line.len() > 0 ==> text::lines(line) == seq![line],
        line.len() == 0 ==> text::lines(line) == Seq::<Text>::empty(),
{
    if line.len() > 0 {
        lemma_last_line(line, 0);
    }
}

/// The first text of a list, then the separator and the others.
pub proof fn lemma_join_front(first: Text, rest: Seq<Text>, sep: Text)
    requires
        rest.len() > 0,
    ensures
        text::join(seq![first] + rest, sep) == first + sep + text::join(rest, sep),
    decreases rest.len(),
{
    let all = seq![first] + rest;
    assert(all.drop_last() =~= seq![first] + rest.drop_last());
    if rest.len() == 1 {
        assert(rest.drop_last() =~= Seq::<Text>::empty());
        assert(all.drop_last() =~= seq![first]);
        assert(text::join(all, sep) == text::join(all.drop_last(), sep) + sep + all.last());
    } else {
        lemma_join_front(first, rest.drop_last(), sep);
        assert(first + sep + text::join(rest.drop_last(), sep) + sep + rest.last() =~= first + sep
            + (text::join(rest.drop_last(), sep) + sep + rest.last()));
    }
}

/// What is joined with line feeds has the joined texts as its lines, if each of them is one line,
/// none ends with a carriage return, and the last one is not empty.
pub proof fn law_joined_lines_are_the_lines(parts: Seq<Text>)
    requires
        parts.len() > 0,
        parts.last().len() > 0,
        forall|i: int|
            0 <= i < parts.len() ==> one_line(#[trigger] parts[i]) && !(parts[i].len() > 0
                && parts[i].last() == '\r'),
    ensures
        text::lines(text::join(parts, seq!['\n'])) == parts,
    decreases parts.len(),
{
    let sep = seq!['\n'];
    let first = parts[0];
    let rest = parts.skip(1);
    assert(one_line(parts[0]));
    if parts.len() == 1 {
        law_last_line_needs_no_line_feed(first);
        assert(parts =~= seq![first]);
    } else {
        assert(parts =~= seq![first] + rest);
        lemma_join_front(first, rest, sep);
        assert forall|i: int| 0 <= i < rest.len() implies one_line(#[trigger] rest[i]) && !(
        rest[i].len() > 0 && rest[i].last() == '\r') by {
            assert(rest[i] == parts[i + 1]);
        }
        assert(rest.last() == parts.last());
        law_joined_lines_are_the_lines(rest);
        law_lines_end_at_line_feeds(first, text::join(rest, sep));
    }
}

/// Every joined text stands in the whole, with those before it in front and those behind it in the
/// back, and separators only between two of them.
pub proof fn law_joined_texts_stand_in_order(parts: Seq<Text>, sep: Text, k: int)
    requires
        0 < k < parts.len(),
    ensures
        text::join(parts, sep) == text::join(parts.take(k), sep) + sep + text::join(
            parts.skip(k),
            sep,
        ),
        text::join(seq![parts[0]], sep) == parts[0],
    decreases k,
{
    let first = parts[0];
    let rest = parts.skip(1);
    assert(parts =~= seq![first] + rest);
    lemma_join_front(first, rest, sep);
    if k == 1 {
        assert(parts.take(1) =~= seq![first]);
    } else {
        law_joined_texts_stand_in_order(rest, sep, k - 1);
        assert(parts.take(k) =~= seq![first] + rest.take(k - 1));
        assert(rest.skip(k - 1) =~= parts.skip(k));
        lemma_join_front(first, rest.take(k - 1), sep);
        let a = text::join(rest.take(k - 1), sep);
        let b = text::join(parts.skip(k), sep);
        assert(first + sep + (a + sep + b) =~= first + sep + a + sep + b);
    }
}

// ─── Order ───────────────────────────────────────────────────────────────────

/// Two texts first differ at `i`: there one has a smaller character than the other, or has ended.
pub open spec fn smaller_at(a: Text, b: Text, i: int) -> bool {
    &&& 0 <= i <= a.len() && i < b.len()
    &&& a.take(i) == b.take(i)
    &&& i == a.len() || a[i] < b[i]
}

/// A text stands before another exactly if it is smaller where they first differ.
pub proof fn law_order_of_texts(a: Text, b: Text)
    ensures
        text::before(a, b) <==> exists|i: int| smaller_at(a, b, i),
    decreases a.len(),
{
    if b.len() > 0 && a.len() > 0 && a[0] == b[0] {
        let x = a.skip(1);
        let y = b.skip(1);
        law_order_of_texts(x, y);
        if text::before(a, b) {
            let i = choose|i: int| smaller_at(x, y, i);
            assert(a.take(i + 1) =~= seq![a[0]] + x.take(i));
            assert(b.take(i + 1) =~= seq![b[0]] + y.take(i));
            assert(smaller_at(a, b, i + 1));
        }
        if exists|i: int| smaller_at(a, b, i) {
            let i = choose|i: int| smaller_at(a, b, i);
            assert(i > 0);
            assert(x.take(i - 1) =~= a.take(i).skip(1));
            assert(y.take(i - 1) =~= b.take(i).skip(1));
            assert(smaller_at(x, y, i - 1));
        }
    } else {
        assert(a.take(0) =~= b.take(0));
        if text::before(a, b) {
            assert(smaller_at(a, b, 0));
        }
        if exists|i: int| smaller_at(a, b, i) {
            let i = choose|i: int| smaller_at(a, b, i);
            if i > 0 {
                assert(a.take(i)[0] == a[0] && b.take(i)[0] == b[0]);
            }
        }
    }
}

} // verus!
