//! How the pieces of a text relate to the text.
use crate::text::CharClass;
use vstd::prelude::*;

verus! {

use crate::text::{
    cut_at,
    decimal_is_read_back,
    decimal_of,
    digits_value,
    first,
    has_prefix,
    ink_end,
    is_space,
    joined,
    lemma_decimal_digits,
    lemma_first,
    lines_from,
    lines_of,
    number_of,
    padded_left,
    padded_right,
    signed_decimal_of,
    trimmed,
    unsigned_part,
    words,
    words_from,
};

/// No printable ASCII character is white space but the space; tabs and line ends are.
pub proof fn ascii_white_space(c: char)
    requires
        c as u32 <= 0x7f,
    ensures
        is_space(c) <==> (c == ' ' || c == '\t' || c == '\n' || c == '\r' || c == '\u{b}' || c
            == '\u{c}'),
{
}

/// A text without white space is one word.
pub proof fn a_word_is_itself(w: Seq<char>)
    requires
        w.len() > 0,
        forall|i: int| 0 <= i < w.len() ==> !is_space(#[trigger] w[i]),
    ensures
        words(w) == seq![w],
{
    lemma_first(w, 0, CharClass::Ink);
    lemma_first(w, 0, CharClass::Space);
    assert(!is_space(w[0]));
    assert(first(w, 0, CharClass::Ink) == 0);
    let b = first(w, 0, CharClass::Space);
    if b < w.len() {
        assert(!is_space(w[b]));
    }
    assert(first(w, b, CharClass::Ink) == w.len());
    assert(words_from(w, b) =~= seq![]);
    assert(w.subrange(0, b) =~= w);
    assert(words(w) =~= seq![w]);
}

proof fn lemma_first_shift(p: Seq<char>, b: Seq<char>, i: int, class: CharClass)
    requires
        0 <= i <= b.len(),
    ensures
        first(p + b, p.len() + i, class) == p.len() + first(b, i, class),
    decreases b.len() - i,
{
    if i < b.len() {
        assert((p + b)[p.len() + i] == b[i]);
        if !class.has(b[i]) {
            lemma_first_shift(p, b, i + 1, class);
        }
    }
}

proof fn lemma_words_shift(p: Seq<char>, b: Seq<char>, i: int)
    requires
        0 <= i <= b.len(),
    ensures
        words_from(p + b, p.len() + i) == words_from(b, i),
    decreases b.len() - i,
{
    let t = p + b;
    let x = first(b, i, CharClass::Ink);
    lemma_first_shift(p, b, i, CharClass::Ink);
    lemma_first(b, i, CharClass::Ink);
    if x < b.len() {
        let y = first(b, x, CharClass::Space);
        lemma_first_shift(p, b, x, CharClass::Space);
        lemma_first(b, x, CharClass::Space);
        assert(y > x);
        lemma_words_shift(p, b, y);
        assert(t.subrange(p.len() + x, p.len() + y) =~= b.subrange(x, y));
    } else {
        assert(words_from(b, i) =~= seq![]);
        assert(words_from(t, p.len() + i) =~= seq![]);
    }
}

proof fn lemma_first_cut(a: Seq<char>, rest: Seq<char>, i: int, class: CharClass)
    requires
        0 <= i <= a.len(),
    ensures
        first(a, i, class) < a.len() ==> first(a + rest, i, class) == first(a, i, class),
        first(a, i, class) >= a.len() ==> first(a + rest, i, class) == first(
            a + rest,
            a.len() as int,
            class,
        ),
    decreases a.len() - i,
{
    lemma_first(a, i, class);
    if i < a.len() {
        assert((a + rest)[i] == a[i]);
        if !class.has(a[i]) {
            lemma_first_cut(a, rest, i + 1, class);
        }
    }
}

proof fn lemma_words_cut(a: Seq<char>, c: char, b: Seq<char>, i: int)
    requires
        is_space(c),
        0 <= i <= a.len(),
    ensures
        words_from(a + seq![c] + b, i) == words_from(a, i) + words(b),
    decreases a.len() - i,
{
    let rest = seq![c] + b;
    let t = a + seq![c] + b;
    assert(t =~= a + rest);
    assert(t[a.len() as int] == c);
    lemma_first(a, i, CharClass::Ink);
    lemma_first_cut(a, rest, i, CharClass::Ink);
    let x = first(a, i, CharClass::Ink);
    if x < a.len() {
        let y = first(a, x, CharClass::Space);
        lemma_first(a, x, CharClass::Space);
        lemma_first_cut(a, rest, x, CharClass::Space);
        assert(y > x);
        assert(first(t, a.len() as int, CharClass::Space) == a.len());
        assert(first(t, x, CharClass::Space) == y);
        assert(t.subrange(x, y) =~= a.subrange(x, y));
        lemma_words_cut(a, c, b, y);
        assert(words_from(t, i) == seq![t.subrange(x, y)] + words_from(t, y));
        assert(words_from(a, i) == seq![a.subrange(x, y)] + words_from(a, y));
        assert(words_from(t, i) =~= words_from(a, i) + words(b));
    } else {
        let p = a + seq![c];
        assert(t =~= p + b);
        lemma_words_shift(p, b, 0);
        assert(first(t, a.len() as int, CharClass::Ink) == first(
            t,
            a.len() as int + 1,
            CharClass::Ink,
        ));
        assert(words_from(t, i) == words_from(t, a.len() as int + 1));
        assert(words_from(a, i) =~= seq![]);
        assert(words_from(t, i) =~= words_from(a, i) + words(b));
    }
}

/// White space parts words: what stands before and behind it is read on its own, and in order.
pub proof fn white_space_parts_words(a: Seq<char>, c: char, b: Seq<char>)
    requires
        is_space(c),
    ensures
        words(a + seq![c] + b) == words(a) + words(b),
        words(Seq::<char>::empty()) == Seq::<Seq<char>>::empty(),
{
    lemma_words_cut(a, c, b, 0);
    assert(words(Seq::<char>::empty()) =~= seq![]);
}

/// A line feed parts lines: what stands before it is a line, without a carriage return at its
/// end, and the lines behind it follow. A text without one is one line, unless it is empty.
pub proof fn line_feeds_part_lines(a: Seq<char>, b: Seq<char>)
    requires
        !a.contains('\n'),
    ensures
        lines_of(a + seq!['\n'] + b) == seq![
            if a.len() > 0 && a.last() == '\r' {
                a.drop_last()
            } else {
                a
            },
        ] + lines_of(b),
        a.len() > 0 ==> lines_of(a) == seq![a],
        a.len() == 0 ==> lines_of(a) == Seq::<Seq<char>>::empty(),
{
    let class = CharClass::Is('\n');
    let p = a + seq!['\n'];
    let t = a + seq!['\n'] + b;
    lemma_first(a, 0, class);
    if first(a, 0, class) < a.len() {
        assert(a.contains(a[first(a, 0, class)]));
    }
    assert(t =~= a + (seq!['\n'] + b));
    lemma_first_cut(a, seq!['\n'] + b, 0, class);
    assert(t[a.len() as int] == '\n');
    assert(first(t, 0, class) == a.len());
    assert(t.subrange(0, a.len() as int) =~= a);
    assert(a.subrange(0, a.len() as int) =~= a);
    assert(t =~= p + b);
    lemma_lines_shift(p, b, 0);
    if a.len() == 0 {
        assert(lines_of(a) =~= seq![]);
    }
}

proof fn lemma_lines_shift(p: Seq<char>, b: Seq<char>, i: int)
    requires
        0 <= i <= b.len(),
    ensures
        lines_from(p + b, p.len() + i) == lines_from(b, i),
    decreases b.len() - i,
{
    let t = p + b;
    let class = CharClass::Is('\n');
    lemma_first_shift(p, b, i, class);
    lemma_first(b, i, class);
    let y = first(b, i, class);
    if i < b.len() {
        assert(t.subrange(p.len() + i, p.len() + y) =~= b.subrange(i, y));
        assert(t.subrange(p.len() + i, t.len() as int) =~= b.subrange(i, b.len() as int));
        if y < b.len() {
            lemma_lines_shift(p, b, y + 1);
        }
    } else {
        assert(lines_from(b, i) =~= seq![]);
        assert(lines_from(t, p.len() + i) =~= seq![]);
    }
}

proof fn lemma_ink_end(s: Seq<char>, to: int)
    requires
        0 <= to <= s.len(),
    ensures
        0 <= ink_end(s, to) <= to,
        ink_end(s, to) > 0 ==> !is_space(s[ink_end(s, to) - 1]),
        forall|i: int| ink_end(s, to) <= i < to ==> is_space(#[trigger] s[i]),
    decreases to,
{
    if to > 0 && is_space(s[to - 1]) {
        lemma_ink_end(s, to - 1);
    }
}

/// Trimming takes white space off the two ends, all of it, and nothing else.
pub proof fn trimming_takes_white_space_off_the_ends(s: Seq<char>)
    ensures
        trimmed(s).len() > 0 ==> !is_space(trimmed(s)[0]) && !is_space(trimmed(s).last()),
        exists|a: Seq<char>, b: Seq<char>|
            s == #[trigger] (a + trimmed(s) + b) && (forall|i: int|
                0 <= i < a.len() ==> is_space(#[trigger] a[i])) && (forall|i: int|
                0 <= i < b.len() ==> is_space(#[trigger] b[i])),
{
    let a = first(s, 0, CharClass::Ink);
    let b = ink_end(s, s.len() as int);
    lemma_first(s, 0, CharClass::Ink);
    lemma_ink_end(s, s.len() as int);
    if a < b {
        let head = s.subrange(0, a);
        let tail = s.subrange(b, s.len() as int);
        assert(s =~= head + trimmed(s) + tail);
        assert(trimmed(s)[0] == s[a]);
        assert(trimmed(s).last() == s[b - 1]);
    } else {
        let none = Seq::<char>::empty();
        assert(s =~= s + trimmed(s) + none);
        assert forall|i: int| 0 <= i < s.len() implies is_space(#[trigger] s[i]) by {
            if i >= a {
                assert(i >= b);
            }
        }
    }
}

/// A text is cut at the first occurrence of a character.
pub proof fn a_cut_is_at_the_first(s: Seq<char>, c: char)
    ensures
        match cut_at(s, c) {
            Some((a, b)) => s == a + seq![c] + b && !a.contains(c),
            None => !s.contains(c),
        },
{
    lemma_first(s, 0, CharClass::Is(c));
    let at = first(s, 0, CharClass::Is(c));
    if at < s.len() {
        assert(s =~= s.subrange(0, at) + seq![c] + s.subrange(at + 1, s.len() as int));
        if s.subrange(0, at).contains(c) {
            let k = choose|k: int| 0 <= k < at && s.subrange(0, at)[k] == c;
            assert(s[k] == c);
        }
    } else if s.contains(c) {
        let k = choose|k: int| 0 <= k < s.len() && s[k] == c;
        assert(CharClass::Is(c).has(s[k]));
    }
}

/// A prefix is what a text begins with.
pub proof fn a_prefix_begins_the_text(p: Seq<char>, rest: Seq<char>, s: Seq<char>)
    ensures
        has_prefix(p + rest, p),
        has_prefix(s, p) ==> s == p + s.skip(p.len() as int),
{
    assert((p + rest).subrange(0, p.len() as int) =~= p);
    if has_prefix(s, p) {
        assert(s =~= s.subrange(0, p.len() as int) + s.skip(p.len() as int));
    }
}

/// Padding fills up with spaces, on one side, to the width and no further.
pub proof fn padding_fills_up_to_the_width(s: Seq<char>, width: nat)
    ensures
        padded_left(s, width).len() == (if s.len() >= width {
            s.len()
        } else {
            width
        }),
        padded_left(s, width).skip(padded_left(s, width).len() - s.len()) == s,
        forall|i: int|
            0 <= i < padded_left(s, width).len() - s.len() ==> #[trigger] padded_left(s, width)[i]
                == ' ',
        padded_right(s, width).len() == (if s.len() >= width {
            s.len()
        } else {
            width
        }),
        padded_right(s, width).take(s.len() as int) == s,
        forall|i: int|
            s.len() <= i < padded_right(s, width).len() ==> #[trigger] padded_right(s, width)[i]
                == ' ',
{
    assert(padded_left(s, width).skip(padded_left(s, width).len() - s.len()) =~= s);
    assert(padded_right(s, width).take(s.len() as int) =~= s);
}

/// Parts are put together in order, with the separator between any two of them.
pub proof fn joining_keeps_the_order(
    a: Seq<Seq<char>>,
    b: Seq<Seq<char>>,
    separator: Seq<char>,
)
    requires
        a.len() > 0,
        b.len() > 0,
    ensures
        joined(a + b, separator) == joined(a, separator) + separator + joined(b, separator),
        a.len() == 1 ==> joined(a, separator) == a[0],
    decreases b.len(),
{
    let all = a + b;
    assert(all.drop_last() =~= a + b.drop_last());
    assert(all.last() == b.last());
    if b.len() == 1 {
        assert(all.drop_last() =~= a);
        assert(joined(all, separator) =~= joined(a, separator) + separator + joined(b, separator));
    } else {
        joining_keeps_the_order(a, b.drop_last(), separator);
        assert(joined(all, separator) =~= joined(a, separator) + separator + joined(b, separator));
    }
}

/// A number is read from its digits alone: a plus sign before them and zeros do not change it, one
/// more digit behind them makes it ten times as large and adds the digit, and any other character
/// spoils it.
pub proof fn numbers_are_read_from_digits(n: nat, max: nat, d: nat, s: Seq<char>)
    requires
        n * 10 + d <= max,
        d < 10,
    ensures
        number_of(decimal_of(n), max) == Some(n),
        number_of(seq!['+'] + decimal_of(n), max) == Some(n),
        number_of(decimal_of(n) + decimal_of(d), max) == Some(n * 10 + d),
        number_of(s, max) matches Some(v) ==> v <= max && s.len() > 0 && forall|i: int|
            0 <= i < s.len() ==> ('0' <= #[trigger] s[i] <= '9' || (i == 0 && s[i] == '+' && s.len()
                > 1)),
{
    decimal_is_read_back(n, max);
    lemma_decimal_digits(n);
    lemma_decimal_digits(d);
    let plus = seq!['+'] + decimal_of(n);
    assert(unsigned_part(plus) =~= decimal_of(n));
    let two = decimal_of(n) + decimal_of(d);
    assert(decimal_of(d).len() == 1);
    assert(two.drop_last() =~= decimal_of(n));
    assert(two.last() == decimal_of(d)[0]);
    assert(decimal_of(d).drop_last() =~= seq![]);
    assert(digits_value(decimal_of(d)) == d) by {
        reveal_with_fuel(digits_value, 2);
    }
    assert(digits_value(two) == n * 10 + d) by {
        reveal_with_fuel(digits_value, 2);
    }
    assert(two[0] == decimal_of(n)[0]);
    assert(unsigned_part(two) == two);
    assert forall|i: int| 0 <= i < two.len() implies '0' <= #[trigger] two[i] <= '9' by {
        if i < decimal_of(n).len() {
            assert(two[i] == decimal_of(n)[i]);
        } else {
            assert(two[i] == decimal_of(d)[0]);
        }
    }
    if number_of(s, max) is Some {
        let u = unsigned_part(s);
        assert forall|i: int| 0 <= i < s.len() implies ('0' <= #[trigger] s[i] <= '9' || (i == 0
            && s[i] == '+' && s.len() > 1)) by {
            if s[0] == '+' {
                if i > 0 {
                    assert(u[i - 1] == s[i]);
                }
            } else {
                assert(u[i] == s[i]);
            }
        }
    }
}

/// A negative number is written as its size behind a minus sign.
pub proof fn a_minus_sign_marks_negative_numbers(n: int)
    ensures
        n >= 0 ==> signed_decimal_of(n) == decimal_of(n as nat),
        n < 0 ==> signed_decimal_of(n) == seq!['-'] + decimal_of((-n) as nat),
{
    reveal_strlit("-");
    assert("-"@ =~= seq!['-']);
}

} // verus!
