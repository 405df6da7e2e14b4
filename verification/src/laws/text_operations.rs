//! Laws of the string operations.

use vstd::prelude::*;

use crate::headers::lemma_lines_joined;
use crate::markup::lemma_over_text;
use crate::text::{
    all_digits, alphanumeric, contains, control, digit, first, line_views, lines, occurs_at, replaced,
    trimmed, trimmed_end, trimmed_start, whitespace,
};

verus! {

/// A pattern stands in a text exactly if the text is something, the pattern, and
/// something more.
pub proof fn law_a_pattern_has_two_sides(s: Seq<char>, pattern: Seq<char>)
    ensures
        contains(s, pattern) <==> exists|a: Seq<char>, b: Seq<char>| s == #[trigger] (a + pattern + b),
{
    let n = pattern.len() as int;
    if contains(s, pattern) {
        let at = choose|at: int| occurs_at(s, pattern, at);
        let a = s.take(at);
        let b = s.skip(at + n);
        assert(s =~= a + pattern + b) by {
            assert forall|i: int| 0 <= i < s.len() implies s[i] == #[trigger] (a + pattern + b)[i] by {
                if at <= i < at + n {
                    assert(s.subrange(at, at + n)[i - at] == s[i]);
                }
            }
        }
    }
    if exists|a: Seq<char>, b: Seq<char>| s == #[trigger] (a + pattern + b) {
        let (a, b) = choose|a: Seq<char>, b: Seq<char>| s == #[trigger] (a + pattern + b);
        law_what_is_put_in_is_found(a, pattern, b);
    }
}

/// What is put between two texts is found there.
pub proof fn law_what_is_put_in_is_found(a: Seq<char>, pattern: Seq<char>, b: Seq<char>)
    ensures
        contains(a + pattern + b, pattern),
{
    let all = a + pattern + b;
    let at = a.len() as int;
    assert(all.subrange(at, at + pattern.len()) =~= pattern);
    assert(occurs_at(all, pattern, at));
}

/// A text in which nothing is found is left as it is.
pub proof fn law_nothing_found_nothing_replaced(s: Seq<char>, from: Seq<char>, to: Seq<char>)
    requires
        from.len() > 0,
        forall|a: Seq<char>, b: Seq<char>| s != #[trigger] (a + from + b),
    ensures
        replaced(s, from, to) == s,
{
    law_a_pattern_has_two_sides(s, from);
    let none = Seq::<char>::empty();
    assert(s + none =~= s);
    assert forall|at: int| 0 <= at < s.len() implies !#[trigger] occurs_at(s + none, from, at) by {
        if occurs_at(s + none, from, at) {
            assert(occurs_at(s, from, at));
        }
    }
    lemma_over_text(s, none, from, to);
}

/// The first place where a pattern is found is filled with the other text, and
/// what follows is looked at on its own.
pub proof fn law_the_first_place_is_filled(
    a: Seq<char>,
    from: Seq<char>,
    b: Seq<char>,
    to: Seq<char>,
)
    requires
        from.len() > 0,
        forall|k: int|
            0 <= k < a.len() ==> #[trigger] (a + from + b).subrange(k, k + from.len()) != from,
    ensures
        replaced(a + from + b, from, to) == a + to + replaced(b, from, to),
{
    let all = a + from + b;
    let rest = from + b;
    assert(all =~= a + rest);
    assert forall|at: int| 0 <= at < a.len() implies !#[trigger] occurs_at(a + rest, from, at) by {
        assert(all.subrange(at, at + from.len()) != from);
    }
    lemma_over_text(a, rest, from, to);
    assert(rest.take(from.len() as int) =~= from);
    assert(rest.skip(from.len() as int) =~= b);
    assert(a + (to + replaced(b, from, to)) =~= a + to + replaced(b, from, to));
}

/// White space around a text is taken off, and nothing else.
pub proof fn law_white_space_around_is_taken_off(a: Seq<char>, s: Seq<char>, b: Seq<char>)
    requires
        forall|i: int| 0 <= i < a.len() ==> whitespace(#[trigger] a[i]),
        forall|i: int| 0 <= i < b.len() ==> whitespace(#[trigger] b[i]),
        s.len() > 0 ==> !whitespace(s[0]) && !whitespace(s[s.len() - 1]),
    ensures
        trimmed(a + s + b) == s,
{
    lemma_front_off(a, s + b);
    assert(a + s + b =~= a + (s + b));
    if s.len() > 0 {
        assert((s + b)[0] == s[0]);
        lemma_end_off(s, b);
    } else {
        assert(s + b =~= b);
        lemma_front_off(b, s);
        assert(b + s =~= b);
        assert(trimmed_start(s) =~= s);
    }
}

/// White space in front is taken off before anything else.
proof fn lemma_front_off(a: Seq<char>, s: Seq<char>)
    requires
        forall|i: int| 0 <= i < a.len() ==> whitespace(#[trigger] a[i]),
    ensures
        trimmed_start(a + s) == trimmed_start(s),
    decreases a.len(),
{
    if a.len() == 0 {
        assert(a + s =~= s);
    } else {
        assert(whitespace(a[0]));
        assert((a + s).skip(1) =~= a.skip(1) + s);
        assert forall|i: int| 0 <= i < a.skip(1).len() implies whitespace(
            #[trigger] a.skip(1)[i],
        ) by {
            assert(whitespace(a[i + 1]));
        }
        lemma_front_off(a.skip(1), s);
    }
}

/// White space at the end is taken off up to what is none.
proof fn lemma_end_off(s: Seq<char>, b: Seq<char>)
    requires
        forall|i: int| 0 <= i < b.len() ==> whitespace(#[trigger] b[i]),
        s.len() > 0,
        !whitespace(s[s.len() - 1]),
    ensures
        trimmed_end(s + b) == s,
    decreases b.len(),
{
    if b.len() == 0 {
        assert(s + b =~= s);
    } else {
        assert(whitespace(b[b.len() - 1]));
        assert((s + b).drop_last() =~= s + b.drop_last());
        assert forall|i: int| 0 <= i < b.drop_last().len() implies whitespace(
            #[trigger] b.drop_last()[i],
        ) by {
            assert(whitespace(b[i]));
        }
        lemma_end_off(s, b.drop_last());
    }
}

/// A text without a line feed is one line, and a line feed between two texts
/// puts the lines of the one in front of those of the other.
pub proof fn law_a_line_feed_parts_lines(one: Seq<char>, other: Seq<char>)
    ensures
        (forall|i: int| 0 <= i < one.len() ==> #[trigger] one[i] != '\n') ==> lines(one) == seq![
            one,
        ],
        lines(one + seq!['\n'] + other) == lines(one) + lines(other),
{
    one.index_of_first_ensures('\n');
    assert(one + seq!['\n'] + other =~= one.push('\n') + other);
    lemma_lines_joined(one, other);
}

/// The beginning of a text is as long as it may be, and the text goes on from
/// there.
pub proof fn law_a_beginning_is_as_long_as_it_may_be(s: Seq<char>, rest: Seq<char>, n: int)
    requires
        n >= 0,
    ensures
        s.len() == n ==> first(s + rest, n) == s,
        s.len() <= n ==> first(s, n) == s,
{
    if s.len() == n {
        assert((s + rest).take(n) =~= s);
        if rest.len() == 0 {
            assert(s + rest =~= s);
        }
    }
}

/// The characters that are told apart: digits and letters of ASCII, controls and
/// white space.
pub proof fn law_characters_are_told_apart(c: char)
    ensures
        digit(c) <==> 0x30 <= c as u32 <= 0x39,
        alphanumeric(c) <==> 0x30 <= c as u32 <= 0x39 || 0x41 <= c as u32 <= 0x5a || 0x61
            <= c as u32 <= 0x7a,
        control(c) <==> (c as u32) < 0x20 || 0x7f <= c as u32 <= 0x9f,
        whitespace(c) <==> {
            let n = c as u32;
            ||| 9 <= n <= 13 || n == 0x20 || n == 0x85 || n == 0xa0 || n == 0x1680
            ||| 0x2000 <= n <= 0x200a || n == 0x2028 || n == 0x2029 || n == 0x202f
            ||| n == 0x205f || n == 0x3000
        },
{
}

/// A run of digits has at least one, stays one with one more, and is one no more
/// with anything else.
pub proof fn law_a_run_of_digits_grows_by_digits(s: Seq<char>, c: char)
    ensures
        !all_digits(Seq::empty()),
        all_digits(s.push(c)) <==> (s.len() == 0 || all_digits(s)) && 0x30 <= c as u32 <= 0x39,
{
    let t = s.push(c);
    assert(t[s.len() as int] == c);
    if all_digits(t) {
        assert(digit(t[s.len() as int]));
        assert forall|i: int| 0 <= i < s.len() implies digit(#[trigger] s[i]) by {
            assert(digit(t[i]));
        }
    }
    if (s.len() == 0 || all_digits(s)) && digit(c) {
        assert forall|i: int| 0 <= i < t.len() implies digit(#[trigger] t[i]) by {
            if i < s.len() {
                assert(digit(s[i]));
            }
        }
    }
}

/// Each line says what its characters are.
pub proof fn law_lines_say_what_they_hold(s: Seq<Vec<char>>)
    ensures
        line_views(s).len() == s.len(),
        forall|i: int| 0 <= i < s.len() ==> #[trigger] line_views(s)[i] == s[i]@,
{
}

} // verus!
