//! What is left of the notifications as plain text.

use vstd::prelude::*;

use crate::notice::{login_content, method_label, node_content, plain_text, Transition};
use crate::text::{contains, occurs_at, replaced};

verus! {

/// `s` holds none of the marks that plain text does without.
pub open spec fn markless(s: Seq<char>) -> bool {
    &&& !contains(s, "<br/>"@)
    &&& !contains(s, "<br>"@)
    &&& !contains(s, "<b>"@)
    &&& !contains(s, "</b>"@)
}

/// The lines of the login audit notice.
pub open spec fn login_lines(
    when: Seq<char>,
    method: Seq<char>,
    username: Seq<char>,
    ip: Seq<char>,
    device: Seq<char>,
) -> Seq<char> {
    when + "\n登录方式："@ + method_label(method) + "\n账号："@ + username + "\nIP："@ + ip
        + "\n设备："@ + device
}

/// The lines of a node notice.
pub open spec fn node_lines(transition: Transition, name: Seq<char>, when: Seq<char>) -> Seq<char> {
    when + "\n节点「"@ + name + match transition {
        Transition::Up => "」已上线"@,
        Transition::Down => "」已掉线"@,
    }
}

/// A part of a message: text, the start or the end of bold text, or a line
/// break.
pub enum Piece {
    Text(Seq<char>),
    Open,
    Close,
    Break,
}

/// What a piece of a message writes when the marks are written in the given
/// way.
pub open spec fn piece_written(
    piece: Piece,
    open: Seq<char>,
    close: Seq<char>,
    line: Seq<char>,
) -> Seq<char> {
    match piece {
        Piece::Text(s) => s,
        Piece::Open => open,
        Piece::Close => close,
        Piece::Break => line,
    }
}

/// The message that pieces make when the marks are written in the given way.
pub open spec fn written(
    pieces: Seq<Piece>,
    open: Seq<char>,
    close: Seq<char>,
    line: Seq<char>,
) -> Seq<char>
    decreases pieces.len(),
{
    if pieces.len() == 0 {
        Seq::empty()
    } else {
        piece_written(pieces[0], open, close, line) + written(pieces.skip(1), open, close, line)
    }
}

/// The message that pieces make in the markup of the notifications.
pub open spec fn marked_up(pieces: Seq<Piece>) -> Seq<char> {
    written(pieces, "<b>"@, "</b>"@, "<br/>"@)
}

/// The message that pieces make as plain text.
pub open spec fn flat(pieces: Seq<Piece>) -> Seq<char> {
    written(pieces, Seq::empty(), Seq::empty(), "\n"@)
}

/// The message that pieces make with a line feed for every mark.
pub open spec fn spaced(pieces: Seq<Piece>) -> Seq<char> {
    written(pieces, "\n"@, "\n"@, "\n"@)
}

/// The message that pieces make with a line feed for every mark but the start of
/// bold text, which is left out.
pub open spec fn half_spaced(pieces: Seq<Piece>) -> Seq<char> {
    written(pieces, Seq::empty(), "\n"@, "\n"@)
}

/// The texts of the pieces make no marks of their own. The end of bold text is
/// taken out after its start, so it must not come about across one either.
pub open spec fn legible(pieces: Seq<Piece>) -> bool {
    &&& !contains(spaced(pieces), "<br/>"@)
    &&& !contains(spaced(pieces), "<br>"@)
    &&& !contains(spaced(pieces), "<b>"@)
    &&& !contains(half_spaced(pieces), "</b>"@)
}

/// `s` holds nothing that starts a mark.
spec fn unmarked(s: Seq<char>) -> bool {
    forall|i: int| 0 <= i < s.len() ==> #[trigger] s[i] != '<'
}

/// `c` may stand in a mark, but not at its front.
spec fn inside_mark(c: char) -> bool {
    c == 'b' || c == 'r' || c == '/' || c == '>'
}

/// `s` does not go on with a mark that has begun before it.
spec fn breaks_off(s: Seq<char>) -> bool {
    s.len() == 0 || !inside_mark(s[0])
}

/// `mark` is one of the marks.
spec fn is_mark(mark: Seq<char>) -> bool {
    mark == "<br/>"@ || mark == "<br>"@ || mark == "<b>"@ || mark == "</b>"@
}

/// `mark` does not begin as `other` does.
spec fn differs(mark: Seq<char>, other: Seq<char>) -> bool {
    &&& unmarked(mark.skip(1))
    &&& exists|k: int| 0 <= k < mark.len() && k < other.len() && #[trigger] mark[k] != other[k]
}

/// Replacing `from` by `to` turns `mark` into `result`: it is the mark that is
/// replaced, or it is another and stays.
spec fn turns(mark: Seq<char>, result: Seq<char>, from: Seq<char>, to: Seq<char>) -> bool {
    ||| mark == from && result == to
    ||| mark == result && (unmarked(mark) || differs(mark, from))
}

/// The marks of the notifications are what they look like.
proof fn lemma_marks()
    ensures
        "<br/>"@ == seq!['<', 'b', 'r', '/', '>'],
        "<br>"@ == seq!['<', 'b', 'r', '>'],
        "<b>"@ == seq!['<', 'b', '>'],
        "</b>"@ == seq!['<', '/', 'b', '>'],
        "\n"@ == seq!['\n'],
        ""@ == Seq::<char>::empty(),
{
    reveal_strlit("<br/>");
    reveal_strlit("<br>");
    reveal_strlit("<b>");
    reveal_strlit("</b>");
    reveal_strlit("\n");
    reveal_strlit("");
    assert("<br/>"@ =~= seq!['<', 'b', 'r', '/', '>']);
    assert("<br>"@ =~= seq!['<', 'b', 'r', '>']);
    assert("<b>"@ =~= seq!['<', 'b', '>']);
    assert("</b>"@ =~= seq!['<', '/', 'b', '>']);
    assert("\n"@ =~= seq!['\n']);
    assert(""@ =~= Seq::<char>::empty());
}

/// A mark is `<` and characters that stand inside marks.
proof fn lemma_mark(mark: Seq<char>)
    requires
        is_mark(mark),
    ensures
        mark.len() > 0,
        mark[0] == '<',
        forall|k: int| 0 < k < mark.len() ==> inside_mark(#[trigger] mark[k]),
{
    lemma_marks();
}

/// Replacing passes over a text in which no occurrence begins.
pub proof fn lemma_over_text(s: Seq<char>, rest: Seq<char>, from: Seq<char>, to: Seq<char>)
    requires
        from.len() > 0,
        forall|at: int| 0 <= at < s.len() ==> !#[trigger] occurs_at(s + rest, from, at),
    ensures
        replaced(s + rest, from, to) == s + replaced(rest, from, to),
    decreases s.len(),
{
    let all = s + rest;
    let n = from.len() as int;
    if s.len() == 0 {
        assert(all =~= rest);
        assert(s + replaced(rest, from, to) =~= replaced(rest, from, to));
    } else if all.len() >= n {
        assert(!occurs_at(all, from, 0));
        assert(all.subrange(0, n) =~= all.take(n));
        let shorter = s.skip(1) + rest;
        assert(all.skip(1) =~= shorter);
        assert forall|at: int| 0 <= at < s.skip(1).len() implies !#[trigger] occurs_at(
            shorter,
            from,
            at,
        ) by {
            assert(!occurs_at(all, from, at + 1));
            if at + n <= shorter.len() {
                assert(shorter.subrange(at, at + n) =~= all.subrange(at + 1, at + 1 + n));
            }
        }
        lemma_over_text(s.skip(1), rest, from, to);
        assert(seq![s[0]] + (s.skip(1) + replaced(rest, from, to)) =~= s + replaced(
            rest,
            from,
            to,
        ));
    }
}

/// A mark does not begin in a text that does not hold it, where what follows
/// does not go on with it.
proof fn lemma_no_mark_begins(s: Seq<char>, rest: Seq<char>, mark: Seq<char>)
    requires
        is_mark(mark),
        !contains(s, mark),
        breaks_off(rest),
    ensures
        forall|at: int| 0 <= at < s.len() ==> !#[trigger] occurs_at(s + rest, mark, at),
{
    lemma_mark(mark);
    let all = s + rest;
    let n = mark.len() as int;
    assert forall|at: int| 0 <= at < s.len() implies !#[trigger] occurs_at(all, mark, at) by {
        if occurs_at(all, mark, at) {
            let found = all.subrange(at, at + n);
            if at + n <= s.len() {
                assert(s.subrange(at, at + n) =~= found);
                assert(occurs_at(s, mark, at));
            } else {
                let k = s.len() - at;
                assert(found[k] == rest[0]);
                assert(inside_mark(mark[k]));
            }
        }
    }
}

/// Replacing a mark turns a mark at the front into what it becomes.
proof fn lemma_over_mark(
    mark: Seq<char>,
    result: Seq<char>,
    rest: Seq<char>,
    from: Seq<char>,
    to: Seq<char>,
)
    requires
        turns(mark, result, from, to),
        is_mark(from),
    ensures
        replaced(mark + rest, from, to) == result + replaced(rest, from, to),
{
    lemma_mark(from);
    let all = mark + rest;
    let n = from.len() as int;
    if mark == from && result == to {
        assert(all.take(n) =~= from);
        assert(all.skip(n) =~= rest);
    } else {
        assert forall|at: int| 0 <= at < mark.len() implies !#[trigger] occurs_at(
            all,
            from,
            at,
        ) by {
            if occurs_at(all, from, at) {
                let found = all.subrange(at, at + n);
                assert(found[0] == mark[at]);
                if at > 0 && !unmarked(mark) {
                    assert(mark.skip(1)[at - 1] == mark[at]);
                } else if !unmarked(mark) {
                    let k = choose|k: int|
                        0 <= k < mark.len() && k < from.len() && #[trigger] mark[k] != from[k];
                    assert(found[k] == mark[k]);
                }
            }
        }
        lemma_over_text(mark, rest, from, to);
    }
}

/// Replacing a mark in one way of writing a message meets the same texts as in
/// another: up to where the first way has a mark, the two are the same.
proof fn lemma_same_run(
    pieces: Seq<Piece>,
    one: (Seq<char>, Seq<char>, Seq<char>),
    other: (Seq<char>, Seq<char>, Seq<char>),
) -> (m: int)
    requires
        one.0.len() > 0 && !inside_mark(one.0[0]) || one.0.len() == 0 && other.0.len() == 0,
        one.1.len() > 0 && !inside_mark(one.1[0]) || one.1.len() == 0 && other.1.len() == 0,
        one.2.len() > 0 && !inside_mark(one.2[0]) || one.2.len() == 0 && other.2.len() == 0,
    ensures
        ({
            let x = written(pieces, one.0, one.1, one.2);
            let y = written(pieces, other.0, other.1, other.2);
            &&& 0 <= m <= x.len()
            &&& m <= y.len()
            &&& x.take(m) == y.take(m)
            &&& m < x.len() ==> !inside_mark(x[m])
        }),
    decreases pieces.len(),
{
    let x = written(pieces, one.0, one.1, one.2);
    let y = written(pieces, other.0, other.1, other.2);
    if pieces.len() == 0 {
        0
    } else {
        let front = piece_written(pieces[0], one.0, one.1, one.2);
        if pieces[0] is Text || front.len() == 0 {
            let m = lemma_same_run(pieces.skip(1), one, other);
            let rest = written(pieces.skip(1), one.0, one.1, one.2);
            let more = written(pieces.skip(1), other.0, other.1, other.2);
            let n = front.len() + m;
            assert(piece_written(pieces[0], other.0, other.1, other.2) =~= front);
            assert(x.take(n) =~= front + rest.take(m));
            assert(y.take(n) =~= front + more.take(m));
            if m < rest.len() {
                assert(x[n] == rest[m]);
            }
            n
        } else {
            assert(x.take(0) =~= y.take(0));
            assert(x[0] == front[0]);
            0
        }
    }
}

/// A mark begins in a text at the front of a message only where it does so in
/// another way of writing the message.
proof fn lemma_mark_begins_in_both(
    s: Seq<char>,
    x: Seq<char>,
    y: Seq<char>,
    m: int,
    mark: Seq<char>,
)
    requires
        is_mark(mark),
        0 <= m <= x.len(),
        m <= y.len(),
        x.take(m) == y.take(m),
        m < x.len() ==> !inside_mark(x[m]),
        !contains(s + y, mark),
    ensures
        forall|at: int| 0 <= at < s.len() ==> !#[trigger] occurs_at(s + x, mark, at),
{
    lemma_mark(mark);
    let n = mark.len() as int;
    assert forall|at: int| 0 <= at < s.len() implies !#[trigger] occurs_at(s + x, mark, at) by {
        if occurs_at(s + x, mark, at) {
            let found = (s + x).subrange(at, at + n);
            assert(at + n <= s.len() + m) by {
                if s.len() + m < at + n {
                    let k = s.len() + m - at;
                    assert(found[k] == x[m]);
                    assert(inside_mark(mark[k]));
                }
            }
            let same = (s + y).subrange(at, at + n);
            assert forall|i: int| 0 <= i < n implies #[trigger] same[i] == found[i] by {
                if at + i >= s.len() {
                    let j = at + i - s.len();
                    assert(x.take(m)[j] == x[j] && y.take(m)[j] == y[j]);
                    assert(found[i] == x[j]);
                    assert(same[i] == y[j]);
                    assert(x[j] == y[j]);
                } else {
                    assert(found[i] == s[at + i] && same[i] == s[at + i]);
                }
            }
            assert(same =~= found);
            assert(occurs_at(s + y, mark, at));
        }
    }
}

/// What does not stand in a text does not stand in the end of it.
proof fn lemma_not_in_end(front: Seq<char>, end: Seq<char>, pattern: Seq<char>)
    requires
        !contains(front + end, pattern),
    ensures
        !contains(end, pattern),
{
    if contains(end, pattern) {
        let at = choose|at: int| occurs_at(end, pattern, at);
        let n = pattern.len() as int;
        assert((front + end).subrange(front.len() + at, front.len() + at + n) =~= end.subrange(
            at,
            at + n,
        ));
        assert(occurs_at(front + end, pattern, front.len() + at));
    }
}

/// Replacing a mark turns every mark of a message into what it becomes. `aside`
/// is a way of writing the message in which the mark does not stand.
proof fn lemma_over_message(
    pieces: Seq<Piece>,
    from: Seq<char>,
    to: Seq<char>,
    before: (Seq<char>, Seq<char>, Seq<char>),
    after: (Seq<char>, Seq<char>, Seq<char>),
    aside: (Seq<char>, Seq<char>, Seq<char>),
)
    requires
        is_mark(from),
        !contains(written(pieces, aside.0, aside.1, aside.2), from),
        before.0.len() > 0 && !inside_mark(before.0[0]) || before.0.len() == 0 && aside.0.len()
            == 0,
        before.1.len() > 0 && !inside_mark(before.1[0]) || before.1.len() == 0 && aside.1.len()
            == 0,
        before.2.len() > 0 && !inside_mark(before.2[0]) || before.2.len() == 0 && aside.2.len()
            == 0,
        turns(before.0, after.0, from, to),
        turns(before.1, after.1, from, to),
        turns(before.2, after.2, from, to),
    ensures
        replaced(written(pieces, before.0, before.1, before.2), from, to) == written(
            pieces,
            after.0,
            after.1,
            after.2,
        ),
    decreases pieces.len(),
{
    lemma_mark(from);
    if pieces.len() > 0 {
        let rest = written(pieces.skip(1), before.0, before.1, before.2);
        let set_aside = written(pieces.skip(1), aside.0, aside.1, aside.2);
        lemma_not_in_end(
            piece_written(pieces[0], aside.0, aside.1, aside.2),
            set_aside,
            from,
        );
        lemma_over_message(pieces.skip(1), from, to, before, after, aside);
        match pieces[0] {
            Piece::Text(s) => {
                let m = lemma_same_run(pieces.skip(1), before, aside);
                lemma_mark_begins_in_both(s, rest, set_aside, m, from);
                lemma_over_text(s, rest, from, to);
            },
            Piece::Open => lemma_over_mark(before.0, after.0, rest, from, to),
            Piece::Close => lemma_over_mark(before.1, after.1, rest, from, to),
            Piece::Break => lemma_over_mark(before.2, after.2, rest, from, to),
        }
    }
}

/// The plain text of a message in the markup of the notifications is its text,
/// with line breaks where the message has them, and nothing of its marks, as
/// long as its texts make no marks of their own.
pub proof fn law_message_as_plain_text(pieces: Seq<Piece>)
    requires
        legible(pieces),
    ensures
        plain_text(marked_up(pieces)) == flat(pieces),
{
    lemma_marks();
    let none = Seq::<char>::empty();
    let open = "<b>"@;
    let close = "</b>"@;
    let line = "\n"@;
    let feeds = (line, line, line);
    assert(differs(open, "<br/>"@)) by {
        assert(open[2] != "<br/>"@[2]);
    }
    assert(differs(close, "<br/>"@)) by {
        assert(close[1] != "<br/>"@[1]);
    }
    assert(differs(open, "<br>"@)) by {
        assert(open[2] != "<br>"@[2]);
    }
    assert(differs(close, "<br>"@)) by {
        assert(close[1] != "<br>"@[1]);
    }
    assert(differs(close, open)) by {
        assert(close[1] != open[1]);
    }
    lemma_over_message(
        pieces,
        "<br/>"@,
        line,
        (open, close, "<br/>"@),
        (open, close, line),
        feeds,
    );
    lemma_over_message(pieces, "<br>"@, line, (open, close, line), (open, close, line), feeds);
    lemma_over_message(pieces, open, none, (open, close, line), (none, close, line), feeds);
    lemma_over_message(
        pieces,
        close,
        none,
        (none, close, line),
        (none, none, line),
        (none, line, line),
    );
}

/// One more piece writes one more part of the message.
proof fn lemma_written_push(
    pieces: Seq<Piece>,
    piece: Piece,
    open: Seq<char>,
    close: Seq<char>,
    line: Seq<char>,
)
    ensures
        written(pieces.push(piece), open, close, line) == written(pieces, open, close, line)
            + piece_written(piece, open, close, line),
    decreases pieces.len(),
{
    let all = pieces.push(piece);
    if pieces.len() == 0 {
        reveal_with_fuel(written, 2);
        assert(all.skip(1) =~= Seq::<Piece>::empty());
    } else {
        lemma_written_push(pieces.skip(1), piece, open, close, line);
        assert(all.skip(1) =~= pieces.skip(1).push(piece));
    }
    assert(written(all, open, close, line) =~= written(pieces, open, close, line) + piece_written(
        piece,
        open,
        close,
        line,
    ));
}

/// The message with one more piece, in each way of writing it.
proof fn lemma_piece_added(pieces: Seq<Piece>, piece: Piece)
    ensures
        marked_up(pieces.push(piece)) == marked_up(pieces) + piece_written(
            piece,
            "<b>"@,
            "</b>"@,
            "<br/>"@,
        ),
        flat(pieces.push(piece)) == flat(pieces) + piece_written(
            piece,
            Seq::empty(),
            Seq::empty(),
            "\n"@,
        ),
        spaced(pieces.push(piece)) == spaced(pieces) + piece_written(
            piece,
            "\n"@,
            "\n"@,
            "\n"@,
        ),
        half_spaced(pieces.push(piece)) == half_spaced(pieces) + piece_written(
            piece,
            Seq::empty(),
            "\n"@,
            "\n"@,
        ),
{
    lemma_written_push(pieces, piece, "<b>"@, "</b>"@, "<br/>"@);
    lemma_written_push(pieces, piece, Seq::empty(), Seq::empty(), "\n"@);
    lemma_written_push(pieces, piece, "\n"@, "\n"@, "\n"@);
    lemma_written_push(pieces, piece, Seq::empty(), "\n"@, "\n"@);
}

/// A line feed keeps marks from coming about between two texts.
proof fn lemma_apart(one: Seq<char>, other: Seq<char>, mark: Seq<char>)
    requires
        is_mark(mark),
        !contains(one, mark),
        !contains(other, mark),
    ensures
        !contains(one + "\n"@ + other, mark),
{
    lemma_marks();
    lemma_mark(mark);
    let rest = "\n"@ + other;
    let all = one + "\n"@ + other;
    assert(all =~= one + rest);
    lemma_no_mark_begins(one, rest, mark);
    let n = mark.len() as int;
    if contains(all, mark) {
        let at = choose|at: int| occurs_at(all, mark, at);
        let found = all.subrange(at, at + n);
        assert(found[0] == all[at]);
        if at < one.len() {
            assert(occurs_at(one + rest, mark, at));
        } else if at > one.len() {
            let i = at - one.len() - 1;
            assert(other.subrange(i, i + n) =~= found);
            assert(occurs_at(other, mark, i));
        }
    }
}

/// A text that holds no mark still holds none between a label and an ending.
proof fn lemma_markless_between(label: Seq<char>, s: Seq<char>, ending: Seq<char>)
    requires
        unmarked(label),
        unmarked(ending),
        breaks_off(ending),
        markless(s),
    ensures
        markless(label + s + ending),
{
    let all = label + s + ending;
    assert forall|mark: Seq<char>| #[trigger] is_mark(mark) && !contains(s, mark) implies !contains(
        all,
        mark,
    ) by {
        lemma_mark(mark);
        lemma_no_mark_begins(s, ending, mark);
        let n = mark.len() as int;
        if contains(all, mark) {
            let at = choose|at: int| occurs_at(all, mark, at);
            let found = all.subrange(at, at + n);
            assert(found[0] == all[at]);
            if at < label.len() {
                assert(label[at] != '<');
            } else if at < label.len() + s.len() {
                assert((s + ending).subrange(at - label.len(), at - label.len() + n) =~= found);
                assert(occurs_at(s + ending, mark, at - label.len()));
            } else {
                assert(ending[at - label.len() - s.len()] != '<');
            }
        }
    }
    assert(is_mark("<br/>"@) && is_mark("<br>"@) && is_mark("<b>"@) && is_mark("</b>"@));
}

/// A bold text at the front of a message.
proof fn lemma_bold_first(s: Seq<char>) -> (pieces: Seq<Piece>)
    requires
        markless(s),
    ensures
        legible(pieces),
        marked_up(pieces) == "<b>"@ + s + "</b>"@,
        flat(pieces) == s,
{
    let none = Seq::<char>::empty();
    let p0 = Seq::<Piece>::empty();
    let p1 = p0.push(Piece::Open);
    let p2 = p1.push(Piece::Text(s));
    let p3 = p2.push(Piece::Close);
    lemma_piece_added(p0, Piece::Open);
    lemma_piece_added(p1, Piece::Text(s));
    lemma_piece_added(p2, Piece::Close);
    assert(marked_up(p3) =~= "<b>"@ + s + "</b>"@);
    assert(flat(p3) =~= s);
    assert(spaced(p3) =~= none + "\n"@ + (s + "\n"@ + none));
    assert(half_spaced(p3) =~= s + "\n"@ + none);
    lemma_empty_is_markless();
    assert forall|mark: Seq<char>| #[trigger] is_mark(mark) && !contains(s, mark) && !contains(
        none,
        mark,
    ) implies !contains(spaced(p3), mark) && !contains(half_spaced(p3), mark) by {
        lemma_apart(s, none, mark);
        lemma_apart(none, s + "\n"@ + none, mark);
    }
    assert(is_mark("<br/>"@) && is_mark("<br>"@) && is_mark("<b>"@) && is_mark("</b>"@));
    p3
}

/// A line break and a text between a label and an ending, behind a message.
proof fn lemma_line_added(
    pieces: Seq<Piece>,
    label: Seq<char>,
    s: Seq<char>,
    ending: Seq<char>,
) -> (longer: Seq<Piece>)
    requires
        legible(pieces),
        unmarked(label),
        unmarked(ending),
        breaks_off(ending),
        markless(s),
    ensures
        legible(longer),
        marked_up(longer) == marked_up(pieces) + ("<br/>"@ + label) + s + ending,
        flat(longer) == flat(pieces) + ("\n"@ + label) + s + ending,
{
    let text = label + s + ending;
    let p1 = pieces.push(Piece::Break);
    let longer = p1.push(Piece::Text(text));
    lemma_markless_between(label, s, ending);
    lemma_piece_added(pieces, Piece::Break);
    lemma_piece_added(p1, Piece::Text(text));
    assert(marked_up(longer) =~= marked_up(pieces) + ("<br/>"@ + label) + s + ending);
    assert(flat(longer) =~= flat(pieces) + ("\n"@ + label) + s + ending);
    assert(is_mark("<br/>"@) && is_mark("<br>"@) && is_mark("<b>"@) && is_mark("</b>"@));
    lemma_apart(spaced(pieces), text, "<br/>"@);
    lemma_apart(spaced(pieces), text, "<br>"@);
    lemma_apart(spaced(pieces), text, "<b>"@);
    lemma_apart(half_spaced(pieces), text, "</b>"@);
    longer
}

/// Replacing a mark leaves a title in front of a message.
proof fn lemma_over_title(title: Seq<char>, content: Seq<char>, from: Seq<char>, to: Seq<char>)
    requires
        is_mark(from),
        !contains(title, from),
    ensures
        replaced(title + "\n"@ + content, from, to) == title + "\n"@ + replaced(content, from, to),
{
    lemma_marks();
    lemma_mark(from);
    let rest = "\n"@ + content;
    lemma_over_mark("\n"@, "\n"@, content, from, to);
    lemma_no_mark_begins(title, rest, from);
    lemma_over_text(title, rest, from, to);
    assert(title + rest =~= title + "\n"@ + content);
    assert(title + ("\n"@ + replaced(content, from, to)) =~= title + "\n"@ + replaced(
        content,
        from,
        to,
    ));
}

/// A title in front of a message stays in front of it.
proof fn lemma_plain_title(title: Seq<char>, content: Seq<char>)
    requires
        markless(title),
    ensures
        plain_text(title + "\n"@ + content) == title + "\n"@ + plain_text(content),
{
    let c1 = replaced(content, "<br/>"@, "\n"@);
    let c2 = replaced(c1, "<br>"@, "\n"@);
    let c3 = replaced(c2, "<b>"@, ""@);
    lemma_over_title(title, content, "<br/>"@, "\n"@);
    lemma_over_title(title, c1, "<br>"@, "\n"@);
    lemma_over_title(title, c2, "<b>"@, ""@);
    lemma_over_title(title, c3, "</b>"@, ""@);
}

/// The name of a sign-in method holds no mark if the method holds none.
proof fn lemma_method_label(method: Seq<char>)
    requires
        markless(method),
    ensures
        markless(method_label(method)),
{
    reveal_strlit("应急密码");
    reveal_strlit("账号密码");
    reveal_strlit("GitHub 单点登录");
    let none = Seq::<char>::empty();
    lemma_empty_is_markless();
    lemma_markless_between("应急密码"@, none, none);
    lemma_markless_between("账号密码"@, none, none);
    lemma_markless_between("GitHub 单点登录"@, none, none);
    assert("应急密码"@ + none + none =~= "应急密码"@);
    assert("账号密码"@ + none + none =~= "账号密码"@);
    assert("GitHub 单点登录"@ + none + none =~= "GitHub 单点登录"@);
}

/// Nothing holds no mark.
proof fn lemma_empty_is_markless()
    ensures
        markless(Seq::empty()),
{
    lemma_marks();
}

/// The login audit notice reads as plain text, line by line, as long as what it
/// is filled in with holds no marks itself.
pub proof fn law_login_notice_as_plain_text(
    title: Seq<char>,
    when: Seq<char>,
    method: Seq<char>,
    username: Seq<char>,
    ip: Seq<char>,
    device: Seq<char>,
)
    requires
        markless(title),
        markless(when),
        markless(method),
        markless(username),
        markless(ip),
        markless(device),
    ensures
        plain_text(title + "\n"@ + login_content(when, method, username, ip, device)) == title
            + "\n"@ + login_lines(when, method, username, ip, device),
{
    lemma_marks();
    reveal_strlit("</b><br/>登录方式：");
    reveal_strlit("<br/>账号：");
    reveal_strlit("<br/>IP：");
    reveal_strlit("<br/>设备：");
    reveal_strlit("登录方式：");
    reveal_strlit("账号：");
    reveal_strlit("IP：");
    reveal_strlit("设备：");
    reveal_strlit("\n登录方式：");
    reveal_strlit("\n账号：");
    reveal_strlit("\nIP：");
    reveal_strlit("\n设备：");
    assert("</b><br/>登录方式："@ =~= "</b>"@ + ("<br/>"@ + "登录方式："@));
    assert("<br/>账号："@ =~= "<br/>"@ + "账号："@);
    assert("<br/>IP："@ =~= "<br/>"@ + "IP："@);
    assert("<br/>设备："@ =~= "<br/>"@ + "设备："@);
    assert("\n登录方式："@ =~= "\n"@ + "登录方式："@);
    assert("\n账号："@ =~= "\n"@ + "账号："@);
    assert("\nIP："@ =~= "\n"@ + "IP："@);
    assert("\n设备："@ =~= "\n"@ + "设备："@);
    lemma_method_label(method);
    let none = Seq::<char>::empty();
    let label = method_label(method);
    let p0 = lemma_bold_first(when);
    let p1 = lemma_line_added(p0, "登录方式："@, label, none);
    let p2 = lemma_line_added(p1, "账号："@, username, none);
    let p3 = lemma_line_added(p2, "IP："@, ip, none);
    let p4 = lemma_line_added(p3, "设备："@, device, none);
    assert(marked_up(p1) =~= "<b>"@ + when + "</b><br/>登录方式："@ + label);
    assert(marked_up(p2) =~= marked_up(p1) + "<br/>账号："@ + username);
    assert(marked_up(p3) =~= marked_up(p2) + "<br/>IP："@ + ip);
    assert(marked_up(p4) =~= marked_up(p3) + "<br/>设备："@ + device);
    assert(flat(p1) =~= when + "\n登录方式："@ + label);
    assert(flat(p2) =~= flat(p1) + "\n账号："@ + username);
    assert(flat(p3) =~= flat(p2) + "\nIP："@ + ip);
    assert(flat(p4) =~= flat(p3) + "\n设备："@ + device);
    law_message_as_plain_text(p4);
    lemma_plain_title(title, login_content(when, method, username, ip, device));
}

/// A node notice reads as plain text, as long as what it is filled in with
/// holds no marks itself.
pub proof fn law_node_notice_as_plain_text(
    title: Seq<char>,
    transition: Transition,
    name: Seq<char>,
    when: Seq<char>,
)
    requires
        markless(title),
        markless(name),
        markless(when),
    ensures
        plain_text(title + "\n"@ + node_content(transition, name, when)) == title + "\n"@
            + node_lines(transition, name, when),
{
    lemma_marks();
    reveal_strlit("</b><br/>节点「");
    reveal_strlit("\n节点「");
    reveal_strlit("节点「");
    reveal_strlit("」已上线");
    reveal_strlit("」已掉线");
    let ending = match transition {
        Transition::Up => "」已上线"@,
        Transition::Down => "」已掉线"@,
    };
    assert("</b><br/>节点「"@ =~= "</b>"@ + ("<br/>"@ + "节点「"@));
    assert("\n节点「"@ =~= "\n"@ + "节点「"@);
    let p0 = lemma_bold_first(when);
    let p1 = lemma_line_added(p0, "节点「"@, name, ending);
    assert(marked_up(p1) =~= "<b>"@ + when + "</b><br/>节点「"@ + name + ending);
    assert(flat(p1) =~= when + "\n节点「"@ + name + ending);
    law_message_as_plain_text(p1);
    lemma_plain_title(title, node_content(transition, name, when));
}

/// Replacing a mark works on what stands before a text that goes on with no mark,
/// and on that text.
proof fn lemma_replaced_in_parts(a: Seq<char>, rest: Seq<char>, from: Seq<char>, to: Seq<char>)
    requires
        is_mark(from),
        breaks_off(rest),
    ensures
        replaced(a + rest, from, to) == replaced(a, from, to) + replaced(rest, from, to),
    decreases a.len(),
{
    lemma_mark(from);
    let all = a + rest;
    let n = from.len() as int;
    if a.len() == 0 {
        assert(all =~= rest);
        assert(replaced(a, from, to) + replaced(rest, from, to) =~= replaced(rest, from, to));
    } else if a.len() >= n && a.take(n) == from {
        assert(all.take(n) =~= from);
        assert(all.skip(n) =~= a.skip(n) + rest);
        lemma_replaced_in_parts(a.skip(n), rest, from, to);
        assert(to + (replaced(a.skip(n), from, to) + replaced(rest, from, to)) =~= (to + replaced(
            a.skip(n),
            from,
            to,
        )) + replaced(rest, from, to));
    } else {
        if all.len() >= n && all.take(n) == from {
            if a.len() >= n {
                assert(a.take(n) =~= all.take(n));
            } else {
                assert(all.take(n)[a.len() as int] == rest[0]);
                assert(inside_mark(from[a.len() as int]));
            }
        }
        lemma_replaced_in_parts(a.skip(1), rest, from, to);
        assert(all.skip(1) =~= a.skip(1) + rest);
        lemma_short(a, from, to);
        lemma_short(all, from, to);
        assert(all[0] == a[0]);
        assert(seq![a[0]] + (replaced(a.skip(1), from, to) + replaced(rest, from, to)) =~= (seq![
            a[0],
        ] + replaced(a.skip(1), from, to)) + replaced(rest, from, to));
    }
}

/// Where the pattern does not stand at the front, the first character is kept.
proof fn lemma_short(s: Seq<char>, from: Seq<char>, to: Seq<char>)
    requires
        s.len() > 0,
        from.len() > 0,
        !(s.len() >= from.len() && s.take(from.len() as int) == from),
    ensures
        replaced(s, from, to) == seq![s[0]] + replaced(s.skip(1), from, to),
{
    if s.len() < from.len() {
        assert(seq![s[0]] + s.skip(1) =~= s);
    }
}

/// Replacing a mark works on the two sides of what it turns into something else.
proof fn lemma_replaced_around(
    a: Seq<char>,
    mark: Seq<char>,
    result: Seq<char>,
    b: Seq<char>,
    from: Seq<char>,
    to: Seq<char>,
)
    requires
        is_mark(from),
        mark.len() > 0,
        breaks_off(mark),
        turns(mark, result, from, to),
    ensures
        replaced(a + mark + b, from, to) == replaced(a, from, to) + result + replaced(b, from, to),
{
    let rest = mark + b;
    assert(a + mark + b =~= a + rest);
    assert(rest[0] == mark[0]);
    lemma_replaced_in_parts(a, rest, from, to);
    lemma_over_mark(mark, result, b, from, to);
    assert(replaced(a, from, to) + (result + replaced(b, from, to)) =~= replaced(a, from, to)
        + result + replaced(b, from, to));
}

/// A line break parts a message: however it is written, the plain text is that of
/// what stands before it, a line feed, and that of what stands after it, whatever
/// that is.
pub proof fn law_a_line_break_parts_a_message(a: Seq<char>, b: Seq<char>)
    ensures
        plain_text(a + "<br/>"@ + b) == plain_text(a) + seq!['\n'] + plain_text(b),
        plain_text(a + "<br>"@ + b) == plain_text(a) + seq!['\n'] + plain_text(b),
        plain_text(a + seq!['\n'] + b) == plain_text(a) + seq!['\n'] + plain_text(b),
{
    lemma_marks();
    let long = "<br/>"@;
    let short = "<br>"@;
    let open = "<b>"@;
    let close = "</b>"@;
    let line = "\n"@;
    assert(differs(short, long)) by {
        assert(short[3] != long[3]);
    }
    let a1 = replaced(a, long, line);
    let b1 = replaced(b, long, line);
    let a2 = replaced(a1, short, line);
    let b2 = replaced(b1, short, line);
    let a3 = replaced(a2, open, ""@);
    let b3 = replaced(b2, open, ""@);
    lemma_replaced_around(a, long, line, b, long, line);
    lemma_replaced_around(a, short, short, b, long, line);
    lemma_replaced_around(a, line, line, b, long, line);
    lemma_replaced_around(a1, short, line, b1, short, line);
    lemma_replaced_around(a1, line, line, b1, short, line);
    lemma_replaced_around(a2, line, line, b2, open, ""@);
    lemma_replaced_around(a3, line, line, b3, close, ""@);
}

/// A text without marks is its own plain text.
pub proof fn law_text_without_marks_stays(s: Seq<char>)
    requires
        markless(s),
    ensures
        plain_text(s) == s,
{
    let none = Seq::<char>::empty();
    lemma_marks();
    assert(s + none =~= s);
    assert forall|mark: Seq<char>, to: Seq<char>|
        is_mark(mark) && !contains(s, mark) implies #[trigger] replaced(s, mark, to) == s by {
        lemma_mark(mark);
        lemma_no_mark_begins(s, none, mark);
        lemma_over_text(s, none, mark, to);
    }
    assert(is_mark("<br/>"@) && is_mark("<br>"@) && is_mark("<b>"@) && is_mark("</b>"@));
}

/// The end of bold text parts a message without leaving anything, whatever stands
/// around it.
pub proof fn law_the_end_of_bold_text_leaves_nothing(a: Seq<char>, b: Seq<char>)
    ensures
        plain_text(a + "</b>"@ + b) == plain_text(a) + plain_text(b),
{
    lemma_marks();
    let long = "<br/>"@;
    let short = "<br>"@;
    let open = "<b>"@;
    let close = "</b>"@;
    let line = "\n"@;
    let none = Seq::<char>::empty();
    assert(differs(close, long)) by {
        assert(close[1] != long[1]);
    }
    assert(differs(close, short)) by {
        assert(close[1] != short[1]);
    }
    assert(differs(close, open)) by {
        assert(close[1] != open[1]);
    }
    let a1 = replaced(a, long, line);
    let b1 = replaced(b, long, line);
    let a2 = replaced(a1, short, line);
    let b2 = replaced(b1, short, line);
    let a3 = replaced(a2, open, none);
    let b3 = replaced(b2, open, none);
    lemma_replaced_around(a, close, close, b, long, line);
    lemma_replaced_around(a1, close, close, b1, short, line);
    lemma_replaced_around(a2, close, close, b2, open, none);
    lemma_replaced_around(a3, close, none, b3, close, none);
    assert(plain_text(a) + none + plain_text(b) =~= plain_text(a) + plain_text(b));
}

/// The start of bold text leaves nothing either, where the bold text begins with
/// none of the characters of a mark.
pub proof fn law_the_start_of_bold_text_leaves_nothing(a: Seq<char>, b: Seq<char>)
    requires
        b.len() > 0 ==> b[0] != '<' && b[0] != '/' && b[0] != 'b' && b[0] != 'r' && b[0] != '>',
    ensures
        plain_text(a + "<b>"@ + b) == plain_text(a) + plain_text(b),
{
    lemma_marks();
    let long = "<br/>"@;
    let short = "<br>"@;
    let open = "<b>"@;
    let close = "</b>"@;
    let line = "\n"@;
    let none = Seq::<char>::empty();
    assert(differs(open, long)) by {
        assert(open[2] != long[2]);
    }
    assert(differs(open, short)) by {
        assert(open[2] != short[2]);
    }
    let a1 = replaced(a, long, line);
    let b1 = replaced(b, long, line);
    let a2 = replaced(a1, short, line);
    let b2 = replaced(b1, short, line);
    let a3 = replaced(a2, open, none);
    let b3 = replaced(b2, open, none);
    lemma_replaced_around(a, open, open, b, long, line);
    lemma_replaced_around(a1, open, open, b1, short, line);
    lemma_replaced_around(a2, open, none, b2, open, none);
    assert(a3 + none + b3 =~= a3 + b3);
    lemma_front_stays(b, long, line);
    lemma_front_stays(b1, short, line);
    lemma_front_stays(b2, open, none);
    lemma_replaced_in_parts(a3, b3, close, none);
}

/// A text that does not begin with a mark still begins as it did after a mark has
/// been replaced.
proof fn lemma_front_stays(s: Seq<char>, from: Seq<char>, to: Seq<char>)
    requires
        is_mark(from),
        s.len() > 0 ==> s[0] != '<',
    ensures
        s.len() == 0 ==> replaced(s, from, to).len() == 0,
        s.len() > 0 ==> replaced(s, from, to).len() > 0 && replaced(s, from, to)[0] == s[0],
{
    lemma_mark(from);
    if s.len() > 0 {
        if s.len() >= from.len() && s.take(from.len() as int) == from {
            assert(s.take(from.len() as int)[0] == s[0]);
        }
        lemma_short(s, from, to);
    }
}

} // verus!
