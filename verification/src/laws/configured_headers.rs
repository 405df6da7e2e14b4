//! Laws of the webhook's configured headers.

use vstd::prelude::*;

use crate::headers::{
    debug_written, header_in, header_name_char, header_name_kept, header_name_valid, header_value_valid, header_views,
    headers_in, headers_spelled, Header, HeaderError, HeaderFault,
};
use crate::laws::text_operations::law_white_space_around_is_taken_off;
use crate::text::{lines, trimmed, whitespace};
use crate::webhook::{
    default_headers, headers_with, names_before_last, HEADER_LIMIT, HEADER_ROOM,
};

verus! {

/// `s` is white space within a line.
pub open spec fn blank(s: Seq<char>) -> bool {
    forall|i: int| 0 <= i < s.len() ==> whitespace(#[trigger] s[i]) && s[i] != '\n'
}

/// `s` has no white space at its ends, and no line feed.
pub open spec fn bare(s: Seq<char>) -> bool {
    &&& s.len() > 0 ==> !whitespace(s[0]) && !whitespace(s[s.len() - 1])
    &&& forall|i: int| 0 <= i < s.len() ==> #[trigger] s[i] != '\n'
}

/// `s` can be a header name: 1 to 65535 letters, digits and marks.
pub open spec fn nameable(s: Seq<char>) -> bool {
    &&& 0 < s.len() <= 65535
    &&& forall|i: int|
        0 <= i < s.len() ==> {
            let c = #[trigger] s[i];
            ||| '0' <= c <= '9'
            ||| 'A' <= c <= 'Z'
            ||| 'a' <= c <= 'z'
            ||| c == '!' || c == '#' || c == '$' || c == '%' || c == '&' || c == '\'' || c == '*'
            ||| c == '+' || c == '-' || c == '.' || c == '^' || c == '_' || c == '`' || c == '|'
            ||| c == '~'
        }
}

/// `s` can be a header value: no control characters but tabs.
pub open spec fn sendable(s: Seq<char>) -> bool {
    forall|i: int|
        0 <= i < s.len() ==> {
            let c = #[trigger] s[i];
            c == '\t' || (' ' <= c && c != '\u{7f}')
        }
}

/// `small` is `name` with small letters for capital ones.
pub open spec fn in_small_letters(name: Seq<char>, small: Seq<char>) -> bool {
    &&& small.len() == name.len()
    &&& forall|i: int|
        0 <= i < name.len() ==> #[trigger] small[i] == if 'A' <= name[i] <= 'Z' {
            (name[i] as u32 + 32) as char
        } else {
            name[i]
        }
}

/// The line with a name and a value, and white space around them.
pub open spec fn header_line(
    a: Seq<char>,
    name: Seq<char>,
    b: Seq<char>,
    c: Seq<char>,
    value: Seq<char>,
    d: Seq<char>,
) -> Seq<char> {
    a + name + b + seq![':'] + c + value + d
}

/// What is taken for a name or a value is what can be one.
proof fn lemma_taken(name: Seq<char>, value: Seq<char>)
    ensures
        header_name_valid(name) <==> nameable(name),
        header_value_valid(value) <==> sendable(value),
        in_small_letters(name, header_name_kept(name)),
        forall|small: Seq<char>| #[trigger]
            in_small_letters(name, small) ==> small == header_name_kept(name),
{
    assert forall|small: Seq<char>| #[trigger] in_small_letters(name, small) implies small
        == header_name_kept(name) by {
        assert(small =~= header_name_kept(name));
    }
    if nameable(name) {
        assert forall|i: int| 0 <= i < name.len() implies header_name_char(
            #[trigger] name[i],
        ) by {}
    }
    if header_name_valid(name) {
        assert forall|i: int| 0 <= i < name.len() implies {
            let c = #[trigger] name[i];
            ||| '0' <= c <= '9'
            ||| 'A' <= c <= 'Z'
            ||| 'a' <= c <= 'z'
            ||| c == '!' || c == '#' || c == '$' || c == '%' || c == '&' || c == '\'' || c == '*'
            ||| c == '+' || c == '-' || c == '.' || c == '^' || c == '_' || c == '`' || c == '|'
            ||| c == '~'
        } by {
            assert(header_name_char(name[i]));
        }
    }
}

/// A line that is trimmed to `core`, which is not blank, spells what that does.
proof fn lemma_one_line(text: Seq<char>, core: Seq<char>)
    requires
        forall|i: int| 0 <= i < text.len() ==> #[trigger] text[i] != '\n',
        trimmed(text) == core,
    ensures
        core.len() == 0 ==> headers_spelled(text) == Ok::<_, HeaderFault>(
            Seq::<(Seq<char>, Seq<char>)>::empty(),
        ),
        core.len() > 0 ==> headers_spelled(text) == match header_in(core) {
            Ok(header) => Ok::<_, HeaderFault>(seq![header]),
            Err(fault) => Err(fault),
        },
{
    text.index_of_first_ensures('\n');
    let ls = lines(text);
    assert(ls =~= seq![text]);
    assert(ls[0] == text);
    assert(ls.skip(1) =~= Seq::<Seq<char>>::empty());
    assert(headers_in(ls.skip(1)) == Ok::<_, HeaderFault>(
        Seq::<(Seq<char>, Seq<char>)>::empty(),
    ));
    if core.len() > 0 {
        if let Ok(header) = header_in(core) {
            assert(seq![header] + Seq::<(Seq<char>, Seq<char>)>::empty() =~= seq![header]);
        }
    }
}

/// A name and a value around a colon are read for what they are, whatever white
/// space stands around them.
proof fn lemma_line_read(
    a: Seq<char>,
    name: Seq<char>,
    b: Seq<char>,
    c: Seq<char>,
    value: Seq<char>,
    d: Seq<char>,
)
    requires
        blank(a) && blank(b) && blank(c) && blank(d),
        bare(name) && bare(value),
        !name.contains(':'),
    ensures
        headers_spelled(header_line(a, name, b, c, value, d)) == if !header_name_valid(name) {
            Err(HeaderFault::InvalidName(name))
        } else if !header_value_valid(value) {
            Err(HeaderFault::InvalidValue(header_name_kept(name)))
        } else {
            Ok(seq![(header_name_kept(name), value)])
        },
{
    let text = header_line(a, name, b, c, value, d);
    let none = Seq::<char>::empty();
    // What is left of the line once the white space at its ends is off.
    let front = if name.len() == 0 {
        a + b
    } else {
        a
    };
    let end = if value.len() == 0 {
        c + d
    } else {
        d
    };
    let before = if name.len() == 0 {
        none
    } else {
        name + b
    };
    let after = if value.len() == 0 {
        none
    } else {
        c + value
    };
    let core = before + seq![':'] + after;
    assert(text =~= front + core + end);
    assert forall|i: int| 0 <= i < front.len() implies whitespace(#[trigger] front[i]) by {
        if i < a.len() {
            assert(whitespace(a[i]));
        } else {
            assert(whitespace(b[i - a.len()]));
        }
    }
    assert forall|i: int| 0 <= i < end.len() implies whitespace(#[trigger] end[i]) by {
        if value.len() == 0 && i < c.len() {
            assert(whitespace(c[i]));
        } else if value.len() == 0 {
            assert(whitespace(d[i - c.len()]));
        } else {
            assert(whitespace(d[i]));
        }
    }
    assert(!whitespace(':'));
    assert(!whitespace(core[0])) by {
        if name.len() > 0 {
            assert(core[0] == name[0]);
        } else {
            assert(core[0] == ':');
        }
    }
    assert(!whitespace(core[core.len() - 1])) by {
        if value.len() > 0 {
            assert(core[core.len() - 1] == value[value.len() - 1]);
        } else {
            assert(core[core.len() - 1] == ':');
        }
    }
    law_white_space_around_is_taken_off(front, core, end);
    assert forall|i: int| 0 <= i < text.len() implies #[trigger] text[i] != '\n' by {
        let n1 = a.len() + name.len();
        let n2 = n1 + b.len() + 1;
        let n3 = n2 + c.len();
        if i < a.len() {
            assert(a[i] != '\n');
        } else if i < n1 {
            assert(name[i - a.len()] != '\n');
        } else if i < n2 - 1 {
            assert(b[i - n1] != '\n');
        } else if i == n2 - 1 {
        } else if i < n3 {
            assert(c[i - n2] != '\n');
        } else if i < n3 + value.len() {
            assert(value[i - n3] != '\n');
        } else {
            assert(d[i - n3 - value.len()] != '\n');
        }
    }
    lemma_one_line(text, core);
    // The first colon is the one in the middle.
    let at = before.len() as int;
    core.index_of_first_ensures(':');
    assert(core[at] == ':');
    assert(core.contains(':'));
    let found = core.index_of_first(':')->0;
    assert(found == at) by {
        if found < at {
            assert(core[found] == before[found]);
            if found < name.len() {
                assert(name[found] == ':');
            } else {
                assert(whitespace(b[found - name.len()]));
            }
        }
    }
    assert(core.take(at) =~= before);
    assert(core.skip(at + 1) =~= after);
    if name.len() == 0 {
        law_white_space_around_is_taken_off(none, none, none);
        assert(none + none + none =~= none);
    } else {
        law_white_space_around_is_taken_off(none, name, b);
        assert(none + name + b =~= before);
    }
    if value.len() == 0 {
        law_white_space_around_is_taken_off(none, none, none);
        assert(none + none + none =~= none);
    } else {
        law_white_space_around_is_taken_off(c, value, none);
        assert(c + value + none =~= after);
    }
    assert(trimmed(core.take(at)) =~= name);
    assert(trimmed(core.skip(at + 1)) =~= value);
}

/// A line with a name and a value is that header: the name in small letters, and
/// the value character for character.
pub proof fn law_a_line_is_a_name_and_a_value(
    a: Seq<char>,
    name: Seq<char>,
    b: Seq<char>,
    c: Seq<char>,
    value: Seq<char>,
    d: Seq<char>,
    small: Seq<char>,
)
    requires
        blank(a) && blank(b) && blank(c) && blank(d),
        nameable(name),
        bare(value) && sendable(value),
        in_small_letters(name, small),
    ensures
        headers_spelled(header_line(a, name, b, c, value, d)) == Ok::<_, HeaderFault>(
            seq![(small, value)],
        ),
{
    lemma_taken(name, value);
    lemma_nameable_is_bare(name);
    lemma_line_read(a, name, b, c, value, d);
}

/// A header name has no white space and no colon in it.
proof fn lemma_nameable_is_bare(name: Seq<char>)
    requires
        nameable(name),
    ensures
        bare(name),
        !name.contains(':'),
{
    assert forall|i: int| 0 <= i < name.len() implies !whitespace(#[trigger] name[i]) && name[i]
        != '\n' && name[i] != ':' by {}
}

/// A line whose name cannot be one is refused with that name.
pub proof fn law_a_bad_name_is_told(
    a: Seq<char>,
    name: Seq<char>,
    b: Seq<char>,
    c: Seq<char>,
    value: Seq<char>,
    d: Seq<char>,
)
    requires
        blank(a) && blank(b) && blank(c) && blank(d),
        bare(name) && bare(value),
        !name.contains(':'),
        !nameable(name),
    ensures
        headers_spelled(header_line(a, name, b, c, value, d)) == Err::<
            Seq<(Seq<char>, Seq<char>)>,
            _,
        >(HeaderFault::InvalidName(name)),
{
    lemma_taken(name, value);
    lemma_line_read(a, name, b, c, value, d);
}

/// A line whose value cannot be one is refused with its name in small letters,
/// and with nothing of the value.
pub proof fn law_a_bad_value_is_told_by_its_name(
    a: Seq<char>,
    name: Seq<char>,
    b: Seq<char>,
    c: Seq<char>,
    value: Seq<char>,
    d: Seq<char>,
    small: Seq<char>,
)
    requires
        blank(a) && blank(b) && blank(c) && blank(d),
        nameable(name),
        bare(value) && !sendable(value),
        in_small_letters(name, small),
    ensures
        headers_spelled(header_line(a, name, b, c, value, d)) == Err::<
            Seq<(Seq<char>, Seq<char>)>,
            _,
        >(HeaderFault::InvalidValue(small)),
{
    lemma_taken(name, value);
    lemma_nameable_is_bare(name);
    lemma_line_read(a, name, b, c, value, d);
}

/// A blank line says nothing, and one that is not blank needs a colon.
pub proof fn law_a_line_without_a_colon(a: Seq<char>, s: Seq<char>, b: Seq<char>)
    requires
        blank(a) && blank(b),
        bare(s),
        !s.contains(':'),
    ensures
        s.len() == 0 ==> headers_spelled(a + s + b) == Ok::<_, HeaderFault>(
            Seq::<(Seq<char>, Seq<char>)>::empty(),
        ),
        s.len() > 0 ==> headers_spelled(a + s + b) == Err::<Seq<(Seq<char>, Seq<char>)>, _>(
            HeaderFault::NoColon,
        ),
{
    let text = a + s + b;
    assert forall|i: int| 0 <= i < a.len() implies whitespace(#[trigger] a[i]) by {}
    assert forall|i: int| 0 <= i < b.len() implies whitespace(#[trigger] b[i]) by {}
    law_white_space_around_is_taken_off(a, s, b);
    assert forall|i: int| 0 <= i < text.len() implies #[trigger] text[i] != '\n' by {
        if i < a.len() {
            assert(a[i] != '\n');
        } else if i < a.len() + s.len() {
            assert(s[i - a.len()] != '\n');
        } else {
            assert(b[i - a.len() - s.len()] != '\n');
        }
    }
    lemma_one_line(text, s);
    s.index_of_first_ensures(':');
}

/// Each fault has its words.
pub proof fn law_faults_have_their_words(name: Seq<char>)
    ensures
        HeaderFault::NoColon.message() == "every webhook header line must read Name: value"@,
        HeaderFault::InvalidName(name).message() == "invalid header name "@ + debug_written(name),
        HeaderFault::InvalidValue(name).message() == "invalid value for header "@ + name,
{
}

/// A list of headers says what each of them says, in order.
pub proof fn law_a_list_says_what_its_headers_say(list: Seq<Header>)
    ensures
        header_views(list).len() == list.len(),
        forall|i: int|
            0 <= i < list.len() ==> #[trigger] header_views(list)[i] == (
                list[i].name@,
                list[i].value@,
            ),
{
}

/// Under a name a request carries the value of the last header of that name, and
/// JSON as its content type where none is configured; there are no other
/// headers.
pub proof fn law_a_request_carries_what_is_configured(
    list: Seq<(Seq<char>, Seq<char>)>,
    header: (Seq<char>, Seq<char>),
    name: Seq<char>,
)
    ensures
        headers_with(default_headers(), Seq::empty()) == Map::<Seq<char>, Seq<Seq<u8>>>::empty().insert(
            "content-type"@,
            seq![vstd::utf8::encode_utf8("application/json"@)],
        ),
        headers_with(default_headers(), list.push(header)) == headers_with(
            default_headers(),
            list,
        ).insert(header.0, seq![vstd::utf8::encode_utf8(header.1)]),
        headers_with(default_headers(), list).dom().contains(name) <==> name == "content-type"@
            || exists|i: int| 0 <= i < list.len() && (#[trigger] list[i]).0 == name,
        names_before_last(list.push(header)) == headers_with(default_headers(), list).dom().len(),
        names_before_last(Seq::empty()) == 0,
        HEADER_ROOM == 6554,
        HEADER_LIMIT == 24576,
{
    assert(list.push(header).drop_last() =~= list);
    assert(headers_with(default_headers(), Seq::empty()) =~= default_headers());
    lemma_carried(list, name);
}

/// A request has the default name and the configured ones.
proof fn lemma_carried(list: Seq<(Seq<char>, Seq<char>)>, name: Seq<char>)
    ensures
        headers_with(default_headers(), list).dom().contains(name) <==> name == "content-type"@
            || exists|i: int| 0 <= i < list.len() && (#[trigger] list[i]).0 == name,
    decreases list.len(),
{
    if list.len() > 0 {
        let shorter = list.drop_last();
        lemma_carried(shorter, name);
        let n = list.len() - 1;
        if list[n].0 != name && exists|i: int| 0 <= i < list.len() && (#[trigger] list[i]).0 == name {
            let i = choose|i: int| 0 <= i < list.len() && (#[trigger] list[i]).0 == name;
            assert(shorter[i].0 == name);
        }
        if exists|i: int| 0 <= i < shorter.len() && (#[trigger] shorter[i]).0 == name {
            let i = choose|i: int| 0 <= i < shorter.len() && (#[trigger] shorter[i]).0 == name;
            assert(list[i].0 == name);
        }
    }
}

/// A fault that is told says what it quotes.
pub proof fn law_a_fault_says_what_it_quotes(name: String)
    ensures
        HeaderError::NoColon@ == HeaderFault::NoColon,
        HeaderError::InvalidName(name)@ == HeaderFault::InvalidName(name@),
        HeaderError::InvalidValue(name)@ == HeaderFault::InvalidValue(name@),
{
}

} // verus!
