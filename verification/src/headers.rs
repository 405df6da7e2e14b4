//! The headers that an operator configures for the webhook: `Name: value`, one
//! per line. A configured value is never echoed back: it is typically the
//! credential.

use vstd::prelude::*;

use crate::text::{alphanumeric, chars_of, part, position, split_lines, string_of, trim};
use crate::text::{line_views, lines, trimmed};

verus! {

/// `c` may stand in a header name.
pub open spec fn header_name_char(c: char) -> bool {
    ||| alphanumeric(c)
    ||| c == '!'
    ||| '#' <= c <= '\''
    ||| c == '*'
    ||| c == '+'
    ||| c == '-'
    ||| c == '.'
    ||| '^' <= c <= '`'
    ||| c == '|'
    ||| c == '~'
}

/// `s` is a header name.
pub open spec fn header_name_valid(s: Seq<char>) -> bool {
    &&& 0 < s.len() <= 0xffff
    &&& forall|i: int| 0 <= i < s.len() ==> header_name_char(#[trigger] s[i])
}

/// `s` is a header value.
pub open spec fn header_value_valid(s: Seq<char>) -> bool {
    forall|i: int|
        0 <= i < s.len() ==> {
            let c = #[trigger] s[i];
            c == '\t' || (' ' <= c && c != '\u{7f}')
        }
}

/// The small letter of an ASCII capital; any other character as it is.
pub open spec fn lowered(c: char) -> char {
    if 'A' <= c <= 'Z' {
        (c as int + 32) as char
    } else {
        c
    }
}

/// The form in which a header name is kept: in small letters.
pub open spec fn header_name_kept(s: Seq<char>) -> Seq<char> {
    s.map_values(|c: char| lowered(c))
}

/// `reqwest::header::HeaderName::try_from`: a name of 1 to 65535 token
/// characters is taken, in small letters, and no other text.
#[verifier::external_body]
fn header_name(text: &str) -> (r: Option<String>)
    ensures
        match r {
            Some(name) => header_name_valid(text@) && name@ == header_name_kept(text@),
            None => !header_name_valid(text@),
        },
{
    reqwest::header::HeaderName::try_from(text).ok().map(|name| name.as_str().to_owned())
}

/// `reqwest::header::HeaderValue::try_from`: a text without control characters
/// is taken, where a tab counts as none and a character beyond ASCII too.
#[verifier::external_body]
fn header_value_taken(text: &str) -> (r: bool)
    ensures
        r == header_value_valid(text@),
{
    reqwest::header::HeaderValue::try_from(text).is_ok()
}

/// How the standard library's `Debug` writes a text: in quotes, with escapes.
pub uninterp spec fn debug_written(text: Seq<char>) -> Seq<char>;

/// `Debug` of a `str`.
#[verifier::external_body]
fn write_debug(text: &str) -> (r: String)
    ensures
        r@ == debug_written(text@),
{
    format!("{:?}", text)
}

/// What is wrong with a configured header.
pub enum HeaderFault {
    /// A line without a colon.
    NoColon,
    /// What stands before the colon is no header name.
    InvalidName(Seq<char>),
    /// What stands after the colon is no value, under this header name.
    InvalidValue(Seq<char>),
}

/// What is wrong with a configured header.
#[derive(Debug, PartialEq, Eq)]
pub enum HeaderError {
    NoColon,
    InvalidName(String),
    InvalidValue(String),
}

impl View for HeaderError {
    type V = HeaderFault;

    open spec fn view(&self) -> HeaderFault {
        match self {
            HeaderError::NoColon => HeaderFault::NoColon,
            HeaderError::InvalidName(name) => HeaderFault::InvalidName(name@),
            HeaderError::InvalidValue(name) => HeaderFault::InvalidValue(name@),
        }
    }
}

impl HeaderFault {
    /// The fault in words.
    pub open spec fn message(self) -> Seq<char> {
        match self {
            HeaderFault::NoColon => "every webhook header line must read Name: value"@,
            HeaderFault::InvalidName(name) => "invalid header name "@ + debug_written(name),
            HeaderFault::InvalidValue(name) => "invalid value for header "@ + name,
        }
    }
}

impl HeaderError {
    /// The fault in words.
    pub fn message(&self) -> (r: String)
        ensures
            r@ == self@.message(),
    {
        match self {
            HeaderError::NoColon => "every webhook header line must read Name: value".to_owned(),
            HeaderError::InvalidName(name) => {
                let mut message: String = "invalid header name ".to_owned();
                message.append(write_debug(name.as_str()).as_str());
                message
            },
            HeaderError::InvalidValue(name) => {
                let mut message: String = "invalid value for header ".to_owned();
                message.append(name.as_str());
                message
            },
        }
    }
}

/// A configured header: its name in small letters, and its value.
#[derive(Debug, PartialEq, Eq)]
pub struct Header {
    pub name: String,
    pub value: String,
}

impl View for Header {
    type V = (Seq<char>, Seq<char>);

    open spec fn view(&self) -> (Seq<char>, Seq<char>) {
        (self.name@, self.value@)
    }
}

/// The header that a line spells: what stands before its first colon, and what
/// stands after it.
pub open spec fn header_in(line: Seq<char>) -> Result<(Seq<char>, Seq<char>), HeaderFault> {
    match line.index_of_first(':') {
        None => Err(HeaderFault::NoColon),
        Some(i) => {
            let name = trimmed(line.take(i));
            let value = trimmed(line.skip(i + 1));
            if !header_name_valid(name) {
                Err(HeaderFault::InvalidName(name))
            } else if !header_value_valid(value) {
                Err(HeaderFault::InvalidValue(header_name_kept(name)))
            } else {
                Ok((header_name_kept(name), value))
            }
        },
    }
}

/// The headers that lines spell: one per line that is not blank, or the fault
/// of the first line that has one.
pub open spec fn headers_in(ls: Seq<Seq<char>>) -> Result<Seq<(Seq<char>, Seq<char>)>, HeaderFault>
    decreases ls.len(),
{
    if ls.len() == 0 {
        Ok(Seq::empty())
    } else if trimmed(ls[0]).len() == 0 {
        headers_in(ls.skip(1))
    } else {
        match header_in(trimmed(ls[0])) {
            Err(fault) => Err(fault),
            Ok(header) => match headers_in(ls.skip(1)) {
                Err(fault) => Err(fault),
                Ok(rest) => Ok(seq![header] + rest),
            },
        }
    }
}

/// The headers that a text spells.
pub open spec fn headers_spelled(text: Seq<char>) -> Result<
    Seq<(Seq<char>, Seq<char>)>,
    HeaderFault,
> {
    headers_in(lines(text))
}

/// What the result of reading a line says.
pub open spec fn header_result(r: Result<Header, HeaderError>) -> Result<
    (Seq<char>, Seq<char>),
    HeaderFault,
> {
    match r {
        Ok(header) => Ok(header@),
        Err(error) => Err(error@),
    }
}

/// The headers of a list.
pub open spec fn header_views(list: Seq<Header>) -> Seq<(Seq<char>, Seq<char>)> {
    list.map_values(|header: Header| header@)
}

/// Reads one line that is not blank.
fn parse_header(line: &[char]) -> (r: Result<Header, HeaderError>)
    ensures
        header_result(r) == header_in(line@),
{
    proof {
        line@.index_of_first_ensures(':');
    }
    match position(line, ':') {
        None => Err(HeaderError::NoColon),
        Some(i) => {
            let n: usize = line.len();
            let before = part(line, 0, i);
            let after = part(line, i + 1, n);
            assert(before@ =~= line@.take(i as int));
            assert(after@ =~= line@.skip(i + 1));
            let name = string_of(trim(before.as_slice()).as_slice());
            let value = string_of(trim(after.as_slice()).as_slice());
            match header_name(name.as_str()) {
                None => Err(HeaderError::InvalidName(name)),
                Some(kept) => if header_value_taken(value.as_str()) {
                    Ok(Header { name: kept, value })
                } else {
                    Err(HeaderError::InvalidValue(kept))
                },
            }
        },
    }
}

/// Reads `Name: value`, one per line. Blank lines are passed over, and so is
/// white space around a line, a name or a value.
pub fn parse_headers(text: &str) -> (r: Result<Vec<Header>, HeaderError>)
    ensures
        match r {
            Ok(list) => headers_spelled(text@) == Ok::<_, HeaderFault>(header_views(list@)),
            Err(error) => headers_spelled(text@) == Err::<Seq<(Seq<char>, Seq<char>)>, _>(error@),
        },
{
    let ls = split_lines(chars_of(text).as_slice());
    let ghost views = line_views(ls@);
    let mut list: Vec<Header> = Vec::new();
    let mut i: usize = 0;
    assert(views.skip(0) =~= views);
    proof {
        if let Ok(rest) = headers_in(views) {
            assert(header_views(list@) + rest =~= rest);
        }
    }
    while i < ls.len()
        invariant
            i <= ls@.len(),
            views == line_views(ls@),
            views == lines(text@),
            match headers_in(views.skip(i as int)) {
                Ok(rest) => headers_in(views) == Ok::<_, HeaderFault>(header_views(list@) + rest),
                Err(fault) => headers_in(views) == Err::<Seq<(Seq<char>, Seq<char>)>, _>(fault),
            },
        decreases ls@.len() - i,
    {
        let ghost left = views.skip(i as int);
        let ghost before = list@;
        assert(left.skip(1) =~= views.skip(i + 1));
        assert(left[0] == ls@[i as int]@);
        let line = trim(ls[i].as_slice());
        if line.len() > 0 {
            match parse_header(line.as_slice()) {
                Ok(header) => {
                    list.push(header);
                    proof {
                        assert(header_views(list@) =~= header_views(before).push(header@));
                        if let Ok(rest) = headers_in(left.skip(1)) {
                            assert(header_views(before) + (seq![header@] + rest) =~= header_views(
                                list@,
                            ) + rest);
                        }
                    }
                },
                Err(error) => {
                    return Err(error);
                },
            }
        }
        i += 1;
    }
    assert(header_views(list@) + Seq::<(Seq<char>, Seq<char>)>::empty() =~= header_views(list@));
    Ok(list)
}

/// What is said of a faulty line does not depend on what stands behind its
/// colon: a configured value is never echoed.
pub proof fn law_value_is_never_echoed(before: Seq<char>, one: Seq<char>, other: Seq<char>)
    requires
        !before.contains(':'),
        header_in(before.push(':') + one) is Err,
        header_in(before.push(':') + other) is Err,
    ensures
        header_in(before.push(':') + one)->Err_0 == header_in(before.push(':') + other)->Err_0,
{
    lemma_colon(before, one);
    lemma_colon(before, other);
}

/// The first colon of a line ends what stands before it.
proof fn lemma_colon(before: Seq<char>, after: Seq<char>)
    requires
        !before.contains(':'),
    ensures
        (before.push(':') + after).index_of_first(':') == Some(before.len() as int),
        (before.push(':') + after).take(before.len() as int) == before,
        (before.push(':') + after).skip(before.len() as int + 1) == after,
{
    let line = before.push(':') + after;
    line.index_of_first_ensures(':');
    assert(line[before.len() as int] == ':');
    let at = line.index_of_first(':')->0;
    if at < before.len() {
        assert(before[at] == ':');
    }
    assert(line.take(before.len() as int) =~= before);
    assert(line.skip(before.len() as int + 1) =~= after);
}

/// The text that a fault quotes, if it quotes any, stands before the first
/// colon of a line of the configuration.
pub open spec fn quotes_a_name(fault: HeaderFault, line: Seq<char>) -> bool {
    let before = trimmed(line.take(line.index_of_first(':')->0));
    match fault {
        HeaderFault::NoColon => line.index_of_first(':') is None,
        HeaderFault::InvalidName(name) => line.index_of_first(':') is Some && name == before,
        HeaderFault::InvalidValue(name) => line.index_of_first(':') is Some && name
            == header_name_kept(before),
    }
}

/// All that the fault of a configuration quotes of it is the name in one of its
/// lines.
pub proof fn law_fault_quotes_a_name(ls: Seq<Seq<char>>)
    requires
        headers_in(ls) is Err,
    ensures
        exists|i: int|
            0 <= i < ls.len() && quotes_a_name(headers_in(ls)->Err_0, trimmed(#[trigger] ls[i])),
    decreases ls.len(),
{
    let rest = ls.skip(1);
    if trimmed(ls[0]).len() > 0 && header_in(trimmed(ls[0])) is Err {
        assert(quotes_a_name(headers_in(ls)->Err_0, trimmed(ls[0])));
    } else {
        law_fault_quotes_a_name(rest);
        let i = choose|i: int|
            0 <= i < rest.len() && quotes_a_name(headers_in(rest)->Err_0, trimmed(#[trigger] rest[i]));
        assert(ls[i + 1] == rest[i]);
    }
}

/// The line `i` is the first that has a fault.
pub open spec fn first_fault_at(ls: Seq<Seq<char>>, i: int) -> bool {
    &&& 0 <= i < ls.len()
    &&& trimmed(ls[i]).len() > 0
    &&& header_in(trimmed(ls[i])) is Err
    &&& forall|k: int|
        0 <= k < i ==> trimmed(#[trigger] ls[k]).len() == 0 || header_in(trimmed(ls[k])) is Ok
}

/// What a line holds before its first colon, if it has one.
pub open spec fn before_colon(line: Seq<char>) -> Option<Seq<char>> {
    match line.index_of_first(':') {
        Some(i) => Some(line.take(i)),
        None => None,
    }
}

/// The fault of a configuration is that of its first line with one.
proof fn lemma_first_fault(ls: Seq<Seq<char>>, i: int)
    requires
        first_fault_at(ls, i),
    ensures
        headers_in(ls) is Err,
        headers_in(ls)->Err_0 == header_in(trimmed(ls[i]))->Err_0,
    decreases ls.len(),
{
    if i > 0 {
        let rest = ls.skip(1);
        assert(trimmed(ls[0]).len() == 0 || header_in(trimmed(ls[0])) is Ok);
        assert(rest[i - 1] == ls[i]);
        assert forall|k: int| 0 <= k < i - 1 implies trimmed(#[trigger] rest[k]).len() == 0
            || header_in(trimmed(rest[k])) is Ok by {
            assert(rest[k] == ls[k + 1]);
        }
        lemma_first_fault(rest, i - 1);
    }
}

/// A configuration is at fault exactly if one of its lines is.
pub proof fn law_a_line_is_at_fault(ls: Seq<Seq<char>>)
    ensures
        headers_in(ls) is Err <==> exists|i: int| first_fault_at(ls, i),
    decreases ls.len(),
{
    if exists|i: int| first_fault_at(ls, i) {
        lemma_first_fault(ls, choose|i: int| first_fault_at(ls, i));
    } else if ls.len() > 0 {
        let rest = ls.skip(1);
        law_a_line_is_at_fault(rest);
        assert(!first_fault_at(ls, 0));
        if headers_in(ls) is Err {
            let i = choose|i: int| first_fault_at(rest, i);
            assert(ls[i + 1] == rest[i]);
            assert forall|k: int| 0 <= k < i + 1 implies trimmed(#[trigger] ls[k]).len() == 0
                || header_in(trimmed(ls[k])) is Ok by {
                if k > 0 {
                    assert(ls[k] == rest[k - 1]);
                }
            }
            assert(first_fault_at(ls, i + 1));
        }
    }
}

/// What is said of a faulty configuration does not depend on any value in it:
/// two configurations whose first faulty lines are the same up to what follows
/// the colon have the same fault.
pub proof fn law_no_value_is_echoed(one: Seq<char>, other: Seq<char>, i: int, j: int)
    requires
        first_fault_at(lines(one), i),
        first_fault_at(lines(other), j),
        before_colon(trimmed(lines(one)[i])) == before_colon(trimmed(lines(other)[j])),
    ensures
        headers_spelled(one) is Err,
        headers_spelled(other) is Err,
        headers_spelled(one)->Err_0 == headers_spelled(other)->Err_0,
{
    lemma_first_fault(lines(one), i);
    lemma_first_fault(lines(other), j);
}

/// The lines of two texts joined by a line feed are those of the first and then
/// those of the second.
pub proof fn lemma_lines_joined(one: Seq<char>, other: Seq<char>)
    ensures
        lines(one.push('\n') + other) == lines(one) + lines(other),
    decreases one.len(),
{
    let all = one.push('\n') + other;
    all.index_of_first_ensures('\n');
    one.index_of_first_ensures('\n');
    assert(all[one.len() as int] == '\n');
    assert(all.contains('\n'));
    let at = all.index_of_first('\n')->0;
    if one.contains('\n') {
        let i = one.index_of_first('\n')->0;
        assert(all[i] == one[i]);
        if at < i {
            assert(one[at] == '\n');
        }
        assert(at == i);
        assert(all.take(i) =~= one.take(i));
        assert(all.skip(i + 1) =~= one.skip(i + 1).push('\n') + other);
        lemma_lines_joined(one.skip(i + 1), other);
        assert(seq![one.take(i)] + (lines(one.skip(i + 1)) + lines(other)) =~= lines(one) + lines(
            other,
        ));
    } else {
        if at < one.len() {
            assert(one[at] == '\n');
        }
        assert(at == one.len());
        assert(all.take(at) =~= one);
        assert(all.skip(at + 1) =~= other);
    }
}

/// What is read of some lines and then of others.
pub open spec fn read_in_turn(
    one: Result<Seq<(Seq<char>, Seq<char>)>, HeaderFault>,
    other: Result<Seq<(Seq<char>, Seq<char>)>, HeaderFault>,
) -> Result<Seq<(Seq<char>, Seq<char>)>, HeaderFault> {
    match one {
        Err(fault) => Err(fault),
        Ok(list) => match other {
            Err(fault) => Err(fault),
            Ok(more) => Ok(list + more),
        },
    }
}

/// Lines spell what their first part spells and then what the rest does.
proof fn lemma_headers_joined(one: Seq<Seq<char>>, other: Seq<Seq<char>>)
    ensures
        headers_in(one + other) == read_in_turn(headers_in(one), headers_in(other)),
    decreases one.len(),
{
    let all = one + other;
    if one.len() == 0 {
        assert(all =~= other);
        if let Ok(more) = headers_in(other) {
            assert(Seq::<(Seq<char>, Seq<char>)>::empty() + more =~= more);
        }
    } else {
        assert(all.skip(1) =~= one.skip(1) + other);
        assert(all[0] == one[0]);
        lemma_headers_joined(one.skip(1), other);
        if trimmed(one[0]).len() > 0 {
            if let Ok(header) = header_in(trimmed(one[0])) {
                if let Ok(list) = headers_in(one.skip(1)) {
                    if let Ok(more) = headers_in(other) {
                        assert(seq![header] + (list + more) =~= (seq![header] + list) + more);
                    }
                }
            }
        }
    }
}

/// Two texts joined by a line feed spell the headers of the first and then those
/// of the second, or the fault of the first that has one.
pub proof fn law_joined_texts_are_read_in_turn(one: Seq<char>, other: Seq<char>)
    ensures
        headers_spelled(one.push('\n') + other) == read_in_turn(
            headers_spelled(one),
            headers_spelled(other),
        ),
{
    lemma_lines_joined(one, other);
    lemma_headers_joined(lines(one), lines(other));
}

} // verus!
