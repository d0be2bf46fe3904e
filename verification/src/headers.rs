//! HTTP header names, values and maps.

use vstd::prelude::*;
use vstd::string::*;

use crate::text;

verus! {

/// A character that a header name may hold.
pub open spec fn token_char(c: char) -> bool {
    ||| 'a' <= c <= 'z'
    ||| 'A' <= c <= 'Z'
    ||| '0' <= c <= '9'
    ||| c == '!'
    ||| '#' <= c <= '\''
    ||| c == '*'
    ||| c == '+'
    ||| c == '-'
    ||| c == '.'
    ||| '^' <= c <= '`'
    ||| c == '|'
    ||| c == '~'
}

/// An ASCII letter in lower case, and everything else as it is.
pub open spec fn lower_char(c: char) -> char {
    if 'A' <= c <= 'Z' {
        (c as u32 + 32) as char
    } else {
        c
    }
}

/// Text with its ASCII letters in lower case.
pub open spec fn lowered(s: Seq<char>) -> Seq<char> {
    s.map_values(|c: char| lower_char(c))
}

/// The name that a text writes, in lower case.
pub open spec fn header_name(s: Seq<char>) -> Option<Seq<char>> {
    if 1 <= s.len() <= 65535 && forall|i: int| 0 <= i < s.len() ==> token_char(#[trigger] s[i]) {
        Some(lowered(s))
    } else {
        None
    }
}

/// Text that can be a header value: no control characters but tab.
pub open spec fn header_value(s: Seq<char>) -> bool {
    forall|i: int|
        0 <= i < s.len() ==> ((#[trigger] s[i]) as u32 >= 32 && s[i] as u32 != 127) || s[i] == '\t'
}

/// Text of visible ASCII characters, spaces and tabs.
pub open spec fn visible(s: Seq<char>) -> bool {
    forall|i: int| 0 <= i < s.len() ==> 32 <= (#[trigger] s[i]) as u32 <= 126 || s[i] == '\t'
}

/// `http::HeaderMap`.
#[verifier::external_type_specification]
#[verifier::external_body]
#[verifier::reject_recursive_types(T)]
pub struct ExHeaderMap<T>(http::HeaderMap<T>);

/// `http::HeaderValue`.
#[verifier::external_type_specification]
#[verifier::external_body]
pub struct ExHeaderValue(http::HeaderValue);

/// The values of each name in a header map, in the order they were added.
/// Names are in lower case.
pub uninterp spec fn header_contents(
    map: http::HeaderMap<http::HeaderValue>,
) -> Map<Seq<char>, Seq<Seq<char>>>;

/// No headers.
pub open spec fn no_headers() -> Map<Seq<char>, Seq<Seq<char>>> {
    Map::empty()
}

/// The values of a name.
pub open spec fn values_of(headers: Map<Seq<char>, Seq<Seq<char>>>, name: Seq<char>) -> Seq<
    Seq<char>,
> {
    if headers.dom().contains(name) {
        headers[name]
    } else {
        Seq::empty()
    }
}

/// One more value of a name.
pub open spec fn appended(
    headers: Map<Seq<char>, Seq<Seq<char>>>,
    name: Seq<char>,
    value: Seq<char>,
) -> Map<Seq<char>, Seq<Seq<char>>> {
    headers.insert(name, values_of(headers, name).push(value))
}

/// There is room for `more` further names.
pub open spec fn roomy(headers: Map<Seq<char>, Seq<Seq<char>>>, more: nat) -> bool {
    headers.dom().finite() && headers.dom().len() + more <= 6554
}

/// Every value is visible ASCII.
pub open spec fn all_visible(headers: Map<Seq<char>, Seq<Seq<char>>>) -> bool {
    forall|name: Seq<char>, i: int|
        #![trigger headers[name][i]]
        headers.dom().contains(name) && 0 <= i < headers[name].len() ==> visible(headers[name][i])
}

/// The first value of a name, if it is visible ASCII.
pub open spec fn first_text(
    headers: Map<Seq<char>, Seq<Seq<char>>>,
    name: Seq<char>,
) -> Option<Seq<char>> {
    if values_of(headers, name).len() > 0 && visible(values_of(headers, name)[0]) {
        Some(values_of(headers, name)[0])
    } else {
        None
    }
}

/// The first value of the name that a text writes.
pub open spec fn named_text(
    headers: Map<Seq<char>, Seq<Seq<char>>>,
    name: Seq<char>,
) -> Option<Seq<char>> {
    match header_name(name) {
        Some(name) => first_text(headers, name),
        None => None,
    }
}

/// The values that header lines give a name, in order.
pub open spec fn line_values(lines: Seq<(Seq<char>, Seq<char>)>, name: Seq<char>) -> Seq<Seq<char>>
    decreases lines.len(),
{
    if lines.len() == 0 {
        Seq::empty()
    } else if lines.last().0 == name {
        line_values(lines.drop_last(), name).push(lines.last().1)
    } else {
        line_values(lines.drop_last(), name)
    }
}

/// Header lines give each name the values that the map holds. In which order
/// the names come is left open.
pub open spec fn lines_list(
    lines: Seq<(Seq<char>, Seq<char>)>,
    headers: Map<Seq<char>, Seq<Seq<char>>>,
) -> bool {
    forall|name: Seq<char>| #[trigger] line_values(lines, name) == values_of(headers, name)
}

/// `http::HeaderName::try_from` on text: a name of 1 to 65535 token
/// characters is accepted and written in lower case, anything else rejected
/// with a fixed message.
#[verifier::external_body]
pub(crate) fn parse_name(name: &str) -> (r: core::result::Result<String, String>)
    ensures
        match header_name(name@) {
            Some(lower) => r matches Ok(s) && s@ == lower,
            None => r matches Err(e) && e@ == "invalid HTTP header name"@,
        },
{
    match http::HeaderName::try_from(name) {
        Ok(name) => Ok(name.as_str().to_string()),
        Err(e) => Err(e.to_string()),
    }
}

/// `http::HeaderValue::try_from` on text: a value without control characters
/// (tabs aside) is accepted, anything else rejected with a fixed message.
#[verifier::external_body]
pub(crate) fn parse_value(value: &str) -> (r: core::result::Result<(), String>)
    ensures
        r is Ok == header_value(value@),
        r matches Err(e) ==> e@ == "failed to parse header value"@,
{
    match http::HeaderValue::try_from(value) {
        Ok(_) => Ok(()),
        Err(e) => Err(e.to_string()),
    }
}

/// `http::HeaderMap::new`: the map holds nothing.
#[verifier::external_body]
pub(crate) fn empty() -> (r: http::HeaderMap)
    ensures
        header_contents(r) == no_headers(),
{
    http::HeaderMap::new()
}

/// `http::HeaderMap::try_append`: the value comes behind those that the name
/// has, and every other name keeps its values. The map refuses only when it
/// cannot grow any more, which it still can with 6553 names; then it stays as
/// it is.
#[verifier::external_body]
pub(crate) fn try_append(
    map: &mut http::HeaderMap,
    name: &str,
    value: &str,
) -> (r: core::result::Result<(), String>)
    requires
        header_name(name@) == Some(name@),
        header_value(value@),
    ensures
        r is Ok ==> header_contents(*final(map)) == appended(
            header_contents(*old(map)),
            name@,
            value@,
        ),
        r is Err ==> header_contents(*final(map)) == header_contents(*old(map)),
        r matches Err(e) ==> e@ == "max size reached"@,
        roomy(header_contents(*old(map)), 1) ==> r is Ok,
{
    let name = http::HeaderName::try_from(name).expect("a valid name");
    let value = http::HeaderValue::try_from(value).expect("a valid value");
    match map.try_append(name, value) {
        Ok(_) => Ok(()),
        Err(e) => Err(e.to_string()),
    }
}

/// `http::HeaderMap::insert`: the name has this value alone, and every other
/// name keeps its values. With 6553 names the map can still grow.
#[verifier::external_body]
pub(crate) fn insert(map: &mut http::HeaderMap, name: &str, value: &str)
    requires
        header_name(name@) == Some(name@),
        header_value(value@),
        roomy(header_contents(*old(map)), 1),
    ensures
        header_contents(*final(map)) == header_contents(*old(map)).insert(name@, seq![value@]),
{
    let name = http::HeaderName::try_from(name).expect("a valid name");
    let value = http::HeaderValue::try_from(value).expect("a valid value");
    map.insert(name, value);
}

/// `http::HeaderMap::contains_key`: whether the name that the text writes has
/// a value.
#[verifier::external_body]
pub(crate) fn contains(map: &http::HeaderMap, name: &str) -> (r: bool)
    ensures
        r == (header_name(name@) matches Some(lower) && header_contents(*map).dom().contains(
            lower,
        )),
{
    map.contains_key(name)
}

/// `http::HeaderMap::extend` with another map: each name of the other map has
/// the values it has there, and every other name keeps its values. With 6554
/// names in all the map can still grow.
#[verifier::external_body]
pub(crate) fn extend(map: &mut http::HeaderMap, other: http::HeaderMap)
    requires
        roomy(header_contents(*old(map)), header_contents(other).dom().len()),
    ensures
        header_contents(*final(map)) == header_contents(*old(map)).union_prefer_right(
            header_contents(other),
        ),
{
    map.extend(other);
}

/// `http::HeaderMap::get` and `http::HeaderValue::to_str`: the first value of
/// the name that the text writes, unless it holds anything but visible ASCII
/// characters, spaces and tabs.
#[verifier::external_body]
pub(crate) fn get(map: &http::HeaderMap, name: &str) -> (r: Option<String>)
    ensures
        text::text_of(r) == named_text(header_contents(*map), name@),
{
    map.get(name).and_then(|value| value.to_str().ok()).map(|value| value.to_string())
}

/// `http::HeaderMap::iter`: every value of every name, those of one name in
/// the order they were added. The order of the names is left open.
#[verifier::external_body]
pub(crate) fn lines(map: &http::HeaderMap) -> (r: Vec<(String, String)>)
    requires
        all_visible(header_contents(*map)),
    ensures
        lines_list(text_pairs(r@), header_contents(*map)),
{
    map.iter().map(
        |(name, value)| (name.as_str().to_string(), value.to_str().expect("visible").to_string()),
    ).collect()
}

/// Pairs of strings as text.
pub open spec fn text_pairs(pairs: Seq<(String, String)>) -> Seq<(Seq<char>, Seq<char>)> {
    pairs.map_values(|p: (String, String)| (p.0@, p.1@))
}

/// Whether two texts are the same but for the case of ASCII letters.
pub fn same_ignoring_case(a: &str, b: &str) -> (r: bool)
    ensures
        r == (lowered(a@) == lowered(b@)),
{
    let left = text::chars_of(a);
    let right = text::chars_of(b);
    if left.len() != right.len() {
        assert(lowered(a@).len() != lowered(b@).len());
        return false;
    }
    let mut i: usize = 0;
    while i < left.len()
        invariant
            i <= left@.len(),
            left@ == a@,
            right@ == b@,
            left@.len() == right@.len(),
            forall|k: int| 0 <= k < i ==> lower_char(#[trigger] left@[k]) == lower_char(right@[k]),
        decreases left@.len() - i,
    {
        if lower(left[i]) != lower(right[i]) {
            assert(lowered(a@)[i as int] != lowered(b@)[i as int]);
            return false;
        }
        i = i + 1;
    }
    assert(lowered(a@) =~= lowered(b@));
    true
}

fn lower(c: char) -> (r: char)
    ensures
        r == lower_char(c),
{
    if 'A' <= c && c <= 'Z' {
        ((c as u8) + 32) as char
    } else {
        c
    }
}

/// One more name takes at most one more place.
pub proof fn lemma_appended_room(
    headers: Map<Seq<char>, Seq<Seq<char>>>,
    name: Seq<char>,
    value: Seq<char>,
    more: nat,
)
    requires
        roomy(headers, more + 1),
    ensures
        roomy(appended(headers, name, value), more),
{
}

/// A name in lower case is written as itself.
pub proof fn lemma_name_is_lower(s: Seq<char>)
    requires
        header_name(s) is Some,
    ensures
        header_name(header_name(s)->0) == header_name(s),
{
    let lower = lowered(s);
    assert forall|i: int| 0 <= i < lower.len() implies token_char(#[trigger] lower[i])
        && lower_char(lower[i]) == lower[i] by {
        assert(token_char(s[i]));
    }
    assert(lowered(lower) =~= lower);
}

} // verus!
