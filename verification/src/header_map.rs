//! The header collection: what the proxy uses of `hyper::header::HeaderMap`.
//!
//! Header values go in and out as bytes; header names as text, in any case.

use hyper::header::{HeaderMap, HeaderValue, InvalidHeaderValue, MaxSizeReached};
use vstd::prelude::*;
use vstd::utf8::encode_utf8;

use crate::text::{characters, lower, lower_char};

verus! {

/// `hyper::header::HeaderMap`, opaque. What a map holds is `header_contents`.
#[verifier::external_type_specification]
#[verifier::external_body]
#[verifier::reject_recursive_types(T)]
pub struct ExHeaderMap<T>(hyper::header::HeaderMap<T>);

/// `hyper::header::HeaderValue`, opaque.
#[verifier::external_type_specification]
#[verifier::external_body]
pub struct ExHeaderValue(hyper::header::HeaderValue);

/// `hyper::header::InvalidHeaderValue`, opaque: the error of `HeaderValue::from_str`.
#[verifier::external_type_specification]
#[verifier::external_body]
pub struct ExInvalidHeaderValue(hyper::header::InvalidHeaderValue);

/// `hyper::header::MaxSizeReached`, opaque: the error of an insertion into a map that is full.
#[verifier::external_type_specification]
#[verifier::external_body]
pub struct ExMaxSizeReached(hyper::header::MaxSizeReached);

/// The values of every header name.
pub type HeaderContents = Map<Seq<char>, Seq<Seq<u8>>>;

/// What a header map holds: for every header name, in lower case, the values of that name in
/// the order in which the map keeps them. The order of the names among each other and the
/// sensitivity marks of the values are left out.
pub uninterp spec fn header_contents(headers: HeaderMap<HeaderValue>) -> Map<
    Seq<char>,
    Seq<Seq<u8>>,
>;

/// The greatest length of a header name.
pub const MAX_NAME_LEN: usize = 65535;

/// The number of names up to which a map certainly takes one more value: the table has at most
/// 32768 slots, and an insertion gives up at the earliest when a fifth of them is in use.
pub const MAX_NAMES: usize = 6553;

/// A character of a header name, in lower or upper case.
pub open spec fn is_name_char(c: char) -> bool {
    ||| 'a' <= c <= 'z'
    ||| 'A' <= c <= 'Z'
    ||| '0' <= c <= '9'
    ||| c == '!' || c == '#' || c == '$' || c == '%' || c == '&' || c == '\'' || c == '*'
    ||| c == '+' || c == '-' || c == '.' || c == '^' || c == '_' || c == '`' || c == '|'
    ||| c == '~'
}

/// A text that can name a header.
pub open spec fn is_header_name(s: Seq<char>) -> bool {
    &&& 0 < s.len() <= MAX_NAME_LEN
    &&& forall|i: int| 0 <= i < s.len() ==> is_name_char(#[trigger] s[i])
}

/// A header name in lower case.
pub open spec fn is_lower_name(s: Seq<char>) -> bool {
    is_header_name(s) && lower(s) == s
}

/// A byte that may stand in a header value.
pub open spec fn is_value_byte(b: u8) -> bool {
    (b >= 32 && b != 127) || b == 9
}

/// Bytes that form a header value.
pub open spec fn is_header_value(bytes: Seq<u8>) -> bool {
    forall|i: int| 0 <= i < bytes.len() ==> is_value_byte(#[trigger] bytes[i])
}

/// A header value that reads as text: visible ASCII characters, blanks and tabs only.
pub open spec fn is_visible(bytes: Seq<u8>) -> bool {
    forall|i: int|
        0 <= i < bytes.len() ==> (32 <= #[trigger] bytes[i] < 127) || bytes[i] == 9
}

/// The contents of a sequence of byte vectors.
pub open spec fn byte_strings(values: Seq<Vec<u8>>) -> Seq<Seq<u8>> {
    values.map_values(|v: Vec<u8>| v@)
}

/// Whether every name has at least one value, as in every header map.
pub open spec fn every_name_has_a_value(contents: HeaderContents) -> bool {
    forall|name: Seq<char>| #[trigger] contents.contains_key(name) ==> contents[name].len() > 0
}

/// Whether `names` has exactly `n` members.
pub open spec fn has_size(names: Set<Seq<char>>, n: nat) -> bool {
    names.finite() && names.len() == n
}

/// Whether `n` more values can certainly be inserted, whatever the state of the map's table.
pub open spec fn has_room(contents: HeaderContents, n: nat) -> bool {
    contents.dom().finite() && contents.dom().len() + n <= MAX_NAMES + 1
}

/// `HeaderMap::get`: the first value of the header with that name, if there is one, whatever
/// the case of the name. A name has at least one value, and only bytes of a header value occur.
#[verifier::external_body]
pub(crate) fn first_value(headers: &HeaderMap<HeaderValue>, name: &str) -> (value: Option<
    Vec<u8>,
>)
    requires
        is_header_name(name@),
    ensures
        value is Some <==> header_contents(*headers).contains_key(lower(name@)),
        value matches Some(v) ==> {
            &&& header_contents(*headers)[lower(name@)].len() > 0
            &&& v@ == header_contents(*headers)[lower(name@)][0]
            &&& is_header_value(v@)
        },
{
    headers.get(name).map(|v| v.as_bytes().to_vec())
}

/// `HeaderMap::get_all`: all values of the header with that name, in order; none where there is
/// no such header. Only bytes of a header value occur.
#[verifier::external_body]
pub(crate) fn all_values(headers: &HeaderMap<HeaderValue>, name: &str) -> (values: Vec<Vec<u8>>)
    requires
        is_header_name(name@),
    ensures
        byte_strings(values@) == (if header_contents(*headers).contains_key(lower(name@)) {
            header_contents(*headers)[lower(name@)]
        } else {
            Seq::<Seq<u8>>::empty()
        }),
        forall|i: int| 0 <= i < values@.len() ==> is_header_value(#[trigger] values@[i]@),
{
    headers.get_all(name).iter().map(|v| v.as_bytes().to_vec()).collect()
}

/// `HeaderMap::keys_len`: the number of names in the map.
#[verifier::external_body]
pub(crate) fn name_count(headers: &HeaderMap<HeaderValue>) -> (n: usize)
    ensures
        has_size(header_contents(*headers).dom(), n as nat),
{
    headers.keys_len()
}

/// `HeaderMap::remove`: takes the header with that name out, with all its values, whatever the
/// case of the name. The other headers stay.
#[verifier::external_body]
pub(crate) fn remove(headers: &mut HeaderMap<HeaderValue>, name: &str)
    requires
        is_header_name(name@),
    ensures
        header_contents(*final(headers)) == header_contents(*old(headers)).remove(lower(name@)),
{
    headers.remove(name);
}

/// `HeaderMap::try_insert`: makes `value` the only value of the header with that name, or leaves
/// the map as it is where its table would have to grow beyond its limit. The other headers stay.
/// A map with room takes the value. Whether one with more names does depends on how its table
/// has grown and how the names collide, and is left open.
#[verifier::external_body]
pub(crate) fn try_insert(
    headers: &mut HeaderMap<HeaderValue>,
    name: &'static str,
    value: &[u8],
) -> (r: Result<(), MaxSizeReached>)
    requires
        is_header_name(name@),
        is_header_value(value@),
    ensures
        r is Ok ==> header_contents(*final(headers)) == header_contents(*old(headers)).insert(
            lower(name@),
            seq![value@],
        ),
        r is Err ==> header_contents(*final(headers)) == header_contents(*old(headers)),
        has_room(header_contents(*old(headers)), 1) ==> r is Ok,
{
    headers.try_insert(name, HeaderValue::from_bytes(value).unwrap()).map(|_| ())
}

/// `HeaderValue::from_str`: the bytes of the text as a header value, or an error where one of
/// them may not stand in a header value.
#[verifier::external_body]
pub(crate) fn parse_value(text: &str) -> (value: Result<Vec<u8>, InvalidHeaderValue>)
    ensures
        value is Ok <==> is_header_value(encode_utf8(text@)),
        value matches Ok(v) ==> v@ == encode_utf8(text@),
{
    HeaderValue::from_str(text).map(|v| v.as_bytes().to_vec())
}

/// Whether `n` more values can certainly be inserted into the map.
pub fn can_take(headers: &HeaderMap<HeaderValue>, n: usize) -> (r: bool)
    ensures
        r == has_room(header_contents(*headers), n as nat),
{
    let count: usize = name_count(headers);
    n <= MAX_NAMES + 1 && count <= MAX_NAMES + 1 - n
}

/// Whether `c` may stand in a header name.
fn name_char(c: char) -> (r: bool)
    ensures
        r == is_name_char(c),
{
    ('a' <= c && c <= 'z') || ('A' <= c && c <= 'Z') || ('0' <= c && c <= '9') || c == '!' || c
        == '#' || c == '$' || c == '%' || c == '&' || c == '\'' || c == '*' || c == '+' || c == '-'
        || c == '.' || c == '^' || c == '_' || c == '`' || c == '|' || c == '~'
}

/// Whether `s` can name a header.
pub(crate) fn names_header(s: &str) -> (r: bool)
    ensures
        r == is_header_name(s@),
{
    let chars: Vec<char> = characters(s);
    if chars.len() == 0 || chars.len() > MAX_NAME_LEN {
        return false;
    }
    let mut i: usize = 0;
    while i < chars.len()
        invariant
            i <= chars@.len(),
            chars@ == s@,
            forall|j: int| 0 <= j < i ==> is_name_char(#[trigger] s@[j]),
        decreases chars@.len() - i,
    {
        if !name_char(chars[i]) {
            assert(!is_name_char(s@[i as int]));
            return false;
        }
        i = i + 1;
    }
    true
}

/// Whether a header value reads as text.
pub(crate) fn reads_as_text(bytes: &[u8]) -> (r: bool)
    ensures
        r == is_visible(bytes@),
{
    let mut i: usize = 0;
    while i < bytes.len()
        invariant
            i <= bytes@.len(),
            forall|j: int|
                0 <= j < i ==> (32 <= #[trigger] bytes@[j] < 127) || bytes@[j] == 9,
        decreases bytes@.len() - i,
    {
        if !((32 <= bytes[i] && bytes[i] < 127) || bytes[i] == 9) {
            return false;
        }
        i = i + 1;
    }
    true
}

/// Case folding neither makes nor breaks a header name, and once is enough.
pub proof fn lower_keeps_names(s: Seq<char>)
    ensures
        is_header_name(lower(s)) == is_header_name(s),
        lower(lower(s)) == lower(s),
{
    assert forall|i: int| 0 <= i < s.len() implies is_name_char(#[trigger] lower(s)[i])
        == is_name_char(s[i]) && lower_char(lower(s)[i]) == lower(s)[i] by {
        assert(lower(s)[i] == lower_char(s[i]));
    }
    assert(lower(lower(s)) =~= lower(s));
    if is_header_name(lower(s)) {
        assert forall|i: int| 0 <= i < s.len() implies is_name_char(#[trigger] s[i]) by {
            assert(is_name_char(lower(s)[i]));
        }
    }
}

/// A header name is a text of visible ASCII characters none of which is a delimiter.
pub proof fn header_names_are_tokens(s: Seq<char>)
    ensures
        is_header_name(s) <==> 1 <= s.len() <= 65535 && forall|i: int|
            0 <= i < s.len() ==> '!' <= #[trigger] s[i] <= '~' && !seq![
                '"',
                '(',
                ')',
                ',',
                '/',
                ':',
                ';',
                '<',
                '=',
                '>',
                '?',
                '@',
                '[',
                '\\',
                ']',
                '{',
                '}',
            ].contains(s[i]),
{
    let delimiters = seq![
        '"',
        '(',
        ')',
        ',',
        '/',
        ':',
        ';',
        '<',
        '=',
        '>',
        '?',
        '@',
        '[',
        '\\',
        ']',
        '{',
        '}',
    ];
    assert forall|c: char| is_name_char(c) == ('!' <= c <= '~' && !#[trigger] delimiters.contains(
        c,
    )) by {
        if delimiters.contains(c) {
            let i = choose|i: int| 0 <= i < delimiters.len() && delimiters[i] == c;
            assert(0 <= i < 17);
            assert(!is_name_char(c));
        } else if '!' <= c <= '~' {
            assert(c != delimiters[0] && c != delimiters[1] && c != delimiters[2] && c
                != delimiters[3] && c != delimiters[4] && c != delimiters[5]);
            assert(c != delimiters[6] && c != delimiters[7] && c != delimiters[8] && c
                != delimiters[9] && c != delimiters[10] && c != delimiters[11]);
            assert(c != delimiters[12] && c != delimiters[13] && c != delimiters[14] && c
                != delimiters[15] && c != delimiters[16]);
        }
    }
    if is_header_name(s) {
        assert forall|i: int| 0 <= i < s.len() implies '!' <= #[trigger] s[i] <= '~'
            && !delimiters.contains(s[i]) by {
            assert(is_name_char(s[i]));
        }
    } else if 1 <= s.len() <= 65535 {
        let i = choose|i: int| 0 <= i < s.len() && !is_name_char(#[trigger] s[i]);
        assert(!('!' <= s[i] <= '~' && !delimiters.contains(s[i])));
    }
}

/// No control byte but the tab stands in a header value; and one reads as text if and only if,
/// besides, none of its bytes is beyond ASCII.
pub proof fn header_values_hold_no_controls(bytes: Seq<u8>)
    ensures
        !is_header_value(bytes) <==> exists|i: int|
            0 <= i < bytes.len() && (#[trigger] bytes[i] < 32 || bytes[i] == 127) && bytes[i] != 9,
        is_visible(bytes) <==> is_header_value(bytes) && forall|i: int|
            0 <= i < bytes.len() ==> #[trigger] bytes[i] < 128,
{
    if is_visible(bytes) {
        assert forall|i: int| 0 <= i < bytes.len() implies is_value_byte(#[trigger] bytes[i]) by {
        }
    }
    if is_header_value(bytes) {
        assert forall|i: int| 0 <= i < bytes.len() implies (#[trigger] bytes[i] >= 32 && bytes[i]
            != 127) || bytes[i] == 9 by {
            assert(is_value_byte(bytes[i]));
        }
    }
}

/// There is certainly room for `n` values up to 6554 names, those of the values included.
pub proof fn room_is_certain(contents: HeaderContents, n: nat)
    ensures
        has_room(contents, n) <==> contents.dom().finite() && contents.dom().len() + n <= 6554,
{
}

/// Whether there is certainly room is found out.
pub proof fn room_is_found(headers: &HeaderMap<HeaderValue>, n: usize, r: bool)
    requires
        call_ensures(can_take, (headers, n), r),
    ensures
        r <==> has_room(header_contents(*headers), n as nat),
{
}

} // verus!
