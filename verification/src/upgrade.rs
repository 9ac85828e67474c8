//! The switch of protocols that a message asks for.

use hyper::header::{HeaderMap, HeaderValue};
use vstd::prelude::*;

use crate::header_map::{
    first_value, header_contents, HeaderContents, is_lower_name, is_visible, reads_as_text,
};
use crate::hop::{hop_names, hop_names_are_lower};
use crate::text::{
    byte_text, is_listed, lists, lower, option_text, pieces, text_of_bytes, to_lower, trimmed,
};

verus! {

/// Whether the first value of the header `name` reads as text, or there is no such header.
pub open spec fn is_readable(contents: HeaderContents, name: Seq<char>) -> bool {
    contents.contains_key(name) ==> is_visible(contents[name][0])
}

/// Whether `item` is listed in the first value of the header `name`.
pub open spec fn first_value_lists(
    contents: HeaderContents,
    name: Seq<char>,
    item: Seq<char>,
) -> bool {
    contents.contains_key(name) && lists(byte_text(contents[name][0]), item)
}

/// The protocol, in lower case, that a message with these headers asks to switch to.
pub open spec fn upgrade_type(contents: HeaderContents) -> Option<Seq<char>> {
    if first_value_lists(contents, "connection"@, "upgrade"@) && contents.contains_key(
        "upgrade"@,
    ) {
        Some(lower(byte_text(contents["upgrade"@][0])))
    } else {
        None
    }
}

/// Whether all that `upgrade_type` looks at reads as text.
pub open spec fn has_readable_upgrade(contents: HeaderContents) -> bool {
    &&& is_readable(contents, "connection"@)
    &&& first_value_lists(contents, "connection"@, "upgrade"@) ==> is_readable(
        contents,
        "upgrade"@,
    )
}

/// Whether the first value of the header `name` reads as text, or there is no such header.
pub(crate) fn readable(headers: &HeaderMap<HeaderValue>, name: &str) -> (r: bool)
    requires
        is_lower_name(name@),
    ensures
        r == is_readable(header_contents(*headers), name@),
{
    match first_value(headers, name) {
        Some(value) => reads_as_text(value.as_slice()),
        None => true,
    }
}

/// Looks for `item` in the first value of the header `name`, whatever its case.
pub(crate) fn lists_in_first_value(headers: &HeaderMap<HeaderValue>, name: &str, item: &str) -> (r: bool)
    requires
        is_lower_name(name@),
    ensures
        r == first_value_lists(header_contents(*headers), name@, item@),
{
    match first_value(headers, name) {
        Some(value) => is_listed(text_of_bytes(value.as_slice()).as_str(), item),
        None => false,
    }
}

/// Whether the headers that `get_upgrade_type` looks at read as text.
pub fn readable_upgrade(headers: &HeaderMap<HeaderValue>) -> (r: bool)
    ensures
        r == has_readable_upgrade(header_contents(*headers)),
{
    proof {
        hop_names_are_lower();
        assert(hop_names()[0] == "connection"@);
        assert(hop_names()[8] == "upgrade"@);
    }
    readable(headers, "connection") && (!lists_in_first_value(headers, "connection", "upgrade")
        || readable(headers, "upgrade"))
}

/// The protocol, in lower case, that a message with these headers asks to switch to: the value
/// of its `Upgrade` header, if its `Connection` header lists `upgrade`.
pub fn get_upgrade_type(headers: &HeaderMap<HeaderValue>) -> (r: Option<String>)
    requires
        has_readable_upgrade(header_contents(*headers)),
    ensures
        option_text(r) == upgrade_type(header_contents(*headers)),
{
    proof {
        hop_names_are_lower();
        assert(hop_names()[0] == "connection"@);
        assert(hop_names()[8] == "upgrade"@);
    }
    if lists_in_first_value(headers, "connection", "upgrade") {
        match first_value(headers, "upgrade") {
            Some(value) => Some(to_lower(text_of_bytes(value.as_slice()).as_str())),
            None => None,
        }
    } else {
        None
    }
}

/// A header reads as text if its first value is one of visible ASCII, or if it is not there.
pub proof fn first_values_are_read(contents: HeaderContents, name: Seq<char>, item: Seq<char>)
    ensures
        is_readable(contents, name) <==> !contents.contains_key(name) || is_visible(
            contents[name][0],
        ),
        first_value_lists(contents, name, item) <==> contents.contains_key(name) && exists|i: int|
            0 <= i < pieces(byte_text(contents[name][0]), ',').len() && lower(
                trimmed(#[trigger] pieces(byte_text(contents[name][0]), ',')[i]),
            ) == item,
{
}

/// A switch is asked for if any item of the first `Connection` value, at whatever place in the
/// list, is `upgrade`, in any case and with or without blanks around it, and there is an
/// `Upgrade` header: to the first value of that, in lower case. Else none is asked for.
pub proof fn upgrade_is_found_anywhere(headers: &HeaderMap<HeaderValue>, r: Option<String>)
    requires
        call_ensures(get_upgrade_type, (headers,), r),
    ensures
        ({
            let contents = header_contents(*headers);
            if contents.contains_key("connection"@) && contents.contains_key("upgrade"@) && exists|
                i: int,
            |
                0 <= i < pieces(byte_text(contents["connection"@][0]), ',').len() && lower(
                    trimmed(#[trigger] pieces(byte_text(contents["connection"@][0]), ',')[i]),
                ) == "upgrade"@ {
                r matches Some(protocol) && protocol@ == lower(byte_text(contents["upgrade"@][0]))
            } else {
                r is None
            }
        }),
{
}

/// As `upgrade_is_found_anywhere`, for any headers.
pub proof fn upgrade_type_is_found_anywhere(contents: HeaderContents)
    ensures
        upgrade_type(contents) == if contents.contains_key("connection"@) && contents.contains_key(
            "upgrade"@,
        ) && exists|i: int|
            0 <= i < pieces(byte_text(contents["connection"@][0]), ',').len() && lower(
                trimmed(#[trigger] pieces(byte_text(contents["connection"@][0]), ',')[i]),
            ) == "upgrade"@ {
            Some(lower(byte_text(contents["upgrade"@][0])))
        } else {
            None
        },
{
}

/// The protocol can be looked for where the first `Connection` value is visible ASCII, and, if it
/// lists `upgrade`, the first `Upgrade` value is too; and whether that is so is found out.
pub proof fn protocol_can_be_looked_for(headers: &HeaderMap<HeaderValue>, r: bool)
    requires
        call_ensures(readable_upgrade, (headers,), r),
    ensures
        ({
            let contents = header_contents(*headers);
            let readable = {
                &&& contents.contains_key("connection"@) ==> is_visible(
                    contents["connection"@][0],
                )
                &&& contents.contains_key("upgrade"@) && contents.contains_key("connection"@)
                    && lists(byte_text(contents["connection"@][0]), "upgrade"@) ==> is_visible(
                    contents["upgrade"@][0],
                )
            };
            &&& has_readable_upgrade(contents) <==> readable
            &&& r <==> readable
            &&& readable ==> call_requires(get_upgrade_type, (headers,))
        }),
{
}

} // verus!
