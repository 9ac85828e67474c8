//! Hop-by-hop headers: those that hold for one connection only and must not be passed on.

use hyper::header::{HeaderMap, HeaderValue};
use vstd::prelude::*;

use crate::header_map::{
    all_values, byte_strings, header_contents, HeaderContents, is_header_name, is_lower_name,
    lower_keeps_names, names_header, remove,
};
use crate::text::{
    byte_text, is_listed, lists, lower, pieces, split, text_of_bytes, texts, trim, trimmed,
};

verus! {

/// The names of the headers that are hop-by-hop in every message.
pub open spec fn hop_names() -> Seq<Seq<char>> {
    seq![
        "connection"@,
        "te"@,
        "trailer"@,
        "keep-alive"@,
        "proxy-connection"@,
        "proxy-authenticate"@,
        "proxy-authorization"@,
        "transfer-encoding"@,
        "upgrade"@,
    ]
}

/// Whether the header `name` is made hop-by-hop by a `Connection` header that lists it.
pub open spec fn is_connection_option(contents: HeaderContents, name: Seq<char>) -> bool {
    &&& contents.contains_key("connection"@)
    &&& is_header_name(name)
    &&& exists|i: int|
        0 <= i < contents["connection"@].len() && lists(
            byte_text(#[trigger] contents["connection"@][i]),
            name,
        )
}

/// Whether the header `name` of a message with these headers is hop-by-hop.
pub open spec fn is_hop_by_hop(contents: HeaderContents, name: Seq<char>) -> bool {
    hop_names().contains(name) || is_connection_option(contents, name)
}

/// The headers of a message that are not hop-by-hop.
pub open spec fn end_to_end(contents: HeaderContents) -> HeaderContents {
    contents.filter_keys(|name: Seq<char>| !is_hop_by_hop(contents, name))
}

/// The names of the headers that are hop-by-hop in every message.
pub fn hop_headers() -> (names: [&'static str; 9])
    ensures
        names@.map_values(|name: &'static str| name@) == hop_names(),
{
    let names: [&'static str; 9] = [
        "connection",
        "te",
        "trailer",
        "keep-alive",
        "proxy-connection",
        "proxy-authenticate",
        "proxy-authorization",
        "transfer-encoding",
        "upgrade",
    ];
    assert(names@.map_values(|name: &'static str| name@) =~= hop_names());
    names
}

/// The names of the hop-by-hop headers are header names in lower case.
pub proof fn hop_names_are_lower()
    ensures
        forall|i: int| 0 <= i < hop_names().len() ==> is_lower_name(#[trigger] hop_names()[i]),
{
    reveal_strlit("connection");
    reveal_strlit("te");
    reveal_strlit("trailer");
    reveal_strlit("keep-alive");
    reveal_strlit("proxy-connection");
    reveal_strlit("proxy-authenticate");
    reveal_strlit("proxy-authorization");
    reveal_strlit("transfer-encoding");
    reveal_strlit("upgrade");
    assert forall|i: int| 0 <= i < hop_names().len() implies is_lower_name(
        #[trigger] hop_names()[i],
    ) by {
        let name = hop_names()[i];
        assert(lower(name) =~= name);
    }
}

/// Takes out the headers that are hop-by-hop in every message.
pub fn remove_hop_headers(headers: &mut HeaderMap<HeaderValue>)
    ensures
        header_contents(*final(headers)) == header_contents(*old(headers)).filter_keys(
            |name: Seq<char>| !hop_names().contains(name),
        ),
{
    let ghost start = header_contents(*headers);
    let names: [&'static str; 9] = hop_headers();
    proof {
        hop_names_are_lower();
    }
    assert(start.remove_keys(hop_names().take(0).to_set()) =~= start);
    let mut i: usize = 0;
    while i < 9
        invariant
            i <= 9,
            names@.map_values(|name: &'static str| name@) == hop_names(),
            forall|i: int| 0 <= i < hop_names().len() ==> is_lower_name(#[trigger] hop_names()[i]),
            header_contents(*headers) == start.remove_keys(hop_names().take(i as int).to_set()),
        decreases 9 - i,
    {
        let ghost before = hop_names().take(i as int);
        let ghost after = hop_names().take(i + 1);
        assert(hop_names()[i as int] == names@[i as int]@);
        remove(headers, names[i]);
        proof {
            assert(after =~= before.push(hop_names()[i as int]));
            before.lemma_push_to_set_commute(hop_names()[i as int]);
            assert(start.remove_keys(before.to_set()).remove(hop_names()[i as int])
                =~= start.remove_keys(after.to_set()));
        }
        i = i + 1;
    }
    assert(hop_names().take(9) =~= hop_names());
    assert(start.remove_keys(hop_names().to_set()) =~= start.filter_keys(
        |name: Seq<char>| !hop_names().contains(name),
    ));
}

/// Whether `name` is a header name among the first `n` items of `list`.
spec fn listed_before(list: Seq<char>, name: Seq<char>, n: int) -> bool {
    is_header_name(name) && exists|i: int|
        0 <= i < n && lower(trimmed(#[trigger] pieces(list, ',')[i])) == name
}

/// Takes out the headers that `list` names.
fn remove_listed(headers: &mut HeaderMap<HeaderValue>, list: &str)
    ensures
        header_contents(*final(headers)) == header_contents(*old(headers)).filter_keys(
            |name: Seq<char>| !(is_header_name(name) && lists(list@, name)),
        ),
{
    let ghost start = header_contents(*headers);
    let ghost items = pieces(list@, ',');
    let parts: Vec<String> = split(list, ',');
    assert(texts(parts@).len() == parts@.len());
    assert(start.filter_keys(|name: Seq<char>| !listed_before(list@, name, 0)) =~= start);
    let mut i: usize = 0;
    while i < parts.len()
        invariant
            i <= parts@.len() == items.len(),
            items == pieces(list@, ','),
            texts(parts@) == items,
            header_contents(*headers) == start.filter_keys(
                |name: Seq<char>| !listed_before(list@, name, i as int),
            ),
        decreases parts@.len() - i,
    {
        let ghost before = start.filter_keys(
            |name: Seq<char>| !listed_before(list@, name, i as int),
        );
        let ghost after = start.filter_keys(|name: Seq<char>| !listed_before(list@, name, i + 1));
        let ghost item = trimmed(items[i as int]);
        assert(texts(parts@)[i as int] == parts@[i as int]@);
        proof {
            lower_keeps_names(item);
            assert forall|name: Seq<char>| listed_before(list@, name, i + 1) == (listed_before(
                list@,
                name,
                i as int,
            ) || (is_header_name(item) && lower(item) == name)) by {
                if is_header_name(item) && lower(item) == name {
                    assert(lower(trimmed(items[i as int])) == name);
                }
            }
        }
        let option: String = trim(parts[i].as_str());
        if names_header(option.as_str()) {
            remove(headers, option.as_str());
            assert(before.remove(lower(item)) =~= after);
        } else {
            assert(before =~= after);
        }
        i = i + 1;
    }
    assert(start.filter_keys(|name: Seq<char>| !listed_before(list@, name, items.len() as int))
        =~= start.filter_keys(|name: Seq<char>| !(is_header_name(name) && lists(list@, name))));
}

/// Whether `name` is a header name listed in one of the first `n` of these values.
spec fn option_before(values: Seq<Seq<u8>>, name: Seq<char>, n: int) -> bool {
    is_header_name(name) && exists|i: int|
        0 <= i < n && lists(byte_text(#[trigger] values[i]), name)
}

/// Takes out the headers that the `Connection` header lists.
pub fn remove_connection_headers(headers: &mut HeaderMap<HeaderValue>)
    ensures
        header_contents(*final(headers)) == header_contents(*old(headers)).filter_keys(
            |name: Seq<char>| !is_connection_option(header_contents(*old(headers)), name),
        ),
{
    let ghost start = header_contents(*headers);
    proof {
        hop_names_are_lower();
        assert(hop_names()[0] == "connection"@);
    }
    let values: Vec<Vec<u8>> = all_values(headers, "connection");
    let ghost lines = byte_strings(values@);
    assert(start.filter_keys(|name: Seq<char>| !option_before(lines, name, 0)) =~= start);
    let mut i: usize = 0;
    while i < values.len()
        invariant
            i <= values@.len(),
            lines == byte_strings(values@),
            header_contents(*headers) == start.filter_keys(
                |name: Seq<char>| !option_before(lines, name, i as int),
            ),
        decreases values@.len() - i,
    {
        assert(lines[i as int] == values@[i as int]@);
        let list: String = text_of_bytes(values[i].as_slice());
        remove_listed(headers, list.as_str());
        proof {
            let before = start.filter_keys(
                |name: Seq<char>| !option_before(lines, name, i as int),
            );
            assert forall|name: Seq<char>| option_before(lines, name, i + 1) == (option_before(
                lines,
                name,
                i as int,
            ) || (is_header_name(name) && lists(list@, name))) by {
                if is_header_name(name) && lists(list@, name) {
                    assert(lists(byte_text(lines[i as int]), name));
                }
            }
            assert(before.filter_keys(
                |name: Seq<char>| !(is_header_name(name) && lists(list@, name)),
            ) =~= start.filter_keys(|name: Seq<char>| !option_before(lines, name, i + 1)));
        }
        i = i + 1;
    }
    assert(start.filter_keys(|name: Seq<char>| !option_before(lines, name, lines.len() as int))
        =~= start.filter_keys(|name: Seq<char>| !is_connection_option(start, name)));
}

/// Whether the `Connection` header lists the header `name`.
pub(crate) fn is_listed_in_connection(headers: &HeaderMap<HeaderValue>, name: &str) -> (r: bool)
    requires
        is_lower_name(name@),
    ensures
        r == is_connection_option(header_contents(*headers), name@),
{
    proof {
        hop_names_are_lower();
        assert(hop_names()[0] == "connection"@);
    }
    let values: Vec<Vec<u8>> = all_values(headers, "connection");
    let ghost lines = byte_strings(values@);
    let mut i: usize = 0;
    while i < values.len()
        invariant
            i <= values@.len(),
            lines == byte_strings(values@),
            forall|j: int| 0 <= j < i ==> !lists(byte_text(#[trigger] lines[j]), name@),
            is_lower_name(name@),
            lines == (if header_contents(*headers).contains_key("connection"@) {
                header_contents(*headers)["connection"@]
            } else {
                Seq::<Seq<u8>>::empty()
            }),
        decreases values@.len() - i,
    {
        assert(lines[i as int] == values@[i as int]@);
        if is_listed(text_of_bytes(values[i].as_slice()).as_str(), name) {
            assert(lines.len() == values@.len());
            return true;
        }
        i = i + 1;
    }
    assert(lines.len() == values@.len());
    false
}

/// Takes out all hop-by-hop headers. Those that the `Connection` header lists go first, while
/// it can still be read.
pub fn remove_hop_by_hop_headers(headers: &mut HeaderMap<HeaderValue>)
    ensures
        header_contents(*final(headers)) == end_to_end(header_contents(*old(headers))),
{
    let ghost start = header_contents(*headers);
    remove_connection_headers(headers);
    remove_hop_headers(headers);
    assert(header_contents(*headers) =~= end_to_end(start));
}

/// No hop-by-hop header is left when the hop-by-hop headers have been taken out: neither one
/// that is hop-by-hop in every message nor one that the `Connection` header lists.
pub proof fn hop_by_hop_headers_are_stripped(headers: HeaderContents, name: Seq<char>)
    requires
        is_hop_by_hop(headers, name),
    ensures
        !end_to_end(headers).contains_key(name),
{
}

/// Every header that is not hop-by-hop stays, with all its values, when the hop-by-hop headers
/// are taken out, and none is added.
pub proof fn end_to_end_headers_stay(headers: HeaderContents, name: Seq<char>)
    requires
        !is_hop_by_hop(headers, name),
    ensures
        end_to_end(headers).contains_key(name) == headers.contains_key(name),
        headers.contains_key(name) ==> end_to_end(headers)[name] == headers[name],
{
}

/// To take out the hop-by-hop headers once is enough.
pub proof fn stripping_is_idempotent(headers: HeaderContents)
    ensures
        end_to_end(end_to_end(headers)) == end_to_end(headers),
{
    assert(hop_names()[0] == "connection"@);
    assert(end_to_end(end_to_end(headers)) =~= end_to_end(headers));
}

/// The nine headers that are hop-by-hop in every message.
pub proof fn nine_headers_are_hop_by_hop(names: [&'static str; 9])
    requires
        call_ensures(hop_headers, (), names),
    ensures
        names@[0]@ == "connection"@,
        names@[1]@ == "te"@,
        names@[2]@ == "trailer"@,
        names@[3]@ == "keep-alive"@,
        names@[4]@ == "proxy-connection"@,
        names@[5]@ == "proxy-authenticate"@,
        names@[6]@ == "proxy-authorization"@,
        names@[7]@ == "transfer-encoding"@,
        names@[8]@ == "upgrade"@,
{
    let all = names@.map_values(|name: &'static str| name@);
    assert(names@.len() == 9);
    assert(all[0] == names@[0]@ && all[1] == names@[1]@ && all[2] == names@[2]@);
    assert(all[3] == names@[3]@ && all[4] == names@[4]@ && all[5] == names@[5]@);
    assert(all[6] == names@[6]@ && all[7] == names@[7]@ && all[8] == names@[8]@);
}

/// A name is among those of the hop-by-hop headers if and only if it is one of nine.
pub proof fn hop_names_are_nine(name: Seq<char>)
    ensures
        hop_names().contains(name) <==> {
            ||| name == "connection"@
            ||| name == "te"@
            ||| name == "trailer"@
            ||| name == "keep-alive"@
            ||| name == "proxy-connection"@
            ||| name == "proxy-authenticate"@
            ||| name == "proxy-authorization"@
            ||| name == "transfer-encoding"@
            ||| name == "upgrade"@
        },
{
    let all = hop_names();
    assert(all.len() == 9);
    assert(all[0] == "connection"@ && all[1] == "te"@ && all[2] == "trailer"@);
    assert(all[3] == "keep-alive"@ && all[4] == "proxy-connection"@);
    assert(all[5] == "proxy-authenticate"@ && all[6] == "proxy-authorization"@);
    assert(all[7] == "transfer-encoding"@ && all[8] == "upgrade"@);
}

/// A header is taken out if and only if it is one of the nine that are hop-by-hop in every
/// message, or a `Connection` value of the message lists its name: as one of the pieces between
/// commas, wherever it stands, in any case, with or without blanks around it. Every other header
/// stays, with all its values in order, and none is added.
pub proof fn only_hop_by_hop_headers_are_taken_out(headers: HeaderContents, name: Seq<char>)
    ensures
        end_to_end(headers).contains_key(name) <==> {
            &&& headers.contains_key(name)
            &&& name != "connection"@
            &&& name != "te"@
            &&& name != "trailer"@
            &&& name != "keep-alive"@
            &&& name != "proxy-connection"@
            &&& name != "proxy-authenticate"@
            &&& name != "proxy-authorization"@
            &&& name != "transfer-encoding"@
            &&& name != "upgrade"@
            &&& headers.contains_key("connection"@) && is_header_name(name) ==> forall|
                i: int,
                j: int,
            |
                0 <= i < headers["connection"@].len() && 0 <= j < pieces(
                    byte_text(headers["connection"@][i]),
                    ',',
                ).len() ==> lower(
                    trimmed(#[trigger] pieces(byte_text(headers["connection"@][i]), ',')[j]),
                ) != name
        },
        end_to_end(headers).contains_key(name) ==> end_to_end(headers)[name] == headers[name],
{
    hop_names_are_nine(name);
    if headers.contains_key("connection"@) && is_header_name(name) {
        let lines = headers["connection"@];
        if is_connection_option(headers, name) {
            let i = choose|i: int|
                0 <= i < lines.len() && lists(byte_text(#[trigger] lines[i]), name);
            let items = pieces(byte_text(lines[i]), ',');
            let j = choose|j: int|
                0 <= j < items.len() && lower(trimmed(#[trigger] items[j])) == name;
            assert(lower(trimmed(pieces(byte_text(headers["connection"@][i]), ',')[j])) == name);
        } else {
            assert forall|i: int, j: int|
                0 <= i < lines.len() && 0 <= j < pieces(byte_text(lines[i]), ',').len() implies
                lower(trimmed(#[trigger] pieces(byte_text(lines[i]), ',')[j])) != name by {
                assert(!lists(byte_text(lines[i]), name));
            }
        }
    }
}

/// A header is hop-by-hop if and only if it is taken out of every message that has it.
pub proof fn hop_by_hop_headers_are_those_taken_out(headers: HeaderContents, name: Seq<char>)
    requires
        headers.contains_key(name),
    ensures
        is_hop_by_hop(headers, name) <==> !end_to_end(headers).contains_key(name),
{
}

/// Whether a header is hop-by-hop depends on its name and the `Connection` header alone: it is so
/// if and only if a message with that `Connection` header would lose it.
pub proof fn hop_by_hop_is_a_matter_of_connection(
    headers: HeaderContents,
    name: Seq<char>,
    values: Seq<Seq<u8>>,
)
    requires
        name != "connection"@,
    ensures
        is_hop_by_hop(headers, name) <==> !end_to_end(headers.insert(name, values)).contains_key(
            name,
        ),
        is_hop_by_hop(headers, "connection"@),
{
    assert(hop_names()[0] == "connection"@);
    let more = headers.insert(name, values);
    assert(more.contains_key("connection"@) == headers.contains_key("connection"@));
    if headers.contains_key("connection"@) {
        assert(more["connection"@] == headers["connection"@]);
    }
    assert(is_connection_option(more, name) == is_connection_option(headers, name));
}

/// All three ways to take headers out do so: the headers of nine names, those that `Connection`
/// lists, and both.
pub proof fn headers_are_taken_out(headers: &mut HeaderMap<HeaderValue>, name: Seq<char>)
    ensures
        call_ensures(remove_hop_by_hop_headers, (headers,), ()) ==> header_contents(*final(headers))
            == end_to_end(header_contents(*old(headers))),
        call_ensures(remove_hop_headers, (headers,), ()) ==> {
            let before = header_contents(*old(headers));
            let after = header_contents(*final(headers));
            &&& after.contains_key(name) <==> {
                &&& before.contains_key(name)
                &&& name != "connection"@
                &&& name != "te"@
                &&& name != "trailer"@
                &&& name != "keep-alive"@
                &&& name != "proxy-connection"@
                &&& name != "proxy-authenticate"@
                &&& name != "proxy-authorization"@
                &&& name != "transfer-encoding"@
                &&& name != "upgrade"@
            }
            &&& after.contains_key(name) ==> after[name] == before[name]
        },
        call_ensures(remove_connection_headers, (headers,), ()) ==> {
            let before = header_contents(*old(headers));
            let after = header_contents(*final(headers));
            &&& after.contains_key(name) <==> before.contains_key(name) && !(is_header_name(name)
                && before.contains_key("connection"@) && exists|i: int|
                0 <= i < before["connection"@].len() && lists(
                    byte_text(#[trigger] before["connection"@][i]),
                    name,
                ))
            &&& after.contains_key(name) ==> after[name] == before[name]
        },
{
    hop_names_are_nine(name);
}

} // verus!
