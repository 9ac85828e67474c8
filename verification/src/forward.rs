//! The address that a request is forwarded to.

use vstd::prelude::*;

use crate::message::Request;
use crate::text::{
    characters, pieces, pieces_hold_no_more, pieces_join_back, pieces_of_two,
    pieces_without_separator, same_text, split, texts,
};

verus! {

/// `s` without its last character, if that is `c`.
pub open spec fn without_last(s: Seq<char>, c: char) -> Seq<char> {
    if s.len() > 0 && s.last() == c {
        s.drop_last()
    } else {
        s
    }
}

/// What stands before the query of a forwarding address, without a slash at its end.
pub open spec fn forward_base(forward_url: Seq<char>) -> Seq<char> {
    without_last(pieces(forward_url, '?')[0], '/')
}

/// The query of a forwarding address; empty where it has none.
pub open spec fn forward_query(forward_url: Seq<char>) -> Seq<char> {
    let parts = pieces(forward_url, '?');
    if parts.len() > 1 {
        parts[1]
    } else {
        Seq::<char>::empty()
    }
}

/// The forwarding address made of what stands before the query, and the query if there is one.
pub open spec fn forward_address(base: Seq<char>, query: Option<Seq<char>>) -> Seq<char> {
    match query {
        Some(q) => base.push('?') + q,
        None => base,
    }
}

/// The key of an item `key=value` of a query.
pub open spec fn item_key(item: Seq<char>) -> Seq<char> {
    pieces(item, '=')[0]
}

/// The value of an item `key=value` of a query; empty where it has none.
pub open spec fn item_value(item: Seq<char>) -> Seq<char> {
    let parts = pieces(item, '=');
    if parts.len() > 1 {
        parts[1]
    } else {
        Seq::<char>::empty()
    }
}

/// The keys of the items of a query.
pub open spec fn query_keys(query: Seq<char>) -> Seq<Seq<char>> {
    pieces(query, '&').map_values(|item: Seq<char>| item_key(item))
}

/// What an item of the request's query adds to a query that has these keys already: nothing,
/// where its key is among them.
pub open spec fn added_item(keys: Seq<Seq<char>>, item: Seq<char>) -> Seq<char> {
    if keys.contains(item_key(item)) {
        Seq::<char>::empty()
    } else {
        seq!['&'] + item_key(item) + seq!['='] + item_value(item)
    }
}

/// What the items add, one after the other.
pub open spec fn added_items(keys: Seq<Seq<char>>, items: Seq<Seq<char>>) -> Seq<char>
    decreases items.len(),
{
    if items.len() == 0 {
        Seq::<char>::empty()
    } else {
        added_items(keys, items.drop_last()) + added_item(keys, items.last())
    }
}

/// The query part of the forwarded address, with its question mark: that of the request, where
/// the forwarding address has no query; else that of the forwarding address, followed by the
/// items of the request's query whose keys it does not have.
pub open spec fn query_part(forward: Seq<char>, request: Seq<char>) -> Seq<char> {
    if forward.len() == 0 && request.len() == 0 {
        Seq::<char>::empty()
    } else if forward.len() == 0 {
        seq!['?'] + request
    } else {
        without_last(
            seq!['?'] + forward + added_items(query_keys(forward), pieces(request, '&')),
            '&',
        )
    }
}

/// The query of a request; empty where it has none.
pub open spec fn query_text(query: Option<Seq<char>>) -> Seq<char> {
    match query {
        Some(q) => q,
        None => Seq::<char>::empty(),
    }
}

/// The address that a request with this path and query is forwarded to.
pub open spec fn forwarded_text(
    forward_url: Seq<char>,
    path: Seq<char>,
    query: Option<Seq<char>>,
) -> Seq<char> {
    forward_base(forward_url) + path + query_part(forward_query(forward_url), query_text(query))
}

/// Takes the last character off, if it is `c`.
fn strip_last(s: &str, c: char) -> (r: String)
    ensures
        r@ == without_last(s@, c),
{
    let chars: Vec<char> = characters(s);
    let n: usize = chars.len();
    if n > 0 && chars[n - 1] == c {
        s.substring_char(0, n - 1).to_owned()
    } else {
        s.to_owned()
    }
}

/// The keys of the items of a query.
fn keys_of(query: &str) -> (keys: Vec<String>)
    ensures
        texts(keys@) == query_keys(query@),
{
    let items: Vec<String> = split(query, '&');
    let ghost item_texts = pieces(query@, '&');
    assert(texts(items@).len() == items@.len());
    let mut keys: Vec<String> = Vec::new();
    let mut i: usize = 0;
    while i < items.len()
        invariant
            i <= items@.len() == item_texts.len(),
            item_texts == pieces(query@, '&'),
            texts(items@) == item_texts,
            texts(keys@) == query_keys(query@).take(i as int),
        decreases items@.len() - i,
    {
        let ghost before = texts(keys@);
        assert(texts(items@)[i as int] == items@[i as int]@);
        let parts: Vec<String> = split(items[i].as_str(), '=');
        assert(texts(parts@)[0] == parts@[0]@);
        keys.push(parts[0].clone());
        assert(texts(keys@) =~= before.push(item_key(item_texts[i as int])));
        assert(query_keys(query@).take(i + 1) =~= before.push(item_key(item_texts[i as int])));
        i = i + 1;
    }
    assert(query_keys(query@).take(i as int) =~= query_keys(query@));
    keys
}

/// Whether `key` is one of `keys`.
fn has_key(keys: &Vec<String>, key: &str) -> (r: bool)
    ensures
        r == texts(keys@).contains(key@),
{
    let mut i: usize = 0;
    while i < keys.len()
        invariant
            i <= keys@.len(),
            forall|j: int| 0 <= j < i ==> #[trigger] texts(keys@)[j] != key@,
        decreases keys@.len() - i,
    {
        assert(texts(keys@)[i as int] == keys@[i as int]@);
        if same_text(keys[i].as_str(), key) {
            return true;
        }
        i = i + 1;
    }
    assert(texts(keys@).len() == keys@.len());
    false
}

/// Appends to `url` the items of `request_query` whose keys are not those of `forward_query`.
fn push_new_items(url: &mut String, forward_query: &str, request_query: &str)
    ensures
        final(url)@ == old(url)@ + added_items(
            query_keys(forward_query@),
            pieces(request_query@, '&'),
        ),
{
    let ghost start = url@;
    let ghost item_texts = pieces(request_query@, '&');
    let keys: Vec<String> = keys_of(forward_query);
    let items: Vec<String> = split(request_query, '&');
    assert(texts(items@).len() == items@.len());
    assert(start + added_items(texts(keys@), item_texts.take(0)) =~= start);
    let mut i: usize = 0;
    while i < items.len()
        invariant
            i <= items@.len() == item_texts.len(),
            item_texts == texts(items@),
            url@ == start + added_items(texts(keys@), item_texts.take(i as int)),
        decreases items@.len() - i,
    {
        let ghost before = url@;
        let ghost item = item_texts[i as int];
        assert(item == items@[i as int]@);
        proof {
            assert(item_texts.take(i + 1).drop_last() =~= item_texts.take(i as int));
        }
        let parts: Vec<String> = split(items[i].as_str(), '=');
        assert(texts(parts@).len() == parts@.len());
        assert(texts(parts@)[0] == parts@[0]@);
        if !has_key(&keys, parts[0].as_str()) {
            url.push('&');
            url.append(parts[0].as_str());
            url.push('=');
            if parts.len() > 1 {
                assert(texts(parts@)[1] == parts@[1]@);
                url.append(parts[1].as_str());
            }
            assert(url@ =~= before + added_item(texts(keys@), item));
        } else {
            assert(url@ =~= before + added_item(texts(keys@), item));
        }
        assert(url@ =~= start + added_items(texts(keys@), item_texts.take(i + 1)));
        i = i + 1;
    }
    assert(item_texts.take(i as int) =~= item_texts);
}

/// Builds the address that a request is forwarded to: the forwarding address up to its query,
/// the path of the request, and the two queries merged.
pub fn forward_uri<B>(forward_url: &str, req: &Request<B>) -> (url: String)
    ensures
        url@ == forwarded_text(forward_url@, req@.uri.path, req@.uri.query),
{
    proof {
        reveal_strlit("");
    }
    let split_url: Vec<String> = split(forward_url, '?');
    assert(texts(split_url@).len() == split_url@.len());
    assert(texts(split_url@)[0] == split_url@[0]@);
    let forward_url_query: &str = if split_url.len() > 1 {
        assert(texts(split_url@)[1] == split_url@[1]@);
        split_url[1].as_str()
    } else {
        ""
    };
    assert(forward_url_query@ =~= forward_query(forward_url@));
    let request_query: &str = match &req.uri.query {
        Some(query) => query.as_str(),
        None => "",
    };
    assert(request_query@ =~= query_text(req@.uri.query));

    let mut url: String = strip_last(split_url[0].as_str(), '/');
    url.append(req.uri.path.as_str());
    let ghost address = url@;
    if !forward_url_query.is_empty() || !request_query.is_empty() {
        url.push('?');
        url.append(forward_url_query);
        if forward_url_query.is_empty() {
            url.append(request_query);
            assert(url@ =~= address + query_part(forward_url_query@, request_query@));
        } else {
            push_new_items(&mut url, forward_url_query, request_query);
            let ghost tail = seq!['?'] + forward_url_query@ + added_items(
                query_keys(forward_url_query@),
                pieces(request_query@, '&'),
            );
            assert(url@ =~= address + tail);
            assert(url@.last() == tail.last());
            url = strip_last(url.as_str(), '&');
            assert(url@ =~= address + without_last(tail, '&'));
        }
    } else {
        assert(url@ =~= address + query_part(forward_url_query@, request_query@));
    }
    url
}

/// A slash at the end of what stands before the query of the forwarding address makes no
/// difference, where only one stands there.
pub proof fn slash_makes_no_difference(
    base: Seq<char>,
    forward_query: Option<Seq<char>>,
    path: Seq<char>,
    query: Option<Seq<char>>,
)
    requires
        !base.contains('?'),
        base.len() > 0 ==> base.last() != '/',
    ensures
        forwarded_text(forward_address(base.push('/'), forward_query), path, query)
            == forwarded_text(forward_address(base, forward_query), path, query),
{
    let with_slash = base.push('/');
    assert forall|i: int| 0 <= i < with_slash.len() implies with_slash[i] != '?' by {
        if i < base.len() {
            assert(base.contains(base[i]));
        }
    }
    pieces_without_separator(base, '?');
    pieces_without_separator(with_slash, '?');
    assert(with_slash.drop_last() =~= base);
    if let Some(q) = forward_query {
        pieces_of_two(base, q, '?');
        pieces_of_two(with_slash, q, '?');
    }
}

/// Where the forwarding address has no query, the path and the query of the request are passed
/// on as they are, and an empty query is left out.
pub proof fn request_query_is_kept(
    forward_url: Seq<char>,
    path: Seq<char>,
    query: Option<Seq<char>>,
)
    requires
        forward_query(forward_url).len() == 0,
    ensures
        forwarded_text(forward_url, path, query) == forward_base(forward_url) + path + (
        if query_text(query).len() == 0 {
            Seq::<char>::empty()
        } else {
            seq!['?'] + query_text(query)
        }),
{
}

/// The items add up: those of two lists in a row are those of the first, then of the second.
pub proof fn added_items_add_up(keys: Seq<Seq<char>>, a: Seq<Seq<char>>, b: Seq<Seq<char>>)
    ensures
        added_items(keys, a + b) == added_items(keys, a) + added_items(keys, b),
    decreases b.len(),
{
    if b.len() == 0 {
        assert(a + b =~= a);
        assert(added_items(keys, a) + added_items(keys, b) =~= added_items(keys, a));
    } else {
        added_items_add_up(keys, a, b.drop_last());
        assert((a + b).drop_last() =~= a + b.drop_last());
        assert(added_items(keys, a + b) =~= added_items(keys, a) + added_items(keys, b));
    }
}

/// An item as it is added to a query: its key and its value, with `=` between them.
pub open spec fn plain_item(item: Seq<char>) -> Seq<char> {
    item_key(item) + seq!['='] + item_value(item)
}

/// Whether an item has that key.
pub open spec fn with_key(key: Seq<char>) -> spec_fn(Seq<char>) -> bool {
    |item: Seq<char>| item_key(item) == key
}

/// Whether the key of an item is not among `keys`.
pub open spec fn with_new_key(keys: Seq<Seq<char>>) -> spec_fn(Seq<char>) -> bool {
    |item: Seq<char>| !keys.contains(item_key(item))
}

/// Items as they are added to a query.
pub open spec fn plain_items(items: Seq<Seq<char>>) -> Seq<Seq<char>> {
    items.map_values(|item: Seq<char>| plain_item(item))
}

/// The items of a query that have that key, in order.
pub open spec fn query_items(query: Seq<char>, key: Seq<char>) -> Seq<Seq<char>> {
    pieces(query, '&').filter(with_key(key))
}

/// An item as it is added has the same key; it holds no `&` where the item holds none, and is not
/// empty.
proof fn plain_item_keeps_key(item: Seq<char>)
    ensures
        item_key(plain_item(item)) == item_key(item),
        !item.contains('&') ==> !plain_item(item).contains('&'),
        plain_item(item).len() > 0,
{
    let key = item_key(item);
    let value = item_value(item);
    pieces_join_back(item, '=');
    pieces_without_separator(key, '=');
    pieces_of_two(key, value, '=');
    assert(plain_item(item) =~= key.push('=') + value);
    if !item.contains('&') {
        pieces_hold_no_more(item, '=', '&');
        assert(!key.contains('&'));
        assert(!value.contains('&'));
        assert forall|i: int| 0 <= i < plain_item(item).len() implies plain_item(item)[i] != '&' by {
            if i < key.len() {
                assert(key.contains(key[i]));
            } else if i > key.len() {
                assert(value.contains(value[i - key.len() - 1]));
            }
        }
    }
}

/// What is added to a query, taken apart again, is the items with a new key, in order.
proof fn added_items_are_new_items(query: Seq<char>, keys: Seq<Seq<char>>, items: Seq<Seq<char>>)
    requires
        forall|i: int| 0 <= i < items.len() ==> !(#[trigger] items[i]).contains('&'),
    ensures
        pieces(query + added_items(keys, items), '&') == pieces(query, '&') + plain_items(
            items.filter(with_new_key(keys)),
        ),
        items.filter(with_new_key(keys)).len() == 0 ==> added_items(keys, items).len() == 0,
    decreases items.len(),
{
    reveal(Seq::filter);
    let new_items = items.filter(with_new_key(keys));
    if items.len() == 0 {
        assert(query + added_items(keys, items) =~= query);
        assert(pieces(query, '&') + plain_items(new_items) =~= pieces(query, '&'));
    } else {
        let init = items.drop_last();
        let item = items.last();
        let before = query + added_items(keys, init);
        assert(item == items[items.len() - 1]);
        assert forall|i: int| 0 <= i < init.len() implies !(#[trigger] init[i]).contains('&') by {
            assert(init[i] == items[i]);
        }
        added_items_are_new_items(query, keys, init);
        if keys.contains(item_key(item)) {
            assert(query + added_items(keys, items) =~= before);
        } else {
            plain_item_keeps_key(item);
            pieces_without_separator(plain_item(item), '&');
            pieces_of_two(before, plain_item(item), '&');
            assert(query + added_items(keys, items) =~= before.push('&') + plain_item(item));
            assert(plain_items(new_items) =~= plain_items(init.filter(with_new_key(keys))).push(
                plain_item(item),
            ));
            assert(pieces(query + added_items(keys, items), '&') =~= pieces(query, '&')
                + plain_items(new_items));
        }
    }
}

/// The query of the forwarding address wins. Its items come first, as they are; of the items of
/// the request's query, those with a key of the forwarding address are left out, and all others
/// follow, in order. Where none follows, an `&` at the end is dropped.
pub proof fn forward_query_wins(forward: Seq<char>, request: Seq<char>)
    requires
        forward.len() > 0,
    ensures
        ({
            let query = query_part(forward, request);
            let new_items = pieces(request, '&').filter(with_new_key(query_keys(forward)));
            &&& query == seq!['?'] + query.skip(1)
            &&& if new_items.len() == 0 {
                query.skip(1) == without_last(forward, '&')
            } else {
                pieces(query.skip(1), '&') == pieces(forward, '&') + plain_items(new_items)
            }
        }),
{
    let keys = query_keys(forward);
    let items = pieces(request, '&');
    let new_items = items.filter(with_new_key(keys));
    let merged = forward + added_items(keys, items);
    let query = query_part(forward, request);
    pieces_join_back(request, '&');
    added_items_are_new_items(forward, keys, items);
    assert(seq!['?'] + forward + added_items(keys, items) =~= seq!['?'] + merged);
    assert((seq!['?'] + merged).last() == merged.last());
    if new_items.len() == 0 {
        assert(merged =~= forward);
    } else {
        let last = plain_items(new_items).last();
        assert(last == plain_item(new_items.last()));
        plain_item_keeps_key(new_items.last());
        assert(pieces(merged, '&').last() == last);
        assert(merged.last() != '&');
    }
    assert(query =~= seq!['?'] + without_last(merged, '&'));
    assert(query.skip(1) =~= without_last(merged, '&'));
}

/// Which of the new items have a key: none where the key is not new, else all that have it.
proof fn new_items_by_key(keys: Seq<Seq<char>>, items: Seq<Seq<char>>, key: Seq<char>)
    ensures
        plain_items(items.filter(with_new_key(keys))).filter(with_key(key)) == (if keys.contains(
            key,
        ) {
            Seq::<Seq<char>>::empty()
        } else {
            plain_items(items.filter(with_key(key)))
        }),
    decreases items.len(),
{
    reveal(Seq::filter);
    let plain = plain_items(items.filter(with_new_key(keys)));
    if items.len() == 0 {
        assert(plain =~= Seq::<Seq<char>>::empty());
        assert(plain_items(items.filter(with_key(key))) =~= Seq::<Seq<char>>::empty());
    } else {
        let init = items.drop_last();
        let item = items.last();
        let before = plain_items(init.filter(with_new_key(keys)));
        new_items_by_key(keys, init, key);
        plain_item_keeps_key(item);
        if keys.contains(item_key(item)) {
            assert(plain =~= before);
        } else {
            assert(plain =~= before.push(plain_item(item)));
            assert(plain.drop_last() =~= before);
        }
        if item_key(item) == key {
            assert(plain_items(items.filter(with_key(key))) =~= plain_items(
                init.filter(with_key(key)),
            ).push(plain_item(item)));
        }
    }
}

/// The queries are merged key by key. The items with a key that the forwarding address has are
/// those of the forwarding address, neither overridden nor repeated by the request; the items
/// with any other key are those of the request, all of them and in order. The one exception is
/// an empty item at the end of the forwarding address, which can be dropped.
pub proof fn queries_merge_key_by_key(forward: Seq<char>, request: Seq<char>, key: Seq<char>)
    requires
        forward.len() > 0,
        key.len() > 0 || forward.last() != '&',
    ensures
        query_items(query_part(forward, request).skip(1), key) == (if query_keys(
            forward,
        ).contains(key) {
            query_items(forward, key)
        } else {
            plain_items(query_items(request, key))
        }),
{
    let keys = query_keys(forward);
    let items = pieces(request, '&');
    let new_items = items.filter(with_new_key(keys));
    let own = pieces(forward, '&');
    forward_query_wins(forward, request);
    new_items_by_key(keys, items, key);
    if !keys.contains(key) {
        assert forall|i: int| 0 <= i < own.len() implies !with_key(key)(#[trigger] own[i]) by {
            assert(keys[i] == item_key(own[i]));
        }
        own.lemma_all_neg_filter_empty(with_key(key));
        assert(own.filter(with_key(key)) =~= Seq::<Seq<char>>::empty());
    }
    Seq::filter_distributes_over_add(own, plain_items(new_items), with_key(key));
    assert(own.filter(with_key(key)) + plain_items(new_items).filter(with_key(key)) =~= (
    if keys.contains(key) {
        query_items(forward, key)
    } else {
        plain_items(query_items(request, key))
    }));
    if new_items.len() == 0 {
        assert(own + plain_items(new_items) =~= own);
        if forward.last() == '&' {
            let empty = Seq::<char>::empty();
            let before = pieces(forward.drop_last(), '&');
            assert(item_key(empty) =~= empty);
            reveal(Seq::filter);
            assert(own.drop_last() =~= before);
            assert(own.filter(with_key(key)) == before.filter(with_key(key)));
        }
    }
}

/// The forwarded address begins with the forwarding address up to its query, without a slash at
/// its end, and goes on with the path of the request; then comes nothing, or a query.
pub proof fn forwarded_address_has_its_parts(
    forward_url: Seq<char>,
    path: Seq<char>,
    query: Option<Seq<char>>,
)
    ensures
        (forward_base(forward_url) + path).is_prefix_of(forwarded_text(forward_url, path, query)),
        ({
            let rest = forwarded_text(forward_url, path, query).skip(
                (forward_base(forward_url) + path).len() as int,
            );
            rest.len() > 0 ==> rest[0] == '?'
        }),
{
    let front = forward_base(forward_url) + path;
    let part = query_part(forward_query(forward_url), query_text(query));
    let text = forwarded_text(forward_url, path, query);
    assert(text =~= front + part);
    assert(text.skip(front.len() as int) =~= part);
    assert(text.take(front.len() as int) =~= front);
}

/// A text that begins with another text and a character is these, and the rest.
proof fn prefix_splits(front: Seq<char>, c: char, s: Seq<char>)
    requires
        (front + seq![c]).is_prefix_of(s),
    ensures
        s == front.push(c) + s.skip(front.len() as int + 1),
{
    let whole = front + seq![c];
    assert(whole =~= s.subrange(0, whole.len() as int));
    assert(whole =~= front.push(c));
    assert(s =~= whole + s.skip(whole.len() as int));
}

/// An item of a query is a key; or a key, `=` and a value; and what follows a second `=` does not
/// count. The key and the value are just these texts, and stand in the forwarded query with `=`
/// between them.
pub proof fn items_are_keys_and_values(item: Seq<char>, key: Seq<char>, value: Seq<char>)
    requires
        !key.contains('='),
        !value.contains('='),
        item == key && value.len() == 0 || item == key + seq!['='] + value || (key + seq!['=']
            + value + seq!['=']).is_prefix_of(item),
    ensures
        item_key(item) == key,
        item_value(item) == value,
        plain_item(item) == key + seq!['='] + value,
{
    let both = key + seq!['='] + value;
    pieces_without_separator(key, '=');
    pieces_without_separator(value, '=');
    pieces_of_two(key, value, '=');
    assert(both =~= key.push('=') + value);
    assert(pieces(both, '=') =~= seq![key, value]);
    if item == key && value.len() == 0 {
        assert(value =~= Seq::<char>::empty());
    } else if item != both {
        let rest = item.skip(both.len() as int + 1);
        pieces_of_two(both, rest, '=');
        prefix_splits(both, '=', item);
        assert(pieces(item, '=')[0] == key);
        assert(pieces(item, '=')[1] == value);
    }
}

/// The key of an item is a text without `=` that is the item or that the item begins with, with
/// `=` behind it; and there is no other such text.
proof fn key_stands_in_front(item: Seq<char>, key: Seq<char>)
    requires
        !key.contains('='),
    ensures
        item_key(item) == key <==> item == key || (key + seq!['=']).is_prefix_of(item),
{
    if item == key {
        pieces_without_separator(key, '=');
    } else if (key + seq!['=']).is_prefix_of(item) {
        let rest = item.skip(key.len() as int + 1);
        pieces_without_separator(key, '=');
        pieces_of_two(key, rest, '=');
        prefix_splits(key, '=', item);
        assert(pieces(item, '=')[0] == key);
    } else if item.contains('=') {
        let i = item.index_of_first('=')->0;
        item.index_of_first_ensures('=');
        let own = item.take(i);
        let rest = item.skip(i + 1);
        assert forall|j: int| 0 <= j < own.len() implies own[j] != '=' by {
            assert(item[j] == own[j]);
        }
        pieces_without_separator(own, '=');
        pieces_of_two(own, rest, '=');
        assert(item =~= own.push('=') + rest);
        assert(pieces(item, '=')[0] == own);
        assert((own + seq!['=']) =~= item.take(i + 1));
        assert((own + seq!['=']).is_prefix_of(item));
    } else {
        pieces_without_separator(item, '=');
    }
}

/// A query has a key if and only if one of its items, wherever it stands, is that key, or begins
/// with it and `=`.
pub proof fn keys_are_those_of_all_items(query: Seq<char>, key: Seq<char>)
    requires
        !key.contains('='),
    ensures
        query_keys(query).contains(key) <==> exists|i: int|
            0 <= i < pieces(query, '&').len() && (#[trigger] pieces(query, '&')[i] == key || (key
                + seq!['=']).is_prefix_of(pieces(query, '&')[i])),
{
    let items = pieces(query, '&');
    let keys = query_keys(query);
    if keys.contains(key) {
        let i = choose|i: int| 0 <= i < keys.len() && keys[i] == key;
        assert(keys[i] == item_key(items[i]));
        key_stands_in_front(items[i], key);
    }
    assert forall|i: int|
        0 <= i < items.len() && (#[trigger] items[i] == key || (key + seq!['=']).is_prefix_of(
            items[i],
        )) implies keys.contains(key) by {
        key_stands_in_front(items[i], key);
        assert(keys[i] == item_key(items[i]));
    }
}

/// The parts of a forwarding address: what stands before the first `?`, less a slash at its end,
/// and what stands between the first and the second.
proof fn address_has_two_parts(
    url: Seq<char>,
    address: Seq<char>,
    base: Seq<char>,
    forward: Seq<char>,
)
    requires
        !address.contains('?'),
        !forward.contains('?'),
        address == base + seq!['/'] || address == base && (base.len() == 0 || base.last() != '/'),
        url == address && forward.len() == 0 || url == address + seq!['?'] + forward || (address
            + seq!['?'] + forward + seq!['?']).is_prefix_of(url),
    ensures
        forward_base(url) == base,
        forward_query(url) == forward,
{
    let both = address + seq!['?'] + forward;
    pieces_without_separator(address, '?');
    pieces_without_separator(forward, '?');
    pieces_of_two(address, forward, '?');
    assert(both =~= address.push('?') + forward);
    if url == address && forward.len() == 0 {
        assert(forward =~= Seq::<char>::empty());
    } else if url != both {
        let rest = url.skip(both.len() as int + 1);
        pieces_of_two(both, rest, '?');
        prefix_splits(both, '?', url);
    }
    assert(pieces(url, '?')[0] == address);
    assert(forward_query(url) == forward);
    if address == base + seq!['/'] {
        assert(address.drop_last() =~= base);
    }
}

/// What is added does not end in `&`.
proof fn added_items_end_in_items(keys: Seq<Seq<char>>, items: Seq<Seq<char>>)
    requires
        forall|i: int| 0 <= i < items.len() ==> !(#[trigger] items[i]).contains('&'),
    ensures
        added_items(keys, items).len() > 0 ==> added_items(keys, items).last() != '&',
    decreases items.len(),
{
    if items.len() > 0 {
        let init = items.drop_last();
        let item = items.last();
        assert forall|i: int| 0 <= i < init.len() implies !(#[trigger] init[i]).contains('&') by {
            assert(init[i] == items[i]);
        }
        added_items_end_in_items(keys, init);
        assert(item == items[items.len() - 1]);
        plain_item_keeps_key(item);
        if !keys.contains(item_key(item)) {
            let added = added_item(keys, item);
            assert(added =~= seq!['&'] + plain_item(item));
            assert(added.last() == plain_item(item).last());
            assert(plain_item(item).contains(plain_item(item).last()));
        } else {
            assert(added_items(keys, items) =~= added_items(keys, init));
        }
    }
}

/// The address that a request is forwarded to, where the forwarding address has no query: its
/// text up to the first `?`, less a slash at its end, then the path, then the query of the
/// request as it is, if that is not empty.
pub proof fn plain_addresses_are_joined(
    url: Seq<char>,
    address: Seq<char>,
    base: Seq<char>,
    path: Seq<char>,
    query: Seq<char>,
)
    requires
        !address.contains('?'),
        address == base + seq!['/'] || address == base && (base.len() == 0 || base.last() != '/'),
        url == address || url == address + seq!['?'] || (address + seq!['?', '?']).is_prefix_of(
            url,
        ),
    ensures
        forwarded_text(url, path, None) == base + path,
        forwarded_text(url, path, Some(Seq::<char>::empty())) == base + path,
        query.len() > 0 ==> forwarded_text(url, path, Some(query)) == base + path + seq!['?']
            + query,
{
    let none = Seq::<char>::empty();
    assert(address + seq!['?'] + none =~= address + seq!['?']);
    assert(address + seq!['?'] + none + seq!['?'] =~= address + seq!['?', '?']);
    address_has_two_parts(url, address, base, none);
    assert(base + path + none =~= base + path);
    assert(base + path + (seq!['?'] + query) =~= base + path + seq!['?'] + query);
}

/// The address that a request is forwarded to, where the forwarding address has a query: the two
/// addresses and that query, and what is added.
proof fn added_items_follow(
    url: Seq<char>,
    base: Seq<char>,
    forward: Seq<char>,
    path: Seq<char>,
    query: Seq<char>,
)
    requires
        forward_base(url) == base,
        forward_query(url) == forward,
        forward.len() > 0,
    ensures
        ({
            let front = base + path + seq!['?'] + forward;
            let added = added_items(query_keys(forward), pieces(query, '&'));
            forwarded_text(url, path, Some(query)) == if added.len() > 0 {
                front + added
            } else if forward.last() == '&' {
                front.drop_last()
            } else {
                front
            }
        }),
{
    let front = base + path + seq!['?'] + forward;
    let tail = seq!['?'] + forward;
    let added = added_items(query_keys(forward), pieces(query, '&'));
    pieces_join_back(query, '&');
    added_items_end_in_items(query_keys(forward), pieces(query, '&'));
    if added.len() > 0 {
        assert((tail + added).last() == added.last());
        assert(base + path + (tail + added) =~= front + added);
    } else {
        assert(tail + added =~= tail);
        assert(tail.last() == forward.last());
        assert(base + path + tail =~= front);
        assert(base + path + tail.drop_last() =~= front.drop_last());
    }
}

/// The address that a request is forwarded to, where the forwarding address has a query, told
/// item by item of the request's query. First comes the forwarding address, with the path of the
/// request before its query; of that only an `&` at the end is dropped, where nothing is added.
/// An item with a key that the query of the forwarding address has adds nothing, be it the only
/// one or one behind others. An item with any other key is added behind `&`, whole, with `=`
/// between its key and its value.
pub proof fn queries_are_merged_item_by_item(
    url: Seq<char>,
    address: Seq<char>,
    base: Seq<char>,
    forward: Seq<char>,
    path: Seq<char>,
    earlier_items: Seq<char>,
    item: Seq<char>,
    key: Seq<char>,
    value: Seq<char>,
)
    requires
        !address.contains('?'),
        !forward.contains('?'),
        forward.len() > 0,
        address == base + seq!['/'] || address == base && (base.len() == 0 || base.last() != '/'),
        url == address + seq!['?'] + forward || (address + seq!['?'] + forward
            + seq!['?']).is_prefix_of(url),
        !key.contains('='),
        !value.contains('='),
        !item.contains('&'),
        item == key && value.len() == 0 || item == key + seq!['='] + value || (key + seq!['=']
            + value + seq!['=']).is_prefix_of(item),
    ensures
        ({
            let front = base + path + seq!['?'] + forward;
            let alone = forwarded_text(url, path, Some(item));
            let earlier = forwarded_text(url, path, Some(earlier_items));
            let later = forwarded_text(url, path, Some(earlier_items + seq!['&'] + item));
            if exists|i: int|
                0 <= i < pieces(forward, '&').len() && (#[trigger] pieces(forward, '&')[i] == key
                    || (key + seq!['=']).is_prefix_of(pieces(forward, '&')[i])) {
                &&& alone == if forward.last() == '&' {
                    front.drop_last()
                } else {
                    front
                }
                &&& later == earlier
            } else {
                &&& alone == front + seq!['&'] + key + seq!['='] + value
                &&& later == (if earlier.len() < front.len() {
                    front
                } else {
                    earlier
                }) + seq!['&'] + key + seq!['='] + value
            }
        }),
        forwarded_text(url, path, None) == forwarded_text(url, path, Some(Seq::<char>::empty())),
{
    let keys = query_keys(forward);
    let front = base + path + seq!['?'] + forward;
    let items = pieces(earlier_items, '&');
    let before = added_items(keys, items);
    let added = added_item(keys, item);
    let all = earlier_items + seq!['&'] + item;
    let end = seq!['&'] + key + seq!['='] + value;
    address_has_two_parts(url, address, base, forward);
    items_are_keys_and_values(item, key, value);
    keys_are_those_of_all_items(forward, key);
    added_items_follow(url, base, forward, path, item);
    added_items_follow(url, base, forward, path, earlier_items);
    added_items_follow(url, base, forward, path, all);
    pieces_without_separator(item, '&');
    pieces_of_two(earlier_items, item, '&');
    assert(all =~= earlier_items.push('&') + item);
    assert(pieces(all, '&') =~= items.push(item));
    assert(items.push(item).drop_last() =~= items);
    assert(seq![item].drop_last() =~= Seq::<Seq<char>>::empty());
    assert(added_items(keys, seq![item]) =~= added) by {
        assert(added_items(keys, Seq::<Seq<char>>::empty()) =~= Seq::<char>::empty());
    }
    assert(added_items(keys, items.push(item)) =~= before + added);
    if keys.contains(key) {
        assert(before + added =~= before);
    } else {
        assert(added =~= end);
        assert(front + end =~= front + seq!['&'] + key + seq!['='] + value);
        assert(front + (before + end) =~= front + before + seq!['&'] + key + seq!['='] + value);
        if before.len() == 0 {
            assert(front + before =~= front);
        }
    }
}

/// The address is built from the forwarding address, and the path and the query of the request.
pub proof fn address_is_built<B>(forward_url: &str, req: &Request<B>, url: String)
    requires
        call_ensures(forward_uri::<B>, (forward_url, req), url),
    ensures
        url@ == forwarded_text(
            forward_url@,
            req.uri.path@,
            match req.uri.query {
                Some(query) => Some(query@),
                None => None,
            },
        ),
{
}

} // verus!
