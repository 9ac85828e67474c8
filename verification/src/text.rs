//! Text handling: splitting, trimming and ASCII case folding, stated over characters.

use vstd::prelude::*;

verus! {

/// `String::push` appends one character to the end of the string.
pub assume_specification[ String::push ](s: &mut String, c: char)
    ensures
        final(s)@ == old(s)@.push(c),
;

/// The texts of a sequence of strings.
pub open spec fn texts(strings: Seq<String>) -> Seq<Seq<char>> {
    strings.map_values(|s: String| s@)
}

/// The text of a string that may be missing.
pub open spec fn option_text(s: Option<String>) -> Option<Seq<char>> {
    match s {
        Some(t) => Some(t@),
        None => None,
    }
}

/// The pieces of `s` between the occurrences of `sep`: one more than there are occurrences, so
/// always at least one.
pub open spec fn pieces(s: Seq<char>, sep: char) -> Seq<Seq<char>>
    decreases s.len(),
{
    if s.len() == 0 {
        seq![Seq::<char>::empty()]
    } else if s.last() == sep {
        pieces(s.drop_last(), sep).push(Seq::<char>::empty())
    } else {
        let before = pieces(s.drop_last(), sep);
        before.drop_last().push(before.last().push(s.last()))
    }
}

/// `parts` one after the other, with `sep` between each and the next.
pub open spec fn joined(parts: Seq<Seq<char>>, sep: char) -> Seq<char>
    decreases parts.len(),
{
    if parts.len() == 0 {
        Seq::<char>::empty()
    } else if parts.len() == 1 {
        parts[0]
    } else {
        joined(parts.drop_last(), sep).push(sep) + parts.last()
    }
}

/// White space that may stand around an item of a header's list.
pub open spec fn is_blank(c: char) -> bool {
    c == ' ' || c == '\t'
}

/// `s` without the blanks at its beginning.
pub open spec fn trimmed_start(s: Seq<char>) -> Seq<char>
    decreases s.len(),
{
    if s.len() > 0 && is_blank(s[0]) {
        trimmed_start(s.skip(1))
    } else {
        s
    }
}

/// `s` without the blanks at its end.
pub open spec fn trimmed_end(s: Seq<char>) -> Seq<char>
    decreases s.len(),
{
    if s.len() > 0 && is_blank(s.last()) {
        trimmed_end(s.drop_last())
    } else {
        s
    }
}

/// `s` without the blanks around it.
pub open spec fn trimmed(s: Seq<char>) -> Seq<char> {
    trimmed_end(trimmed_start(s))
}

/// The lower case of an ASCII letter; every other character stays as it is.
pub open spec fn lower_char(c: char) -> char {
    if 'A' <= c <= 'Z' {
        (c as u8 + 32) as char
    } else {
        c
    }
}

/// `s` with its ASCII letters in lower case.
pub open spec fn lower(s: Seq<char>) -> Seq<char> {
    s.map_values(|c: char| lower_char(c))
}

/// The text whose characters are the bytes, one for one.
pub open spec fn byte_text(bytes: Seq<u8>) -> Seq<char> {
    bytes.map_values(|b: u8| b as char)
}

/// Whether `name` is among the comma-separated items of `list`, upper and lower case alike.
pub open spec fn lists(list: Seq<char>, name: Seq<char>) -> bool {
    exists|i: int|
        0 <= i < pieces(list, ',').len() && lower(trimmed(#[trigger] pieces(list, ',')[i]))
            == name
}

/// Splits `s` at every occurrence of `sep`.
pub(crate) fn split(s: &str, sep: char) -> (parts: Vec<String>)
    ensures
        texts(parts@) == pieces(s@, sep),
        parts@.len() > 0,
{
    let mut parts: Vec<String> = Vec::new();
    let mut current: String = String::new();
    for c in it: s.chars()
        invariant
            it.seq() == s@,
            texts(parts@).push(current@) == pieces(s@.take(it.index() as int), sep),
    {
        proof {
            let n = it.index() as int;
            assert(s@.take(n + 1).drop_last() =~= s@.take(n));
            assert(s@.take(n + 1).last() == c);
        }
        let ghost before = texts(parts@);
        let ghost cur = current@;
        if c == sep {
            parts.push(current);
            assert(texts(parts@) =~= before.push(cur));
            current = String::new();
        } else {
            current.push(c);
            assert(before.push(cur).drop_last() =~= before);
        }
    }
    assert(s@.take(s@.len() as int) =~= s@);
    let ghost before = texts(parts@);
    let ghost cur = current@;
    parts.push(current);
    assert(texts(parts@) =~= before.push(cur));
    parts
}

/// The characters of `s`.
pub(crate) fn characters(s: &str) -> (chars: Vec<char>)
    ensures
        chars@ == s@,
{
    let mut chars: Vec<char> = Vec::new();
    for c in it: s.chars()
        invariant
            it.seq() == s@,
            chars@ == s@.take(it.index() as int),
    {
        chars.push(c);
    }
    assert(s@.take(s@.len() as int) =~= s@);
    chars
}

/// Removes the blanks around `s`.
pub(crate) fn trim(s: &str) -> (r: String)
    ensures
        r@ == trimmed(s@),
{
    let chars: Vec<char> = characters(s);
    let mut start: usize = 0;
    assert(s@.skip(0) =~= s@);
    while start < chars.len() && (chars[start] == ' ' || chars[start] == '\t')
        invariant
            chars@ == s@,
            start <= chars@.len(),
            trimmed_start(s@) == trimmed_start(s@.skip(start as int)),
        decreases chars@.len() - start,
    {
        assert(s@.skip(start as int).skip(1) =~= s@.skip(start + 1));
        start = start + 1;
    }
    let ghost body = s@.skip(start as int);
    assert(trimmed_start(s@) == body);
    let mut end: usize = chars.len();
    assert(body.take(end - start) =~= body);
    while start < end && (chars[end - 1] == ' ' || chars[end - 1] == '\t')
        invariant
            chars@ == s@,
            start <= end <= chars@.len(),
            body == s@.skip(start as int),
            trimmed_end(body) == trimmed_end(body.take(end - start)),
        decreases end - start,
    {
        assert(body.take(end - start).drop_last() =~= body.take(end - 1 - start));
        end = end - 1;
    }
    let ghost inner = body.take(end - start);
    assert(trimmed_end(body) == inner);
    let mut r: String = String::new();
    let mut i: usize = start;
    while i < end
        invariant
            chars@ == s@,
            start <= i <= end <= chars@.len(),
            inner == s@.skip(start as int).take(end - start),
            r@ == inner.take(i - start),
        decreases end - i,
    {
        assert(inner.take(i + 1 - start) =~= inner.take(i - start).push(chars@[i as int]));
        r.push(chars[i]);
        i = i + 1;
    }
    assert(inner.take(end - start) =~= inner);
    r
}

/// Turns the ASCII letters of `s` into lower case.
pub(crate) fn to_lower(s: &str) -> (r: String)
    ensures
        r@ == lower(s@),
{
    let mut r: String = String::new();
    for c in it: s.chars()
        invariant
            it.seq() == s@,
            r@ == lower(s@.take(it.index() as int)),
    {
        proof {
            let n = it.index() as int;
            assert(lower(s@.take(n + 1)) =~= lower(s@.take(n)).push(lower_char(c)));
        }
        if 'A' <= c && c <= 'Z' {
            r.push((c as u8 + 32) as char);
        } else {
            r.push(c);
        }
    }
    assert(s@.take(s@.len() as int) =~= s@);
    r
}

/// Reads bytes as text, one character for one byte.
pub(crate) fn text_of_bytes(bytes: &[u8]) -> (r: String)
    ensures
        r@ == byte_text(bytes@),
{
    let mut r: String = String::new();
    let mut i: usize = 0;
    while i < bytes.len()
        invariant
            i <= bytes@.len(),
            r@ == byte_text(bytes@.take(i as int)),
        decreases bytes@.len() - i,
    {
        assert(byte_text(bytes@.take(i + 1)) =~= byte_text(bytes@.take(i as int)).push(
            bytes@[i as int] as char,
        ));
        r.push(bytes[i] as char);
        i = i + 1;
    }
    assert(bytes@.take(i as int) =~= bytes@);
    r
}

/// Whether two texts are the same.
pub(crate) fn same_text(a: &str, b: &str) -> (r: bool)
    ensures
        r == (a@ == b@),
{
    a.to_owned() == b.to_owned()
}

/// Looks for `name` among the comma-separated items of `list`, whatever their case.
pub(crate) fn is_listed(list: &str, name: &str) -> (r: bool)
    ensures
        r == lists(list@, name@),
{
    let parts: Vec<String> = split(list, ',');
    let mut i: usize = 0;
    while i < parts.len()
        invariant
            i <= parts@.len(),
            texts(parts@) == pieces(list@, ','),
            forall|j: int|
                0 <= j < i ==> lower(trimmed(#[trigger] pieces(list@, ',')[j])) != name@,
        decreases parts@.len() - i,
    {
        assert(texts(parts@)[i as int] == parts@[i as int]@);
        if same_text(to_lower(trim(parts[i].as_str()).as_str()).as_str(), name) {
            return true;
        }
        i = i + 1;
    }
    assert(texts(parts@).len() == parts@.len());
    false
}

/// Splitting takes nothing away and adds nothing: the pieces, joined again by the separator,
/// are the text, and none of them holds the separator.
pub proof fn pieces_join_back(s: Seq<char>, sep: char)
    ensures
        pieces(s, sep).len() > 0,
        joined(pieces(s, sep), sep) == s,
        forall|i: int| 0 <= i < pieces(s, sep).len() ==> !(#[trigger] pieces(s, sep)[i]).contains(
            sep,
        ),
    decreases s.len(),
{
    if s.len() > 0 {
        let init = s.drop_last();
        pieces_join_back(init, sep);
        let before = pieces(init, sep);
        let after = pieces(s, sep);
        assert(s =~= init.push(s.last()));
        if s.last() == sep {
            assert(after.drop_last() =~= before);
            assert(joined(after, sep) =~= s);
        } else {
            assert(after.drop_last() =~= before.drop_last());
            assert(joined(after, sep) =~= s);
            assert forall|i: int| 0 <= i < after.len() implies !(#[trigger] after[i]).contains(
                sep,
            ) by {
                if i < after.len() - 1 {
                    assert(after[i] == before[i]);
                } else {
                    assert(!before[i].contains(sep));
                    assert forall|j: int| 0 <= j < after[i].len() implies after[i][j] != sep by {
                        if j < before[i].len() {
                            assert(before[i].contains(before[i][j]));
                            assert(after[i][j] == before[i][j]);
                        }
                    }
                }
            }
        }
    }
}

/// The pieces of two texts with the separator between them are those of the first, then those of
/// the second.
pub proof fn pieces_of_two(a: Seq<char>, b: Seq<char>, sep: char)
    ensures
        pieces(a.push(sep) + b, sep) == pieces(a, sep) + pieces(b, sep),
    decreases b.len(),
{
    let both = a.push(sep) + b;
    pieces_join_back(b, sep);
    if b.len() == 0 {
        assert(both.drop_last() =~= a);
        assert(pieces(both, sep) =~= pieces(a, sep) + pieces(b, sep));
    } else {
        pieces_of_two(a, b.drop_last(), sep);
        pieces_join_back(b.drop_last(), sep);
        assert(both.drop_last() =~= a.push(sep) + b.drop_last());
        assert(both.last() == b.last());
        let before = pieces(b.drop_last(), sep);
        assert((pieces(a, sep) + before).drop_last() =~= pieces(a, sep) + before.drop_last());
        assert(pieces(both, sep) =~= pieces(a, sep) + pieces(b, sep));
    }
}

/// A text that does not hold the separator is its own only piece.
pub proof fn pieces_without_separator(s: Seq<char>, sep: char)
    requires
        !s.contains(sep),
    ensures
        pieces(s, sep) == seq![s],
    decreases s.len(),
{
    if s.len() > 0 {
        assert(s.contains(s.last()));
        assert forall|c: char| s.drop_last().contains(c) implies s.contains(c) by {
            let i = choose|i: int| 0 <= i < s.drop_last().len() && s.drop_last()[i] == c;
            assert(s[i] == c);
        }
        pieces_without_separator(s.drop_last(), sep);
        assert(s.drop_last().push(s.last()) =~= s);
    } else {
        assert(s =~= Seq::<char>::empty());
    }
    assert(pieces(s, sep) =~= seq![s]);
}

/// The pieces of a text hold no character that the text does not hold.
pub proof fn pieces_hold_no_more(s: Seq<char>, sep: char, c: char)
    requires
        !s.contains(c),
    ensures
        forall|i: int| 0 <= i < pieces(s, sep).len() ==> !(#[trigger] pieces(s, sep)[i]).contains(c),
    decreases s.len(),
{
    if s.len() > 0 {
        let init = s.drop_last();
        let before = pieces(init, sep);
        let after = pieces(s, sep);
        assert(s.contains(s.last()));
        assert forall|i: int| 0 <= i < init.len() implies init[i] != c by {
            assert(s.contains(s[i]));
        }
        pieces_hold_no_more(init, sep, c);
        pieces_join_back(init, sep);
        assert forall|i: int| 0 <= i < after.len() implies !(#[trigger] after[i]).contains(c) by {
            if i < after.len() - 1 {
                assert(after[i] == before[i]);
            } else if s.last() != sep {
                assert(!before[i].contains(c));
                assert forall|j: int| 0 <= j < after[i].len() implies after[i][j] != c by {
                    if j < before[i].len() {
                        assert(before[i].contains(before[i][j]));
                        assert(after[i][j] == before[i][j]);
                    }
                }
            }
        }
    }
}

/// The text of a string is there if and only if the string is, and is the string's.
pub proof fn option_text_is_the_text(s: Option<String>)
    ensures
        s is None ==> option_text(s) is None,
        s matches Some(t) ==> option_text(s) == Some(t@),
{
}

/// A text that begins and ends with no blank is what is left of it, however many spaces and tabs
/// stand around it.
pub proof fn blanks_around_are_trimmed(before: Seq<char>, text: Seq<char>, after: Seq<char>)
    requires
        forall|i: int| 0 <= i < before.len() ==> #[trigger] before[i] == ' ' || before[i] == '\t',
        forall|i: int| 0 <= i < after.len() ==> #[trigger] after[i] == ' ' || after[i] == '\t',
        text.len() > 0 ==> text[0] != ' ' && text[0] != '\t' && text.last() != ' ' && text.last()
            != '\t',
    ensures
        trimmed(before + text + after) == text,
    decreases before.len() + after.len(),
{
    let s = before + text + after;
    if before.len() > 0 {
        assert(s[0] == before[0]);
        assert(s.skip(1) =~= before.skip(1) + text + after);
        blanks_around_are_trimmed(before.skip(1), text, after);
    } else if text.len() == 0 {
        assert(s =~= after);
        if after.len() > 0 {
            assert(after.skip(1) =~= after.skip(1) + text + text);
            blanks_around_are_trimmed(after.skip(1), text, text);
            assert(s[0] == after[0]);
        }
        assert(trimmed(s) =~= text);
    } else {
        assert(s[0] == text[0]);
        assert(trimmed_start(s) == s);
        if after.len() > 0 {
            assert(s.last() == after.last());
            assert(s.drop_last() =~= before + text + after.drop_last());
            assert(s.drop_last()[0] == text[0]);
            blanks_around_are_trimmed(before, text, after.drop_last());
        } else {
            assert(s =~= text);
        }
    }
}

/// Case folding changes the ASCII capitals to the small letters at the same place in the
/// alphabet, and nothing else.
pub proof fn only_capitals_are_folded(s: Seq<char>)
    ensures
        lower(s).len() == s.len(),
        forall|i: int|
            0 <= i < s.len() && 'A' <= s[i] <= 'Z' ==> #[trigger] lower(s)[i] as int - 'a' as int
                == s[i] as int - 'A' as int,
        forall|i: int|
            0 <= i < s.len() && !('A' <= s[i] <= 'Z') ==> #[trigger] lower(s)[i] == s[i],
{
    assert forall|i: int| 0 <= i < s.len() && 'A' <= s[i] <= 'Z' implies #[trigger] lower(
        s,
    )[i] as int - 'a' as int == s[i] as int - 'A' as int by {
        assert(lower(s)[i] == lower_char(s[i]));
    }
}

/// Bytes are read as text one for one, each as the character with its number.
pub proof fn bytes_are_read_one_by_one(bytes: Seq<u8>)
    ensures
        byte_text(bytes).len() == bytes.len(),
        forall|i: int|
            0 <= i < bytes.len() ==> #[trigger] byte_text(bytes)[i] as int == bytes[i] as int,
{
}

/// Every item of a list counts, wherever it stands: a list of two parts lists what either part
/// lists, and one item, with blanks around it, is that item in any case.
pub proof fn every_item_is_listed(a: Seq<char>, b: Seq<char>, name: Seq<char>)
    ensures
        lists(a.push(',') + b, name) <==> lists(a, name) || lists(b, name),
        !a.contains(',') ==> (lists(a, name) <==> lower(trimmed(a)) == name),
{
    let both = pieces(a.push(',') + b, ',');
    pieces_of_two(a, b, ',');
    if lists(a, name) {
        let i = choose|i: int|
            0 <= i < pieces(a, ',').len() && lower(trimmed(#[trigger] pieces(a, ',')[i])) == name;
        assert(lower(trimmed(both[i])) == name);
    }
    if lists(b, name) {
        let i = choose|i: int|
            0 <= i < pieces(b, ',').len() && lower(trimmed(#[trigger] pieces(b, ',')[i])) == name;
        assert(both[pieces(a, ',').len() + i] == pieces(b, ',')[i]);
    }
    if lists(a.push(',') + b, name) {
        let i = choose|i: int| 0 <= i < both.len() && lower(trimmed(#[trigger] both[i])) == name;
        if i < pieces(a, ',').len() {
            assert(lower(trimmed(pieces(a, ',')[i])) == name);
        } else {
            assert(lower(trimmed(pieces(b, ',')[i - pieces(a, ',').len()])) == name);
        }
    }
    if !a.contains(',') {
        pieces_without_separator(a, ',');
        assert(pieces(a, ',')[0] == a);
    }
}

} // verus!
