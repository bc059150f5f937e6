//! The headers of a call, and what the library needs of `http` for them.

use http::{HeaderMap, HeaderName, HeaderValue};
use vstd::prelude::*;
use vstd::utf8::encode_utf8;

verus! {

/// `http::HeaderValue`, the value of a header.
#[verifier::external_type_specification]
#[verifier::external_body]
pub struct ExHeaderValue(http::HeaderValue);

/// `http::HeaderName`, the name of a header.
#[verifier::external_type_specification]
#[verifier::external_body]
pub struct ExHeaderName(http::HeaderName);

/// `http::HeaderMap`, the headers of a call.
#[verifier::external_type_specification]
#[verifier::external_body]
#[verifier::reject_recursive_types(T)]
pub struct ExHeaderMap<T>(http::HeaderMap<T>);

/// The bytes of a header value.
pub uninterp spec fn value_bytes(value: http::HeaderValue) -> Seq<u8>;

/// The text of a header name, in lower case.
pub uninterp spec fn name_text(name: http::HeaderName) -> Seq<char>;

/// Headers: each name in lower case, with the bytes of its values in order.
pub type Headers = Map<Seq<char>, Seq<Seq<u8>>>;

/// What an `http::HeaderMap` holds.
pub uninterp spec fn headers_of(map: http::HeaderMap) -> Headers;

/// The characters that the text of a header value may hold.
pub open spec fn is_header_char(c: char) -> bool {
    c == '\t' || (' ' <= c && c != '\u{7f}')
}

/// The texts that a header value can be made of.
pub open spec fn is_header_text(text: Seq<char>) -> bool {
    forall|i: int| 0 <= i < text.len() ==> is_header_char(#[trigger] text[i])
}

/// The printable characters of ASCII, and the tab.
pub open spec fn is_visible_text(text: Seq<char>) -> bool {
    forall|i: int|
        0 <= i < text.len() ==> (#[trigger] text[i] == '\t' || ' ' <= text[i] <= '~')
}

/// Names of headers that are written in small letters, digits and hyphens.
pub open spec fn is_plain_name(name: Seq<char>) -> bool {
    &&& 0 < name.len() <= 64
    &&& forall|i: int|
        0 <= i < name.len() ==> ('a' <= #[trigger] name[i] <= 'z' || '0' <= name[i] <= '9'
            || name[i] == '-')
}

/// Headers under no more than `n` names.
pub open spec fn at_most(headers: Headers, n: int) -> bool {
    headers.dom().finite() && headers.len() <= n
}

/// There is a header.
pub open spec fn has_headers(headers: Headers) -> bool {
    exists|name: Seq<char>| headers.contains_key(name)
}

/// The number of names up to which a header map surely takes another one,
/// however the names hash: a fifth of the largest table.
pub const ROOMY: usize = 6553;

/// Two sets of headers that a header map surely takes together.
pub open spec fn fit_together(left: Headers, right: Headers) -> bool {
    &&& left.dom().finite()
    &&& right.dom().finite()
    &&& left.len() + right.len() <= ROOMY
}

/// The bytes of several header values.
pub open spec fn values_bytes(values: Seq<http::HeaderValue>) -> Seq<Seq<u8>> {
    values.map_values(|value: http::HeaderValue| value_bytes(value))
}

/// The texts of several header names.
pub open spec fn names_text(names: Seq<http::HeaderName>) -> Seq<Seq<char>> {
    names.map_values(|name: http::HeaderName| name_text(name))
}

/// The values under a name.
pub open spec fn values_under(headers: Headers, name: Seq<char>) -> Seq<Seq<u8>> {
    if headers.contains_key(name) {
        headers[name]
    } else {
        Seq::empty()
    }
}

/// `http::HeaderMap::new`: no headers.
#[verifier::external_body]
pub(crate) fn no_headers() -> (headers: HeaderMap)
    ensures
        headers_of(headers) == Headers::empty(),
{
    HeaderMap::new()
}

/// `http::HeaderMap::keys_len`: the number of names.
#[verifier::external_body]
pub(crate) fn count_names(map: &HeaderMap) -> (n: usize)
    ensures
        at_most(headers_of(*map), n as int),
        n == headers_of(*map).len(),
{
    map.keys_len()
}

/// `http::HeaderValue::from_str`: the bytes of the text, where each of its
/// characters may stand in a header value, and nothing otherwise.
#[verifier::external_body]
pub(crate) fn header_value(text: &str) -> (value: Option<HeaderValue>)
    ensures
        match value {
            Some(value) => is_header_text(text@) && value_bytes(value) == encode_utf8(text@),
            None => !is_header_text(text@),
        },
{
    HeaderValue::from_str(text).ok()
}

/// `http::HeaderValue::from_static`: the bytes of a text of printable ASCII.
#[verifier::external_body]
pub(crate) fn static_header_value(text: &'static str) -> (value: HeaderValue)
    requires
        is_visible_text(text@),
    ensures
        value_bytes(value) == encode_utf8(text@),
{
    HeaderValue::from_static(text)
}

/// `http::HeaderName::from_static`: the name of this text.
#[verifier::external_body]
pub(crate) fn static_header_name(text: &'static str) -> (name: HeaderName)
    requires
        is_plain_name(text@),
    ensures
        name_text(name) == text@,
{
    HeaderName::from_static(text)
}

/// `http::HeaderMap::keys`: the names, each of them once.
#[verifier::external_body]
pub(crate) fn header_names(map: &HeaderMap) -> (names: Vec<HeaderName>)
    ensures
        names_text(names@).no_duplicates(),
        names_text(names@).to_set() == headers_of(*map).dom(),
{
    map.keys().cloned().collect()
}

/// `http::HeaderMap::get_all`: the values under a name, in order. There is at
/// least one under each name of the map.
#[verifier::external_body]
pub(crate) fn header_values(map: &HeaderMap, name: &HeaderName) -> (values: Vec<HeaderValue>)
    ensures
        values_bytes(values@) == values_under(headers_of(*map), name_text(*name)),
        headers_of(*map).contains_key(name_text(*name)) ==> values@.len() > 0,
{
    map.get_all(name).iter().cloned().collect()
}

/// `http::HeaderMap::try_insert`: the value takes the place of all values that
/// stood under the name, or the map is full and its headers stay as they are.
/// Beyond the number of names given here, whether it is full depends on how
/// they hash.
#[verifier::external_body]
pub(crate) fn set_header(map: &mut HeaderMap, name: &HeaderName, value: HeaderValue) -> (set: bool)
    ensures
        set ==> headers_of(*final(map)) == headers_of(*old(map)).insert(
            name_text(*name),
            seq![value_bytes(value)],
        ),
        !set ==> headers_of(*final(map)) == headers_of(*old(map)) && !at_most(
            headers_of(*old(map)),
            ROOMY as int,
        ),
{
    map.try_insert(name, value).is_ok()
}

/// `http::HeaderMap::try_append`: the value goes behind those that stood under
/// the name, or the map is full and its headers stay as they are. Beyond the
/// number of names given here, whether it is full depends on how they hash.
#[verifier::external_body]
pub(crate) fn add_header(map: &mut HeaderMap, name: &HeaderName, value: HeaderValue) -> (added:
    bool)
    ensures
        added ==> headers_of(*final(map)) == headers_of(*old(map)).insert(
            name_text(*name),
            values_under(headers_of(*old(map)), name_text(*name)).push(value_bytes(value)),
        ),
        !added ==> headers_of(*final(map)) == headers_of(*old(map)) && !at_most(
            headers_of(*old(map)),
            ROOMY as int,
        ),
{
    map.try_append(name, value).is_ok()
}

/// `http::HeaderMap::extend` with another map: the values of the other map take
/// the place of those that stood under the same names. It panics where the map
/// is full, which it cannot be with so few names.
#[verifier::external_body]
pub(crate) fn extend_headers(map: &mut HeaderMap, more: HeaderMap)
    requires
        fit_together(headers_of(*old(map)), headers_of(more)),
    ensures
        headers_of(*final(map)) == headers_of(*old(map)).union_prefer_right(headers_of(more)),
{
    map.extend(more);
}

/// Puts all values of a header in place of those that stood under its name. The
/// result says whether the map took them.
fn replace_header(map: &mut HeaderMap, name: &HeaderName, values: Vec<HeaderValue>) -> (taken: bool)
    requires
        values@.len() > 0,
    ensures
        taken ==> headers_of(*final(map)) == headers_of(*old(map)).insert(
            name_text(*name),
            values_bytes(values@),
        ),
{
    let ghost before = headers_of(*map);
    let ghost key = name_text(*name);
    let ghost all = values_bytes(values@);
    let mut first: bool = true;
    for value in iter: values
        invariant
            key == name_text(*name),
            iter.seq() == values@,
            all == values_bytes(values@),
            first == (iter.index() == 0),
            first ==> headers_of(*map) == before,
            !first ==> headers_of(*map) == before.insert(key, all.take(iter.index())),
    {
        let ghost n = iter.index();
        assert(all[n] == value_bytes(value));
        let taken: bool = if first {
            set_header(map, name, value)
        } else {
            add_header(map, name, value)
        };
        if !taken {
            return false;
        }
        proof {
            assert(all.take(n + 1) =~= all.take(n).push(all[n]));
            assert(all.take(0) =~= Seq::empty());
            assert(headers_of(*map) =~= before.insert(key, all.take(n + 1)));
        }
        first = false;
    }
    assert(all.take(all.len() as int) =~= all);
    true
}

/// Headers over others, name by name, as far as a header map takes them.
fn overlaid(map: HeaderMap, more: &HeaderMap) -> (headers: Option<HeaderMap>)
    ensures
        match headers {
            Some(headers) => headers_of(headers) == headers_of(map).union_prefer_right(
                headers_of(*more),
            ),
            None => has_headers(headers_of(*more)),
        },
{
    let ghost left = headers_of(map);
    let ghost right = headers_of(*more);
    let mut headers: HeaderMap = map;
    let names: Vec<HeaderName> = header_names(more);
    let ghost keys = names_text(names@);
    assert(keys.take(0).to_set() =~= Set::empty());
    assert(left =~= left.union_prefer_right(right.restrict(keys.take(0).to_set())));
    for i in 0..names.len()
        invariant
            left == headers_of(map),
            right == headers_of(*more),
            keys == names_text(names@),
            keys.to_set() == right.dom(),
            headers_of(headers) == left.union_prefer_right(
                right.restrict(keys.take(i as int).to_set()),
            ),
    {
        let name: &HeaderName = &names[i];
        let ghost key = name_text(*name);
        assert(keys[i as int] == key);
        assert(keys.to_set().contains(key));
        assert(right.contains_key(key));
        let values: Vec<HeaderValue> = header_values(more, name);
        if !replace_header(&mut headers, name, values) {
            return None;
        }
        proof {
            let earlier = keys.take(i as int);
            let later = keys.take(i + 1);
            assert(later =~= earlier.push(key));
            let before = earlier.to_set();
            let after = later.to_set();
            assert forall|k: Seq<char>| after.contains(k) <==> before.contains(k) || k == key by {
                if before.contains(k) {
                    let j = choose|j: int| 0 <= j < earlier.len() && earlier[j] == k;
                    assert(later[j] == k);
                }
                if after.contains(k) && k != key {
                    let j = choose|j: int| 0 <= j < later.len() && later[j] == k;
                    assert(earlier[j] == k);
                }
                assert(later[i as int] == key);
            }
            assert(left.union_prefer_right(right.restrict(before)).insert(key, right[key])
                =~= left.union_prefer_right(right.restrict(after)));
        }
    }
    proof {
        assert(keys.take(keys.len() as int) =~= keys);
        assert(right.restrict(right.dom()) =~= right);
    }
    Some(headers)
}

/// Headers over others, unless there are more than a header map takes.
pub(crate) fn extended(map: HeaderMap, more: HeaderMap) -> (headers: Option<HeaderMap>)
    ensures
        match headers {
            Some(headers) => headers_of(headers) == headers_of(map).union_prefer_right(
                headers_of(more),
            ),
            None => !fit_together(headers_of(map), headers_of(more)) && has_headers(
                headers_of(more),
            ),
        },
{
    let few: usize = count_names(&map);
    let added: usize = count_names(&more);
    if few <= ROOMY && added <= ROOMY - few {
        let mut headers: HeaderMap = map;
        extend_headers(&mut headers, more);
        Some(headers)
    } else {
        overlaid(map, &more)
    }
}

/// The headers with a text under a name, where the text can be a header value.
pub open spec fn with_header(headers: Headers, name: Seq<char>, text: Seq<char>) -> Headers {
    if is_header_text(text) {
        headers.insert(name, seq![encode_utf8(text)])
    } else {
        headers
    }
}

/// Sets a header, unless the text cannot be a header value. The result is false
/// where the map is full.
pub(crate) fn insert_header(map: &mut HeaderMap, name: &'static str, text: &str) -> (room: bool)
    requires
        is_plain_name(name@),
    ensures
        room ==> headers_of(*final(map)) == with_header(headers_of(*old(map)), name@, text@),
        !room ==> headers_of(*final(map)) == headers_of(*old(map)) && is_header_text(text@)
            && !at_most(headers_of(*old(map)), ROOMY as int),
{
    match header_value(text) {
        Some(value) => set_header(map, &static_header_name(name), value),
        None => true,
    }
}

/// Two sets of headers together have no more names than the two have.
pub(crate) proof fn lemma_union_at_most(left: Headers, right: Headers, n: int, m: int)
    requires
        at_most(left, n),
        at_most(right, m),
    ensures
        at_most(left.union_prefer_right(right), n + m),
{
    let both = left.union_prefer_right(right);
    assert(both.dom() =~= left.dom().union(right.dom()));
    vstd::set_lib::lemma_len_union(left.dom(), right.dom());
}

} // verus!
