//! Header maps: the names and values that rules constrain and requests carry.

use tonic::codegen::http::{HeaderMap, HeaderName, HeaderValue};
use vstd::prelude::*;
use vstd::string::StringSliceAdditionalSpecFns;

verus! {

/// One header as a map yields it: its name and the bytes of its value.
pub type Entry = (Seq<char>, Seq<u8>);

/// The largest number of headers that a map may hold when one more is inserted.
pub const MAX_HEADERS: usize = 6553;

/// The longest header name, in bytes.
pub const MAX_NAME_LEN: usize = 65535;

/// Whether `c` may stand in a header name: a letter, a digit, or one of
/// ``! # $ % & ' * + - . ^ _ ` | ~``.
pub open spec fn is_token_char(c: char) -> bool {
    ||| 'a' <= c <= 'z'
    ||| 'A' <= c <= 'Z'
    ||| '0' <= c <= '9'
    ||| c == '!'
    ||| c == '#'
    ||| c == '$'
    ||| c == '%'
    ||| c == '&'
    ||| c == '\''
    ||| c == '*'
    ||| c == '+'
    ||| c == '-'
    ||| c == '.'
    ||| c == '^'
    ||| c == '_'
    ||| c == '`'
    ||| c == '|'
    ||| c == '~'
}

/// Whether `name` is a header name: between one and `MAX_NAME_LEN` token characters.
pub open spec fn is_header_name(name: Seq<char>) -> bool {
    &&& 1 <= name.len() <= MAX_NAME_LEN
    &&& forall|i: int| 0 <= i < name.len() ==> is_token_char(#[trigger] name[i])
}

/// An upper-case ASCII letter becomes its lower-case form; every other character stays.
pub open spec fn lower_char(c: char) -> char {
    if 'A' <= c <= 'Z' {
        ((c as u8) + 32) as char
    } else {
        c
    }
}

/// The name under which a map stores and finds `name`: its characters in lower case.
pub open spec fn lowered(name: Seq<char>) -> Seq<char> {
    Seq::new(name.len(), |i: int| lower_char(name[i]))
}

/// Whether `name` is a header name as a map stores it: one without upper-case letters.
pub open spec fn is_stored_name(name: Seq<char>) -> bool {
    is_header_name(name) && lowered(name) == name
}

/// Whether `b` may stand in a header value: a tab, or any byte from 32 on but 127.
pub open spec fn is_value_byte(b: u8) -> bool {
    b >= 32 && b != 127 || b == 9
}

/// Whether `bytes` are a header value.
pub open spec fn is_header_value(bytes: Seq<u8>) -> bool {
    forall|i: int| 0 <= i < bytes.len() ==> is_value_byte(#[trigger] bytes[i])
}

/// The value of the first header called `name`, if there is one.
pub open spec fn first_value(entries: Seq<Entry>, name: Seq<char>) -> Option<Seq<u8>>
    decreases entries.len(),
{
    if entries.len() == 0 {
        None
    } else if entries[0].0 == name {
        Some(entries[0].1)
    } else {
        first_value(entries.drop_first(), name)
    }
}

/// The headers of `entries` that are not called `name`, in their order.
pub open spec fn without_name(entries: Seq<Entry>, name: Seq<char>) -> Seq<Entry>
    decreases entries.len(),
{
    if entries.len() == 0 {
        entries
    } else if entries[0].0 == name {
        without_name(entries.drop_first(), name)
    } else {
        seq![entries[0]] + without_name(entries.drop_first(), name)
    }
}

/// `entries` after `name` was set to `value`: the first header of that name takes
/// the value where it stands and the others of that name leave; where there
/// is none, the header joins at the end.
pub open spec fn inserted(entries: Seq<Entry>, name: Seq<char>, value: Seq<u8>) -> Seq<Entry>
    decreases entries.len(),
{
    if entries.len() == 0 {
        seq![(name, value)]
    } else if entries[0].0 == name {
        seq![(name, value)] + without_name(entries.drop_first(), name)
    } else {
        seq![entries[0]] + inserted(entries.drop_first(), name, value)
    }
}

/// Whether every header of `entries` has a name as a map stores it.
pub open spec fn all_stored_names(entries: Seq<Entry>) -> bool {
    forall|i: int| 0 <= i < entries.len() ==> is_stored_name(#[trigger] entries[i].0)
}

/// `http::HeaderMap`, of which the contracts know what `header_entries` says.
#[verifier::external_type_specification]
#[verifier::external_body]
#[verifier::reject_recursive_types(T)]
pub struct ExHeaderMap<T>(HeaderMap<T>);

/// `http::HeaderValue`, the value of a header in a map.
#[verifier::external_type_specification]
#[verifier::external_body]
pub struct ExHeaderValue(HeaderValue);

/// The headers of a map, in the order in which `HeaderMap::iter` yields them.
pub uninterp spec fn header_entries(m: HeaderMap<HeaderValue>) -> Seq<Entry>;

/// `HeaderMap::new`: a map that holds no header.
#[verifier::external_body]
pub(crate) fn new_headers() -> (m: HeaderMap<HeaderValue>)
    ensures
        header_entries(m) == Seq::<Entry>::empty(),
{
    HeaderMap::new()
}

/// `HeaderMap::insert`, with the name made by `HeaderName::from_bytes` and the
/// value by `HeaderValue::from_str`. The name is stored in lower case; a header
/// of that name that the map already holds keeps its place and takes the new
/// value, and further values of that name are dropped. The bound on the map's
/// size keeps the map's table from having to grow past its limit.
#[verifier::external_body]
pub(crate) fn insert_header(m: &mut HeaderMap<HeaderValue>, name: &str, value: &str)
    requires
        is_header_name(name@),
        is_header_value(value.spec_bytes()),
        header_entries(*old(m)).len() <= MAX_HEADERS,
    ensures
        header_entries(*final(m)) == inserted(
            header_entries(*old(m)),
            lowered(name@),
            value.spec_bytes(),
        ),
{
    let key = HeaderName::from_bytes(name.as_bytes()).unwrap();
    let val = HeaderValue::from_str(value).unwrap();
    m.insert(key, val);
}

/// `HeaderMap::get`: the first value stored under `name`, looked up without
/// regard to the case of its letters.
#[verifier::external_body]
pub(crate) fn first_header_value(m: &HeaderMap<HeaderValue>, name: &str) -> (value: Option<
    Vec<u8>,
>)
    requires
        is_header_name(name@),
    ensures
        value.deep_view() == first_value(header_entries(*m), lowered(name@)),
{
    m.get(name).map(|v| v.as_bytes().to_vec())
}

/// `HeaderMap::iter`: every header of the map, each name as text and each value as bytes.
#[verifier::external_body]
pub(crate) fn header_pairs(m: &HeaderMap<HeaderValue>) -> (pairs: Vec<(String, Vec<u8>)>)
    ensures
        pairs.deep_view() == header_entries(*m),
{
    m.iter().map(|(k, v)| (k.as_str().to_string(), v.as_bytes().to_vec())).collect()
}

/// `HeaderMap::clone`: a map with the same headers.
#[verifier::external_body]
pub(crate) fn clone_headers(m: &HeaderMap<HeaderValue>) -> (copy: HeaderMap<HeaderValue>)
    ensures
        header_entries(copy) == header_entries(*m),
{
    m.clone()
}

/// Whether `c` may stand in a header name.
pub fn is_token(c: char) -> (ok: bool)
    ensures
        ok == is_token_char(c),
{
    ('a' <= c && c <= 'z') || ('A' <= c && c <= 'Z') || ('0' <= c && c <= '9') || c == '!' || c
        == '#' || c == '$' || c == '%' || c == '&' || c == '\'' || c == '*' || c == '+' || c == '-'
        || c == '.' || c == '^' || c == '_' || c == '`' || c == '|' || c == '~'
}

/// Whether `name` can name a header.
pub fn is_valid_header_name(name: &str) -> (ok: bool)
    ensures
        ok == is_header_name(name@),
{
    let mut count: usize = 0;
    for c in it: name.chars()
        invariant
            it.seq() == name@,
            count == it.index(),
            count <= MAX_NAME_LEN,
            forall|i: int| 0 <= i < it.index() ==> is_token_char(#[trigger] name@[i]),
    {
        if count == MAX_NAME_LEN || !is_token(c) {
            return false;
        }
        count += 1;
    }
    count >= 1
}

/// Whether `value` can be the value of a header.
pub fn is_valid_header_value(value: &str) -> (ok: bool)
    ensures
        ok == is_header_value(value.spec_bytes()),
{
    let bytes = value.as_bytes();
    let mut i: usize = 0;
    while i < bytes.len()
        invariant
            i <= bytes.len(),
            bytes@ == value.spec_bytes(),
            forall|j: int| 0 <= j < i ==> is_value_byte(#[trigger] bytes@[j]),
        decreases bytes.len() - i,
    {
        let b: u8 = bytes[i];
        if !(b >= 32 && b != 127 || b == 9) {
            return false;
        }
        i += 1;
    }
    true
}

/// The number of headers that `m` holds.
pub fn header_count(m: &HeaderMap<HeaderValue>) -> (n: usize)
    ensures
        n == header_entries(*m).len(),
{
    let pairs = header_pairs(m);
    assert(pairs.deep_view().len() == pairs.len());
    pairs.len()
}

/// A header name in lower case is a name as a map stores it.
pub proof fn lemma_lowered_is_stored(name: Seq<char>)
    requires
        is_header_name(name),
    ensures
        is_stored_name(lowered(name)),
{
    let low = lowered(name);
    assert forall|i: int| 0 <= i < low.len() implies is_token_char(#[trigger] low[i]) by {
        assert(is_token_char(name[i]));
    }
    assert(lowered(low) =~= low);
}

/// Setting a header leaves a map whose names are all stored names as such.
pub proof fn lemma_inserted_keeps_stored_names(
    entries: Seq<Entry>,
    name: Seq<char>,
    value: Seq<u8>,
)
    requires
        all_stored_names(entries),
        is_stored_name(name),
    ensures
        all_stored_names(inserted(entries, name, value)),
{
    let after = inserted(entries, name, value);
    assert forall|i: int| 0 <= i < after.len() implies is_stored_name(#[trigger] after[i].0) by {
        lemma_inserted_members(entries, name, value, after[i]);
        assert(after.contains(after[i]));
        if after[i] != (name, value) {
            let j = choose|j: int| 0 <= j < entries.len() && entries[j] == after[i];
            assert(is_stored_name(entries[j].0));
        }
    }
}

/// After a header was set, a lookup of its name finds the new value, and a
/// lookup of any other name finds what it found before.
pub proof fn lemma_inserted_lookup(
    entries: Seq<Entry>,
    name: Seq<char>,
    value: Seq<u8>,
    other: Seq<char>,
)
    ensures
        first_value(inserted(entries, name, value), name) == Some(value),
        other != name ==> first_value(inserted(entries, name, value), other) == first_value(
            entries,
            other,
        ),
    decreases entries.len(),
{
    let after = inserted(entries, name, value);
    if entries.len() > 0 {
        let rest = entries.drop_first();
        if entries[0].0 == name {
            assert(after[0] == (name, value));
            assert(after.drop_first() =~= without_name(rest, name));
            lemma_without_name_lookup(rest, name, other);
        } else {
            lemma_inserted_lookup(rest, name, value, other);
            assert(after[0] == entries[0]);
            assert(after.drop_first() =~= inserted(rest, name, value));
        }
    } else {
        assert(after[0] == (name, value));
        assert(after.drop_first() =~= entries);
    }
}

/// Taking one name out changes no lookup of another.
proof fn lemma_without_name_lookup(entries: Seq<Entry>, name: Seq<char>, other: Seq<char>)
    ensures
        other != name ==> first_value(without_name(entries, name), other) == first_value(
            entries,
            other,
        ),
    decreases entries.len(),
{
    if entries.len() > 0 {
        let rest = entries.drop_first();
        lemma_without_name_lookup(rest, name, other);
        if entries[0].0 != name {
            assert(without_name(entries, name)[0] == entries[0]);
            assert(without_name(entries, name).drop_first() =~= without_name(rest, name));
        }
    }
}

/// What is left when a name is taken out: the headers of other names.
proof fn lemma_without_name_members(entries: Seq<Entry>, name: Seq<char>, x: Entry)
    ensures
        without_name(entries, name).contains(x) <==> entries.contains(x) && x.0 != name,
    decreases entries.len(),
{
    let left = without_name(entries, name);
    if entries.len() > 0 {
        let rest = entries.drop_first();
        lemma_without_name_members(rest, name, x);
        if left.contains(x) {
            let i = choose|i: int| 0 <= i < left.len() && left[i] == x;
            if entries[0].0 == name {
                let j = choose|j: int| 0 <= j < rest.len() && rest[j] == x;
                assert(entries[j + 1] == x);
            } else if i == 0 {
                assert(entries[0] == x);
            } else {
                assert(without_name(rest, name)[i - 1] == x);
                let j = choose|j: int| 0 <= j < rest.len() && rest[j] == x;
                assert(entries[j + 1] == x);
            }
        }
        if entries.contains(x) && x.0 != name {
            let j = choose|j: int| 0 <= j < entries.len() && entries[j] == x;
            if j == 0 {
                assert(left[0] == x);
            } else {
                assert(rest[j - 1] == x);
                let i = choose|i: int|
                    0 <= i < without_name(rest, name).len() && without_name(rest, name)[i] == x;
                if entries[0].0 == name {
                    assert(left[i] == x);
                } else {
                    assert(left[i + 1] == x);
                }
            }
        }
    }
}

/// After a header was set, the map holds that header and what it held of
/// other names, and nothing else.
pub proof fn lemma_inserted_members(
    entries: Seq<Entry>,
    name: Seq<char>,
    value: Seq<u8>,
    x: Entry,
)
    ensures
        inserted(entries, name, value).contains(x) <==> x == (name, value) || (entries.contains(x)
            && x.0 != name),
    decreases entries.len(),
{
    let after = inserted(entries, name, value);
    assert(after[0] == (name, value) || (entries.len() > 0 && after[0] == entries[0]));
    if entries.len() > 0 {
        let rest = entries.drop_first();
        let tail = if entries[0].0 == name {
            without_name(rest, name)
        } else {
            inserted(rest, name, value)
        };
        if entries[0].0 == name {
            lemma_without_name_members(rest, name, x);
        } else {
            lemma_inserted_members(rest, name, value, x);
        }
        assert(after.drop_first() =~= tail);
        if after.contains(x) {
            let i = choose|i: int| 0 <= i < after.len() && after[i] == x;
            if i > 0 {
                assert(tail[i - 1] == x);
                if rest.contains(x) {
                    let j = choose|j: int| 0 <= j < rest.len() && rest[j] == x;
                    assert(entries[j + 1] == x);
                }
            } else if entries[0].0 != name {
                assert(entries[0] == x);
            }
        }
        if x == (name, value) {
            if entries[0].0 == name {
                assert(after[0] == x);
            } else {
                let i = choose|i: int| 0 <= i < tail.len() && tail[i] == x;
                assert(after[i + 1] == x);
            }
        }
        if entries.contains(x) && x.0 != name {
            let j = choose|j: int| 0 <= j < entries.len() && entries[j] == x;
            if j == 0 {
                assert(after[0] == x);
            } else {
                assert(rest[j - 1] == x);
                let i = choose|i: int| 0 <= i < tail.len() && tail[i] == x;
                assert(after[i + 1] == x);
            }
        }
    }
}

} // verus!
