//! HTTP header maps.
//!
//! A map is a `reqwest::header::HeaderMap`. Contracts speak of it through
//! [`header_entries`], its names and values in order.

use crate::text::chars_of;
use reqwest::header::HeaderMap;
use vstd::prelude::*;
use vstd::utf8::encode_utf8;

verus! {

/// `reqwest::header::HeaderMap`, a map from header names to values.
#[verifier::external_type_specification]
#[verifier::external_body]
#[verifier::reject_recursive_types(T)]
pub struct ExHeaderMap<T>(HeaderMap<T>);

/// `reqwest::header::HeaderValue`, the value of a header.
#[verifier::external_type_specification]
#[verifier::external_body]
pub struct ExHeaderValue(reqwest::header::HeaderValue);

/// What a header map holds: its lower-case names, each with the bytes of its
/// value, in the order in which it is walked.
pub uninterp spec fn header_entries(h: HeaderMap) -> Seq<(Seq<char>, Seq<u8>)>;

/// Whether `name` can be a header name: 1 to 64 letters, digits and hyphens.
pub open spec fn is_header_name(name: Seq<char>) -> bool {
    &&& 0 < name.len() <= 64
    &&& forall|i: int|
        0 <= i < name.len() ==> {
            let c = #[trigger] name[i];
            ('a' <= c && c <= 'z') || ('A' <= c && c <= 'Z') || ('0' <= c && c <= '9') || c == '-'
        }
}

/// Whether `value` can be a header value: no control character but the tab.
pub open spec fn is_header_value(value: Seq<char>) -> bool {
    forall|i: int|
        0 <= i < value.len() ==> {
            let c = #[trigger] value[i] as u32;
            c == 9 || (c >= 32 && c != 127)
        }
}

/// `c`, or its lower case where it is an ASCII letter.
pub open spec fn lower_ascii(c: char) -> char {
    if 'A' <= c && c <= 'Z' {
        (c as u32 + 32) as char
    } else {
        c
    }
}

/// A header name in the form that a header map keeps.
pub open spec fn header_key(name: Seq<char>) -> Seq<char> {
    name.map_values(|c: char| lower_ascii(c))
}

/// The index of the entry for `key`, or the number of entries.
pub open spec fn entry_index(entries: Seq<(Seq<char>, Seq<u8>)>, key: Seq<char>) -> int
    decreases entries.len(),
{
    if entries.len() == 0 || entries[0].0 == key {
        0
    } else {
        1 + entry_index(entries.drop_first(), key)
    }
}

/// Whether no name has two entries.
pub open spec fn distinct_names(entries: Seq<(Seq<char>, Seq<u8>)>) -> bool {
    forall|i: int, j: int|
        0 <= i < j < entries.len() ==> (#[trigger] entries[i]).0 != (#[trigger] entries[j]).0
}

/// The entries with the value for `name` set: in place where there is one, at
/// the end otherwise.
pub open spec fn entries_insert(
    entries: Seq<(Seq<char>, Seq<u8>)>,
    name: Seq<char>,
    value: Seq<char>,
) -> Seq<(Seq<char>, Seq<u8>)> {
    let key = header_key(name);
    let entry = (key, encode_utf8(value));
    let i = entry_index(entries, key);
    if i < entries.len() {
        entries.update(i, entry)
    } else {
        entries.push(entry)
    }
}

/// The entries of a map into which names and values were inserted in order.
pub open spec fn inserted(pairs: Seq<(Seq<char>, Seq<char>)>) -> Seq<(Seq<char>, Seq<u8>)>
    decreases pairs.len(),
{
    if pairs.len() == 0 {
        Seq::empty()
    } else {
        entries_insert(inserted(pairs.drop_last()), pairs.last().0, pairs.last().1)
    }
}

/// The entries for names and values, one for each.
pub open spec fn entries_of(pairs: Seq<(Seq<char>, Seq<char>)>) -> Seq<(Seq<char>, Seq<u8>)> {
    pairs.map_values(|p: (Seq<char>, Seq<char>)| (header_key(p.0), encode_utf8(p.1)))
}

/// Whether no two of the names are kept in the same form.
pub open spec fn distinct_keys(pairs: Seq<(Seq<char>, Seq<char>)>) -> bool {
    forall|i: int, j: int|
        0 <= i < j < pairs.len() ==> header_key((#[trigger] pairs[i]).0) != header_key(
            (#[trigger] pairs[j]).0,
        )
}

proof fn lemma_entry_index(entries: Seq<(Seq<char>, Seq<u8>)>, key: Seq<char>)
    ensures
        0 <= entry_index(entries, key) <= entries.len(),
        entry_index(entries, key) < entries.len() ==> entries[entry_index(entries, key)].0 == key,
        forall|i: int| 0 <= i < entry_index(entries, key) ==> (#[trigger] entries[i]).0 != key,
    decreases entries.len(),
{
    if entries.len() > 0 && entries[0].0 != key {
        let rest = entries.drop_first();
        lemma_entry_index(rest, key);
        assert forall|i: int| 0 <= i < entry_index(entries, key) implies (
        #[trigger] entries[i]).0 != key by {
            if i > 0 {
                assert(entries[i] == rest[i - 1]);
            }
        }
    }
}

/// Names that are kept in different forms have their entries in the order in
/// which they were inserted.
pub proof fn lemma_inserted_distinct(pairs: Seq<(Seq<char>, Seq<char>)>)
    requires
        distinct_keys(pairs),
    ensures
        inserted(pairs) == entries_of(pairs),
        distinct_names(inserted(pairs)),
    decreases pairs.len(),
{
    if pairs.len() > 0 {
        let front = pairs.drop_last();
        let n = front.len() as int;
        assert forall|i: int, j: int| 0 <= i < j < front.len() implies header_key(
            (#[trigger] front[i]).0,
        ) != header_key((#[trigger] front[j]).0) by {
            assert(front[i] == pairs[i] && front[j] == pairs[j]);
        }
        lemma_inserted_distinct(front);
        let key = header_key(pairs.last().0);
        let entries = inserted(front);
        lemma_entry_index(entries, key);
        let k = entry_index(entries, key);
        if k < n {
            assert(entries[k].0 == header_key(pairs[k].0));
            assert(pairs[n] == pairs.last());
        }
        assert(inserted(pairs) == entries_of(pairs));
        assert forall|i: int, j: int| 0 <= i < j < inserted(pairs).len() implies (
        #[trigger] inserted(pairs)[i]).0 != (#[trigger] inserted(pairs)[j]).0 by {
            assert(inserted(pairs)[i].0 == header_key(pairs[i].0));
            assert(inserted(pairs)[j].0 == header_key(pairs[j].0));
        }
    } else {
        assert(inserted(pairs) == entries_of(pairs));
    }
}

/// `HeaderMap::new` makes an empty map.
#[verifier::external_body]
pub(crate) fn new_headers() -> (r: HeaderMap)
    ensures
        header_entries(r) == Seq::<(Seq<char>, Seq<u8>)>::empty(),
{
    HeaderMap::new()
}

/// `HeaderMap::insert` sets the value for a name, which is kept in lower case.
/// An entry that is there keeps its place, a new one comes last. The bound on
/// the number of entries keeps the map below the size at which it panics.
#[verifier::external_body]
pub(crate) fn insert_header(h: &mut HeaderMap, name: &'static str, value: &str)
    requires
        is_header_name(name@),
        is_header_value(value@),
        header_entries(*old(h)).len() < 1000,
        distinct_names(header_entries(*old(h))),
    ensures
        header_entries(*final(h)) == entries_insert(header_entries(*old(h)), name@, value@),
{
    h.insert(name, value.parse().unwrap());
}

/// Whether `value` can be a header value.
pub fn can_be_header_value(value: &str) -> (r: bool)
    ensures
        r == is_header_value(value@),
{
    let v = chars_of(value);
    let mut i: usize = 0;
    while i < v.len()
        invariant
            i <= v@.len(),
            v@ == value@,
            forall|j: int|
                0 <= j < i ==> {
                    let c = #[trigger] v@[j] as u32;
                    c == 9 || (c >= 32 && c != 127)
                },
        decreases v@.len() - i,
    {
        let c = v[i] as u32;
        if !(c == 9 || (c >= 32 && c != 127)) {
            assert(value@[i as int] as u32 == c);
            return false;
        }
        i = i + 1;
    }
    true
}

/// The names and values of a header map, in plain form.
pub open spec fn plain_entries(v: Seq<(String, Vec<u8>)>) -> Seq<(Seq<char>, Seq<u8>)> {
    v.map_values(|p: (String, Vec<u8>)| (p.0@, p.1@))
}

/// `HeaderMap::iter` walks the names and values of a map in order.
#[verifier::external_body]
pub(crate) fn header_list(h: &HeaderMap) -> (r: Vec<(String, Vec<u8>)>)
    ensures
        plain_entries(r@) == header_entries(*h),
{
    h.iter().map(|(n, v)| (n.as_str().to_string(), v.as_bytes().to_vec())).collect()
}

/// A text can be a header value exactly where it holds no control character but the
/// tab.
pub proof fn law_header_value_chars(value: &str, r: bool)
    requires
        call_ensures(can_be_header_value, (value,), r),
    ensures
        r <==> forall|i: int|
            0 <= i < value@.len() ==> (#[trigger] value@[i]) as u32 == 9 || (value@[i] as u32 >= 32
                && value@[i] as u32 != 127),
{
}

/// A header name is kept with its letters in lower case, and is not changed otherwise.
pub proof fn law_header_key(name: Seq<char>, i: int)
    requires
        0 <= i < name.len(),
    ensures
        header_key(name).len() == name.len(),
        'A' <= name[i] <= 'Z' ==> header_key(name)[i] as u32 == name[i] as u32 + 32,
        !('A' <= name[i] <= 'Z') ==> header_key(name)[i] == name[i],
{
}

} // verus!
