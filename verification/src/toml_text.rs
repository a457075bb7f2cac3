//! TOML documents.

use crate::text::{contains_run, has_run, sorts_before};
use vstd::prelude::*;

verus! {

/// The contents of a TOML value. A float is held as the text that is written for it.
pub enum TomlView {
    Text(Seq<char>),
    Integer(int),
    Float(Seq<char>),
    Boolean(bool),
    Datetime(TomlTime),
    Array(Seq<TomlView>),
    Table(Map<Seq<char>, TomlView>),
}

/// A point in time: year, month and day; hour, minute, second and nanosecond; and
/// the distance from universal time.
pub struct TomlTime {
    pub date: Option<(int, int, int)>,
    pub time: Option<(int, int, int, int)>,
    pub offset: Option<TomlOffset>,
}

/// A distance from universal time: none, or some minutes.
pub enum TomlOffset {
    Utc,
    Minutes(int),
}

/// A TOML value of the `toml` crate.
#[verifier::external_type_specification]
#[verifier::external_body]
pub struct ExTomlValue(toml::Value);

/// The contents of a value.
pub uninterp spec fn toml_view(v: toml::Value) -> TomlView;

/// The value that a text is read as, or the text of the error.
pub uninterp spec fn toml_parse(text: Seq<char>) -> Result<TomlView, Seq<char>>;

/// The text that a value is written as, or the text of the error.
pub uninterp spec fn toml_written(v: TomlView) -> Result<Seq<char>, Seq<char>>;

/// The contents of a list of values.
pub open spec fn toml_views(v: Seq<toml::Value>) -> Seq<TomlView> {
    v.map_values(|x: toml::Value| toml_view(x))
}

/// As many quotation marks in a row as the writer cannot count.
pub const LONG_RUN: usize = 256;

/// The key under which the `toml` crate hands on a point in time. A table whose
/// first key it is may be read as a point in time.
pub const TIME_KEY: &'static str = "$__toml_private_datetime";

/// Whether a value can be written: no text in it holds so many quotation marks of
/// one sort in a row that the writer loses count, and no point in time is as many
/// minutes behind universal time as have no counterpart ahead of it.
pub open spec fn is_writable(v: TomlView) -> bool
    decreases v,
{
    match v {
        TomlView::Text(text) => !has_run(text, '\'', LONG_RUN as int) && !has_run(
            text,
            '"',
            LONG_RUN as int,
        ),
        TomlView::Datetime(time) => time.offset != Some(TomlOffset::Minutes(i16::MIN as int)),
        TomlView::Array(items) => forall|i: int|
            0 <= i < items.len() ==> is_writable(#[trigger] items[i]),
        TomlView::Table(members) => forall|k: Seq<char>|
            members.contains_key(k) ==> is_writable(#[trigger] members[k]),
        _ => true,
    }
}

/// Whether a value is a text, a number or a switch.
pub open spec fn is_setting(v: TomlView) -> bool {
    v is Text || v is Integer || v is Float || v is Boolean
}

/// Whether a table is not taken for a point in time: it does not hold that key, or
/// a setting is written before it.
pub open spec fn is_told_from_time(members: Map<Seq<char>, TomlView>) -> bool {
    members.contains_key(TIME_KEY@) ==> exists|k: Seq<char>| #[trigger]
        members.contains_key(k) && sorts_before(k, TIME_KEY@) && is_setting(members[k])
}

/// Whether a value is made of settings, arrays and tables, nested at most `depth`
/// deep.
pub open spec fn is_settings(v: TomlView, depth: nat) -> bool
    decreases depth,
{
    match v {
        TomlView::Array(items) => depth > 0 && forall|i: int|
            0 <= i < items.len() ==> is_settings(#[trigger] items[i], (depth - 1) as nat),
        TomlView::Table(members) => {
            &&& depth > 0
            &&& is_told_from_time(members)
            &&& forall|k: Seq<char>|
                members.contains_key(k) ==> is_settings(#[trigger] members[k], (depth - 1) as nat)
        },
        _ => is_setting(v),
    }
}

/// Whether a value is a table of settings, nested no deeper than the parser goes.
pub open spec fn is_config(v: TomlView) -> bool {
    v is Table && is_settings(v, 80)
}

/// What a value is made of, as far as it decides whether it can be written.
enum TomlParts<'a> {
    Text(&'a str),
    Datetime(Option<i16>),
    Array(&'a Vec<toml::Value>),
    Table(Vec<&'a toml::Value>),
    Other,
}

/// Whether the values are those of the members of a table, of which there are
/// finitely many.
spec fn are_members(
    values: Seq<TomlView>,
    members: Map<Seq<char>, TomlView>,
) -> bool {
    &&& members.dom().finite()
    &&& forall|i: int|
        0 <= i < values.len() ==> exists|k: Seq<char>| #[trigger]
            members.contains_key(k) && members[k] == #[trigger] values[i]
    &&& forall|k: Seq<char>| #[trigger]
        members.contains_key(k) ==> exists|i: int|
            0 <= i < values.len() && members[k] == #[trigger] values[i]
}

/// Whether the parts are those of a value.
spec fn are_parts(parts: TomlParts, v: TomlView) -> bool {
    match (parts, v) {
        (TomlParts::Text(s), TomlView::Text(text)) => s@ == text,
        (TomlParts::Datetime(minutes), TomlView::Datetime(time)) => match minutes {
            Some(m) => time.offset == Some(TomlOffset::Minutes(m as int)),
            None => !(time.offset matches Some(TomlOffset::Minutes(_))),
        },
        (TomlParts::Array(items), TomlView::Array(views)) => views == toml_views(items@),
        (TomlParts::Table(items), TomlView::Table(members)) => are_members(
            items@.map_values(|x: &toml::Value| toml_view(*x)),
            members,
        ),
        (TomlParts::Other, _) => v is Integer || v is Float || v is Boolean,
        _ => false,
    }
}

/// The variants of `toml::Value`, with `Map::values` for a table and the public
/// fields of a point in time for the minutes of its offset.
#[verifier::external_body]
fn toml_parts(v: &toml::Value) -> (r: TomlParts<'_>)
    ensures
        are_parts(r, toml_view(*v)),
{
    match v {
        toml::Value::String(s) => TomlParts::Text(s.as_str()),
        toml::Value::Datetime(time) => TomlParts::Datetime(match time.offset {
            Some(toml::value::Offset::Custom { minutes }) => Some(minutes),
            Some(toml::value::Offset::Z) => None,
            None => None,
        }),
        toml::Value::Array(items) => TomlParts::Array(items),
        toml::Value::Table(members) => TomlParts::Table(members.values().collect()),
        toml::Value::Integer(_) => TomlParts::Other,
        toml::Value::Float(_) => TomlParts::Other,
        toml::Value::Boolean(_) => TomlParts::Other,
    }
}

/// Whether a value can be written.
pub fn can_be_written(v: &toml::Value) -> (r: bool)
    ensures
        r == is_writable(toml_view(*v)),
    decreases toml_view(*v),
{
    match toml_parts(v) {
        TomlParts::Text(s) => !contains_run(s, '\'', LONG_RUN) && !contains_run(s, '"', LONG_RUN),
        TomlParts::Datetime(minutes) => match minutes {
            Some(m) => m != i16::MIN,
            None => true,
        },
        TomlParts::Array(items) => {
            let ghost views = toml_view(*v)->Array_0;
            let mut i: usize = 0;
            while i < items.len()
                invariant
                    i <= items@.len(),
                    toml_view(*v) == TomlView::Array(views),
                    views == toml_views(items@),
                    forall|j: int| 0 <= j < i ==> is_writable(#[trigger] views[j]),
                decreases items@.len() - i,
            {
                assert(views[i as int] == toml_view(items@[i as int]));
                assert(decreases_to!(toml_view(*v) => toml_view(*v)->Array_0));
                assert(decreases_to!(views => views[i as int]));
                if !can_be_written(&items[i]) {
                    assert(!is_writable(views[i as int]));
                    return false;
                }
                i = i + 1;
            }
            true
        },
        TomlParts::Table(items) => {
            let ghost members = toml_view(*v)->Table_0;
            let ghost values = items@.map_values(|x: &toml::Value| toml_view(*x));
            let mut i: usize = 0;
            while i < items.len()
                invariant
                    i <= items@.len(),
                    toml_view(*v) == TomlView::Table(members),
                    values == items@.map_values(|x: &toml::Value| toml_view(*x)),
                    are_members(values, members),
                    forall|j: int| 0 <= j < i ==> is_writable(#[trigger] values[j]),
                decreases items@.len() - i,
            {
                let ghost value = values[i as int];
                let ghost k = choose|k: Seq<char>| #[trigger]
                    members.contains_key(k) && members[k] == value;
                assert(decreases_to!(toml_view(*v) => toml_view(*v)->Table_0));
                assert(decreases_to!(members => members[k]));
                if !can_be_written(items[i]) {
                    assert(!is_writable(members[k]));
                    return false;
                }
                i = i + 1;
            }
            assert forall|k: Seq<char>| members.contains_key(k) implies is_writable(
                #[trigger] members[k],
            ) by {
                let j = choose|j: int|
                    0 <= j < values.len() && members[k] == #[trigger] values[j];
                assert(is_writable(values[j]));
            }
            true
        },
        TomlParts::Other => true,
    }
}

/// `str::parse` for a `toml::Value`. What a text is read as is named by
/// `toml_parse`.
#[verifier::external_body]
pub(crate) fn toml_from_str(text: &str) -> (r: Result<toml::Value, String>)
    ensures
        match r {
            Ok(v) => toml_parse(text@) == Ok::<TomlView, Seq<char>>(toml_view(v)),
            Err(e) => toml_parse(text@) == Err::<TomlView, Seq<char>>(e@),
        },
{
    text.parse::<toml::Value>().map_err(|e| e.to_string())
}

/// `toml::to_string` for a `toml::Value`. It panics on a value that cannot be
/// written. The text that it writes is named by `toml_written`. A table of settings
/// is written, and read back from that text as it was. Nothing of the sort is said
/// of points in time.
#[verifier::external_body]
pub(crate) fn toml_to_string(v: &toml::Value) -> (r: Result<String, String>)
    requires
        is_writable(toml_view(*v)),
    ensures
        match r {
            Ok(s) => toml_written(toml_view(*v)) == Ok::<Seq<char>, Seq<char>>(s@) && (is_config(
                toml_view(*v),
            ) ==> toml_parse(s@) == Ok::<TomlView, Seq<char>>(toml_view(*v))),
            Err(e) => toml_written(toml_view(*v)) == Err::<Seq<char>, Seq<char>>(e@) && !is_config(
                toml_view(*v),
            ),
        },
{
    toml::to_string(v).map_err(|e| e.to_string())
}

/// A value that can be written has no text with 256 quotation marks of one sort in a
/// row, wherever in it the text stands. Numbers and switches can always be written.
pub proof fn law_can_be_written(v: &toml::Value, k: Seq<char>, i: int, r: bool)
    requires
        call_ensures(can_be_written, (v,), r),
    ensures
        match toml_view(*v) {
            TomlView::Text(text) => r <==> !has_run(text, '\'', 256) && !has_run(text, '"', 256),
            TomlView::Datetime(time) => r <==> time.offset != Some(TomlOffset::Minutes(-32768)),
            TomlView::Array(items) => {
                &&& r && 0 <= i < items.len() ==> is_writable(items[i])
                &&& !r ==> exists|j: int|
                    0 <= j < items.len() && !is_writable(#[trigger] items[j])
            },
            TomlView::Table(members) => {
                &&& r && members.contains_key(k) ==> is_writable(members[k])
                &&& !r ==> exists|j: Seq<char>|
                    members.contains_key(j) && !is_writable(#[trigger] members[j])
            },
            _ => r,
        },
{
}

} // verus!
