//! JSON documents.
//!
//! Documents are held as `serde_json` values. Their contents are described by
//! [`Json`], a mathematical tree, and the functions of this module say over that
//! tree what reading and building a document does.

use crate::text::{all_digits, decimal, digits_value, parsed_number, split_on, texts};
use vstd::prelude::*;

verus! {

/// What a JSON document holds.
///
/// A number is identified by the text it is printed as, so that an integer and a
/// floating-point number of the same size stay apart.
pub enum Json {
    Null,
    Bool(bool),
    Number(Seq<char>),
    Text(Seq<char>),
    Array(Seq<Json>),
    Object(Map<Seq<char>, Json>),
}

/// The `serde_json::Value` type. Its contents are named by [`json_of`].
#[verifier::external_type_specification]
#[verifier::external_body]
pub struct ExValue(serde_json::Value);

/// The `serde_json::Map` type. Its contents are named by [`fields_of`].
#[verifier::external_type_specification]
#[verifier::external_body]
#[verifier::reject_recursive_types(K)]
#[verifier::reject_recursive_types(V)]
pub struct ExMap<K, V>(serde_json::Map<K, V>);

/// The `serde_json::Error` type, carried through unread.
#[verifier::external_type_specification]
#[verifier::external_body]
pub struct ExError(serde_json::Error);

/// The tree that a `serde_json::Value` holds.
pub uninterp spec fn json_of(value: serde_json::Value) -> Json;

/// The entries that a `serde_json::Map` holds.
pub uninterp spec fn fields_of(map: serde_json::Map<String, serde_json::Value>) -> Map<Seq<char>, Json>;

/// What `serde_json::from_str` reads in a text: `None` where it reports an error.
pub uninterp spec fn parsed(text: Seq<char>) -> Option<Json>;

/// The text that `serde_json::to_string` prints for a document. It goes by the contents
/// alone since a map is printed in the order of its keys; with the feature
/// `preserve_order` of `serde_json`, which is off, it would go by the order of insertion.
pub uninterp spec fn compact_text(json: Json) -> Seq<char>;

/// The text that `serde_json::to_string_pretty` prints for a document, with the keys of a
/// map in order as in [`compact_text`].
pub uninterp spec fn pretty_text(json: Json) -> Seq<char>;

/// The trees of a list of values, in order.
pub open spec fn jsons_of(values: Seq<serde_json::Value>) -> Seq<Json> {
    values.map_values(|value: serde_json::Value| json_of(value))
}

/// The entry of an object under a key: `None` where the value is no object or has
/// no such key.
pub open spec fn field(json: Json, key: Seq<char>) -> Option<Json> {
    match json {
        Json::Object(fields) => if fields.contains_key(key) {
            Some(fields[key])
        } else {
            None
        },
        _ => None,
    }
}

/// The entries of an object without any.
pub open spec fn no_fields() -> Map<Seq<char>, Json> {
    Map::empty()
}

/// The text that a string value holds: `None` for any other value.
pub open spec fn text_in(json: Json) -> Option<Seq<char>> {
    match json {
        Json::Text(text) => Some(text),
        _ => None,
    }
}

/// The text of the entry under a key, where there is one and it is a string.
pub open spec fn text_field(json: Json, key: Seq<char>) -> Option<Seq<char>> {
    match field(json, key) {
        Some(entry) => text_in(entry),
        None => None,
    }
}

/// The items of the entry under a key, where there is one and it is a list.
pub open spec fn list_field(json: Json, key: Seq<char>) -> Option<Seq<Json>> {
    match field(json, key) {
        Some(Json::Array(items)) => Some(items),
        _ => None,
    }
}

/// A list of strings.
pub open spec fn text_array(items: Seq<Seq<char>>) -> Json {
    Json::Array(items.map_values(|item: Seq<char>| Json::Text(item)))
}

/// A value that may be missing: nothing is null.
pub open spec fn or_null(json: Option<Json>) -> Json {
    match json {
        Some(found) => found,
        None => Json::Null,
    }
}

/// A whole number.
pub open spec fn whole(n: nat) -> Json {
    Json::Number(decimal(n))
}

/// The text of a number of tenths with one digit after the point.
pub open spec fn tenths_text(tenths: nat) -> Seq<char> {
    decimal(tenths / 10) + seq!['.'] + decimal(tenths % 10)
}

/// Replaces each `~` that the given mark follows, and that mark, by one character.
pub open spec fn replaced_escape(s: Seq<char>, mark: char, by: char) -> Seq<char>
    decreases s.len(),
{
    if s.len() == 0 {
        s
    } else if s.len() >= 2 && s[0] == '~' && s[1] == mark {
        seq![by] + replaced_escape(s.skip(2), mark, by)
    } else {
        seq![s[0]] + replaced_escape(s.skip(1), mark, by)
    }
}

/// The key that a token of a JSON pointer stands for.
pub open spec fn pointer_key(token: Seq<char>) -> Seq<char> {
    replaced_escape(replaced_escape(token, '1', '/'), '0', '~')
}

/// The position in a list that a key of a JSON pointer stands for: a number
/// without a sign and without leading zeros.
pub open spec fn pointer_position(key: Seq<char>) -> Option<nat> {
    if key.len() > 0 && (key[0] == '+' || (key[0] == '0' && key.len() != 1)) {
        None
    } else {
        parsed_number(key, usize::MAX as nat)
    }
}

/// One step of a JSON pointer: into an object by key, into a list by position.
pub open spec fn pointer_step(json: Json, key: Seq<char>) -> Option<Json> {
    match json {
        Json::Object(_) => field(json, key),
        Json::Array(items) => match pointer_position(key) {
            Some(i) => if i < items.len() {
                Some(items[i as int])
            } else {
                None
            },
            None => None,
        },
        _ => None,
    }
}

/// Where a list of tokens of a JSON pointer leads.
pub open spec fn pointer_walk(json: Json, tokens: Seq<Seq<char>>) -> Option<Json>
    decreases tokens.len(),
{
    if tokens.len() == 0 {
        Some(json)
    } else {
        match pointer_step(json, pointer_key(tokens[0])) {
            Some(next) => pointer_walk(next, tokens.skip(1)),
            None => None,
        }
    }
}

/// Where a JSON pointer leads.
pub open spec fn pointed(json: Json, path: Seq<char>) -> Option<Json> {
    if path.len() == 0 {
        Some(json)
    } else if path[0] != '/' {
        None
    } else {
        pointer_walk(json, split_on(path, '/').skip(1))
    }
}

/// A number written out: the digits before the point, those after it, and an exponent
/// with its sign, where there are any.
pub open spec fn number_text(
    whole: Seq<char>,
    fraction: Seq<char>,
    exponent: Option<(bool, Seq<char>)>,
) -> Seq<char> {
    whole + (if fraction.len() > 0 {
        seq!['.'] + fraction
    } else {
        Seq::empty()
    }) + (match exponent {
        Some((negative, digits)) => seq![
            'e',
            if negative {
                '-'
            } else {
                '+'
            },
        ] + digits,
        None => Seq::empty(),
    })
}

/// The power of ten that the digits of a number written out are multiplied by.
pub open spec fn number_scale(fraction: Seq<char>, exponent: Option<(bool, Seq<char>)>) -> int {
    match exponent {
        Some((true, digits)) => -digits_value(digits) - fraction.len(),
        Some((false, digits)) => digits_value(digits) - fraction.len(),
        None => -fraction.len(),
    }
}

/// Whether a text is a number, without a sign, whose digits and whose power of ten a
/// floating-point number holds exactly: the digits denote at most two to the power of
/// 53, and the power of ten is at most the twenty-second, up or down.
pub open spec fn is_exact_number(s: Seq<char>) -> bool {
    exists|whole: Seq<char>, fraction: Seq<char>, exponent: Option<(bool, Seq<char>)>|
        {
            &&& s == #[trigger] number_text(whole, fraction, exponent)
            &&& whole.len() > 0
            &&& all_digits(whole + fraction)
            &&& exponent matches Some((_, digits)) ==> digits.len() > 0 && all_digits(digits)
            &&& digits_value(whole + fraction) <= 0x20_0000_0000_0000
            &&& -22 <= number_scale(fraction, exponent) <= 22
        }
}

/// Whether the text of a number is read back as the same number. Integers are, and so
/// is a number whose digits and whose power of ten are held exactly.
pub open spec fn number_reads_back(text: Seq<char>) -> bool {
    ||| parsed(text) == Some(Json::Number(text))
    ||| {
        let unsigned = if text.len() > 0 && text[0] == '-' {
            text.skip(1)
        } else {
            text
        };
        all_digits(unsigned) || is_exact_number(unsigned)
    }
}

/// The number that is read in the text that a number is printed as. Of a number with
/// many digits it can be a close one.
pub open spec fn number_read(text: Seq<char>) -> Seq<char> {
    if number_reads_back(text) {
        text
    } else {
        match parsed(text) {
            Some(Json::Number(read)) => read,
            _ => text,
        }
    }
}

/// What is read in the text that a document is printed as: the same document, each
/// number as it is read. Nothing is read where the document is nested deeper than the
/// given number of levels.
pub open spec fn reread(json: Json, levels: nat) -> Option<Json>
    decreases levels,
{
    match json {
        Json::Number(text) => Some(Json::Number(number_read(text))),
        Json::Array(items) => if levels > 0 && forall|i: int|
            0 <= i < items.len() ==> reread(#[trigger] items[i], (levels - 1) as nat) is Some {
            Some(
                Json::Array(
                    Seq::new(items.len(), |i: int| reread(items[i], (levels - 1) as nat)->0),
                ),
            )
        } else {
            None
        },
        Json::Object(fields) => if levels > 0 && forall|key: Seq<char>| #[trigger]
            fields.contains_key(key) ==> reread(fields[key], (levels - 1) as nat) is Some {
            Some(
                Json::Object(
                    Map::new(
                        |key: Seq<char>| fields.contains_key(key),
                        |key: Seq<char>| reread(fields[key], (levels - 1) as nat)->0,
                    ),
                ),
            )
        } else {
            None
        },
        _ => Some(json),
    }
}

/// Whether a document that is printed is read back as the same document: it is
/// nested no deeper than the given number of levels, and its numbers are read back.
pub open spec fn reads_back(json: Json, levels: nat) -> bool
    decreases levels,
{
    match json {
        Json::Number(text) => number_reads_back(text),
        Json::Array(items) => levels > 0 && forall|i: int|
            0 <= i < items.len() ==> reads_back(#[trigger] items[i], (levels - 1) as nat),
        Json::Object(fields) => levels > 0 && forall|key: Seq<char>| #[trigger]
            fields.contains_key(key) ==> reads_back(fields[key], (levels - 1) as nat),
        _ => true,
    }
}

/// The number of levels of nesting that `serde_json` reads.
pub const READ_LEVELS: u64 = 127;

/// Calls `serde_json::Value::get` with a string key: the entry of an object under
/// the key, and nothing for any other value.
#[verifier::external_body]
pub(crate) fn value_get<'a>(value: &'a serde_json::Value, key: &str) -> (entry: Option<
    &'a serde_json::Value,
>)
    ensures
        match entry {
            Some(found) => field(json_of(*value), key@) == Some(json_of(*found)),
            None => field(json_of(*value), key@) is None,
        },
{
    value.get(key)
}

/// Calls `serde_json::Value::get_mut` with a string key: a place inside the object
/// through which the entry under the key, and nothing else, can be changed.
#[verifier::external_body]
pub(crate) fn value_get_mut<'a>(value: &'a mut serde_json::Value, key: &str) -> (entry: Option<
    &'a mut serde_json::Value,
>)
    ensures
        match entry {
            Some(found) => {
                &&& field(json_of(*old(value)), key@) == Some(json_of(*found))
                &&& json_of(*final(value)) == Json::Object(
                    json_of(*old(value))->Object_0.insert(key@, json_of(*final(found))),
                )
            },
            None => {
                &&& field(json_of(*old(value)), key@) is None
                &&& json_of(*final(value)) == json_of(*old(value))
            },
        },
{
    value.get_mut(key)
}

/// Calls `serde_json::Value::as_str`: the text of a string, and nothing for any
/// other value.
#[verifier::external_body]
pub(crate) fn value_as_str<'a>(value: &'a serde_json::Value) -> (text: Option<&'a str>)
    ensures
        match text {
            Some(found) => json_of(*value) == Json::Text(found@),
            None => !(json_of(*value) is Text),
        },
{
    value.as_str()
}

/// Calls `serde_json::Value::as_array`: the items of a list, and nothing for any
/// other value.
#[verifier::external_body]
pub(crate) fn value_as_array<'a>(value: &'a serde_json::Value) -> (items: Option<
    &'a Vec<serde_json::Value>,
>)
    ensures
        match items {
            Some(found) => json_of(*value) == Json::Array(jsons_of(found@)),
            None => !(json_of(*value) is Array),
        },
{
    value.as_array()
}

/// Calls `serde_json::Value::as_object`: the entries of an object, and nothing for
/// any other value.
#[verifier::external_body]
pub(crate) fn value_as_object<'a>(value: &'a serde_json::Value) -> (entries: Option<
    &'a serde_json::Map<String, serde_json::Value>,
>)
    ensures
        match entries {
            Some(map) => json_of(*value) == Json::Object(fields_of(*map)),
            None => !(json_of(*value) is Object),
        },
{
    value.as_object()
}

/// Calls `serde_json::Value::as_object_mut`: the entries of an object, open for
/// change, and nothing for any other value.
#[verifier::external_body]
pub(crate) fn value_as_object_mut<'a>(value: &'a mut serde_json::Value) -> (entries: Option<
    &'a mut serde_json::Map<String, serde_json::Value>,
>)
    ensures
        match entries {
            Some(map) => {
                &&& json_of(*old(value)) == Json::Object(fields_of(*map))
                &&& json_of(*final(value)) == Json::Object(fields_of(*final(map)))
            },
            None => {
                &&& !(json_of(*old(value)) is Object)
                &&& json_of(*final(value)) == json_of(*old(value))
            },
        },
{
    value.as_object_mut()
}

/// Calls `serde_json::Value::is_null`.
#[verifier::external_body]
pub(crate) fn value_is_null(value: &serde_json::Value) -> (null: bool)
    ensures
        null == (json_of(*value) is Null),
{
    value.is_null()
}

/// Calls `serde_json::Value::pointer`: the value that a JSON pointer leads to, where
/// `~1` stands for a slash and `~0` for a tilde in a key, and a list is entered by
/// position.
#[verifier::external_body]
pub(crate) fn value_pointer<'a>(value: &'a serde_json::Value, path: &str) -> (target: Option<
    &'a serde_json::Value,
>)
    ensures
        match target {
            Some(found) => pointed(json_of(*value), path@) == Some(json_of(*found)),
            None => pointed(json_of(*value), path@) is None,
        },
{
    value.pointer(path)
}

/// Calls the `Clone` of `serde_json::Value`: a value of the same contents.
#[verifier::external_body]
pub(crate) fn value_clone(value: &serde_json::Value) -> (copy: serde_json::Value)
    ensures
        json_of(copy) == json_of(*value),
{
    value.clone()
}

/// Calls the `Default` of `serde_json::Value`, which is null.
#[verifier::external_body]
pub(crate) fn value_default() -> (value: serde_json::Value)
    ensures
        json_of(value) == Json::Null,
{
    serde_json::Value::default()
}

/// Calls the `From<String>` of `serde_json::Value`: a string.
#[verifier::external_body]
pub(crate) fn value_from_string(text: String) -> (value: serde_json::Value)
    ensures
        json_of(value) == Json::Text(text@),
{
    serde_json::Value::from(text)
}

/// Calls the `From<u64>` of `serde_json::Value`: an integer, printed in decimal.
#[verifier::external_body]
pub(crate) fn value_from_u64(n: u64) -> (value: serde_json::Value)
    ensures
        json_of(value) == whole(n as nat),
{
    serde_json::Value::from(n)
}

/// Calls the `From<Vec<Value>>` of `serde_json::Value`: a list of the items, in
/// their order.
#[verifier::external_body]
pub(crate) fn value_from_list(items: Vec<serde_json::Value>) -> (value: serde_json::Value)
    ensures
        json_of(value) == Json::Array(jsons_of(items@)),
{
    serde_json::Value::from(items)
}

/// Calls the `From<Map>` of `serde_json::Value`: an object of the entries.
#[verifier::external_body]
pub(crate) fn value_from_map(map: serde_json::Map<String, serde_json::Value>) -> (value:
    serde_json::Value)
    ensures
        json_of(value) == Json::Object(fields_of(map)),
{
    serde_json::Value::from(map)
}

/// Calls `serde_json::Map::new`: a map without entries.
#[verifier::external_body]
pub(crate) fn map_new() -> (map: serde_json::Map<String, serde_json::Value>)
    ensures
        fields_of(map) == no_fields(),
{
    serde_json::Map::new()
}

/// Calls `serde_json::Map::insert`: the key then holds the value, and every other
/// entry stays.
#[verifier::external_body]
pub(crate) fn map_insert(
    map: &mut serde_json::Map<String, serde_json::Value>,
    key: String,
    value: serde_json::Value,
)
    ensures
        fields_of(*final(map)) == fields_of(*old(map)).insert(key@, json_of(value)),
{
    map.insert(key, value);
}

/// Calls `serde_json::Map::keys`: every key of the map, each once.
#[verifier::external_body]
pub(crate) fn map_keys(map: &serde_json::Map<String, serde_json::Value>) -> (keys: Vec<String>)
    ensures
        forall|i: int| 0 <= i < keys.len() ==> fields_of(*map).contains_key(#[trigger] keys[i]@),
        forall|key: Seq<char>| #[trigger]
            fields_of(*map).contains_key(key) ==> texts(keys@).contains(key),
        texts(keys@).no_duplicates(),
{
    map.keys().cloned().collect()
}

/// Calls `serde_json::from_str`. What it reads is named by [`parsed`]. Of the name it
/// is stated that what is read is nested no deeper than [`READ_LEVELS`], and that a text
/// of tenths up to one hundred, such as `43.5`, is read as the number that prints as
/// that text.
#[verifier::external_body]
pub(crate) fn from_str(text: &str) -> (read: Result<serde_json::Value, serde_json::Error>)
    ensures
        match read {
            Ok(value) => parsed(text@) == Some(json_of(value)) && reread(
                json_of(value),
                READ_LEVELS as nat,
            ) is Some,
            Err(_) => parsed(text@) is None,
        },
        forall|tenths: nat|
            tenths <= 1000 && text@ == #[trigger] tenths_text(tenths) ==> read is Ok && json_of(
                read->Ok_0,
            ) == Json::Number(text@),
{
    serde_json::from_str(text)
}

/// Calls `serde_json::to_string`, which does not fail on a `serde_json::Value`. The
/// text is named by [`compact_text`]. What `serde_json::from_str` reads in it is the
/// document, each number as its own text is read ([`reread`]), and it reads nothing
/// exactly where the document is nested deeper than [`READ_LEVELS`].
///
/// A number is read in two steps, its digits as a floating-point number and then one
/// product or quotient with a power of ten. So the number comes back where both are
/// held exactly, since it is printed with the fewest digits that identify it.
#[verifier::external_body]
pub(crate) fn to_string(value: &serde_json::Value) -> (text: Result<String, serde_json::Error>)
    ensures
        text is Ok,
        text->Ok_0@ == compact_text(json_of(*value)),
        parsed(text->Ok_0@) == reread(json_of(*value), READ_LEVELS as nat),
{
    serde_json::to_string(value)
}

/// Calls `serde_json::to_string_pretty`, which does not fail on a
/// `serde_json::Value`. The text is named by [`pretty_text`]. It differs from that of
/// [`to_string`] in white space between the parts alone, so the same is read in it.
#[verifier::external_body]
pub(crate) fn to_string_pretty(value: &serde_json::Value) -> (text: Result<
    String,
    serde_json::Error,
>)
    ensures
        text is Ok,
        text->Ok_0@ == pretty_text(json_of(*value)),
        parsed(text->Ok_0@) == reread(json_of(*value), READ_LEVELS as nat),
{
    serde_json::to_string_pretty(value)
}

/// Puts an entry into a map.
pub(crate) fn put(
    map: &mut serde_json::Map<String, serde_json::Value>,
    key: &str,
    value: serde_json::Value,
)
    ensures
        fields_of(*final(map)) == fields_of(*old(map)).insert(key@, json_of(value)),
{
    map_insert(map, key.to_string(), value);
}

/// A string value.
pub(crate) fn text_value(text: &str) -> (value: serde_json::Value)
    ensures
        json_of(value) == Json::Text(text@),
{
    value_from_string(text.to_string())
}

/// A list of strings.
pub(crate) fn text_list(items: &Vec<String>) -> (value: serde_json::Value)
    ensures
        json_of(value) == text_array(texts(items@)),
{
    let mut list: Vec<serde_json::Value> = Vec::new();
    let mut i: usize = 0;
    while i < items.len()
        invariant
            i <= items.len(),
            list.len() == i,
            forall|j: int| 0 <= j < i ==> json_of(#[trigger] list[j]) == Json::Text(items[j]@),
        decreases items.len() - i,
    {
        list.push(text_value(items[i].as_str()));
        i += 1;
    }
    assert(jsons_of(list@) =~= texts(items@).map_values(|item: Seq<char>| Json::Text(item)));
    value_from_list(list)
}

/// A value that may be missing: nothing becomes null.
pub(crate) fn value_or_null(value: Option<serde_json::Value>) -> (found: serde_json::Value)
    ensures
        json_of(found) == or_null(
            match value {
                Some(v) => Some(json_of(v)),
                None => None,
            },
        ),
{
    match value {
        Some(v) => v,
        None => value_default(),
    }
}

/// The text of the entry under a key, where there is one and it is a string.
pub(crate) fn get_str<'a>(value: &'a serde_json::Value, key: &str) -> (text: Option<&'a str>)
    ensures
        match text {
            Some(found) => text_field(json_of(*value), key@) == Some(found@),
            None => text_field(json_of(*value), key@) is None,
        },
{
    match value_get(value, key) {
        Some(entry) => value_as_str(entry),
        None => None,
    }
}

/// The items of the entry under a key, where there is one and it is a list.
pub(crate) fn get_list<'a>(value: &'a serde_json::Value, key: &str) -> (items: Option<
    &'a Vec<serde_json::Value>,
>)
    ensures
        match items {
            Some(found) => list_field(json_of(*value), key@) == Some(jsons_of(found@)),
            None => list_field(json_of(*value), key@) is None,
        },
{
    match value_get(value, key) {
        Some(entry) => value_as_array(entry),
        None => None,
    }
}

/// A document whose numbers are read back, and that is not nested too deep, is what is
/// read in its text.
pub proof fn law_documents_are_read_back(json: Json, levels: nat)
    requires
        reads_back(json, levels),
    ensures
        reread(json, levels) == Some(json),
    decreases levels,
{
    match json {
        Json::Array(items) => {
            let inner = (levels - 1) as nat;
            assert forall|i: int| 0 <= i < items.len() implies reread(#[trigger] items[i], inner)
                == Some(items[i]) by {
                law_documents_are_read_back(items[i], inner);
            }
            assert(reread(json, levels)->0->Array_0 =~= items);
        },
        Json::Object(fields) => {
            let inner = (levels - 1) as nat;
            assert forall|key: Seq<char>| #[trigger] fields.contains_key(key) implies reread(
                fields[key],
                inner,
            ) == Some(fields[key]) by {
                law_documents_are_read_back(fields[key], inner);
            }
            assert(reread(json, levels)->0->Object_0 =~= fields);
        },
        _ => {},
    }
}

/// A document that is read keeps its shape: an object has the same keys, and what stands
/// under a key is what is read of it alone.
pub proof fn law_entries_are_read_alone(json: Json, levels: nat, key: Seq<char>)
    requires
        levels > 0,
        reread(json, levels) is Some,
    ensures
        field(reread(json, levels)->0, key) == (match field(json, key) {
            Some(entry) => reread(entry, (levels - 1) as nat),
            None => None,
        }),
{
}

/// A list of strings holds one string for each text, in order.
pub proof fn law_text_lists_keep_their_places(items: Seq<Seq<char>>)
    ensures
        text_array(items) is Array,
        text_array(items)->Array_0.len() == items.len(),
        forall|i: int|
            0 <= i < items.len() ==> #[trigger] text_array(items)->Array_0[i] == Json::Text(
                items[i],
            ),
{
}

/// The trees of a list of values are those of the values, one for each, in order.
pub proof fn law_values_keep_their_places(values: Seq<serde_json::Value>)
    ensures
        jsons_of(values).len() == values.len(),
        forall|i: int|
            0 <= i < values.len() ==> #[trigger] jsons_of(values)[i] == json_of(values[i]),
{
}

/// A whole number is written in digits that denote it.
pub proof fn law_whole_numbers_show_themselves(n: nat)
    ensures
        whole(n) is Number,
        all_digits(whole(n)->Number_0),
        digits_value(whole(n)->Number_0) == n,
{
    crate::text::law_decimal_reads_back(n);
}

/// The text of tenths has a point and one digit after it, and without the point it
/// denotes the tenths.
pub proof fn law_tenths_show_themselves(tenths: nat)
    ensures
        tenths_text(tenths).len() >= 3,
        tenths_text(tenths)[tenths_text(tenths).len() - 2] == '.',
        digits_value(
            tenths_text(tenths).take(tenths_text(tenths).len() - 2).push(tenths_text(tenths).last()),
        ) == tenths,
{
    let text = tenths_text(tenths);
    let front = decimal(tenths / 10);
    let last = decimal(tenths % 10);
    crate::text::law_decimal_reads_back(tenths / 10);
    assert(last.len() == 1);
    assert(text.take(text.len() - 2) =~= front);
    assert(front.push(text.last()).drop_last() =~= front);
    assert(text.last() == last[0]);
    assert(digits_value(front.push(text.last())) == tenths);
}

/// An object has under a key what its map holds there, and nothing else has entries. The
/// text and the list under a key are the entry itself, where it is a text or a list.
pub proof fn law_entries_are_found_by_key(
    json: Json,
    fields: Map<Seq<char>, Json>,
    key: Seq<char>,
    text: Seq<char>,
    items: Seq<Json>,
)
    ensures
        fields.contains_key(key) ==> field(Json::Object(fields), key) == Some(fields[key]),
        !fields.contains_key(key) ==> field(Json::Object(fields), key) is None,
        !(json is Object) ==> field(json, key) is None,
        text_field(json, key) == Some(text) <==> field(json, key) == Some(Json::Text(text)),
        list_field(json, key) == Some(items) <==> field(json, key) == Some(Json::Array(items)),
        text_in(json) == Some(text) <==> json == Json::Text(text),
        or_null(Some(json)) == json,
        or_null(None) == Json::Null,
        field(Json::Object(no_fields()), key) is None,
{
}

} // verus!
