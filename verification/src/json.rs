//! A JSON value representation with parsing and serialization.
//!
//! The service speaks JSON: success bodies decode into the library's result
//! records, error bodies may carry an `error` field, and the open-ended
//! metadata mappings hold arbitrary server-supplied values.  `JsonValue` is a
//! tagged union over null / bool / number / string / array / object; numbers
//! keep their raw text, so any value the service sends survives a round trip
//! unchanged.  `JsonData` is the mathematical model of a value, and every
//! contract in the library speaks over it.

use vstd::prelude::*;
use vstd::string::StrSliceExecFns;

verus! {

/// One JSON value.  Object fields keep their textual order; numbers keep the
/// raw text of the number literal.
#[derive(Debug)]
pub enum JsonValue {
    Null,
    Bool(bool),
    Num(String),
    Str(String),
    Arr(Vec<JsonValue>),
    Obj(Vec<(String, JsonValue)>),
}

/// The mathematical model of a JSON value: strings and numbers become
/// character sequences, arrays and objects become sequences of models.
#[verifier::ext_equal]
pub ghost enum JsonData {
    Null,
    Bool(bool),
    Num(Seq<char>),
    Str(Seq<char>),
    Arr(Seq<JsonData>),
    Obj(Seq<(Seq<char>, JsonData)>),
}

pub open spec fn items_view_from(items: Seq<JsonValue>, i: int) -> Seq<JsonData>
    decreases items, items.len() - i,
{
    if 0 <= i < items.len() {
        seq![items[i]@] + items_view_from(items, i + 1)
    } else {
        Seq::empty()
    }
}

pub open spec fn fields_view_from(fields: Seq<(String, JsonValue)>, i: int) -> Seq<
    (Seq<char>, JsonData),
>
    decreases fields, fields.len() - i,
{
    if 0 <= i < fields.len() {
        seq![(fields[i].0@, fields[i].1@)] + fields_view_from(fields, i + 1)
    } else {
        Seq::empty()
    }
}

impl View for JsonValue {
    type V = JsonData;

    open spec fn view(&self) -> JsonData
        decreases self, 1int,
    {
        match self {
            JsonValue::Null => JsonData::Null,
            JsonValue::Bool(b) => JsonData::Bool(*b),
            JsonValue::Num(s) => JsonData::Num(s@),
            JsonValue::Str(s) => JsonData::Str(s@),
            JsonValue::Arr(items) => JsonData::Arr(items_view_from(items@, 0)),
            JsonValue::Obj(fields) => JsonData::Obj(fields_view_from(fields@, 0)),
        }
    }
}

/// The model of an array's element vector.
pub open spec fn items_view(items: Seq<JsonValue>) -> Seq<JsonData> {
    items_view_from(items, 0)
}

/// The model of an object's field vector.
pub open spec fn fields_view(fields: Seq<(String, JsonValue)>) -> Seq<(Seq<char>, JsonData)> {
    fields_view_from(fields, 0)
}

pub proof fn lemma_items_view_from(items: Seq<JsonValue>, i: int)
    requires
        0 <= i <= items.len(),
    ensures
        items_view_from(items, i).len() == items.len() - i,
        forall|j: int|
            i <= j < items.len() ==> items_view_from(items, i)[j - i] == #[trigger] items[j]@,
    decreases items.len() - i,
{
    if i < items.len() {
        lemma_items_view_from(items, i + 1);
        assert forall|j: int| i <= j < items.len() implies items_view_from(items, i)[j - i]
            == items[j]@ by {
            assert(items_view_from(items, i) == seq![items[i]@] + items_view_from(items, i + 1));
            if j > i {
                assert(items_view_from(items, i)[j - i] == items_view_from(items, i + 1)[j - i
                    - 1]);
            }
        }
    }
}

/// Pointwise characterization of an array's model: element `j` of the model
/// is the model of element `j` of the vector.
pub proof fn lemma_items_view(items: Seq<JsonValue>)
    ensures
        items_view(items).len() == items.len(),
        forall|j: int| 0 <= j < items.len() ==> items_view(items)[j] == #[trigger] items[j]@,
{
    lemma_items_view_from(items, 0);
}

pub proof fn lemma_fields_view_from(fields: Seq<(String, JsonValue)>, i: int)
    requires
        0 <= i <= fields.len(),
    ensures
        fields_view_from(fields, i).len() == fields.len() - i,
        forall|j: int|
            i <= j < fields.len() ==> fields_view_from(fields, i)[j - i] == (
            #[trigger] fields[j].0@,
            fields[j].1@,
            ),
    decreases fields.len() - i,
{
    if i < fields.len() {
        lemma_fields_view_from(fields, i + 1);
        assert forall|j: int| i <= j < fields.len() implies fields_view_from(fields, i)[j - i] == (
            fields[j].0@,
            fields[j].1@,
        ) by {
            assert(fields_view_from(fields, i) == seq![(fields[i].0@, fields[i].1@)]
                + fields_view_from(fields, i + 1));
            if j > i {
                assert(fields_view_from(fields, i)[j - i] == fields_view_from(fields, i + 1)[j - i
                    - 1]);
            }
        }
    }
}

/// Pointwise characterization of an object's model: entry `j` of the model
/// holds the key's characters and the value's model of entry `j`.
pub proof fn lemma_fields_view(fields: Seq<(String, JsonValue)>)
    ensures
        fields_view(fields).len() == fields.len(),
        forall|j: int|
            0 <= j < fields.len() ==> fields_view(fields)[j] == (
            #[trigger] fields[j].0@,
            fields[j].1@,
            ),
{
    lemma_fields_view_from(fields, 0);
}

/// The first value bound to `key` in an object's field list, if any.
pub open spec fn obj_lookup(fields: Seq<(Seq<char>, JsonData)>, key: Seq<char>) -> Option<
    JsonData,
>
    decreases fields.len(),
{
    if fields.len() == 0 {
        None
    } else if fields[0].0 == key {
        Some(fields[0].1)
    } else {
        obj_lookup(fields.drop_first(), key)
    }
}

proof fn lemma_obj_lookup_skip(fields: Seq<(Seq<char>, JsonData)>, key: Seq<char>, i: int)
    requires
        0 <= i <= fields.len(),
        forall|j: int| 0 <= j < i ==> #[trigger] fields[j].0 != key,
    ensures
        obj_lookup(fields, key) == obj_lookup(fields.skip(i), key),
    decreases i,
{
    if i > 0 {
        lemma_obj_lookup_skip(fields, key, i - 1);
        assert(fields.skip(i - 1).drop_first() =~= fields.skip(i));
        assert(fields.skip(i - 1)[0] == fields[i - 1]);
    } else {
        assert(fields.skip(0) =~= fields);
    }
}

/// No two fields bind the same key.
pub open spec fn unique_keys(fields: Seq<(Seq<char>, JsonData)>) -> bool {
    forall|a: int, b: int| 0 <= a < b < fields.len() ==> fields[a].0 != fields[b].0
}

/// Whether every key of `fields` is distinct, as `unique_keys` says of the
/// field list's model.
pub fn distinct_keys(fields: &Vec<(String, JsonValue)>) -> (r: bool)
    ensures
        r == unique_keys(fields_view(fields@)),
{
    proof {
        lemma_fields_view(fields@);
    }
    let ghost m = fields_view(fields@);
    let mut a: usize = 0;
    while a < fields.len()
        invariant
            m == fields_view(fields@),
            m.len() == fields@.len(),
            forall|j: int| 0 <= j < fields@.len() ==> m[j] == (#[trigger] fields@[j].0@, fields@[j].1@),
            a <= fields@.len(),
            forall|x: int, y: int|
                0 <= x < y < m.len() && x < a ==> #[trigger] m[x].0 != #[trigger] m[y].0,
        decreases fields@.len() - a,
    {
        let mut b = a + 1;
        while b < fields.len()
            invariant
                m == fields_view(fields@),
                m.len() == fields@.len(),
                forall|j: int|
                    0 <= j < fields@.len() ==> m[j] == (#[trigger] fields@[j].0@, fields@[j].1@),
                a < b <= fields@.len(),
                a < fields@.len(),
                forall|y: int| a < y < b ==> m[a as int].0 != #[trigger] m[y].0,
            decreases fields@.len() - b,
        {
            if str_eq(fields[a].0.as_str(), fields[b].0.as_str()) {
                assert(m[a as int].0 == m[b as int].0);
                assert(!unique_keys(m));
                return false;
            }
            b += 1;
        }
        a += 1;
    }
    assert(unique_keys(m));
    true
}

/// Character-for-character comparison of two string slices.
pub fn str_eq(a: &str, b: &str) -> (r: bool)
    ensures
        r == (a@ == b@),
{
    let n = a.unicode_len();
    if n != b.unicode_len() {
        assert(a@ != b@) by {
            assert(a@.len() != b@.len());
        }
        return false;
    }
    let mut i: usize = 0;
    while i < n
        invariant
            n == a@.len(),
            n == b@.len(),
            i <= n,
            forall|j: int| 0 <= j < i ==> a@[j] == b@[j],
        decreases n - i,
    {
        if a.get_char(i) != b.get_char(i) {
            return false;
        }
        i += 1;
    }
    assert(a@ =~= b@);
    true
}

/// The characters of a string slice, as a vector.
pub fn chars_of(s: &str) -> (v: Vec<char>)
    ensures
        v@ == s@,
{
    let n = s.unicode_len();
    let mut v: Vec<char> = Vec::new();
    let mut i: usize = 0;
    while i < n
        invariant
            n == s@.len(),
            i <= n,
            v@ == s@.take(i as int),
        decreases n - i,
    {
        v.push(s.get_char(i));
        assert(v@ =~= s@.take(i + 1));
        i += 1;
    }
    assert(v@ =~= s@);
    v
}

/// Relies on `String`'s `FromIterator<char>` impl, which concatenates the
/// characters in order into one string.
#[verifier::external_body]
pub fn string_from_chars(chars: &Vec<char>) -> (s: String)
    ensures
        s@ == chars@,
{
    chars.iter().collect()
}

/// The first value bound to `key` in `fields`, as `obj_lookup` gives it on
/// the field list's model.
pub fn get_field<'a>(fields: &'a Vec<(String, JsonValue)>, key: &str) -> (r: Option<
    &'a JsonValue,
>)
    ensures
        match r {
            Some(v) => obj_lookup(fields_view(fields@), key@) == Some(v@),
            None => obj_lookup(fields_view(fields@), key@) is None,
        },
{
    proof {
        lemma_fields_view(fields@);
    }
    let ghost m = fields_view(fields@);
    let mut i: usize = 0;
    while i < fields.len()
        invariant
            m == fields_view(fields@),
            m.len() == fields@.len(),
            forall|j: int| 0 <= j < fields@.len() ==> m[j] == (#[trigger] fields@[j].0@, fields@[j].1@),
            i <= fields@.len(),
            forall|j: int| 0 <= j < i ==> #[trigger] m[j].0 != key@,
        decreases fields@.len() - i,
    {
        if str_eq(fields[i].0.as_str(), key) {
            proof {
                lemma_obj_lookup_skip(m, key@, i as int);
                assert(m.skip(i as int)[0] == m[i as int]);
            }
            return Some(&fields[i].1);
        }
        i += 1;
    }
    proof {
        lemma_obj_lookup_skip(m, key@, m.len() as int);
        assert(m.skip(m.len() as int) =~= Seq::empty());
    }
    None
}

/// A deep copy of an array's elements, with the same model.
pub fn clone_items(items: &Vec<JsonValue>) -> (r: Vec<JsonValue>)
    ensures
        items_view(r@) == items_view(items@),
    decreases *items,
{
    let mut r: Vec<JsonValue> = Vec::new();
    let mut i: usize = 0;
    while i < items.len()
        invariant
            i <= items@.len(),
            r@.len() == i,
            forall|j: int| 0 <= j < i ==> #[trigger] r@[j]@ == items@[j]@,
        decreases items@.len() - i,
    {
        proof {
            assert(decreases_to!(*items => items@));
            assert(decreases_to!(items@ => items@[i as int]));
        }
        r.push(items[i].clone());
        i += 1;
    }
    proof {
        lemma_items_view(r@);
        lemma_items_view(items@);
        assert forall|j: int| 0 <= j < items@.len() implies items_view(r@)[j] == items_view(
            items@,
        )[j] by {
            assert(r@[j]@ == items@[j]@);
        }
        assert(items_view(r@) =~= items_view(items@));
    }
    r
}

/// A deep copy of an object's field list, with the same model.
pub fn clone_fields(fields: &Vec<(String, JsonValue)>) -> (r: Vec<(String, JsonValue)>)
    ensures
        fields_view(r@) == fields_view(fields@),
    decreases *fields,
{
    let mut r: Vec<(String, JsonValue)> = Vec::new();
    let mut i: usize = 0;
    while i < fields.len()
        invariant
            i <= fields@.len(),
            r@.len() == i,
            forall|j: int|
                0 <= j < i ==> (#[trigger] r@[j].0@, r@[j].1@) == (fields@[j].0@, fields@[j].1@),
        decreases fields@.len() - i,
    {
        proof {
            assert(decreases_to!(*fields => fields@));
            assert(decreases_to!(fields@ => fields@[i as int]));
            assert(decreases_to!(fields@[i as int] => fields@[i as int].1));
        }
        let key = fields[i].0.clone();
        let val = fields[i].1.clone();
        r.push((key, val));
        i += 1;
    }
    proof {
        lemma_fields_view(r@);
        lemma_fields_view(fields@);
        assert forall|j: int| 0 <= j < fields@.len() implies fields_view(r@)[j] == fields_view(
            fields@,
        )[j] by {
            assert((r@[j].0@, r@[j].1@) == (fields@[j].0@, fields@[j].1@));
        }
        assert(fields_view(r@) =~= fields_view(fields@));
    }
    r
}

/// The character for one hexadecimal digit.
pub open spec fn hex_char(d: u32) -> char {
    if d == 0 {
        '0'
    } else if d == 1 {
        '1'
    } else if d == 2 {
        '2'
    } else if d == 3 {
        '3'
    } else if d == 4 {
        '4'
    } else if d == 5 {
        '5'
    } else if d == 6 {
        '6'
    } else if d == 7 {
        '7'
    } else if d == 8 {
        '8'
    } else if d == 9 {
        '9'
    } else if d == 10 {
        'a'
    } else if d == 11 {
        'b'
    } else if d == 12 {
        'c'
    } else if d == 13 {
        'd'
    } else if d == 14 {
        'e'
    } else {
        'f'
    }
}

/// The serialized form of one string character: quotes and backslashes are
/// escaped, the common control characters get their short escapes, the other
/// control characters become `\u00XX`, and every other character stands as
/// itself.
pub open spec fn escape_char(c: char) -> Seq<char> {
    if c == '"' {
        seq!['\\', '"']
    } else if c == '\\' {
        seq!['\\', '\\']
    } else if c == '\n' {
        seq!['\\', 'n']
    } else if c == '\r' {
        seq!['\\', 'r']
    } else if c == '\t' {
        seq!['\\', 't']
    } else if (c as u32) < 32 {
        seq!['\\', 'u', '0', '0', hex_char((c as u32) / 16), hex_char((c as u32) % 16)]
    } else {
        seq![c]
    }
}

/// The serialized form of a string's characters, without the quotes.
pub open spec fn escape_string(s: Seq<char>) -> Seq<char>
    decreases s.len(),
{
    if s.len() == 0 {
        Seq::empty()
    } else {
        escape_char(s[0]) + escape_string(s.drop_first())
    }
}

proof fn lemma_escape_push(t: Seq<char>, x: char)
    ensures
        escape_string(t.push(x)) == escape_string(t) + escape_char(x),
    decreases t.len(),
{
    if t.len() == 0 {
        assert(t.push(x)[0] == x);
        assert(t.push(x).drop_first() =~= Seq::<char>::empty());
        assert(escape_string(Seq::<char>::empty()) == Seq::<char>::empty());
        assert(escape_string(t.push(x)) == escape_char(x) + Seq::<char>::empty());
        assert(escape_char(x) + Seq::<char>::empty() =~= escape_char(x));
        assert(escape_string(t) + escape_char(x) =~= escape_char(x));
    } else {
        assert(t.push(x).drop_first() =~= t.drop_first().push(x));
        lemma_escape_push(t.drop_first(), x);
        assert(t.push(x)[0] == t[0]);
        assert(escape_string(t.push(x)) == escape_char(t[0]) + (escape_string(t.drop_first())
            + escape_char(x)));
        assert(escape_char(t[0]) + (escape_string(t.drop_first()) + escape_char(x)) =~= (escape_char(
            t[0],
        ) + escape_string(t.drop_first())) + escape_char(x));
    }
}

/// The serialized text of a JSON value.
pub open spec fn json_text(d: JsonData) -> Seq<char>
    decreases d, 1int,
{
    match d {
        JsonData::Null => seq!['n', 'u', 'l', 'l'],
        JsonData::Bool(b) => if b {
            seq!['t', 'r', 'u', 'e']
        } else {
            seq!['f', 'a', 'l', 's', 'e']
        },
        JsonData::Num(s) => s,
        JsonData::Str(s) => seq!['"'] + escape_string(s) + seq!['"'],
        JsonData::Arr(items) => seq!['['] + items_text(items, 0) + seq![']'],
        JsonData::Obj(fields) => seq!['{'] + fields_text(fields, 0) + seq!['}'],
    }
}

/// The comma-separated serialized text of an array's elements from index `i` on.
pub open spec fn items_text(items: Seq<JsonData>, i: int) -> Seq<char>
    decreases items, items.len() - i,
{
    if 0 <= i < items.len() {
        if i + 1 == items.len() {
            json_text(items[i])
        } else {
            json_text(items[i]) + seq![','] + items_text(items, i + 1)
        }
    } else {
        Seq::empty()
    }
}

/// The comma-separated serialized text of an object's fields from index `i` on.
pub open spec fn fields_text(fields: Seq<(Seq<char>, JsonData)>, i: int) -> Seq<char>
    decreases fields, fields.len() - i,
{
    if 0 <= i < fields.len() {
        if i + 1 == fields.len() {
            field_text(fields[i])
        } else {
            field_text(fields[i]) + seq![','] + fields_text(fields, i + 1)
        }
    } else {
        Seq::empty()
    }
}

/// The serialized text of one object field: quoted key, colon, value.
pub open spec fn field_text(field: (Seq<char>, JsonData)) -> Seq<char>
    decreases field, 0int,
{
    seq!['"'] + escape_string(field.0) + seq!['"', ':'] + json_text(field.1)
}

/// Appends the characters of `s` to `out`.
pub fn push_str_chars(s: &str, out: &mut Vec<char>)
    ensures
        final(out)@ == old(out)@ + s@,
{
    let n = s.unicode_len();
    let mut i: usize = 0;
    while i < n
        invariant
            n == s@.len(),
            i <= n,
            out@ == old(out)@ + s@.take(i as int),
        decreases n - i,
    {
        out.push(s.get_char(i));
        assert(out@ =~= old(out)@ + s@.take(i + 1));
        i += 1;
    }
    assert(out@ =~= old(out)@ + s@);
}

fn hex_char_of(d: u32) -> (c: char)
    requires
        d < 16,
    ensures
        c == hex_char(d),
{
    if d == 0 {
        '0'
    } else if d == 1 {
        '1'
    } else if d == 2 {
        '2'
    } else if d == 3 {
        '3'
    } else if d == 4 {
        '4'
    } else if d == 5 {
        '5'
    } else if d == 6 {
        '6'
    } else if d == 7 {
        '7'
    } else if d == 8 {
        '8'
    } else if d == 9 {
        '9'
    } else if d == 10 {
        'a'
    } else if d == 11 {
        'b'
    } else if d == 12 {
        'c'
    } else if d == 13 {
        'd'
    } else if d == 14 {
        'e'
    } else {
        'f'
    }
}

/// Appends the quoted, escaped form of `s` to `out`.
fn write_quoted(s: &str, out: &mut Vec<char>)
    ensures
        final(out)@ == old(out)@ + seq!['"'] + escape_string(s@) + seq!['"'],
{
    out.push('"');
    assert(out@ =~= old(out)@ + seq!['"'] + escape_string(s@.take(0)));
    let n = s.unicode_len();
    let mut i: usize = 0;
    while i < n
        invariant
            n == s@.len(),
            i <= n,
            out@ == old(out)@ + seq!['"'] + escape_string(s@.take(i as int)),
        decreases n - i,
    {
        let c = s.get_char(i);
        proof {
            assert(s@.take(i + 1) =~= s@.take(i as int).push(s@[i as int]));
            lemma_escape_push(s@.take(i as int), s@[i as int]);
        }
        if c == '"' {
            out.push('\\');
            out.push('"');
        } else if c == '\\' {
            out.push('\\');
            out.push('\\');
        } else if c == '\n' {
            out.push('\\');
            out.push('n');
        } else if c == '\r' {
            out.push('\\');
            out.push('r');
        } else if c == '\t' {
            out.push('\\');
            out.push('t');
        } else if (c as u32) < 32 {
            let n = c as u32;
            out.push('\\');
            out.push('u');
            out.push('0');
            out.push('0');
            out.push(hex_char_of(n / 16));
            out.push(hex_char_of(n % 16));
        } else {
            out.push(c);
        }
        assert(out@ =~= old(out)@ + seq!['"'] + escape_string(s@.take(i + 1)));
        i += 1;
    }
    out.push('"');
    assert(s@.take(n as int) =~= s@);
    assert(out@ =~= old(out)@ + seq!['"'] + escape_string(s@) + seq!['"']);
}

/// Appends the serialized text of `v` to `out`.
fn write_json(v: &JsonValue, out: &mut Vec<char>)
    ensures
        final(out)@ == old(out)@ + json_text(v@),
    decreases *v, 1int,
{
    match v {
        JsonValue::Null => {
            out.push('n');
            out.push('u');
            out.push('l');
            out.push('l');
            assert(out@ =~= old(out)@ + json_text(v@));
        },
        JsonValue::Bool(b) => {
            if *b {
                out.push('t');
                out.push('r');
                out.push('u');
                out.push('e');
            } else {
                out.push('f');
                out.push('a');
                out.push('l');
                out.push('s');
                out.push('e');
            }
            assert(out@ =~= old(out)@ + json_text(v@));
        },
        JsonValue::Num(s) => {
            push_str_chars(s.as_str(), out);
        },
        JsonValue::Str(s) => {
            write_quoted(s.as_str(), out);
            assert(out@ =~= old(out)@ + json_text(v@));
        },
        JsonValue::Arr(items) => {
            out.push('[');
            proof {
                assert(decreases_to!(*v => *items));
                assert(decreases_to!(*items => items@));
            }
            write_items(items, 0, out);
            out.push(']');
            assert(out@ =~= old(out)@ + json_text(v@));
        },
        JsonValue::Obj(fields) => {
            out.push('{');
            proof {
                assert(decreases_to!(*v => *fields));
                assert(decreases_to!(*fields => fields@));
            }
            write_fields(fields, 0, out);
            out.push('}');
            assert(out@ =~= old(out)@ + json_text(v@));
        },
    }
}

/// Appends the serialized text of the elements from index `i` on.
fn write_items(items: &Vec<JsonValue>, i: usize, out: &mut Vec<char>)
    ensures
        final(out)@ == old(out)@ + items_text(items_view(items@), i as int),
    decreases items@, items@.len() - i,
{
    proof {
        lemma_items_view(items@);
    }
    if i < items.len() {
        proof {
            assert(decreases_to!(items@ => items@[i as int]));
        }
        write_json(&items[i], out);
        if i + 1 < items.len() {
            out.push(',');
            write_items(items, i + 1, out);
            assert(out@ =~= old(out)@ + items_text(items_view(items@), i as int));
        } else {
            assert(out@ =~= old(out)@ + items_text(items_view(items@), i as int));
        }
    } else {
        assert(out@ =~= old(out)@ + items_text(items_view(items@), i as int));
    }
}

/// Appends the serialized text of the fields from index `i` on.
fn write_fields(fields: &Vec<(String, JsonValue)>, i: usize, out: &mut Vec<char>)
    ensures
        final(out)@ == old(out)@ + fields_text(fields_view(fields@), i as int),
    decreases fields@, fields@.len() - i,
{
    proof {
        lemma_fields_view(fields@);
    }
    if i < fields.len() {
        write_quoted(fields[i].0.as_str(), out);
        out.push(':');
        proof {
            assert(decreases_to!(fields@ => fields@[i as int]));
            assert(decreases_to!(fields@[i as int] => fields@[i as int].1));
        }
        write_json(&fields[i].1, out);
        assert(out@ =~= old(out)@ + field_text(fields_view(fields@)[i as int]));
        if i + 1 < fields.len() {
            out.push(',');
            write_fields(fields, i + 1, out);
            assert(out@ =~= old(out)@ + fields_text(fields_view(fields@), i as int));
        } else {
            assert(out@ =~= old(out)@ + fields_text(fields_view(fields@), i as int));
        }
    } else {
        assert(out@ =~= old(out)@ + fields_text(fields_view(fields@), i as int));
    }
}

proof fn lemma_char_code_injective(a: char, b: char)
    requires
        a as u32 == b as u32,
    ensures
        a == b,
{
}

/// Relies on `char::from_u32`: the result is the character with the given
/// code point, and `None` exactly for surrogate code points and values above
/// the largest character.
#[verifier::external_body]
fn char_from_u32(code: u32) -> (r: Option<char>)
    ensures
        r matches Some(c) ==> c as u32 == code,
        r is None <==> (0xD800 <= code < 0xE000 || code > 0x10FFFF),
{
    char::from_u32(code)
}

/// JSON whitespace.
pub open spec fn is_ws(c: char) -> bool {
    c == ' ' || c == '\n' || c == '\r' || c == '\t'
}

/// The index of the first non-whitespace character at or after `i`.
pub open spec fn spec_skip_ws(s: Seq<char>, i: int) -> int
    decreases s.len() - i,
{
    if 0 <= i < s.len() && is_ws(s[i]) {
        spec_skip_ws(s, i + 1)
    } else {
        i
    }
}

/// The value of a hexadecimal digit, if the character is one.
pub open spec fn spec_hex_digit(c: char) -> Option<u32> {
    let n = c as u32;
    if 48 <= n <= 57 {
        Some((n - 48) as u32)
    } else if 97 <= n <= 102 {
        Some((n - 87) as u32)
    } else if 65 <= n <= 70 {
        Some((n - 55) as u32)
    } else {
        None
    }
}

/// A decimal digit.
pub open spec fn is_digit(c: char) -> bool {
    48 <= c as u32 <= 57
}

/// The index after the run of decimal digits starting at `i`.
pub open spec fn spec_digits_end(s: Seq<char>, i: int) -> int
    decreases s.len() - i,
{
    if 0 <= i < s.len() && is_digit(s[i]) {
        spec_digits_end(s, i + 1)
    } else {
        i
    }
}

/// The index after an optional fraction part starting at `j`; `None` when a
/// decimal point stands without digits.
pub open spec fn spec_frac_end(s: Seq<char>, j: int) -> Option<int> {
    if 0 <= j < s.len() && s[j] == '.' {
        let f = spec_digits_end(s, j + 1);
        if f == j + 1 {
            None
        } else {
            Some(f)
        }
    } else {
        Some(j)
    }
}

/// The index after an optional exponent part starting at `j`; `None` when an
/// exponent marker stands without digits.
pub open spec fn spec_exp_end(s: Seq<char>, j: int) -> Option<int> {
    if 0 <= j < s.len() && (s[j] == 'e' || s[j] == 'E') {
        let k = if j + 1 < s.len() && (s[j + 1] == '+' || s[j + 1] == '-') {
            j + 2
        } else {
            j + 1
        };
        let e = spec_digits_end(s, k);
        if e == k {
            None
        } else {
            Some(e)
        }
    } else {
        Some(j)
    }
}

/// The index after the number literal starting at `i`, if one stands there:
/// an optional minus sign, digits, an optional fraction, an optional
/// exponent.
pub open spec fn spec_number_end(s: Seq<char>, i: int) -> Option<int> {
    let j0 = if 0 <= i < s.len() && s[i] == '-' {
        i + 1
    } else {
        i
    };
    let j1 = spec_digits_end(s, j0);
    if j1 == j0 {
        None
    } else {
        match spec_frac_end(s, j1) {
            None => None,
            Some(j2) => spec_exp_end(s, j2),
        }
    }
}

/// The decoded characters and end index of the quoted string whose body
/// starts at `j`, with `acc` the characters decoded so far.  Escapes cover
/// the short forms, `\uXXXX`, and surrogate pairs; a lone surrogate fails.
pub open spec fn spec_string_body(s: Seq<char>, j: int, acc: Seq<char>) -> Option<
    (Seq<char>, int),
>
    decreases s.len() - j, 1int,
{
    if !(0 <= j < s.len()) {
        None
    } else if s[j] == '"' {
        Some((acc, j + 1))
    } else if s[j] == '\\' {
        if j + 1 >= s.len() {
            None
        } else {
            let e = s[j + 1];
            if e == '"' || e == '\\' || e == '/' {
                spec_string_body(s, j + 2, acc.push(e))
            } else if e == 'n' {
                spec_string_body(s, j + 2, acc.push('\n'))
            } else if e == 'r' {
                spec_string_body(s, j + 2, acc.push('\r'))
            } else if e == 't' {
                spec_string_body(s, j + 2, acc.push('\t'))
            } else if e == 'b' {
                spec_string_body(s, j + 2, acc.push('\u{0008}'))
            } else if e == 'f' {
                spec_string_body(s, j + 2, acc.push('\u{000C}'))
            } else if e == 'u' {
                if s.len() - j < 6 {
                    None
                } else {
                    match (
                        spec_hex_digit(s[j + 2]),
                        spec_hex_digit(s[j + 3]),
                        spec_hex_digit(s[j + 4]),
                        spec_hex_digit(s[j + 5]),
                    ) {
                        (Some(a), Some(b), Some(c), Some(d)) => {
                            let code = a * 4096 + b * 256 + c * 16 + d;
                            if 0xD800 <= code < 0xDC00 {
                                spec_surrogate_pair(s, j, acc, code as u32)
                            } else if 0xDC00 <= code < 0xE000 {
                                None
                            } else {
                                spec_string_body(s, j + 6, acc.push((code as u32) as char))
                            }
                        },
                        _ => None,
                    }
                }
            } else {
                None
            }
        }
    } else {
        spec_string_body(s, j + 1, acc.push(s[j]))
    }
}

/// Continues a `\uXXXX` escape whose value `hi` is a high surrogate: the
/// next escape must be a low surrogate, and the pair combines into one
/// character above U+FFFF.
pub open spec fn spec_surrogate_pair(s: Seq<char>, j: int, acc: Seq<char>, hi: u32) -> Option<
    (Seq<char>, int),
>
    decreases s.len() - j, 0int,
{
    if s.len() - j < 12 {
        None
    } else if s[j + 6] == '\\' && s[j + 7] == 'u' {
        match (
            spec_hex_digit(s[j + 8]),
            spec_hex_digit(s[j + 9]),
            spec_hex_digit(s[j + 10]),
            spec_hex_digit(s[j + 11]),
        ) {
            (Some(a), Some(b), Some(c), Some(d)) => {
                let lo = a * 4096 + b * 256 + c * 16 + d;
                if 0xDC00 <= lo < 0xE000 {
                    let combined = 0x10000 + (hi - 0xD800) * 0x400 + (lo - 0xDC00);
                    spec_string_body(s, j + 12, acc.push((combined as u32) as char))
                } else {
                    None
                }
            },
            _ => None,
        }
    } else {
        None
    }
}

/// The decoded characters and end index of the quoted string starting at
/// `i`, if one stands there.
pub open spec fn spec_string_at(s: Seq<char>, i: int) -> Option<(Seq<char>, int)> {
    if 0 <= i < s.len() && s[i] == '"' {
        spec_string_body(s, i + 1, Seq::empty())
    } else {
        None
    }
}

/// The index of the first non-whitespace character at or after `i`.
fn skip_ws(chars: &Vec<char>, i: usize) -> (r: usize)
    requires
        i <= chars@.len(),
    ensures
        i <= r <= chars@.len(),
        r as int == spec_skip_ws(chars@, i as int),
{
    let mut j = i;
    while j < chars.len() && (chars[j] == ' ' || chars[j] == '\n' || chars[j] == '\r' || chars[j]
        == '\t')
        invariant
            i <= j <= chars@.len(),
            spec_skip_ws(chars@, i as int) == spec_skip_ws(chars@, j as int),
        decreases chars@.len() - j,
    {
        j += 1;
    }
    j
}

/// The value of a hexadecimal digit, if the character is one.
fn hex_digit(c: char) -> (r: Option<u32>)
    ensures
        r == spec_hex_digit(c),
        r matches Some(d) ==> d < 16,
{
    let n = c as u32;
    if n >= 48 && n <= 57 {
        Some(n - 48)
    } else if n >= 97 && n <= 102 {
        Some(n - 97 + 10)
    } else if n >= 65 && n <= 70 {
        Some(n - 65 + 10)
    } else {
        None
    }
}

/// Parses a quoted string starting at `i`; on success gives the decoded
/// string and the index after the closing quote, exactly as
/// `spec_string_at` gives them.
fn parse_string_at(chars: &Vec<char>, i: usize) -> (r: Option<(String, usize)>)
    requires
        i <= chars@.len(),
    ensures
        r matches Some(p) ==> i < p.1 <= chars@.len() && spec_string_at(chars@, i as int) == Some(
            (p.0@, p.1 as int),
        ),
        r is None ==> spec_string_at(chars@, i as int) is None,
{
    if i >= chars.len() || chars[i] != '"' {
        return None;
    }
    let mut out: Vec<char> = Vec::new();
    let mut j = i + 1;
    loop
        invariant
            i < j <= chars@.len(),
            spec_string_at(chars@, i as int) == spec_string_body(chars@, j as int, out@),
        decreases chars@.len() - j,
    {
        if j >= chars.len() {
            return None;
        }
        let c = chars[j];
        if c == '"' {
            return Some((string_from_chars(&out), j + 1));
        } else if c == '\\' {
            if j + 1 >= chars.len() {
                return None;
            }
            let e = chars[j + 1];
            if e == '"' || e == '\\' || e == '/' {
                out.push(e);
                j += 2;
            } else if e == 'n' {
                out.push('\n');
                j += 2;
            } else if e == 'r' {
                out.push('\r');
                j += 2;
            } else if e == 't' {
                out.push('\t');
                j += 2;
            } else if e == 'b' {
                out.push('\u{0008}');
                j += 2;
            } else if e == 'f' {
                out.push('\u{000C}');
                j += 2;
            } else if e == 'u' {
                if chars.len() - j < 6 {
                    return None;
                }
                let d0 = hex_digit(chars[j + 2]);
                let d1 = hex_digit(chars[j + 3]);
                let d2 = hex_digit(chars[j + 4]);
                let d3 = hex_digit(chars[j + 5]);
                match (d0, d1, d2, d3) {
                    (Some(a), Some(b), Some(c2), Some(d)) => {
                        let code: u32 = a * 4096 + b * 256 + c2 * 16 + d;
                        if code >= 0xD800 && code < 0xDC00 {
                            proof {
                                assert(spec_string_body(chars@, j as int, out@)
                                    == spec_surrogate_pair(chars@, j as int, out@, code));
                            }
                            if chars.len() - j < 12 {
                                return None;
                            }
                            if !(chars[j + 6] == '\\' && chars[j + 7] == 'u') {
                                return None;
                            }
                            let l0 = hex_digit(chars[j + 8]);
                            let l1 = hex_digit(chars[j + 9]);
                            let l2 = hex_digit(chars[j + 10]);
                            let l3 = hex_digit(chars[j + 11]);
                            match (l0, l1, l2, l3) {
                                (Some(a2), Some(b2), Some(c3), Some(d2)) => {
                                    let lo: u32 = a2 * 4096 + b2 * 256 + c3 * 16 + d2;
                                    if !(lo >= 0xDC00 && lo < 0xE000) {
                                        return None;
                                    }
                                    let combined: u32 = 0x10000 + (code - 0xD800) * 0x400 + (lo
                                        - 0xDC00);
                                    match char_from_u32(combined) {
                                        None => {
                                            return None;
                                        },
                                        Some(ch) => {
                                            proof {
                                                assert((combined as char) as u32 == combined);
                                                lemma_char_code_injective(
                                                    ch,
                                                    combined as char,
                                                );
                                            }
                                            out.push(ch);
                                            j += 12;
                                        },
                                    }
                                },
                                _ => {
                                    return None;
                                },
                            }
                        } else if code >= 0xDC00 && code < 0xE000 {
                            return None;
                        } else {
                            match char_from_u32(code) {
                                None => {
                                    return None;
                                },
                                Some(ch) => {
                                    proof {
                                        assert((code as char) as u32 == code);
                                        lemma_char_code_injective(ch, code as char);
                                    }
                                    out.push(ch);
                                    j += 6;
                                },
                            }
                        }
                    },
                    _ => {
                        return None;
                    },
                }
            } else {
                return None;
            }
        } else {
            out.push(c);
            j += 1;
        }
    }
}

/// Parses a number literal starting at `i`; on success gives its raw text —
/// exactly the consumed characters — and the index after it, exactly as
/// `spec_number_end` gives it.
fn parse_number_at(chars: &Vec<char>, i: usize) -> (r: Option<(String, usize)>)
    requires
        i <= chars@.len(),
    ensures
        r matches Some(p) ==> i < p.1 <= chars@.len() && p.0@ == chars@.subrange(
            i as int,
            p.1 as int,
        ) && spec_number_end(chars@, i as int) == Some(p.1 as int),
        r is None ==> spec_number_end(chars@, i as int) is None,
{
    let mut out: Vec<char> = Vec::new();
    let mut j = i;
    assert(out@ =~= chars@.subrange(i as int, j as int));
    if j < chars.len() && chars[j] == '-' {
        out.push(chars[j]);
        j += 1;
        assert(out@ =~= chars@.subrange(i as int, j as int));
    }
    let digits_start = j;
    while j < chars.len() && chars[j] as u32 >= 48 && chars[j] as u32 <= 57
        invariant
            i <= j <= chars@.len(),
            digits_start <= j,
            out@ == chars@.subrange(i as int, j as int),
            spec_digits_end(chars@, digits_start as int) == spec_digits_end(chars@, j as int),
        decreases chars@.len() - j,
    {
        out.push(chars[j]);
        j += 1;
        assert(out@ =~= chars@.subrange(i as int, j as int));
    }
    assert(spec_digits_end(chars@, digits_start as int) == j as int);
    if j == digits_start {
        return None;
    }
    if j < chars.len() && chars[j] == '.' {
        out.push(chars[j]);
        j += 1;
        assert(out@ =~= chars@.subrange(i as int, j as int));
        let frac_start = j;
        while j < chars.len() && chars[j] as u32 >= 48 && chars[j] as u32 <= 57
            invariant
                i < j <= chars@.len(),
                frac_start <= j,
                out@ == chars@.subrange(i as int, j as int),
                spec_digits_end(chars@, frac_start as int) == spec_digits_end(chars@, j as int),
            decreases chars@.len() - j,
        {
            out.push(chars[j]);
            j += 1;
            assert(out@ =~= chars@.subrange(i as int, j as int));
        }
        assert(spec_digits_end(chars@, frac_start as int) == j as int);
        if j == frac_start {
            return None;
        }
    }
    if j < chars.len() && (chars[j] == 'e' || chars[j] == 'E') {
        out.push(chars[j]);
        j += 1;
        assert(out@ =~= chars@.subrange(i as int, j as int));
        if j < chars.len() && (chars[j] == '+' || chars[j] == '-') {
            out.push(chars[j]);
            j += 1;
            assert(out@ =~= chars@.subrange(i as int, j as int));
        }
        let exp_start = j;
        while j < chars.len() && chars[j] as u32 >= 48 && chars[j] as u32 <= 57
            invariant
                i < j <= chars@.len(),
                exp_start <= j,
                out@ == chars@.subrange(i as int, j as int),
                spec_digits_end(chars@, exp_start as int) == spec_digits_end(chars@, j as int),
            decreases chars@.len() - j,
        {
            out.push(chars[j]);
            j += 1;
            assert(out@ =~= chars@.subrange(i as int, j as int));
        }
        assert(spec_digits_end(chars@, exp_start as int) == j as int);
        if j == exp_start {
            return None;
        }
    }
    Some((string_from_chars(&out), j))
}

/// The value and end index of the JSON value starting at `i`, if one stands
/// there.
pub open spec fn spec_value_at(s: Seq<char>, i: int) -> Option<(JsonData, int)>
    decreases s.len() - i, 0int,
{
    if !(0 <= i < s.len()) {
        None
    } else {
        let c = s[i];
        if c == 'n' {
            if i + 4 <= s.len() && s[i + 1] == 'u' && s[i + 2] == 'l' && s[i + 3] == 'l' {
                Some((JsonData::Null, i + 4))
            } else {
                None
            }
        } else if c == 't' {
            if i + 4 <= s.len() && s[i + 1] == 'r' && s[i + 2] == 'u' && s[i + 3] == 'e' {
                Some((JsonData::Bool(true), i + 4))
            } else {
                None
            }
        } else if c == 'f' {
            if i + 5 <= s.len() && s[i + 1] == 'a' && s[i + 2] == 'l' && s[i + 3] == 's' && s[i + 4]
                == 'e' {
                Some((JsonData::Bool(false), i + 5))
            } else {
                None
            }
        } else if c == '"' {
            match spec_string_at(s, i) {
                Some(p) => Some((JsonData::Str(p.0), p.1)),
                None => None,
            }
        } else if c == '[' {
            let j = spec_skip_ws(s, i + 1);
            if j < s.len() && s[j] == ']' {
                Some((JsonData::Arr(Seq::empty()), j + 1))
            } else if i < j <= s.len() {
                spec_elems(s, j, Seq::empty())
            } else {
                None
            }
        } else if c == '{' {
            let j = spec_skip_ws(s, i + 1);
            if j < s.len() && s[j] == '}' {
                Some((JsonData::Obj(Seq::empty()), j + 1))
            } else if i < j <= s.len() {
                spec_fields(s, j, Seq::empty())
            } else {
                None
            }
        } else {
            match spec_number_end(s, i) {
                Some(end) => Some((JsonData::Num(s.subrange(i, end)), end)),
                None => None,
            }
        }
    }
}

/// The array value whose next element starts at `j`, with `acc` the elements
/// parsed so far, up to and including the closing bracket.  The index bounds
/// in the guards can never fail on real positions; they make the recursion
/// well-founded.
pub open spec fn spec_elems(s: Seq<char>, j: int, acc: Seq<JsonData>) -> Option<(JsonData, int)>
    decreases s.len() - j, 1int,
{
    match spec_value_at(s, j) {
        None => None,
        Some(p) => {
            let m = spec_skip_ws(s, p.1);
            if m < s.len() && s[m] == ',' {
                let m2 = spec_skip_ws(s, m + 1);
                if j < m2 <= s.len() {
                    spec_elems(s, m2, acc.push(p.0))
                } else {
                    None
                }
            } else if m < s.len() && s[m] == ']' {
                Some((JsonData::Arr(acc.push(p.0)), m + 1))
            } else {
                None
            }
        },
    }
}

/// The object value whose next field starts at `j`, with `acc` the fields
/// parsed so far, up to and including the closing brace.  The index bounds
/// in the guards can never fail on real positions; they make the recursion
/// well-founded.
pub open spec fn spec_fields(s: Seq<char>, j: int, acc: Seq<(Seq<char>, JsonData)>) -> Option<
    (JsonData, int),
>
    decreases s.len() - j, 1int,
{
    match spec_string_at(s, j) {
        None => None,
        Some(kp) => {
            let m = spec_skip_ws(s, kp.1);
            if !(m < s.len() && s[m] == ':') {
                None
            } else {
                let m2 = spec_skip_ws(s, m + 1);
                if m2 < j || m2 > s.len() {
                    None
                } else {
                    match spec_value_at(s, m2) {
                        None => None,
                        Some(vp) => {
                            let m3 = spec_skip_ws(s, vp.1);
                            if m3 < s.len() && s[m3] == ',' {
                                let m4 = spec_skip_ws(s, m3 + 1);
                                if j < m4 <= s.len() {
                                    spec_fields(s, m4, acc.push((kp.0, vp.0)))
                                } else {
                                    None
                                }
                            } else if m3 < s.len() && s[m3] == '}' {
                                Some((JsonData::Obj(acc.push((kp.0, vp.0))), m3 + 1))
                            } else {
                                None
                            }
                        },
                    }
                }
            }
        },
    }
}

/// The value of a complete JSON document: one value, surrounded only by
/// whitespace.
pub open spec fn spec_parse_doc(text: Seq<char>) -> Option<JsonData> {
    let start = spec_skip_ws(text, 0);
    match spec_value_at(text, start) {
        None => None,
        Some(p) => if spec_skip_ws(text, p.1) == text.len() {
            Some(p.0)
        } else {
            None
        },
    }
}

/// Pushing one element onto an array's vector pushes its model onto the
/// array's model.
pub proof fn lemma_items_view_push(items: Seq<JsonValue>, v: JsonValue)
    ensures
        items_view(items.push(v)) == items_view(items).push(v@),
{
    lemma_items_view(items.push(v));
    lemma_items_view(items);
    assert forall|j: int| 0 <= j < items.len() + 1 implies items_view(items.push(v))[j]
        == items_view(items).push(v@)[j] by {
        assert(items_view(items.push(v))[j] == items.push(v)[j]@);
        if j < items.len() {
            assert(items.push(v)[j] == items[j]);
        } else {
            assert(items.push(v)[j] == v);
        }
    }
    assert(items_view(items.push(v)) =~= items_view(items).push(v@));
}

/// Pushing one field onto an object's vector pushes its model onto the
/// object's model.
pub proof fn lemma_fields_view_push(fields: Seq<(String, JsonValue)>, kv: (String, JsonValue))
    ensures
        fields_view(fields.push(kv)) == fields_view(fields).push((kv.0@, kv.1@)),
{
    lemma_fields_view(fields.push(kv));
    lemma_fields_view(fields);
    assert forall|j: int| 0 <= j < fields.len() + 1 implies fields_view(fields.push(kv))[j]
        == fields_view(fields).push((kv.0@, kv.1@))[j] by {
        assert(fields_view(fields.push(kv))[j] == (fields.push(kv)[j].0@, fields.push(kv)[j].1@));
        if j < fields.len() {
            assert(fields.push(kv)[j] == fields[j]);
        } else {
            assert(fields.push(kv)[j] == kv);
        }
    }
    assert(fields_view(fields.push(kv)) =~= fields_view(fields).push((kv.0@, kv.1@)));
}

/// Parses one JSON value starting at `i`; on success gives the value and the
/// index after it, exactly as `spec_value_at` gives them.
fn parse_value(chars: &Vec<char>, i: usize) -> (r: Option<(JsonValue, usize)>)
    requires
        i <= chars@.len(),
    ensures
        r matches Some(p) ==> i < p.1 <= chars@.len() && spec_value_at(chars@, i as int) == Some(
            (p.0@, p.1 as int),
        ),
        r is None ==> spec_value_at(chars@, i as int) is None,
    decreases chars@.len() - i,
{
    if i >= chars.len() {
        return None;
    }
    let c = chars[i];
    if c == 'n' {
        if chars.len() - i >= 4 && chars[i + 1] == 'u' && chars[i + 2] == 'l' && chars[i + 3]
            == 'l' {
            Some((JsonValue::Null, i + 4))
        } else {
            None
        }
    } else if c == 't' {
        if chars.len() - i >= 4 && chars[i + 1] == 'r' && chars[i + 2] == 'u' && chars[i + 3]
            == 'e' {
            Some((JsonValue::Bool(true), i + 4))
        } else {
            None
        }
    } else if c == 'f' {
        if chars.len() - i >= 5 && chars[i + 1] == 'a' && chars[i + 2] == 'l' && chars[i + 3] == 's'
            && chars[i + 4] == 'e' {
            Some((JsonValue::Bool(false), i + 5))
        } else {
            None
        }
    } else if c == '"' {
        match parse_string_at(chars, i) {
            None => None,
            Some((s, j)) => Some((JsonValue::Str(s), j)),
        }
    } else if c == '[' {
        let mut items: Vec<JsonValue> = Vec::new();
        let mut j = skip_ws(chars, i + 1);
        if j < chars.len() && chars[j] == ']' {
            assert((JsonValue::Arr(items))@ == JsonData::Arr(Seq::empty()));
            return Some((JsonValue::Arr(items), j + 1));
        }
        assert(spec_value_at(chars@, i as int) == spec_elems(chars@, j as int, Seq::empty()));
        assert(items_view(items@) == Seq::<JsonData>::empty());
        loop
            invariant
                i < j <= chars@.len(),
                spec_value_at(chars@, i as int) == spec_elems(chars@, j as int, items_view(
                    items@,
                )),
            decreases chars@.len() - j,
        {
            let ghost j0 = j as int;
            let ghost acc0 = items_view(items@);
            let v;
            let k;
            match parse_value(chars, j) {
                None => {
                    return None;
                },
                Some(p) => {
                    v = p.0;
                    k = p.1;
                },
            }
            proof {
                lemma_items_view_push(items@, v);
            }
            items.push(v);
            let m = skip_ws(chars, k);
            if m < chars.len() && chars[m] == ',' {
                j = skip_ws(chars, m + 1);
                assert(spec_elems(chars@, j0, acc0) == spec_elems(chars@, j as int, items_view(
                    items@,
                )));
            } else if m < chars.len() && chars[m] == ']' {
                assert((JsonValue::Arr(items))@ == JsonData::Arr(acc0.push(v@)));
                return Some((JsonValue::Arr(items), m + 1));
            } else {
                return None;
            }
        }
    } else if c == '{' {
        let mut fields: Vec<(String, JsonValue)> = Vec::new();
        let mut j = skip_ws(chars, i + 1);
        if j < chars.len() && chars[j] == '}' {
            assert((JsonValue::Obj(fields))@ == JsonData::Obj(Seq::empty()));
            return Some((JsonValue::Obj(fields), j + 1));
        }
        assert(spec_value_at(chars@, i as int) == spec_fields(chars@, j as int, Seq::empty()));
        assert(fields_view(fields@) == Seq::<(Seq<char>, JsonData)>::empty());
        loop
            invariant
                i < j <= chars@.len(),
                spec_value_at(chars@, i as int) == spec_fields(chars@, j as int, fields_view(
                    fields@,
                )),
            decreases chars@.len() - j,
        {
            let ghost j0 = j as int;
            let ghost acc0 = fields_view(fields@);
            let key;
            let kk;
            match parse_string_at(chars, j) {
                None => {
                    return None;
                },
                Some((s, k)) => {
                    key = s;
                    kk = k;
                },
            }
            let m = skip_ws(chars, kk);
            if m >= chars.len() || chars[m] != ':' {
                return None;
            }
            let m2 = skip_ws(chars, m + 1);
            let v;
            let k2;
            match parse_value(chars, m2) {
                None => {
                    return None;
                },
                Some(p) => {
                    v = p.0;
                    k2 = p.1;
                },
            }
            proof {
                lemma_fields_view_push(fields@, (key, v));
            }
            let ghost keyv = key@;
            fields.push((key, v));
            let m3 = skip_ws(chars, k2);
            if m3 < chars.len() && chars[m3] == ',' {
                j = skip_ws(chars, m3 + 1);
                assert(spec_fields(chars@, j0, acc0) == spec_fields(chars@, j as int, fields_view(
                    fields@,
                )));
            } else if m3 < chars.len() && chars[m3] == '}' {
                assert((JsonValue::Obj(fields))@ == JsonData::Obj(acc0.push((keyv, v@))));
                return Some((JsonValue::Obj(fields), m3 + 1));
            } else {
                return None;
            }
        }
    } else {
        match parse_number_at(chars, i) {
            None => None,
            Some((s, j)) => Some((JsonValue::Num(s), j)),
        }
    }
}

/// Parses a complete JSON document: one value, surrounded only by
/// whitespace, exactly as `spec_parse_doc` gives it.
pub fn parse_json(text: &str) -> (r: Option<JsonValue>)
    ensures
        r matches Some(v) ==> spec_parse_doc(text@) == Some(v@),
        r is None ==> spec_parse_doc(text@) is None,
{
    let chars = chars_of(text);
    let start = skip_ws(&chars, 0);
    match parse_value(&chars, start) {
        None => None,
        Some((v, j)) => {
            let end = skip_ws(&chars, j);
            if end == chars.len() {
                Some(v)
            } else {
                None
            }
        },
    }
}

/// The serialized text of `v`, as a string.
pub fn to_json_text(v: &JsonValue) -> (s: String)
    ensures
        s@ == json_text(v@),
{
    let mut out: Vec<char> = Vec::new();
    write_json(v, &mut out);
    string_from_chars(&out)
}

impl Clone for JsonValue {
    /// A deep copy with the same model as the original.
    fn clone(&self) -> (r: Self)
        ensures
            r@ == self@,
        decreases *self,
    {
        match self {
            JsonValue::Null => JsonValue::Null,
            JsonValue::Bool(b) => JsonValue::Bool(*b),
            JsonValue::Num(s) => JsonValue::Num(s.clone()),
            JsonValue::Str(s) => JsonValue::Str(s.clone()),
            JsonValue::Arr(items) => JsonValue::Arr(clone_items(items)),
            JsonValue::Obj(fields) => JsonValue::Obj(clone_fields(fields)),
        }
    }
}

} // verus!
