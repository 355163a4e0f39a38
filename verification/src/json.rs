//! The JSON value model of the pipeline. Parsing is delegated to serde_json
//! behind a trusted wrapper; the one-line serialization the outputs write is
//! implemented here and verified against an exact byte-level specification.
//! A floating-point number is carried as its decimal text, so the model holds
//! plain values only.

use vstd::prelude::*;
use vstd::string::*;
use vstd::utf8::encode_utf8;

use crate::num_text::dec_digits;
use serde_json::Value;

verus! {

/// A JSON number: a signed integer, an unsigned integer too large for `i64`,
/// or any other number carried as its decimal text.
#[derive(Debug)]
pub enum JsonNum {
    Int(i64),
    UInt(u64),
    Float(String),
}

/// A JSON document. Object fields are an ordered list; lookups read the
/// first match. In documents produced by the parser a key occurs at most
/// once and the fields arrive sorted by key (serde_json's map orders them);
/// fields set later keep their position or append at the end.
#[derive(Debug)]
pub enum JsonData {
    Null,
    Bool(bool),
    Num(JsonNum),
    Str(String),
    Arr(Vec<JsonData>),
    Obj(Vec<(String, JsonData)>),
}

/// The parse of `s` as JSON, exactly as serde_json reads it, with numbers
/// outside `i64`/`u64` range kept as their shortest round-trip decimal text:
/// a function of the text alone, named here and never spelled out.
pub uninterp spec fn json_of(s: Seq<char>) -> Option<JsonData>;

/// Declares serde_json's document type so that the converter below can take
/// a reference to it; the library never looks inside such a value.
#[verifier::external_type_specification]
#[verifier::external_body]
pub struct ExSerdeValue(serde_json::Value);

/// Relies on `serde_json::from_str::<serde_json::Value>`: returns the parsed
/// document, or `None` exactly when the text is not valid JSON.
#[verifier::external_body]
pub fn parse_json(s: &str) -> (r: Option<JsonData>)
    ensures
        r == json_of(s@),
{
    serde_json::from_str::<Value>(s).ok().map(|v| convert_json_value(&v))
}

/// Relies on the accessors of `serde_json::Value` and `serde_json::Number`:
/// converts each node one for one into the model; a number is an `i64` when
/// it fits, else a `u64` when it fits, else its decimal text.
#[verifier::external_body]
fn convert_json_value(v: &Value) -> JsonData {
    match v {
        Value::Null => JsonData::Null,
        Value::Bool(b) => JsonData::Bool(*b),
        Value::Number(n) => JsonData::Num(match (n.as_i64(), n.as_u64()) {
            (Some(i), _) => JsonNum::Int(i),
            (None, Some(u)) => JsonNum::UInt(u),
            _ => JsonNum::Float(n.to_string()),
        }),
        Value::String(s) => JsonData::Str(s.clone()),
        Value::Array(a) => JsonData::Arr(a.iter().map(convert_json_value).collect()),
        Value::Object(o) => JsonData::Obj(o.iter().map(|(k, x)| (k.clone(), convert_json_value(x))).collect()),
    }
}

// ------------------------------------------------------------------
// object field access
// ------------------------------------------------------------------
/// The index of the first field named `key`, or the length if there is none.
pub open spec fn obj_index_of(fields: Seq<(String, JsonData)>, key: Seq<char>) -> int
    decreases fields.len(),
{
    if fields.len() == 0 {
        0
    } else if fields[0].0@ == key {
        0
    } else {
        1 + obj_index_of(fields.drop_first(), key)
    }
}

/// The value of the first field named `key`, if any.
pub open spec fn obj_get_spec(fields: Seq<(String, JsonData)>, key: Seq<char>) -> Option<JsonData> {
    if obj_index_of(fields, key) < fields.len() {
        Some(fields[obj_index_of(fields, key)].1)
    } else {
        None
    }
}

/// `fields` after setting `key` to `value`: the first field of that name is
/// replaced in place, or a new field is appended at the end.
pub open spec fn obj_set_spec(
    fields: Seq<(String, JsonData)>,
    key: String,
    value: JsonData,
) -> Seq<(String, JsonData)> {
    let i = obj_index_of(fields, key@);
    if i < fields.len() {
        fields.update(i, (fields[i].0, value))
    } else {
        fields.push((key, value))
    }
}

/// `fields` without its first field named `key`.
pub open spec fn obj_remove_spec(fields: Seq<(String, JsonData)>, key: Seq<char>) -> Seq<
    (String, JsonData),
> {
    let i = obj_index_of(fields, key);
    if i < fields.len() {
        fields.subrange(0, i) + fields.subrange(i + 1, fields.len() as int)
    } else {
        fields
    }
}

pub proof fn lemma_obj_index_of_bounds(fields: Seq<(String, JsonData)>, key: Seq<char>)
    ensures
        0 <= obj_index_of(fields, key) <= fields.len(),
        obj_index_of(fields, key) < fields.len() ==> fields[obj_index_of(fields, key)].0@ == key,
        forall|j: int|
            0 <= j < obj_index_of(fields, key) ==> #[trigger] fields[j].0@ != key,
    decreases fields.len(),
{
    if fields.len() > 0 && fields[0].0@ != key {
        lemma_obj_index_of_bounds(fields.drop_first(), key);
        assert(forall|j: int|
            1 <= j < obj_index_of(fields, key) ==> fields[j] == fields.drop_first()[j - 1]);
    }
}

/// Finds the index of the first field named `key`.
fn obj_find(fields: &Vec<(String, JsonData)>, key: &str) -> (r: usize)
    ensures
        r == obj_index_of(fields@, key@),
    decreases fields@.len(),
{
    proof {
        lemma_obj_index_of_bounds(fields@, key@);
    }
    let n = fields.len();
    let mut i: usize = 0;
    while i < n
        invariant
            n == fields@.len(),
            0 <= i <= n,
            forall|j: int| 0 <= j < i ==> #[trigger] fields@[j].0@ != key@,
            obj_index_of(fields@, key@) >= i,
        decreases n - i,
    {
        if crate::text::str_eq(fields[i].0.as_str(), key) {
            proof {
                lemma_obj_index_of_prefix(fields@, key@, i as int);
            }
            return i;
        }
        i = i + 1;
        proof {
            lemma_obj_index_of_skip(fields@, key@, i as int);
        }
    }
    i
}

/// If every field before `i` misses `key` and field `i` matches, the first
/// match is at `i`.
proof fn lemma_obj_index_of_prefix(fields: Seq<(String, JsonData)>, key: Seq<char>, i: int)
    requires
        0 <= i < fields.len(),
        fields[i].0@ == key,
        forall|j: int| 0 <= j < i ==> #[trigger] fields[j].0@ != key,
    ensures
        obj_index_of(fields, key) == i,
    decreases i,
{
    if i > 0 {
        lemma_obj_index_of_prefix(fields.drop_first(), key, i - 1);
    }
}

/// If every field before `i` misses `key`, the first match is at `i` or
/// later.
proof fn lemma_obj_index_of_skip(fields: Seq<(String, JsonData)>, key: Seq<char>, i: int)
    requires
        0 <= i <= fields.len(),
        forall|j: int| 0 <= j < i ==> #[trigger] fields[j].0@ != key,
    ensures
        obj_index_of(fields, key) >= i,
    decreases i,
{
    lemma_obj_index_of_bounds(fields, key);
    if i > 0 && fields.len() > 0 {
        assert(fields[0].0@ != key);
        assert forall|j: int| 0 <= j < i - 1 implies #[trigger] fields.drop_first()[j].0@
            != key by {
            assert(fields.drop_first()[j] == fields[j + 1]);
            assert(fields[j + 1].0@ != key);
        };
        lemma_obj_index_of_skip(fields.drop_first(), key, i - 1);
        assert(obj_index_of(fields, key) == 1 + obj_index_of(fields.drop_first(), key));
    }
}

/// Whether the object has a field named `key`.
pub fn obj_contains_key(fields: &Vec<(String, JsonData)>, key: &str) -> (r: bool)
    ensures
        r == (obj_get_spec(fields@, key@) is Some),
{
    proof {
        lemma_obj_index_of_bounds(fields@, key@);
    }
    obj_find(fields, key) < fields.len()
}

/// A reference to the value of the first field named `key`, if any.
pub fn obj_get<'a>(fields: &'a Vec<(String, JsonData)>, key: &str) -> (r: Option<&'a JsonData>)
    ensures
        match r {
            Some(v) => obj_get_spec(fields@, key@) == Some(*v),
            None => obj_get_spec(fields@, key@) is None,
        },
{
    proof {
        lemma_obj_index_of_bounds(fields@, key@);
    }
    let i = obj_find(fields, key);
    if i < fields.len() {
        Some(&fields[i].1)
    } else {
        None
    }
}

/// Sets `key` to `value`: replaces the first field of that name, or appends
/// a new one.
pub fn obj_set(fields: &mut Vec<(String, JsonData)>, key: String, value: JsonData)
    ensures
        final(fields)@ == obj_set_spec(old(fields)@, key, value),
{
    proof {
        lemma_obj_index_of_bounds(fields@, key@);
    }
    let i = obj_find(fields, key.as_str());
    if i < fields.len() {
        let k = fields[i].0.clone();
        fields.set(i, (k, value));
    } else {
        fields.push((key, value));
    }
}

/// Removes the first field named `key`, returning its value.
pub fn obj_remove(fields: &mut Vec<(String, JsonData)>, key: &str) -> (r: Option<JsonData>)
    ensures
        final(fields)@ == obj_remove_spec(old(fields)@, key@),
        r is Some <==> obj_get_spec(old(fields)@, key@) is Some,
        r matches Some(v) ==> obj_get_spec(old(fields)@, key@) == Some(v),
    decreases fields@.len(),
{
    proof {
        lemma_obj_index_of_bounds(fields@, key@);
    }
    let i = obj_find(fields, key);
    if i < fields.len() {
        let (_k, v) = fields.remove(i);
        Some(v)
    } else {
        None
    }
}

// ------------------------------------------------------------------
// the view of an object's fields, with keys as character sequences
// ------------------------------------------------------------------
/// The fields with each key read as its characters. Contracts that insert
/// keys built at run time are stated over this view.
pub open spec fn fields_view<V>(fields: Seq<(String, V)>) -> Seq<(Seq<char>, V)> {
    fields.map_values(|p: (String, V)| (p.0@, p.1))
}

/// The index of the first field named `key` in a viewed field list, or the
/// length if there is none.
pub open spec fn vindex_of<V>(fields: Seq<(Seq<char>, V)>, key: Seq<char>) -> int
    decreases fields.len(),
{
    if fields.len() == 0 {
        0
    } else if fields[0].0 == key {
        0
    } else {
        1 + vindex_of(fields.drop_first(), key)
    }
}

/// The value of the first field named `key` in a viewed field list.
pub open spec fn vget<V>(fields: Seq<(Seq<char>, V)>, key: Seq<char>) -> Option<V> {
    if vindex_of(fields, key) < fields.len() {
        Some(fields[vindex_of(fields, key)].1)
    } else {
        None
    }
}

/// A viewed field list after setting `key` to `value`: replaced in place,
/// or appended.
pub open spec fn vset<V>(fields: Seq<(Seq<char>, V)>, key: Seq<char>, value: V) -> Seq<
    (Seq<char>, V),
> {
    let i = vindex_of(fields, key);
    if i < fields.len() {
        fields.update(i, (key, value))
    } else {
        fields.push((key, value))
    }
}

/// A viewed field list without its first field named `key`.
pub open spec fn vremove<V>(fields: Seq<(Seq<char>, V)>, key: Seq<char>) -> Seq<(Seq<char>, V)> {
    let i = vindex_of(fields, key);
    if i < fields.len() {
        fields.subrange(0, i) + fields.subrange(i + 1, fields.len() as int)
    } else {
        fields
    }
}

/// The viewed lookup agrees with the value-level lookup.
pub proof fn lemma_view_index(fields: Seq<(String, JsonData)>, key: Seq<char>)
    ensures
        vindex_of(fields_view(fields), key) == obj_index_of(fields, key),
        fields_view(fields).len() == fields.len(),
    decreases fields.len(),
{
    if fields.len() > 0 {
        assert(fields_view(fields)[0] == (fields[0].0@, fields[0].1));
        if fields[0].0@ != key {
            lemma_view_index(fields.drop_first(), key);
            assert(fields_view(fields).drop_first() =~= fields_view(fields.drop_first()));
        }
    }
}

/// Setting a field commutes with taking the view.
pub proof fn lemma_view_set(fields: Seq<(String, JsonData)>, key: String, value: JsonData)
    ensures
        fields_view(obj_set_spec(fields, key, value)) =~= vset(fields_view(fields), key@, value),
{
    lemma_view_index(fields, key@);
    lemma_obj_index_of_bounds(fields, key@);
    let i = obj_index_of(fields, key@);
    if i < fields.len() {
        assert(fields[i].0@ == key@);
        assert(fields_view(obj_set_spec(fields, key, value))[i] == (fields[i].0@, value));
    }
}

/// Removing a field commutes with taking the view.
pub proof fn lemma_view_remove(fields: Seq<(String, JsonData)>, key: Seq<char>)
    ensures
        fields_view(obj_remove_spec(fields, key)) =~= vremove(fields_view(fields), key),
{
    lemma_view_index(fields, key);
    lemma_obj_index_of_bounds(fields, key);
}

// ------------------------------------------------------------------
// serialization
// ------------------------------------------------------------------
/// The escape of one byte inside a JSON string literal, exactly as
/// serde_json writes it: `"` and `\` get a backslash, the five control
/// characters with short forms use them, any other control character becomes
/// `\u00` and two lowercase hex digits, and everything else stands as is.
pub open spec fn escape_byte(b: u8) -> Seq<u8> {
    if b == 34 {
        seq![92u8, 34u8]
    } else if b == 92 {
        seq![92u8, 92u8]
    } else if b == 8 {
        seq![92u8, 98u8]
    } else if b == 9 {
        seq![92u8, 116u8]
    } else if b == 10 {
        seq![92u8, 110u8]
    } else if b == 12 {
        seq![92u8, 102u8]
    } else if b == 13 {
        seq![92u8, 114u8]
    } else if b < 32 {
        seq![92u8, 117u8, 48u8, 48u8, hex_digit((b / 16) as nat), hex_digit((b % 16) as nat)]
    } else {
        seq![b]
    }
}

/// The lowercase hex digit for `0..16`.
pub open spec fn hex_digit(n: nat) -> u8 {
    if n < 10 {
        (48 + n) as u8
    } else {
        (87 + n) as u8
    }
}

/// The escaped form of a whole string body.
pub open spec fn escape_bytes(s: Seq<u8>) -> Seq<u8>
    decreases s.len(),
{
    if s.len() == 0 {
        Seq::empty()
    } else {
        escape_bytes(s.drop_last()) + escape_byte(s.last())
    }
}

/// The decimal text of a JSON number.
pub open spec fn num_bytes(n: JsonNum) -> Seq<u8> {
    match n {
        JsonNum::Int(i) => if i >= 0 {
            dec_digits(i as nat)
        } else {
            seq![45u8] + dec_digits((-(i as int)) as nat)
        },
        JsonNum::UInt(u) => dec_digits(u as nat),
        JsonNum::Float(f) => encode_utf8(f@),
    }
}

/// The compact (one-line, no spaces) serialization of a document, as
/// serde_json writes it.
pub open spec fn json_bytes(d: JsonData) -> Seq<u8>
    decreases d,
{
    match d {
        JsonData::Null => seq![110u8, 117u8, 108u8, 108u8],
        JsonData::Bool(b) => if b {
            seq![116u8, 114u8, 117u8, 101u8]
        } else {
            seq![102u8, 97u8, 108u8, 115u8, 101u8]
        },
        JsonData::Num(n) => num_bytes(n),
        JsonData::Str(s) => seq![34u8] + escape_bytes(encode_utf8(s@)) + seq![34u8],
        JsonData::Arr(items) => seq![91u8] + arr_bytes(items@) + seq![93u8],
        JsonData::Obj(fields) => seq![123u8] + obj_bytes(fields@) + seq![125u8],
    }
}

/// The comma-separated serializations of array items.
pub open spec fn arr_bytes(items: Seq<JsonData>) -> Seq<u8>
    decreases items,
{
    if items.len() == 0 {
        Seq::empty()
    } else {
        arr_bytes(items.drop_last()) + (if items.len() > 1 {
            seq![44u8]
        } else {
            Seq::empty()
        }) + json_bytes(items.last())
    }
}

/// The comma-separated serializations of object fields.
pub open spec fn obj_bytes(fields: Seq<(String, JsonData)>) -> Seq<u8>
    decreases fields,
{
    if fields.len() == 0 {
        Seq::empty()
    } else {
        obj_bytes(fields.drop_last()) + (if fields.len() > 1 {
            seq![44u8]
        } else {
            Seq::empty()
        }) + seq![34u8] + escape_bytes(encode_utf8(fields.last().0@)) + seq![34u8, 58u8]
            + json_bytes(fields.last().1)
    }
}

/// Appends the bytes of `src` to `out`.
fn push_bytes(out: &mut Vec<u8>, src: &Vec<u8>)
    ensures
        final(out)@ == old(out)@ + src@,
{
    let mut i: usize = 0;
    while i < src.len()
        invariant
            i <= src@.len(),
            out@ == old(out)@ + src@.subrange(0, i as int),
        decreases src@.len() - i,
    {
        let b = src[i];
        out.push(b);
        i = i + 1;
        proof {
            assert(out@ =~= old(out)@ + src@.subrange(0, i as int));
        }
    }
    proof {
        assert(out@ =~= old(out)@ + src@);
    }
}

/// Appends the escaped body of `s` to `out`.
fn write_escaped(s: &str, out: &mut Vec<u8>)
    ensures
        final(out)@ == old(out)@ + escape_bytes(encode_utf8(s@)),
{
    let bytes = s.as_bytes_vec();
    let mut i: usize = 0;
    while i < bytes.len()
        invariant
            i <= bytes@.len(),
            bytes@ == encode_utf8(s@),
            out@ == old(out)@ + escape_bytes(bytes@.subrange(0, i as int)),
        decreases bytes@.len() - i,
    {
        let ghost pre = bytes@.subrange(0, i as int);
        let b = bytes[i];
        if b == 34 {
            out.push(92);
            out.push(34);
        } else if b == 92 {
            out.push(92);
            out.push(92);
        } else if b == 8 {
            out.push(92);
            out.push(98);
        } else if b == 9 {
            out.push(92);
            out.push(116);
        } else if b == 10 {
            out.push(92);
            out.push(110);
        } else if b == 12 {
            out.push(92);
            out.push(102);
        } else if b == 13 {
            out.push(92);
            out.push(114);
        } else if b < 32 {
            out.push(92);
            out.push(117);
            out.push(48);
            out.push(48);
            let hi = b / 16;
            let lo = b % 16;
            out.push(
                if hi < 10 {
                    48 + hi
                } else {
                    87 + hi
                },
            );
            out.push(
                if lo < 10 {
                    48 + lo
                } else {
                    87 + lo
                },
            );
        } else {
            out.push(b);
        }
        i = i + 1;
        proof {
            assert(bytes@.subrange(0, i as int).drop_last() =~= pre);
            assert(bytes@.subrange(0, i as int).last() == b);
            assert(escape_bytes(bytes@.subrange(0, i as int)) =~= escape_bytes(pre) + escape_byte(
                b,
            ));
            assert(out@ =~= old(out)@ + escape_bytes(bytes@.subrange(0, i as int)));
        }
    }
    proof {
        assert(bytes@.subrange(0, bytes@.len() as int) =~= bytes@);
    }
}

/// Appends the decimal text of a number to `out`.
fn write_num(n: &JsonNum, out: &mut Vec<u8>)
    ensures
        final(out)@ == old(out)@ + num_bytes(*n),
{
    match n {
        JsonNum::Int(i) => {
            let digits = crate::num_text::i64_to_dec_bytes(*i);
            push_bytes(out, &digits);
        },
        JsonNum::UInt(u) => {
            let digits = crate::num_text::u64_to_dec_bytes(*u);
            push_bytes(out, &digits);
        },
        JsonNum::Float(f) => {
            let bytes = f.as_str().as_bytes_vec();
            push_bytes(out, &bytes);
        },
    }
}

/// Appends the compact serialization of `d` to `out`.
#[verifier::loop_isolation(false)]
#[verifier::rlimit(60)]
pub fn write_json(d: &JsonData, out: &mut Vec<u8>)
    ensures
        final(out)@ == old(out)@ + json_bytes(*d),
    decreases *d,
{
    match d {
        JsonData::Null => {
            out.push(110);
            out.push(117);
            out.push(108);
            out.push(108);
            proof {
                assert(out@ =~= old(out)@ + json_bytes(*d));
            }
        },
        JsonData::Bool(b) => {
            if *b {
                out.push(116);
                out.push(114);
                out.push(117);
                out.push(101);
            } else {
                out.push(102);
                out.push(97);
                out.push(108);
                out.push(115);
                out.push(101);
            }
            proof {
                assert(out@ =~= old(out)@ + json_bytes(*d));
            }
        },
        JsonData::Num(n) => {
            write_num(n, out);
        },
        JsonData::Str(s) => {
            out.push(34);
            write_escaped(s.as_str(), out);
            out.push(34);
            proof {
                assert(out@ =~= old(out)@ + json_bytes(*d));
            }
        },
        JsonData::Arr(items) => {
            out.push(91);
            let n = items.len();
            let mut i: usize = 0;
            while i < n
                invariant
                    n == items@.len(),
                    i <= n,
                    out@ == old(out)@ + seq![91u8] + arr_bytes(items@.subrange(0, i as int)),
                    forall|j: int| 0 <= j < n ==> #[trigger] items@[j] == items@.subrange(0, n as int)[j],
                decreases n - i,
            {
                let ghost pre = items@.subrange(0, i as int);
                if i > 0 {
                    out.push(44);
                }
                proof {
                    assert(decreases_to!(*d => d->Arr_0));
                    assert(decreases_to!(d->Arr_0 => d->Arr_0@));
                    assert(decreases_to!(d->Arr_0@ => d->Arr_0@[i as int]));
                    assert(decreases_to!(*d => items@[i as int]));
                }
                write_json(&items[i], out);
                i = i + 1;
                proof {
                    assert(items@.subrange(0, i as int).drop_last() =~= pre);
                    assert(items@.subrange(0, i as int).last() == items@[i - 1]);
                    assert(out@ =~= old(out)@ + seq![91u8] + arr_bytes(
                        items@.subrange(0, i as int),
                    ));
                }
            }
            out.push(93);
            proof {
                assert(items@.subrange(0, n as int) =~= items@);
                assert(out@ =~= old(out)@ + json_bytes(*d));
            }
        },
        JsonData::Obj(fields) => {
            out.push(123);
            let n = fields.len();
            let mut i: usize = 0;
            while i < n
                invariant
                    n == fields@.len(),
                    i <= n,
                    out@ == old(out)@ + seq![123u8] + obj_bytes(fields@.subrange(0, i as int)),
                decreases n - i,
            {
                let ghost pre = fields@.subrange(0, i as int);
                if i > 0 {
                    out.push(44);
                }
                out.push(34);
                write_escaped(fields[i].0.as_str(), out);
                out.push(34);
                out.push(58);
                proof {
                    assert(decreases_to!(*d => d->Obj_0));
                    assert(decreases_to!(d->Obj_0 => d->Obj_0@));
                    assert(decreases_to!(d->Obj_0@ => d->Obj_0@[i as int]));
                    assert(decreases_to!(d->Obj_0@[i as int] => d->Obj_0@[i as int].1));
                    assert(decreases_to!(*d => fields@[i as int].1));
                }
                write_json(&fields[i].1, out);
                i = i + 1;
                proof {
                    assert(fields@.subrange(0, i as int).drop_last() =~= pre);
                    assert(fields@.subrange(0, i as int).last() == fields@[i - 1]);
                    assert(out@ =~= old(out)@ + seq![123u8] + obj_bytes(
                        fields@.subrange(0, i as int),
                    ));
                }
            }
            out.push(125);
            proof {
                assert(fields@.subrange(0, n as int) =~= fields@);
                assert(out@ =~= old(out)@ + json_bytes(*d));
            }
        },
    }
}

/// An owned copy of a scalar document node. The containers are never copied
/// by the pipeline, so only the scalar cases are needed.
pub fn clone_scalar(d: &JsonData) -> (r: JsonData)
    requires
        !(d is Arr),
        !(d is Obj),
    ensures
        r == *d,
{
    match d {
        JsonData::Null => JsonData::Null,
        JsonData::Bool(b) => JsonData::Bool(*b),
        JsonData::Num(n) => JsonData::Num(
            match n {
                JsonNum::Int(i) => JsonNum::Int(*i),
                JsonNum::UInt(u) => JsonNum::UInt(*u),
                JsonNum::Float(f) => JsonNum::Float(f.clone()),
            },
        ),
        JsonData::Str(s) => JsonData::Str(s.clone()),
        _ => JsonData::Null,
    }
}

/// The compact serialization of `d` as a fresh buffer.
pub fn to_json_bytes(d: &JsonData) -> (r: Vec<u8>)
    ensures
        r@ == json_bytes(*d),
{
    let mut out: Vec<u8> = Vec::new();
    write_json(d, &mut out);
    proof {
        assert(out@ =~= json_bytes(*d));
    }
    out
}

} // verus!
