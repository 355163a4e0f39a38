//! The stateless transforms of a route: the field injector, the timestamp
//! injector, and the key-value parser. Each takes one event and produces at
//! most one, never touching the event's acknowledgement, which stays with
//! the envelope.

use vstd::prelude::*;
use vstd::string::*;
use vstd::utf8::encode_utf8;

use crate::event::Event;
use crate::json::{
    clone_scalar, fields_view, obj_contains_key, obj_get_spec, obj_remove, obj_set, obj_set_spec,
    vget, vremove, vset, JsonData, JsonNum,
};

verus! {

/// What a transform does with one event: pass a (possibly new) event on,
/// silently skip this one, or halt the stage on an event it must not see.
#[derive(Debug)]
pub enum TransformOutcome {
    Emit(Event),
    Skip,
    Halt,
}

/// The field injector: adds `field: value` to a structured event. An
/// existing field of that name is overwritten only under `overwrite`.
/// Boundary and raw events pass it untouched as skips; a structured event
/// that is not an object halts the stage.
pub fn insert_field_apply(event: Event, field: &String, value: &JsonData, overwrite: bool) -> (r:
    TransformOutcome)
    requires
        !(value is Arr),
        !(value is Obj),
    ensures
        event is Boundary ==> r is Skip,
        event is Raw ==> r is Skip,
        event matches Event::Json(d) ==> (if d is Obj {
            r matches TransformOutcome::Emit(Event::Json(JsonData::Obj(out))) && out@ == (
            if overwrite || obj_get_spec(d->Obj_0@, field@) is None {
                obj_set_spec(d->Obj_0@, *field, *value)
            } else {
                d->Obj_0@
            })
        } else {
            r is Halt
        }),
{
    match event {
        Event::Boundary => TransformOutcome::Skip,
        Event::Raw(_) => TransformOutcome::Skip,
        Event::Json(d) => {
            match d {
                JsonData::Obj(mut fields) => {
                    if overwrite || !obj_contains_key(&fields, field.as_str()) {
                        obj_set(&mut fields, field.clone(), clone_scalar(value));
                    }
                    TransformOutcome::Emit(Event::Json(JsonData::Obj(fields)))
                },
                _ => TransformOutcome::Halt,
            }
        },
    }
}

/// The format of an injected timestamp.
#[derive(Copy, Clone, Debug, PartialEq, Eq, Structural)]
pub enum TsType {
    Epoch,
    Rfc2822,
    Rfc3339,
}

/// The lowercase form of an ASCII byte.
pub open spec fn lower_byte(b: u8) -> u8 {
    if 65 <= b <= 90 {
        (b + 32) as u8
    } else {
        b
    }
}

/// The timestamp format named by `s`, compared without regard to ASCII
/// case: `epoch`, `rfc2822` or `rfc3339`.
pub open spec fn spec_ts_type(s: Seq<char>) -> Option<TsType> {
    let lowered = encode_utf8(s).map_values(|b: u8| lower_byte(b));
    if lowered == seq![101u8, 112u8, 111u8, 99u8, 104u8] {
        Some(TsType::Epoch)
    } else if lowered == seq![114u8, 102u8, 99u8, 50u8, 56u8, 50u8, 50u8] {
        Some(TsType::Rfc2822)
    } else if lowered == seq![114u8, 102u8, 99u8, 51u8, 51u8, 51u8, 57u8] {
        Some(TsType::Rfc3339)
    } else {
        None
    }
}

fn bytes_eq(a: &Vec<u8>, b: &Vec<u8>) -> (r: bool)
    ensures
        r == (a@ == b@),
{
    if a.len() != b.len() {
        proof {
            assert(a@ != b@);
        }
        return false;
    }
    let mut i: usize = 0;
    while i < a.len()
        invariant
            a@.len() == b@.len(),
            i <= a@.len(),
            forall|j: int| 0 <= j < i ==> a@[j] == b@[j],
        decreases a@.len() - i,
    {
        if a[i] != b[i] {
            return false;
        }
        i = i + 1;
    }
    proof {
        assert(a@ =~= b@);
    }
    true
}

/// Reads a `ts_type` option value, without regard to ASCII case.
pub fn parse_ts_type(s: &str) -> (r: Option<TsType>)
    ensures
        r == spec_ts_type(s@),
{
    let bytes = s.as_bytes_vec();
    let mut lowered: Vec<u8> = Vec::new();
    let mut i: usize = 0;
    while i < bytes.len()
        invariant
            i <= bytes@.len(),
            lowered@ =~= bytes@.subrange(0, i as int).map_values(|b: u8| lower_byte(b)),
        decreases bytes@.len() - i,
    {
        let b = bytes[i];
        lowered.push(
            if 65 <= b && b <= 90 {
                b + 32
            } else {
                b
            },
        );
        i = i + 1;
        proof {
            assert(lowered@ =~= bytes@.subrange(0, i as int).map_values(|b: u8| lower_byte(b)));
        }
    }
    proof {
        assert(bytes@.subrange(0, bytes@.len() as int) =~= bytes@);
    }
    let mut epoch_lit: Vec<u8> = Vec::new();
    epoch_lit.push(101);
    epoch_lit.push(112);
    epoch_lit.push(111);
    epoch_lit.push(99);
    epoch_lit.push(104);
    proof {
        assert(epoch_lit@ =~= seq![101u8, 112u8, 111u8, 99u8, 104u8]);
    }
    if bytes_eq(&lowered, &epoch_lit) {
        return Some(TsType::Epoch);
    }
    let mut r2822_lit: Vec<u8> = Vec::new();
    r2822_lit.push(114);
    r2822_lit.push(102);
    r2822_lit.push(99);
    r2822_lit.push(50);
    r2822_lit.push(56);
    r2822_lit.push(50);
    r2822_lit.push(50);
    proof {
        assert(r2822_lit@ =~= seq![114u8, 102u8, 99u8, 50u8, 56u8, 50u8, 50u8]);
    }
    if bytes_eq(&lowered, &r2822_lit) {
        return Some(TsType::Rfc2822);
    }
    let mut r3339_lit: Vec<u8> = Vec::new();
    r3339_lit.push(114);
    r3339_lit.push(102);
    r3339_lit.push(99);
    r3339_lit.push(51);
    r3339_lit.push(51);
    r3339_lit.push(51);
    r3339_lit.push(57);
    proof {
        assert(r3339_lit@ =~= seq![114u8, 102u8, 99u8, 51u8, 51u8, 51u8, 57u8]);
    }
    if bytes_eq(&lowered, &r3339_lit) {
        return Some(TsType::Rfc3339);
    }
    None
}

/// The shape of the value the timestamp injector writes for a format: epoch
/// milliseconds as an integer; an RFC form as the text of some instant, or
/// the integer fallback where the clock reads outside the representable
/// range.
pub open spec fn ts_value_shape(t: TsType, v: JsonData) -> bool {
    match t {
        TsType::Epoch => v matches JsonData::Num(JsonNum::Int(_)),
        TsType::Rfc2822 => (v matches JsonData::Str(s) && exists|ms: i64|
            crate::time::rfc2822_text_of(ms) == Some(s@)) || v matches JsonData::Num(
            JsonNum::Int(_),
        ),
        TsType::Rfc3339 => (v matches JsonData::Str(s) && exists|ms: i64|
            crate::time::rfc3339_text_of(ms) == Some(s@)) || v matches JsonData::Num(
            JsonNum::Int(_),
        ),
    }
}

/// The timestamp injector: reads the clock, renders it in the configured
/// format, and adds it under `field` to a structured event, overwriting only
/// under `overwrite`. Boundary and raw events are skips; a structured event
/// that is not an object halts the stage.
pub fn insert_ts_apply(event: Event, field: &String, ts_type: TsType, overwrite: bool) -> (r:
    TransformOutcome)
    ensures
        event is Boundary ==> r is Skip,
        event is Raw ==> r is Skip,
        event matches Event::Json(d) ==> (if d is Obj {
            r matches TransformOutcome::Emit(Event::Json(JsonData::Obj(out))) && exists|v: JsonData|
                #[trigger] ts_value_shape(ts_type, v) && out@ == (if overwrite || obj_get_spec(
                d->Obj_0@,
                field@,
            ) is None {
                obj_set_spec(d->Obj_0@, *field, v)
            } else {
                d->Obj_0@
            })
        } else {
            r is Halt
        }),
{
    match event {
        Event::Boundary => TransformOutcome::Skip,
        Event::Raw(_) => TransformOutcome::Skip,
        Event::Json(d) => {
            match d {
                JsonData::Obj(mut fields) => {
                    let now = crate::time::now_millis();
                    let ts_value: JsonData = match ts_type {
                        TsType::Epoch => JsonData::Num(JsonNum::Int(now)),
                        TsType::Rfc2822 => {
                            match crate::time::rfc2822_of_millis(now) {
                                Some(text) => JsonData::Str(text),
                                None => JsonData::Num(JsonNum::Int(now)),
                            }
                        },
                        TsType::Rfc3339 => {
                            match crate::time::rfc3339_of_millis(now) {
                                Some(text) => JsonData::Str(text),
                                None => JsonData::Num(JsonNum::Int(now)),
                            }
                        },
                    };
                    proof {
                        assert(ts_value_shape(ts_type, ts_value));
                    }
                    let ghost chosen = ts_value;
                    if overwrite || !obj_contains_key(&fields, field.as_str()) {
                        obj_set(&mut fields, field.clone(), ts_value);
                    }
                    TransformOutcome::Emit(Event::Json(JsonData::Obj(fields)))
                },
                _ => TransformOutcome::Halt,
            }
        },
    }
}

// ------------------------------------------------------------------
// the key-value parser
// ------------------------------------------------------------------
/// The pairs the key-value grammar reads from a text: each a key and an
/// optional value, quotes and escapes already resolved. A function of the
/// text alone, named here; the logfmt crate computes it.
pub uninterp spec fn logfmt_pairs_of(s: Seq<char>) -> Seq<(Seq<char>, Option<Seq<char>>)>;

/// Whether a list of owned pairs reads, pair for pair, as a list of viewed
/// pairs.
pub open spec fn pairs_correspond(
    pairs: Seq<(String, Option<String>)>,
    views: Seq<(Seq<char>, Option<Seq<char>>)>,
) -> bool {
    &&& pairs.len() == views.len()
    &&& forall|k: int|
        0 <= k < pairs.len() ==> {
            &&& (#[trigger] pairs[k]).0@ == views[k].0
            &&& (pairs[k].1 is Some <==> views[k].1 is Some)
            &&& (pairs[k].1 matches Some(v) ==> views[k].1 == Some(v@))
        }
}

/// Relies on `logfmt::parse`: splits a `key=value` text into its pairs,
/// converting each `logfmt::Pair` one for one.
#[verifier::external_body]
pub(crate) fn logfmt_pairs(s: &str) -> (r: Vec<(String, Option<String>)>)
    ensures
        pairs_correspond(r@, logfmt_pairs_of(s@)),
{
    logfmt::parse(s).into_iter().map(|p| (p.key, p.val)).collect()
}

/// One step of the key-value merge, over the viewed fields: the parsed
/// `key` is added with its value (a bare key becomes `null`); where the
/// record already has that key and overwriting is off, the new field is
/// named `<source field>.<key>` instead.
pub open spec fn kv_step(
    fields: Seq<(Seq<char>, JsonData)>,
    source_field: Seq<char>,
    overwrite: bool,
    key: Seq<char>,
    value: JsonData,
) -> Seq<(Seq<char>, JsonData)> {
    let target_key = if vget(fields, key) is Some && !overwrite {
        source_field + seq!['.'] + key
    } else {
        key
    };
    vset(fields, target_key, value)
}

/// The whole key-value merge, folding the pairs from the left.
pub open spec fn kv_merge(
    fields: Seq<(Seq<char>, JsonData)>,
    source_field: Seq<char>,
    overwrite: bool,
    pairs: Seq<(String, Option<String>)>,
) -> Seq<(Seq<char>, JsonData)>
    decreases pairs.len(),
{
    if pairs.len() == 0 {
        fields
    } else {
        let value = match pairs.first().1 {
            Some(v) => JsonData::Str(v),
            None => JsonData::Null,
        };
        kv_merge(
            kv_step(fields, source_field, overwrite, pairs.first().0@, value),
            source_field,
            overwrite,
            pairs.drop_first(),
        )
    }
}

/// The key-value parser: takes the text under `source_field` out of a
/// structured event and merges the `key=value` pairs parsed from it into
/// the record. Events without that field, or where it is not text, pass
/// unchanged; boundary and raw events are skips.
pub fn kv_apply(event: Event, source_field: &String, overwrite: bool) -> (r: TransformOutcome)
    ensures
        event is Boundary ==> r is Skip,
        event is Raw ==> r is Skip,
        event matches Event::Json(d) ==> (if d is Obj {
            r matches TransformOutcome::Emit(Event::Json(JsonData::Obj(out))) && {
                let before = fields_view(d->Obj_0@);
                match vget(before, source_field@) {
                    Some(JsonData::Str(text)) => exists|p: Seq<(String, Option<String>)>|
                        #[trigger] pairs_correspond(p, logfmt_pairs_of(text@)) && fields_view(out@)
                            == kv_merge(
                            vremove(before, source_field@),
                            source_field@,
                            overwrite,
                            p,
                        ),
                    Some(_) => fields_view(out@) == vremove(before, source_field@),
                    None => fields_view(out@) == before,
                }
            }
        } else {
            r is Skip
        }),
{
    match event {
        Event::Boundary => TransformOutcome::Skip,
        Event::Raw(_) => TransformOutcome::Skip,
        Event::Json(d) => {
            match d {
                JsonData::Obj(mut fields) => {
                    let ghost before = fields_view(fields@);
                    let ghost entry_fields = fields@;
                    let removed = obj_remove(&mut fields, source_field.as_str());
                    proof {
                        crate::json::lemma_view_remove(entry_fields, source_field@);
                        crate::json::lemma_view_index(entry_fields, source_field@);
                        crate::json::lemma_obj_index_of_bounds(entry_fields, source_field@);
                    }
                    match removed {
                        Some(JsonData::Str(text)) => {
                            let pairs = logfmt_pairs(text.as_str());
                            let ghost all_pairs = pairs@;
                            proof {
                                assert(all_pairs.skip(0) =~= all_pairs);
                                assert(fields_view(fields@) == vremove(before, source_field@));
                            }
                            let mut i: usize = 0;
                            while i < pairs.len()
                                invariant
                                    i <= pairs@.len(),
                                    pairs@ == all_pairs,
                                    kv_merge(
                                        fields_view(fields@),
                                        source_field@,
                                        overwrite,
                                        all_pairs.skip(i as int),
                                    ) == kv_merge(
                                        vremove(before, source_field@),
                                        source_field@,
                                        overwrite,
                                        all_pairs,
                                    ),
                                decreases pairs@.len() - i,
                            {
                                let ghost fields_pre = fields@;
                                let ghost view_pre = fields_view(fields_pre);
                                let pi = &pairs[i];
                                let key = pi.0.clone();
                                let value: JsonData = match &pi.1 {
                                    Some(v) => JsonData::Str(v.clone()),
                                    None => JsonData::Null,
                                };
                                let ghost value_ghost = value;
                                proof {
                                    crate::json::lemma_view_index(fields_pre, key@);
                                }
                                let target_key: String = if obj_contains_key(
                                    &fields,
                                    key.as_str(),
                                ) && !overwrite {
                                    let mut t = source_field.clone();
                                    t.append(".");
                                    t.append(key.as_str());
                                    proof {
                                        reveal_strlit(".");
                                        assert("."@ =~= seq!['.']);
                                        assert(t@ =~= source_field@ + seq!['.'] + key@);
                                    }
                                    t
                                } else {
                                    key
                                };
                                let ghost tk = target_key@;
                                let ghost tk_val = target_key;
                                proof {
                                    assert(tk == (if vget(view_pre, all_pairs[i as int].0@)
                                        is Some && !overwrite {
                                        source_field@ + seq!['.'] + all_pairs[i as int].0@
                                    } else {
                                        all_pairs[i as int].0@
                                    }));
                                }
                                obj_set(&mut fields, target_key, value);
                                proof {
                                    crate::json::lemma_view_set(fields_pre, tk_val, value_ghost);
                                    assert(fields_view(fields@) == kv_step(
                                        view_pre,
                                        source_field@,
                                        overwrite,
                                        all_pairs[i as int].0@,
                                        value_ghost,
                                    ));
                                    assert(all_pairs.skip(i as int).first() == all_pairs[i as int]);
                                    assert(all_pairs.skip(i as int).drop_first() =~= all_pairs.skip(
                                        i + 1,
                                    ));
                                    assert(value_ghost == (match all_pairs[i as int].1 {
                                        Some(v) => JsonData::Str(v),
                                        None => JsonData::Null,
                                    }));
                                }
                                i = i + 1;
                            }
                            proof {
                                assert(all_pairs.skip(pairs@.len() as int)
                                    =~= Seq::<(String, Option<String>)>::empty());
                            }
                            TransformOutcome::Emit(Event::Json(JsonData::Obj(fields)))
                        },
                        Some(_) => TransformOutcome::Emit(Event::Json(JsonData::Obj(fields))),
                        None => TransformOutcome::Emit(Event::Json(JsonData::Obj(fields))),
                    }
                },
                _ => TransformOutcome::Skip,
            }
        },
    }
}


// ------------------------------------------------------------------
// the scripting transform's mediation
// ------------------------------------------------------------------
/// What the scripting host is handed for one event: the raw text, or the
/// record's fields. The host itself runs outside the library; these two
/// functions decide what crosses its boundary, in both directions.
#[derive(Debug)]
pub enum ScriptArg {
    Text(String),
    Record(Vec<(String, JsonData)>),
}

/// Prepares one event for the script under the configured argument mode:
/// a boundary is skipped; a structured event in text mode becomes its
/// one-line JSON text; a raw event in record mode must read as a JSON
/// object or the stage halts (a structured event that is not an object
/// halts the same way); matching modes pass the payload through.
pub fn script_argument(event: Event, wants_text: bool) -> (r: Result<Option<ScriptArg>, ()>)
    ensures
        event is Boundary ==> r == Ok::<Option<ScriptArg>, ()>(None),
        event matches Event::Raw(line) ==> (if wants_text {
            r matches Ok(Some(ScriptArg::Text(t))) && t == line
        } else {
            match crate::json::json_of(line@) {
                Some(JsonData::Obj(fs)) => r matches Ok(Some(ScriptArg::Record(out))) && out@
                    == fs@,
                _ => r is Err,
            }
        }),
        event matches Event::Json(d) ==> (if wants_text {
            r matches Ok(Some(ScriptArg::Text(t))) && t@ == crate::text::lossy_text_of(
                crate::json::json_bytes(d),
            )
        } else {
            match d {
                JsonData::Obj(fs) => r matches Ok(Some(ScriptArg::Record(out))) && out@ == fs@,
                _ => r is Err,
            }
        }),
{
    match event {
        Event::Boundary => Ok(None),
        Event::Raw(line) => {
            if wants_text {
                Ok(Some(ScriptArg::Text(line)))
            } else {
                match crate::json::parse_json(line.as_str()) {
                    Some(JsonData::Obj(fs)) => Ok(Some(ScriptArg::Record(fs))),
                    _ => Err(()),
                }
            }
        },
        Event::Json(d) => {
            if wants_text {
                let bytes = crate::json::to_json_bytes(&d);
                Ok(Some(ScriptArg::Text(crate::text::utf8_lossy(bytes.as_slice()))))
            } else {
                match d {
                    JsonData::Obj(fs) => Ok(Some(ScriptArg::Record(fs))),
                    _ => Err(()),
                }
            }
        },
    }
}

/// Turns the script's return value back into the route's terms: no value
/// drops the event, a record becomes a structured event.
pub fn script_outcome(ret: Option<Vec<(String, JsonData)>>) -> (r: TransformOutcome)
    ensures
        ret is None ==> r is Skip,
        ret matches Some(fields) ==> r == TransformOutcome::Emit(
            Event::Json(JsonData::Obj(fields)),
        ),
{
    match ret {
        Some(fields) => TransformOutcome::Emit(Event::Json(JsonData::Obj(fields))),
        None => TransformOutcome::Skip,
    }
}

} // verus!
