//! A log entry: ordered named scalar fields, built from a structured JSON
//! record under the store's configuration. The timestamp field is read in
//! the configured format; every other field name must fit the accepted
//! shape, and nested values are flattened to text.

use vstd::prelude::*;
use vstd::string::*;
use vstd::utf8::encode_utf8;

use crate::config::{ConfigFile, TimestampFormat};
use crate::json::{json_bytes, json_of, JsonData, JsonNum};
use crate::log_value::{log_value_eq, LogValue};
use crate::num_text::{all_dec_digits, dec_digits, dec_value};
use crate::text::{lossy_text_of, str_eq, utf8_lossy};
use vstd::utf8::is_ascii_chars;
use crate::time::{rfc2822_millis_of, rfc3339_millis_of};

verus! {

/// This is the time of the log entry, as described in the log itself.
pub open spec fn default_timestamp_field_name() -> Seq<char> {
    "t"@
}

/// Why a JSON record was not a valid log entry.
#[derive(Clone, Debug)]
pub enum LogEntryError {
    /// The text was not JSON at all.
    Json(String),
    /// The record was JSON but broke an entry rule.
    InvalidFormat(String),
}

/// Whether `b` may open a field name: an ASCII letter, digit, or `_`.
pub open spec fn name_first_byte(b: u8) -> bool {
    (65 <= b <= 90) || (97 <= b <= 122) || (48 <= b <= 57) || b == 95
}

/// Whether `b` may continue a field name: an ASCII letter, digit, `.`,
/// `_`, or `-`.
pub open spec fn name_rest_byte(b: u8) -> bool {
    name_first_byte(b) || b == 46 || b == 45
}

/// Whether a name fits the accepted shape: an optional `-` or `+` prefix,
/// an opening letter, digit or underscore, and any run of letters, digits,
/// dots, underscores and dashes.
pub open spec fn valid_field_name(s: Seq<u8>) -> bool {
    if s.len() > 0 && (s[0] == 43 || s[0] == 45) {
        valid_name_body(s.drop_first())
    } else {
        valid_name_body(s)
    }
}

/// The shape of a name after any prefix: an opening letter, digit or
/// underscore, then letters, digits, dots, underscores and dashes.
pub open spec fn valid_name_body(body: Seq<u8>) -> bool {
    &&& body.len() >= 1
    &&& name_first_byte(body[0])
    &&& forall|i: int| 1 <= i < body.len() ==> name_rest_byte(#[trigger] body[i])
}

/// Checks a field name against the accepted shape.
pub fn is_valid_field_name(s: &str) -> (r: bool)
    ensures
        r == valid_field_name(encode_utf8(s@)),
{
    let bytes = s.as_bytes_vec();
    let start: usize = if bytes.len() > 0 && (bytes[0] == 43 || bytes[0] == 45) {
        1
    } else {
        0
    };
    let ghost body = if start == 1 {
        bytes@.drop_first()
    } else {
        bytes@
    };
    if bytes.len() <= start {
        proof {
            assert(body.len() == 0);
        }
        return false;
    }
    let first = bytes[start];
    if !((65 <= first && first <= 90) || (97 <= first && first <= 122) || (48 <= first && first
        <= 57) || first == 95) {
        proof {
            assert(body[0] == bytes@[start as int]);
        }
        return false;
    }
    let mut i: usize = start + 1;
    while i < bytes.len()
        invariant
            start + 1 <= i <= bytes@.len(),
            start == 0 || start == 1,
            bytes@ == encode_utf8(s@),
            ((bytes@.len() > 0 && (bytes@[0] == 43 || bytes@[0] == 45)) <==> start == 1),
            body == (if start == 1 {
                bytes@.drop_first()
            } else {
                bytes@
            }),
            body.len() == bytes@.len() - start,
            name_first_byte(body[0]),
            forall|t: int| 1 <= t < i - start ==> name_rest_byte(#[trigger] body[t]),
        decreases bytes@.len() - i,
    {
        let b = bytes[i];
        proof {
            if start == 1 {
                assert(body[i - 1] == bytes@[i as int]);
            } else {
                assert(body[i as int] == bytes@[i as int]);
            }
        }
        if !((65 <= b && b <= 90) || (97 <= b && b <= 122) || (48 <= b && b <= 57) || b == 95 || b
            == 46 || b == 45) {
            proof {
                assert(!name_rest_byte(body[i - start]));
                assert(1 <= i - start < body.len());
                assert(!valid_name_body(body));
            }
            return false;
        }
        proof {
            assert(name_rest_byte(body[i - start]));
        }
        i = i + 1;
    }
    proof {
        assert(body[0] == bytes@[start as int]);
    }
    true
}

/// How one non-timestamp JSON value lands in an entry: scalars keep their
/// value (a large unsigned integer becomes its digits as text), and a
/// nested array or object becomes its one-line text.
pub open spec fn json_value_lands(d: JsonData, v: LogValue) -> bool {
    match d {
        JsonData::Null => v is Null,
        JsonData::Bool(b) => v == LogValue::Bool(b),
        JsonData::Num(JsonNum::Int(i)) => v == LogValue::Integer(i),
        JsonData::Num(JsonNum::UInt(u)) => if u <= i64::MAX {
            v == LogValue::Integer(u as i64)
        } else {
            v matches LogValue::Float(f) && encode_utf8(f@) == dec_digits(u as nat)
        },
        JsonData::Num(JsonNum::Float(t)) => v == LogValue::Float(t),
        JsonData::Str(s) => v == LogValue::Str(s),
        JsonData::Arr(_) => v matches LogValue::Str(s) && s@ == lossy_text_of(json_bytes(d)),
        JsonData::Obj(fs) => v matches LogValue::Str(s) && s@ == lossy_text_of(
            obj_display_bytes(fs@),
        ),
    }
}

/// The display form of a nested object inside an entry: each field as
/// `"name": value` with the name unescaped, joined by commas, in braces.
pub open spec fn obj_display_bytes(fs: Seq<(String, JsonData)>) -> Seq<u8> {
    seq![123u8] + obj_display_body(fs) + seq![125u8]
}

/// The display entries of a nested object, joined by commas.
pub open spec fn obj_display_body(fs: Seq<(String, JsonData)>) -> Seq<u8>
    decreases fs,
{
    if fs.len() == 0 {
        Seq::empty()
    } else {
        obj_display_body(fs.drop_last()) + (if fs.len() > 1 {
            seq![44u8]
        } else {
            Seq::empty()
        }) + seq![34u8] + encode_utf8(fs.last().0@) + seq![34u8, 58u8, 32u8] + json_bytes(
            fs.last().1,
        )
    }
}

fn render_obj_display(fs: &Vec<(String, JsonData)>) -> (r: Vec<u8>)
    ensures
        r@ == obj_display_bytes(fs@),
{
    let mut out: Vec<u8> = Vec::new();
    out.push(123);
    let n = fs.len();
    let mut i: usize = 0;
    while i < n
        invariant
            n == fs@.len(),
            i <= n,
            out@ == seq![123u8] + obj_display_body(fs@.subrange(0, i as int)),
        decreases n - i,
    {
        let ghost pre = fs@.subrange(0, i as int);
        if i > 0 {
            out.push(44);
        }
        out.push(34);
        let key_bytes = fs[i].0.as_str().as_bytes_vec();
        let mut t: usize = 0;
        while t < key_bytes.len()
            invariant
                t <= key_bytes@.len(),
                out@ == old_out_spec(pre, i as int) + key_bytes@.subrange(0, t as int),
                key_bytes@ == encode_utf8(fs@[i as int].0@),
                i < fs@.len(),
            decreases key_bytes@.len() - t,
        {
            let b = key_bytes[t];
            out.push(b);
            t = t + 1;
            proof {
                assert(out@ =~= old_out_spec(pre, i as int) + key_bytes@.subrange(0, t as int));
            }
        }
        proof {
            assert(key_bytes@.subrange(0, key_bytes@.len() as int) =~= key_bytes@);
        }
        out.push(34);
        out.push(58);
        out.push(32);
        crate::json::write_json(&fs[i].1, &mut out);
        i = i + 1;
        proof {
            assert(fs@.subrange(0, i as int).drop_last() =~= pre);
            assert(fs@.subrange(0, i as int).last() == fs@[i - 1]);
            assert(out@ =~= seq![123u8] + obj_display_body(fs@.subrange(0, i as int)));
        }
    }
    out.push(125);
    proof {
        assert(fs@.subrange(0, n as int) =~= fs@);
        assert(out@ =~= obj_display_bytes(fs@));
    }
    out
}

/// The buffer shape mid-way through one display entry, after the opening
/// quote of the name.
pub open spec fn old_out_spec(pre: Seq<(String, JsonData)>, i: int) -> Seq<u8> {
    seq![123u8] + obj_display_body(pre) + (if i > 0 {
        seq![44u8]
    } else {
        Seq::empty()
    }) + seq![34u8]
}

/// Converts one non-timestamp value.
fn land_json_value(d: JsonData) -> (v: LogValue)
    ensures
        json_value_lands(d, v),
{
    match d {
        JsonData::Null => LogValue::Null,
        JsonData::Bool(b) => LogValue::Bool(b),
        JsonData::Num(JsonNum::Int(i)) => LogValue::Integer(i),
        JsonData::Num(JsonNum::UInt(u)) => {
            if u <= 0x7fffffffffffffff {
                LogValue::Integer(u as i64)
            } else {
                let digits = crate::num_text::u64_to_dec_bytes(u);
                proof {
                    crate::num_text::lemma_dec_round_trip(u as nat);
                    lemma_ascii_digits_encode(dec_digits(u as nat));
                }
                LogValue::Float(crate::text::ascii_to_string(&digits))
            }
        },
        JsonData::Num(JsonNum::Float(t)) => LogValue::Float(t),
        JsonData::Str(s) => LogValue::Str(s),
        JsonData::Arr(items) => {
            let dd = JsonData::Arr(items);
            proof {
                assert(dd == d);
            }
            let bytes = crate::json::to_json_bytes(&dd);
            LogValue::Str(utf8_lossy(bytes.as_slice()))
        },
        JsonData::Obj(fs) => {
            let bytes = render_obj_display(&fs);
            proof {
                assert(bytes@ == obj_display_bytes(fs@));
            }
            LogValue::Str(utf8_lossy(bytes.as_slice()))
        },
    }
}

/// ASCII digits encode to themselves, one byte per character.
proof fn lemma_ascii_digits_encode(s: Seq<u8>)
    requires
        all_dec_digits(s),
    ensures
        encode_utf8(s.map_values(|b: u8| b as char)) =~= s,
{
    let chars = s.map_values(|b: u8| b as char);
    assert(is_ascii_chars(chars)) by {
        assert forall|i| 0 <= i < chars.len() implies '\0' <= #[trigger] chars[i]
            <= '\u{7f}' by {
            assert(chars[i] == s[i] as char);
            assert(48 <= s[i] <= 57);
        };
    };
    vstd::utf8::is_ascii_chars_encode_utf8(chars);
    assert forall|i: int| 0 <= i < s.len() implies encode_utf8(chars)[i] == s[i] by {
        assert(chars[i] == s[i] as char);
        assert(chars[i] as u8 == encode_utf8(chars)[i]);
    };
}

/// How the timestamp value is read under a format: as epoch counts whose
/// unit follows their magnitude, or as RFC 2822 / RFC 3339 text. `None`
/// where the value is rejected.
pub open spec fn ts_lands(d: JsonData, fmt: TimestampFormat) -> Option<u64> {
    match fmt {
        TimestampFormat::EPOCH => {
            let raw: Option<u64> = match d {
                JsonData::Num(JsonNum::Int(i)) => if i >= 0 {
                    Some(i as u64)
                } else {
                    None
                },
                JsonData::Num(JsonNum::UInt(u)) => Some(u),
                JsonData::Str(s) => {
                    let b = encode_utf8(s@);
                    if b.len() > 0 && all_dec_digits(b) && dec_value(b) <= u64::MAX {
                        Some(dec_value(b) as u64)
                    } else {
                        None
                    }
                },
                _ => None,
            };
            match raw {
                Some(ts) => if ts >= 100000000000000 {
                    Some((ts / 1000) as u64)
                } else if ts >= 100000000000 {
                    Some(ts)
                } else {
                    Some((ts * 1000) as u64)
                },
                None => None,
            }
        },
        TimestampFormat::RFC2822 => {
            match d {
                JsonData::Str(s) => {
                    match rfc2822_millis_of(s@) {
                        Some(ms) => if ms >= 0 {
                            Some(ms as u64)
                        } else {
                            None
                        },
                        None => None,
                    }
                },
                _ => None,
            }
        },
        TimestampFormat::RFC3339 => {
            match d {
                JsonData::Str(s) => {
                    match rfc3339_millis_of(s@) {
                        Some(ms) => if ms >= 0 {
                            Some(ms as u64)
                        } else {
                            None
                        },
                        None => None,
                    }
                },
                _ => None,
            }
        },
    }
}

/// Reads the timestamp value.
fn land_ts_value(d: JsonData, fmt: TimestampFormat) -> (r: Result<u64, LogEntryError>)
    ensures
        r matches Ok(ms) ==> ts_lands(d, fmt) == Some(ms),
        r is Err <==> ts_lands(d, fmt) is None,
        r matches Err(e) ==> e is InvalidFormat,
{
    match fmt {
        TimestampFormat::EPOCH => {
            let raw: u64 = match d {
                JsonData::Num(JsonNum::Int(i)) => {
                    if i >= 0 {
                        i as u64
                    } else {
                        return Err(
                            LogEntryError::InvalidFormat(
                                String::from_str("timestamp was not a positive integer"),
                            ),
                        );
                    }
                },
                JsonData::Num(JsonNum::UInt(u)) => u,
                JsonData::Str(s) => {
                    let bytes = s.as_str().as_bytes_vec();
                    match crate::num_text::parse_dec_u64(bytes.as_slice()) {
                        Some(v) => v,
                        None => {
                            return Err(
                                LogEntryError::InvalidFormat(
                                    String::from_str("timestamp was not a positive integer"),
                                ),
                            );
                        },
                    }
                },
                _ => {
                    return Err(
                        LogEntryError::InvalidFormat(
                            String::from_str("timestamp was not a positive integer"),
                        ),
                    );
                },
            };
            // figure out the unit from the magnitude: microseconds,
            // milliseconds, or seconds
            if raw >= 100000000000000 {
                Ok(raw / 1000)
            } else if raw >= 100000000000 {
                Ok(raw)
            } else {
                Ok(raw * 1000)
            }
        },
        TimestampFormat::RFC2822 => {
            match d {
                JsonData::Str(s) => {
                    match crate::time::parse_rfc2822_millis(s.as_str()) {
                        Some(ms) => {
                            if ms >= 0 {
                                Ok(ms as u64)
                            } else {
                                Err(
                                    LogEntryError::InvalidFormat(
                                        String::from_str(
                                            "timestamps cannot be before Jan 1 1970",
                                        ),
                                    ),
                                )
                            }
                        },
                        None => Err(
                            LogEntryError::InvalidFormat(
                                String::from_str("error parsing timestamp"),
                            ),
                        ),
                    }
                },
                _ => Err(
                    LogEntryError::InvalidFormat(String::from_str("timestamp was not a string")),
                ),
            }
        },
        TimestampFormat::RFC3339 => {
            match d {
                JsonData::Str(s) => {
                    match crate::time::parse_rfc3339_millis(s.as_str()) {
                        Some(ms) => {
                            if ms >= 0 {
                                Ok(ms as u64)
                            } else {
                                Err(
                                    LogEntryError::InvalidFormat(
                                        String::from_str(
                                            "timestamps cannot be before Jan 1 1970",
                                        ),
                                    ),
                                )
                            }
                        },
                        None => Err(
                            LogEntryError::InvalidFormat(
                                String::from_str("error parsing timestamp"),
                            ),
                        ),
                    }
                },
                _ => Err(
                    LogEntryError::InvalidFormat(String::from_str("timestamp was not a string")),
                ),
            }
        },
    }
}

/// Representation of a single log entry.
#[derive(Debug)]
pub struct LogEntry {
    field_values: Vec<(String, LogValue)>,
}

/// The value of the first field named `key`, if any.
pub open spec fn le_get(fields: Seq<(String, LogValue)>, key: Seq<char>) -> Option<LogValue>
    decreases fields.len(),
{
    if fields.len() == 0 {
        None
    } else if fields[0].0@ == key {
        Some(fields[0].1)
    } else {
        le_get(fields.drop_first(), key)
    }
}

/// Whether a whole JSON record reads as a valid entry: it must be an
/// object, it must hold the timestamp field, every occurrence of the
/// timestamp field must read under the format, and every other field name
/// must fit the accepted shape.
pub open spec fn entry_ok(d: JsonData, ts_field: Seq<char>, fmt: TimestampFormat) -> bool {
    &&& d is Obj
    &&& (exists|i: int|
        0 <= i < d->Obj_0@.len() && (#[trigger] d->Obj_0@[i]).0@ == ts_field)
    &&& forall|i: int|
        0 <= i < d->Obj_0@.len() ==> {
            if (#[trigger] d->Obj_0@[i]).0@ == ts_field {
                ts_lands(d->Obj_0@[i].1, fmt) is Some
            } else {
                valid_field_name(encode_utf8(d->Obj_0@[i].0@))
            }
        }
}

impl LogEntry {
    /// The fields of the entry, in order.
    pub closed spec fn fields(&self) -> Seq<(String, LogValue)> {
        self.field_values@
    }

    /// This is the workhorse method that converts from JSON to an entry:
    /// every field of the object is kept in order, the timestamp field read
    /// under the configured format and every other value landed as a
    /// scalar.
    pub fn from_json(value: JsonData, config_file: &ConfigFile) -> (r: Result<
        LogEntry,
        LogEntryError,
    >)
        ensures
            r is Ok <==> entry_ok(value, config_file.timestamp_field@, config_file.timestamp_format),
            r matches Err(e) ==> e is InvalidFormat,
            r matches Ok(le) ==> {
                &&& le.fields().len() == value->Obj_0@.len()
                &&& forall|i: int|
                    0 <= i < le.fields().len() ==> {
                        &&& (#[trigger] le.fields()[i]).0 == value->Obj_0@[i].0
                        &&& (if value->Obj_0@[i].0@ == config_file.timestamp_field@ {
                            le.fields()[i].1 == LogValue::TimeStamp(
                                ts_lands(
                                    value->Obj_0@[i].1,
                                    config_file.timestamp_format,
                                )->Some_0,
                            )
                        } else {
                            json_value_lands(value->Obj_0@[i].1, le.fields()[i].1)
                        })
                    }
            },
    {
        let fields = match value {
            JsonData::Obj(fs) => fs,
            _ => {
                return Err(
                    LogEntryError::InvalidFormat(
                        String::from_str("log entry must be a JSON object"),
                    ),
                );
            },
        };
        let ghost all = fields@;
        proof {
            assert(value->Obj_0@ == all);
        }
        // the timestamp field must be present
        let mut has_ts = false;
        let mut i: usize = 0;
        while i < fields.len()
            invariant
                i <= fields@.len(),
                fields@ == all,
                has_ts == exists|t: int|
                    0 <= t < i && (#[trigger] all[t]).0@ == config_file.timestamp_field@,
            decreases fields@.len() - i,
        {
            if str_eq(fields[i].0.as_str(), config_file.timestamp_field.as_str()) {
                has_ts = true;
            }
            i = i + 1;
        }
        if !has_ts {
            proof {
                assert(!entry_ok(
                    value,
                    config_file.timestamp_field@,
                    config_file.timestamp_format,
                ));
            }
            return Err(LogEntryError::InvalidFormat(String::from_str("missing timestamp field")));
        }
        // convert every field in order
        let mut out: Vec<(String, LogValue)> = Vec::new();
        let mut fields = fields;
        proof {
            assert(fields@ =~= all.skip(0));
        }
        while fields.len() > 0
            invariant
                value matches JsonData::Obj(_),
                value->Obj_0@ == all,
                exists|t: int|
                    0 <= t < all.len() && (#[trigger] all[t]).0@
                        == config_file.timestamp_field@,
                fields@ =~= all.skip(out@.len() as int),
                out@.len() <= all.len(),
                forall|t: int|
                    0 <= t < out@.len() ==> {
                        &&& (#[trigger] out@[t]).0 == all[t].0
                        &&& (if all[t].0@ == config_file.timestamp_field@ {
                            ts_lands(all[t].1, config_file.timestamp_format) is Some
                                && out@[t].1 == LogValue::TimeStamp(
                                ts_lands(all[t].1, config_file.timestamp_format)->Some_0,
                            )
                        } else {
                            valid_field_name(encode_utf8(all[t].0@)) && json_value_lands(
                                all[t].1,
                                out@[t].1,
                            )
                        })
                    },
            decreases fields@.len(),
        {
            let ghost before = fields@;
            let ghost ix = out@.len() as int;
            let (name, v) = fields.remove(0);
            proof {
                assert(fields@ =~= before.drop_first());
                assert(before.first() == all[ix]);
                assert(name == all[ix].0 && v == all[ix].1);
                assert(fields@ =~= all.skip(ix + 1));
            }
            if str_eq(name.as_str(), config_file.timestamp_field.as_str()) {
                let ms = match land_ts_value(v, config_file.timestamp_format) {
                    Ok(ms) => ms,
                    Err(e) => {
                        proof {
                            assert(all[ix].0@ == config_file.timestamp_field@);
                            assert(ts_lands(all[ix].1, config_file.timestamp_format) is None);
                            assert(!entry_ok(
                                value,
                                config_file.timestamp_field@,
                                config_file.timestamp_format,
                            ));
                        }
                        return Err(e);
                    },
                };
                out.push((name, LogValue::TimeStamp(ms)));
            } else {
                if !is_valid_field_name(name.as_str()) {
                    proof {
                        assert(all[ix].0@ != config_file.timestamp_field@);
                        assert(!valid_field_name(encode_utf8(all[ix].0@)));
                        assert(!entry_ok(
                            value,
                            config_file.timestamp_field@,
                            config_file.timestamp_format,
                        ));
                    }
                    return Err(
                        LogEntryError::InvalidFormat(
                            String::from_str("field name contains invalid characters"),
                        ),
                    );
                }
                let landed = land_json_value(v);
                out.push((name, landed));
            }
        }
        proof {
            assert(out@.len() == all.len());
            assert forall|i2: int| 0 <= i2 < value->Obj_0@.len() implies (if (
            #[trigger] value->Obj_0@[i2]).0@ == config_file.timestamp_field@ {
                ts_lands(value->Obj_0@[i2].1, config_file.timestamp_format) is Some
            } else {
                valid_field_name(encode_utf8(value->Obj_0@[i2].0@))
            }) by {
                assert(out@[i2].0 == all[i2].0);
            };
            assert(entry_ok(value, config_file.timestamp_field@, config_file.timestamp_format));
        }
        Ok(LogEntry { field_values: out })
    }

    /// Converts under the default configuration: timestamp field `t`, epoch
    /// format.
    pub fn from_default_json(value: JsonData) -> (r: Result<LogEntry, LogEntryError>)
        ensures
            r is Ok <==> entry_ok(value, "t"@, TimestampFormat::EPOCH),
            r matches Err(e) ==> e is InvalidFormat,
    {
        let config = ConfigFile::default();
        proof {
            assert(config.timestamp_field@ == "t"@);
        }
        LogEntry::from_json(value, &config)
    }

    /// An entry with no fields yet; the capacity is only a hint.
    pub fn with_capacity(capacity: usize) -> (r: Self)
        ensures
            r.fields().len() == 0,
    {
        let _ = capacity;
        LogEntry { field_values: Vec::new() }
    }

    /// Constructs an entry from the given fields, kept as they stand.
    pub fn from_iter(items: Vec<(String, LogValue)>) -> (r: Self)
        ensures
            r.fields() == items@,
    {
        LogEntry { field_values: items }
    }

    /// Gets a value given a field name: the first field of that name.
    pub fn get(&self, field: &str) -> (r: Option<&LogValue>)
        ensures
            match r {
                Some(v) => le_get(self.fields(), field@) == Some(*v),
                None => le_get(self.fields(), field@) is None,
            },
    {
        let mut i: usize = 0;
        while i < self.field_values.len()
            invariant
                i <= self.fields().len(),
                forall|t: int| 0 <= t < i ==> (#[trigger] self.fields()[t]).0@ != field@,
            decreases self.fields().len() - i,
        {
            if str_eq(self.field_values[i].0.as_str(), field) {
                proof {
                    lemma_le_get_at(self.fields(), field@, i as int);
                }
                return Some(&self.field_values[i].1);
            }
            i = i + 1;
        }
        proof {
            lemma_le_get_none(self.fields(), field@, self.fields().len() as int);
        }
        None
    }

    /// Sets a value for a field name, returning the old value if the field
    /// was already there (the first of that name is replaced in place); a
    /// new field goes to the end.
    pub fn set(&mut self, field: String, value: LogValue) -> (r: Option<LogValue>)
        ensures
            match le_get(old(self).fields(), field@) {
                Some(displaced) => {
                    &&& r == Some(displaced)
                    &&& final(self).fields() == old(self).fields().update(
                        le_index_of(old(self).fields(), field@),
                        (old(self).fields()[le_index_of(old(self).fields(), field@)].0, value),
                    )
                },
                None => r is None && final(self).fields() == old(self).fields().push(
                    (field, value),
                ),
            },
            le_get(final(self).fields(), field@) == Some(value),
    {
        let ghost fields0 = self.fields();
        let ghost kv = (field, value);
        let n = self.field_values.len();
        let mut i: usize = 0;
        while i < n
            invariant
                n == self.fields().len(),
                self.fields() == fields0,
                fields0 == old(self).fields(),
                kv == (field, value),
                i <= n,
                forall|t: int| 0 <= t < i ==> (#[trigger] self.fields()[t]).0@ != field@,
            decreases n - i,
        {
            if str_eq(self.field_values[i].0.as_str(), field.as_str()) {
                proof {
                    lemma_le_get_at(fields0, field@, i as int);
                    lemma_le_index_at(fields0, field@, i as int);
                }
                let (k, displaced) = self.field_values.remove(i);
                proof {
                    assert(k == fields0[i as int].0 && displaced == fields0[i as int].1);
                }
                self.field_values.insert(i, (k, value));
                proof {
                    let updated = fields0.update(i as int, (fields0[i as int].0, value));
                    assert(self.fields().len() == updated.len());
                    assert forall|j: int| 0 <= j < updated.len() implies self.fields()[j]
                        == updated[j] by {
                        if j < i {
                        } else if j == i {
                        } else {
                        }
                    };
                    assert(self.fields() =~= updated);
                    lemma_le_get_at(self.fields(), field@, i as int);
                }
                return Some(displaced);
            }
            i = i + 1;
        }
        proof {
            lemma_le_get_none(fields0, field@, n as int);
        }
        self.field_values.push((field, value));
        proof {
            lemma_le_get_push(fields0, field@, kv);
        }
        None
    }

    /// Like `set`, but without any check: the field goes to the end.
    pub fn insert(&mut self, field: String, value: LogValue)
        ensures
            final(self).fields() == old(self).fields().push((field, value)),
    {
        self.field_values.push((field, value));
    }

    /// Returns the number of fields in the entry.
    pub fn len(&self) -> (r: usize)
        ensures
            r == self.fields().len(),
    {
        self.field_values.len()
    }

    pub fn is_empty(&self) -> (r: bool)
        ensures
            r == (self.fields().len() == 0),
    {
        self.field_values.len() == 0
    }

    /// The fields themselves, in order.
    pub fn iter(&self) -> (r: &Vec<(String, LogValue)>)
        ensures
            r@ == self.fields(),
    {
        &self.field_values
    }

    /// Consumes the entry into its fields.
    pub fn into_iter(self) -> (r: Vec<(String, LogValue)>)
        ensures
            r@ == self.fields(),
    {
        self.field_values
    }
}

/// The index of the first field named `key`, or the length if none.
pub open spec fn le_index_of(fields: Seq<(String, LogValue)>, key: Seq<char>) -> int
    decreases fields.len(),
{
    if fields.len() == 0 {
        0
    } else if fields[0].0@ == key {
        0
    } else {
        1 + le_index_of(fields.drop_first(), key)
    }
}

proof fn lemma_le_index_at(fields: Seq<(String, LogValue)>, key: Seq<char>, i: int)
    requires
        0 <= i < fields.len(),
        fields[i].0@ == key,
        forall|t: int| 0 <= t < i ==> (#[trigger] fields[t]).0@ != key,
    ensures
        le_index_of(fields, key) == i,
    decreases i,
{
    if i > 0 {
        assert forall|t: int| 0 <= t < i - 1 implies (#[trigger] fields.drop_first()[t]).0@
            != key by {
            assert(fields.drop_first()[t] == fields[t + 1]);
        };
        lemma_le_index_at(fields.drop_first(), key, i - 1);
    }
}

proof fn lemma_le_get_at(fields: Seq<(String, LogValue)>, key: Seq<char>, i: int)
    requires
        0 <= i < fields.len(),
        fields[i].0@ == key,
        forall|t: int| 0 <= t < i ==> (#[trigger] fields[t]).0@ != key,
    ensures
        le_get(fields, key) == Some(fields[i].1),
    decreases i,
{
    if i > 0 {
        assert forall|t: int| 0 <= t < i - 1 implies (#[trigger] fields.drop_first()[t]).0@
            != key by {
            assert(fields.drop_first()[t] == fields[t + 1]);
        };
        lemma_le_get_at(fields.drop_first(), key, i - 1);
    }
}

proof fn lemma_le_get_none(fields: Seq<(String, LogValue)>, key: Seq<char>, n: int)
    requires
        n == fields.len(),
        forall|t: int| 0 <= t < n ==> (#[trigger] fields[t]).0@ != key,
    ensures
        le_get(fields, key) is None,
    decreases n,
{
    if n > 0 {
        assert forall|t: int| 0 <= t < n - 1 implies (#[trigger] fields.drop_first()[t]).0@
            != key by {
            assert(fields.drop_first()[t] == fields[t + 1]);
        };
        lemma_le_get_none(fields.drop_first(), key, n - 1);
    }
}

proof fn lemma_le_get_push(fields: Seq<(String, LogValue)>, key: Seq<char>, kv: (String, LogValue))
    requires
        le_get(fields, key) is None,
        kv.0@ == key,
    ensures
        le_get(fields.push(kv), key) == Some(kv.1),
    decreases fields.len(),
{
    if fields.len() == 0 {
        assert(fields.push(kv)[0] == kv);
    } else {
        assert(fields.push(kv)[0] == fields[0]);
        assert(fields.push(kv).drop_first() =~= fields.drop_first().push(kv));
        lemma_le_get_push(fields.drop_first(), key, kv);
    }
}


/// An owned copy of a scalar value.
pub fn clone_log_value(v: &LogValue) -> (r: LogValue)
    ensures
        r == *v,
{
    match v {
        LogValue::Null => LogValue::Null,
        LogValue::Bool(b) => LogValue::Bool(*b),
        LogValue::Integer(i) => LogValue::Integer(*i),
        LogValue::Float(f) => LogValue::Float(f.clone()),
        LogValue::Str(t) => LogValue::Str(t.clone()),
        LogValue::TimeStamp(ms) => LogValue::TimeStamp(*ms),
    }
}

/// A name with every leading `-` and `+` removed.
pub open spec fn skip_prefixes(s: Seq<u8>) -> Seq<u8>
    decreases s.len(),
{
    if s.len() > 0 && (s[0] == 43 || s[0] == 45) {
        skip_prefixes(s.drop_first())
    } else {
        s
    }
}

proof fn lemma_skip_prefixes_at(s: Seq<u8>, i: int)
    requires
        0 <= i <= s.len(),
        forall|t: int| 0 <= t < i ==> (s[t] == 43 || s[t] == 45),
        i < s.len() ==> !(s[i] == 43 || s[i] == 45),
    ensures
        skip_prefixes(s) =~= s.skip(i),
    decreases i,
{
    if i > 0 {
        assert(s[0] == 43 || s[0] == 45);
        assert forall|t: int| 0 <= t < i - 1 implies (s.drop_first()[t] == 43 || s.drop_first()[t]
            == 45) by {
            assert(s.drop_first()[t] == s[t + 1]);
        };
        if i < s.len() {
            assert(s.drop_first()[i - 1] == s[i]);
        }
        lemma_skip_prefixes_at(s.drop_first(), i - 1);
        assert(s.drop_first().skip(i - 1) =~= s.skip(i));
    } else {
        assert(s.skip(0) =~= s);
    }
}

/// Strips every leading `-` or `+` from a name.
fn trim_name(s: &str) -> (r: String)
    ensures
        r@ == lossy_text_of(skip_prefixes(encode_utf8(s@))),
{
    let bytes = s.as_bytes_vec();
    let n = bytes.len();
    let mut i: usize = 0;
    while i < n
        invariant_except_break
            n == bytes@.len(),
            i <= n,
            forall|t: int| 0 <= t < i ==> (bytes@[t] == 43 || bytes@[t] == 45),
        ensures
            n == bytes@.len(),
            i <= n,
            forall|t: int| 0 <= t < i ==> (bytes@[t] == 43 || bytes@[t] == 45),
            i < n ==> !(bytes@[i as int] == 43 || bytes@[i as int] == 45),
        decreases n - i,
    {
        if !(bytes[i] == 43 || bytes[i] == 45) {
            break;
        }
        i = i + 1;
    }
    proof {
        lemma_skip_prefixes_at(bytes@, i as int);
    }
    let mut rest: Vec<u8> = Vec::new();
    let mut t: usize = i;
    while t < n
        invariant
            n == bytes@.len(),
            i <= t <= n,
            rest@ =~= bytes@.subrange(i as int, t as int),
        decreases n - t,
    {
        let b = bytes[t];
        rest.push(b);
        t = t + 1;
        proof {
            assert(rest@ =~= bytes@.subrange(i as int, t as int));
        }
    }
    proof {
        assert(rest@ =~= bytes@.skip(i as int));
    }
    utf8_lossy(rest.as_slice())
}

impl LogEntry {
    /// Constructs a new entry with no prefixes on any of the field names;
    /// values are kept as they stand.
    pub fn trim_fields(&self) -> (r: LogEntry)
        ensures
            r.fields().len() == self.fields().len(),
            forall|i: int|
                0 <= i < self.fields().len() ==> {
                    &&& (#[trigger] r.fields()[i]).0@ == lossy_text_of(
                        skip_prefixes(encode_utf8(self.fields()[i].0@)),
                    )
                    &&& r.fields()[i].1 == self.fields()[i].1
                },
    {
        let mut out: Vec<(String, LogValue)> = Vec::new();
        let mut i: usize = 0;
        while i < self.field_values.len()
            invariant
                i <= self.fields().len(),
                out@.len() == i,
                forall|t: int|
                    0 <= t < i ==> {
                        &&& (#[trigger] out@[t]).0@ == lossy_text_of(
                            skip_prefixes(encode_utf8(self.fields()[t].0@)),
                        )
                        &&& out@[t].1 == self.fields()[t].1
                    },
            decreases self.fields().len() - i,
        {
            let name = trim_name(self.field_values[i].0.as_str());
            let value = clone_log_value(&self.field_values[i].1);
            out.push((name, value));
            i = i + 1;
        }
        LogEntry { field_values: out }
    }

    /// The field names with their prefixes trimmed, in order.
    pub fn trimmed_fields(&self) -> (r: Vec<String>)
        ensures
            r@.len() == self.fields().len(),
            forall|i: int|
                0 <= i < self.fields().len() ==> (#[trigger] r@[i])@ == lossy_text_of(
                    skip_prefixes(encode_utf8(self.fields()[i].0@)),
                ),
    {
        let mut out: Vec<String> = Vec::new();
        let mut i: usize = 0;
        while i < self.field_values.len()
            invariant
                i <= self.fields().len(),
                out@.len() == i,
                forall|t: int|
                    0 <= t < i ==> (#[trigger] out@[t])@ == lossy_text_of(
                        skip_prefixes(encode_utf8(self.fields()[t].0@)),
                    ),
            decreases self.fields().len() - i,
        {
            let name = trim_name(self.field_values[i].0.as_str());
            out.push(name);
            i = i + 1;
        }
        out
    }

    /// Reads an entry from JSON text under the default configuration.
    pub fn try_from(json_str: &str) -> (r: Result<LogEntry, LogEntryError>)
        ensures
            json_of(json_str@) is None ==> (r matches Err(e) && e is Json),
            json_of(json_str@) matches Some(d) ==> (r is Ok <==> entry_ok(
                d,
                "t"@,
                TimestampFormat::EPOCH,
            )),
    {
        match crate::json::parse_json(json_str) {
            Some(d) => LogEntry::from_default_json(d),
            None => Err(LogEntryError::Json(String::from_str("error parsing JSON"))),
        }
    }
}

/// Whether `a`'s every field occurs in `b` under the same name (the first
/// of that name) with an equal value, and the two have equally many fields:
/// how entries are compared.
pub open spec fn log_entry_eq(a: LogEntry, b: LogEntry) -> bool {
    &&& a.fields().len() == b.fields().len()
    &&& forall|i: int|
        0 <= i < a.fields().len() ==> (match le_get(b.fields(), (#[trigger] a.fields()[i]).0@) {
            Some(v) => log_value_eq(a.fields()[i].1, v),
            None => false,
        })
}

impl PartialEq for LogEntry {
    fn eq(&self, other: &LogEntry) -> (r: bool) {
        if self.field_values.len() != other.field_values.len() {
            return false;
        }
        let mut i: usize = 0;
        while i < self.field_values.len()
            invariant
                self.fields().len() == other.fields().len(),
                i <= self.fields().len(),
                forall|t: int|
                    0 <= t < i ==> (match le_get(
                        other.fields(),
                        (#[trigger] self.fields()[t]).0@,
                    ) {
                        Some(v) => log_value_eq(self.fields()[t].1, v),
                        None => false,
                    }),
            decreases self.fields().len() - i,
        {
            match other.get(self.field_values[i].0.as_str()) {
                Some(v) => {
                    if !(&self.field_values[i].1 == v) {
                        return false;
                    }
                },
                None => {
                    return false;
                },
            }
            i = i + 1;
        }
        true
    }
}

impl vstd::std_specs::cmp::PartialEqSpecImpl for LogEntry {
    open spec fn obeys_eq_spec() -> bool {
        true
    }

    open spec fn eq_spec(&self, other: &LogEntry) -> bool {
        log_entry_eq(*self, *other)
    }
}

impl Eq for LogEntry {

}

} // verus!
