//! The scalar value domain of a structured log record: null, boolean, signed
//! integer, floating-point number (carried as its decimal text), string, and
//! a milliseconds-since-epoch timestamp, together with the byte codings used
//! by the store.

use vstd::prelude::*;
use vstd::string::*;
use vstd::utf8::encode_utf8;

verus! {

/// Error from the byte codings of a [`LogValue`].
#[derive(Clone, Debug)]
pub enum LogValueError {
    Serialization(String),
    Deserialization(String),
}

/// The tag that accompanies the payload bytes of a coded [`LogValue`].
#[derive(Copy, Clone, Debug, PartialEq, Eq, Structural)]
pub enum ValueType {
    Null,
    True,
    False,
    Integer,
    Float,
    Str,
    TimeStamp,
}

/// A scalar field value. A floating-point number is kept as the decimal text
/// it was read from, and a timestamp as whole milliseconds since the epoch;
/// arrays and nested objects are not represented.
#[derive(Clone, Debug)]
pub enum LogValue {
    Null,
    Bool(bool),
    Integer(i64),
    Float(String),
    Str(String),
    TimeStamp(u64),
}

/// Structural equality of two values, comparing text by its characters.
pub open spec fn log_value_eq(a: LogValue, b: LogValue) -> bool {
    match (a, b) {
        (LogValue::Null, LogValue::Null) => true,
        (LogValue::Bool(x), LogValue::Bool(y)) => x == y,
        (LogValue::Integer(x), LogValue::Integer(y)) => x == y,
        (LogValue::Float(x), LogValue::Float(y)) => x@ == y@,
        (LogValue::Str(x), LogValue::Str(y)) => x@ == y@,
        (LogValue::TimeStamp(x), LogValue::TimeStamp(y)) => x == y,
        _ => false,
    }
}

impl PartialEq for LogValue {
    fn eq(&self, other: &LogValue) -> (r: bool) {
        match (self, other) {
            (LogValue::Null, LogValue::Null) => true,
            (LogValue::Bool(x), LogValue::Bool(y)) => *x == *y,
            (LogValue::Integer(x), LogValue::Integer(y)) => *x == *y,
            (LogValue::Float(x), LogValue::Float(y)) => *x == *y,
            (LogValue::Str(x), LogValue::Str(y)) => *x == *y,
            (LogValue::TimeStamp(x), LogValue::TimeStamp(y)) => *x == *y,
            _ => false,
        }
    }
}

impl vstd::std_specs::cmp::PartialEqSpecImpl for LogValue {
    open spec fn obeys_eq_spec() -> bool {
        true
    }

    open spec fn eq_spec(&self, other: &LogValue) -> bool {
        log_value_eq(*self, *other)
    }
}

impl Eq for LogValue {

}

/// `256^k` for the byte positions of a 64-bit value.
pub open spec fn pow256(k: int) -> nat
    decreases k,
{
    if k <= 0 {
        1
    } else {
        256 * pow256(k - 1)
    }
}

/// Byte `k` of the little-endian coding of `x`.
pub open spec fn le_byte(x: u64, k: int) -> u8 {
    (((x as nat) / pow256(k)) % 256) as u8
}

/// The eight little-endian bytes of `x`.
pub open spec fn u64_le_bytes(x: u64) -> Seq<u8> {
    Seq::new(8, |i: int| le_byte(x, i))
}

/// The eight big-endian bytes of `x`.
pub open spec fn u64_be_bytes(x: u64) -> Seq<u8> {
    Seq::new(8, |i: int| le_byte(x, 7 - i))
}

/// The value read from eight little-endian bytes.
pub open spec fn u64_from_le_bytes_spec(b: Seq<u8>) -> u64 {
    (b[0] + b[1] * 0x100 + b[2] * 0x10000 + b[3] * 0x1000000 + b[4] * 0x100000000 + b[5]
        * 0x10000000000 + b[6] * 0x1000000000000 + b[7] * 0x100000000000000) as u64
}

/// The two's-complement bit pattern of `i` as an unsigned value.
pub open spec fn i64_bits(i: i64) -> u64 {
    if i >= 0 {
        i as u64
    } else {
        (i + 0x10000000000000000) as u64
    }
}

fn u64_to_le_vec(x: u64) -> (v: Vec<u8>)
    ensures
        v@ =~= u64_le_bytes(x),
{
    let mut v: Vec<u8> = Vec::new();
    v.push((x % 256) as u8);
    v.push(((x / 0x100) % 256) as u8);
    v.push(((x / 0x10000) % 256) as u8);
    v.push(((x / 0x1000000) % 256) as u8);
    v.push(((x / 0x100000000) % 256) as u8);
    v.push(((x / 0x10000000000) % 256) as u8);
    v.push(((x / 0x1000000000000) % 256) as u8);
    v.push((x / 0x100000000000000) as u8);
    proof {
        assert(pow256(0) == 1);
        assert(pow256(1) == 0x100);
        assert(pow256(2) == 0x10000);
        assert(pow256(3) == 0x1000000);
        assert(pow256(4) == 0x100000000);
        assert(pow256(5) == 0x10000000000);
        assert(pow256(6) == 0x1000000000000);
        assert(pow256(7) == 0x100000000000000);
        assert((x as nat / 0x100000000000000) % 256 == x as nat / 0x100000000000000);
        assert(v@.len() == 8);
        assert(v@[0] == le_byte(x, 0));
        assert(v@[1] == le_byte(x, 1));
        assert(v@[2] == le_byte(x, 2));
        assert(v@[3] == le_byte(x, 3));
        assert(v@[4] == le_byte(x, 4));
        assert(v@[5] == le_byte(x, 5));
        assert(v@[6] == le_byte(x, 6));
        assert(v@[7] == le_byte(x, 7));
    }
    v
}

fn u64_to_be_vec(x: u64) -> (v: Vec<u8>)
    ensures
        v@ =~= u64_be_bytes(x),
{
    let le = u64_to_le_vec(x);
    let mut v: Vec<u8> = Vec::new();
    v.push(le[7]);
    v.push(le[6]);
    v.push(le[5]);
    v.push(le[4]);
    v.push(le[3]);
    v.push(le[2]);
    v.push(le[1]);
    v.push(le[0]);
    v
}

fn u64_from_le_slice(b: &[u8]) -> (x: u64)
    requires
        b@.len() == 8,
    ensures
        x == u64_from_le_bytes_spec(b@),
{
    b[0] as u64 + b[1] as u64 * 0x100 + b[2] as u64 * 0x10000 + b[3] as u64 * 0x1000000
        + b[4] as u64 * 0x100000000 + b[5] as u64 * 0x10000000000 + b[6] as u64 * 0x1000000000000
        + b[7] as u64 * 0x100000000000000
}

/// The signed value whose two's-complement bit pattern is `bits`.
fn i64_from_bits(bits: u64) -> (i: i64)
    ensures
        i64_bits(i) == bits,
{
    if bits <= 0x7fffffffffffffff {
        bits as i64
    } else {
        let mag: u64 = 0xffffffffffffffff - bits;
        -(mag as i64) - 1
    }
}

/// The two's-complement bit pattern of `i`.
fn i64_to_bits(i: i64) -> (bits: u64)
    ensures
        bits == i64_bits(i),
{
    if i >= 0 {
        i as u64
    } else {
        let mag: i64 = -(i + 1);
        0xffffffffffffffff - (mag as u64)
    }
}

/// The payload bytes that [`LogValue::to_type_bytes`] writes for `v`.
pub open spec fn value_payload(v: LogValue) -> Seq<u8> {
    match v {
        LogValue::Null => Seq::empty(),
        LogValue::Bool(_) => Seq::empty(),
        LogValue::Integer(i) => u64_le_bytes(i64_bits(i)),
        LogValue::Float(f) => encode_utf8(f@),
        LogValue::Str(s) => encode_utf8(s@),
        LogValue::TimeStamp(ms) => u64_le_bytes(ms),
    }
}

/// The tag that [`LogValue::to_type_bytes`] writes for `v`.
pub open spec fn value_tag(v: LogValue) -> ValueType {
    match v {
        LogValue::Null => ValueType::Null,
        LogValue::Bool(b) => if b {
            ValueType::True
        } else {
            ValueType::False
        },
        LogValue::Integer(_) => ValueType::Integer,
        LogValue::Float(_) => ValueType::Float,
        LogValue::Str(_) => ValueType::Str,
        LogValue::TimeStamp(_) => ValueType::TimeStamp,
    }
}

impl LogValue {
    /// Converts a tag and payload back into a value. `Integer` and
    /// `TimeStamp` payloads must be exactly eight bytes; text payloads are
    /// decoded leniently, invalid sequences becoming U+FFFD.
    pub fn from_type_bytes(value_type: ValueType, buff: &[u8]) -> (r: Result<
        LogValue,
        LogValueError,
    >)
        ensures
            r is Err <==> ((value_type == ValueType::Integer || value_type == ValueType::TimeStamp)
                && buff@.len() != 8),
            r matches Ok(v) ==> {
                &&& value_tag(v) == value_type
                &&& value_type == ValueType::Integer ==> i64_bits(v->Integer_0)
                    == u64_from_le_bytes_spec(buff@)
                &&& value_type == ValueType::TimeStamp ==> v->TimeStamp_0 == u64_from_le_bytes_spec(
                    buff@,
                )
                &&& value_type == ValueType::Float ==> v->Float_0@ == crate::text::lossy_text_of(
                    buff@,
                )
                &&& value_type == ValueType::Str ==> v->Str_0@ == crate::text::lossy_text_of(buff@)
            },
    {
        match value_type {
            ValueType::Null => Ok(LogValue::Null),
            ValueType::True => Ok(LogValue::Bool(true)),
            ValueType::False => Ok(LogValue::Bool(false)),
            ValueType::Integer => {
                if buff.len() != 8 {
                    return Err(
                        LogValueError::Deserialization(String::from_str("bad integer payload")),
                    );
                }
                let bits = u64_from_le_slice(buff);
                Ok(LogValue::Integer(i64_from_bits(bits)))
            },
            ValueType::Float => Ok(LogValue::Float(crate::text::utf8_lossy(buff))),
            ValueType::Str => Ok(LogValue::Str(crate::text::utf8_lossy(buff))),
            ValueType::TimeStamp => {
                if buff.len() != 8 {
                    return Err(
                        LogValueError::Deserialization(String::from_str("bad timestamp payload")),
                    );
                }
                Ok(LogValue::TimeStamp(u64_from_le_slice(buff)))
            },
        }
    }

    /// Converts a value into its tag and payload bytes, readable back through
    /// [`LogValue::from_type_bytes`].
    pub fn to_type_bytes(&self) -> (r: (ValueType, Vec<u8>))
        ensures
            r.0 == value_tag(*self),
            r.1@ == value_payload(*self),
    {
        match self {
            LogValue::Null => {
                let v: Vec<u8> = Vec::new();
                proof {
                    assert(v@ =~= Seq::<u8>::empty());
                }
                (ValueType::Null, v)
            },
            LogValue::Bool(b) => {
                let v: Vec<u8> = Vec::new();
                proof {
                    assert(v@ =~= Seq::<u8>::empty());
                }
                if *b {
                    (ValueType::True, v)
                } else {
                    (ValueType::False, v)
                }
            },
            LogValue::Integer(i) => (ValueType::Integer, u64_to_le_vec(i64_to_bits(*i))),
            LogValue::Float(f) => (ValueType::Float, f.as_str().as_bytes_vec()),
            LogValue::Str(s) => (ValueType::Str, s.as_str().as_bytes_vec()),
            LogValue::TimeStamp(ms) => (ValueType::TimeStamp, u64_to_le_vec(*ms)),
        }
    }

    pub fn as_bool(&self) -> (r: Option<bool>)
        ensures
            r == (match *self {
                LogValue::Bool(b) => Some(b),
                _ => None::<bool>,
            }),
    {
        match self {
            LogValue::Bool(b) => Some(*b),
            _ => None,
        }
    }

    /// Returns the value as an `i64` if it is one, `None` otherwise.
    pub fn as_int(&self) -> (r: Option<i64>)
        ensures
            r == (match *self {
                LogValue::Integer(n) => Some(n),
                _ => None::<i64>,
            }),
    {
        if let LogValue::Integer(n) = self {
            Some(*n)
        } else {
            None
        }
    }

    pub fn as_string(&self) -> (r: Option<String>)
        ensures
            r is Some <==> self is Str,
            r matches Some(s) ==> s@ == self->Str_0@,
    {
        match self {
            LogValue::Str(s) => Some(s.clone()),
            _ => None,
        }
    }

    /// The timestamp in whole milliseconds since the epoch, if the value is
    /// one.
    pub fn as_timestamp(&self) -> (r: Option<u64>)
        ensures
            r == (match *self {
                LogValue::TimeStamp(ms) => Some(ms),
                _ => None::<u64>,
            }),
    {
        match self {
            LogValue::TimeStamp(ms) => Some(*ms),
            _ => None,
        }
    }

    /// Convert the value into the bytes used in the index: a fixed-width
    /// big-endian coding for numbers so that byte order follows numeric order
    /// for non-negative values, and a timestamp rounded down to its minute.
    pub fn as_index_bytes(&self) -> (r: Vec<u8>)
        ensures
            r@ == (match *self {
                LogValue::Null => seq![0u8],
                LogValue::Bool(b) => if b {
                    seq![1u8]
                } else {
                    seq![0u8]
                },
                LogValue::Integer(n) => u64_be_bytes(i64_bits(n)),
                LogValue::Float(f) => encode_utf8(f@),
                LogValue::Str(s) => encode_utf8(s@),
                LogValue::TimeStamp(ms) => u64_be_bytes((((ms / 1000) / 60) * 60) as u64),
            }),
    {
        match self {
            LogValue::Null => {
                let mut v: Vec<u8> = Vec::new();
                v.push(0u8);
                proof {
                    assert(v@ =~= seq![0u8]);
                }
                v
            },
            LogValue::Bool(b) => {
                let mut v: Vec<u8> = Vec::new();
                v.push(
                    if *b {
                        1u8
                    } else {
                        0u8
                    },
                );
                proof {
                    assert(v@ =~= if *b {
                        seq![1u8]
                    } else {
                        seq![0u8]
                    });
                }
                v
            },
            LogValue::Integer(n) => u64_to_be_vec(i64_to_bits(*n)),
            LogValue::Float(f) => f.as_str().as_bytes_vec(),
            LogValue::Str(s) => s.as_str().as_bytes_vec(),
            LogValue::TimeStamp(ms) => {
                // index bytes are always rounded down to the minute, in
                // whole seconds
                u64_to_be_vec(((*ms / 1000) / 60) * 60)
            },
        }
    }
}

impl Default for LogValue {
    fn default() -> (r: Self)
        ensures
            r is Null,
    {
        LogValue::Null
    }
}

/// Rounds a millisecond duration down to the nearest minute.
pub fn round_duration(duration_millis: u64) -> (r: u64)
    ensures
        r == (duration_millis / 60000) * 60000,
        r <= duration_millis,
{
    let r = (duration_millis / 60000) * 60000;
    proof {
        assert((duration_millis / 60000) * 60000 <= duration_millis) by (nonlinear_arith);
    }
    r
}

/// Rounds a timestamp value down to the nearest minute. Only a timestamp can
/// be rounded.
pub fn round_timestamp(value: LogValue) -> (r: LogValue)
    requires
        value is TimeStamp,
    ensures
        r == LogValue::TimeStamp(((value->TimeStamp_0 / 60000) * 60000) as u64),
{
    match value {
        LogValue::TimeStamp(ms) => LogValue::TimeStamp(round_duration(ms)),
        _ => LogValue::Null,
    }
}

} // verus!
