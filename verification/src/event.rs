//! The event that traverses a route: a boundary marker, a structured JSON
//! record, or a raw text line, together with the one-line serialization the
//! outputs write.

use vstd::prelude::*;
use vstd::string::*;
use vstd::utf8::encode_utf8;

use crate::json::{json_bytes, JsonData};

verus! {

/// One event. `Boundary` carries no payload and marks a discontinuity of the
/// source, such as a tailed file being rotated away.
#[derive(Debug)]
pub enum Event {
    Boundary,
    Json(JsonData),
    Raw(String),
}

/// The bytes an output writes for `e`, newline included: the compact JSON
/// text of a structured record, or a raw line as it stands. A boundary is
/// acknowledged but writes nothing.
pub open spec fn event_line_bytes(e: Event) -> Option<Seq<u8>> {
    match e {
        Event::Boundary => None,
        Event::Json(d) => Some(json_bytes(d) + seq![10u8]),
        Event::Raw(s) => Some(encode_utf8(s@) + seq![10u8]),
    }
}

/// Serializes an event to the line an output writes, or `None` for a
/// boundary, which is only acknowledged.
pub fn render_event_line(e: &Event) -> (r: Option<Vec<u8>>)
    ensures
        match r {
            Some(v) => event_line_bytes(*e) == Some(v@),
            None => event_line_bytes(*e) is None,
        },
{
    match e {
        Event::Boundary => None,
        Event::Json(d) => {
            let mut out = crate::json::to_json_bytes(d);
            out.push(10);
            proof {
                assert(out@ =~= json_bytes(*d) + seq![10u8]);
            }
            Some(out)
        },
        Event::Raw(s) => {
            let mut out = s.as_str().as_bytes_vec();
            out.push(10);
            proof {
                assert(out@ =~= encode_utf8(s@) + seq![10u8]);
            }
            Some(out)
        },
    }
}

} // verus!
