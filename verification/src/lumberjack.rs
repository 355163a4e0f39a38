//! The Lumberjack framing codec: a window frame, a zlib-compressed payload,
//! and JSON event entries inside it. The frame grammar is parsed here,
//! verified against a byte-level specification; only the decompression is
//! delegated, to flate2.

use vstd::prelude::*;

use crate::text::{lossy_text_of, utf8_lossy};

verus! {

/// The protocol version byte `'2'`.
pub open spec fn proto_version() -> u8 {
    50
}

/// The big-endian 32-bit value at offset `i`.
pub open spec fn be32(d: Seq<u8>, i: int) -> u32 {
    (d[i] * 0x1000000 + d[i + 1] * 0x10000 + d[i + 2] * 0x100 + d[i + 3]) as u32
}

fn read_be32(d: &Vec<u8>, i: usize) -> (r: u32)
    requires
        i + 4 <= d@.len(),
    ensures
        r == be32(d@, i as int),
{
    let n = d.len();
    let b0 = d[i] as u32;
    let b1 = d[i + 1] as u32;
    let b2 = d[i + 2] as u32;
    let b3 = d[i + 3] as u32;
    proof {
        assert(b0 <= 255 && b1 <= 255 && b2 <= 255 && b3 <= 255);
        assert(b0 * 0x1000000 <= 255 * 0x1000000) by (nonlinear_arith)
            requires
                b0 <= 255,
        ;
        assert(b1 * 0x10000 <= 255 * 0x10000) by (nonlinear_arith)
            requires
                b1 <= 255,
        ;
        assert(b2 * 0x100 <= 255 * 0x100) by (nonlinear_arith)
            requires
                b2 <= 255,
        ;
    }
    b0 * 0x1000000 + b1 * 0x10000 + b2 * 0x100 + b3
}

/// What zlib inflation yields for a byte sequence, or `None` where the
/// stream is corrupt: a function of the bytes alone, named here and
/// computed by flate2.
pub uninterp spec fn zlib_inflate_of(b: Seq<u8>) -> Option<Seq<u8>>;

/// Relies on `flate2::read::ZlibDecoder` and `std::io::Read::read_to_end`:
/// inflates a whole zlib stream, or fails on a corrupt one.
#[verifier::external_body]
fn zlib_inflate(b: &[u8]) -> (r: Option<Vec<u8>>)
    ensures
        r is Some <==> zlib_inflate_of(b@) is Some,
        r matches Some(v) ==> zlib_inflate_of(b@) == Some(v@),
{
    let mut out = Vec::new();
    let mut decoder = flate2::read::ZlibDecoder::new(b);
    match std::io::Read::read_to_end(&mut decoder, &mut out) {
        Ok(_) => Some(out),
        Err(_) => None,
    }
}

/// One event carried in a frame: its sequence number and its payload,
/// decoded leniently to text.
#[derive(Debug)]
pub struct Event {
    pub sequence: usize,
    pub raw: String,
}

impl Event {
    /// Wraps one entry's payload, decoding invalid UTF-8 to U+FFFD.
    pub fn new(seq: usize, raw: &[u8]) -> (r: Self)
        ensures
            r.sequence == seq,
            r.raw@ == lossy_text_of(raw@),
    {
        Event { sequence: seq, raw: utf8_lossy(raw) }
    }
}

/// One decoded frame: the events of its compressed payload, in wire order.
#[derive(Debug)]
pub struct Request {
    pub events: Vec<Event>,
}

/// The codec over a byte buffer.
#[derive(Debug)]
pub struct LumberjackCodec {}

/// The event entries read from a decompressed payload starting at `i`:
/// each entry is version `'2'`, code `'J'`, a big-endian sequence number,
/// a big-endian length, and that many payload bytes. `None` where the
/// entries do not fill the payload exactly.
pub open spec fn events_spec(d: Seq<u8>, i: int) -> Option<Seq<(u32, Seq<u8>)>>
    decreases d.len() - i,
{
    if i == d.len() {
        Some(Seq::empty())
    } else if i < 0 || i > d.len() {
        None
    } else if d.len() - i >= 10 && d[i] == proto_version() && d[i + 1] == 74 {
        let sq = be32(d, i + 2);
        let dl = be32(d, i + 6) as int;
        if i + 10 + dl <= d.len() {
            match events_spec(d, i + 10 + dl) {
                Some(rest) => Some(seq![(sq, d.subrange(i + 10, i + 10 + dl))] + rest),
                None => None,
            }
        } else {
            None
        }
    } else {
        None
    }
}

/// Whether the buffer carries a well-formed outer frame: a window header,
/// then a compressed-payload header whose length fits in the buffer.
pub open spec fn frame_header_ok(b: Seq<u8>) -> bool {
    &&& b.len() >= 12
    &&& b[0] == proto_version()
    &&& b[1] == 87
    &&& b[6] == proto_version()
    &&& b[7] == 67
    &&& 12 + (be32(b, 8) as int) <= b.len()
}

/// Whether a decoded request carries exactly these entries, in order.
pub open spec fn request_matches(req: Request, evs: Seq<(u32, Seq<u8>)>) -> bool {
    &&& req.events@.len() == evs.len()
    &&& forall|k: int|
        0 <= k < evs.len() ==> {
            &&& (#[trigger] req.events@[k]).sequence == evs[k].0
            &&& req.events@[k].raw@ == lossy_text_of(evs[k].1)
        }
}

/// The events of a buffered frame: the entries of the inflated payload, or
/// `None` where the frame, the zlib stream, or an entry is malformed.
pub open spec fn frame_events(b: Seq<u8>) -> Option<Seq<(u32, Seq<u8>)>> {
    if frame_header_ok(b) {
        match zlib_inflate_of(b.subrange(12, 12 + be32(b, 8) as int)) {
            Some(d) => events_spec(d, 0),
            None => None,
        }
    } else {
        None
    }
}

impl LumberjackCodec {
    /// Decodes one buffered frame. An empty buffer is not yet a frame;
    /// anything else is consumed whole and must parse, its events coming
    /// out in wire order with their payloads decoded leniently to text.
    pub fn decode(&mut self, src: &mut Vec<u8>) -> (r: Result<Option<Request>, ()>)
        ensures
            old(src)@.len() == 0 ==> (r matches Ok(None) && final(src)@.len() == 0),
            old(src)@.len() > 0 ==> {
                &&& final(src)@.len() == 0
                &&& (r is Err <==> frame_events(old(src)@) is None)
                &&& (r matches Ok(opt) ==> opt is Some)
                &&& (r matches Ok(Some(req)) ==> request_matches(
                    req,
                    frame_events(old(src)@)->Some_0,
                ))
            },
    {
        let n = src.len();
        if n == 0 {
            return Ok(None);
        }
        let ghost b = src@;
        // the buffer is consumed whether or not it parses
        let mut buf: Vec<u8> = Vec::new();
        core::mem::swap(src, &mut buf);
        if n < 12 {
            return Err(());
        }
        if !(buf[0] == 50 && buf[1] == 87 && buf[6] == 50 && buf[7] == 67) {
            return Err(());
        }
        let payload_len_u32 = read_be32(&buf, 8);
        let payload_len = payload_len_u32 as usize;
        if payload_len > n - 12 {
            proof {
                assert(!frame_header_ok(b));
            }
            return Err(());
        }
        // carve out the compressed payload
        let mut payload: Vec<u8> = Vec::new();
        let end: usize = 12 + payload_len;
        let mut t: usize = 12;
        while t < end
            invariant
                12 <= t <= end,
                end == 12 + payload_len,
                end <= buf@.len(),
                payload@ =~= buf@.subrange(12, t as int),
            decreases end - t,
        {
            let byte = buf[t];
            payload.push(byte);
            t = t + 1;
            proof {
                assert(payload@ =~= buf@.subrange(12, t as int));
            }
        }
        proof {
            assert(frame_header_ok(b));
            assert(payload@ =~= b.subrange(12, 12 + be32(b, 8) as int));
        }
        let inflated = match zlib_inflate(payload.as_slice()) {
            Some(d) => d,
            None => {
                return Err(());
            },
        };
        let ghost d = inflated@;
        proof {
            assert(frame_events(b) == events_spec(d, 0));
        }
        // walk the event entries
        let mut events: Vec<Event> = Vec::new();
        let mut i: usize = 0;
        let m = inflated.len();
        loop
            invariant_except_break
                i <= m,
                m == d.len(),
                inflated@ == d,
                src@.len() == 0,
                b == old(src)@,
                b.len() > 0,
                frame_events(b) == events_spec(d, 0),
                match events_spec(d, i as int) {
                    Some(rest) => {
                        &&& events_spec(d, 0) matches Some(all)
                        &&& all.len() == events@.len() + rest.len()
                        &&& forall|k: int|
                            0 <= k < events@.len() ==> {
                                &&& (#[trigger] events@[k]).sequence == all[k].0
                                &&& events@[k].raw@ == lossy_text_of(all[k].1)
                            }
                        &&& forall|k: int|
                            0 <= k < rest.len() ==> all[events@.len() + k] == rest[k]
                    },
                    None => events_spec(d, 0) is None,
                },
            ensures
                src@.len() == 0,
                frame_events(b) == events_spec(d, 0),
                events_spec(d, 0) matches Some(all) && all.len() == events@.len() && forall|k: int|
                    0 <= k < events@.len() ==> {
                        &&& (#[trigger] events@[k]).sequence == all[k].0
                        &&& events@[k].raw@ == lossy_text_of(all[k].1)
                    },
            decreases m - i,
        {
            if i == m {
                proof {
                    assert(events_spec(d, m as int) == Some(Seq::<(u32, Seq<u8>)>::empty()));
                }
                break;
            }
            if m - i < 10 {
                proof {
                    assert(events_spec(d, i as int) is None);
                }
                return Err(());
            }
            if !(inflated[i] == 50 && inflated[i + 1] == 74) {
                proof {
                    assert(events_spec(d, i as int) is None);
                }
                return Err(());
            }
            let sq = read_be32(&inflated, i + 2);
            let dl_u32 = read_be32(&inflated, i + 6);
            let dl = dl_u32 as usize;
            if dl > m - (i + 10) {
                proof {
                    assert(events_spec(d, i as int) is None);
                }
                return Err(());
            }
            let entry_end: usize = i + 10 + dl;
            let mut data: Vec<u8> = Vec::new();
            let mut t: usize = i + 10;
            while t < entry_end
                invariant
                    i + 10 <= t <= entry_end,
                    entry_end == i + 10 + dl,
                    entry_end <= inflated@.len(),
                    data@ =~= inflated@.subrange(i + 10, t as int),
                decreases entry_end - t,
            {
                let byte = inflated[t];
                data.push(byte);
                t = t + 1;
                proof {
                    assert(data@ =~= inflated@.subrange(i + 10, t as int));
                }
            }
            let ghost old_events = events@;
            let ev = Event::new(sq as usize, data.as_slice());
            events.push(ev);
            proof {
                let ghost entry = (sq, d.subrange(i as int + 10, i as int + 10 + dl as int));
                let ghost inner = events_spec(d, i as int + 10 + dl as int);
                if inner is Some {
                    assert(events_spec(d, i as int) == Some(
                        seq![entry] + inner->Some_0,
                    ));
                    let rest = events_spec(d, i as int)->Some_0;
                    let all = events_spec(d, 0)->Some_0;
                    assert(rest[0] == entry);
                    assert(all[old_events.len() as int] == entry);
                    assert(events@ =~= old_events.push(ev));
                    assert(ev.sequence == entry.0);
                    assert(ev.raw@ == lossy_text_of(entry.1));
                    assert forall|k: int| 0 <= k < inner->Some_0.len() implies all[
                        events@.len() + k
                    ] == inner->Some_0[k] by {
                        assert(all[old_events.len() + (k + 1)] == rest[k + 1]);
                        assert(rest[k + 1] == (seq![entry] + inner->Some_0)[k + 1]);
                    };
                } else {
                    assert(events_spec(d, i as int) is None);
                }
            }
            i = entry_end;
        }
        Ok(Some(Request { events }))
    }
}

} // verus!
