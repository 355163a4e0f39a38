//! The syslog parser transform, and the firewall-log variant built on the
//! same key-value grammar. The wire-format parsing is syslog_loose's, behind
//! a trusted conversion into plain values; turning those values into a
//! structured record is verified here.

use chrono::Utc;
use syslog_loose::{parse_message_with_year_tz, Variant};
use vstd::prelude::*;
use vstd::string::*;
use vstd::utf8::encode_utf8;

use crate::event::Event;
use crate::json::{
    fields_view, json_of, obj_set, parse_json, vset, JsonData, JsonNum,
};
use crate::transforms::{logfmt_pairs, logfmt_pairs_of, pairs_correspond, TransformOutcome};

verus! {

/// One structured-data element of a syslog message, as plain values.
#[derive(Debug)]
pub struct SdElement {
    pub id: String,
    pub params: Vec<(String, String)>,
}

/// What a parsed syslog message holds, as plain values. A missing part is
/// `None`; the process id is either numeric or a name, never both.
#[derive(Debug)]
pub struct SyslogFields {
    pub timestamp_millis: Option<i64>,
    pub appname: Option<String>,
    pub facility: Option<String>,
    pub msgid: Option<String>,
    pub hostname: Option<String>,
    pub procid_num: Option<i64>,
    pub procid_name: Option<String>,
    pub severity: Option<String>,
    pub sd: Vec<SdElement>,
    pub msg: String,
}

/// The application name the wire parse reads from a line under a given
/// year, as characters, if the line carries one. The wire parse here is
/// `parse_message_with_year_tz` with the year supplied and the zone fixed
/// to UTC, which makes every part of it — the timestamp included — a
/// function of the line and the year alone; each part is named below and
/// computed by syslog_loose.
pub uninterp spec fn appname_of(s: Seq<char>, year: i32) -> Option<Seq<char>>;

/// The facility name the wire parse reads from a line, if any.
pub uninterp spec fn facility_of(s: Seq<char>, year: i32) -> Option<Seq<char>>;

/// The message id the wire parse reads from a line, if any.
pub uninterp spec fn msgid_of(s: Seq<char>, year: i32) -> Option<Seq<char>>;

/// The hostname the wire parse reads from a line, if any.
pub uninterp spec fn hostname_of(s: Seq<char>, year: i32) -> Option<Seq<char>>;

/// The severity name the wire parse reads from a line, if any.
pub uninterp spec fn severity_of(s: Seq<char>, year: i32) -> Option<Seq<char>>;

/// The numeric process id the wire parse reads from a line, if any.
pub uninterp spec fn procid_num_of(s: Seq<char>, year: i32) -> Option<i64>;

/// The textual process id the wire parse reads from a line, if any; never
/// present together with the numeric one.
pub uninterp spec fn procid_name_of(s: Seq<char>, year: i32) -> Option<Seq<char>>;

/// The structured-data elements the wire parse reads from a line: each an
/// id with its raw parameters, in wire order.
pub uninterp spec fn sd_of(s: Seq<char>, year: i32) -> Seq<(Seq<char>, Seq<(Seq<char>, Seq<char>)>)>;

/// The message body the wire parse reads from a line; an unparsable line
/// is its own body, whole.
pub uninterp spec fn msg_text_of(s: Seq<char>, year: i32) -> Seq<char>;

/// The timestamp the wire parse reads from a line, as epoch milliseconds,
/// if the line carries one: a year-less date is completed with the given
/// year and read in UTC.
pub uninterp spec fn timestamp_millis_of(s: Seq<char>, year: i32) -> Option<i64>;

/// An optional text, read as its characters.
pub open spec fn opt_text(o: Option<String>) -> Option<Seq<char>> {
    match o {
        Some(t) => Some(t@),
        None => None,
    }
}

/// One structured-data element, read at the level of its characters.
pub open spec fn sd_elem_view(e: SdElement) -> (Seq<char>, Seq<(Seq<char>, Seq<char>)>) {
    (e.id@, e.params@.map_values(|p: (String, String)| (p.0@, p.1@)))
}

/// A structured-data list, read at the level of its characters.
pub open spec fn sd_view(sd: Seq<SdElement>) -> Seq<(Seq<char>, Seq<(Seq<char>, Seq<char>)>)> {
    sd.map_values(|e: SdElement| sd_elem_view(e))
}

/// Whether `f` holds exactly what the wire parse reads from `line` under
/// `year`.
pub open spec fn syslog_fields_match(f: SyslogFields, line: Seq<char>, year: i32) -> bool {
    &&& f.timestamp_millis == timestamp_millis_of(line, year)
    &&& opt_text(f.appname) == appname_of(line, year)
    &&& opt_text(f.facility) == facility_of(line, year)
    &&& opt_text(f.msgid) == msgid_of(line, year)
    &&& opt_text(f.hostname) == hostname_of(line, year)
    &&& opt_text(f.severity) == severity_of(line, year)
    &&& f.procid_num == procid_num_of(line, year)
    &&& opt_text(f.procid_name) == procid_name_of(line, year)
    &&& sd_view(f.sd@) == sd_of(line, year)
    &&& f.msg@ == msg_text_of(line, year)
}

/// Relies on `syslog_loose::parse_message_with_year_tz` with the given
/// year and the UTC zone (RFC 5424, falling back to RFC 3164; a line whose
/// header does not parse comes back whole as the message) and
/// `chrono::DateTime::timestamp_millis`: the line's timestamp, a function
/// of the line and the year.
#[verifier::external_body]
fn msg_timestamp(s: &str, year: i32) -> (r: Option<i64>)
    ensures
        r == timestamp_millis_of(s@, year),
{
    let m = parse_message_with_year_tz(s, |_| year, Some(Utc), Variant::Either);
    m.timestamp.map(|t| t.timestamp_millis())
}

/// Relies on the same parse and the `as_str` accessors of its facility and
/// severity: the line's named parts, each moved into an owned string.
#[verifier::external_body]
fn msg_names(s: &str, year: i32) -> (r: (
    Option<String>,
    Option<String>,
    Option<String>,
    Option<String>,
    Option<String>,
))
    ensures
        opt_text(r.0) == appname_of(s@, year),
        opt_text(r.1) == facility_of(s@, year),
        opt_text(r.2) == msgid_of(s@, year),
        opt_text(r.3) == hostname_of(s@, year),
        opt_text(r.4) == severity_of(s@, year),
{
    let m = parse_message_with_year_tz(s, |_| year, Some(Utc), Variant::Either);
    let appname = m.appname.map(|x| x.to_string());
    let facility = m.facility.map(|x| x.as_str().to_string());
    let msgid = m.msgid.map(|x| x.to_string());
    let hostname = m.hostname.map(|x| x.to_string());
    (appname, facility, msgid, hostname, m.severity.map(|x| x.as_str().to_string()))
}

/// Relies on the same parse and `syslog_loose::ProcId`: the line's process
/// id as a number or a name, one arm each.
#[verifier::external_body]
fn msg_procid(s: &str, year: i32) -> (r: (Option<i64>, Option<String>))
    ensures
        r.0 == procid_num_of(s@, year),
        opt_text(r.1) == procid_name_of(s@, year),
{
    match parse_message_with_year_tz(s, |_| year, Some(Utc), Variant::Either).procid {
        Some(syslog_loose::ProcId::PID(p)) => (Some(p as i64), None),
        Some(syslog_loose::ProcId::Name(n)) => (None, Some(n.to_string())),
        None => (None, None),
    }
}

/// Relies on the same parse and `syslog_loose::StructuredElement`: the
/// line's structured-data elements, each id and raw parameter moved into
/// owned strings.
#[verifier::external_body]
fn msg_sd(s: &str, year: i32) -> (r: Vec<SdElement>)
    ensures
        sd_view(r@) == sd_of(s@, year),
{
    let m = parse_message_with_year_tz(s, |_| year, Some(Utc), Variant::Either);
    m.structured_data.iter().map(
        |e| SdElement {
            id: e.id.to_string(),
            params: e.params.iter().map(|(k, v)| (k.to_string(), v.to_string())).collect(),
        },
    ).collect()
}

/// Relies on the same parse: the line's message body.
#[verifier::external_body]
fn msg_text(s: &str, year: i32) -> (r: String)
    ensures
        r@ == msg_text_of(s@, year),
{
    parse_message_with_year_tz(s, |_| year, Some(Utc), Variant::Either).msg.to_string()
}

/// Parses a syslog line into plain values under a given year: syslog_loose
/// reads the wire format with the year supplied and the zone fixed to UTC,
/// and each part is moved over one for one. The whole result is a function
/// of the line and the year.
pub fn parse_syslog_message(s: &str, year: i32) -> (r: SyslogFields)
    ensures
        syslog_fields_match(r, s@, year),
{
    let (appname, facility, msgid, hostname, severity) = msg_names(s, year);
    let (procid_num, procid_name) = msg_procid(s, year);
    SyslogFields {
        timestamp_millis: msg_timestamp(s, year),
        appname,
        facility,
        msgid,
        hostname,
        procid_num,
        procid_name,
        severity,
        sd: msg_sd(s, year),
        msg: msg_text(s, year),
    }
}

/// Adds the parameters of one structured-data element, in order.
pub open spec fn params_fold(
    r: Seq<(Seq<char>, JsonData)>,
    params: Seq<(String, String)>,
) -> Seq<(Seq<char>, JsonData)>
    decreases params.len(),
{
    if params.len() == 0 {
        r
    } else {
        params_fold(
            vset(r, params.first().0@, JsonData::Str(params.first().1)),
            params.drop_first(),
        )
    }
}

/// Adds the structured-data elements: each element's non-empty id under
/// `id`, then its parameters.
pub open spec fn sd_fold(r: Seq<(Seq<char>, JsonData)>, sd: Seq<SdElement>) -> Seq<
    (Seq<char>, JsonData),
>
    decreases sd.len(),
{
    if sd.len() == 0 {
        r
    } else {
        let with_id = if sd.first().id@.len() > 0 {
            vset(r, "id"@, JsonData::Str(sd.first().id))
        } else {
            r
        };
        sd_fold(params_fold(with_id, sd.first().params@), sd.drop_first())
    }
}

/// Adds an optional named part.
pub open spec fn opt_field(
    r: Seq<(Seq<char>, JsonData)>,
    key: Seq<char>,
    v: Option<String>,
) -> Seq<(Seq<char>, JsonData)> {
    match v {
        Some(s) => vset(r, key, JsonData::Str(s)),
        None => r,
    }
}

/// Merges the fields of the message body into the record: a body that is a
/// JSON object contributes its fields one by one; any other valid JSON
/// value, or a body that is not JSON, goes under `+message`.
pub open spec fn msg_fold(
    r: Seq<(Seq<char>, JsonData)>,
    parsed: Option<JsonData>,
    msg: String,
) -> Seq<(Seq<char>, JsonData)> {
    match parsed {
        Some(JsonData::Obj(fs)) => merge_fields(r, fs@),
        Some(other) => vset(r, "+message"@, other),
        None => vset(r, "+message"@, JsonData::Str(msg)),
    }
}

/// Adds the fields of another object, in order.
pub open spec fn merge_fields(
    r: Seq<(Seq<char>, JsonData)>,
    fs: Seq<(String, JsonData)>,
) -> Seq<(Seq<char>, JsonData)>
    decreases fs.len(),
{
    if fs.len() == 0 {
        r
    } else {
        merge_fields(vset(r, fs.first().0@, fs.first().1), fs.drop_first())
    }
}

/// The record built from a parsed syslog message: the timestamp (from the
/// message, else the clock) under the configured field, then the named
/// parts, the structured data, and the message body.
pub open spec fn syslog_record(
    f: SyslogFields,
    ts_field: Seq<char>,
    now_millis: i64,
    parsed_msg: Option<JsonData>,
) -> Seq<(Seq<char>, JsonData)> {
    let ts = match f.timestamp_millis {
        Some(t) => t,
        None => now_millis,
    };
    let r = vset(Seq::empty(), ts_field, JsonData::Num(JsonNum::Int(ts)));
    let r = opt_field(r, "app_name"@, f.appname);
    let r = opt_field(r, "facility"@, f.facility);
    let r = opt_field(r, "msg_id"@, f.msgid);
    let r = opt_field(r, "hostname"@, f.hostname);
    let r = match f.procid_num {
        Some(p) => vset(r, "proc_id"@, JsonData::Num(JsonNum::Int(p))),
        None => opt_field(r, "proc_id"@, f.procid_name),
    };
    let r = opt_field(r, "severity"@, f.severity);
    let r = sd_fold(r, f.sd@);
    msg_fold(r, parsed_msg, f.msg)
}

/// Builds the structured record for a parsed syslog message. The clock
/// reading stands in for a message without its own timestamp.
pub fn build_syslog_record(fields: SyslogFields, ts_field: &str, now_millis: i64) -> (r: Vec<
    (String, JsonData),
>)
    ensures
        fields_view(r@) == syslog_record(fields, ts_field@, now_millis, json_of(fields.msg@)),
{
    let SyslogFields {
        timestamp_millis,
        appname,
        facility,
        msgid,
        hostname,
        procid_num,
        procid_name,
        severity,
        sd,
        msg,
    } = fields;
    let mut out: Vec<(String, JsonData)> = Vec::new();
    let ts: i64 = match timestamp_millis {
        Some(t) => t,
        None => now_millis,
    };
    proof {
        assert(fields_view(Seq::<(String, JsonData)>::empty()) =~= Seq::<
            (Seq<char>, JsonData),
        >::empty());
    }
    set_field(&mut out, ts_field.to_owned(), JsonData::Num(JsonNum::Int(ts)));
    if let Some(a) = appname {
        set_field(&mut out, String::from_str("app_name"), JsonData::Str(a));
    }
    if let Some(a) = facility {
        set_field(&mut out, String::from_str("facility"), JsonData::Str(a));
    }
    if let Some(a) = msgid {
        set_field(&mut out, String::from_str("msg_id"), JsonData::Str(a));
    }
    if let Some(a) = hostname {
        set_field(&mut out, String::from_str("hostname"), JsonData::Str(a));
    }
    match procid_num {
        Some(p) => set_field(&mut out, String::from_str("proc_id"), JsonData::Num(JsonNum::Int(p))),
        None => {
            if let Some(a) = procid_name {
                set_field(&mut out, String::from_str("proc_id"), JsonData::Str(a));
            }
        },
    }
    if let Some(a) = severity {
        set_field(&mut out, String::from_str("severity"), JsonData::Str(a));
    }
    let ghost before_sd = fields_view(out@);
    proof {
        assert(sd@.skip(0) =~= sd@);
    }
    let mut i: usize = 0;
    while i < sd.len()
        invariant
            i <= sd@.len(),
            sd_fold(fields_view(out@), sd@.skip(i as int)) == sd_fold(before_sd, sd@),
        decreases sd@.len() - i,
    {
        let element = &sd[i];
        if !element.id.as_str().is_empty() {
            set_field(&mut out, String::from_str("id"), JsonData::Str(element.id.clone()));
        }
        let ghost with_id = fields_view(out@);
        proof {
            assert(element.params@.skip(0) =~= element.params@);
        }
        let mut j: usize = 0;
        while j < element.params.len()
            invariant
                j <= element.params@.len(),
                params_fold(fields_view(out@), element.params@.skip(j as int)) == params_fold(
                    with_id,
                    element.params@,
                ),
            decreases element.params@.len() - j,
        {
            let p = &element.params[j];
            let ghost pre = fields_view(out@);
            set_field(&mut out, p.0.clone(), JsonData::Str(p.1.clone()));
            proof {
                assert(element.params@.skip(j as int).first() == element.params@[j as int]);
                assert(element.params@.skip(j as int).drop_first() =~= element.params@.skip(j + 1));
            }
            j = j + 1;
        }
        proof {
            assert(element.params@.skip(element.params@.len() as int) =~= Seq::<
                (String, String),
            >::empty());
            assert(sd@.skip(i as int).first() == sd@[i as int]);
            assert(sd@.skip(i as int).drop_first() =~= sd@.skip(i + 1));
        }
        i = i + 1;
    }
    proof {
        assert(sd@.skip(sd@.len() as int) =~= Seq::<SdElement>::empty());
    }
    // the message body: a JSON object is merged field by field; anything
    // else lands under "+message"
    match parse_json(msg.as_str()) {
        Some(parsed) => {
            match parsed {
                JsonData::Obj(fs) => {
                    let ghost before_msg = fields_view(out@);
                    let ghost all_fs = fs@;
                    let mut fs = fs;
                    while fs.len() > 0
                        invariant
                            merge_fields(fields_view(out@), fs@) == merge_fields(
                                before_msg,
                                all_fs,
                            ),
                        decreases fs@.len(),
                    {
                        let ghost fs_pre = fs@;
                        let pair = fs.remove(0);
                        proof {
                            assert(fs@ =~= fs_pre.drop_first());
                        }
                        set_field(&mut out, pair.0, pair.1);
                    }
                },
                other => {
                    set_field(&mut out, String::from_str("+message"), other);
                },
            }
        },
        None => {
            set_field(&mut out, String::from_str("+message"), JsonData::Str(msg));
        },
    }
    out
}

/// Sets one field, tracking the viewed form.
fn set_field(out: &mut Vec<(String, JsonData)>, key: String, value: JsonData)
    ensures
        fields_view(final(out)@) == vset(fields_view(old(out)@), key@, value),
{
    let ghost pre = out@;
    let ghost key_ghost = key;
    let ghost value_ghost = value;
    obj_set(out, key, value);
    proof {
        crate::json::lemma_view_set(pre, key_ghost, value_ghost);
    }
}

/// Attempt to convert a syslog line into a structured record: the verified
/// build of the wire parse of this very line. Only the clock readings stay
/// existential — the year that completes a year-less date and the fallback
/// timestamp; every part of the record is pinned to the line and that year
/// through the named parse results.
pub fn parse_syslog(syslog_message: &str, timestamp_field: &str) -> (r: Vec<(String, JsonData)>)
    ensures
        exists|f: SyslogFields, year: i32, now: i64|
            #![trigger syslog_fields_match(f, syslog_message@, year), syslog_record(f, timestamp_field@, now, json_of(f.msg@))]
            syslog_fields_match(f, syslog_message@, year) && fields_view(r@) == syslog_record(
                f,
                timestamp_field@,
                now,
                json_of(f.msg@),
            ),
{
    let now = crate::time::now_millis();
    let year = crate::time::utc_year_of_millis(now);
    let fields = parse_syslog_message(syslog_message, year);
    let ghost f_ghost = fields;
    let r = build_syslog_record(fields, timestamp_field, now);
    proof {
        assert(syslog_fields_match(f_ghost, syslog_message@, year) && fields_view(r@)
            == syslog_record(f_ghost, timestamp_field@, now, json_of(f_ghost.msg@)));
    }
    r
}

/// The syslog parser as a route transform: a raw event becomes the
/// structured record of its own wire parse; boundary and already-structured
/// events are skipped.
pub fn syslog_apply(event: Event, ts_field: &String) -> (r: TransformOutcome)
    ensures
        event is Boundary ==> r is Skip,
        event is Json ==> r is Skip,
        event matches Event::Raw(msg) ==> (r matches TransformOutcome::Emit(Event::Json(
            JsonData::Obj(out),
        )) && (exists|f: SyslogFields, year: i32, now: i64|
            #![trigger syslog_fields_match(f, msg@, year), syslog_record(f, ts_field@, now, json_of(f.msg@))]
            syslog_fields_match(f, msg@, year) && fields_view(out@) == syslog_record(
                f,
                ts_field@,
                now,
                json_of(f.msg@),
            ))),
{
    match event {
        Event::Boundary => TransformOutcome::Skip,
        Event::Json(_) => TransformOutcome::Skip,
        Event::Raw(msg) => {
            let record = parse_syslog(msg.as_str(), ts_field.as_str());
            TransformOutcome::Emit(Event::Json(JsonData::Obj(record)))
        },
    }
}


/// The index of the first `>` byte at or after `i`, or the length if none.
pub open spec fn find_gt(bytes: Seq<u8>, i: int) -> int
    decreases bytes.len() - i,
{
    if i < 0 || i >= bytes.len() {
        bytes.len() as int
    } else if bytes[i] == 62 {
        i
    } else {
        find_gt(bytes, i + 1)
    }
}

proof fn lemma_find_gt_exact(bytes: Seq<u8>, i: int, j: int)
    requires
        0 <= i <= j < bytes.len(),
        bytes[j] == 62,
        forall|t: int| i <= t < j ==> bytes[t] != 62,
    ensures
        find_gt(bytes, i) == j,
    decreases j - i,
{
    if i < j {
        lemma_find_gt_exact(bytes, i + 1, j);
    }
}

proof fn lemma_find_gt_none(bytes: Seq<u8>, i: int)
    requires
        0 <= i <= bytes.len(),
        forall|t: int| i <= t < bytes.len() ==> bytes[t] != 62,
    ensures
        find_gt(bytes, i) == bytes.len(),
    decreases bytes.len() - i,
{
    if i < bytes.len() {
        lemma_find_gt_none(bytes, i + 1);
    }
}

/// Builds the firewall record fields from parsed pairs: the `date` and
/// `time` pairs are withheld for the timestamp, a bare key adds nothing,
/// and every other pair adds its value as text.
pub open spec fn fortinet_fold(
    r: Seq<(Seq<char>, JsonData)>,
    pairs: Seq<(String, Option<String>)>,
) -> Seq<(Seq<char>, JsonData)>
    decreases pairs.len(),
{
    if pairs.len() == 0 {
        r
    } else {
        let key = pairs.first().0;
        let rest = pairs.drop_first();
        if key@ == "date"@ || key@ == "time"@ {
            fortinet_fold(r, rest)
        } else {
            match pairs.first().1 {
                Some(t) => fortinet_fold(vset(r, key@, JsonData::Str(t)), rest),
                None => fortinet_fold(r, rest),
            }
        }
    }
}

/// What the firewall-log parser guarantees for a raw line: with a `>` in
/// the line, the record is the key-value fold of the text after the first
/// one, with a timestamp under `ts_field`; without one, the line is read
/// as plain syslog.
pub open spec fn fortinet_post(r: TransformOutcome, msg: Seq<char>, ts_field: Seq<char>) -> bool {
    let bytes = encode_utf8(msg);
    let k = find_gt(bytes, 0);
    if k < bytes.len() {
        (r matches TransformOutcome::Emit(Event::Json(JsonData::Obj(out)))
            && (exists|p: Seq<(String, Option<String>)>, t: i64|
            #![trigger vset(fortinet_fold(Seq::empty(), p), ts_field, JsonData::Num(JsonNum::Int(t)))]
            pairs_correspond(
                p,
                logfmt_pairs_of(crate::text::lossy_text_of(bytes.skip(k + 1))),
            ) && fields_view(out@) == vset(
                fortinet_fold(Seq::empty(), p),
                ts_field,
                JsonData::Num(JsonNum::Int(t)),
            )))
    } else {
        (r matches TransformOutcome::Emit(Event::Json(JsonData::Obj(out)))
            && (exists|f: SyslogFields, year: i32, now: i64|
            #![trigger syslog_fields_match(f, msg, year), syslog_record(f, ts_field, now, json_of(f.msg@))]
            syslog_fields_match(f, msg, year) && fields_view(out@) == syslog_record(
                f,
                ts_field,
                now,
                json_of(f.msg@),
            )))
    }
}

/// The firewall-log parser: a raw line with a `<pri>` prefix is read as
/// `key=value` pairs after the first `>`; its `date` and `time` pairs are
/// stitched into an epoch timestamp under `ts_field` (the clock stands in
/// when they are absent or unreadable). A line without `>` is parsed as
/// plain syslog. Boundary and structured events are skipped.
pub fn fortinet_apply(event: Event, ts_field: &String) -> (r: TransformOutcome)
    ensures
        event is Boundary ==> r is Skip,
        event is Json ==> r is Skip,
        event matches Event::Raw(msg) ==> fortinet_post(r, msg@, ts_field@),
{
    match event {
        Event::Boundary => TransformOutcome::Skip,
        Event::Json(_) => TransformOutcome::Skip,
        Event::Raw(msg) => {
            let bytes = msg.as_str().as_bytes_vec();
            let n = bytes.len();
            let mut k: usize = 0;
            while k < n
                invariant_except_break
                    n == bytes@.len(),
                    k <= n,
                    forall|t: int| 0 <= t < k ==> bytes@[t] != 62,
                ensures
                    n == bytes@.len(),
                    k <= n,
                    forall|t: int| 0 <= t < k ==> bytes@[t] != 62,
                    k < n ==> bytes@[k as int] == 62,
                decreases n - k,
            {
                if bytes[k] == 62 {
                    break;
                }
                k = k + 1;
            }
            if k < n {
                proof {
                    lemma_find_gt_exact(bytes@, 0, k as int);
                }
                // take the text after the priority prefix
                let mut suffix: Vec<u8> = Vec::new();
                let mut t: usize = k + 1;
                while t < n
                    invariant
                        n == bytes@.len(),
                        k + 1 <= t <= n,
                        suffix@ =~= bytes@.subrange(k + 1, t as int),
                    decreases n - t,
                {
                    let b = bytes[t];
                    suffix.push(b);
                    t = t + 1;
                    proof {
                        assert(suffix@ =~= bytes@.subrange(k + 1, t as int));
                    }
                }
                proof {
                    assert(suffix@ =~= bytes@.skip(k + 1));
                }
                let text = crate::text::utf8_lossy(suffix.as_slice());
                let pairs = logfmt_pairs(text.as_str());
                let ghost all_pairs = pairs@;
                let mut out: Vec<(String, JsonData)> = Vec::new();
                let mut date: Option<String> = None;
                let mut time: Option<String> = None;
                proof {
                    assert(fields_view(Seq::<(String, JsonData)>::empty()) =~= Seq::<
                        (Seq<char>, JsonData),
                    >::empty());
                    assert(all_pairs.skip(0) =~= all_pairs);
                }
                let mut i: usize = 0;
                while i < pairs.len()
                    invariant
                        i <= pairs@.len(),
                        pairs@ == all_pairs,
                        fortinet_fold(fields_view(out@), all_pairs.skip(i as int))
                            == fortinet_fold(Seq::empty(), all_pairs),
                    decreases pairs@.len() - i,
                {
                    let pi = &pairs[i];
                    proof {
                        assert(all_pairs.skip(i as int).first() == all_pairs[i as int]);
                        assert(all_pairs.skip(i as int).drop_first() =~= all_pairs.skip(i + 1));
                    }
                    if crate::text::str_eq(pi.0.as_str(), "date") {
                        date = match &pi.1 {
                            Some(v) => Some(v.clone()),
                            None => None,
                        };
                    } else if crate::text::str_eq(pi.0.as_str(), "time") {
                        time = match &pi.1 {
                            Some(v) => Some(v.clone()),
                            None => None,
                        };
                    } else {
                        match &pi.1 {
                            Some(v) => {
                                set_field(&mut out, pi.0.clone(), JsonData::Str(v.clone()));
                            },
                            None => {},
                        }
                    }
                    i = i + 1;
                }
                proof {
                    assert(all_pairs.skip(pairs@.len() as int) =~= Seq::<
                        (String, Option<String>),
                    >::empty());
                }
                // stitch the date and time into an epoch timestamp, falling
                // back to the clock
                let ts: i64 = match (&date, &time) {
                    (Some(d), Some(tm)) => {
                        match crate::time::local_datetime_epoch_secs(d.as_str(), tm.as_str()) {
                            Some(secs) => secs,
                            None => crate::time::now_secs(),
                        }
                    },
                    _ => crate::time::now_secs(),
                };
                set_field(&mut out, ts_field.clone(), JsonData::Num(JsonNum::Int(ts)));
                TransformOutcome::Emit(Event::Json(JsonData::Obj(out)))
            } else {
                proof {
                    lemma_find_gt_none(bytes@, 0);
                }
                // no priority prefix: parse as plain syslog and hope for
                // the best
                let record = parse_syslog(msg.as_str(), ts_field.as_str());
                TransformOutcome::Emit(Event::Json(JsonData::Obj(record)))
            }
        },
    }
}

} // verus!
